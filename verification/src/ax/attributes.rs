//! The accessibility attributes that window snapshots read.

use vstd::prelude::*;

use super::AxAttribute;

verus! {

/// `AXTitle`.
pub fn title() -> (a: AxAttribute<String>)
    ensures
        a@ == "AXTitle"@,
{
    AxAttribute::new("AXTitle")
}

/// `AXRole`.
pub fn role() -> (a: AxAttribute<String>)
    ensures
        a@ == "AXRole"@,
{
    AxAttribute::new("AXRole")
}

/// `AXSubrole`.
pub fn subrole() -> (a: AxAttribute<String>)
    ensures
        a@ == "AXSubrole"@,
{
    AxAttribute::new("AXSubrole")
}

/// `AXWindows`: the windows of an application, as element handles `E`.
pub fn windows<E>() -> (a: AxAttribute<Vec<E>>)
    ensures
        a@ == "AXWindows"@,
{
    AxAttribute::new("AXWindows")
}

/// `AXFocusedApplication`, as an element handle `E`.
pub fn focused_application<E>() -> (a: AxAttribute<E>)
    ensures
        a@ == "AXFocusedApplication"@,
{
    AxAttribute::new("AXFocusedApplication")
}

/// `AXFocusedWindow`, as an element handle `E`.
pub fn focused_window<E>() -> (a: AxAttribute<E>)
    ensures
        a@ == "AXFocusedWindow"@,
{
    AxAttribute::new("AXFocusedWindow")
}

/// `AXPosition`, as a point `P`.
pub fn position<P>() -> (a: AxAttribute<P>)
    ensures
        a@ == "AXPosition"@,
{
    AxAttribute::new("AXPosition")
}

/// `AXSize`, as a size `S`.
pub fn size<S>() -> (a: AxAttribute<S>)
    ensures
        a@ == "AXSize"@,
{
    AxAttribute::new("AXSize")
}

/// `AXMinimized`.
pub fn minimized() -> (a: AxAttribute<bool>)
    ensures
        a@ == "AXMinimized"@,
{
    AxAttribute::new("AXMinimized")
}

/// `AXMain`.
pub fn main() -> (a: AxAttribute<bool>)
    ensures
        a@ == "AXMain"@,
{
    AxAttribute::new("AXMain")
}

/// `AXWindowNumber`.
pub fn window_number() -> (a: AxAttribute<i64>)
    ensures
        a@ == "AXWindowNumber"@,
{
    AxAttribute::new("AXWindowNumber")
}

} // verus!

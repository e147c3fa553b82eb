//! Choosing the display to capture, and the ways a capture fails.

use vstd::prelude::*;
use vstd::string::*;

use crate::text::{decimal, u64_text};

verus! {

/// Why a screenshot was not written.
pub enum Error {
    /// The path is not valid UTF-8.
    NonUtf8Path,
    /// A file already exists at the path (shown as given).
    AlreadyExists(String),
    /// No active main display is available.
    NoMainDisplay,
    /// The capture framework failed, with its message.
    Capture(String),
}

/// What the capture needs to know of a display.
#[derive(Clone, Copy)]
pub struct DisplayTarget {
    pub id: u32,
    pub main: bool,
    pub pixel_width: usize,
    pub pixel_height: usize,
}

/// The display to capture: the only display of a single-display snapshot,
/// else the first main display of the list; `NoMainDisplay` when there is
/// none.
#[verifier::loop_isolation(false)]
pub fn main_display(
    single_display: Option<DisplayTarget>,
    displays: Option<Vec<DisplayTarget>>,
) -> (r: Result<DisplayTarget, Error>)
    ensures
        single_display matches Some(d) ==> r == Ok::<DisplayTarget, Error>(d),
        single_display is None && displays is None ==> r == Err::<DisplayTarget, Error>(
            Error::NoMainDisplay,
        ),
        single_display is None ==> (displays matches Some(ds) ==> match r {
            Ok(d) => exists|i: int|
                0 <= i < ds@.len() && ds@[i] == d && d.main && forall|j: int|
                    0 <= j < i ==> !(#[trigger] ds@[j].main),
            Err(e) => e == Error::NoMainDisplay && forall|i: int|
                0 <= i < ds@.len() ==> !(#[trigger] ds@[i].main),
        }),
{
    if let Some(d) = single_display {
        return Ok(d);
    }
    match &displays {
        None => Err(Error::NoMainDisplay),
        Some(ds) => {
            let n = ds.len();
            let mut i: usize = 0;
            while i < n
                invariant
                    n == ds@.len(),
                    i <= n,
                    forall|j: int| 0 <= j < i ==> !(#[trigger] ds@[j].main),
                decreases n - i,
            {
                if ds[i].main {
                    let d = ds[i];
                    assert(ds@[i as int] == d);
                    assert(exists|k: int|
                        0 <= k < ds@.len() && ds@[k] == d && d.main && forall|j: int|
                            0 <= j < k ==> !(#[trigger] ds@[j].main));
                    return Ok(d);
                }
                i = i + 1;
            }
            Err(Error::NoMainDisplay)
        },
    }
}

/// The failure reported when the chosen display is not among the
/// capturable ones: `display <id> is not capturable`.
pub fn not_capturable(id: u32) -> (e: Error)
    ensures
        match e {
            Error::Capture(m) => m@ == "display "@ + decimal(id as nat) + " is not capturable"@,
            _ => false,
        },
{
    let mut m = String::from_str("display ");
    let n = u64_text(id as u64);
    m.append(n.as_str());
    m.append(" is not capturable");
    Error::Capture(m)
}

/// The capture size in pixels, as the capture configuration takes it (a
/// `u32` each; larger sizes wrap).
pub fn capture_size(display: &DisplayTarget) -> (r: (u32, u32))
    ensures
        r.0 == display.pixel_width as u32,
        r.1 == display.pixel_height as u32,
{
    (#[verifier::truncate] (display.pixel_width as u32), #[verifier::truncate] (display.pixel_height as u32))
}

} // verus!

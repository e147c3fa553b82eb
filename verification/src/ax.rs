//! Accessibility (AX) error codes, typed attribute names and the decisions
//! that turn raw accessibility replies into results.

pub mod attributes;

use core::marker::PhantomData;
use vstd::prelude::*;
use vstd::string::*;

use crate::text::{i64_text, signed_decimal};

verus! {

/// `kAXErrorSuccess`.
pub const AX_SUCCESS: i32 = 0;
/// `kAXErrorFailure`.
pub const AX_FAILURE: i32 = -25200;
/// `kAXErrorIllegalArgument`.
pub const AX_ILLEGAL_ARGUMENT: i32 = -25201;
/// `kAXErrorInvalidUIElement`.
pub const AX_INVALID_UI_ELEMENT: i32 = -25202;
/// `kAXErrorInvalidUIElementObserver`.
pub const AX_INVALID_UI_ELEMENT_OBSERVER: i32 = -25203;
/// `kAXErrorCannotComplete`.
pub const AX_CANNOT_COMPLETE: i32 = -25204;
/// `kAXErrorAttributeUnsupported`.
pub const AX_ATTRIBUTE_UNSUPPORTED: i32 = -25205;
/// `kAXErrorActionUnsupported`.
pub const AX_ACTION_UNSUPPORTED: i32 = -25206;
/// `kAXErrorNotificationUnsupported`.
pub const AX_NOTIFICATION_UNSUPPORTED: i32 = -25207;
/// `kAXErrorNotImplemented`.
pub const AX_NOT_IMPLEMENTED: i32 = -25208;
/// `kAXErrorAPIDisabled`.
pub const AX_API_DISABLED: i32 = -25211;
/// `kAXErrorNoValue`.
pub const AX_NO_VALUE: i32 = -25212;
/// `kAXErrorParameterizedAttributeUnsupported`.
pub const AX_PARAMETERIZED_ATTRIBUTE_UNSUPPORTED: i32 = -25213;
/// `kAXErrorNotEnoughPrecision`.
pub const AX_NOT_ENOUGH_PRECISION: i32 = -25214;

/// The symbolic name of an accessibility error code.
pub open spec fn ax_error_name_text(code: i32) -> Seq<char> {
    if code == AX_SUCCESS {
        "kAXErrorSuccess"@
    } else if code == AX_FAILURE {
        "kAXErrorFailure"@
    } else if code == AX_ILLEGAL_ARGUMENT {
        "kAXErrorIllegalArgument"@
    } else if code == AX_INVALID_UI_ELEMENT {
        "kAXErrorInvalidUIElement"@
    } else if code == AX_INVALID_UI_ELEMENT_OBSERVER {
        "kAXErrorInvalidUIElementObserver"@
    } else if code == AX_CANNOT_COMPLETE {
        "kAXErrorCannotComplete"@
    } else if code == AX_ATTRIBUTE_UNSUPPORTED {
        "kAXErrorAttributeUnsupported"@
    } else if code == AX_ACTION_UNSUPPORTED {
        "kAXErrorActionUnsupported"@
    } else if code == AX_NOTIFICATION_UNSUPPORTED {
        "kAXErrorNotificationUnsupported"@
    } else if code == AX_NOT_IMPLEMENTED {
        "kAXErrorNotImplemented"@
    } else if code == AX_API_DISABLED {
        "kAXErrorAPIDisabled"@
    } else if code == AX_NO_VALUE {
        "kAXErrorNoValue"@
    } else if code == AX_PARAMETERIZED_ATTRIBUTE_UNSUPPORTED {
        "kAXErrorParameterizedAttributeUnsupported"@
    } else if code == AX_NOT_ENOUGH_PRECISION {
        "kAXErrorNotEnoughPrecision"@
    } else {
        "kAXErrorUnknown"@
    }
}

/// The plain-language description of an accessibility error code.
pub open spec fn ax_error_description_text(code: i32) -> Seq<char> {
    if code == AX_SUCCESS {
        "no error occurred"@
    } else if code == AX_FAILURE {
        "a system error occurred"@
    } else if code == AX_ILLEGAL_ARGUMENT {
        "an illegal argument was passed"@
    } else if code == AX_INVALID_UI_ELEMENT {
        "the AXUIElement is invalid"@
    } else if code == AX_INVALID_UI_ELEMENT_OBSERVER {
        "the AXObserver is invalid"@
    } else if code == AX_CANNOT_COMPLETE {
        "messaging failed or the target application is busy"@
    } else if code == AX_ATTRIBUTE_UNSUPPORTED {
        "the attribute is not supported by this element"@
    } else if code == AX_ACTION_UNSUPPORTED {
        "the action is not supported by this element"@
    } else if code == AX_NOTIFICATION_UNSUPPORTED {
        "the notification is not supported by this element"@
    } else if code == AX_NOT_IMPLEMENTED {
        "the operation is not implemented"@
    } else if code == AX_API_DISABLED {
        "the accessibility API is disabled"@
    } else if code == AX_NO_VALUE {
        "the requested value does not exist"@
    } else if code == AX_PARAMETERIZED_ATTRIBUTE_UNSUPPORTED {
        "the parameterized attribute is not supported by this element"@
    } else if code == AX_NOT_ENOUGH_PRECISION {
        "the value cannot be represented with enough precision"@
    } else {
        "an unknown accessibility error occurred"@
    }
}

/// Symbolic name of an accessibility error code; codes without a name of
/// their own are reported as `kAXErrorUnknown`.
pub fn ax_error_name(code: i32) -> (name: &'static str)
    ensures
        name@ == ax_error_name_text(code),
{
    if code == AX_SUCCESS {
        "kAXErrorSuccess"
    } else if code == AX_FAILURE {
        "kAXErrorFailure"
    } else if code == AX_ILLEGAL_ARGUMENT {
        "kAXErrorIllegalArgument"
    } else if code == AX_INVALID_UI_ELEMENT {
        "kAXErrorInvalidUIElement"
    } else if code == AX_INVALID_UI_ELEMENT_OBSERVER {
        "kAXErrorInvalidUIElementObserver"
    } else if code == AX_CANNOT_COMPLETE {
        "kAXErrorCannotComplete"
    } else if code == AX_ATTRIBUTE_UNSUPPORTED {
        "kAXErrorAttributeUnsupported"
    } else if code == AX_ACTION_UNSUPPORTED {
        "kAXErrorActionUnsupported"
    } else if code == AX_NOTIFICATION_UNSUPPORTED {
        "kAXErrorNotificationUnsupported"
    } else if code == AX_NOT_IMPLEMENTED {
        "kAXErrorNotImplemented"
    } else if code == AX_API_DISABLED {
        "kAXErrorAPIDisabled"
    } else if code == AX_NO_VALUE {
        "kAXErrorNoValue"
    } else if code == AX_PARAMETERIZED_ATTRIBUTE_UNSUPPORTED {
        "kAXErrorParameterizedAttributeUnsupported"
    } else if code == AX_NOT_ENOUGH_PRECISION {
        "kAXErrorNotEnoughPrecision"
    } else {
        "kAXErrorUnknown"
    }
}

/// Plain-language description of an accessibility error code.
pub fn ax_error_description(code: i32) -> (text: &'static str)
    ensures
        text@ == ax_error_description_text(code),
{
    if code == AX_SUCCESS {
        "no error occurred"
    } else if code == AX_FAILURE {
        "a system error occurred"
    } else if code == AX_ILLEGAL_ARGUMENT {
        "an illegal argument was passed"
    } else if code == AX_INVALID_UI_ELEMENT {
        "the AXUIElement is invalid"
    } else if code == AX_INVALID_UI_ELEMENT_OBSERVER {
        "the AXObserver is invalid"
    } else if code == AX_CANNOT_COMPLETE {
        "messaging failed or the target application is busy"
    } else if code == AX_ATTRIBUTE_UNSUPPORTED {
        "the attribute is not supported by this element"
    } else if code == AX_ACTION_UNSUPPORTED {
        "the action is not supported by this element"
    } else if code == AX_NOTIFICATION_UNSUPPORTED {
        "the notification is not supported by this element"
    } else if code == AX_NOT_IMPLEMENTED {
        "the operation is not implemented"
    } else if code == AX_API_DISABLED {
        "the accessibility API is disabled"
    } else if code == AX_NO_VALUE {
        "the requested value does not exist"
    } else if code == AX_PARAMETERIZED_ATTRIBUTE_UNSUPPORTED {
        "the parameterized attribute is not supported by this element"
    } else if code == AX_NOT_ENOUGH_PRECISION {
        "the value cannot be represented with enough precision"
    } else {
        "an unknown accessibility error occurred"
    }
}

/// An accessibility error code as it is shown to users.
pub struct AxErrorDisplay(pub i32);

impl AxErrorDisplay {
    /// `name (code): description`.
    pub open spec fn text(self) -> Seq<char> {
        ax_error_name_text(self.0) + " ("@ + signed_decimal(self.0 as int) + "): "@
            + ax_error_description_text(self.0)
    }

    /// The text of this error: its name, its numeric code in brackets and its
    /// description.
    pub fn to_text(&self) -> (s: String)
        ensures
            s@ == self.text(),
    {
        let mut s = String::from_str(ax_error_name(self.0));
        s.append(" (");
        let code = i64_text(self.0 as i64);
        s.append(code.as_str());
        s.append("): ");
        s.append(ax_error_description(self.0));
        s
    }
}

/// Why an accessibility request failed.
pub enum AxErrorKind {
    /// The accessibility API returned an error code.
    Ax(AxErrorDisplay),
    /// The API reported success but handed back no value.
    UnexpectedNull,
    /// The value had another type than the attribute promises.
    TypeMismatch { expected: &'static str },
    /// A required attribute had no value.
    MissingValue(&'static str),
    /// The process has not been granted Accessibility permission.
    NotTrusted,
}

/// Result of an accessibility request.
pub type AxResult<T> = Result<T, AxErrorKind>;

impl AxErrorKind {
    /// The message of this error.
    pub open spec fn message_text(self) -> Seq<char> {
        match self {
            AxErrorKind::Ax(d) => "AX operation failed: "@ + d.text(),
            AxErrorKind::UnexpectedNull => "AX returned success but returned a null pointer"@,
            AxErrorKind::TypeMismatch { expected } => "AX value had the wrong type; expected "@
                + expected@,
            AxErrorKind::MissingValue(name) => "AX attribute "@ + name@ + " has no value"@,
            AxErrorKind::NotTrusted => "Accessibility permission has not been granted"@,
        }
    }

    /// The message of this error, as it is recorded and shown.
    pub fn message(&self) -> (s: String)
        ensures
            s@ == self.message_text(),
    {
        match self {
            AxErrorKind::Ax(d) => {
                let mut s = String::from_str("AX operation failed: ");
                let t = d.to_text();
                s.append(t.as_str());
                s
            },
            AxErrorKind::UnexpectedNull => String::from_str(
                "AX returned success but returned a null pointer",
            ),
            AxErrorKind::TypeMismatch { expected } => {
                let mut s = String::from_str("AX value had the wrong type; expected ");
                s.append(expected);
                s
            },
            AxErrorKind::MissingValue(name) => {
                let mut s = String::from_str("AX attribute ");
                s.append(name);
                s.append(" has no value");
                s
            },
            AxErrorKind::NotTrusted => String::from_str(
                "Accessibility permission has not been granted",
            ),
        }
    }
}

/// Turns an accessibility status code into a result: success is `Ok`, any
/// other code is the error of that code.
pub fn check(code: i32) -> (r: AxResult<()>)
    ensures
        code == AX_SUCCESS ==> r == Ok::<(), AxErrorKind>(()),
        code != AX_SUCCESS ==> r == Err::<(), AxErrorKind>(AxErrorKind::Ax(AxErrorDisplay(code))),
{
    if code == AX_SUCCESS {
        Ok(())
    } else {
        Err(AxErrorKind::Ax(AxErrorDisplay(code)))
    }
}

/// The name of an accessibility attribute, typed by the value it holds.
pub struct AxAttribute<T> {
    name: &'static str,
    _value: PhantomData<T>,
}

impl<T> View for AxAttribute<T> {
    type V = Seq<char>;

    closed spec fn view(&self) -> Seq<char> {
        self.name@
    }
}

impl<T> AxAttribute<T> {
    /// The attribute with the given native name.
    pub fn new(name: &'static str) -> (a: Self)
        ensures
            a@ == name@,
    {
        AxAttribute { name, _value: PhantomData }
    }

    /// The native name of the attribute.
    pub fn name(self) -> (n: &'static str)
        ensures
            n@ == self@,
    {
        self.name
    }
}

impl<T> Clone for AxAttribute<T> {
    fn clone(&self) -> (c: Self)
        ensures
            c@ == self@,
    {
        AxAttribute { name: self.name, _value: PhantomData }
    }
}

impl<T> Copy for AxAttribute<T> {
}

/// Outcome of copying an attribute's value: `Ok(true)` when a value came
/// back, `Ok(false)` when the attribute has no value (`kAXErrorNoValue`),
/// the error of the code for any other failure, and `UnexpectedNull` when
/// the call succeeded without handing back a value.
pub fn attribute_copy_outcome(code: i32, has_value: bool) -> (r: AxResult<bool>)
    ensures
        code == AX_NO_VALUE ==> r == Ok::<bool, AxErrorKind>(false),
        code != AX_NO_VALUE && code != AX_SUCCESS ==> r == Err::<bool, AxErrorKind>(
            AxErrorKind::Ax(AxErrorDisplay(code)),
        ),
        code == AX_SUCCESS && !has_value ==> r == Err::<bool, AxErrorKind>(
            AxErrorKind::UnexpectedNull,
        ),
        code == AX_SUCCESS && has_value ==> r == Ok::<bool, AxErrorKind>(true),
{
    if code == AX_NO_VALUE {
        return Ok(false);
    }
    match check(code) {
        Err(e) => Err(e),
        Ok(()) => {
            if has_value {
                Ok(true)
            } else {
                Err(AxErrorKind::UnexpectedNull)
            }
        },
    }
}

/// Outcome of asking an element for its window number: on success the
/// number, where a zero number means that the element has none.
pub fn window_id_outcome(code: i32, window_id: u32) -> (r: AxResult<Option<u32>>)
    ensures
        code == AX_SUCCESS && window_id != 0 ==> r == Ok::<Option<u32>, AxErrorKind>(
            Some(window_id),
        ),
        code == AX_SUCCESS && window_id == 0 ==> r == Ok::<Option<u32>, AxErrorKind>(None),
        code != AX_SUCCESS ==> r == Err::<Option<u32>, AxErrorKind>(
            AxErrorKind::Ax(AxErrorDisplay(code)),
        ),
{
    if code == AX_SUCCESS {
        if window_id != 0 {
            Ok(Some(window_id))
        } else {
            Ok(None)
        }
    } else {
        Err(AxErrorKind::Ax(AxErrorDisplay(code)))
    }
}

/// The value of a required attribute: a missing value becomes
/// `MissingValue` with the attribute's name.
pub fn require_value<T>(value: AxResult<Option<T>>, attribute: AxAttribute<T>) -> (r: AxResult<T>)
    ensures
        match value {
            Ok(Some(v)) => r == Ok::<T, AxErrorKind>(v),
            Ok(None) => match r {
                Err(AxErrorKind::MissingValue(n)) => n@ == attribute@,
                _ => false,
            },
            Err(e) => r == Err::<T, AxErrorKind>(e),
        },
{
    match value {
        Ok(Some(v)) => Ok(v),
        Ok(None) => Err(AxErrorKind::MissingValue(attribute.name())),
        Err(e) => Err(e),
    }
}

/// Whether an error is the `kAXErrorCannotComplete` error of the API.
pub open spec fn is_cannot_complete(e: AxErrorKind) -> bool {
    e == AxErrorKind::Ax(AxErrorDisplay(AX_CANNOT_COMPLETE))
}

fn cannot_complete(e: &AxErrorKind) -> (b: bool)
    ensures
        b == is_cannot_complete(*e),
{
    match e {
        AxErrorKind::Ax(d) => d.0 == AX_CANNOT_COMPLETE,
        _ => false,
    }
}

/// What to do after asking the system for the focused application.
pub enum FocusStep<E> {
    /// The answer is final.
    Done(AxResult<Option<E>>),
    /// The system was busy: take the frontmost application instead.
    UseFrontmost,
}

/// Decides the focused application from the system's reply: a busy system
/// (`kAXErrorCannotComplete`) falls back to the frontmost application; any
/// other reply is the answer.
pub fn focused_application_step<E>(reply: AxResult<Option<E>>) -> (step: FocusStep<E>)
    ensures
        match reply {
            Err(e) => if is_cannot_complete(e) {
                step is UseFrontmost
            } else {
                step == FocusStep::Done(Err::<Option<E>, AxErrorKind>(e))
            },
            Ok(a) => step == FocusStep::Done(Ok::<Option<E>, AxErrorKind>(a)),
        },
{
    match reply {
        Ok(a) => FocusStep::Done(Ok(a)),
        Err(e) => {
            if cannot_complete(&e) {
                FocusStep::UseFrontmost
            } else {
                FocusStep::Done(Err(e))
            }
        },
    }
}

/// Decides the focused window from the focused application's reply: a busy
/// application (`kAXErrorCannotComplete`) means no focused window; any other
/// reply is the answer.
pub fn focused_window_outcome<E>(reply: AxResult<Option<E>>) -> (r: AxResult<Option<E>>)
    ensures
        match reply {
            Err(e) => if is_cannot_complete(e) {
                r == Ok::<Option<E>, AxErrorKind>(None)
            } else {
                r == Err::<Option<E>, AxErrorKind>(e)
            },
            Ok(w) => r == Ok::<Option<E>, AxErrorKind>(w),
        },
{
    match reply {
        Ok(w) => Ok(w),
        Err(e) => {
            if cannot_complete(&e) {
                Ok(None)
            } else {
                Err(e)
            }
        },
    }
}

/// The value of a reply, where an error counts as no value.
pub fn ok_value<T>(reply: AxResult<Option<T>>) -> (v: Option<T>)
    ensures
        match reply {
            Ok(x) => v == x,
            Err(_) => v is None,
        },
{
    match reply {
        Ok(x) => x,
        Err(_) => None,
    }
}

/// Succeeds exactly when the process is trusted for accessibility.
pub fn ensure_trusted(trusted: bool) -> (r: AxResult<()>)
    ensures
        trusted ==> r == Ok::<(), AxErrorKind>(()),
        !trusted ==> r == Err::<(), AxErrorKind>(AxErrorKind::NotTrusted),
{
    if trusted {
        Ok(())
    } else {
        Err(AxErrorKind::NotTrusted)
    }
}

/// A converted value, or `TypeMismatch` naming the expected type when the
/// value was of another type.
pub fn expect_type<V>(converted: Option<V>, expected: &'static str) -> (r: AxResult<V>)
    ensures
        match converted {
            Some(v) => r == Ok::<V, AxErrorKind>(v),
            None => r == Err::<V, AxErrorKind>(AxErrorKind::TypeMismatch { expected }),
        },
{
    match converted {
        Some(v) => Ok(v),
        None => Err(AxErrorKind::TypeMismatch { expected }),
    }
}

/// Collects converted array items: all values in order when every item
/// converted, else the error of the first item that did not.
pub fn collect_values<T>(items: Vec<AxResult<T>>) -> (r: AxResult<Vec<T>>)
    ensures
        (forall|i: int| 0 <= i < items@.len() ==> #[trigger] items@[i] is Ok) ==> (r matches Ok(
            v,
        ) && v@.len() == items@.len() && forall|i: int|
            0 <= i < items@.len() ==> Ok::<T, AxErrorKind>(#[trigger] v@[i]) == items@[i]),
        (exists|i: int| 0 <= i < items@.len() && #[trigger] items@[i] is Err) ==> r is Err,
        r matches Err(e) ==> exists|i: int|
            0 <= i < items@.len() && items@[i] == Err::<T, AxErrorKind>(e) && forall|j: int|
                0 <= j < i ==> #[trigger] items@[j] is Ok,
{
    let ghost original = items@;
    let mut rest = items;
    let mut out: Vec<T> = Vec::new();
    let n = rest.len();
    let mut i: usize = 0;
    while i < n
        invariant
            original == items@,
            n == original.len(),
            i <= n,
            rest@ == original.subrange(i as int, n as int),
            out@.len() == i,
            forall|j: int| 0 <= j < i ==> Ok::<T, AxErrorKind>(#[trigger] out@[j]) == original[j],
        decreases n - i,
    {
        let item = rest.remove(0);
        assert(item == original[i as int]);
        match item {
            Ok(v) => {
                out.push(v);
            },
            Err(e) => {
                assert(forall|j: int| 0 <= j < i ==> #[trigger] original[j] is Ok) by {
                    assert forall|j: int| 0 <= j < i implies #[trigger] original[j] is Ok by {
                        assert(Ok::<T, AxErrorKind>(out@[j]) == original[j]);
                    }
                }
                assert(original[i as int] == Err::<T, AxErrorKind>(e));
                return Err(e);
            },
        }
        i = i + 1;
    }
    assert forall|j: int| 0 <= j < items@.len() implies !(#[trigger] items@[j] is Err) by {
        assert(Ok::<T, AxErrorKind>(out@[j]) == original[j]);
    }
    Ok(out)
}

} // verus!

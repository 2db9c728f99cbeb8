//! What a driver operation can fail with.

use vstd::prelude::*;
use vstd::std_specs::convert::FromSpecImpl;
use vstd::string::StringExecFns;

use crate::history::{ran, Step};

verus! {

/// The error of a display operation.
#[derive(Debug, Clone, Copy)]
pub enum LcdError<E> {
    /// A bus write failed; the transport's own error is inside, unchanged.
    I2c(E),
    /// An argument was malformed. No operation returns it at present.
    InvalidParameter,
}

impl<E> From<E> for LcdError<E> {
    fn from(error: E) -> (r: Self) {
        LcdError::I2c(error)
    }
}

impl<E> FromSpecImpl<E> for LcdError<E> {
    open spec fn obeys_from_spec() -> bool {
        true
    }

    open spec fn from_spec(error: E) -> Self {
        LcdError::I2c(error)
    }
}

/// Formats the transport's error as its `Debug` form: `format!` with
/// `{:?}`. Nothing is claimed of the text, which is up to the error type.
#[verifier::external_body]
fn debug_text<E: core::fmt::Debug>(error: &E) -> (text: String) {
    format!("{:?}", error)
}

/// The message of a bus error whose transport error reads `detail`:
/// `I2C Error: ` followed by `detail`.
pub fn bus_error_message(detail: &str) -> (text: String)
    ensures
        text@ == "I2C Error: "@ + detail@,
{
    String::from_str("I2C Error: ").concat(detail)
}

impl<E: core::fmt::Debug> LcdError<E> {
    /// The message of the error: for a bus error what
    /// [`bus_error_message`] makes of the `Debug` form of the transport's
    /// error, and `Invalid parameter` otherwise.
    pub fn message(&self) -> (text: String)
        ensures
            self is I2c ==> exists|detail: Seq<char>| text@ == "I2C Error: "@ + detail,
            self is InvalidParameter ==> text@ == "Invalid parameter"@,
    {
        match self {
            LcdError::I2c(e) => {
                let detail = debug_text(e);
                let text = bus_error_message(detail.as_str());
                assert(text@ == "I2C Error: "@ + detail@);
                text
            },
            LcdError::InvalidParameter => String::from_str("Invalid parameter"),
        }
    }
}

/// The transport error behind the result of an operation, if there is one.
pub open spec fn cause<E>(result: Result<(), LcdError<E>>) -> Option<E> {
    match result {
        Err(LcdError::I2c(error)) => Some(error),
        _ => None,
    }
}

/// `after` is `before` followed by one run of `plan` that ended with
/// `result`: all of the plan on `Ok`, and on a bus error the part up to the
/// write that the transport refused with the very error that `result` wraps.
/// No run ends with `InvalidParameter`.
pub open spec fn performed<E>(
    before: Seq<Step<E>>,
    after: Seq<Step<E>>,
    plan: Seq<Step<E>>,
    result: Result<(), LcdError<E>>,
) -> bool {
    &&& !(result matches Err(LcdError::InvalidParameter))
    &&& ran(before, after, plan, cause(result))
}

} // verus!

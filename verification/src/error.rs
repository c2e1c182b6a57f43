//! The failures that an operation on a `BigNumber` can report.

use openssl::error::ErrorStack;
use vstd::prelude::*;
use vstd::string::*;

use crate::engine::engine_error_text;

verus! {

/// Why an operation failed. Each variant carries a description for people.
#[derive(Debug, PartialEq, Eq)]
pub enum Error {
    /// Malformed text, a zero divisor or modulus, or a size the engine cannot take.
    InvalidInput(String),
    /// The operand has no inverse modulo the given modulus.
    InvalidStructure(String),
    /// The engine itself failed; the text is the engine's own description.
    InvalidState(String),
}

/// The text that starts the description of every engine failure.
pub open spec fn engine_failure_prefix() -> Seq<char> {
    "Internal OpenSSL error: "@
}

impl Error {
    /// The description carried by the error, whatever its kind.
    pub open spec fn text(self) -> Seq<char> {
        match self {
            Error::InvalidInput(m) => m@,
            Error::InvalidStructure(m) => m@,
            Error::InvalidState(m) => m@,
        }
    }

    /// The description carried by the error.
    pub fn message(&self) -> (r: &str)
        ensures
            r@ == self.text(),
    {
        match self {
            Error::InvalidInput(m) => m.as_str(),
            Error::InvalidStructure(m) => m.as_str(),
            Error::InvalidState(m) => m.as_str(),
        }
    }
}

impl From<ErrorStack> for Error {
    /// Consumes an engine failure and reports it as `InvalidState`, with the
    /// engine's description behind a fixed prefix.
    fn from(err: ErrorStack) -> (r: Error)
        ensures
            r is InvalidState,
            r.text().len() >= engine_failure_prefix().len(),
            r.text().subrange(0, engine_failure_prefix().len() as int) == engine_failure_prefix(),
    {
        let detail = engine_error_text(&err);
        let message = String::from_str("Internal OpenSSL error: ").concat(detail.as_str());
        assert(message@.subrange(0, engine_failure_prefix().len() as int) =~= engine_failure_prefix());
        Error::InvalidState(message)
    }
}

impl vstd::std_specs::convert::FromSpecImpl<ErrorStack> for Error {
    open spec fn obeys_from_spec() -> bool {
        false
    }

    open spec fn from_spec(v: ErrorStack) -> Error {
        arbitrary()
    }
}

/// What an operation makes of the engine's answer: the answer itself where
/// the engine succeeded, and its failure as `InvalidState` where it did not.
pub fn checked<T>(answer: Result<T, ErrorStack>) -> (r: Result<T, Error>)
    ensures
        answer matches Ok(value) ==> r == Ok::<T, Error>(value),
        answer is Err ==> r is Err,
        r matches Err(e) ==> e is InvalidState && e.text().subrange(
            0,
            engine_failure_prefix().len() as int,
        ) == engine_failure_prefix(),
{
    match answer {
        Ok(value) => Ok(value),
        Err(stack) => Err(Error::from(stack)),
    }
}

} // verus!

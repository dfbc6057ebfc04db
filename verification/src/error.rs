//! The error that every operation reports: a message for the caller.
use vstd::prelude::*;
use vstd::string::*;

use crate::json::{Json, JsonModel};

verus! {

/// Why an operation failed.
#[derive(Debug, PartialEq)]
pub struct Error {
    pub message: String,
}

impl View for Error {
    type V = Seq<char>;

    open spec fn view(&self) -> Seq<char> {
        self.message@
    }
}

/// What an operation answers: a value, or the message of an error.
pub open spec fn outcome(r: Result<Json, Error>) -> Result<JsonModel, Seq<char>> {
    match r {
        Ok(j) => Ok(j@),
        Err(e) => Err(e@),
    }
}

/// What a function gives that finds a text or fails.
pub open spec fn text_outcome(r: Result<String, Error>) -> Result<Seq<char>, Seq<char>> {
    match r {
        Ok(s) => Ok(s@),
        Err(e) => Err(e@),
    }
}

/// The message for an option that is not there.
pub open spec fn missing(key: Seq<char>) -> Seq<char> {
    "missing "@ + key
}

impl Error {
    /// An error with that message.
    pub fn new(message: &str) -> (r: Error)
        ensures
            r@ == message@,
    {
        Error { message: message.to_owned() }
    }

    /// An error that names what it is about.
    pub fn about(before: &str, subject: &str, after: &str) -> (r: Error)
        ensures
            r@ == before@ + subject@ + after@,
    {
        let mut message = before.to_owned();
        message.append(subject);
        message.append(after);
        Error { message }
    }

    /// An error that ends with what it is about.
    pub fn of(before: &str, subject: &str) -> (r: Error)
        ensures
            r@ == before@ + subject@,
    {
        let mut message = before.to_owned();
        message.append(subject);
        Error { message }
    }

    /// The error for an option that is not there.
    pub fn missing(key: &str) -> (r: Error)
        ensures
            r@ == missing(key@),
    {
        Error::of("missing ", key)
    }
}

/// What a function gave is its text, or the message of its error.
pub proof fn law_outcomes(s: String, e: Error)
    ensures
        text_outcome(Ok(s)) == Ok::<Seq<char>, Seq<char>>(s@),
        text_outcome(Err(e)) == Err::<Seq<char>, Seq<char>>(e.message@),
{
}

} // verus!

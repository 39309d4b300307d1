//! Errors that carry a stable machine code and, where there is one, a hint
//! at the remedy.

use crate::text::{concat3, option_view};
use vstd::prelude::*;
use vstd::string::StringExecFns;

verus! {

/// An error that can say what it is called and how it may be mended.
pub trait Diagnosable {
    /// The text of the error.
    spec fn message_of(&self) -> Seq<char>;

    /// The machine code of the error.
    spec fn code_of(&self) -> Seq<char>;

    /// The hint at a remedy, if there is one.
    spec fn suggestion_of(&self) -> Option<Seq<char>>;

    /// The text of the error.
    fn message(&self) -> (out: String)
        ensures
            out@ == self.message_of(),
    ;

    /// A unique machine-readable code, such as `FS_IO_ERROR`.
    fn code(&self) -> (out: String)
        ensures
            out@ == self.code_of(),
    ;

    /// A human-readable suggestion for how to fix the error.
    fn suggestion(&self) -> (out: Option<String>)
        ensures
            option_view(out) == self.suggestion_of(),
    ;
}

/// The error that every fallible operation of the engine returns: the
/// message, code and suggestion of the error it was made from.
#[derive(Debug, Clone)]
pub struct Error {
    message: String,
    code: String,
    suggestion: Option<String>,
}

impl Error {
    pub closed spec fn message_view(&self) -> Seq<char> {
        self.message@
    }

    pub closed spec fn code_view(&self) -> Seq<char> {
        self.code@
    }

    pub closed spec fn suggestion_view(&self) -> Option<Seq<char>> {
        option_view(self.suggestion)
    }

    /// Records what `error` says of itself.
    pub fn new<E: Diagnosable>(error: E) -> (out: Error)
        ensures
            out.message_view() == error.message_of(),
            out.code_view() == error.code_of(),
            out.suggestion_view() == error.suggestion_of(),
    {
        Error { message: error.message(), code: error.code(), suggestion: error.suggestion() }
    }

    /// The text of the error.
    pub fn message(&self) -> (out: &str)
        ensures
            out@ == self.message_view(),
    {
        self.message.as_str()
    }

    /// The machine code of the error.
    pub fn code(&self) -> (out: &str)
        ensures
            out@ == self.code_view(),
    {
        self.code.as_str()
    }

    /// The hint at a remedy, if there is one.
    pub fn suggestion(&self) -> (out: Option<&str>)
        ensures
            match out {
                Some(s) => self.suggestion_view() == Some(s@),
                None => self.suggestion_view() is None,
            },
    {
        match &self.suggestion {
            Some(s) => Some(s.as_str()),
            None => None,
        }
    }

    /// The error in one line: `<message> (Code: <code>)`.
    pub fn describe(&self) -> (out: String)
        ensures
            out@ == self.message_view() + " (Code: "@ + self.code_view() + ")"@,
    {
        let mut out = concat3(self.message.as_str(), " (Code: ", self.code.as_str());
        out.append(")");
        out
    }
}

} // verus!

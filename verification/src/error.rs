//! The one kind of error that a call can end in.

use vstd::prelude::*;

verus! {

/// A failure: a numeric code and a message for people to read.
///
/// Code `0` means "no error" on the wire, so no `Error` carries it.
#[derive(Debug, PartialEq, Eq)]
pub struct Error {
    code: u32,
    message: String,
}

/// The mathematical content of an [`Error`].
pub ghost struct ErrorView {
    pub code: u32,
    pub message: Seq<char>,
}

impl View for Error {
    type V = ErrorView;

    closed spec fn view(&self) -> ErrorView {
        ErrorView { code: self.code, message: self.message@ }
    }
}

impl Error {
    #[verifier::type_invariant]
    spec fn well_formed(self) -> bool {
        self.code != 0
    }

    /// An error with the given code and message; none for code `0`.
    pub fn new(code: u32, message: String) -> (error: Option<Error>)
        ensures
            code == 0 <==> error is None,
            error matches Some(e) ==> e@ == (ErrorView { code, message: message@ }),
    {
        if code == 0 {
            None
        } else {
            Some(Error { code, message })
        }
    }

    /// The error's code, which is not `0`.
    pub fn code(&self) -> (code: u32)
        ensures
            code == self@.code,
            code != 0,
    {
        proof {
            use_type_invariant(self);
        }
        self.code
    }

    /// The error's message.
    pub fn message(&self) -> (message: &String)
        ensures
            message@ == self@.message,
    {
        &self.message
    }

    /// Takes the error apart into its code, which is not `0`, and its message.
    pub fn into_parts(self) -> (parts: (u32, String))
        ensures
            parts.0 == self@.code,
            parts.0 != 0,
            parts.1@ == self@.message,
    {
        proof {
            use_type_invariant(&self);
        }
        (self.code, self.message)
    }
}

} // verus!

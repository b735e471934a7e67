//! The failures an operation of the client can end in.

use vstd::prelude::*;

verus! {

/// What went wrong with a call.
#[derive(Debug, Clone, Copy, PartialEq, Eq, Structural)]
pub enum LoopiaErrorKind {
    /// The remote API rejected the credentials.
    AuthenticationError,
    /// The remote API reported its generic failure, or the reply did not have
    /// the shape the operation expects.
    UnknownError,
    /// The call never produced a decoded reply: the HTTP exchange or the
    /// decoding of its body failed.
    RuntimeError,
    /// A record in an otherwise successful reply lacks a required field, or
    /// holds it with the wrong wire type.
    MalformedRecordError,
}

/// The error of an operation; it carries exactly one [`LoopiaErrorKind`].
#[derive(Debug, PartialEq)]
pub struct Error(LoopiaErrorKind);

impl View for Error {
    type V = LoopiaErrorKind;

    closed spec fn view(&self) -> LoopiaErrorKind {
        self.0
    }
}

impl Error {
    pub fn new(error: LoopiaErrorKind) -> (e: Self)
        ensures
            e@ == error,
    {
        Error(error)
    }

    pub fn inner(&self) -> (kind: &LoopiaErrorKind)
        ensures
            *kind == self@,
    {
        &self.0
    }
}

} // verus!

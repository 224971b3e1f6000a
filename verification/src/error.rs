//! Errors surfaced by the front end: a closed set of kinds, each with a
//! message. There is no recovery; each stage returns its first error.

use vstd::prelude::*;

verus! {

/// The closed set of error kinds.
#[derive(Debug, Clone, Copy, PartialEq, Eq, Structural)]
pub enum ErrorKind {
    /// Malformed token, unterminated string, invalid numeric literal.
    LexError,
    /// Unexpected token, missing `end`, invalid definition form.
    ParseError,
    /// Reference to an unknown class, constant, method or local.
    NameError,
    /// Arity or argument-type mismatch, return-type mismatch,
    /// if-branch conflict, `self` out of scope.
    TypeError,
    /// User-level consistency violation (duplicate class, bad superclass).
    ProgramError,
    /// Internal invariant violation; never produced by this crate's
    /// verified code, kept so the set of kinds is complete.
    BugError,
}

/// An error: a kind plus a human-readable message.
#[derive(Debug)]
pub struct Error {
    pub kind: ErrorKind,
    pub msg: String,
}

impl Error {
    pub fn kind(&self) -> (k: ErrorKind)
        ensures
            k == self.kind,
    {
        self.kind
    }

    /// The message, for display by a caller.
    pub fn message(&self) -> (m: &str)
        ensures
            m@ == self.msg@,
    {
        self.msg.as_str()
    }
}

pub fn lex_error(msg: &str) -> (e: Error)
    ensures
        e.kind == ErrorKind::LexError,
{
    Error { kind: ErrorKind::LexError, msg: msg.to_owned() }
}

pub fn parse_error(msg: &str) -> (e: Error)
    ensures
        e.kind == ErrorKind::ParseError,
{
    Error { kind: ErrorKind::ParseError, msg: msg.to_owned() }
}

pub fn name_error(msg: &str) -> (e: Error)
    ensures
        e.kind == ErrorKind::NameError,
{
    Error { kind: ErrorKind::NameError, msg: msg.to_owned() }
}

pub fn type_error(msg: &str) -> (e: Error)
    ensures
        e.kind == ErrorKind::TypeError,
{
    Error { kind: ErrorKind::TypeError, msg: msg.to_owned() }
}

pub fn program_error(msg: &str) -> (e: Error)
    ensures
        e.kind == ErrorKind::ProgramError,
{
    Error { kind: ErrorKind::ProgramError, msg: msg.to_owned() }
}

} // verus!

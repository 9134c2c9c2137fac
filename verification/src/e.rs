//! The two-kind error taxonomy every failure of this subsystem is reduced to.
use vstd::prelude::*;

verus! {

/// The failure classes: a low-level transport failure, or anything else.
#[derive(Clone, Copy, Debug, PartialEq, Eq, Structural)]
pub enum ErrorKind {
    Network,
    Internal,
}

/// A classified failure carrying the underlying message unchanged.
#[derive(Clone, Debug, PartialEq, Eq)]
pub struct S5Error {
    pub kind: ErrorKind,
    pub message: String,
}

impl S5Error {
    /// Builds an error of the given kind with the given message.
    pub fn new(kind: ErrorKind, message: &str) -> (r: S5Error)
        ensures
            r.kind == kind,
            r.message@ == message@,
    {
        S5Error { kind, message: message.to_owned() }
    }
}

} // verus!

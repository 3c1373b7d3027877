//! Error kinds of the message core.

use vstd::prelude::*;

verus! {

/// Message ID was invalid.
///
/// This usually occurs when trying to use a reserved message id in a
/// situation where this is not possible.
#[derive(Debug, Copy, Clone, PartialEq, Eq, Structural)]
pub struct InvalidMsgId;

impl InvalidMsgId {
    /// Human-readable description of the error.
    pub fn text(&self) -> (r: String)
        ensures
            r@ == "Invalid Message ID."@,
    {
        String::from_str("Invalid Message ID.")
    }
}

/// Error kinds of operations on the message store.
#[derive(Debug, Copy, Clone, PartialEq, Eq, Structural)]
pub enum Error {
    /// An operation requiring a real message id was given a reserved one.
    InvalidIdentity,
    /// No row exists for the requested real id.
    NotFound,
}

impl Error {
    /// Human-readable description of the error kind.
    pub fn text(&self) -> (r: String)
        ensures
            *self is InvalidIdentity ==> r@ == "Invalid Message ID."@,
            *self is NotFound ==> r@ == "Message not found."@,
    {
        match self {
            Error::InvalidIdentity => String::from_str("Invalid Message ID."),
            Error::NotFound => String::from_str("Message not found."),
        }
    }
}

} // verus!

//! The message envelope exchanged with the remote counterpart.

use vstd::prelude::*;

verus! {

/// The envelope kinds of the wire protocol.
#[derive(Clone, Copy, Debug, PartialEq, Eq, Structural)]
pub enum MessageType {
    /// Station registration.
    Register,
    /// Session progress report.
    Update,
    /// Session completion report.
    Complete,
    /// Station fault report.
    Fault,
    /// New charging request.
    New,
    /// Cancellation request.
    Cancel,
    /// Administrative close.
    Close,
    /// Administrative reopen.
    Open,
}

/// One wire message: a kind plus its payload, itself a serialized document
/// embedded as a string.
#[derive(Clone, Debug)]
pub struct MSG {
    pub type_: MessageType,
    pub data: String,
}

} // verus!

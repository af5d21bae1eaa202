//! Error types shared with the I/O-thread port adapters.
//!
//! The transport adapters bridge a blocking native resource to an event
//! loop on a thread of their own; these are the error values their send and
//! receive operations report back into the rest of the system.
use vstd::prelude::*;

verus! {

/// `std::io::Error`: the operating-system error carried through a failed
/// send, held opaquely.
#[verifier::external_type_specification]
#[verifier::external_body]
pub struct ExIoError(std::io::Error);

/// Send error.
#[derive(Debug)]
pub enum SendError {
    /// Receiver end is disconnected.
    Disonnected,
    /// I/O error.
    IoError(std::io::Error),
}

/// TryRecv error.
#[derive(Debug)]
pub enum TryRecvError {
    /// No data, would block.
    Empty,
    /// Sender end is disconnected.
    Disconnected,
}

} // verus!

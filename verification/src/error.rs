//! The ways in which an operation on a queue ends without its result.
use crate::control::Side;
use vstd::prelude::*;

verus! {

/// What a caller has to sleep on before it tries again.
#[derive(Clone, Copy, Debug, PartialEq, Eq, Structural)]
pub enum Park {
    /// Until the offset of `side` is no longer `expected`.
    Offset { side: Side, expected: u32 },
    /// Until the lock of `side` is released.
    Lock { side: Side },
    /// Until a waiter has read the event counter of `side`, which is full.
    Event { side: Side },
}

/// Why an operation on a queue did not complete.
#[derive(Clone, Copy, Debug, PartialEq, Eq, Structural)]
pub enum QueueError {
    /// A message would exceed what the ring can ever hold.
    SizeTooLarge,
    /// The ring would have no bytes, or would outgrow 32-bit offsets.
    InvalidInput,
    /// The shared file has an impossible size, a negotiation message has an
    /// unexpected payload, or a message carried no descriptor.
    HandshakeMalformed,
    /// A system call failed with this error number.
    Oserr(i32),
    /// A wait on an event descriptor timed out, here or at the peer.
    Deadlock,
    /// The operation can only go on after the caller has slept.
    WouldBlock(Park),
}

impl QueueError {
    /// A short description of the failure.
    pub fn message(&self) -> (text: &'static str)
        ensures
            text@ == (match *self {
                QueueError::SizeTooLarge => "tried to write too much"@,
                QueueError::InvalidInput => "queue size must be positive and within reach of 32-bit offsets"@,
                QueueError::HandshakeMalformed => "malformed handshake"@,
                QueueError::Oserr(_) => "system call failed"@,
                QueueError::Deadlock => "wait on event descriptor timed out"@,
                QueueError::WouldBlock(_) => "operation would block"@,
            }),
    {
        match self {
            QueueError::SizeTooLarge => "tried to write too much",
            QueueError::InvalidInput => "queue size must be positive and within reach of 32-bit offsets",
            QueueError::HandshakeMalformed => "malformed handshake",
            QueueError::Oserr(_) => "system call failed",
            QueueError::Deadlock => "wait on event descriptor timed out",
            QueueError::WouldBlock(_) => "operation would block",
        }
    }
}

} // verus!

//! The handshake over a named file: whoever gets the exclusive advisory
//! lock on the file owns the queue; everybody else waits for a shared lock,
//! which the owner grants by giving up its exclusive one.
use crate::error::QueueError;
use crate::handshake::recover_queue_size;
use crate::handshake::round_up;
use crate::handshake::shared_len;
use crate::handshake::spec_round_up;
use crate::handshake::spec_well_sized;
use crate::handshake::HandshakeResult;
use crate::handshake::ReadySignal;
use vstd::prelude::*;

verus! {

/// How the attempt went to lock the file exclusively without blocking.
#[derive(Clone, Copy, Debug, PartialEq, Eq, Structural)]
pub enum LockAttempt {
    /// The lock was granted.
    Acquired,
    /// Somebody else holds a lock.
    WouldBlock,
    /// The system call failed with this error number.
    Failed(i32),
}

/// What a party does next with the file.
#[derive(Clone, Copy, Debug, PartialEq, Eq, Structural)]
pub enum NamedFileNext {
    /// This party owns the queue: give the file `file_len` bytes and go on
    /// with the ring size `queue_size`.
    Create { file_len: u64, queue_size: usize },
    /// Another party owns the queue: block for the shared lock, then read
    /// the size of the file.
    Join,
}

/// The outcome of a handshake over a named file.
#[derive(Debug)]
pub struct NamedFileHandshakeResult {
    fd: i32,
    owner: bool,
    queue_size: usize,
    ready: bool,
}

/// Decides the role of this party from the attempt to lock the file. An
/// owner gets the size to give the file; the requested ring size counts
/// only for it, rounded up to whole pages.
pub fn named_file(attempt: LockAttempt, queue_size: usize, page_size: usize) -> (res: Result<
    NamedFileNext,
    QueueError,
>)
    requires
        page_size > 0,
    ensures
        res == match attempt {
            LockAttempt::Failed(code) => Err::<NamedFileNext, QueueError>(QueueError::Oserr(code)),
            LockAttempt::WouldBlock => Ok::<NamedFileNext, QueueError>(NamedFileNext::Join),
            LockAttempt::Acquired => if page_size + spec_round_up(
                queue_size as nat,
                page_size as nat,
            ) <= usize::MAX {
                Ok::<NamedFileNext, QueueError>(
                    NamedFileNext::Create {
                        file_len: (page_size + spec_round_up(
                            queue_size as nat,
                            page_size as nat,
                        )) as u64,
                        queue_size: spec_round_up(queue_size as nat, page_size as nat) as usize,
                    },
                )
            } else {
                Err::<NamedFileNext, QueueError>(QueueError::InvalidInput)
            },
        },
{
    match attempt {
        LockAttempt::Failed(code) => Err(QueueError::Oserr(code)),
        LockAttempt::WouldBlock => Ok(NamedFileNext::Join),
        LockAttempt::Acquired => {
            let rounded: usize = match round_up(queue_size, page_size) {
                Some(rounded) => rounded,
                None => {
                    return Err(QueueError::InvalidInput);
                },
            };
            if rounded > usize::MAX - page_size {
                return Err(QueueError::InvalidInput);
            }
            match shared_len(rounded, page_size) {
                Some(file_len) => Ok(NamedFileNext::Create { file_len, queue_size: rounded }),
                None => Err(QueueError::InvalidInput),
            }
        },
    }
}

impl NamedFileHandshakeResult {
    pub closed spec fn fd(&self) -> i32 {
        self.fd
    }

    pub closed spec fn owner(&self) -> bool {
        self.owner
    }

    pub closed spec fn size(&self) -> usize {
        self.queue_size
    }

    pub closed spec fn ready(&self) -> bool {
        self.ready
    }

    /// The result of the party that sized the file for a ring of
    /// `queue_size` bytes. It holds the exclusive lock; nobody else can
    /// have a result before it declares the queue ready.
    pub fn created(fd: i32, queue_size: usize) -> (result: Self)
        ensures
            result.fd() == fd,
            result.owner(),
            result.size() == queue_size,
            !result.ready(),
    {
        NamedFileHandshakeResult { fd, owner: true, queue_size, ready: false }
    }

    /// The result of a party that was granted the shared lock and found
    /// the file `file_len` bytes long.
    pub fn joined(fd: i32, file_len: u64, page_size: usize) -> (res: Result<Self, QueueError>)
        requires
            page_size > 0,
        ensures
            res is Ok == spec_well_sized(file_len as nat, page_size as nat),
            res matches Err(error) ==> error == QueueError::HandshakeMalformed,
            res matches Ok(result) ==> {
                &&& result.fd() == fd
                &&& !result.owner()
                &&& result.size() == file_len - page_size
                &&& result.ready()
            },
    {
        match recover_queue_size(file_len, page_size) {
            Ok(queue_size) => Ok(
                NamedFileHandshakeResult { fd, owner: false, queue_size, ready: true },
            ),
            Err(error) => Err(error),
        }
    }
}

impl HandshakeResult for NamedFileHandshakeResult {
    open spec fn spec_shmem_fd(&self) -> i32 {
        self.fd()
    }

    open spec fn spec_is_owner(&self) -> bool {
        self.owner()
    }

    open spec fn spec_queue_size(&self) -> usize {
        self.size()
    }

    open spec fn spec_ready(&self) -> bool {
        self.ready()
    }

    fn shmem_fd(&self) -> (fd: i32) {
        self.fd
    }

    fn is_owner(&self) -> (owner: bool) {
        self.owner
    }

    fn queue_size(&self) -> (size: usize) {
        self.queue_size
    }

    /// The owner lets its peers in by turning its lock into a shared one.
    fn mark_ready(&mut self) -> (signal: ReadySignal)
        ensures
            signal == if old(self).owner() && !old(self).ready() {
                ReadySignal::ShareLock
            } else {
                ReadySignal::Nothing
            },
    {
        let first = self.owner && !self.ready;
        self.ready = true;
        if first {
            ReadySignal::ShareLock
        } else {
            ReadySignal::Nothing
        }
    }
}

} // verus!

//! The handshake over a local stream socket: whoever binds the socket
//! owns the queue and passes a descriptor of anonymous memory to the party
//! that connects. The socket stays and carries further descriptors, each
//! tagged with its number.
use crate::error::QueueError;
use crate::handshake::recover_queue_size;
use crate::handshake::round_up;
use crate::handshake::same_bytes;
use crate::handshake::shared_len;
use crate::handshake::spec_round_up;
use crate::handshake::spec_tag;
use crate::handshake::spec_well_sized;
use crate::handshake::tag;
use crate::handshake::Exchange;
use crate::handshake::ExchangeFd;
use crate::handshake::HandshakeResult;
use crate::handshake::ReadySignal;
use std::collections::VecDeque;
use vstd::prelude::*;
use vstd::string::StringSliceAdditionalSpecFns;

verus! {

/// How many payload bytes a party reads of one message.
pub const PAYLOAD_BUF_SIZE: usize = 128;

/// The payload that travels with the descriptor of the shared memory.
pub open spec fn spec_negotiation_message() -> Seq<u8> {
    "memequeue uds memfd negotiation".spec_bytes()
}

/// The payload that travels with the descriptor of the shared memory.
pub fn negotiation_message() -> (payload: &'static [u8])
    ensures
        payload@ == spec_negotiation_message(),
{
    "memequeue uds memfd negotiation".as_bytes()
}

/// How the attempt went to bind the socket.
#[derive(Clone, Copy, Debug, PartialEq, Eq, Structural)]
pub enum BindOutcome {
    /// The socket is bound: nobody was there before.
    Bound,
    /// The address is in use: somebody listens already.
    AddrInUse,
    /// The system call failed with this error number.
    Failed(i32),
}

/// What a party does next with the socket.
#[derive(Clone, Copy, Debug, PartialEq, Eq, Structural)]
pub enum UdsMemfdNext {
    /// This party owns the queue: accept one connection, create the memory
    /// object, give it `file_len` bytes and go on with the ring size
    /// `queue_size`.
    Create { file_len: u64, queue_size: usize },
    /// Another party owns the queue: connect, remove the socket's path and
    /// read descriptors until the one of the shared memory has come.
    Join,
}

/// Decides the role of this party from the attempt to bind the socket.
pub fn uds_memfd(outcome: BindOutcome, queue_size: usize, page_size: usize) -> (res: Result<
    UdsMemfdNext,
    QueueError,
>)
    requires
        page_size > 0,
    ensures
        res == match outcome {
            BindOutcome::Failed(code) => Err::<UdsMemfdNext, QueueError>(QueueError::Oserr(code)),
            BindOutcome::AddrInUse => Ok::<UdsMemfdNext, QueueError>(UdsMemfdNext::Join),
            BindOutcome::Bound => if page_size + spec_round_up(
                queue_size as nat,
                page_size as nat,
            ) <= usize::MAX {
                Ok::<UdsMemfdNext, QueueError>(
                    UdsMemfdNext::Create {
                        file_len: (page_size + spec_round_up(
                            queue_size as nat,
                            page_size as nat,
                        )) as u64,
                        queue_size: spec_round_up(queue_size as nat, page_size as nat) as usize,
                    },
                )
            } else {
                Err::<UdsMemfdNext, QueueError>(QueueError::InvalidInput)
            },
        },
{
    match outcome {
        BindOutcome::Failed(code) => Err(QueueError::Oserr(code)),
        BindOutcome::AddrInUse => Ok(UdsMemfdNext::Join),
        BindOutcome::Bound => {
            let rounded: usize = match round_up(queue_size, page_size) {
                Some(rounded) => rounded,
                None => {
                    return Err(QueueError::InvalidInput);
                },
            };
            if rounded > usize::MAX - page_size {
                return Err(QueueError::InvalidInput);
            }
            match shared_len(rounded, page_size) {
                Some(file_len) => Ok(UdsMemfdNext::Create { file_len, queue_size: rounded }),
                None => Err(QueueError::InvalidInput),
            }
        },
    }
}

/// What a peer has learnt while it waits for the shared memory: how many
/// tagged descriptors came first, and which.
pub struct Negotiation {
    exchange_fd_counter: usize,
    recv_fd_queue: VecDeque<i32>,
}

impl Negotiation {
    pub closed spec fn tagged(&self) -> nat {
        self.exchange_fd_counter as nat
    }

    pub closed spec fn queued(&self) -> Seq<i32> {
        self.recv_fd_queue@
    }

    /// How many tagged descriptors came so far.
    pub fn exchange_fd_counter(&self) -> (count: usize)
        ensures
            count == self.tagged(),
    {
        self.exchange_fd_counter
    }

    /// A peer that has received nothing yet.
    pub fn new() -> (negotiation: Self)
        ensures
            negotiation.tagged() == 0,
            negotiation.queued() == Seq::<i32>::empty(),
    {
        Negotiation { exchange_fd_counter: 0, recv_fd_queue: VecDeque::new() }
    }

    /// Takes in one message. The negotiation message ends the wait: its
    /// descriptor is the shared memory. The tag that is next in turn sets
    /// its descriptor aside. Any other payload is malformed.
    pub fn receive(&mut self, fd: i32, payload: &[u8]) -> (res: Result<Option<i32>, QueueError>)
        requires
            old(self).tagged() < usize::MAX,
        ensures
            payload@ == spec_negotiation_message() ==> {
                &&& res == Ok::<Option<i32>, QueueError>(Some(fd))
                &&& final(self).tagged() == old(self).tagged()
                &&& final(self).queued() == old(self).queued()
            },
            payload@ != spec_negotiation_message() && payload@ == spec_tag(
                old(self).tagged() + 1,
            ) ==> {
                &&& res == Ok::<Option<i32>, QueueError>(None)
                &&& final(self).tagged() == old(self).tagged() + 1
                &&& final(self).queued() == old(self).queued().push(fd)
            },
            payload@ != spec_negotiation_message() && payload@ != spec_tag(
                old(self).tagged() + 1,
            ) ==> {
                &&& res == Err::<Option<i32>, QueueError>(QueueError::HandshakeMalformed)
                &&& final(self).tagged() == old(self).tagged()
                &&& final(self).queued() == old(self).queued()
            },
    {
        if same_bytes(payload, negotiation_message()) {
            return Ok(Some(fd));
        }
        let next = tag(self.exchange_fd_counter + 1);
        if same_bytes(payload, next.as_slice()) {
            self.recv_fd_queue.push_back(fd);
            self.exchange_fd_counter = self.exchange_fd_counter + 1;
            Ok(None)
        } else {
            Err(QueueError::HandshakeMalformed)
        }
    }

    /// The result of a peer that received the shared memory as `fd` and
    /// found it `file_len` bytes long.
    pub fn joined(self, fd: i32, file_len: u64, page_size: usize) -> (res: Result<
        UdsMemfdHandshakeResult,
        QueueError,
    >)
        requires
            page_size > 0,
        ensures
            res is Ok == spec_well_sized(file_len as nat, page_size as nat),
            res matches Err(error) ==> error == QueueError::HandshakeMalformed,
            res matches Ok(result) ==> {
                &&& result.fd() == fd
                &&& !result.owner()
                &&& result.size() == file_len - page_size
                &&& result.ready()
                &&& result.tagged() == self.tagged()
                &&& result.queued() == self.queued()
            },
    {
        match recover_queue_size(file_len, page_size) {
            Ok(queue_size) => Ok(
                UdsMemfdHandshakeResult {
                    fd,
                    owner: false,
                    queue_size,
                    exchange_fd_counter: self.exchange_fd_counter,
                    recv_fd_queue: self.recv_fd_queue,
                    ready: true,
                },
            ),
            Err(error) => Err(error),
        }
    }
}

/// The outcome of a handshake over a socket.
pub struct UdsMemfdHandshakeResult {
    fd: i32,
    owner: bool,
    queue_size: usize,
    exchange_fd_counter: usize,
    recv_fd_queue: VecDeque<i32>,
    ready: bool,
}

impl UdsMemfdHandshakeResult {
    pub closed spec fn fd(&self) -> i32 {
        self.fd
    }

    pub closed spec fn owner(&self) -> bool {
        self.owner
    }

    pub closed spec fn size(&self) -> usize {
        self.queue_size
    }

    pub closed spec fn ready(&self) -> bool {
        self.ready
    }

    pub closed spec fn tagged(&self) -> nat {
        self.exchange_fd_counter as nat
    }

    pub closed spec fn queued(&self) -> Seq<i32> {
        self.recv_fd_queue@
    }

    /// How many descriptors were tagged so far, sent or awaited.
    pub fn exchange_fd_counter(&self) -> (count: usize)
        ensures
            count == self.tagged(),
    {
        self.exchange_fd_counter
    }

    /// The result of the party that created the memory object `fd` for a
    /// ring of `queue_size` bytes.
    pub fn created(fd: i32, queue_size: usize) -> (result: Self)
        ensures
            result.fd() == fd,
            result.owner(),
            result.size() == queue_size,
            !result.ready(),
            result.tagged() == 0,
            result.queued() == Seq::<i32>::empty(),
    {
        UdsMemfdHandshakeResult {
            fd,
            owner: true,
            queue_size,
            exchange_fd_counter: 0,
            recv_fd_queue: VecDeque::new(),
            ready: false,
        }
    }
}

impl HandshakeResult for UdsMemfdHandshakeResult {
    open spec fn spec_shmem_fd(&self) -> i32 {
        self.fd()
    }

    open spec fn spec_is_owner(&self) -> bool {
        self.owner()
    }

    open spec fn spec_queue_size(&self) -> usize {
        self.size()
    }

    open spec fn spec_ready(&self) -> bool {
        self.ready()
    }

    fn shmem_fd(&self) -> (fd: i32) {
        self.fd
    }

    fn is_owner(&self) -> (owner: bool) {
        self.owner
    }

    fn queue_size(&self) -> (size: usize) {
        self.queue_size
    }

    /// The owner lets its peer in by sending it the shared memory.
    fn mark_ready(&mut self) -> (signal: ReadySignal)
        ensures
            signal == if old(self).owner() && !old(self).ready() {
                ReadySignal::SendDescriptor
            } else {
                ReadySignal::Nothing
            },
            final(self).tagged() == old(self).tagged(),
            final(self).queued() == old(self).queued(),
    {
        let first = self.owner && !self.ready;
        self.ready = true;
        if first {
            ReadySignal::SendDescriptor
        } else {
            ReadySignal::Nothing
        }
    }
}

impl ExchangeFd for UdsMemfdHandshakeResult {
    open spec fn spec_tagged(&self) -> nat {
        self.tagged()
    }

    open spec fn spec_queued(&self) -> Seq<i32> {
        self.queued()
    }

    fn send_fd(&mut self, fd: i32) -> (payload: Vec<u8>) {
        self.exchange_fd_counter = self.exchange_fd_counter + 1;
        tag(self.exchange_fd_counter)
    }

    fn recv_fd(&mut self) -> (next: Exchange) {
        if let Some(fd) = self.recv_fd_queue.pop_front() {
            return Exchange::Queued(fd);
        }
        self.exchange_fd_counter = self.exchange_fd_counter + 1;
        Exchange::Expect(tag(self.exchange_fd_counter))
    }
}

} // verus!

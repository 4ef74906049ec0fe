//! How two processes come to share one queue: who creates the shared
//! region, how large it is, and when the other party may use it.
use crate::error::QueueError;
use vstd::prelude::*;

pub mod named_file;
pub mod uds_memfd;

verus! {

/// The role of a process in a handshake.
#[derive(Clone, Copy, Debug, PartialEq, Eq, Structural)]
pub enum Role {
    /// The party that sizes and clears the shared region.
    Owner,
    /// The party that finds the region made.
    Peer,
}

/// The least multiple of `page_size` that is not below `queue_size`.
pub open spec fn spec_round_up(queue_size: nat, page_size: nat) -> nat {
    if queue_size % page_size == 0 {
        queue_size
    } else {
        (queue_size + page_size - queue_size % page_size) as nat
    }
}

/// Rounds a ring size up to whole pages, unless the result would not fit.
pub fn round_up(queue_size: usize, page_size: usize) -> (rounded: Option<usize>)
    requires
        page_size > 0,
    ensures
        rounded is Some == (spec_round_up(queue_size as nat, page_size as nat) <= usize::MAX),
        rounded matches Some(size) ==> {
            &&& size == spec_round_up(queue_size as nat, page_size as nat)
            &&& size % page_size == 0
            &&& queue_size <= size < queue_size + page_size
        },
{
    let over: usize = queue_size % page_size;
    if over == 0 {
        Some(queue_size)
    } else {
        let pad: usize = page_size - over;
        if queue_size > usize::MAX - pad {
            None
        } else {
            proof {
                lemma_padded_is_multiple(queue_size as int, page_size as int);
            }
            Some(queue_size + pad)
        }
    }
}

proof fn lemma_padded_is_multiple(size: int, page: int)
    requires
        0 <= size,
        0 < page,
    ensures
        (size + page - size % page) % page == 0,
{
    vstd::arithmetic::div_mod::lemma_fundamental_div_mod(size, page);
    let whole = size / page;
    assert(size + page - size % page == page * (whole + 1)) by (nonlinear_arith)
        requires
            size == page * whole + size % page,
    ;
    vstd::arithmetic::div_mod::lemma_mod_multiples_basic(whole + 1, page);
    assert(page * (whole + 1) == (whole + 1) * page) by (nonlinear_arith);
}

/// The size of the shared file: the header page and the ring behind it.
pub fn shared_len(queue_size: usize, page_size: usize) -> (len: Option<u64>)
    ensures
        len is Some == (page_size + queue_size <= u64::MAX),
        len matches Some(bytes) ==> bytes == page_size + queue_size,
{
    let total: u128 = page_size as u128 + queue_size as u128;
    if total <= u64::MAX as u128 {
        Some(total as u64)
    } else {
        None
    }
}

/// Whether a shared file of `file_len` bytes holds a header page and a
/// ring of whole pages behind it.
pub open spec fn spec_well_sized(file_len: nat, page_size: nat) -> bool {
    &&& file_len <= usize::MAX
    &&& file_len > page_size
    &&& (file_len - page_size) % (page_size as int) == 0
}

/// The ring size that a peer reads off the size of the shared file.
pub fn recover_queue_size(file_len: u64, page_size: usize) -> (res: Result<usize, QueueError>)
    requires
        page_size > 0,
    ensures
        res is Ok == spec_well_sized(file_len as nat, page_size as nat),
        res matches Ok(size) ==> size == file_len - page_size,
        res matches Err(error) ==> error == QueueError::HandshakeMalformed,
{
    if file_len > usize::MAX as u64 {
        return Err(QueueError::HandshakeMalformed);
    }
    let len: usize = file_len as usize;
    if len <= page_size {
        return Err(QueueError::HandshakeMalformed);
    }
    let queue_size: usize = len - page_size;
    if queue_size % page_size != 0 {
        return Err(QueueError::HandshakeMalformed);
    }
    Ok(queue_size)
}

/// What the owner owes its peer once the queue is set up.
#[derive(Clone, Copy, Debug, PartialEq, Eq, Structural)]
pub enum ReadySignal {
    /// Nothing: this party is the peer, or the signal was given before.
    Nothing,
    /// Turn the exclusive lock on the file into a shared one.
    ShareLock,
    /// Send the descriptor of the shared memory with the negotiation message.
    SendDescriptor,
}

/// The outcome of a handshake: the shared memory, its ring size and the
/// role of this process.
pub trait HandshakeResult {
    spec fn spec_shmem_fd(&self) -> i32;

    spec fn spec_is_owner(&self) -> bool;

    spec fn spec_queue_size(&self) -> usize;

    /// Whether the peer may use the queue as far as this party knows.
    spec fn spec_ready(&self) -> bool;

    /// The descriptor of the shared memory.
    fn shmem_fd(&self) -> (fd: i32)
        ensures
            fd == self.spec_shmem_fd(),
    ;

    /// Whether this process sized and cleared the shared region.
    fn is_owner(&self) -> (owner: bool)
        ensures
            owner == self.spec_is_owner(),
    ;

    /// The size of the ring in bytes.
    fn queue_size(&self) -> (size: usize)
        ensures
            size == self.spec_queue_size(),
    ;

    /// Declares the queue ready; only an owner that has not done so before
    /// has something to tell its peer.
    fn mark_ready(&mut self) -> (signal: ReadySignal)
        ensures
            final(self).spec_ready(),
            final(self).spec_shmem_fd() == old(self).spec_shmem_fd(),
            final(self).spec_is_owner() == old(self).spec_is_owner(),
            final(self).spec_queue_size() == old(self).spec_queue_size(),
            (signal != ReadySignal::Nothing) == (old(self).spec_is_owner() && !old(
                self,
            ).spec_ready()),
    ;
}

/// What a party does to pass on a descriptor, or to get the next one.
#[derive(Debug, PartialEq, Eq)]
pub enum Exchange {
    /// A descriptor that arrived early and was kept: nothing is read.
    Queued(i32),
    /// Read one message from the channel; its payload has to be this tag.
    Expect(Vec<u8>),
}

/// The channel of a handshake that can carry more descriptors than the
/// one of the shared memory. Each passes with a tag that counts them, so
/// that a message out of turn is told apart.
pub trait ExchangeFd {
    /// How many descriptors were tagged so far, sent or awaited.
    spec fn spec_tagged(&self) -> nat;

    /// The descriptors that arrived before they were awaited, oldest first.
    spec fn spec_queued(&self) -> Seq<i32>;

    /// The tag with which the next descriptor travels. The caller sends
    /// `fd` with this payload.
    fn send_fd(&mut self, fd: i32) -> (payload: Vec<u8>)
        requires
            old(self).spec_tagged() < usize::MAX,
        ensures
            final(self).spec_tagged() == old(self).spec_tagged() + 1,
            final(self).spec_queued() == old(self).spec_queued(),
            payload@ == spec_tag(final(self).spec_tagged()),
    ;

    /// The next descriptor if one is kept, else the tag that the next
    /// message has to carry.
    fn recv_fd(&mut self) -> (next: Exchange)
        requires
            old(self).spec_tagged() < usize::MAX,
        ensures
            old(self).spec_queued().len() > 0 ==> {
                &&& next == Exchange::Queued(old(self).spec_queued()[0])
                &&& final(self).spec_queued() == old(self).spec_queued().drop_first()
                &&& final(self).spec_tagged() == old(self).spec_tagged()
            },
            old(self).spec_queued().len() == 0 ==> {
                &&& next matches Exchange::Expect(payload)
                &&& payload@ == spec_tag(final(self).spec_tagged())
                &&& final(self).spec_queued() == old(self).spec_queued()
                &&& final(self).spec_tagged() == old(self).spec_tagged() + 1
            },
    ;
}

/// The payload that tags the descriptor with the number `count`: the
/// number as a machine word, least significant byte first.
pub open spec fn spec_tag(count: nat) -> Seq<u8> {
    crate::word::le_bytes(count, crate::word::word_width())
}

/// The payload that tags the descriptor with the number `count`.
pub fn tag(count: usize) -> (payload: Vec<u8>)
    ensures
        payload@ == spec_tag(count as nat),
{
    crate::word::encode_word(count, crate::word::ByteOrder::Little)
}

/// Whether two byte strings are the same.
pub fn same_bytes(left: &[u8], right: &[u8]) -> (same: bool)
    ensures
        same == (left@ == right@),
{
    if left.len() != right.len() {
        return false;
    }
    let n: usize = left.len();
    let mut i: usize = 0;
    while i < n
        invariant
            n == left@.len(),
            n == right@.len(),
            i <= n,
            forall|k: int| 0 <= k < i ==> left@[k] == right@[k],
        decreases n - i,
    {
        if left[i] != right[i] {
            return false;
        }
        i = i + 1;
    }
    assert(left@ =~= right@);
    true
}

/// The descriptor that a message is expected to carry: `fd`, if the
/// payload is the one awaited.
pub fn recv_fd_expecting(fd: i32, payload: &[u8], expected_payload: &[u8]) -> (res: Result<
    i32,
    QueueError,
>)
    ensures
        res == if payload@ == expected_payload@ {
            Ok::<i32, QueueError>(fd)
        } else {
            Err::<i32, QueueError>(QueueError::HandshakeMalformed)
        },
{
    if !same_bytes(payload, expected_payload) {
        return Err(QueueError::HandshakeMalformed);
    }
    Ok(fd)
}

/// One ancillary item of a received message.
#[derive(Debug, PartialEq, Eq)]
pub enum Ancillary {
    /// Descriptors passed by the sender.
    Rights(Vec<i32>),
    /// Anything else.
    Other,
}

/// The first descriptor among the ancillary items, in their order.
pub open spec fn spec_first_descriptor(items: Seq<Ancillary>) -> Option<i32>
    decreases items.len(),
{
    if items.len() == 0 {
        None
    } else {
        match items[0] {
            Ancillary::Rights(fds) if fds@.len() > 0 => Some(fds@[0]),
            _ => spec_first_descriptor(items.drop_first()),
        }
    }
}

/// The descriptor that a received message carries: the first one of its
/// ancillary data. A message without one is malformed.
pub fn recv_fd(items: &[Ancillary]) -> (res: Result<i32, QueueError>)
    ensures
        res == match spec_first_descriptor(items@) {
            Some(fd) => Ok::<i32, QueueError>(fd),
            None => Err::<i32, QueueError>(QueueError::HandshakeMalformed),
        },
{
    let n: usize = items.len();
    let mut i: usize = 0;
    proof {
        assert(items@.subrange(0, n as int) =~= items@);
    }
    while i < n
        invariant
            n == items@.len(),
            i <= n,
            spec_first_descriptor(items@) == spec_first_descriptor(
                items@.subrange(i as int, n as int),
            ),
        decreases n - i,
    {
        let ghost rest = items@.subrange(i as int, n as int);
        proof {
            assert(rest.drop_first() =~= items@.subrange(i + 1, n as int));
            assert(rest[0] == items@[i as int]);
        }
        match &items[i] {
            Ancillary::Rights(fds) => {
                if fds.len() > 0 {
                    return Ok(fds[0]);
                }
            },
            Ancillary::Other => {},
        }
        i = i + 1;
    }
    Err(QueueError::HandshakeMalformed)
}

} // verus!

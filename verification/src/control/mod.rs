//! The control plane: the two sides of a queue and what each may do to the
//! header that they share.
use crate::control::shmem_futex::spec_cached;
use crate::control::shmem_futex::spec_joined;
use crate::control::shmem_futex::Header;
use crate::control::shmem_futex::LOCK_CONTENDED;
use crate::control::shmem_futex::LOCK_FREE;
use crate::control::shmem_futex::LOCK_HELD;
use crate::error::Park;
use crate::error::QueueError;
use crate::handshake::HandshakeResult;
use crate::stats::Stats;
use vstd::prelude::*;

pub mod eventfd;
pub mod shmem_futex;

verus! {

/// One end of the queue: the reader is on the left, the writer on the right.
#[derive(Debug, Clone, Copy, PartialEq, Eq, Structural)]
pub enum Side {
    Left,
    Right,
}

impl Side {
    pub open spec fn spec_other(self) -> Side {
        match self {
            Side::Left => Side::Right,
            Side::Right => Side::Left,
        }
    }

    /// The opposite end.
    #[verifier::when_used_as_spec(spec_other)]
    pub fn other(self) -> (side: Side)
        ensures
            side == self.spec_other(),
    {
        match self {
            Side::Left => Side::Right,
            Side::Right => Side::Left,
        }
    }
}

/// The capabilities that the ring engine needs of the header: a mutex per
/// side, the offsets with the caches that shadow them, and the bookkeeping
/// around sleeping and waking.
///
/// The contracts describe a header that nobody else touches between two
/// calls; what a second party does in between is an operation of its own.
/// What a control plane sleeps on besides the header is its own; how a
/// wait or a wake-up ends, and what it leaves behind there, is a function
/// of the header and of that.
pub trait Control: Sized {
    type Config;

    type LockGuard;

    /// What the control plane sleeps on besides the words of the header.
    type Events;

    /// The words of the header.
    spec fn header(&self) -> Header;

    /// The counters of this control plane.
    spec fn spec_stats(&self) -> Stats;

    /// The configuration that this control plane was made with.
    spec fn spec_config(&self) -> Self::Config;

    /// What the control plane sleeps on besides the header, as it is now.
    spec fn events(&self) -> Self::Events;

    /// What a control plane sleeps on besides the header when it attaches.
    spec fn no_events() -> Self::Events;

    /// The side whose lock a guard stands for.
    spec fn guarded(guard: &Self::LockGuard) -> Side;

    /// Whether a wait for the offset of `side` to leave `expected` ends up
    /// in the kernel.
    spec fn parks(config: Self::Config, header: Header, side: Side, expected: u32) -> bool;

    /// How a wait ends for the offset of `side` to leave `expected`.
    spec fn wait_outcome(
        config: Self::Config,
        header: Header,
        events: Self::Events,
        side: Side,
        expected: u32,
    ) -> Result<(), QueueError>;

    /// What such a wait leaves of what the control plane sleeps on.
    spec fn events_after_wait(
        config: Self::Config,
        header: Header,
        events: Self::Events,
        side: Side,
        expected: u32,
    ) -> Self::Events;

    /// How a notification of `side` ends.
    spec fn notify_outcome(header: Header, events: Self::Events, side: Side) -> Result<
        (),
        QueueError,
    >;

    /// What such a notification leaves of what the control plane sleeps on.
    spec fn events_after_notify(header: Header, events: Self::Events, side: Side) -> Self::Events;

    /// Why this control plane cannot attach with `config` in the role
    /// given, if it cannot.
    spec fn attach_error(config: Self::Config, is_owner: bool) -> Option<QueueError>;

    fn stats(&self) -> (stats: &Stats)
        ensures
            *stats == self.spec_stats(),
    ;

    /// Attaches to the header that a mapping shows, for the party that
    /// `handshake_result` describes: the owner clears the header, and
    /// either party forgets both cached offsets.
    fn new<H: HandshakeResult>(
        config: Self::Config,
        header: Header,
        handshake_result: &mut H,
    ) -> (res: Result<Self, QueueError>)
        ensures
            final(handshake_result).spec_shmem_fd() == old(handshake_result).spec_shmem_fd(),
            final(handshake_result).spec_is_owner() == old(handshake_result).spec_is_owner(),
            final(handshake_result).spec_queue_size() == old(handshake_result).spec_queue_size(),
            final(handshake_result).spec_ready() == old(handshake_result).spec_ready(),
            match res {
                Ok(control) => {
                    &&& Self::attach_error(config, old(handshake_result).spec_is_owner()) is None
                    &&& control.header() == header.attached(
                        old(handshake_result).spec_is_owner(),
                    )
                    &&& control.spec_stats() == Stats::spec_new()
                    &&& control.spec_config() == config
                    &&& control.events() == Self::no_events()
                },
                Err(error) => Self::attach_error(
                    config,
                    old(handshake_result).spec_is_owner(),
                ) == Some(error),
            },
    ;

    /// Takes the lock of `side` if it is free; marks it as slept on if not.
    fn lock(&mut self, side: Side) -> (res: Result<Self::LockGuard, QueueError>)
        ensures
            final(self).spec_config() == old(self).spec_config(),
            final(self).events() == old(self).events(),
            final(self).spec_stats() == old(self).spec_stats(),
            match res {
                Ok(guard) => {
                    &&& old(self).header().spec_half(side).lock == LOCK_FREE
                    &&& Self::guarded(&guard) == side
                    &&& final(self).header() == old(self).header().with_lock(side, LOCK_HELD)
                },
                Err(error) => {
                    &&& old(self).header().spec_half(side).lock != LOCK_FREE
                    &&& error == QueueError::WouldBlock(Park::Lock { side })
                    &&& final(self).header() == old(self).header().with_lock(side, LOCK_CONTENDED)
                },
            },
    ;

    /// Gives the lock back that `guard` stands for.
    fn unlock(&mut self, guard: Self::LockGuard)
        ensures
            final(self).spec_config() == old(self).spec_config(),
            final(self).events() == old(self).events(),
            final(self).spec_stats() == old(self).spec_stats(),
            final(self).header() == old(self).header().with_lock(Self::guarded(&guard), LOCK_FREE),
    ;

    /// Sleeps until the offset of `side` may have left `expected`. A
    /// thread that gives up waiting stays among the waiters; nothing else
    /// of the header changes.
    fn wait(&mut self, side: Side, expected: u32) -> (res: Result<(), QueueError>)
        ensures
            final(self).spec_config() == old(self).spec_config(),
            res == Self::wait_outcome(
                old(self).spec_config(),
                old(self).header(),
                old(self).events(),
                side,
                expected,
            ),
            final(self).events() == Self::events_after_wait(
                old(self).spec_config(),
                old(self).header(),
                old(self).events(),
                side,
                expected,
            ),
            final(self).header() == if res is Ok {
                old(self).header()
            } else {
                old(self).header().with_waiters(
                    side,
                    spec_joined(old(self).header().spec_waiters(side)),
                )
            },
            final(self).spec_stats() == if Self::parks(
                old(self).spec_config(),
                old(self).header(),
                side,
                expected,
            ) {
                old(self).spec_stats().waited(side)
            } else {
                old(self).spec_stats()
            },
    ;

    /// Wakes one thread that sleeps on the offset of `side`, if any does.
    /// The wake-up is counted even where it fails.
    fn notify(&mut self, side: Side) -> (res: Result<(), QueueError>)
        ensures
            final(self).spec_config() == old(self).spec_config(),
            res == Self::notify_outcome(old(self).header(), old(self).events(), side),
            final(self).events() == Self::events_after_notify(
                old(self).header(),
                old(self).events(),
                side,
            ),
            final(self).header() == old(self).header(),
            final(self).spec_stats() == if old(self).header().spec_waiters(side) != 0 {
                old(self).spec_stats().notified(side)
            } else {
                old(self).spec_stats()
            },
    ;

    /// The offset of `side`, read without synchronisation.
    fn load_offset(&self, side: Side) -> (offset: u32)
        ensures
            offset == self.header().spec_half(side).offset,
    ;

    /// The offset of `side`, read so that everything written before it was
    /// published is visible; the other side's cache keeps what was read.
    fn sync_load_offset(&mut self, side: Side) -> (offset: u32)
        ensures
            final(self).spec_config() == old(self).spec_config(),
            final(self).events() == old(self).events(),
            offset == old(self).header().spec_half(side).offset,
            final(self).header() == old(self).header().with_cache(side.other(), offset),
            final(self).spec_stats() == old(self).spec_stats(),
    ;

    /// What the other side last saw of the offset of `side`.
    fn cached_offset(&self, side: Side) -> (offset: Option<u32>)
        ensures
            offset == spec_cached(self.header().spec_half(side.other()).cached_other_offset),
    ;

    /// Publishes a new offset for `side`.
    fn commit_offset(&mut self, side: Side, offset: u32)
        ensures
            final(self).spec_config() == old(self).spec_config(),
            final(self).events() == old(self).events(),
            final(self).header() == old(self).header().with_offset(side, offset),
            final(self).spec_stats() == old(self).spec_stats(),
    ;

    /// Replaces both offsets and both caches at once.
    fn fix_offsets(&mut self, left_offset: u32, right_offset: u32)
        ensures
            final(self).spec_config() == old(self).spec_config(),
            final(self).events() == old(self).events(),
            final(self).header() == old(self).header().fixed(left_offset, right_offset),
            final(self).spec_stats() == old(self).spec_stats(),
    ;
}

} // verus!

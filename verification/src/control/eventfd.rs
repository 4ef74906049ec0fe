//! The control plane that keeps locks, offsets and caches in the header as
//! the futex one does, but sleeps on a pair of event descriptors, one per
//! side, which the owner creates and passes to its peer.
//!
//! Every decision is a function of what a system call returned. The
//! control plane of this module runs them on counters of its own, which
//! stand for what the two descriptors hold while nobody else writes to
//! them: a poll finds a descriptor ready exactly if its counter is not zero.
use crate::control::shmem_futex::joined;
use crate::control::shmem_futex::must_wake;
use crate::control::shmem_futex::Half;
use crate::control::shmem_futex::Header;
use crate::control::shmem_futex::ShmemFutexControl;
use crate::control::shmem_futex::ShmemFutexControlConfig;
use crate::control::shmem_futex::ShmemFutexGuard;
use crate::control::Control;
use crate::control::Side;
use crate::error::Park;
use crate::error::QueueError;
use crate::handshake::HandshakeResult;
use crate::stats::Stats;
use vstd::prelude::*;

verus! {

/// The value that a notification writes to an event descriptor.
pub const WAKE: u64 = 1;

/// The value by which a party that gave up waiting tells its peer.
pub const DEADLOCK_SENTINEL: u64 = 0xDEAD;

/// What stands for a descriptor where there is none.
pub const NO_EVENT: i32 = -1;

/// The greatest value that the counter of an event descriptor holds.
pub const EVENT_MAX: u64 = 0xffff_ffff_ffff_fffe;

/// What the event control plane is set up with: the two descriptors that
/// the setup gave. The owner creates them and passes them to its peer,
/// the peer receives them (see `setup_step`).
#[derive(Debug, Clone, Copy, PartialEq, Eq, Structural)]
pub struct EventFdControlConfig {
    /// The descriptor that waiters on the left offset sleep on.
    pub left_event: i32,
    /// The descriptor that waiters on the right offset sleep on.
    pub right_event: i32,
}

impl Default for EventFdControlConfig {
    /// No descriptors.
    fn default() -> (config: EventFdControlConfig)
        ensures
            config == (EventFdControlConfig { left_event: NO_EVENT, right_event: NO_EVENT }),
    {
        EventFdControlConfig { left_event: NO_EVENT, right_event: NO_EVENT }
    }
}

/// The control plane that sleeps on event descriptors. It keeps what the
/// counters of the two descriptors hold as far as it has written and read
/// them itself.
pub struct EventFdControl {
    shmem_futex: ShmemFutexControl,
    config: EventFdControlConfig,
    left_count: u64,
    right_count: u64,
}

/// The proof of having taken the lock of one side.
pub struct EventFdGuard(pub ShmemFutexGuard);

/// What the counters of the two event descriptors hold.
#[derive(Clone, Copy, Debug, PartialEq, Eq, Structural)]
pub struct EventCounts {
    /// The counter of the descriptor of the left side.
    pub left: u64,
    /// The counter of the descriptor of the right side.
    pub right: u64,
}

impl EventCounts {
    /// The counter of the descriptor of `side`.
    pub open spec fn of(self, side: Side) -> u64 {
        match side {
            Side::Left => self.left,
            Side::Right => self.right,
        }
    }

    /// These counters with another one for `side`.
    pub open spec fn with(self, side: Side, count: u64) -> EventCounts {
        match side {
            Side::Left => EventCounts { left: count, ..self },
            Side::Right => EventCounts { right: count, ..self },
        }
    }
}

/// One step of setting the descriptors up.
#[derive(Clone, Copy, Debug, PartialEq, Eq, Structural)]
pub enum SetupStep {
    /// Create the event descriptor of `side`, with a zero counter.
    Create { side: Side },
    /// Pass the event descriptor of `side` to the peer.
    Send { side: Side },
    /// Take the event descriptor of `side` from the owner.
    Receive { side: Side },
}

/// The step that follows when `done` steps of the setup are made: the
/// owner creates both descriptors and sends both, the left one first; the
/// peer receives both in that order.
pub open spec fn spec_setup_step(is_owner: bool, done: nat) -> Option<SetupStep> {
    if is_owner {
        if done == 0 {
            Some(SetupStep::Create { side: Side::Left })
        } else if done == 1 {
            Some(SetupStep::Create { side: Side::Right })
        } else if done == 2 {
            Some(SetupStep::Send { side: Side::Left })
        } else if done == 3 {
            Some(SetupStep::Send { side: Side::Right })
        } else {
            None
        }
    } else {
        if done == 0 {
            Some(SetupStep::Receive { side: Side::Left })
        } else if done == 1 {
            Some(SetupStep::Receive { side: Side::Right })
        } else {
            None
        }
    }
}

/// The step of the setup that follows `done` steps, if one is left.
pub fn setup_step(is_owner: bool, done: usize) -> (step: Option<SetupStep>)
    ensures
        step == spec_setup_step(is_owner, done as nat),
{
    if is_owner {
        if done == 0 {
            Some(SetupStep::Create { side: Side::Left })
        } else if done == 1 {
            Some(SetupStep::Create { side: Side::Right })
        } else if done == 2 {
            Some(SetupStep::Send { side: Side::Left })
        } else if done == 3 {
            Some(SetupStep::Send { side: Side::Right })
        } else {
            None
        }
    } else {
        if done == 0 {
            Some(SetupStep::Receive { side: Side::Left })
        } else if done == 1 {
            Some(SetupStep::Receive { side: Side::Right })
        } else {
            None
        }
    }
}

/// What a waiting thread does next.
#[derive(Clone, Copy, Debug, PartialEq, Eq, Structural)]
pub enum EventWait {
    /// Count the wait and poll `fd` for input, for at most `timeout_ms`.
    Poll { fd: i32, timeout_ms: i32 },
    /// Read the eight bytes of the counter of `fd`.
    Read { fd: i32 },
    /// The poll timed out: write `value` to `fd`, the peer's descriptor, so
    /// that the peer gives up too, and fail with a deadlock.
    GiveUp { fd: i32, value: u64 },
    /// Leave the waiters and return.
    Leave,
}

/// How long a wait on `side` polls, in milliseconds. The sides differ so
/// that they do not give up at the same moment.
pub open spec fn spec_poll_timeout(side: Side) -> i32 {
    match side {
        Side::Left => 5000,
        Side::Right => 6000,
    }
}

#[verifier::when_used_as_spec(spec_poll_timeout)]
pub fn poll_timeout(side: Side) -> (timeout_ms: i32)
    ensures
        timeout_ms == spec_poll_timeout(side),
{
    match side {
        Side::Left => 5000,
        Side::Right => 6000,
    }
}

/// How a read of an event counter ends a wait: a failed read is an error
/// of the system, the sentinel tells that the peer gave up, and any other
/// value is a wake-up.
pub fn after_read(outcome: Result<u64, i32>) -> (res: Result<(), QueueError>)
    ensures
        res == match outcome {
            Err(code) => Err::<(), QueueError>(QueueError::Oserr(code)),
            Ok(value) => if value == DEADLOCK_SENTINEL {
                Err::<(), QueueError>(QueueError::Deadlock)
            } else {
                Ok::<(), QueueError>(())
            },
        },
{
    match outcome {
        Err(code) => Err(QueueError::Oserr(code)),
        Ok(value) => if value == DEADLOCK_SENTINEL {
            Err(QueueError::Deadlock)
        } else {
            Ok(())
        },
    }
}

/// The step of a wait after the thread joined the waiters of `side` and
/// read `observed` as the offset, where `event` is the descriptor of
/// `side`: it polls only if the offset is still the one it waits to change.
pub fn wait_step(event: i32, side: Side, observed: u32, expected: u32) -> (step: EventWait)
    ensures
        step == if observed == expected {
            EventWait::Poll { fd: event, timeout_ms: spec_poll_timeout(side) }
        } else {
            EventWait::Leave
        },
{
    if observed == expected {
        EventWait::Poll { fd: event, timeout_ms: poll_timeout(side) }
    } else {
        EventWait::Leave
    }
}

/// The step of a wait after the poll of `event` reported `ready`
/// descriptors: with none, the thread gives up and tells the peer through
/// `peer_event`, the descriptor of the other side.
pub fn poll_step(event: i32, peer_event: i32, ready: i32) -> (step: EventWait)
    ensures
        step == if ready < 1 {
            EventWait::GiveUp { fd: peer_event, value: DEADLOCK_SENTINEL }
        } else {
            EventWait::Read { fd: event }
        },
{
    if ready < 1 {
        EventWait::GiveUp { fd: peer_event, value: DEADLOCK_SENTINEL }
    } else {
        EventWait::Read { fd: event }
    }
}

/// What a notification writes, and where, given the number of waiters
/// read: the wake value to `event`, if anybody waits.
pub fn notify_step(event: i32, waiters: u32) -> (write: Option<(i32, u64)>)
    ensures
        write == if waiters != 0 {
            Some((event, WAKE))
        } else {
            None
        },
{
    if must_wake(waiters) {
        Some((event, WAKE))
    } else {
        None
    }
}

impl EventFdGuard {
    /// The side whose lock this guard stands for.
    pub open spec fn spec_side(&self) -> Side {
        self.0.spec_side()
    }
}

/// The counter of an event descriptor after `value` was written to it, if
/// the write goes through: a write that would take the counter beyond
/// its greatest value waits for a read.
pub open spec fn spec_event_written(count: u64, value: u64) -> Option<u64> {
    if count + value <= EVENT_MAX {
        Some((count + value) as u64)
    } else {
        None
    }
}

/// Writes `value` to an event counter.
#[verifier::when_used_as_spec(spec_event_written)]
pub fn event_written(count: u64, value: u64) -> (after: Option<u64>)
    ensures
        after == spec_event_written(count, value),
{
    if count <= EVENT_MAX && value <= EVENT_MAX - count {
        Some(count + value)
    } else {
        None
    }
}

impl EventFdControl {
    pub closed spec fn inner(&self) -> ShmemFutexControl {
        self.shmem_futex
    }

    pub closed spec fn own_config(&self) -> EventFdControlConfig {
        self.config
    }

    /// The descriptor that waiters on the offset of `side` sleep on.
    pub open spec fn spec_event(&self, side: Side) -> i32 {
        match side {
            Side::Left => self.own_config().left_event,
            Side::Right => self.own_config().right_event,
        }
    }

    /// What the counter of the descriptor of `side` holds.
    pub closed spec fn spec_count(&self, side: Side) -> u64 {
        match side {
            Side::Left => self.left_count,
            Side::Right => self.right_count,
        }
    }

    /// The descriptor that waiters on the offset of `side` sleep on.
    #[verifier::when_used_as_spec(spec_event)]
    pub fn event(&self, side: Side) -> (fd: i32)
        ensures
            fd == self.spec_event(side),
    {
        match side {
            Side::Left => self.config.left_event,
            Side::Right => self.config.right_event,
        }
    }

    /// What the counter of the descriptor of `side` holds.
    #[verifier::when_used_as_spec(spec_count)]
    pub fn count(&self, side: Side) -> (count: u64)
        ensures
            count == self.spec_count(side),
    {
        match side {
            Side::Left => self.left_count,
            Side::Right => self.right_count,
        }
    }

    /// The words of `side`.
    pub fn half(&self, side: Side) -> (half: Half)
        ensures
            half == self.inner().spec_header().spec_half(side),
    {
        self.shmem_futex.half(side)
    }

    /// How many threads sleep on the offset of `side`.
    pub fn waiters(&self, side: Side) -> (waiters: u32)
        ensures
            waiters == self.inner().spec_header().spec_waiters(side),
    {
        self.shmem_futex.waiters(side)
    }

    fn set_count(&mut self, side: Side, count: u64)
        ensures
            final(self).spec_count(side) == count,
            final(self).spec_count(side.other()) == old(self).spec_count(side.other()),
            final(self).inner() == old(self).inner(),
            final(self).own_config() == old(self).own_config(),
    {
        match side {
            Side::Left => {
                self.left_count = count;
            },
            Side::Right => {
                self.right_count = count;
            },
        }
    }
}

impl Control for EventFdControl {
    type Config = EventFdControlConfig;

    type LockGuard = EventFdGuard;

    type Events = EventCounts;

    open spec fn header(&self) -> Header {
        self.inner().spec_header()
    }

    open spec fn spec_stats(&self) -> Stats {
        self.inner().own_stats()
    }

    open spec fn spec_config(&self) -> EventFdControlConfig {
        self.own_config()
    }

    open spec fn guarded(guard: &EventFdGuard) -> Side {
        guard.spec_side()
    }

    open spec fn events(&self) -> EventCounts {
        EventCounts { left: self.spec_count(Side::Left), right: self.spec_count(Side::Right) }
    }

    /// Descriptors that were just created hold nothing.
    open spec fn no_events() -> EventCounts {
        EventCounts { left: 0, right: 0 }
    }

    /// A wait polls its descriptor unless the offset has changed already.
    open spec fn parks(
        config: EventFdControlConfig,
        header: Header,
        side: Side,
        expected: u32,
    ) -> bool {
        header.spec_half(side).offset == expected
    }

    open spec fn attach_error(config: EventFdControlConfig, is_owner: bool) -> Option<
        QueueError,
    > {
        None
    }

    /// A wait on an offset that has not changed ends well only if the
    /// descriptor holds a wake-up: with nothing in it the poll times out,
    /// and the sentinel in it tells that the peer gave up.
    open spec fn wait_outcome(
        config: EventFdControlConfig,
        header: Header,
        events: EventCounts,
        side: Side,
        expected: u32,
    ) -> Result<(), QueueError> {
        if header.spec_half(side).offset != expected {
            Ok(())
        } else if events.of(side) == 0 || events.of(side) == DEADLOCK_SENTINEL {
            Err(QueueError::Deadlock)
        } else {
            Ok(())
        }
    }

    /// A wait that polls clears the counter that it reads; one that times
    /// out writes the sentinel to the other side's descriptor, if the
    /// counter there has room for it.
    open spec fn events_after_wait(
        config: EventFdControlConfig,
        header: Header,
        events: EventCounts,
        side: Side,
        expected: u32,
    ) -> EventCounts {
        if header.spec_half(side).offset != expected {
            events
        } else if events.of(side) == 0 {
            match spec_event_written(events.of(side.other()), DEADLOCK_SENTINEL) {
                Some(count) => events.with(side.other(), count),
                None => events,
            }
        } else {
            events.with(side, 0)
        }
    }

    /// A notification fails only where somebody waits and the counter of
    /// the descriptor is full.
    open spec fn notify_outcome(header: Header, events: EventCounts, side: Side) -> Result<
        (),
        QueueError,
    > {
        if header.spec_waiters(side) != 0 && spec_event_written(events.of(side), WAKE) is None {
            Err(QueueError::WouldBlock(Park::Event { side }))
        } else {
            Ok(())
        }
    }

    /// A notification adds a wake-up to the counter of the descriptor of
    /// `side` if somebody waits and the counter has room for it.
    open spec fn events_after_notify(header: Header, events: EventCounts, side: Side)
        -> EventCounts {
        if header.spec_waiters(side) != 0 {
            match spec_event_written(events.of(side), WAKE) {
                Some(count) => events.with(side, count),
                None => events,
            }
        } else {
            events
        }
    }

    fn stats(&self) -> (stats: &Stats) {
        self.shmem_futex.stats()
    }

    /// Attaches with the descriptors of `config`, both of which hold
    /// nothing yet. Locks, offsets and caches are kept as the futex
    /// control plane keeps them, with its default configuration.
    fn new<H: HandshakeResult>(
        config: EventFdControlConfig,
        header: Header,
        handshake_result: &mut H,
    ) -> (res: Result<Self, QueueError>)
        ensures
            res matches Ok(control) ==> control.inner().own_config().spin_on_wait == 0,
    {
        match ShmemFutexControl::new(ShmemFutexControlConfig::default(), header, handshake_result) {
            Ok(shmem_futex) => Ok(
                EventFdControl { shmem_futex, config, left_count: 0, right_count: 0 },
            ),
            Err(error) => Err(error),
        }
    }

    fn lock(&mut self, side: Side) -> (res: Result<EventFdGuard, QueueError>)
    {
        match self.shmem_futex.lock(side) {
            Ok(guard) => Ok(EventFdGuard(guard)),
            Err(error) => Err(error),
        }
    }

    fn unlock(&mut self, guard: EventFdGuard)
    {
        self.shmem_futex.unlock(guard.0)
    }

    /// Joins the waiters of `side` and looks at the offset. If it has not
    /// changed, the thread polls its descriptor: a wake-up in it is read,
    /// which clears the counter; with nothing in it the poll times out,
    /// and the thread writes the sentinel to the other side's descriptor
    /// and gives up. A thread that gives up does not leave the waiters.
    fn wait(&mut self, side: Side, expected: u32) -> (res: Result<(), QueueError>)
    {
        let waiters: u32 = self.shmem_futex.waiters(side);
        self.shmem_futex.store_waiters(side, joined(waiters));
        let observed: u32 = self.shmem_futex.half(side).offset;
        match wait_step(self.event(side), side, observed, expected) {
            EventWait::Poll { fd, timeout_ms } => {
                self.shmem_futex.count_wait(side);
                let ready: i32 = if self.count(side) > 0 {
                    1
                } else {
                    0
                };
                match poll_step(fd, self.event(side.other()), ready) {
                    EventWait::Read { fd } => {
                        let value: u64 = self.count(side);
                        self.set_count(side, 0);
                        match after_read(Ok(value)) {
                            Ok(()) => {
                                self.shmem_futex.store_waiters(side, waiters);
                                Ok(())
                            },
                            Err(error) => Err(error),
                        }
                    },
                    EventWait::GiveUp { fd, value } => {
                        match event_written(self.count(side.other()), value) {
                            Some(count) => {
                                self.set_count(side.other(), count);
                            },
                            None => {},
                        }
                        Err(QueueError::Deadlock)
                    },
                    _ => unreached(),
                }
            },
            _ => {
                self.shmem_futex.store_waiters(side, waiters);
                Ok(())
            },
        }
    }

    /// Writes a wake-up to the descriptor of `side` if anybody waits.
    fn notify(&mut self, side: Side) -> (res: Result<(), QueueError>)
    {
        match notify_step(self.event(side), self.shmem_futex.waiters(side)) {
            Some((fd, value)) => {
                self.shmem_futex.count_notify(side);
                match event_written(self.count(side), value) {
                    Some(count) => {
                        self.set_count(side, count);
                        Ok(())
                    },
                    None => Err(QueueError::WouldBlock(Park::Event { side })),
                }
            },
            None => Ok(()),
        }
    }

    fn load_offset(&self, side: Side) -> (offset: u32) {
        self.shmem_futex.load_offset(side)
    }

    fn sync_load_offset(&mut self, side: Side) -> (offset: u32)
    {
        self.shmem_futex.sync_load_offset(side)
    }

    fn cached_offset(&self, side: Side) -> (offset: Option<u32>) {
        self.shmem_futex.cached_offset(side)
    }

    fn commit_offset(&mut self, side: Side, offset: u32)
    {
        self.shmem_futex.commit_offset(side, offset)
    }

    fn fix_offsets(&mut self, left_offset: u32, right_offset: u32)
    {
        self.shmem_futex.fix_offsets(left_offset, right_offset)
    }
}

} // verus!

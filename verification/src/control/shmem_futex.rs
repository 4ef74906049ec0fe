//! The header words of a queue and the control plane that parks on them.
use crate::control::Control;
use crate::control::Side;
use crate::error::Park;
use crate::error::QueueError;
use crate::handshake::HandshakeResult;
use crate::stats::Stats;
use vstd::prelude::*;

verus! {

/// The value of a cache word that holds no offset.
pub const UNKNOWN_OFFSET: u32 = 0xffff_ffff;

/// A lock word that nobody holds.
pub const LOCK_FREE: u32 = 0;

/// A lock word that is held and that nobody sleeps on.
pub const LOCK_HELD: u32 = 1;

/// A lock word that is held and that somebody may sleep on.
pub const LOCK_CONTENDED: u32 = 2;

/// The words of one side.
#[derive(Clone, Copy, Debug, PartialEq, Eq, Structural)]
pub struct Half {
    /// The next byte that this side will consume or produce.
    pub offset: u32,
    /// The mutex of this side.
    pub lock: u32,
    /// What this side last saw of the other side's offset.
    pub cached_other_offset: u32,
}

/// The words that both processes share.
#[derive(Clone, Copy, Debug, PartialEq, Eq, Structural)]
pub struct Header {
    pub left: Half,
    pub right: Half,
    /// How many threads sleep until the left offset changes.
    pub left_waiters: u32,
    /// How many threads sleep until the right offset changes.
    pub right_waiters: u32,
}

impl Header {
    pub open spec fn spec_half(&self, side: Side) -> Half {
        match side {
            Side::Left => self.left,
            Side::Right => self.right,
        }
    }

    pub open spec fn spec_waiters(&self, side: Side) -> u32 {
        match side {
            Side::Left => self.left_waiters,
            Side::Right => self.right_waiters,
        }
    }

    /// This header with the words of `side` replaced.
    pub open spec fn with_half(self, side: Side, half: Half) -> Header {
        match side {
            Side::Left => Header { left: half, ..self },
            Side::Right => Header { right: half, ..self },
        }
    }

    /// This header with another offset for `side`.
    pub open spec fn with_offset(self, side: Side, offset: u32) -> Header {
        self.with_half(side, Half { offset, ..self.spec_half(side) })
    }

    /// This header with another lock word for `side`.
    pub open spec fn with_lock(self, side: Side, lock: u32) -> Header {
        self.with_half(side, Half { lock, ..self.spec_half(side) })
    }

    /// This header with another number of waiters on the offset of `side`.
    pub open spec fn with_waiters(self, side: Side, waiters: u32) -> Header {
        match side {
            Side::Left => Header { left_waiters: waiters, ..self },
            Side::Right => Header { right_waiters: waiters, ..self },
        }
    }

    /// This header with another cache word for `side`.
    pub open spec fn with_cache(self, side: Side, cached: u32) -> Header {
        self.with_half(side, Half { cached_other_offset: cached, ..self.spec_half(side) })
    }

    /// This header after a rewind: both offsets replaced, and each cache
    /// holding the other side's new offset.
    pub open spec fn fixed(self, left_offset: u32, right_offset: u32) -> Header {
        Header {
            left: Half { offset: left_offset, cached_other_offset: right_offset, ..self.left },
            right: Half { offset: right_offset, cached_other_offset: left_offset, ..self.right },
            ..self
        }
    }

    /// The header of a file that was just created.
    pub open spec fn spec_zeroed() -> Header {
        Header {
            left: Half { offset: 0, lock: 0, cached_other_offset: 0 },
            right: Half { offset: 0, lock: 0, cached_other_offset: 0 },
            left_waiters: 0,
            right_waiters: 0,
        }
    }

    /// The header as a control plane leaves it when it attaches: the owner
    /// clears every word, and either party forgets both cached offsets.
    pub open spec fn attached(self, is_owner: bool) -> Header {
        let seen = if is_owner {
            Header::spec_zeroed()
        } else {
            self
        };
        seen.with_cache(Side::Left, UNKNOWN_OFFSET).with_cache(Side::Right, UNKNOWN_OFFSET)
    }

    #[verifier::when_used_as_spec(spec_zeroed)]
    pub fn zeroed() -> (header: Header)
        ensures
            header == Header::spec_zeroed(),
    {
        Header {
            left: Half { offset: 0, lock: 0, cached_other_offset: 0 },
            right: Half { offset: 0, lock: 0, cached_other_offset: 0 },
            left_waiters: 0,
            right_waiters: 0,
        }
    }

    #[verifier::when_used_as_spec(spec_half)]
    pub fn half(&self, side: Side) -> (half: Half)
        ensures
            half == self.spec_half(side),
    {
        match side {
            Side::Left => self.left,
            Side::Right => self.right,
        }
    }

    #[verifier::when_used_as_spec(spec_waiters)]
    pub fn waiters(&self, side: Side) -> (waiters: u32)
        ensures
            waiters == self.spec_waiters(side),
    {
        match side {
            Side::Left => self.left_waiters,
            Side::Right => self.right_waiters,
        }
    }
}

/// What a cache word stands for: no offset if it holds the sentinel.
pub open spec fn spec_cached(word: u32) -> Option<u32> {
    if word == UNKNOWN_OFFSET {
        None
    } else {
        Some(word)
    }
}

/// Reads a cache word.
#[verifier::when_used_as_spec(spec_cached)]
pub fn cached(word: u32) -> (offset: Option<u32>)
    ensures
        offset == spec_cached(word),
{
    if word != UNKNOWN_OFFSET {
        Some(word)
    } else {
        None
    }
}

pub open spec fn spec_took_by_exchange(outcome: Result<u32, u32>) -> bool {
    outcome is Ok
}

pub open spec fn spec_took_by_swap(previous: u32) -> bool {
    previous == LOCK_FREE
}

/// Whether an exchange of `LOCK_FREE` for `LOCK_HELD` took the lock, given
/// what the exchange returned.
#[verifier::when_used_as_spec(spec_took_by_exchange)]
pub fn took_by_exchange(outcome: Result<u32, u32>) -> (taken: bool)
    ensures
        taken == (outcome is Ok),
{
    outcome.is_ok()
}

/// Whether a swap to `LOCK_CONTENDED` took the lock, given the word that it
/// replaced. If not, the caller sleeps on the lock word while it holds
/// `LOCK_CONTENDED` and swaps again.
#[verifier::when_used_as_spec(spec_took_by_swap)]
pub fn took_by_swap(previous: u32) -> (taken: bool)
    ensures
        taken == (previous == LOCK_FREE),
{
    previous == LOCK_FREE
}

/// Whether a release has to wake a sleeper, given the word that the swap
/// to `LOCK_FREE` replaced.
pub fn release_wakes(previous: u32) -> (wake: bool)
    ensures
        wake == (previous == LOCK_CONTENDED),
{
    previous == LOCK_CONTENDED
}

/// The lock word after a thread went for the lock without sleeping, and
/// whether it got the lock: a free word becomes held; any other word
/// becomes contended, so that the holder wakes a sleeper when it lets go.
pub open spec fn spec_lock(word: u32) -> (u32, bool) {
    if word == LOCK_FREE {
        (LOCK_HELD, true)
    } else {
        (LOCK_CONTENDED, false)
    }
}

/// Whether a lock word tells the truth about the lock: it is one of the
/// three words, and it is free exactly if no thread holds the lock.
pub open spec fn lock_consistent(word: u32, held: bool) -> bool {
    &&& word == LOCK_FREE || word == LOCK_HELD || word == LOCK_CONTENDED
    &&& held == (word != LOCK_FREE)
}

/// The lock excludes: a thread that goes for the lock gets it only while
/// nobody holds it, the word tells the truth afterwards, and it does so
/// again when the holder has let go.
pub proof fn lemma_lock_excludes(word: u32, held: bool)
    requires
        lock_consistent(word, held),
    ensures
        spec_lock(word).1 ==> !held,
        lock_consistent(spec_lock(word).0, true),
        took_by_exchange(
            if word == LOCK_FREE {
                Ok::<u32, u32>(word)
            } else {
                Err::<u32, u32>(word)
            },
        ) == spec_lock(word).1,
        !spec_lock(word).1 ==> !took_by_swap(word),
        lock_consistent(LOCK_FREE, false),
{
}

/// What a thread that waits for an offset to change does next.
#[derive(Clone, Copy, Debug, PartialEq, Eq, Structural)]
pub enum WaitStep {
    /// Read the offset so that the peer's writes are visible, and report it;
    /// `spins_left` reads are left, this one included.
    Observe { spins_left: usize },
    /// Count this thread among the waiters, sleep on the offset word while it
    /// holds the expected value, and leave the waiters again.
    Park,
    /// Return: the offset was seen to differ.
    Done,
}

/// The first step of a wait that spins up to `spin_on_wait` times.
pub open spec fn spec_wait_first(spin_on_wait: usize) -> WaitStep {
    if spin_on_wait > 0 {
        WaitStep::Observe { spins_left: spin_on_wait }
    } else {
        WaitStep::Park
    }
}

/// The step after a read of the offset gave `observed`, when `spins_left`
/// reads were left, that one included.
pub open spec fn spec_wait_after(spins_left: usize, observed: u32, expected: u32) -> WaitStep {
    if observed != expected {
        WaitStep::Done
    } else if spins_left > 1 {
        WaitStep::Observe { spins_left: (spins_left - 1) as usize }
    } else {
        WaitStep::Park
    }
}

/// Where a waiting thread stands after `reads` more reads, all of which
/// showed the offset that it waits to change.
pub open spec fn after_stale_reads(step: WaitStep, expected: u32, reads: nat) -> WaitStep
    decreases reads,
{
    if reads == 0 {
        step
    } else {
        match step {
            WaitStep::Observe { spins_left } => after_stale_reads(
                spec_wait_after(spins_left, expected, expected),
                expected,
                (reads - 1) as nat,
            ),
            _ => step,
        }
    }
}

/// A wait never spins longer than it was set up to: after `spin_on_wait`
/// reads that show no change, the thread goes to the kernel.
pub proof fn lemma_spin_is_bounded(spin_on_wait: usize, expected: u32)
    ensures
        after_stale_reads(spec_wait_first(spin_on_wait), expected, spin_on_wait as nat)
            == WaitStep::Park,
{
    if spin_on_wait > 0 {
        lemma_spin_runs_out(spin_on_wait, expected);
    }
}

proof fn lemma_spin_runs_out(spins_left: usize, expected: u32)
    requires
        spins_left > 0,
    ensures
        after_stale_reads(WaitStep::Observe { spins_left }, expected, spins_left as nat)
            == WaitStep::Park,
    decreases spins_left,
{
    if spins_left > 1 {
        lemma_spin_runs_out((spins_left - 1) as usize, expected);
    } else {
        assert(after_stale_reads(WaitStep::Park, expected, 0) == WaitStep::Park);
    }
}

/// The first step of a wait that spins up to `spin_on_wait` times.
#[verifier::when_used_as_spec(spec_wait_first)]
pub fn wait_first(spin_on_wait: usize) -> (step: WaitStep)
    ensures
        step == spec_wait_first(spin_on_wait),
{
    if spin_on_wait > 0 {
        WaitStep::Observe { spins_left: spin_on_wait }
    } else {
        WaitStep::Park
    }
}

/// The step after a read of the offset gave `observed`.
#[verifier::when_used_as_spec(spec_wait_after)]
pub fn wait_after(spins_left: usize, observed: u32, expected: u32) -> (step: WaitStep)
    ensures
        step == spec_wait_after(spins_left, observed, expected),
{
    if observed != expected {
        WaitStep::Done
    } else if spins_left > 1 {
        WaitStep::Observe { spins_left: spins_left - 1 }
    } else {
        WaitStep::Park
    }
}

/// How many sleepers a wake-up on a word of the header wakes, be it for a
/// lock that was let go or for an offset that moved: one.
pub const WAKE_ONE: u32 = 1;

/// Whether a notification has to wake a sleeper, given the number of waiters read.
pub fn must_wake(waiters: u32) -> (wake: bool)
    ensures
        wake == (waiters != 0),
{
    waiters != 0
}

/// The waiter count after one more thread went to sleep; it wraps like the
/// atomic it stands for.
pub open spec fn spec_joined(waiters: u32) -> u32 {
    if waiters == u32::MAX {
        0
    } else {
        (waiters + 1) as u32
    }
}

/// The waiter count after one thread woke up.
pub open spec fn spec_left(waiters: u32) -> u32 {
    if waiters == 0 {
        u32::MAX
    } else {
        (waiters - 1) as u32
    }
}

#[verifier::when_used_as_spec(spec_joined)]
pub fn joined(waiters: u32) -> (next: u32)
    ensures
        next == spec_joined(waiters),
{
    if waiters == u32::MAX {
        0
    } else {
        waiters + 1
    }
}

#[verifier::when_used_as_spec(spec_left)]
pub fn left(waiters: u32) -> (next: u32)
    ensures
        next == spec_left(waiters),
        spec_left(spec_joined(waiters)) == waiters,
{
    if waiters == 0 {
        u32::MAX
    } else {
        waiters - 1
    }
}

/// How the futex control plane waits.
#[derive(Debug, Clone, Copy, PartialEq, Eq, Structural)]
pub struct ShmemFutexControlConfig {
    /// How often a wait reads the offset before it goes to the kernel.
    pub spin_on_wait: usize,
}

impl Default for ShmemFutexControlConfig {
    fn default() -> (config: ShmemFutexControlConfig)
        ensures
            config.spin_on_wait == 0,
    {
        ShmemFutexControlConfig { spin_on_wait: 0 }
    }
}

/// The control plane that keeps everything in the header and sleeps on its
/// words.
pub struct ShmemFutexControl {
    header: Header,
    config: ShmemFutexControlConfig,
    stats: Stats,
}

/// The proof of having taken the lock of one side.
pub struct ShmemFutexGuard {
    side: Side,
}

impl ShmemFutexGuard {
    pub closed spec fn spec_side(&self) -> Side {
        self.side
    }

    /// The side whose lock this guard stands for.
    #[verifier::when_used_as_spec(spec_side)]
    pub fn side(&self) -> (side: Side)
        ensures
            side == self.spec_side(),
    {
        self.side
    }
}

impl ShmemFutexControl {
    pub closed spec fn spec_header(&self) -> Header {
        self.header
    }

    pub closed spec fn own_config(&self) -> ShmemFutexControlConfig {
        self.config
    }

    pub closed spec fn own_stats(&self) -> Stats {
        self.stats
    }

    /// The way this control plane was set up to wait.
    #[verifier::when_used_as_spec(own_config)]
    pub fn config(&self) -> (config: ShmemFutexControlConfig)
        ensures
            config == self.own_config(),
    {
        self.config
    }

    /// The words of `side`.
    pub fn half(&self, side: Side) -> (half: Half)
        ensures
            half == self.spec_header().spec_half(side),
    {
        self.header.half(side)
    }

    /// How many threads sleep on the offset of `side`.
    pub fn waiters(&self, side: Side) -> (waiters: u32)
        ensures
            waiters == self.spec_header().spec_waiters(side),
    {
        self.header.waiters(side)
    }

    /// Counts a wait on `side` that went to the kernel.
    pub fn count_wait(&mut self, side: Side)
        ensures
            final(self).spec_header() == old(self).spec_header(),
            final(self).own_config() == old(self).own_config(),
            final(self).own_stats() == old(self).own_stats().waited(side),
    {
        self.stats.record_wait(side);
    }

    /// Counts a notification of `side` that went to the kernel.
    pub fn count_notify(&mut self, side: Side)
        ensures
            final(self).spec_header() == old(self).spec_header(),
            final(self).own_config() == old(self).own_config(),
            final(self).own_stats() == old(self).own_stats().notified(side),
    {
        self.stats.record_notify(side);
    }

    /// Stores the number of threads that sleep on the offset of `side`.
    pub fn store_waiters(&mut self, side: Side, waiters: u32)
        ensures
            final(self).spec_header() == old(self).spec_header().with_waiters(side, waiters),
            final(self).own_config() == old(self).own_config(),
            final(self).own_stats() == old(self).own_stats(),
    {
        self.set_waiters(side, waiters);
    }

    fn set_half(&mut self, side: Side, half: Half)
        ensures
            final(self).header == old(self).header.with_half(side, half),
            final(self).config == old(self).config,
            final(self).stats == old(self).stats,
    {
        match side {
            Side::Left => {
                self.header.left = half;
            },
            Side::Right => {
                self.header.right = half;
            },
        }
    }

    fn set_waiters(&mut self, side: Side, waiters: u32)
        ensures
            final(self).header == (match side {
                Side::Left => Header { left_waiters: waiters, ..old(self).header },
                Side::Right => Header { right_waiters: waiters, ..old(self).header },
            }),
            final(self).config == old(self).config,
            final(self).stats == old(self).stats,
    {
        match side {
            Side::Left => {
                self.header.left_waiters = waiters;
            },
            Side::Right => {
                self.header.right_waiters = waiters;
            },
        }
    }
}

impl Control for ShmemFutexControl {
    type Config = ShmemFutexControlConfig;

    type LockGuard = ShmemFutexGuard;

    type Events = ();

    open spec fn header(&self) -> Header {
        self.spec_header()
    }

    open spec fn spec_stats(&self) -> Stats {
        self.own_stats()
    }

    open spec fn spec_config(&self) -> ShmemFutexControlConfig {
        self.own_config()
    }

    open spec fn guarded(guard: &ShmemFutexGuard) -> Side {
        guard.spec_side()
    }

    /// This control plane sleeps on nothing but the header.
    open spec fn events(&self) -> () {
        ()
    }

    open spec fn no_events() -> () {
        ()
    }

    /// A wait spins as often as it was configured to and goes to the kernel
    /// unless one of the reads shows another offset.
    open spec fn parks(
        config: ShmemFutexControlConfig,
        header: Header,
        side: Side,
        expected: u32,
    ) -> bool {
        config.spin_on_wait == 0 || header.spec_half(side).offset == expected
    }

    /// A control plane on the header alone can always attach.
    open spec fn attach_error(config: ShmemFutexControlConfig, is_owner: bool) -> Option<
        QueueError,
    > {
        None
    }

    /// A wait on a word of the header always returns.
    open spec fn wait_outcome(
        config: ShmemFutexControlConfig,
        header: Header,
        events: (),
        side: Side,
        expected: u32,
    ) -> Result<(), QueueError> {
        Ok(())
    }

    open spec fn events_after_wait(
        config: ShmemFutexControlConfig,
        header: Header,
        events: (),
        side: Side,
        expected: u32,
    ) -> () {
        ()
    }

    /// A wake-up on a word of the header never fails.
    open spec fn notify_outcome(header: Header, events: (), side: Side) -> Result<(), QueueError> {
        Ok(())
    }

    open spec fn events_after_notify(header: Header, events: (), side: Side) -> () {
        ()
    }

    fn stats(&self) -> (stats: &Stats) {
        &self.stats
    }

    fn new<H: HandshakeResult>(
        config: ShmemFutexControlConfig,
        header: Header,
        handshake_result: &mut H,
    ) -> (res: Result<Self, QueueError>) {
        // The owner prepares the header page; nobody else has it before the
        // queue is marked as ready.
        let seen = if handshake_result.is_owner() {
            Header::zeroed()
        } else {
            header
        };
        let mut control = ShmemFutexControl { header: seen, config, stats: Stats::new() };
        control.header.left.cached_other_offset = UNKNOWN_OFFSET;
        control.header.right.cached_other_offset = UNKNOWN_OFFSET;
        Ok(control)
    }

    fn lock(&mut self, side: Side) -> (res: Result<ShmemFutexGuard, QueueError>) {
        let half = self.header.half(side);
        let exchange: Result<u32, u32> = if half.lock == LOCK_FREE {
            Ok(half.lock)
        } else {
            Err(half.lock)
        };
        if took_by_exchange(exchange) {
            self.set_half(side, Half { lock: LOCK_HELD, ..half });
            Ok(ShmemFutexGuard { side })
        } else {
            self.set_half(side, Half { lock: LOCK_CONTENDED, ..half });
            if took_by_swap(half.lock) {
                Ok(ShmemFutexGuard { side })
            } else {
                Err(QueueError::WouldBlock(Park::Lock { side }))
            }
        }
    }

    fn unlock(&mut self, guard: ShmemFutexGuard) {
        let half = self.header.half(guard.side);
        self.set_half(guard.side, Half { lock: LOCK_FREE, ..half });
    }

    fn wait(&mut self, side: Side, expected: u32) -> (res: Result<(), QueueError>) {
        let mut step = wait_first(self.config.spin_on_wait);
        loop
            invariant
                *self == *old(self),
                match step {
                    WaitStep::Observe { spins_left } => 0 < spins_left
                        <= self.config.spin_on_wait,
                    WaitStep::Park => self.config.spin_on_wait == 0 || self.header.spec_half(
                        side,
                    ).offset == expected,
                    WaitStep::Done => self.config.spin_on_wait != 0 && self.header.spec_half(
                        side,
                    ).offset != expected,
                },
            decreases
                    (match step {
                        WaitStep::Observe { spins_left } => spins_left + 1,
                        _ => 0,
                    }),
        {
            match step {
                WaitStep::Observe { spins_left } => {
                    step = wait_after(spins_left, self.header.half(side).offset, expected);
                },
                WaitStep::Park => {
                    let waiters = self.header.waiters(side);
                    self.set_waiters(side, joined(waiters));
                    self.stats.record_wait(side);
                    let asleep = self.header.waiters(side);
                    self.set_waiters(side, left(asleep));
                    return Ok(());
                },
                WaitStep::Done => {
                    return Ok(());
                },
            }
        }
    }

    fn notify(&mut self, side: Side) -> (res: Result<(), QueueError>) {
        if must_wake(self.header.waiters(side)) {
            self.stats.record_notify(side);
        }
        Ok(())
    }

    fn load_offset(&self, side: Side) -> (offset: u32) {
        self.header.half(side).offset
    }

    fn sync_load_offset(&mut self, side: Side) -> (offset: u32) {
        let res = self.header.half(side).offset;
        let other = self.header.half(side.other());
        self.set_half(side.other(), Half { cached_other_offset: res, ..other });
        res
    }

    fn cached_offset(&self, side: Side) -> (offset: Option<u32>) {
        cached(self.header.half(side.other()).cached_other_offset)
    }

    fn commit_offset(&mut self, side: Side, offset: u32) {
        let half = self.header.half(side);
        self.set_half(side, Half { offset, ..half });
    }

    fn fix_offsets(&mut self, left_offset: u32, right_offset: u32) {
        self.header.left.offset = left_offset;
        self.header.right.offset = right_offset;
        self.header.left.cached_other_offset = right_offset;
        self.header.right.cached_other_offset = left_offset;
    }
}

} // verus!

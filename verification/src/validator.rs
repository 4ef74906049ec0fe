//! The bookkeeping of a consumer that measures a stream of messages:
//! how many came, how large they were, and how long each was under way.
use vstd::prelude::*;

verus! {

/// `quanta::Clock`: a handle on a time source. Nothing of it is visible here.
#[verifier::external_type_specification]
#[verifier::external_body]
pub struct ExClock(quanta::Clock);

/// `quanta::Clock::new`: a clock on the fastest time source that the
/// machine has. Nothing is claimed of the clock.
#[verifier::external_body]
pub(crate) fn clock_new() -> quanta::Clock {
    quanta::Clock::new()
}

/// `quanta::Clock::raw`: the reading of the clock's time source at the
/// moment of the call. Nothing is claimed of the reading: the source need
/// not count nanoseconds and need not be monotonic.
#[verifier::external_body]
pub(crate) fn clock_raw(clock: &quanta::Clock) -> u64 {
    clock.raw()
}

/// `quanta::Instant::now`, called for its effect alone: the first call
/// calibrates the global clock, so that later readings are not held up.
#[verifier::external_body]
pub(crate) fn preheat() {
    let _ = quanta::Instant::now();
}

/// The seed of every generator of test messages: the first hexadecimal
/// digits of the fraction of pi.
pub fn rng_seed() -> (seed: [u8; 16])
    ensures
        seed@ == seq![
            0x24u8,
            0x3fu8,
            0x6au8,
            0x88u8,
            0x85u8,
            0xa3u8,
            0x08u8,
            0xd3u8,
            0x13u8,
            0x19u8,
            0x13u8,
            0x19u8,
            0x8au8,
            0x2eu8,
            0x03u8,
            0x70u8,
        ],
{
    [
        0x24u8,
        0x3fu8,
        0x6au8,
        0x88u8,
        0x85u8,
        0xa3u8,
        0x08u8,
        0xd3u8,
        0x13u8,
        0x19u8,
        0x13u8,
        0x19u8,
        0x8au8,
        0x2eu8,
        0x03u8,
        0x70u8,
    ]
}

/// The sum of `values`.
pub open spec fn sum(values: Seq<u64>) -> nat
    decreases values.len(),
{
    if values.len() == 0 {
        0
    } else {
        sum(values.drop_last()) + values.last() as nat
    }
}

/// The time that a message was under way, by two readings of a clock
/// that may have wrapped in between.
pub open spec fn spec_latency(sent_at: u64, received_at: u64) -> u64 {
    if received_at >= sent_at {
        (received_at - sent_at) as u64
    } else {
        (received_at + 0x1_0000_0000_0000_0000 - sent_at) as u64
    }
}

/// What a consumer has measured so far.
pub struct ValidatorStats {
    latencies: Vec<u64>,
    got_bytes: usize,
    got_messages: usize,
    first_msg_at: Option<u64>,
    last_msg_at: Option<u64>,
    clock: quanta::Clock,
}

impl ValidatorStats {
    /// The time that each message was under way, in the order of arrival.
    pub closed spec fn spec_latencies(&self) -> Seq<u64> {
        self.latencies@
    }

    pub closed spec fn spec_got_bytes(&self) -> usize {
        self.got_bytes
    }

    pub closed spec fn spec_got_messages(&self) -> usize {
        self.got_messages
    }

    pub closed spec fn spec_first_msg_at(&self) -> Option<u64> {
        self.first_msg_at
    }

    pub closed spec fn spec_last_msg_at(&self) -> Option<u64> {
        self.last_msg_at
    }

    /// Fresh counters, with room for `count` messages.
    pub fn new(count: usize) -> (stats: Self)
        ensures
            stats.spec_latencies() == Seq::<u64>::empty(),
            stats.spec_got_bytes() == 0,
            stats.spec_got_messages() == 0,
            stats.spec_first_msg_at().is_none(),
            stats.spec_last_msg_at().is_none(),
    {
        preheat();
        ValidatorStats {
            latencies: Vec::with_capacity(count),
            got_bytes: 0,
            got_messages: 0,
            first_msg_at: None,
            last_msg_at: None,
            clock: clock_new(),
        }
    }

    /// The reading of the clock now.
    pub fn time(&self) -> u64 {
        clock_raw(&self.clock)
    }

    /// The clock that the readings come from.
    pub fn clock(&self) -> (clock: &quanta::Clock)
        ensures
            *clock == self.spec_clock(),
    {
        &self.clock
    }

    /// The clock that these counters were made with; it stays with them.
    pub closed spec fn spec_clock(&self) -> quanta::Clock {
        self.clock
    }

    /// Takes note of a message of `size` bytes that was sent at the
    /// reading `sent_at` and received at the reading `received_at`.
    pub fn record_message(&mut self, sent_at: u64, received_at: u64, size: usize)
        requires
            old(self).spec_got_messages() < usize::MAX,
            old(self).spec_got_bytes() + size <= usize::MAX,
        ensures
            final(self).spec_latencies() == old(self).spec_latencies().push(
                spec_latency(sent_at, received_at),
            ),
            final(self).spec_got_messages() == old(self).spec_got_messages() + 1,
            final(self).spec_got_bytes() == old(self).spec_got_bytes() + size,
            final(self).spec_first_msg_at() == if old(self).spec_first_msg_at().is_none() {
                Some(received_at)
            } else {
                old(self).spec_first_msg_at()
            },
            final(self).spec_last_msg_at() == Some(received_at),
            final(self).spec_clock() == old(self).spec_clock(),
    {
        self.latencies.push(received_at.wrapping_sub(sent_at));
        self.got_messages = self.got_messages + 1;
        self.got_bytes = self.got_bytes + size;
        if self.first_msg_at.is_none() {
            self.first_msg_at = Some(received_at);
        }
        self.last_msg_at = Some(received_at);
    }

    /// The mean of the latencies, rounded down.
    pub fn avg_latency(&self) -> (mean: u64)
        requires
            self.spec_latencies().len() > 0,
            sum(self.spec_latencies()) <= u64::MAX,
        ensures
            mean == sum(self.spec_latencies()) / self.spec_latencies().len(),
    {
        let n: usize = self.latencies.len();
        let mut total: u64 = 0;
        let mut i: usize = 0;
        while i < n
            invariant
                n == self.latencies@.len(),
                i <= n,
                total == sum(self.latencies@.subrange(0, i as int)),
                sum(self.latencies@) <= u64::MAX,
            decreases n - i,
        {
            proof {
                let next = self.latencies@.subrange(0, i + 1);
                assert(next.drop_last() =~= self.latencies@.subrange(0, i as int));
                lemma_sum_grows(self.latencies@, i + 1);
            }
            total = total + self.latencies[i];
            i = i + 1;
        }
        proof {
            assert(self.latencies@.subrange(0, n as int) =~= self.latencies@);
        }
        total / (n as u64)
    }

    /// The time between the first and the last message.
    pub fn total_time(&self) -> (elapsed: u64)
        requires
            self.spec_first_msg_at() is Some,
            self.spec_last_msg_at() is Some,
            self.spec_first_msg_at().unwrap() <= self.spec_last_msg_at().unwrap(),
        ensures
            elapsed == self.spec_last_msg_at().unwrap() - self.spec_first_msg_at().unwrap(),
    {
        self.last_msg_at.unwrap() - self.first_msg_at.unwrap()
    }

    /// The reading at which the first message came, if one came.
    pub fn first_msg_at(&self) -> (reading: Option<u64>)
        ensures
            reading == self.spec_first_msg_at(),
    {
        self.first_msg_at
    }

    /// The reading at which the last message came, if one came.
    pub fn last_msg_at(&self) -> (reading: Option<u64>)
        ensures
            reading == self.spec_last_msg_at(),
    {
        self.last_msg_at
    }

    /// How many bytes came.
    pub fn got_bytes(&self) -> (bytes: usize)
        ensures
            bytes == self.spec_got_bytes(),
    {
        self.got_bytes
    }

    /// How many messages came.
    pub fn got_messages(&self) -> (messages: usize)
        ensures
            messages == self.spec_got_messages(),
    {
        self.got_messages
    }

    /// The latencies in the order of arrival.
    pub fn latencies(&self) -> (latencies: &Vec<u64>)
        ensures
            latencies@ == self.spec_latencies(),
    {
        &self.latencies
    }
}

/// The sum of the first values is at most the sum of all.
pub proof fn lemma_sum_grows(values: Seq<u64>, count: int)
    requires
        0 <= count <= values.len(),
    ensures
        sum(values.subrange(0, count)) <= sum(values),
    decreases values.len() - count,
{
    if count < values.len() {
        lemma_sum_grows(values, count + 1);
        assert(values.subrange(0, count + 1).drop_last() =~= values.subrange(0, count));
    } else {
        assert(values.subrange(0, count) =~= values);
    }
}

} // verus!

//! Test messages of random bytes: each ends with the reading of a clock
//! at the time of sending and with a checksum, both as eight bytes with
//! the least significant one first.
use crate::validator::clock_new;
use crate::validator::clock_raw;
use crate::validator::preheat;
use crate::validator::rng_seed;
use crate::validator::spec_latency;
use crate::validator::ValidatorStats;
use rand::Rng;
use rand::SeedableRng;
use vstd::bytes::spec_u64_from_le_bytes;
use vstd::bytes::spec_u64_to_le_bytes;
use vstd::bytes::u64_from_le_bytes;
use vstd::bytes::u64_to_le_bytes;
use vstd::prelude::*;
use vstd::slice::slice_subrange;

verus! {

/// `rand_xorshift::XorShiftRng`: a generator of pseudo-random numbers.
/// Nothing of its state is visible here.
#[verifier::external_type_specification]
#[verifier::external_body]
pub struct ExXorShiftRng(rand_xorshift::XorShiftRng);

/// The checksum of `bytes` by the algorithm CRC-64/XZ.
pub uninterp spec fn crc64_xz(bytes: Seq<u8>) -> u64;

/// `crc::Crc::<u64>::checksum` with the algorithm `crc::CRC_64_XZ`: the
/// checksum of `bytes`, which depends on nothing but the bytes.
#[verifier::external_body]
fn checksum(bytes: &[u8]) -> (sum: u64)
    ensures
        sum == crc64_xz(bytes@),
{
    crc::Crc::<u64>::new(&crc::CRC_64_XZ).checksum(bytes)
}

/// `rand::SeedableRng::from_seed` of `rand_xorshift::XorShiftRng`: a
/// generator whose sequence the seed decides. Nothing is claimed of it.
#[verifier::external_body]
fn seeded(seed: [u8; 16]) -> rand_xorshift::XorShiftRng {
    rand_xorshift::XorShiftRng::from_seed(seed)
}

/// `rand::Rng::gen_range` on a half-open range: some number that is at
/// least `low` and below `high`. The range must not be empty.
#[verifier::external_body]
fn random_in(rng: &mut rand_xorshift::XorShiftRng, low: usize, high: usize) -> (value: usize)
    requires
        low < high,
    ensures
        low <= value < high,
{
    rng.gen_range(low..high)
}

/// `rand::Rng::fill` on a fresh buffer of `len` bytes: that many bytes, of
/// which nothing else is claimed.
#[verifier::external_body]
fn random_bytes(rng: &mut rand_xorshift::XorShiftRng, len: usize) -> (bytes: Vec<u8>)
    ensures
        bytes@.len() == len,
{
    let mut bytes = vec![0; len];
    rng.fill(&mut bytes[..]);
    bytes
}

/// The buffer `buf` with `data` in place of what it held from `at` on.
pub open spec fn spec_put(buf: Seq<u8>, at: int, data: Seq<u8>) -> Seq<u8> {
    buf.subrange(0, at) + data + buf.subrange(at + data.len(), buf.len() as int)
}

fn put(buf: &mut Vec<u8>, at: usize, data: &[u8])
    requires
        at + data@.len() <= old(buf)@.len(),
    ensures
        final(buf)@ == spec_put(old(buf)@, at as int, data@),
{
    let n: usize = data.len();
    let total: usize = buf.len();
    let mut i: usize = 0;
    while i < n
        invariant
            n == data@.len(),
            i <= n,
            total == buf@.len(),
            at + n <= buf@.len(),
            buf@.len() == old(buf)@.len(),
            forall|k: int| 0 <= k < buf@.len() ==> buf@[k] == if at <= k < at + i {
                data@[k - at]
            } else {
                old(buf)@[k]
            },
        decreases n - i,
    {
        buf.set(at + i, data[i]);
        i = i + 1;
    }
    assert(buf@ =~= spec_put(old(buf)@, at as int, data@));
}

/// A buffer with the checksum `sum` in the last eight bytes of its first
/// `size` bytes.
pub open spec fn spec_summed(buf: Seq<u8>, size: int, sum: u64) -> Seq<u8> {
    spec_put(buf, size - 8, spec_u64_to_le_bytes(sum))
}

/// A buffer with the clock reading `time` in the eight bytes before the
/// checksum of its first `size` bytes.
pub open spec fn spec_stamped(buf: Seq<u8>, size: int, time: u64) -> Seq<u8> {
    spec_put(buf, size - 16, spec_u64_to_le_bytes(time))
}

/// The first `size` bytes of `buf` made into a message: random bytes,
/// then the reading `time`, then the checksum of everything before it,
/// taken before the reading went in.
pub open spec fn spec_sealed(buf: Seq<u8>, size: int, random: Seq<u8>, time: u64) -> Seq<u8> {
    let filled = spec_put(buf, 0, random);
    let sum = crc64_xz(filled.subrange(0, size - 8));
    spec_stamped(spec_summed(filled, size, sum), size, time)
}

/// Writes the checksum `sum` at the end of a message of `message_size` bytes.
pub fn put_checksum(buf: &mut Vec<u8>, message_size: usize, sum: u64)
    requires
        8 <= message_size <= old(buf)@.len(),
    ensures
        final(buf)@ == spec_summed(old(buf)@, message_size as int, sum),
        final(buf)@.len() == old(buf)@.len(),
{
    proof {
        vstd::bytes::lemma_auto_spec_u64_to_from_le_bytes();
    }
    let sum_bytes = u64_to_le_bytes(sum);
    put(buf, message_size - 8, sum_bytes.as_slice());
}

/// Writes the clock reading `time` before the checksum of a message of
/// `message_size` bytes.
pub fn put_time(buf: &mut Vec<u8>, message_size: usize, time: u64)
    requires
        16 <= message_size <= old(buf)@.len(),
    ensures
        final(buf)@ == spec_stamped(old(buf)@, message_size as int, time),
        final(buf)@.len() == old(buf)@.len(),
{
    proof {
        vstd::bytes::lemma_auto_spec_u64_to_from_le_bytes();
    }
    let time_bytes = u64_to_le_bytes(time);
    put(buf, message_size - 16, time_bytes.as_slice());
}

/// Makes the first `message_size` bytes of `buf` into a message with the
/// random bytes and the clock reading given.
pub fn seal_message(buf: &mut Vec<u8>, message_size: usize, random: &[u8], time: u64)
    requires
        16 <= message_size <= old(buf)@.len(),
        random@.len() == message_size - 16,
    ensures
        final(buf)@ == spec_sealed(old(buf)@, message_size as int, random@, time),
        final(buf)@.len() == old(buf)@.len(),
{
    put(buf, 0, random);
    let sum = checksum(slice_subrange(buf.as_slice(), 0, message_size - 8));
    put_checksum(buf, message_size, sum);
    put_time(buf, message_size, time);
}

/// A source of test messages.
pub struct MessageGenerator {
    min_size: usize,
    rng: rand_xorshift::XorShiftRng,
    clock: quanta::Clock,
}

impl MessageGenerator {
    pub closed spec fn spec_min_size(&self) -> usize {
        self.min_size
    }

    /// A source of messages of at least `min_size` bytes, which leaves
    /// room for the clock reading and the checksum.
    pub fn new(min_size: usize) -> (generator: Self)
        requires
            min_size >= 16,
        ensures
            generator.spec_min_size() == min_size,
    {
        let rng = seeded(rng_seed());
        let clock = clock_new();
        preheat();
        MessageGenerator { min_size, rng, clock }
    }

    /// Makes a message of a random size at the start of `buf`; the
    /// result is the size.
    pub fn gen_message(&mut self, buf: &mut Vec<u8>) -> (message_size: usize)
        requires
            16 <= old(self).spec_min_size() < old(buf)@.len(),
        ensures
            final(self).spec_min_size() == old(self).spec_min_size(),
            old(self).spec_min_size() <= message_size < old(buf)@.len(),
            exists|random: Seq<u8>, time: u64|
                random.len() == message_size - 16 && final(buf)@ == #[trigger] spec_sealed(
                    old(buf)@,
                    message_size as int,
                    random,
                    time,
                ),
    {
        let message_size: usize = random_in(&mut self.rng, self.min_size, buf.len());
        let random = random_bytes(&mut self.rng, message_size - 16);
        let time = clock_raw(&self.clock);
        seal_message(buf, message_size, random.as_slice(), time);
        message_size
    }
}

/// The clock reading that a message carries.
pub open spec fn spec_sent_at(message: Seq<u8>) -> u64 {
    spec_u64_from_le_bytes(message.subrange(message.len() - 16, message.len() - 8))
}

/// Whether the checksum that a message carries is the one of its bytes.
pub open spec fn spec_intact(message: Seq<u8>) -> bool {
    crc64_xz(message.subrange(0, message.len() - 8)) == spec_carried(message)
}

/// The checksum that a message carries.
pub open spec fn spec_carried(message: Seq<u8>) -> u64 {
    spec_u64_from_le_bytes(message.subrange(message.len() - 8, message.len() as int))
}

/// The clock reading that a message carries.
pub fn sent_at(message: &[u8]) -> (reading: u64)
    requires
        message@.len() >= 16,
    ensures
        reading == spec_sent_at(message@),
{
    let size: usize = message.len();
    u64_from_le_bytes(slice_subrange(message, size - 16, size - 8))
}

/// The checksum that a message carries.
pub fn carried_checksum(message: &[u8]) -> (sum: u64)
    requires
        message@.len() >= 8,
    ensures
        sum == spec_carried(message@),
{
    let size: usize = message.len();
    u64_from_le_bytes(slice_subrange(message, size - 8, size))
}

/// A consumer of test messages.
pub struct MessageValidator {
    stats: ValidatorStats,
}

impl MessageValidator {
    pub closed spec fn spec_stats(&self) -> ValidatorStats {
        self.stats
    }

    /// A consumer that expects `count` messages.
    pub fn new(count: usize) -> (validator: Self)
        ensures
            validator.spec_stats().spec_got_messages() == 0,
            validator.spec_stats().spec_got_bytes() == 0,
            validator.spec_stats().spec_latencies() == Seq::<u64>::empty(),
    {
        preheat();
        MessageValidator { stats: ValidatorStats::new(count) }
    }

    /// What was measured so far.
    pub fn stats(&self) -> (stats: &ValidatorStats)
        ensures
            *stats == self.spec_stats(),
    {
        &self.stats
    }

    /// Takes note of a message that was received at the reading `now`
    /// and tells whether its checksum holds.
    pub fn check_at(&mut self, buf: &[u8], now: u64) -> (intact: bool)
        requires
            buf@.len() >= 16,
            old(self).spec_stats().spec_got_messages() < usize::MAX,
            old(self).spec_stats().spec_got_bytes() + buf@.len() <= usize::MAX,
        ensures
            intact == spec_intact(buf@),
            final(self).spec_stats().spec_latencies() == old(self).spec_stats().spec_latencies().push(spec_latency(spec_sent_at(buf@), now)),
            final(self).spec_stats().spec_got_messages() == old(self).spec_stats().spec_got_messages() + 1,
            final(self).spec_stats().spec_got_bytes() == old(self).spec_stats().spec_got_bytes()
                + buf@.len(),
            final(self).spec_stats().spec_last_msg_at() == Some(now),
    {
        let size: usize = buf.len();
        self.stats.record_message(sent_at(buf), now, size);
        let payload = slice_subrange(buf, 0, size - 8);
        checksum(payload) == carried_checksum(buf)
    }

    /// Takes note of a message that was just received and tells whether
    /// its checksum holds.
    pub fn check_message(&mut self, buf: &[u8]) -> (intact: bool)
        requires
            buf@.len() >= 16,
            old(self).spec_stats().spec_got_messages() < usize::MAX,
            old(self).spec_stats().spec_got_bytes() + buf@.len() <= usize::MAX,
        ensures
            intact == spec_intact(buf@),
            final(self).spec_stats().spec_got_messages() == old(self).spec_stats().spec_got_messages() + 1,
            final(self).spec_stats().spec_got_bytes() == old(self).spec_stats().spec_got_bytes()
                + buf@.len(),
            exists|now: u64|
                final(self).spec_stats().spec_latencies() == old(self).spec_stats().spec_latencies().push(
                    #[trigger] spec_latency(spec_sent_at(buf@), now),
                ),
    {
        let now = self.stats.time();
        self.check_at(buf, now)
    }
}

} // verus!

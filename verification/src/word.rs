//! The size word that precedes every payload in the ring.
//!
//! A message is stored as one machine word holding the payload length,
//! followed by the payload. The word has the width of `usize` and the byte
//! order of the host, so that it can be read back with a single unaligned
//! load of a `usize`.
use vstd::prelude::*;

verus! {

/// Order in which the bytes of a word are laid out in memory.
#[derive(Clone, Copy, Debug, PartialEq, Eq, Structural)]
pub enum ByteOrder {
    /// Least significant byte first.
    Little,
    /// Most significant byte first.
    Big,
}

/// Number of bytes of a size word.
pub open spec fn word_width() -> nat {
    vstd::layout::size_of::<usize>()
}

/// `256` to the power `n`.
pub open spec fn radix(n: nat) -> nat
    decreases n,
{
    if n == 0 {
        1
    } else {
        256 * radix((n - 1) as nat)
    }
}

/// The number that `bytes` spell when the first byte is the least significant one.
pub open spec fn le_value(bytes: Seq<u8>) -> nat
    decreases bytes.len(),
{
    if bytes.len() == 0 {
        0
    } else {
        bytes[0] as nat + 256 * le_value(bytes.drop_first())
    }
}

/// The `width` low-order bytes of `value`, least significant first.
pub open spec fn le_bytes(value: nat, width: nat) -> Seq<u8>
    decreases width,
{
    if width == 0 {
        Seq::empty()
    } else {
        seq![(value % 256) as u8] + le_bytes(value / 256, (width - 1) as nat)
    }
}

/// The number that a stored word spells in the given byte order.
pub open spec fn word_value(bytes: Seq<u8>, order: ByteOrder) -> nat {
    match order {
        ByteOrder::Little => le_value(bytes),
        ByteOrder::Big => le_value(bytes.reverse()),
    }
}

/// The stored form of `value`: `word_width()` bytes in the given order.
pub open spec fn word_bytes(value: nat, order: ByteOrder) -> Seq<u8> {
    match order {
        ByteOrder::Little => le_bytes(value, word_width()),
        ByteOrder::Big => le_bytes(value, word_width()).reverse(),
    }
}

pub proof fn lemma_radix_values()
    ensures
        radix(4) == 0x1_0000_0000,
        radix(8) == 0x1_0000_0000_0000_0000,
{
    reveal_with_fuel(radix, 9);
}

pub proof fn lemma_le_bytes_len(value: nat, width: nat)
    ensures
        le_bytes(value, width).len() == width,
    decreases width,
{
    if width > 0 {
        lemma_le_bytes_len(value / 256, (width - 1) as nat);
    }
}

pub proof fn lemma_le_value_bound(bytes: Seq<u8>)
    ensures
        le_value(bytes) < radix(bytes.len()),
    decreases bytes.len(),
{
    if bytes.len() > 0 {
        lemma_le_value_bound(bytes.drop_first());
    }
}

/// Decoding undoes encoding for every value that fits in the width.
pub proof fn lemma_le_round_trip(value: nat, width: nat)
    requires
        value < radix(width),
    ensures
        le_value(le_bytes(value, width)) == value,
    decreases width,
{
    if width > 0 {
        let rest = le_bytes(value / 256, (width - 1) as nat);
        let all = le_bytes(value, width);
        lemma_le_round_trip(value / 256, (width - 1) as nat);
        assert(all.drop_first() =~= rest);
        assert(all[0] == (value % 256) as u8);
    }
}

/// A stored size word has the width of a machine word and reads back as the
/// value it was made from, in either byte order.
pub proof fn lemma_word_round_trip(value: usize, order: ByteOrder)
    ensures
        word_bytes(value as nat, order).len() == word_width(),
        word_value(word_bytes(value as nat, order), order) == value,
{
    broadcast use vstd::layout::layout_of_primitives;

    lemma_radix_values();
    lemma_le_bytes_len(value as nat, word_width());
    lemma_le_round_trip(value as nat, word_width());
    let le = le_bytes(value as nat, word_width());
    assert(le.reverse().reverse() =~= le);
}

/// Width in bytes of the size word on this machine.
pub fn word_size() -> (width: usize)
    ensures
        width == word_width(),
        width == 4 || width == 8,
{
    broadcast use vstd::layout::layout_of_primitives;

    core::mem::size_of::<usize>()
}

/// `u16::from_ne_bytes` on the two bytes given: the number they spell in
/// the byte order of the host. Nothing is claimed of the result.
#[verifier::external_body]
fn native_u16(first: u8, second: u8) -> u16 {
    u16::from_ne_bytes([first, second])
}

impl ByteOrder {
    /// The byte order of the host.
    pub fn native() -> ByteOrder {
        ByteOrder::read_as(native_u16(1, 0))
    }

    /// The byte order of a host on which the bytes one and zero, in this
    /// order, spell `reading`: the least significant byte comes first
    /// exactly if they spell one.
    pub fn read_as(reading: u16) -> (order: ByteOrder)
        ensures
            order == if reading == 1 {
                ByteOrder::Little
            } else {
                ByteOrder::Big
            },
    {
        if reading == 1 {
            ByteOrder::Little
        } else {
            ByteOrder::Big
        }
    }
}

fn reversed(bytes: &[u8]) -> (out: Vec<u8>)
    ensures
        out@ == bytes@.reverse(),
{
    let mut out: Vec<u8> = Vec::new();
    let n: usize = bytes.len();
    let mut i: usize = 0;
    while i < n
        invariant
            n == bytes@.len(),
            i <= n,
            out@.len() == i,
            forall|k: int| 0 <= k < i ==> out@[k] == bytes@[n - 1 - k],
        decreases n - i,
    {
        out.push(bytes[n - 1 - i]);
        i = i + 1;
    }
    assert(out@ =~= bytes@.reverse());
    out
}

fn le_encode(value: usize) -> (out: Vec<u8>)
    ensures
        out@ == le_bytes(value as nat, word_width()),
{
    let width: usize = word_size();
    let mut out: Vec<u8> = Vec::new();
    let mut rest: u64 = value as u64;
    let mut i: usize = 0;
    while i < width
        invariant
            i <= width,
            width == word_width(),
            out@.len() == i,
            out@ + le_bytes(rest as nat, (width - i) as nat) =~= le_bytes(
                value as nat,
                word_width(),
            ),
        decreases width - i,
    {
        let ghost before = out@;
        out.push((rest % 256) as u8);
        proof {
            let tail = le_bytes((rest / 256) as nat, (width - i - 1) as nat);
            assert(le_bytes(rest as nat, (width - i) as nat) =~= seq![(rest % 256) as u8] + tail);
            assert(out@ + tail =~= before + (seq![(rest % 256) as u8] + tail));
        }
        rest = rest / 256;
        i = i + 1;
    }
    assert(out@ + Seq::<u8>::empty() =~= out@);
    out
}

fn le_decode(bytes: &[u8]) -> (value: usize)
    requires
        bytes@.len() == word_width(),
    ensures
        value == le_value(bytes@),
{
    let width: usize = word_size();
    let mut acc: u64 = 0;
    let mut i: usize = width;
    proof {
        assert(bytes@.subrange(width as int, width as int) =~= Seq::<u8>::empty());
    }
    while i > 0
        invariant
            i <= width,
            width == bytes@.len(),
            width == 4 || width == 8,
            acc == le_value(bytes@.subrange(i as int, width as int)),
        decreases i,
    {
        let ghost high = bytes@.subrange(i as int, width as int);
        let ghost next = bytes@.subrange(i - 1, width as int);
        proof {
            lemma_le_value_bound(high);
            lemma_radix_values();
            lemma_radix_monotonic(high.len(), 7);
            reveal_with_fuel(radix, 8);
            assert(next.drop_first() =~= high);
            assert(next[0] == bytes@[i - 1]);
        }
        acc = acc * 256 + bytes[i - 1] as u64;
        i = i - 1;
    }
    proof {
        assert(bytes@.subrange(0, width as int) =~= bytes@);
        lemma_le_value_bound(bytes@);
        lemma_radix_values();
    }
    acc as usize
}

pub proof fn lemma_radix_monotonic(low: nat, high: nat)
    requires
        low <= high,
    ensures
        radix(low) <= radix(high),
        radix(low) >= 1,
    decreases high,
{
    if low < high {
        lemma_radix_monotonic(low, (high - 1) as nat);
    } else if low > 0 {
        lemma_radix_monotonic((low - 1) as nat, (low - 1) as nat);
    }
}

/// The stored form of a payload length.
pub fn encode_word(value: usize, order: ByteOrder) -> (out: Vec<u8>)
    ensures
        out@ == word_bytes(value as nat, order),
        out@.len() == word_width(),
{
    proof {
        lemma_word_round_trip(value, order);
    }
    let le = le_encode(value);
    match order {
        ByteOrder::Little => le,
        ByteOrder::Big => reversed(le.as_slice()),
    }
}

/// The payload length that a stored word holds.
pub fn decode_word(bytes: &[u8], order: ByteOrder) -> (value: usize)
    requires
        bytes@.len() == word_width(),
    ensures
        value == word_value(bytes@, order),
{
    match order {
        ByteOrder::Little => le_decode(bytes),
        ByteOrder::Big => {
            let turned = reversed(bytes);
            le_decode(turned.as_slice())
        },
    }
}

} // verus!

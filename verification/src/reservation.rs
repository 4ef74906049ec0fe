//! The decisions of the two sides: how much of a message the producer may
//! copy and where, when it has to rewind or to wait, and where the
//! consumer finds the oldest message. Each is a function of the offsets
//! that a side has read, so that it can be taken on any memory.
use crate::word::word_size;
use crate::word::word_width;
use vstd::prelude::*;

verus! {

/// The greatest number of bytes that one message may take in a ring of
/// `queue_size` bytes, its size word included.
pub open spec fn spec_capacity(queue_size: nat) -> nat {
    if queue_size < word_width() {
        0
    } else if queue_size - word_width() > u32::MAX {
        u32::MAX as nat
    } else {
        (queue_size - word_width()) as nat
    }
}

/// The greatest number of bytes that one message may take, its size word included.
pub fn capacity(queue_size: usize) -> (limit: u32)
    ensures
        limit == spec_capacity(queue_size as nat),
{
    let width: usize = word_size();
    if queue_size < width {
        0
    } else if queue_size - width > u32::MAX as usize {
        u32::MAX
    } else {
        (queue_size - width) as u32
    }
}

/// Whether a message that has `total_written` bytes may grow by `len` more.
pub fn admits(queue_size: usize, total_written: u32, len: usize) -> (ok: bool)
    ensures
        ok == (total_written + len <= spec_capacity(queue_size as nat)),
{
    let limit: u32 = capacity(queue_size);
    total_written <= limit && len <= (limit - total_written) as usize
}

/// What the producer does with the next piece of a message.
#[derive(Clone, Copy, Debug, PartialEq, Eq, Structural)]
pub enum Reservation {
    /// Copy the first `len` bytes of the piece to offset `at` of the double mapping.
    Copy { at: usize, len: usize },
    /// Move both offsets back by the size of the ring, then look again.
    Rewind,
    /// The ring is full: sleep until the left offset is no longer `expected`.
    Wait { expected: u32 },
}

/// Where the room ends that a producer may write to, as an offset into the
/// double mapping: one ring size past the reader, but never past the end
/// of the second mapping.
pub open spec fn spec_write_end(queue_size: nat, left_offset: nat) -> nat {
    if left_offset + queue_size < 2 * queue_size {
        left_offset + queue_size
    } else {
        2 * queue_size
    }
}

/// The decision that the reservation algorithm takes for a piece of `len`
/// bytes, when the message began at `right_offset`, has `total_written`
/// bytes, and the reader is known to have come as far as `left_offset`.
pub open spec fn spec_reserve(
    queue_size: nat,
    right_offset: nat,
    total_written: nat,
    left_offset: nat,
    len: nat,
) -> Reservation {
    let end = spec_write_end(queue_size, left_offset);
    let at = right_offset + total_written;
    if end > at {
        Reservation::Copy {
            at: at as usize,
            len: (if end - at < len {
                end - at
            } else {
                len as int
            }) as usize,
        }
    } else if left_offset >= queue_size {
        Reservation::Rewind
    } else {
        Reservation::Wait { expected: left_offset as u32 }
    }
}

/// One round of the reservation algorithm.
pub fn reserve(
    queue_size: usize,
    right_offset: u32,
    total_written: u32,
    left_offset: u32,
    len: usize,
) -> (step: Reservation)
    requires
        2 * queue_size <= u32::MAX,
    ensures
        step == spec_reserve(
            queue_size as nat,
            right_offset as nat,
            total_written as nat,
            left_offset as nat,
            len as nat,
        ),
        step matches Reservation::Copy { at, len: part } ==> {
            &&& at == right_offset + total_written
            &&& part <= len
            &&& len > 0 ==> part > 0
            &&& at + part <= 2 * queue_size
            &&& at + part <= left_offset + queue_size
        },
{
    let size: u64 = queue_size as u64;
    let reach: u64 = left_offset as u64 + size;
    let end: u64 = if reach < 2 * size {
        reach
    } else {
        2 * size
    };
    let at: u64 = right_offset as u64 + total_written as u64;
    if end > at {
        let space_left: u64 = end - at;
        let part: usize = if space_left < len as u64 {
            space_left as usize
        } else {
            len
        };
        Reservation::Copy { at: at as usize, len: part }
    } else if left_offset as u64 >= size {
        Reservation::Rewind
    } else {
        Reservation::Wait { expected: left_offset }
    }
}

/// Whether the producer's cache of the reader's offset shows room for
/// everything up to the offset `end`.
pub open spec fn spec_cache_covers(queue_size: nat, cached: Option<u32>, end: nat) -> bool {
    cached matches Some(offset) && offset + queue_size > end
}

/// Whether the producer may go by its cache for a piece of `len` bytes,
/// without reading the reader's offset from the header.
pub fn cache_covers(
    queue_size: usize,
    cached: Option<u32>,
    right_offset: u32,
    total_written: u32,
    len: usize,
) -> (covers: bool)
    ensures
        covers == spec_cache_covers(
            queue_size as nat,
            cached,
            (right_offset + total_written + len) as nat,
        ),
{
    match cached {
        Some(offset) => offset as u128 + queue_size as u128 > right_offset as u128
            + total_written as u128 + len as u128,
        None => false,
    }
}

/// Both offsets moved back by the size of the ring.
pub fn rewind(queue_size: usize, left_offset: u32, right_offset: u32) -> (offsets: (u32, u32))
    requires
        queue_size <= left_offset,
        queue_size <= right_offset,
    ensures
        offsets.0 == left_offset - queue_size,
        offsets.1 == right_offset - queue_size,
{
    let size: u32 = queue_size as u32;
    (left_offset - size, right_offset - size)
}

/// Whether the reader's cache of the producer's offset shows a message.
pub open spec fn spec_cache_shows(cached: Option<u32>, left_offset: u32) -> bool {
    cached matches Some(offset) && offset > left_offset
}

/// Whether the reader may go by its cache, without reading the producer's
/// offset from the header.
pub fn cache_shows(cached: Option<u32>, left_offset: u32) -> (shows: bool)
    ensures
        shows == spec_cache_shows(cached, left_offset),
{
    match cached {
        Some(offset) => offset > left_offset,
        None => false,
    }
}

/// Where the oldest message lies and where the next one begins.
#[derive(Clone, Copy, Debug, PartialEq, Eq, Structural)]
pub struct Delivery {
    /// The offset of the payload in the double mapping.
    pub payload_at: usize,
    /// The left offset once the message is consumed.
    pub next_left: u32,
}

/// Places the message whose size word at `left_offset` holds `size`, unless
/// it would reach beyond the second mapping.
pub fn locate(queue_size: usize, left_offset: u32, size: usize) -> (place: Option<Delivery>)
    requires
        2 * queue_size <= u32::MAX,
    ensures
        place is Some == (left_offset + word_width() + size <= 2 * queue_size),
        place matches Some(found) ==> found.payload_at == left_offset + word_width()
            && found.next_left == left_offset + word_width() + size,
{
    let width: u64 = word_size() as u64;
    let end: u128 = left_offset as u128 + width as u128 + size as u128;
    if end <= 2 * (queue_size as u128) {
        Some(
            Delivery {
                payload_at: (left_offset as u64 + width) as usize,
                next_left: end as u32,
            },
        )
    } else {
        None
    }
}

/// What the producer stores and publishes when a message is complete: the
/// payload length for the size word, and the new right offset.
pub fn commit_point(right_offset: u32, total_written: u32) -> (point: (usize, u32))
    requires
        word_width() <= total_written,
        right_offset + total_written <= u32::MAX,
    ensures
        point.0 == total_written - word_width(),
        point.1 == right_offset + total_written,
{
    let width: usize = word_size();
    (total_written as usize - width, right_offset + total_written)
}

} // verus!

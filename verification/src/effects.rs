//! What the operations of the engine make of the header and the ring,
//! as functions of what they find: where the two sides look for each
//! other's offsets, what one round of the reservation algorithm leaves
//! behind, and what a whole message does.
use crate::control::shmem_futex::spec_cached;
use crate::control::shmem_futex::Header;
use crate::control::shmem_futex::LOCK_FREE;
use crate::control::shmem_futex::LOCK_HELD;
use crate::control::Side;
use crate::error::Park;
use crate::error::QueueError;
use crate::reservation::spec_cache_covers;
use crate::reservation::spec_cache_shows;
use crate::reservation::spec_capacity;
use crate::reservation::spec_reserve;
use crate::reservation::Reservation;
use crate::ring::lemma_overwrite_nothing;
use crate::ring::lemma_overwrite_twice;
use crate::ring::overwrite;
use crate::word::word_bytes;
use crate::word::word_width;
use crate::word::ByteOrder;
use vstd::prelude::*;

verus! {

/// The header after the reader looked for the producer's offset: it keeps
/// its cache if that shows a message, and refreshes it from the header if not.
pub open spec fn reader_looked(header: Header) -> Header {
    if spec_cache_shows(spec_cached(header.left.cached_other_offset), header.left.offset) {
        header
    } else {
        header.with_cache(Side::Left, header.right.offset)
    }
}

/// The header after the producer looked for the reader's offset on behalf
/// of a piece that ends at `end`: it keeps its cache if that shows enough
/// room, and refreshes it from the header if not.
pub open spec fn writer_looked(header: Header, queue_size: nat, end: nat) -> Header {
    if spec_cache_covers(queue_size, spec_cached(header.right.cached_other_offset), end) {
        header
    } else {
        header.with_cache(Side::Right, header.left.offset)
    }
}

/// The reader's offset that the producer goes by for a piece that ends at `end`.
pub open spec fn left_seen(header: Header, queue_size: nat, end: nat) -> u32 {
    if spec_cache_covers(queue_size, spec_cached(header.right.cached_other_offset), end) {
        header.right.cached_other_offset
    } else {
        header.left.offset
    }
}

/// How one call of the reservation algorithm ends.
pub struct Written {
    /// The header afterwards.
    pub header: Header,
    /// The offset at which the message in the making begins, afterwards.
    pub right_offset: u32,
    /// What ended the call: a copy, or a wait for the reader.
    pub step: Reservation,
}

/// The reservation algorithm for one piece of `len` bytes: look for the
/// reader, decide, and where the decision is to rewind, move both offsets
/// back under both locks and decide once more.
#[verifier::opaque]
pub open spec fn spec_write(
    header: Header,
    queue_size: nat,
    right_offset: u32,
    total_written: u32,
    len: nat,
) -> Written {
    let end = (right_offset + total_written + len) as nat;
    let looked = writer_looked(header, queue_size, end);
    let first = spec_reserve(
        queue_size,
        right_offset as nat,
        total_written as nat,
        left_seen(header, queue_size, end) as nat,
        len,
    );
    if first == Reservation::Rewind {
        let moved = looked.fixed(
            (looked.left.offset - queue_size) as u32,
            (right_offset - queue_size) as u32,
        );
        Written {
            header: moved,
            right_offset: (right_offset - queue_size) as u32,
            step: spec_reserve(
                queue_size,
                (right_offset - queue_size) as nat,
                total_written as nat,
                moved.left.offset as nat,
                len,
            ),
        }
    } else {
        Written { header: looked, right_offset, step: first }
    }
}

/// Whether writing `len` more bytes behind the offset `at` makes the
/// producer rewind: the reader has left the first mapping, and the bytes do
/// not all fit before the end of the second.
pub open spec fn spec_rewinds(queue_size: nat, left_offset: nat, at: nat, len: nat) -> bool {
    left_offset >= queue_size && at + len > 2 * queue_size
}

/// The ring after a producer copied `taken` behind the offset `at`: what
/// does not fit before the end of the second mapping lies at its start,
/// where the producer went on after the rewind.
pub open spec fn spec_stored(contents: Seq<u8>, at: int, taken: Seq<u8>) -> Seq<u8> {
    let size = contents.len() as int;
    if at + taken.len() <= 2 * size {
        overwrite(contents, at, taken)
    } else {
        overwrite(
            overwrite(contents, at, taken.subrange(0, 2 * size - at)),
            size,
            taken.subrange(2 * size - at, taken.len() as int),
        )
    }
}

/// One more copy behind what a producer has copied, before or after a
/// rewind, is a copy of both pieces.
pub proof fn lemma_stored_extends(
    contents: Seq<u8>,
    start: int,
    taken: Seq<u8>,
    piece: Seq<u8>,
    at: int,
)
    requires
        0 <= start <= 2 * contents.len(),
        taken.len() + piece.len() <= contents.len(),
        0 <= at,
        at + piece.len() <= 2 * contents.len(),
        at == start + taken.len() || (at == start + taken.len() - contents.len() && start
            + taken.len() >= 2 * contents.len()),
    ensures
        overwrite(spec_stored(contents, start, taken), at, piece) == spec_stored(
            contents,
            start,
            taken + piece,
        ),
{
    let size = contents.len() as int;
    let all = taken + piece;
    if piece.len() == 0 {
        assert(all =~= taken);
        lemma_overwrite_nothing(spec_stored(contents, start, taken), at);
    } else if at == start + taken.len() {
        lemma_overwrite_twice(contents, start, taken, piece);
    } else if start + taken.len() == 2 * size {
        assert(all.subrange(0, 2 * size - start) =~= taken);
        assert(all.subrange(2 * size - start, all.len() as int) =~= piece);
    } else {
        let first = 2 * size - start;
        let before = overwrite(contents, start, taken.subrange(0, first));
        lemma_overwrite_twice(before, size, taken.subrange(first, taken.len() as int), piece);
        assert(all.subrange(0, first) =~= taken.subrange(0, first));
        assert(all.subrange(first, all.len() as int) =~= taken.subrange(
            first,
            taken.len() as int,
        ) + piece);
    }
}

/// The header after a producer set out to write `len` more bytes of a
/// message that has `total_written`: nothing changes if there is nothing
/// to write or the message would exceed the capacity; a rewind replaces
/// both offsets and both caches; and otherwise the producer has looked
/// for room up to the end of the bytes.
pub open spec fn spec_written_header(
    header: Header,
    queue_size: nat,
    total_written: nat,
    len: nat,
) -> Header {
    let at = header.right.offset + total_written;
    if len == 0 || total_written + len > spec_capacity(queue_size) {
        header
    } else if spec_rewinds(queue_size, header.left.offset as nat, at as nat, len) {
        header.fixed(
            (header.left.offset - queue_size) as u32,
            (header.right.offset - queue_size) as u32,
        )
    } else {
        writer_looked(header, queue_size, (at + len) as nat)
    }
}

/// The header after a producer set out to send a payload of `len` bytes
/// while its lock was free, and whether the message was published: the
/// producer takes its lock, reserves the size word, writes the payload,
/// publishes if all of it was written, and gives its lock back.
pub open spec fn spec_sent_header(header: Header, queue_size: nat, len: nat) -> Header {
    let locked = header.with_lock(Side::Right, LOCK_HELD);
    let room = header.left.offset + queue_size - header.right.offset;
    let reserved = spec_written_header(locked, queue_size, 0, word_width());
    let published = spec_send_error(
        queue_size,
        header.left.offset as nat,
        header.right.offset as nat,
        len,
        0,
    ) is None;
    if word_width() > spec_capacity(queue_size) || word_width() > room {
        reserved.with_lock(Side::Right, LOCK_FREE)
    } else {
        let written = spec_written_header(reserved, queue_size, word_width(), len);
        if published {
            written.with_offset(
                Side::Right,
                (written.right.offset + word_width() + len) as u32,
            ).with_lock(Side::Right, LOCK_FREE)
        } else {
            written.with_lock(Side::Right, LOCK_FREE)
        }
    }
}

/// How many of `len` bytes a producer gets to write when `room` bytes
/// are free and the message stays within the capacity.
pub open spec fn spec_taken(len: nat, room: int) -> int {
    if len <= room {
        len as int
    } else {
        room
    }
}

/// The ring after a producer set out to send `payload` while its lock was
/// free: the room for the size word is cleared, the payload follows as
/// far as it is admitted and the room reaches, and the size word takes
/// the length if all of it was written.
pub open spec fn spec_sent_contents(
    header: Header,
    contents: Seq<u8>,
    order: ByteOrder,
    payload: Seq<u8>,
) -> Seq<u8> {
    let size = contents.len();
    let room = header.left.offset + size - header.right.offset;
    let blank = word_bytes(0, order);
    let locked = header.with_lock(Side::Right, LOCK_HELD);
    if word_width() > spec_capacity(size) {
        contents
    } else {
        let cleared = spec_stored(
            contents,
            header.right.offset as int,
            blank.subrange(0, spec_taken(word_width(), room)),
        );
        if word_width() > room {
            cleared
        } else {
            let reserved = spec_written_header(locked, size, 0, word_width());
            let written = spec_written_header(reserved, size, word_width(), payload.len());
            let filled = if payload.len() == 0 || word_width() + payload.len() > spec_capacity(
                size,
            ) {
                cleared
            } else {
                spec_stored(
                    cleared,
                    reserved.right.offset + word_width(),
                    payload.subrange(0, spec_taken(payload.len(), room - word_width())),
                )
            };
            if spec_send_error(
                size,
                header.left.offset as nat,
                header.right.offset as nat,
                payload.len(),
                0,
            ) is None {
                overwrite(filled, written.right.offset as int, word_bytes(payload.len(), order))
            } else {
                filled
            }
        }
    }
}

/// Whether sending a payload of `len` bytes makes the producer rewind: the
/// reader has left the first mapping, and what the producer sets out to
/// write, first the size word and then the payload, does not fit before
/// the end of the second.
pub open spec fn spec_send_rewinds(
    queue_size: nat,
    left_offset: nat,
    right_offset: nat,
    len: nat,
) -> bool {
    &&& left_offset >= queue_size
    &&& word_width() <= spec_capacity(queue_size)
    &&& (right_offset + word_width() > 2 * queue_size || (word_width() + len <= spec_capacity(
        queue_size,
    ) && right_offset + word_width() + len > 2 * queue_size))
}

/// Why a payload of `len` bytes cannot be sent while the producer's lock
/// is free, if it cannot: the size word or the whole message is beyond the
/// capacity, or the room that the reader has given up ends first.
/// `waiting_for` is the left offset that the producer then waits on.
pub open spec fn spec_send_error(
    queue_size: nat,
    left_offset: nat,
    right_offset: nat,
    len: nat,
    waiting_for: u32,
) -> Option<QueueError> {
    let room = left_offset + queue_size - right_offset;
    let parked = QueueError::WouldBlock(Park::Offset { side: Side::Left, expected: waiting_for });
    if word_width() > spec_capacity(queue_size) {
        Some(QueueError::SizeTooLarge)
    } else if word_width() > room {
        Some(parked)
    } else if len > 0 && word_width() + len > spec_capacity(queue_size) {
        Some(QueueError::SizeTooLarge)
    } else if word_width() + len > room {
        Some(parked)
    } else {
        None
    }
}

} // verus!

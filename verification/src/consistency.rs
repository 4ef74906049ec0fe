//! When a header and a ring agree, and what keeps them in agreement: a
//! copy into free room, a rewind, the publishing of a message and the
//! consumption of one.
use crate::control::shmem_futex::spec_cached;
use crate::control::shmem_futex::Header;
use crate::control::shmem_futex::LOCK_FREE;
use crate::control::Side;
use crate::frame::frame;
use crate::frame::frames;
use crate::frame::lemma_frames_append;
use crate::frame::lemma_frames_front;
use crate::frame::lemma_window_part;
use crate::reservation::spec_capacity;
use crate::ring::lemma_overwrite_keeps;
use crate::ring::lemma_window_alias;
use crate::ring::lemma_window_of_overwrite;
use crate::ring::lemma_window_split;
use crate::ring::overwrite;
use crate::ring::window;
use crate::word::word_bytes;
use crate::word::word_value;
use crate::word::word_width;
use crate::word::ByteOrder;
use vstd::prelude::*;

verus! {

/// Whether a header and the ring it governs agree: the offsets are in
/// order and at most one ring apart, neither cache is ahead of the offset
/// it shadows, the reader's lock is free, and the bytes between the offsets
/// are whole frames.
pub open spec fn consistent(header: Header, contents: Seq<u8>, order: ByteOrder) -> bool {
    let size = contents.len();
    let left = header.left.offset;
    let right = header.right.offset;
    &&& size > 0
    &&& 2 * size <= u32::MAX
    &&& left <= right <= left + size
    &&& right <= 2 * size
    &&& header.left.lock == LOCK_FREE
    &&& spec_cached(header.left.cached_other_offset) matches Some(seen) ==> seen <= right
    &&& spec_cached(header.right.cached_other_offset) matches Some(seen) ==> seen <= left
    &&& frames(window(contents, left as int, right - left), order) is Some
}

/// The messages that wait between the two offsets, oldest first.
pub open spec fn pending(header: Header, contents: Seq<u8>, order: ByteOrder) -> Seq<Seq<u8>> {
    frames(
        window(contents, header.left.offset as int, header.right.offset - header.left.offset),
        order,
    ).unwrap()
}

/// A copy into the room behind the message in the making keeps the header
/// and the ring in agreement, and keeps every message that waits.
pub proof fn lemma_copy_keeps(
    header: Header,
    contents: Seq<u8>,
    order: ByteOrder,
    at: int,
    data: Seq<u8>,
)
    requires
        consistent(header, contents, order),
        header.right.offset <= at,
        at + data.len() <= header.left.offset + contents.len(),
        at + data.len() <= 2 * contents.len(),
    ensures
        consistent(header, overwrite(contents, at, data), order),
        pending(header, overwrite(contents, at, data), order) == pending(header, contents, order),
{
    lemma_overwrite_keeps(
        contents,
        at,
        data,
        header.left.offset as int,
        header.right.offset - header.left.offset,
    );
}

/// A rewind keeps the header and the ring in agreement, and keeps every
/// message that waits: both offsets name the same bytes as before, through
/// the other mapping.
pub proof fn lemma_rewind_keeps(header: Header, contents: Seq<u8>, order: ByteOrder)
    requires
        consistent(header, contents, order),
        header.left.offset >= contents.len(),
    ensures
        consistent(
            header.fixed(
                (header.left.offset - contents.len()) as u32,
                (header.right.offset - contents.len()) as u32,
            ),
            contents,
            order,
        ),
        pending(
            header.fixed(
                (header.left.offset - contents.len()) as u32,
                (header.right.offset - contents.len()) as u32,
            ),
            contents,
            order,
        ) == pending(header, contents, order),
{
    lemma_window_alias(
        contents,
        header.left.offset as int,
        header.right.offset - header.left.offset,
    );
}

/// Publishing a message keeps the header and the ring in agreement and
/// adds the payload behind the messages that wait: the size word takes
/// the payload length, and the right offset moves behind the payload.
pub proof fn lemma_commit_appends(
    header: Header,
    contents: Seq<u8>,
    order: ByteOrder,
    total_written: nat,
)
    requires
        consistent(header, contents, order),
        word_width() <= total_written <= spec_capacity(contents.len()),
        header.right.offset + total_written <= header.left.offset + contents.len(),
        header.right.offset + total_written <= 2 * contents.len(),
    ensures
        ({
            let patched = overwrite(
                contents,
                header.right.offset as int,
                word_bytes((total_written - word_width()) as nat, order),
            );
            let moved = header.with_offset(
                Side::Right,
                (header.right.offset + total_written) as u32,
            );
            &&& consistent(moved, patched, order)
            &&& pending(moved, patched, order) == pending(header, contents, order).push(
                window(
                    contents,
                    header.right.offset + word_width(),
                    total_written - word_width(),
                ),
            )
        }),
{
    broadcast use vstd::layout::layout_of_primitives;

    let at = header.right.offset as int;
    let total = total_written as int;
    let width = word_width() as int;
    let left = header.left.offset as int;
    let word = word_bytes((total_written - word_width()) as nat, order);
    let patched = overwrite(contents, at, word);
    let payload = window(contents, at + width, total - width);
    crate::word::lemma_word_round_trip((total_written - word_width()) as usize, order);
    lemma_copy_keeps(header, contents, order, at, word);
    lemma_overwrite_keeps(contents, at, word, at + width, total - width);
    lemma_window_of_overwrite(contents, at, word);
    lemma_window_split(patched, at, width, total - width);
    lemma_window_split(patched, left, at - left, total);
    lemma_overwrite_keeps(contents, at, word, left, at - left);
    assert(window(patched, at, total) == frame(payload, order));
    lemma_frames_append(window(contents, left, at - left), payload, order);
    assert(window(patched, left, at + total - left) == window(contents, left, at - left) + frame(
        payload,
        order,
    ));
}

/// Consuming the oldest message keeps the header and the ring in
/// agreement and leaves the other messages as they wait: the payload lies
/// behind the size word at the left offset, and the left offset moves
/// behind the payload.
pub proof fn lemma_deliver_pops(header: Header, contents: Seq<u8>, order: ByteOrder)
    requires
        consistent(header, contents, order),
        header.left.offset < header.right.offset,
    ensures
        ({
            let size = word_value(window(contents, header.left.offset as int, word_width() as int), order);
            let moved = header.with_offset(
                Side::Left,
                (header.left.offset + word_width() + size) as u32,
            );
            &&& header.left.offset + word_width() + size <= header.right.offset
            &&& pending(header, contents, order).len() > 0
            &&& pending(header, contents, order)[0] == window(
                contents,
                header.left.offset + word_width(),
                size as int,
            )
            &&& consistent(moved, contents, order)
            &&& pending(moved, contents, order) == pending(header, contents, order).drop_first()
        }),
{
    let left = header.left.offset as int;
    let len = header.right.offset - header.left.offset;
    let width = word_width() as int;
    let waiting = window(contents, left, len);
    lemma_frames_front(waiting, order);
    lemma_window_part(contents, left, len, 0, width);
    let size = word_value(window(contents, left, width), order) as int;
    lemma_window_part(contents, left, len, width, width + size);
    lemma_window_part(contents, left, len, width + size, len);
}

} // verus!

//! How messages lie in the ring: each as a size word followed by that many
//! bytes of payload, one after the other without gaps.
use crate::ring::window;
use crate::word::lemma_word_round_trip;
use crate::word::word_bytes;
use crate::word::word_value;
use crate::word::word_width;
use crate::word::ByteOrder;
use vstd::prelude::*;

verus! {

/// The bytes that one message takes in the ring.
pub open spec fn frame(payload: Seq<u8>, order: ByteOrder) -> Seq<u8> {
    word_bytes(payload.len(), order) + payload
}

/// The payload length that the size word at the start of `bytes` holds.
pub open spec fn first_size(bytes: Seq<u8>, order: ByteOrder) -> nat {
    word_value(bytes.subrange(0, word_width() as int), order)
}

/// The messages that `bytes` hold, oldest first, if `bytes` are made of
/// whole frames and nothing else.
pub open spec fn frames(bytes: Seq<u8>, order: ByteOrder) -> Option<Seq<Seq<u8>>>
    decreases bytes.len(),
{
    if bytes.len() == 0 {
        Some(Seq::empty())
    } else if word_width() == 0 || bytes.len() < word_width() {
        None
    } else {
        let size = first_size(bytes, order);
        if word_width() + size > bytes.len() {
            None
        } else {
            match frames(bytes.subrange((word_width() + size) as int, bytes.len() as int), order) {
                Some(rest) => Some(
                    seq![bytes.subrange(word_width() as int, (word_width() + size) as int)] + rest,
                ),
                None => None,
            }
        }
    }
}

/// The bytes that a sequence of messages takes in the ring.
pub open spec fn framed_len(messages: Seq<Seq<u8>>) -> nat
    decreases messages.len(),
{
    if messages.len() == 0 {
        0
    } else {
        word_width() + messages[0].len() + framed_len(messages.drop_first())
    }
}

/// A well-formed stretch that is not empty starts with a whole frame: its
/// payload is the oldest message, and what follows holds the others.
pub proof fn lemma_frames_front(bytes: Seq<u8>, order: ByteOrder)
    requires
        frames(bytes, order) is Some,
        bytes.len() > 0,
    ensures
        word_width() + first_size(bytes, order) <= bytes.len(),
        frames(bytes, order).unwrap().len() > 0,
        frames(bytes, order).unwrap()[0] == bytes.subrange(
            word_width() as int,
            (word_width() + first_size(bytes, order)) as int,
        ),
        frames(
            bytes.subrange((word_width() + first_size(bytes, order)) as int, bytes.len() as int),
            order,
        )
            == Some(frames(bytes, order).unwrap().drop_first()),
{
    let size = first_size(bytes, order);
    let rest = frames(bytes.subrange((word_width() + size) as int, bytes.len() as int), order).unwrap();
    let first = seq![bytes.subrange(word_width() as int, (word_width() + size) as int)];
    assert((first + rest).drop_first() =~= rest);
}

/// An empty stretch holds no message, and only an empty stretch does.
pub proof fn lemma_frames_empty(bytes: Seq<u8>, order: ByteOrder)
    requires
        frames(bytes, order) is Some,
    ensures
        (frames(bytes, order).unwrap().len() == 0) == (bytes.len() == 0),
{
    if bytes.len() > 0 {
        lemma_frames_front(bytes, order);
    }
}

/// A well-formed stretch is exactly as long as its messages with their size words.
pub proof fn lemma_frames_len(bytes: Seq<u8>, order: ByteOrder)
    requires
        frames(bytes, order) is Some,
    ensures
        framed_len(frames(bytes, order).unwrap()) == bytes.len(),
    decreases bytes.len(),
{
    if bytes.len() > 0 {
        lemma_frames_front(bytes, order);
        let size = first_size(bytes, order);
        lemma_frames_len(bytes.subrange((word_width() + size) as int, bytes.len() as int), order);
    }
}

/// A frame behind a well-formed stretch adds its payload as the newest message.
pub proof fn lemma_frames_append(bytes: Seq<u8>, payload: Seq<u8>, order: ByteOrder)
    requires
        frames(bytes, order) is Some,
        payload.len() <= usize::MAX,
    ensures
        frames(bytes + frame(payload, order), order) == Some(
            frames(bytes, order).unwrap().push(payload),
        ),
    decreases bytes.len(),
{
    broadcast use vstd::layout::layout_of_primitives;

    let width = word_width() as int;
    let word = word_bytes(payload.len(), order);
    let added = frame(payload, order);
    let all = bytes + added;
    lemma_word_round_trip(payload.len() as usize, order);
    assert(width == 4 || width == 8);
    assert(added.len() == width + payload.len());
    if bytes.len() == 0 {
        assert(all =~= added);
        assert(added.subrange(0, width) =~= word);
        assert(first_size(added, order) == payload.len());
        assert(added.subrange(width, width + payload.len()) =~= payload);
        let after = added.subrange(width + payload.len(), added.len() as int);
        assert(after =~= Seq::<u8>::empty());
        assert(frames(after, order) == Some(Seq::<Seq<u8>>::empty()));
        assert(seq![payload] + Seq::<Seq<u8>>::empty() =~= Seq::<Seq<u8>>::empty().push(payload));
        assert(frames(bytes, order).unwrap() =~= Seq::<Seq<u8>>::empty());
    } else {
        lemma_frames_front(bytes, order);
        let size = first_size(bytes, order) as int;
        let tail = bytes.subrange(width + size, bytes.len() as int);
        lemma_frames_append(tail, payload, order);
        assert(all.subrange(0, width) =~= bytes.subrange(0, width));
        assert(first_size(all, order) == size);
        assert(all.subrange(width, width + size) =~= bytes.subrange(width, width + size));
        assert(all.subrange(width + size, all.len() as int) =~= tail + added);
        let first = seq![bytes.subrange(width, width + size)];
        let rest = frames(tail, order).unwrap();
        assert(frames(bytes, order).unwrap() == first + rest);
        assert(frames(all, order) == Some(first + rest.push(payload)));
        assert(first + rest.push(payload) =~= (first + rest).push(payload));
    }
}

/// A part of a window is the window of that part.
pub proof fn lemma_window_part(contents: Seq<u8>, at: int, len: int, from: int, to: int)
    requires
        0 <= from <= to <= len,
    ensures
        window(contents, at, len).subrange(from, to) == window(contents, at + from, to - from),
{
    assert(window(contents, at, len).subrange(from, to) =~= window(
        contents,
        at + from,
        to - from,
    ));
}

} // verus!

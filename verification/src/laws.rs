//! What holds of a queue whatever is done with it.
use crate::consistency::consistent;
use crate::consistency::lemma_commit_appends;
use crate::consistency::lemma_copy_keeps;
use crate::consistency::lemma_rewind_keeps;
use crate::consistency::pending;
use crate::control::Control;
use crate::control::shmem_futex::Header;
use crate::control::shmem_futex::LOCK_FREE;
use crate::effects::spec_send_error;
use crate::effects::spec_send_rewinds;
use crate::effects::spec_sent_contents;
use crate::effects::spec_sent_header;
use crate::frame::framed_len;
use crate::frame::lemma_frames_empty;
use crate::frame::lemma_frames_len;
use crate::handshake::HandshakeResult;
use crate::queue::MemeQueue;
use crate::queue::MemeWriter;
use crate::reservation::spec_capacity;
use crate::ring::lemma_window_of_overwrite;
use crate::ring::overwrite;
use crate::ring::window;
use crate::word::ByteOrder;
use crate::word::lemma_word_round_trip;
use crate::word::word_bytes;
use crate::word::word_value;
use crate::word::word_width;
use vstd::prelude::*;

verus! {

/// The offsets of a queue never cross and are never more than one ring
/// apart, and neither lies beyond the second mapping.
pub proof fn lemma_offsets_in_bounds<H: HandshakeResult, C: Control>(queue: MemeQueue<H, C>)
    requires
        queue.wf(),
    ensures
        queue.header().left.offset <= queue.header().right.offset,
        queue.header().right.offset - queue.header().left.offset <= queue.spec_queue_size(),
        queue.header().right.offset <= 2 * queue.spec_queue_size(),
{
}

/// The bytes between the offsets are the messages that wait, each with
/// its size word, and nothing else.
pub proof fn lemma_window_holds_the_messages<H: HandshakeResult, C: Control>(
    queue: MemeQueue<H, C>,
)
    requires
        queue.wf(),
    ensures
        framed_len(queue@) == queue.header().right.offset - queue.header().left.offset,
{
    lemma_frames_len(
        window(
            queue.contents(),
            queue.header().left.offset as int,
            queue.header().right.offset - queue.header().left.offset,
        ),
        queue.order(),
    );
}

/// A rewind of offsets that have both left the first mapping moves both
/// back by exactly the size of the ring, leaves each cache with the other
/// side's new offset, and changes nothing about the messages that wait.
pub proof fn lemma_rewind(header: Header, contents: Seq<u8>, order: ByteOrder)
    requires
        consistent(header, contents, order),
        header.left.offset >= contents.len(),
    ensures
        ({
            let moved = header.fixed(
                (header.left.offset - contents.len()) as u32,
                (header.right.offset - contents.len()) as u32,
            );
            &&& header.right.offset >= contents.len()
            &&& moved.left.offset == header.left.offset - contents.len()
            &&& moved.right.offset == header.right.offset - contents.len()
            &&& moved.left.cached_other_offset == moved.right.offset
            &&& moved.right.cached_other_offset == moved.left.offset
            &&& moved.left.lock == header.left.lock
            &&& moved.right.lock == header.right.lock
            &&& consistent(moved, contents, order)
            &&& pending(moved, contents, order) == pending(header, contents, order)
        }),
{
    lemma_rewind_keeps(header, contents, order);
}

/// A drained ring takes every message that is within the capacity: the
/// producer never has to wait for the consumer then.
pub proof fn lemma_drained_ring_accepts(queue_size: nat, offset: nat, len: nat, waiting_for: u32)
    requires
        word_width() + len <= spec_capacity(queue_size),
    ensures
        spec_send_error(queue_size, offset, offset, len, waiting_for) is None,
{
}

/// A message beyond the capacity is refused whatever the ring holds.
pub proof fn lemma_oversize_is_refused(
    queue_size: nat,
    left_offset: nat,
    right_offset: nat,
    len: nat,
    waiting_for: u32,
)
    requires
        left_offset <= right_offset <= left_offset + queue_size,
        word_width() + len > spec_capacity(queue_size),
        len > 0,
    ensures
        spec_send_error(queue_size, left_offset, right_offset, len, waiting_for) is Some,
        spec_send_error(queue_size, left_offset, right_offset, len, waiting_for)
            != Some(crate::error::QueueError::SizeTooLarge) ==> right_offset + word_width()
            > left_offset + queue_size,
{
}

/// What is sent into a drained queue is what is received next: the send
/// is owed success as long as the message is within the capacity and the
/// producer's lock is free, the reception that follows is handed the
/// payload, and the queue is drained again afterwards.
pub proof fn lemma_send_then_recv<H: HandshakeResult, C: Control>(
    queue: MemeQueue<H, C>,
    payload: Seq<u8>,
)
    requires
        queue.wf(),
        queue@.len() == 0,
        word_width() + payload.len() <= spec_capacity(queue.spec_queue_size()),
    ensures
        queue.header().left.offset == queue.header().right.offset,
        forall|waiting_for: u32|
            (#[trigger] spec_send_error(
                queue.spec_queue_size(),
                queue.header().left.offset as nat,
                queue.header().right.offset as nat,
                payload.len(),
                waiting_for,
            )) is None,
        queue@.push(payload).len() > 0,
        queue@.push(payload)[0] == payload,
        queue@.push(payload).drop_first() == queue@,
{
    lemma_frames_empty(
        window(
            queue.contents(),
            queue.header().left.offset as int,
            queue.header().right.offset - queue.header().left.offset,
        ),
        queue.order(),
    );
    assert(queue@.push(payload).drop_first() =~= queue@);
}

/// An empty message takes one size word and no more: where the producer's
/// lock is free and the word fits before the end of the second mapping
/// and into the room that the reader has given up, the send is owed
/// success without a rewind, the right offset moves by one word, the
/// left offset stays, the word at the old right offset reads zero, and
/// the message waits behind the others.
pub proof fn lemma_empty_send<H: HandshakeResult, C: Control>(queue: MemeQueue<H, C>)
    requires
        queue.wf(),
        queue.header().right.lock == LOCK_FREE,
        2 * word_width() <= queue.spec_queue_size(),
        queue.header().right.offset + word_width() <= queue.header().left.offset
            + queue.spec_queue_size(),
        queue.header().right.offset + word_width() <= 2 * queue.spec_queue_size(),
    ensures
        ({
            let header = queue.header();
            let size = queue.spec_queue_size();
            let sent = spec_sent_header(header, size, 0);
            let ring = spec_sent_contents(
                header,
                queue.contents(),
                queue.order(),
                Seq::<u8>::empty(),
            );
            &&& forall|waiting_for: u32|
                (#[trigger] spec_send_error(
                    size,
                    header.left.offset as nat,
                    header.right.offset as nat,
                    0,
                    waiting_for,
                )) is None
            &&& !spec_send_rewinds(size, header.left.offset as nat, header.right.offset as nat, 0)
            &&& sent.right.offset == header.right.offset + word_width()
            &&& sent.left.offset == header.left.offset
            &&& sent.right.lock == LOCK_FREE
            &&& word_value(
                window(ring, header.right.offset as int, word_width() as int),
                queue.order(),
            ) == 0
            &&& consistent(sent, ring, queue.order())
            &&& pending(sent, ring, queue.order()) == queue@.push(Seq::<u8>::empty())
        }),
{
    broadcast use vstd::layout::layout_of_primitives;

    let header = queue.header();
    let contents = queue.contents();
    let order = queue.order();
    let size = queue.spec_queue_size();
    let width = word_width() as int;
    let at = header.right.offset as int;
    let blank = word_bytes(0, order);
    lemma_word_round_trip(0, order);
    assert(blank.subrange(0, width) =~= blank);
    let cleared = overwrite(contents, at, blank);
    lemma_copy_keeps(header, contents, order, at, blank);
    let ring = overwrite(cleared, at, blank);
    lemma_window_of_overwrite(cleared, at, blank);
    lemma_commit_appends(header, cleared, order, word_width());
    assert(window(cleared, at + width, 0) =~= Seq::<u8>::empty());
}

/// The messages that wait after the messages of `batch` were sent, one
/// after the other, behind the messages of `waiting`.
pub open spec fn after_sends(waiting: Seq<Seq<u8>>, batch: Seq<Seq<u8>>) -> Seq<Seq<u8>>
    decreases batch.len(),
{
    if batch.len() == 0 {
        waiting
    } else {
        after_sends(waiting.push(batch[0]), batch.drop_first())
    }
}

/// What `count` receptions deliver of the messages of `waiting`, in the
/// order of delivery.
pub open spec fn delivered_by(waiting: Seq<Seq<u8>>, count: nat) -> Seq<Seq<u8>>
    decreases count,
{
    if count == 0 || waiting.len() == 0 {
        Seq::empty()
    } else {
        seq![waiting[0]] + delivered_by(waiting.drop_first(), (count - 1) as nat)
    }
}

/// The messages that wait after `count` receptions.
pub open spec fn after_recvs(waiting: Seq<Seq<u8>>, count: nat) -> Seq<Seq<u8>>
    decreases count,
{
    if count == 0 || waiting.len() == 0 {
        waiting
    } else {
        after_recvs(waiting.drop_first(), (count - 1) as nat)
    }
}

pub proof fn lemma_after_sends(waiting: Seq<Seq<u8>>, batch: Seq<Seq<u8>>)
    ensures
        after_sends(waiting, batch) == waiting + batch,
    decreases batch.len(),
{
    if batch.len() == 0 {
        assert(waiting + batch =~= waiting);
    } else {
        lemma_after_sends(waiting.push(batch[0]), batch.drop_first());
        assert(waiting.push(batch[0]) + batch.drop_first() =~= waiting + batch);
    }
}

pub proof fn lemma_receptions(waiting: Seq<Seq<u8>>, count: nat)
    requires
        count <= waiting.len(),
    ensures
        delivered_by(waiting, count) == waiting.subrange(0, count as int),
        after_recvs(waiting, count) == waiting.subrange(count as int, waiting.len() as int),
    decreases count,
{
    if count == 0 {
        assert(waiting.subrange(0, 0) =~= Seq::<Seq<u8>>::empty());
        assert(waiting.subrange(0, waiting.len() as int) =~= waiting);
    } else {
        lemma_receptions(waiting.drop_first(), (count - 1) as nat);
        assert(seq![waiting[0]] + waiting.drop_first().subrange(0, count - 1)
            =~= waiting.subrange(0, count as int));
        assert(waiting.drop_first().subrange(count - 1, waiting.len() - 1) =~= waiting.subrange(
            count as int,
            waiting.len() as int,
        ));
    }
}

/// A sequence of sends into a drained queue, followed by as many
/// receptions, yields the sequence, and leaves the queue drained.
pub proof fn lemma_sends_then_recvs(batch: Seq<Seq<u8>>)
    ensures
        delivered_by(after_sends(Seq::empty(), batch), batch.len()) == batch,
        after_recvs(after_sends(Seq::empty(), batch), batch.len()) == Seq::<Seq<u8>>::empty(),
{
    lemma_after_sends(Seq::empty(), batch);
    assert(Seq::<Seq<u8>>::empty() + batch =~= batch);
    lemma_receptions(batch, batch.len());
    assert(batch.subrange(0, batch.len() as int) =~= batch);
    assert(batch.subrange(batch.len() as int, batch.len() as int) =~= Seq::<Seq<u8>>::empty());
}

/// One completed operation on a queue.
pub enum Operation {
    /// A send that was accepted, with its payload.
    Send(Seq<u8>),
    /// A reception: it delivers the oldest message, or nothing where none waits.
    Recv,
}

/// The messages that wait after the operations of `trace`, made in this
/// order on a queue in which `waiting` waited.
pub open spec fn waiting_after(waiting: Seq<Seq<u8>>, trace: Seq<Operation>) -> Seq<Seq<u8>>
    decreases trace.len(),
{
    if trace.len() == 0 {
        waiting
    } else {
        match trace[0] {
            Operation::Send(payload) => waiting_after(waiting.push(payload), trace.drop_first()),
            Operation::Recv => waiting_after(after_recvs(waiting, 1), trace.drop_first()),
        }
    }
}

/// The messages that the operations of `trace` deliver, in the order of delivery.
pub open spec fn delivered_after(waiting: Seq<Seq<u8>>, trace: Seq<Operation>) -> Seq<Seq<u8>>
    decreases trace.len(),
{
    if trace.len() == 0 {
        Seq::empty()
    } else {
        match trace[0] {
            Operation::Send(payload) => delivered_after(
                waiting.push(payload),
                trace.drop_first(),
            ),
            Operation::Recv => delivered_by(waiting, 1) + delivered_after(
                after_recvs(waiting, 1),
                trace.drop_first(),
            ),
        }
    }
}

/// The payloads that the operations of `trace` send, in the order of sending.
pub open spec fn sent_in(trace: Seq<Operation>) -> Seq<Seq<u8>>
    decreases trace.len(),
{
    if trace.len() == 0 {
        Seq::empty()
    } else {
        match trace[0] {
            Operation::Send(payload) => seq![payload] + sent_in(trace.drop_first()),
            Operation::Recv => sent_in(trace.drop_first()),
        }
    }
}

/// However sends and receptions alternate, every message is delivered in
/// the order of sending, once, and as it was sent: what was delivered,
/// followed by what still waits, is what waited at first followed by what
/// was sent.
pub proof fn lemma_delivery_in_order(waiting: Seq<Seq<u8>>, trace: Seq<Operation>)
    ensures
        delivered_after(waiting, trace) + waiting_after(waiting, trace) == waiting + sent_in(
            trace,
        ),
    decreases trace.len(),
{
    if trace.len() == 0 {
        assert(Seq::<Seq<u8>>::empty() + waiting =~= waiting + Seq::<Seq<u8>>::empty());
    } else {
        let rest = trace.drop_first();
        match trace[0] {
            Operation::Send(payload) => {
                lemma_delivery_in_order(waiting.push(payload), rest);
                assert(waiting.push(payload) + sent_in(rest) =~= waiting + (seq![payload]
                    + sent_in(rest)));
            },
            Operation::Recv => {
                let left = after_recvs(waiting, 1);
                let got = delivered_by(waiting, 1);
                lemma_delivery_in_order(left, rest);
                if waiting.len() > 0 {
                    lemma_receptions(waiting, 1);
                    assert(got + left =~= waiting);
                } else {
                    assert(got + left =~= waiting);
                }
                assert((got + delivered_after(left, rest)) + waiting_after(left, rest) =~= got
                    + (delivered_after(left, rest) + waiting_after(left, rest)));
                assert(got + (left + sent_in(rest)) =~= (got + left) + sent_in(rest));
            },
        }
    }
}

/// A message in the making is safe from the consumer: whatever the
/// consumer takes while the producer writes, the producer's room and the
/// bytes in it stay as they are.
pub proof fn lemma_reader_spares_writer<H: HandshakeResult, C: Control>(
    writer: MemeWriter<C>,
    before: MemeQueue<H, C>,
    after: MemeQueue<H, C>,
)
    requires
        writer.wf(&before),
        after.wf(),
        after.contents() == before.contents(),
        after.header().right == before.header().right,
        before.header().left.offset <= after.header().left.offset,
    ensures
        writer.wf(&after),
        writer.written(&after) == writer.written(&before),
        writer.payload(&after) == writer.payload(&before),
{
}

/// The producer rewinds only when the reader has left the first mapping,
/// so that both offsets can move back by the size of the ring.
pub proof fn lemma_rewind_only_behind_reader(
    queue_size: nat,
    left_offset: nat,
    right_offset: nat,
    len: nat,
)
    requires
        left_offset <= right_offset,
        spec_send_rewinds(queue_size, left_offset, right_offset, len),
    ensures
        left_offset >= queue_size,
        right_offset >= queue_size,
{
}

} // verus!

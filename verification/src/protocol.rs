//! The protocol between the two sides, step by step. A producer and a
//! consumer share the header and the ring and take their steps in any
//! order; what they may do at any moment is written down here, and that
//! every message arrives once, in order and unharmed, whatever the order
//! of the steps.
use crate::control::shmem_futex::spec_cached;
use crate::control::shmem_futex::Header;
use crate::control::shmem_futex::LOCK_FREE;
use crate::control::shmem_futex::LOCK_HELD;
use crate::control::Side;
use crate::consistency::consistent;
use crate::consistency::lemma_commit_appends;
use crate::consistency::lemma_copy_keeps;
use crate::consistency::lemma_deliver_pops;
use crate::consistency::lemma_rewind_keeps;
use crate::consistency::pending;
use crate::effects::reader_looked;
use crate::reservation::spec_cache_shows;
use crate::reservation::spec_reserve;
use crate::reservation::Reservation;
use crate::reservation::spec_capacity;
use crate::reservation::spec_write_end;
use crate::ring::overwrite;
use crate::ring::window;
use crate::word::word_bytes;
use crate::word::word_value;
use crate::word::word_width;
use crate::word::ByteOrder;
use vstd::prelude::*;

verus! {

/// Where the consumer stands.
pub enum Reader {
    /// It holds nothing.
    Idle,
    /// It holds its lock.
    Locked,
    /// It holds its lock and has taken `right_seen` for the producer's offset.
    Looked { right_seen: u32 },
}

/// Where the producer stands.
pub enum Writer {
    /// It holds nothing.
    Idle,
    /// It holds its lock and has written `total_written` bytes of a
    /// message behind the right offset.
    Writing { total_written: nat },
}

/// The two sides and what they share, with the history of what was sent
/// and what was delivered.
pub struct Protocol {
    pub header: Header,
    pub contents: Seq<u8>,
    pub order: ByteOrder,
    pub reader: Reader,
    pub writer: Writer,
    pub sent: Seq<Seq<u8>>,
    pub delivered: Seq<Seq<u8>>,
}

/// One step of one side.
pub enum Step {
    /// The producer takes its lock.
    Begin,
    /// The producer reads the consumer's offset from the header into its cache.
    Refresh,
    /// The producer copies `data` behind what it wrote, into room that it
    /// knows of by `left_seen`, an offset that the consumer has reached.
    Copy { data: Seq<u8>, left_seen: u32 },
    /// The producer takes the consumer's lock, moves both offsets back by
    /// the size of the ring, and gives the consumer's lock back.
    Rewind,
    /// The producer stores the size word, publishes the message and
    /// gives its lock back.
    Commit,
    /// The producer gives its lock back without publishing.
    Abort,
    /// The consumer takes its lock.
    Lock,
    /// The consumer takes its cache for the producer's offset.
    Trust,
    /// The consumer reads the producer's offset from the header.
    Look,
    /// The consumer takes the oldest message, moves its offset behind it
    /// and gives its lock back.
    Deliver,
    /// The consumer found nothing and gives its lock back.
    Retreat,
}

/// The header as it would be with the consumer's lock free.
pub open spec fn at_rest(header: Header) -> Header {
    header.with_lock(Side::Left, LOCK_FREE)
}

/// What always holds of the two sides.
pub open spec fn holds(state: Protocol) -> bool {
    let header = state.header;
    let size = state.contents.len();
    &&& consistent(at_rest(header), state.contents, state.order)
    &&& (state.reader is Idle) == (header.left.lock == LOCK_FREE)
    &&& (state.writer is Idle) == (header.right.lock == LOCK_FREE)
    &&& state.writer matches Writer::Writing { total_written } ==> {
        &&& total_written <= spec_capacity(size)
        &&& header.right.offset + total_written <= header.left.offset + size
        &&& header.right.offset + total_written <= 2 * size
    }
    &&& state.reader matches Reader::Looked { right_seen } ==> right_seen <= header.right.offset
    &&& state.delivered + pending(at_rest(header), state.contents, state.order) == state.sent
}

/// The state after `step`, if the step can be taken.
pub open spec fn next(state: Protocol, step: Step) -> Option<Protocol> {
    let header = state.header;
    let size = state.contents.len();
    let left = header.left.offset;
    let right = header.right.offset;
    match step {
        Step::Begin => if state.writer is Idle {
            Some(
                Protocol {
                    header: header.with_lock(Side::Right, LOCK_HELD),
                    writer: Writer::Writing { total_written: 0 },
                    ..state
                },
            )
        } else {
            None
        },
        Step::Refresh => if state.writer is Writing {
            Some(Protocol { header: header.with_cache(Side::Right, left), ..state })
        } else {
            None
        },
        Step::Copy { data, left_seen } => match state.writer {
            Writer::Writing { total_written } => if left_seen <= left && (left_seen == left
                || spec_cached(header.right.cached_other_offset) == Some(left_seen))
                && total_written + data.len() <= spec_capacity(size) && right + total_written
                + data.len() <= spec_write_end(size, left_seen as nat) {
                Some(
                    Protocol {
                        contents: overwrite(state.contents, right + total_written, data),
                        writer: Writer::Writing { total_written: total_written + data.len() },
                        ..state
                    },
                )
            } else {
                None
            },
            Writer::Idle => None,
        },
        Step::Rewind => if state.writer is Writing && state.reader is Idle && left >= size {
            Some(
                Protocol {
                    header: header.fixed((left - size) as u32, (right - size) as u32),
                    ..state
                },
            )
        } else {
            None
        },
        Step::Commit => match state.writer {
            Writer::Writing { total_written } => if total_written >= word_width() {
                Some(
                    Protocol {
                        header: header.with_offset(
                            Side::Right,
                            (right + total_written) as u32,
                        ).with_lock(Side::Right, LOCK_FREE),
                        contents: overwrite(
                            state.contents,
                            right as int,
                            word_bytes((total_written - word_width()) as nat, state.order),
                        ),
                        writer: Writer::Idle,
                        sent: state.sent.push(
                            window(
                                state.contents,
                                right + word_width(),
                                total_written - word_width(),
                            ),
                        ),
                        ..state
                    },
                )
            } else {
                None
            },
            Writer::Idle => None,
        },
        Step::Abort => if state.writer is Writing {
            Some(
                Protocol {
                    header: header.with_lock(Side::Right, LOCK_FREE),
                    writer: Writer::Idle,
                    ..state
                },
            )
        } else {
            None
        },
        Step::Lock => if state.reader is Idle {
            Some(
                Protocol {
                    header: header.with_lock(Side::Left, LOCK_HELD),
                    reader: Reader::Locked,
                    ..state
                },
            )
        } else {
            None
        },
        Step::Trust => match spec_cached(header.left.cached_other_offset) {
            Some(seen) => if state.reader is Locked && seen > left {
                Some(Protocol { reader: Reader::Looked { right_seen: seen }, ..state })
            } else {
                None
            },
            None => None,
        },
        Step::Look => if state.reader is Locked {
            Some(
                Protocol {
                    header: header.with_cache(Side::Left, right),
                    reader: Reader::Looked { right_seen: right },
                    ..state
                },
            )
        } else {
            None
        },
        Step::Deliver => match state.reader {
            Reader::Looked { right_seen } => if right_seen > left {
                let size_word = word_value(
                    window(state.contents, left as int, word_width() as int),
                    state.order,
                );
                Some(
                    Protocol {
                        header: header.with_offset(
                            Side::Left,
                            (left + word_width() + size_word) as u32,
                        ).with_lock(Side::Left, LOCK_FREE),
                        reader: Reader::Idle,
                        delivered: state.delivered.push(
                            window(state.contents, left + word_width(), size_word as int),
                        ),
                        ..state
                    },
                )
            } else {
                None
            },
            _ => None,
        },
        Step::Retreat => match state.reader {
            Reader::Looked { right_seen } => if right_seen <= left {
                Some(
                    Protocol {
                        header: header.with_lock(Side::Left, LOCK_FREE),
                        reader: Reader::Idle,
                        ..state
                    },
                )
            } else {
                None
            },
            _ => None,
        },
    }
}

/// The state after the steps of `trace`, as far as they can be taken.
pub open spec fn run(state: Protocol, trace: Seq<Step>) -> Protocol
    decreases trace.len(),
{
    if trace.len() == 0 {
        state
    } else {
        match next(state, trace[0]) {
            Some(following) => run(following, trace.drop_first()),
            None => state,
        }
    }
}

/// The two sides before either has done anything, on a header that the
/// owner has cleared.
pub open spec fn start(contents: Seq<u8>, order: ByteOrder) -> Protocol {
    Protocol {
        header: Header::spec_zeroed().attached(true),
        contents,
        order,
        reader: Reader::Idle,
        writer: Writer::Idle,
        sent: Seq::empty(),
        delivered: Seq::empty(),
    }
}

/// At the start, everything is in order.
pub proof fn lemma_start_holds(contents: Seq<u8>, order: ByteOrder)
    requires
        0 < contents.len(),
        2 * contents.len() <= u32::MAX,
    ensures
        holds(start(contents, order)),
{
    let state = start(contents, order);
    assert(window(contents, 0, 0) =~= Seq::<u8>::empty());
    assert(state.delivered + pending(at_rest(state.header), contents, order) =~= state.sent);
}

/// Every step keeps what always holds.
pub proof fn lemma_step_keeps(state: Protocol, step: Step)
    requires
        holds(state),
        next(state, step) is Some,
    ensures
        holds(next(state, step).unwrap()),
{
    let header = state.header;
    let rest = at_rest(header);
    let after = next(state, step).unwrap();
    let waiting = pending(rest, state.contents, state.order);
    match step {
        Step::Begin => {
            assert(at_rest(after.header) == rest.with_lock(Side::Right, LOCK_HELD));
        },
        Step::Refresh => {
            assert(at_rest(after.header) == rest.with_cache(Side::Right, header.left.offset));
        },
        Step::Copy { data, left_seen } => {
            let total_written = state.writer->total_written;
            lemma_copy_keeps(
                rest,
                state.contents,
                state.order,
                header.right.offset + total_written,
                data,
            );
        },
        Step::Rewind => {
            lemma_rewind_keeps(rest, state.contents, state.order);
            assert(at_rest(after.header) == rest.fixed(
                (header.left.offset - state.contents.len()) as u32,
                (header.right.offset - state.contents.len()) as u32,
            ));
        },
        Step::Commit => {
            let total_written = state.writer->total_written;
            lemma_commit_appends(rest, state.contents, state.order, total_written);
            let moved = rest.with_offset(
                Side::Right,
                (header.right.offset + total_written) as u32,
            );
            assert(at_rest(after.header) == moved.with_lock(Side::Right, LOCK_FREE));
            let payload = window(
                state.contents,
                header.right.offset + word_width(),
                total_written - word_width(),
            );
            assert(state.delivered + waiting.push(payload) =~= (state.delivered + waiting).push(
                payload,
            ));
        },
        Step::Abort => {
            assert(at_rest(after.header) == rest.with_lock(Side::Right, LOCK_FREE));
        },
        Step::Lock => {
            assert(at_rest(after.header) == rest);
        },
        Step::Trust => {},
        Step::Look => {
            assert(at_rest(after.header) == rest.with_cache(Side::Left, header.right.offset));
        },
        Step::Deliver => {
            lemma_deliver_pops(rest, state.contents, state.order);
            let size_word = word_value(
                window(state.contents, header.left.offset as int, word_width() as int),
                state.order,
            );
            assert(at_rest(after.header) == rest.with_offset(
                Side::Left,
                (header.left.offset + word_width() + size_word) as u32,
            ));
            assert(state.delivered.push(waiting[0]) + waiting.drop_first() =~= state.delivered
                + waiting);
        },
        Step::Retreat => {
            assert(at_rest(after.header) == rest);
        },
    }
}

/// Whatever the two sides do and in whatever order, what always holds
/// keeps holding.
pub proof fn lemma_run_keeps(state: Protocol, trace: Seq<Step>)
    requires
        holds(state),
    ensures
        holds(run(state, trace)),
    decreases trace.len(),
{
    if trace.len() > 0 {
        if next(state, trace[0]) is Some {
            lemma_step_keeps(state, trace[0]);
            lemma_run_keeps(next(state, trace[0]).unwrap(), trace.drop_first());
        }
    }
}

/// For any interleaving of the steps of a producer and a consumer on a
/// queue that starts empty, the messages delivered are the first of
/// the messages sent, in the order of sending and byte for byte; and the
/// offsets stay in order and at most one ring apart.
pub proof fn lemma_delivery_follows_sending(state: Protocol, trace: Seq<Step>)
    requires
        holds(state),
        state.sent == Seq::<Seq<u8>>::empty(),
        state.delivered == Seq::<Seq<u8>>::empty(),
    ensures
        ({
            let end = run(state, trace);
            &&& end.delivered.len() <= end.sent.len()
            &&& end.delivered == end.sent.subrange(0, end.delivered.len() as int)
            &&& end.header.left.offset <= end.header.right.offset
            &&& end.header.right.offset - end.header.left.offset <= end.contents.len()
        }),
{
    lemma_run_keeps(state, trace);
    let end = run(state, trace);
    let waiting = pending(at_rest(end.header), end.contents, end.order);
    assert((end.delivered + waiting).subrange(0, end.delivered.len() as int) =~= end.delivered);
}

/// What the reservation algorithm decides can be done: a copy that it
/// grants is a step that the producer may take, however old its knowledge
/// of the consumer's offset, and a rewind that it asks for is a step that
/// the producer may take as soon as the consumer's lock is free.
pub proof fn lemma_reservation_is_a_step(state: Protocol, data: Seq<u8>, left_seen: u32)
    requires
        holds(state),
        state.writer is Writing,
        left_seen == state.header.left.offset || spec_cached(
            state.header.right.cached_other_offset,
        ) == Some(left_seen),
        state.writer->total_written + data.len() <= spec_capacity(state.contents.len()),
    ensures
        spec_reserve(
            state.contents.len(),
            state.header.right.offset as nat,
            state.writer->total_written,
            left_seen as nat,
            data.len(),
        ) matches Reservation::Copy { at, len } ==> {
            &&& at == state.header.right.offset + state.writer->total_written
            &&& len <= data.len()
            &&& next(state, Step::Copy { data: data.subrange(0, len as int), left_seen }) is Some
        },
        spec_reserve(
            state.contents.len(),
            state.header.right.offset as nat,
            state.writer->total_written,
            left_seen as nat,
            data.len(),
        ) == Reservation::Rewind && state.reader is Idle ==> next(state, Step::Rewind) is Some,
{
}

/// A reception is the consumer's steps in a row: it takes its lock, takes
/// its cache or the header for the producer's offset, and delivers the
/// oldest message or retreats. The header ends up as a reception
/// leaves it, and what is delivered is the oldest message that waited.
pub proof fn lemma_reception_is_steps(state: Protocol)
    requires
        holds(state),
        state.reader is Idle,
    ensures
        ({
            let header = state.header;
            let waiting = pending(header, state.contents, state.order);
            let trusts = spec_cache_shows(
                spec_cached(header.left.cached_other_offset),
                header.left.offset,
            );
            let trace = if trusts {
                seq![Step::Lock, Step::Trust, Step::Deliver]
            } else if header.left.offset < header.right.offset {
                seq![Step::Lock, Step::Look, Step::Deliver]
            } else {
                seq![Step::Lock, Step::Look, Step::Retreat]
            };
            let end = run(state, trace);
            &&& end.reader is Idle
            &&& end.contents == state.contents
            &&& end.sent == state.sent
            &&& if header.left.offset < header.right.offset {
                &&& waiting.len() > 0
                &&& end.delivered == state.delivered.push(waiting[0])
                &&& end.header == reader_looked(header).with_offset(
                    Side::Left,
                    (header.left.offset + word_width() + waiting[0].len()) as u32,
                )
            } else {
                &&& end.delivered == state.delivered
                &&& end.header == header.with_cache(Side::Left, header.right.offset)
            }
        }),
{
    let header = state.header;
    assert(at_rest(header) == header);
    let trusts = spec_cache_shows(
        spec_cached(header.left.cached_other_offset),
        header.left.offset,
    );
    let locked = next(state, Step::Lock).unwrap();
    let second = if trusts {
        Step::Trust
    } else {
        Step::Look
    };
    let looked = next(locked, second).unwrap();
    let last = if header.left.offset < header.right.offset {
        Step::Deliver
    } else {
        Step::Retreat
    };
    let trace = seq![Step::Lock, second, last];
    assert(trace.drop_first() =~= seq![second, last]);
    assert(trace.drop_first().drop_first() =~= seq![last]);
    assert(trace.drop_first().drop_first().drop_first() =~= Seq::<Step>::empty());
    assert(run(state, trace) == run(locked, seq![second, last]));
    assert(run(locked, seq![second, last]) == run(looked, seq![last]));
    assert(next(looked, last) is Some);
    assert(run(looked, seq![last]) == run(next(looked, last).unwrap(), Seq::<Step>::empty()));
    if header.left.offset < header.right.offset {
        lemma_deliver_pops(header, state.contents, state.order);
    }
}

/// The locks exclude: a consumer that holds its lock keeps the producer
/// from rewinding, and each side takes its lock only while it is free.
pub proof fn lemma_locks_exclude(state: Protocol)
    requires
        holds(state),
    ensures
        !(state.reader is Idle) ==> next(state, Step::Rewind) is None && next(state, Step::Lock)
            is None,
        !(state.writer is Idle) ==> next(state, Step::Begin) is None,
        next(state, Step::Lock) is Some ==> state.header.left.lock == LOCK_FREE,
        next(state, Step::Begin) is Some ==> state.header.right.lock == LOCK_FREE,
{
}

} // verus!

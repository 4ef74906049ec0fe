//! The ring engine: how a producer reserves room and publishes a message,
//! how a consumer takes the oldest one, and how both offsets are moved back
//! by the size of the ring before they can outgrow the double mapping.
//!
//! The queue of this module keeps the header and the ring in memory of
//! its own, and both sides are operations on the one value, which may be
//! called in any order. Nothing here sleeps: where a side would have to
//! wait for the other, the operation returns and tells what to wait on,
//! and the caller tries again when the other side has moved.
use crate::consistency::consistent;
use crate::consistency::lemma_commit_appends;
use crate::consistency::lemma_copy_keeps;
use crate::consistency::lemma_rewind_keeps;
use crate::consistency::pending;
use crate::effects::reader_looked;
use crate::effects::spec_rewinds;
use crate::effects::spec_send_error;
use crate::effects::spec_send_rewinds;
use crate::effects::lemma_stored_extends;
use crate::effects::spec_sent_contents;
use crate::effects::spec_sent_header;
use crate::effects::spec_stored;
use crate::effects::spec_taken;
use crate::ring::lemma_overwrite_nothing;
use crate::effects::spec_written_header;
use crate::effects::spec_write;
use crate::control::shmem_futex::spec_joined;
use crate::control::shmem_futex::Header;
use crate::control::shmem_futex::LOCK_CONTENDED;
use crate::control::shmem_futex::LOCK_FREE;
use crate::control::shmem_futex::LOCK_HELD;
use crate::control::Control;
use crate::control::Side;
use crate::error::Park;
use crate::error::QueueError;
use crate::frame::lemma_frames_empty;
use crate::frame::lemma_frames_front;
use crate::frame::lemma_window_part;
use crate::handshake::HandshakeResult;
use crate::mmap::check_queue_size;
use crate::handshake::spec_round_up;
use crate::mmap::spec_mappable;
use crate::reservation::admits;
use crate::reservation::cache_covers;
use crate::reservation::cache_shows;
use crate::reservation::commit_point;
use crate::reservation::locate;
use crate::reservation::reserve;
use crate::reservation::rewind;
use crate::reservation::spec_capacity;
use crate::reservation::spec_reserve;
use crate::reservation::Reservation;
use crate::effects::left_seen;
use crate::effects::writer_looked;
use crate::ring::lemma_overwrite_keeps;
use crate::ring::lemma_window_alias;
use crate::ring::lemma_window_of_overwrite;
use crate::ring::lemma_window_split;
use crate::ring::overwrite;
use crate::ring::window;
use crate::ring::Ring;
use crate::stats::Stats;
use crate::word::decode_word;
use crate::word::encode_word;
use crate::word::word_bytes;
use crate::word::word_size;
use crate::word::word_width;
use crate::word::ByteOrder;
use vstd::prelude::*;
use vstd::slice::slice_subrange;

verus! {

/// A queue of byte messages between one producer and one consumer.
pub struct MemeQueue<H: HandshakeResult, C: Control> {
    control: C,
    ring: Ring,
    order: ByteOrder,
    handshake_result: H,
}

impl<H: HandshakeResult, C: Control> View for MemeQueue<H, C> {
    type V = Seq<Seq<u8>>;

    /// The messages that were sent and not yet received, oldest first.
    open spec fn view(&self) -> Seq<Seq<u8>> {
        pending(self.header(), self.contents(), self.order())
    }
}

impl<H: HandshakeResult, C: Control> MemeQueue<H, C> {
    pub closed spec fn spec_control(&self) -> C {
        self.control
    }

    /// The bytes of the ring.
    pub closed spec fn contents(&self) -> Seq<u8> {
        self.ring.contents()
    }

    /// The byte order of the size words.
    pub closed spec fn order(&self) -> ByteOrder {
        self.order
    }

    pub closed spec fn spec_handshake_result(&self) -> H {
        self.handshake_result
    }

    /// The words of the header.
    pub open spec fn header(&self) -> Header {
        self.spec_control().header()
    }

    pub open spec fn spec_stats(&self) -> Stats {
        self.spec_control().spec_stats()
    }

    /// The configuration of the control plane.
    pub open spec fn spec_config(&self) -> C::Config {
        self.spec_control().spec_config()
    }

    /// What the control plane sleeps on besides the header, as it is now.
    pub open spec fn events(&self) -> C::Events {
        self.spec_control().events()
    }

    /// Whether the control plane is set up as that of `before` and holds
    /// what it sleeps on as that did.
    pub open spec fn same_setup(&self, before: &Self) -> bool {
        &&& self.spec_config() == before.spec_config()
        &&& self.events() == before.events()
    }

    pub open spec fn spec_queue_size(&self) -> nat {
        self.contents().len()
    }

    pub open spec fn spec_offset(&self, side: Side) -> u32 {
        self.header().spec_half(side).offset
    }

    /// The invariant of a queue at rest or with one message in the making.
    pub open spec fn wf(&self) -> bool {
        consistent(self.header(), self.contents(), self.order())
    }

    /// Sets up a queue on the shared memory that a handshake produced, with
    /// pages of `page_size` bytes. The ring has the size that the handshake
    /// gives, rounded up to whole pages.
    pub fn with_config(handshake_result: H, config: C::Config, page_size: usize) -> (res: Result<
        Self,
        QueueError,
    >)
        requires
            page_size > 0,
        ensures
            !spec_mappable(handshake_result.spec_queue_size() as nat, page_size as nat) ==> res
                == Err::<Self, QueueError>(QueueError::InvalidInput),
            spec_mappable(handshake_result.spec_queue_size() as nat, page_size as nat) ==> {
                match C::attach_error(config, handshake_result.spec_is_owner()) {
                    Some(refusal) => res == Err::<Self, QueueError>(refusal),
                    None => res is Ok,
                }
            },
            res matches Ok(queue) ==> {
                &&& queue.wf()
                &&& queue@ == Seq::<Seq<u8>>::empty()
                &&& queue.spec_queue_size() == spec_round_up(
                    handshake_result.spec_queue_size() as nat,
                    page_size as nat,
                )
                &&& queue.header() == Header::spec_zeroed().attached(
                    handshake_result.spec_is_owner(),
                )
                &&& queue.spec_stats() == Stats::spec_new()
                &&& queue.spec_config() == config
                &&& queue.events() == C::no_events()
                &&& forall|at: int| 0 <= at < queue.contents().len() ==> queue.contents()[at] == 0
                &&& queue.spec_handshake_result().spec_ready()
                &&& queue.spec_handshake_result().spec_is_owner()
                    == handshake_result.spec_is_owner()
                &&& queue.spec_handshake_result().spec_shmem_fd()
                    == handshake_result.spec_shmem_fd()
                &&& queue.spec_handshake_result().spec_queue_size()
                    == handshake_result.spec_queue_size()
            },
    {
        let mut handshake_result = handshake_result;
        let queue_size: usize = handshake_result.queue_size();
        let ring_size: usize = match check_queue_size(queue_size, page_size) {
            Ok(size) => size,
            Err(error) => {
                return Err(error);
            },
        };
        // A region that was just created holds nothing but zeroes.
        let ring = Ring::new(ring_size);
        let control = match C::new(config, Header::zeroed(), &mut handshake_result) {
            Ok(control) => control,
            Err(error) => {
                return Err(error);
            },
        };
        // The queue lives in this process alone: nobody waits for the signal.
        let _signal = handshake_result.mark_ready();
        let queue = MemeQueue { control, ring, order: ByteOrder::native(), handshake_result };
        proof {
            assert(window(queue.contents(), 0, 0) =~= Seq::<u8>::empty());
        }
        Ok(queue)
    }

    /// Sets up a queue with the configuration that `Default` gives for the
    /// control plane.
    pub fn new(handshake_result: H, page_size: usize) -> (res: Result<Self, QueueError>) where
        C::Config: Default,

        requires
            page_size > 0,
        ensures
            !spec_mappable(handshake_result.spec_queue_size() as nat, page_size as nat) ==> res
                == Err::<Self, QueueError>(QueueError::InvalidInput),
            spec_mappable(handshake_result.spec_queue_size() as nat, page_size as nat) ==> (
            exists|config: C::Config|
                {
                    &&& call_ensures(<C::Config as Default>::default, (), config)
                    &&& match #[trigger] C::attach_error(config, handshake_result.spec_is_owner()) {
                        Some(refusal) => res == Err::<Self, QueueError>(refusal),
                        None => res is Ok,
                    }
                }),
            res matches Ok(queue) ==> {
                &&& queue.wf()
                &&& queue@ == Seq::<Seq<u8>>::empty()
                &&& queue.spec_queue_size() == spec_round_up(
                    handshake_result.spec_queue_size() as nat,
                    page_size as nat,
                )
                &&& queue.header() == Header::spec_zeroed().attached(
                    handshake_result.spec_is_owner(),
                )
                &&& queue.spec_stats() == Stats::spec_new()
                &&& call_ensures(<C::Config as Default>::default, (), queue.spec_config())
                &&& queue.events() == C::no_events()
                &&& forall|at: int| 0 <= at < queue.contents().len() ==> queue.contents()[at] == 0
                &&& queue.spec_handshake_result().spec_ready()
                &&& queue.spec_handshake_result().spec_is_owner()
                    == handshake_result.spec_is_owner()
                &&& queue.spec_handshake_result().spec_shmem_fd()
                    == handshake_result.spec_shmem_fd()
                &&& queue.spec_handshake_result().spec_queue_size()
                    == handshake_result.spec_queue_size()
            },
    {
        Self::with_config(handshake_result, C::Config::default(), page_size)
    }

    /// The counters of the control plane.
    pub fn stats(&self) -> (stats: &Stats)
        ensures
            *stats == self.spec_stats(),
    {
        self.control.stats()
    }

    /// The offset of `side` as the header holds it.
    pub fn offset(&self, side: Side) -> (offset: u32)
        ensures
            offset == self.spec_offset(side),
    {
        self.control.load_offset(side)
    }

    /// The size of the ring in bytes.
    pub fn queue_size(&self) -> (size: usize)
        ensures
            size == self.spec_queue_size(),
    {
        self.ring.size()
    }

    /// What the handshake produced.
    pub fn handshake_result(&self) -> (handshake_result: &H)
        ensures
            *handshake_result == self.spec_handshake_result(),
    {
        &self.handshake_result
    }

    /// Whether no message waits.
    pub fn is_empty(&self) -> (empty: bool)
        requires
            self.wf(),
        ensures
            empty == (self@.len() == 0),
    {
        proof {
            lemma_frames_empty(
                window(
                    self.contents(),
                    self.header().left.offset as int,
                    self.header().right.offset - self.header().left.offset,
                ),
                self.order(),
            );
        }
        self.control.load_offset(Side::Left) == self.control.load_offset(Side::Right)
    }

    /// Takes the producer's lock and reserves room for the size word of a
    /// new message.
    #[verifier::rlimit(40)]
    pub fn writer(&mut self) -> (res: Result<MemeWriter<C>, QueueError>)
        requires
            old(self).wf(),
        ensures
            final(self).wf(),
            final(self)@ == old(self)@,
            final(self).order() == old(self).order(),
            final(self).same_setup(old(self)),
            final(self).spec_handshake_result() == old(self).spec_handshake_result(),
            final(self).spec_stats() == old(self).spec_stats(),
            final(self).spec_queue_size() == old(self).spec_queue_size(),
            final(self).header().left_waiters == old(self).header().left_waiters,
            final(self).header().right_waiters == old(self).header().right_waiters,
            old(self).header().right.lock != LOCK_FREE ==> {
                &&& res matches Err(error)
                &&& error == QueueError::WouldBlock(Park::Lock { side: Side::Right })
                &&& final(self).header() == old(self).header().with_lock(
                    Side::Right,
                    LOCK_CONTENDED,
                )
                &&& final(self).contents() == old(self).contents()
            },
            old(self).header().right.lock == LOCK_FREE ==> {
                let size = old(self).spec_queue_size();
                let left = old(self).header().left.offset;
                let right = old(self).header().right.offset;
                let fits = word_width() <= spec_capacity(size);
                let shift = if fits && spec_rewinds(
                    size,
                    left as nat,
                    right as nat,
                    word_width(),
                ) {
                    size
                } else {
                    0
                };
                &&& final(self).header().left.offset == left - shift
                &&& final(self).header().right.offset == right - shift
                &&& final(self).contents() == spec_stored(
                    old(self).contents(),
                    right as int,
                    word_bytes(0, old(self).order()).subrange(
                        0,
                        if fits {
                            spec_taken(word_width(), left + size - right)
                        } else {
                            0
                        },
                    ),
                )
                &&& if fits && word_width() <= left + size - right {
                    &&& res matches Ok(writer)
                    &&& writer.wf(final(self))
                    &&& writer.spec_total_written() == word_width()
                    &&& writer.payload(final(self)) == Seq::<u8>::empty()
                    &&& final(self).header() == spec_written_header(
                        old(self).header().with_lock(Side::Right, LOCK_HELD),
                        size,
                        0,
                        word_width(),
                    )
                } else {
                    &&& res matches Err(error)
                    &&& final(self).header() == spec_written_header(
                        old(self).header().with_lock(Side::Right, LOCK_HELD),
                        size,
                        0,
                        word_width(),
                    ).with_lock(Side::Right, LOCK_FREE)
                    &&& error == if !fits {
                        QueueError::SizeTooLarge
                    } else {
                        QueueError::WouldBlock(
                            Park::Offset { side: Side::Left, expected: (left - shift) as u32 },
                        )
                    }
                }
            },
    {
        let guard = match self.control.lock(Side::Right) {
            Ok(guard) => guard,
            Err(error) => {
                return Err(error);
            },
        };
        let mut writer = MemeWriter {
            total_written: 0,
            right_offset: self.control.load_offset(Side::Right),
            guard,
        };
        // Room for the size word.
        let blank = encode_word(0, self.order);
        match writer.write_rest(self, blank.as_slice()) {
            Ok(()) => {
                proof {
                    assert(writer.payload(self) =~= Seq::<u8>::empty());
                }
                Ok(writer)
            },
            Err(error) => {
                self.control.unlock(writer.guard);
                Err(error)
            },
        }
    }

    /// Publishes the message that `writer` holds: stores its length in the
    /// size word, moves the right offset behind it, wakes a reader that
    /// sleeps, and gives the producer's lock back. The result is that of
    /// the wake-up; the message is published whether it fails or not.
    pub fn commit(&mut self, writer: MemeWriter<C>) -> (res: Result<(), QueueError>)
        requires
            writer.wf(old(self)),
        ensures
            final(self).wf(),
            res == C::notify_outcome(
                old(self).header().with_offset(
                    Side::Right,
                    (writer.spec_right_offset() + writer.spec_total_written()) as u32,
                ),
                old(self).events(),
                Side::Right,
            ),
            final(self).events() == C::events_after_notify(
                old(self).header().with_offset(
                    Side::Right,
                    (writer.spec_right_offset() + writer.spec_total_written()) as u32,
                ),
                old(self).events(),
                Side::Right,
            ),
            final(self)@ == old(self)@.push(writer.payload(old(self))),
            final(self).header() == old(self).header().with_offset(
                Side::Right,
                (writer.spec_right_offset() + writer.spec_total_written()) as u32,
            ).with_lock(Side::Right, LOCK_FREE),
            final(self).contents() == overwrite(
                old(self).contents(),
                writer.spec_right_offset() as int,
                word_bytes((writer.spec_total_written() - word_width()) as nat, old(self).order()),
            ),
            final(self).order() == old(self).order(),
            final(self).spec_config() == old(self).spec_config(),
            final(self).spec_handshake_result() == old(self).spec_handshake_result(),
            final(self).spec_stats() == if old(self).header().right_waiters != 0 {
                old(self).spec_stats().notified(Side::Right)
            } else {
                old(self).spec_stats()
            },
    {
        let (message_size, right_offset) = commit_point(
            writer.right_offset,
            writer.total_written,
        );
        let word = encode_word(message_size, self.order);
        proof {
            lemma_commit_appends(
                self.header(),
                self.contents(),
                self.order(),
                writer.total_written as nat,
            );
        }
        self.ring.write(writer.right_offset as usize, word.as_slice());
        self.control.commit_offset(Side::Right, right_offset);
        let notified = self.control.notify(Side::Right);
        self.control.unlock(writer.guard);
        notified
    }

    /// Gives up the message that `writer` holds and gives the producer's
    /// lock back. What was written stays behind the right offset, where no
    /// reader looks.
    pub fn abort(&mut self, writer: MemeWriter<C>)
        requires
            writer.wf(old(self)),
        ensures
            final(self).wf(),
            final(self)@ == old(self)@,
            final(self).header() == old(self).header().with_lock(Side::Right, LOCK_FREE),
            final(self).contents() == old(self).contents(),
            final(self).order() == old(self).order(),
            final(self).same_setup(old(self)),
            final(self).spec_handshake_result() == old(self).spec_handshake_result(),
            final(self).spec_stats() == old(self).spec_stats(),
    {
        self.control.unlock(writer.guard);
    }

    /// Sends `payload` as one message. Where the payload is beyond the
    /// capacity or the ring has no room for it, nothing is sent.
    #[verifier::rlimit(40)]
    pub fn send(&mut self, payload: &[u8]) -> (res: Result<(), QueueError>)
        requires
            old(self).wf(),
        ensures
            final(self).wf(),
            final(self).order() == old(self).order(),
            final(self).spec_config() == old(self).spec_config(),
            final(self).spec_handshake_result() == old(self).spec_handshake_result(),
            final(self).spec_queue_size() == old(self).spec_queue_size(),
            final(self).header().left_waiters == old(self).header().left_waiters,
            final(self).header().right_waiters == old(self).header().right_waiters,
            old(self).header().right.lock != LOCK_FREE ==> {
                &&& res matches Err(error)
                &&& error == QueueError::WouldBlock(Park::Lock { side: Side::Right })
                &&& final(self).header() == old(self).header().with_lock(
                    Side::Right,
                    LOCK_CONTENDED,
                )
                &&& final(self).contents() == old(self).contents()
                &&& final(self)@ == old(self)@
                &&& final(self).spec_stats() == old(self).spec_stats()
                &&& final(self).events() == old(self).events()
            },
            old(self).header().right.lock == LOCK_FREE ==> {
                let size = old(self).spec_queue_size();
                let left = old(self).header().left.offset;
                let right = old(self).header().right.offset;
                let shift = if spec_send_rewinds(
                    size,
                    left as nat,
                    right as nat,
                    payload@.len(),
                ) {
                    size
                } else {
                    0
                };
                let error = spec_send_error(
                    size,
                    left as nat,
                    right as nat,
                    payload@.len(),
                    (left - shift) as u32,
                );
                &&& final(self).header() == spec_sent_header(
                    old(self).header(),
                    size,
                    payload@.len(),
                )
                &&& final(self).contents() == spec_sent_contents(
                    old(self).header(),
                    old(self).contents(),
                    old(self).order(),
                    payload@,
                )
                &&& final(self).header().right.lock == LOCK_FREE
                &&& final(self).header().left.offset == left - shift
                &&& match error {
                    None => {
                        &&& res == C::notify_outcome(
                            final(self).header().with_lock(Side::Right, LOCK_HELD),
                            old(self).events(),
                            Side::Right,
                        )
                        &&& final(self).events() == C::events_after_notify(
                            final(self).header().with_lock(Side::Right, LOCK_HELD),
                            old(self).events(),
                            Side::Right,
                        )
                        &&& final(self)@ == old(self)@.push(payload@)
                        &&& final(self).header().right.offset == right + word_width()
                            + payload@.len() - shift
                        &&& final(self).spec_stats() == if old(self).header().right_waiters != 0 {
                            old(self).spec_stats().notified(Side::Right)
                        } else {
                            old(self).spec_stats()
                        }
                    },
                    Some(error) => {
                        &&& res == Err::<(), QueueError>(error)
                        &&& final(self).events() == old(self).events()
                        &&& final(self)@ == old(self)@
                        &&& final(self).header().right.offset == right - shift
                        &&& final(self).spec_stats() == old(self).spec_stats()
                    },
                }
            },
    {
        let mut writer = match self.writer() {
            Ok(writer) => writer,
            Err(error) => {
                return Err(error);
            },
        };
        match writer.write_all(self, payload) {
            Ok(()) => {
                proof {
                    assert(payload@.subrange(0, payload@.len() as int) =~= payload@);
                    assert(Seq::<u8>::empty() + payload@ =~= payload@);
                }
                self.commit(writer)
            },
            Err(error) => {
                self.abort(writer);
                Err(error)
            },
        }
    }

    /// Sleeps on what an operation was told to wait for. Nothing but the
    /// counters can tell afterwards that it happened.
    pub fn wait(&mut self, park: Park) -> (res: Result<(), QueueError>)
        requires
            old(self).wf(),
        ensures
            final(self).wf(),
            final(self)@ == old(self)@,
            final(self).contents() == old(self).contents(),
            final(self).order() == old(self).order(),
            final(self).spec_config() == old(self).spec_config(),
            final(self).spec_handshake_result() == old(self).spec_handshake_result(),
            match park {
                Park::Offset { side, expected } => {
                    &&& res == C::wait_outcome(
                        old(self).spec_config(),
                        old(self).header(),
                        old(self).events(),
                        side,
                        expected,
                    )
                    &&& final(self).events() == C::events_after_wait(
                        old(self).spec_config(),
                        old(self).header(),
                        old(self).events(),
                        side,
                        expected,
                    )
                    &&& final(self).header() == if res is Ok {
                        old(self).header()
                    } else {
                        old(self).header().with_waiters(
                            side,
                            spec_joined(old(self).header().spec_waiters(side)),
                        )
                    }
                    &&& final(self).spec_stats() == if C::parks(
                        old(self).spec_config(),
                        old(self).header(),
                        side,
                        expected,
                    ) {
                        old(self).spec_stats().waited(side)
                    } else {
                        old(self).spec_stats()
                    }
                },
                _ => {
                    &&& res is Ok
                    &&& final(self).events() == old(self).events()
                    &&& final(self).header() == old(self).header()
                    &&& final(self).spec_stats() == old(self).spec_stats()
                },
            },
    {
        match park {
            Park::Offset { side, expected } => self.control.wait(side, expected),
            Park::Lock { side } => Ok(()),
            Park::Event { side } => Ok(()),
        }
    }

    /// Hands the oldest message to `cb` and consumes it, whatever `cb`
    /// makes of it. With no message waiting, nothing is consumed and the
    /// caller is told what to sleep on. Where the wake-up of the producer
    /// fails, the message is consumed all the same and the failure is
    /// the result.
    #[verifier::rlimit(40)]
    pub fn recv<R, F: FnOnce(&[u8]) -> R>(&mut self, cb: F) -> (res: Result<R, QueueError>)
        requires
            old(self).wf(),
            old(self)@.len() > 0 ==> forall|bytes: &[u8]|
                bytes@ == old(self)@[0] ==> cb.requires((bytes,)),
        ensures
            final(self).wf(),
            final(self).contents() == old(self).contents(),
            final(self).order() == old(self).order(),
            final(self).spec_config() == old(self).spec_config(),
            final(self).spec_handshake_result() == old(self).spec_handshake_result(),
            old(self)@.len() == 0 ==> {
                &&& res matches Err(error)
                &&& error == QueueError::WouldBlock(
                    Park::Offset { side: Side::Right, expected: old(self).header().right.offset },
                )
                &&& final(self)@ == old(self)@
                &&& final(self).header() == old(self).header().with_cache(
                    Side::Left,
                    old(self).header().right.offset,
                )
                &&& final(self).spec_stats() == old(self).spec_stats()
                &&& final(self).events() == old(self).events()
            },
            old(self)@.len() > 0 ==> {
                &&& final(self)@ == old(self)@.drop_first()
                &&& final(self).header() == reader_looked(old(self).header()).with_offset(
                    Side::Left,
                    (old(self).header().left.offset + word_width() + old(self)@[0].len()) as u32,
                )
                &&& old(self).header().left.offset + word_width() + old(self)@[0].len() <= old(self).header().right.offset
                &&& final(self).spec_stats() == if old(self).header().left_waiters != 0 {
                    old(self).spec_stats().notified(Side::Left)
                } else {
                    old(self).spec_stats()
                }
                &&& final(self).events() == C::events_after_notify(
                    final(self).header(),
                    old(self).events(),
                    Side::Left,
                )
                &&& match res {
                    Ok(out) => {
                        &&& C::notify_outcome(final(self).header(), old(self).events(), Side::Left)
                            is Ok
                        &&& exists|bytes: &[u8]|
                            bytes@ == old(self)@[0] && cb.ensures((bytes,), out)
                    },
                    Err(error) => C::notify_outcome(
                        final(self).header(),
                        old(self).events(),
                        Side::Left,
                    ) == Err::<(), QueueError>(error),
                }
            },
    {
        let ghost before = self.header();
        let ghost waiting = window(
            self.contents(),
            before.left.offset as int,
            before.right.offset - before.left.offset,
        );
        proof {
            lemma_frames_empty(waiting, self.order());
        }
        let guard = match self.control.lock(Side::Left) {
            Ok(guard) => guard,
            Err(error) => {
                return Err(error);
            },
        };
        let left_offset: u32 = self.control.load_offset(Side::Left);
        let cached = self.control.cached_offset(Side::Right);
        let right_offset: u32 = match cached {
            Some(offset) if cache_shows(cached, left_offset) => offset,
            _ => self.control.sync_load_offset(Side::Right),
        };
        if right_offset > left_offset {
            let width: usize = word_size();
            proof {
                lemma_frames_front(waiting, self.order());
                lemma_window_part(
                    self.contents(),
                    left_offset as int,
                    before.right.offset - before.left.offset,
                    0,
                    width as int,
                );
            }
            let word = self.ring.read(left_offset as usize, width);
            let size: usize = decode_word(word.as_slice(), self.order);
            let place = match locate(self.ring.size(), left_offset, size) {
                Some(place) => place,
                None => unreached(),
            };
            let payload = self.ring.read(place.payload_at, size);
            proof {
                lemma_window_part(
                    self.contents(),
                    left_offset as int,
                    before.right.offset - before.left.offset,
                    width as int,
                    width + size,
                );
                lemma_window_part(
                    self.contents(),
                    left_offset as int,
                    before.right.offset - before.left.offset,
                    width + size,
                    before.right.offset - before.left.offset,
                );
            }
            let out = cb(payload.as_slice());
            self.control.commit_offset(Side::Left, place.next_left);
            self.control.unlock(guard);
            match self.control.notify(Side::Left) {
                Ok(()) => Ok(out),
                Err(error) => Err(error),
            }
        } else {
            self.control.unlock(guard);
            Err(QueueError::WouldBlock(Park::Offset { side: Side::Right, expected: right_offset }))
        }
    }
}

/// The byte sink that a producer fills with one message. It stands for the
/// producer's lock, remembers where the message began, and counts what
/// was written, the size word included.
pub struct MemeWriter<C: Control> {
    total_written: u32,
    right_offset: u32,
    guard: C::LockGuard,
}

impl<C: Control> MemeWriter<C> {
    pub closed spec fn spec_total_written(&self) -> u32 {
        self.total_written
    }

    pub closed spec fn spec_right_offset(&self) -> u32 {
        self.right_offset
    }

    pub closed spec fn spec_guard(&self) -> C::LockGuard {
        self.guard
    }

    /// Whether this writer belongs to `queue` as it is now: it holds the
    /// producer's lock, its message begins at the right offset, and what it
    /// wrote lies in room that the reader has given up.
    pub open spec fn reserving<H: HandshakeResult>(&self, queue: &MemeQueue<H, C>) -> bool {
        &&& queue.wf()
        &&& C::guarded(&self.spec_guard()) == Side::Right
        &&& queue.header().right.lock != LOCK_FREE
        &&& self.spec_right_offset() == queue.header().right.offset
        &&& self.spec_total_written() <= spec_capacity(queue.spec_queue_size())
        &&& self.spec_right_offset() + self.spec_total_written() <= queue.header().left.offset
            + queue.spec_queue_size()
        &&& self.spec_right_offset() + self.spec_total_written() <= 2 * queue.spec_queue_size()
    }

    /// Whether this writer belongs to `queue` and has room for the size word.
    pub open spec fn wf<H: HandshakeResult>(&self, queue: &MemeQueue<H, C>) -> bool {
        &&& self.reserving(queue)
        &&& word_width() <= self.spec_total_written()
    }

    /// Everything written so far, the room for the size word included.
    pub open spec fn written<H: HandshakeResult>(&self, queue: &MemeQueue<H, C>) -> Seq<u8> {
        window(
            queue.contents(),
            self.spec_right_offset() as int,
            self.spec_total_written() as int,
        )
    }

    /// The payload written so far.
    pub open spec fn payload<H: HandshakeResult>(&self, queue: &MemeQueue<H, C>) -> Seq<u8> {
        window(
            queue.contents(),
            self.spec_right_offset() + word_width(),
            self.spec_total_written() - word_width(),
        )
    }

    /// How many bytes were written, the size word included.
    pub fn total_written(&self) -> (total: u32)
        ensures
            total == self.spec_total_written(),
    {
        self.total_written
    }

    /// The offset at which the message begins.
    pub fn right_offset(&self) -> (offset: u32)
        ensures
            offset == self.spec_right_offset(),
    {
        self.right_offset
    }

    /// What `write_all` makes of a writer and its queue, given `buf`: all
    /// of `buf` is written if the message stays within the capacity and the
    /// room suffices; a message beyond the capacity is refused before a
    /// byte is written; and where the room ends first, it is filled and
    /// the caller is told to wait for the reader.
    pub open spec fn wrote_all<H: HandshakeResult>(
        self,
        queue: MemeQueue<H, C>,
        buf: Seq<u8>,
        after: MemeWriter<C>,
        queue_after: MemeQueue<H, C>,
        res: Result<(), QueueError>,
    ) -> bool {
        let header = queue.header();
        let size = queue.spec_queue_size();
        let at = self.spec_right_offset() + self.spec_total_written();
        let room = header.left.offset + size - at;
        let fits = self.spec_total_written() + buf.len() <= spec_capacity(size);
        let moved = buf.len() > 0 && fits && spec_rewinds(
            size,
            header.left.offset as nat,
            at as nat,
            buf.len(),
        );
        let shift = if moved {
            size
        } else {
            0
        };
        &&& after.spec_guard() == self.spec_guard()
        &&& queue_after@ == queue@
        &&& queue_after.order() == queue.order()
        &&& queue_after.same_setup(&queue)
        &&& queue_after.spec_handshake_result() == queue.spec_handshake_result()
        &&& queue_after.spec_stats() == queue.spec_stats()
        &&& queue_after.spec_queue_size() == size
        &&& queue_after.header() == spec_written_header(
            header,
            size,
            self.spec_total_written() as nat,
            buf.len(),
        )
        &&& queue_after.contents() == spec_stored(
            queue.contents(),
            at,
            buf.subrange(0, after.spec_total_written() - self.spec_total_written()),
        )
        &&& queue_after.header().left.offset == header.left.offset - shift
        &&& queue_after.header().right.offset == header.right.offset - shift
        &&& after.spec_right_offset() == queue_after.header().right.offset
        &&& if buf.len() == 0 || (fits && buf.len() <= room) {
            &&& res == Ok::<(), QueueError>(())
            &&& after.spec_total_written() == self.spec_total_written() + buf.len()
            &&& after.written(&queue_after) == self.written(&queue) + buf
            &&& buf.len() == 0 ==> queue_after.header() == header && queue_after.contents()
                == queue.contents()
        } else if !fits {
            &&& res == Err::<(), QueueError>(QueueError::SizeTooLarge)
            &&& after.spec_total_written() == self.spec_total_written()
            &&& queue_after.header() == header
            &&& queue_after.contents() == queue.contents()
        } else {
            &&& res == Err::<(), QueueError>(
                QueueError::WouldBlock(
                    Park::Offset {
                        side: Side::Left,
                        expected: (header.left.offset - shift) as u32,
                    },
                ),
            )
            &&& after.spec_total_written() == self.spec_total_written() + room
            &&& after.written(&queue_after) == self.written(&queue) + buf.subrange(0, room)
        }
    }

    /// Runs the reservation algorithm once for `buf` and copies as much of
    /// it as there is room for; the result is the number of bytes taken.
    pub fn write<H: HandshakeResult>(&mut self, queue: &mut MemeQueue<H, C>, buf: &[u8]) -> (res:
        Result<usize, QueueError>)
        requires
            old(self).wf(old(queue)),
        ensures
            final(self).wf(final(queue)),
            final(self).spec_guard() == old(self).spec_guard(),
            final(queue)@ == old(queue)@,
            final(queue).order() == old(queue).order(),
            final(queue).same_setup(old(queue)),
            final(queue).spec_handshake_result() == old(queue).spec_handshake_result(),
            final(queue).spec_stats() == old(queue).spec_stats(),
            final(queue).spec_queue_size() == old(queue).spec_queue_size(),
            old(self).spec_total_written() + buf@.len() > spec_capacity(
                old(queue).spec_queue_size(),
            ) ==> {
                &&& res == Err::<usize, QueueError>(QueueError::SizeTooLarge)
                &&& final(self).spec_total_written() == old(self).spec_total_written()
                &&& final(self).spec_right_offset() == old(self).spec_right_offset()
                &&& final(queue).header() == old(queue).header()
                &&& final(queue).contents() == old(queue).contents()
            },
            old(self).spec_total_written() + buf@.len() <= spec_capacity(
                old(queue).spec_queue_size(),
            ) ==> {
                let outcome = spec_write(
                    old(queue).header(),
                    old(queue).spec_queue_size(),
                    old(self).spec_right_offset(),
                    old(self).spec_total_written(),
                    buf@.len(),
                );
                &&& final(queue).header() == outcome.header
                &&& final(self).spec_right_offset() == outcome.right_offset
                &&& match outcome.step {
                    Reservation::Copy { at, len } => {
                        &&& res == Ok::<usize, QueueError>(len)
                        &&& len <= buf@.len()
                        &&& buf@.len() > 0 ==> len > 0
                        &&& final(self).spec_total_written() == old(self).spec_total_written()
                            + len
                        &&& final(queue).contents() == overwrite(
                            old(queue).contents(),
                            at as int,
                            buf@.subrange(0, len as int),
                        )
                        &&& final(self).payload(final(queue)) == old(self).payload(old(queue))
                            + buf@.subrange(0, len as int)
                    },
                    Reservation::Wait { expected } => {
                        &&& res == Err::<usize, QueueError>(
                            QueueError::WouldBlock(Park::Offset { side: Side::Left, expected }),
                        )
                        &&& final(self).spec_total_written() == old(self).spec_total_written()
                        &&& final(queue).contents() == old(queue).contents()
                        &&& final(self).payload(final(queue)) == old(self).payload(old(queue))
                    },
                    Reservation::Rewind => false,
                }
            },
    {
        proof {
            lemma_window_part(
                queue.contents(),
                self.right_offset as int,
                self.total_written as int,
                word_width() as int,
                self.total_written as int,
            );
        }
        let res = self.write_piece(queue, buf);
        proof {
            lemma_window_part(
                queue.contents(),
                self.right_offset as int,
                self.total_written as int,
                word_width() as int,
                self.total_written as int,
            );
            let to = match res {
                Ok(len) => len as int,
                Err(_) => 0int,
            };
            assert((old(self).written(old(queue)) + buf@.subrange(0, to)).subrange(
                word_width() as int,
                self.total_written as int,
            ) =~= old(self).payload(old(queue)) + buf@.subrange(0, to));
            assert(buf@.subrange(0, 0) =~= Seq::<u8>::empty());
            assert(old(self).payload(old(queue)) + Seq::<u8>::empty() =~= old(self).payload(
                old(queue),
            ));
        }
        res
    }

    /// Writes all of `buf`, piece by piece, as far as there is room.
    pub fn write_all<H: HandshakeResult>(&mut self, queue: &mut MemeQueue<H, C>, buf: &[u8]) -> (res:
        Result<(), QueueError>)
        requires
            old(self).wf(old(queue)),
        ensures
            final(self).wf(final(queue)),
            old(self).wrote_all(*old(queue), buf@, *final(self), *final(queue), res),
            final(self).payload(final(queue)) == old(self).payload(old(queue)) + buf@.subrange(
                0,
                final(self).spec_total_written() - old(self).spec_total_written(),
            ),
    {
        proof {
            lemma_window_part(
                queue.contents(),
                self.right_offset as int,
                self.total_written as int,
                word_width() as int,
                self.total_written as int,
            );
        }
        let res = self.write_rest(queue, buf);
        proof {
            lemma_window_part(
                queue.contents(),
                self.right_offset as int,
                self.total_written as int,
                word_width() as int,
                self.total_written as int,
            );
            let to = self.total_written - old(self).total_written;
            assert(buf@.subrange(0, buf@.len() as int) =~= buf@);
            assert(buf@.subrange(0, 0) =~= Seq::<u8>::empty());
            assert(old(self).written(old(queue)) + Seq::<u8>::empty() =~= old(self).written(
                old(queue),
            ));
            assert((old(self).written(old(queue)) + buf@.subrange(0, to)).subrange(
                word_width() as int,
                self.total_written as int,
            ) =~= old(self).payload(old(queue)) + buf@.subrange(0, to));
        }
        res
    }

    /// Does nothing: what was written is in the ring already.
    pub fn flush(&mut self) -> (res: Result<(), QueueError>)
        ensures
            res is Ok,
            *final(self) == *old(self),
    {
        Ok(())
    }

    #[verifier::rlimit(40)]
    fn write_rest<H: HandshakeResult>(&mut self, queue: &mut MemeQueue<H, C>, buf: &[u8]) -> (res:
        Result<(), QueueError>)
        requires
            old(self).reserving(old(queue)),
        ensures
            final(self).reserving(final(queue)),
            old(self).wrote_all(*old(queue), buf@, *final(self), *final(queue), res),
            final(self).written(final(queue)) == old(self).written(old(queue)) + buf@.subrange(
                0,
                final(self).spec_total_written() - old(self).spec_total_written(),
            ),
    {
        let n: usize = buf.len();
        let ghost header = queue.header();
        let ghost size = queue.spec_queue_size();
        let ghost began = self.right_offset;
        let ghost total = self.total_written;
        let ghost start = self.written(queue);
        let ghost bytes = queue.contents();
        let mut done: usize = 0;
        proof {
            assert(buf@.subrange(0, 0) =~= Seq::<u8>::empty());
            assert(start + Seq::<u8>::empty() =~= start);
            lemma_overwrite_nothing(bytes, began + total);
        }
        while done < n
            invariant
                n == buf@.len(),
                done <= n,
                self.reserving(queue),
                self.spec_guard() == old(self).spec_guard(),
                queue@ == old(queue)@,
                queue.order() == old(queue).order(),
                queue.same_setup(old(queue)),
                queue.spec_handshake_result() == old(queue).spec_handshake_result(),
                queue.spec_stats() == old(queue).spec_stats(),
                queue.spec_queue_size() == size,
                old(self).reserving(old(queue)),
                header == old(queue).header(),
                size == old(queue).spec_queue_size(),
                began == old(self).spec_right_offset(),
                total == old(self).spec_total_written(),
                start == old(self).written(old(queue)),
                bytes == old(queue).contents(),
                self.total_written == total + done,
                done > 0 ==> total + n <= spec_capacity(size),
                done == 0 ==> queue.header() == header && queue.contents() == bytes,
                (self.right_offset == began && queue.header() == if done == 0 {
                    header
                } else {
                    writer_looked(header, size, (began + total + n) as nat)
                }) || (header.left.offset >= size && total + n <= spec_capacity(size) && began
                    + total + n > 2 * size && began + total + done >= 2 * size
                    && self.right_offset == began - size && queue.header() == header.fixed(
                    (header.left.offset - size) as u32,
                    (began - size) as u32,
                )),
                self.written(queue) == start + buf@.subrange(0, done as int),
                queue.contents() == spec_stored(
                    bytes,
                    began + total,
                    buf@.subrange(0, done as int),
                ),
            decreases n - done,
        {
            let rest = slice_subrange(buf, done, n);
            let ghost so_far = self.written(queue);
            match self.write_piece(queue, rest) {
                Ok(part) => {
                    proof {
                        assert(buf@.subrange(0, done as int) + rest@.subrange(0, part as int)
                            =~= buf@.subrange(0, done + part));
                        lemma_stored_extends(
                            bytes,
                            began + total,
                            buf@.subrange(0, done as int),
                            rest@.subrange(0, part as int),
                            self.right_offset + total + done,
                        );
                    }
                    done = done + part;
                },
                Err(error) => {
                    return Err(error);
                },
            }
        }
        proof {
            assert(buf@.subrange(0, n as int) =~= buf@);
        }
        Ok(())
    }

    #[verifier::rlimit(40)]
    fn write_piece<H: HandshakeResult>(&mut self, queue: &mut MemeQueue<H, C>, buf: &[u8]) -> (res:
        Result<usize, QueueError>)
        requires
            old(self).reserving(old(queue)),
        ensures
            final(self).reserving(final(queue)),
            final(self).spec_guard() == old(self).spec_guard(),
            final(queue)@ == old(queue)@,
            final(queue).order() == old(queue).order(),
            final(queue).same_setup(old(queue)),
            final(queue).spec_handshake_result() == old(queue).spec_handshake_result(),
            final(queue).spec_stats() == old(queue).spec_stats(),
            final(queue).spec_queue_size() == old(queue).spec_queue_size(),
            final(queue).header().right.lock == old(queue).header().right.lock,
            final(queue).header().left_waiters == old(queue).header().left_waiters,
            final(queue).header().right_waiters == old(queue).header().right_waiters,
            (final(queue).header().left.offset == old(queue).header().left.offset && final(self).spec_right_offset() == old(self).spec_right_offset()) || (old(queue).header().left.offset >= old(queue).spec_queue_size() && old(self).spec_right_offset() + old(self).spec_total_written() == 2 * old(queue).spec_queue_size() && final(queue).header().left.offset == old(queue).header().left.offset - old(queue).spec_queue_size() && final(self).spec_right_offset() == old(self).spec_right_offset() - old(queue).spec_queue_size()),
            old(self).spec_total_written() + buf@.len() <= spec_capacity(
                old(queue).spec_queue_size(),
            ) ==> final(queue).header() == if final(self).spec_right_offset() == old(self).spec_right_offset() {
                writer_looked(
                    old(queue).header(),
                    old(queue).spec_queue_size(),
                    (old(self).spec_right_offset() + old(self).spec_total_written()
                        + buf@.len()) as nat,
                )
            } else {
                old(queue).header().fixed(
                    (old(queue).header().left.offset - old(queue).spec_queue_size()) as u32,
                    (old(self).spec_right_offset() - old(queue).spec_queue_size()) as u32,
                )
            },
            res is Err ==> final(self).spec_total_written() == old(self).spec_total_written()
                && final(self).written(final(queue)) == old(self).written(old(queue)) && final(queue).contents() == old(queue).contents(),
            res matches Err(QueueError::SizeTooLarge) ==> old(self).spec_total_written()
                + buf@.len() > spec_capacity(old(queue).spec_queue_size()) && final(queue).header() == old(queue).header() && final(queue).contents() == old(queue).contents(),
            res matches Err(error) ==> error == QueueError::SizeTooLarge || (error
                == QueueError::WouldBlock(
                Park::Offset { side: Side::Left, expected: final(queue).header().left.offset },
            ) && final(queue).header().left.offset < old(queue).spec_queue_size() && final(self).spec_right_offset() + final(self).spec_total_written() == final(queue).header().left.offset + old(queue).spec_queue_size()),
            res matches Ok(len) ==> {
                &&& old(self).spec_total_written() + buf@.len() <= spec_capacity(
                    old(queue).spec_queue_size(),
                )
                &&& len <= buf@.len()
                &&& buf@.len() > 0 ==> len > 0
                &&& final(self).spec_total_written() == old(self).spec_total_written() + len
                &&& final(self).written(final(queue)) == old(self).written(old(queue))
                    + buf@.subrange(0, len as int)
                &&& final(queue).contents() == overwrite(
                    old(queue).contents(),
                    final(self).spec_right_offset() + old(self).spec_total_written(),
                    buf@.subrange(0, len as int),
                )
            },
            old(self).spec_total_written() + buf@.len() > spec_capacity(
                old(queue).spec_queue_size(),
            ) ==> {
                &&& res == Err::<usize, QueueError>(QueueError::SizeTooLarge)
                &&& final(self).spec_total_written() == old(self).spec_total_written()
                &&& final(self).spec_right_offset() == old(self).spec_right_offset()
                &&& final(queue).header() == old(queue).header()
                &&& final(queue).contents() == old(queue).contents()
            },
            old(self).spec_total_written() + buf@.len() <= spec_capacity(
                old(queue).spec_queue_size(),
            ) ==> {
                let outcome = spec_write(
                    old(queue).header(),
                    old(queue).spec_queue_size(),
                    old(self).spec_right_offset(),
                    old(self).spec_total_written(),
                    buf@.len(),
                );
                &&& final(queue).header() == outcome.header
                &&& final(self).spec_right_offset() == outcome.right_offset
                &&& match outcome.step {
                    Reservation::Copy { at, len } => {
                        &&& res == Ok::<usize, QueueError>(len)
                        &&& len <= buf@.len()
                        &&& buf@.len() > 0 ==> len > 0
                        &&& final(self).spec_total_written() == old(self).spec_total_written()
                            + len
                        &&& final(queue).contents() == overwrite(
                            old(queue).contents(),
                            at as int,
                            buf@.subrange(0, len as int),
                        )
                        &&& final(self).written(final(queue)) == old(self).written(old(queue))
                            + buf@.subrange(0, len as int)
                    },
                    Reservation::Wait { expected } => {
                        &&& res == Err::<usize, QueueError>(
                            QueueError::WouldBlock(Park::Offset { side: Side::Left, expected }),
                        )
                        &&& expected == final(queue).header().left.offset
                        &&& final(self).spec_right_offset() + final(self).spec_total_written()
                            == final(queue).header().left.offset + final(queue).spec_queue_size()
                        &&& final(self).spec_total_written() == old(self).spec_total_written()
                        &&& final(queue).contents() == old(queue).contents()
                        &&& final(self).written(final(queue)) == old(self).written(old(queue))
                    },
                    Reservation::Rewind => false,
                }
            },
    {
        let queue_size: usize = queue.ring.size();
        if !admits(queue_size, self.total_written, buf.len()) {
            return Err(QueueError::SizeTooLarge);
        }
        reveal(spec_write);
        let mut step = self.look(queue, buf.len());
        if step == Reservation::Rewind {
            self.rewind_both(queue);
            step = self.look(queue, buf.len());
        }
        match step {
            Reservation::Copy { at, len } => {
                self.copy_piece(queue, buf, at, len);
                Ok(len)
            },
            Reservation::Wait { expected } => Err(
                QueueError::WouldBlock(Park::Offset { side: Side::Left, expected }),
            ),
            Reservation::Rewind => unreached(),
        }
    }

    /// Moves both offsets back by the size of the ring, under both locks.
    fn rewind_both<H: HandshakeResult>(&mut self, queue: &mut MemeQueue<H, C>)
        requires
            old(self).reserving(old(queue)),
            old(queue).header().left.offset >= old(queue).spec_queue_size(),
            old(self).spec_right_offset() + old(self).spec_total_written() == 2 * old(queue).spec_queue_size(),
        ensures
            final(self).reserving(final(queue)),
            final(self).spec_guard() == old(self).spec_guard(),
            final(self).spec_total_written() == old(self).spec_total_written(),
            final(self).spec_right_offset() == old(self).spec_right_offset() - old(queue).spec_queue_size(),
            final(queue).header() == old(queue).header().fixed(
                (old(queue).header().left.offset - old(queue).spec_queue_size()) as u32,
                (old(self).spec_right_offset() - old(queue).spec_queue_size()) as u32,
            ),
            final(queue)@ == old(queue)@,
            final(queue).contents() == old(queue).contents(),
            final(queue).order() == old(queue).order(),
            final(queue).same_setup(old(queue)),
            final(queue).spec_handshake_result() == old(queue).spec_handshake_result(),
            final(queue).spec_stats() == old(queue).spec_stats(),
            final(self).written(final(queue)) == old(self).written(old(queue)),
    {
        let queue_size: usize = queue.ring.size();
        proof {
            lemma_rewind_keeps(queue.header(), queue.contents(), queue.order());
            lemma_window_alias(
                queue.contents(),
                self.right_offset as int,
                self.total_written as int,
            );
        }
        let left_guard = match queue.control.lock(Side::Left) {
            Ok(guard) => guard,
            Err(error) => unreached(),
        };
        let left_offset: u32 = queue.control.load_offset(Side::Left);
        let (new_left_offset, new_right_offset) = rewind(
            queue_size,
            left_offset,
            self.right_offset,
        );
        queue.control.fix_offsets(new_left_offset, new_right_offset);
        self.right_offset = new_right_offset;
        queue.control.unlock(left_guard);
    }

    /// Copies the first `len` bytes of `buf` behind what was written.
    fn copy_piece<H: HandshakeResult>(
        &mut self,
        queue: &mut MemeQueue<H, C>,
        buf: &[u8],
        at: usize,
        len: usize,
    )
        requires
            old(self).reserving(old(queue)),
            at == old(self).spec_right_offset() + old(self).spec_total_written(),
            len <= buf@.len(),
            at + len <= 2 * old(queue).spec_queue_size(),
            at + len <= old(queue).header().left.offset + old(queue).spec_queue_size(),
            old(self).spec_total_written() + len <= spec_capacity(old(queue).spec_queue_size()),
        ensures
            final(self).reserving(final(queue)),
            final(self).spec_guard() == old(self).spec_guard(),
            final(self).spec_total_written() == old(self).spec_total_written() + len,
            final(self).spec_right_offset() == old(self).spec_right_offset(),
            final(queue).header() == old(queue).header(),
            final(queue)@ == old(queue)@,
            final(queue).contents() == overwrite(
                old(queue).contents(),
                at as int,
                buf@.subrange(0, len as int),
            ),
            final(queue).order() == old(queue).order(),
            final(queue).same_setup(old(queue)),
            final(queue).spec_handshake_result() == old(queue).spec_handshake_result(),
            final(queue).spec_stats() == old(queue).spec_stats(),
            final(self).written(final(queue)) == old(self).written(old(queue)) + buf@.subrange(
                0,
                len as int,
            ),
    {
        let piece = slice_subrange(buf, 0, len);
        proof {
            lemma_copy_keeps(queue.header(), queue.contents(), queue.order(), at as int, piece@);
            lemma_overwrite_keeps(
                queue.contents(),
                at as int,
                piece@,
                self.right_offset as int,
                self.total_written as int,
            );
            lemma_window_of_overwrite(queue.contents(), at as int, piece@);
            lemma_window_split(
                overwrite(queue.contents(), at as int, piece@),
                self.right_offset as int,
                self.total_written as int,
                len as int,
            );
        }
        queue.ring.write(at, piece);
        self.total_written = self.total_written + len as u32;
    }

    /// Looks for the reader's offset, in the cache if that shows enough
    /// room and in the header if not, and decides on a piece of `len` bytes.
    fn look<H: HandshakeResult>(&self, queue: &mut MemeQueue<H, C>, len: usize) -> (step:
        Reservation)
        requires
            self.reserving(old(queue)),
            self.spec_total_written() + len <= spec_capacity(old(queue).spec_queue_size()),
        ensures
            final(queue).header() == writer_looked(
                old(queue).header(),
                old(queue).spec_queue_size(),
                (self.spec_right_offset() + self.spec_total_written() + len) as nat,
            ),
            step == spec_reserve(
                old(queue).spec_queue_size(),
                self.spec_right_offset() as nat,
                self.spec_total_written() as nat,
                left_seen(
                    old(queue).header(),
                    old(queue).spec_queue_size(),
                    (self.spec_right_offset() + self.spec_total_written() + len) as nat,
                ) as nat,
                len as nat,
            ),
            step matches Reservation::Copy { at, len: part } ==> {
                &&& at == self.spec_right_offset() + self.spec_total_written()
                &&& part <= len
                &&& len > 0 ==> part > 0
                &&& at + part <= 2 * old(queue).spec_queue_size()
                &&& at + part <= old(queue).header().left.offset + old(queue).spec_queue_size()
            },
            step matches Reservation::Wait { expected } ==> {
                &&& expected == old(queue).header().left.offset
                &&& self.spec_right_offset() + self.spec_total_written() == expected + old(queue).spec_queue_size()
            },
            step == Reservation::Rewind ==> {
                &&& old(queue).header().left.offset >= old(queue).spec_queue_size()
                &&& self.spec_right_offset() + self.spec_total_written() == 2 * old(queue).spec_queue_size()
            },
            self.reserving(final(queue)),
            final(queue)@ == old(queue)@,
            final(queue).contents() == old(queue).contents(),
            final(queue).order() == old(queue).order(),
            final(queue).same_setup(old(queue)),
            final(queue).spec_handshake_result() == old(queue).spec_handshake_result(),
            final(queue).spec_stats() == old(queue).spec_stats(),
    {
        let queue_size: usize = queue.ring.size();
        let cached = queue.control.cached_offset(Side::Left);
        let left_offset: u32 = match cached {
            Some(offset) if cache_covers(
                queue_size,
                cached,
                self.right_offset,
                self.total_written,
                len,
            ) => offset,
            _ => queue.control.sync_load_offset(Side::Left),
        };
        reserve(queue_size, self.right_offset, self.total_written, left_offset, len)
    }
}

} // verus!
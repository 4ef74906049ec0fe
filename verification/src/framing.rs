//! Length-prefixed messages over a byte stream: each message travels as
//! its length, a machine word with the least significant byte first,
//! followed by its bytes.
use crate::frame::first_size;
use crate::frame::frame;
use crate::word::decode_word;
use crate::word::encode_word;
use crate::word::lemma_word_round_trip;
use crate::word::word_size;
use crate::word::word_width;
use crate::word::ByteOrder;
use vstd::prelude::*;
use vstd::slice::slice_subrange;

verus! {

/// Why a message could not be read.
#[derive(Clone, Copy, Debug, PartialEq, Eq, Structural)]
pub enum FramingError {
    /// The stream ended within a message.
    UnexpectedEof,
    /// The next message is longer than the stream was set up to read.
    MessageTooLong,
}

/// A stream of framed messages: the bytes that came in and are yet to be
/// read, and the bytes that went out.
pub struct StdBufFraming {
    capacity: usize,
    incoming: Vec<u8>,
    position: usize,
    outgoing: Vec<u8>,
}

/// Whether `bytes` begin with a whole message.
pub open spec fn starts_with_message(bytes: Seq<u8>) -> bool {
    &&& word_width() <= bytes.len()
    &&& word_width() + first_size(bytes, ByteOrder::Little) <= bytes.len()
}

/// The message that `bytes` begin with.
pub open spec fn first_message(bytes: Seq<u8>) -> Seq<u8> {
    bytes.subrange(
        word_width() as int,
        (word_width() + first_size(bytes, ByteOrder::Little)) as int,
    )
}

/// What is left of `bytes` behind their first message.
pub open spec fn after_first_message(bytes: Seq<u8>) -> Seq<u8> {
    bytes.subrange(
        (word_width() + first_size(bytes, ByteOrder::Little)) as int,
        bytes.len() as int,
    )
}

/// Whether `bytes` begin with the size word of a message that is longer
/// than `capacity`.
pub open spec fn too_long(bytes: Seq<u8>, capacity: usize) -> bool {
    &&& word_width() <= bytes.len()
    &&& first_size(bytes, ByteOrder::Little) > capacity
}

impl StdBufFraming {
    /// The greatest length of a message that can be read.
    pub closed spec fn spec_capacity(&self) -> usize {
        self.capacity
    }

    /// The bytes that came in and were not read yet.
    pub closed spec fn unread(&self) -> Seq<u8> {
        self.incoming@.subrange(self.position as int, self.incoming@.len() as int)
    }

    /// The bytes that went out.
    pub closed spec fn sent(&self) -> Seq<u8> {
        self.outgoing@
    }

    pub closed spec fn wf(&self) -> bool {
        self.position <= self.incoming@.len()
    }

    /// A stream that will yield `inner` and that reads messages of up to
    /// `capacity` bytes.
    pub fn new(capacity: usize, inner: Vec<u8>) -> (stream: Self)
        ensures
            stream.wf(),
            stream.spec_capacity() == capacity,
            stream.unread() == inner@,
            stream.sent() == Seq::<u8>::empty(),
    {
        proof {
            assert(inner@.subrange(0, inner@.len() as int) =~= inner@);
        }
        StdBufFraming { capacity, incoming: inner, position: 0, outgoing: Vec::new() }
    }

    /// Pushes out what was written; every message is pushed out as it is
    /// written, so that nothing is left to do.
    #[inline]
    pub fn flush(&mut self) -> (res: Result<(), FramingError>)
        ensures
            res is Ok,
            final(self).wf() == old(self).wf(),
            final(self).unread() == old(self).unread(),
            final(self).sent() == old(self).sent(),
            final(self).spec_capacity() == old(self).spec_capacity(),
    {
        Ok(())
    }

    /// Writes `message` behind what went out before.
    pub fn write_message(&mut self, message: &[u8]) -> (res: Result<(), FramingError>)
        ensures
            res is Ok,
            final(self).sent() == old(self).sent() + frame(message@, ByteOrder::Little),
            final(self).wf() == old(self).wf(),
            final(self).unread() == old(self).unread(),
            final(self).spec_capacity() == old(self).spec_capacity(),
    {
        let word = encode_word(message.len(), ByteOrder::Little);
        let ghost before = self.outgoing@;
        self.outgoing.extend_from_slice(word.as_slice());
        self.outgoing.extend_from_slice(message);
        proof {
            assert(self.outgoing@ =~= before + frame(message@, ByteOrder::Little));
        }
        self.flush()
    }

    /// The bytes that went out so far.
    pub fn written(&self) -> (bytes: &Vec<u8>)
        ensures
            bytes@ == self.sent(),
    {
        &self.outgoing
    }

    /// Reads the next message and hands it to `f`. A message that is
    /// longer than the capacity is left where it is. If the stream ends
    /// within a message, all of it is consumed and nothing is handed on.
    pub fn read_message<R, F: FnOnce(&[u8]) -> R>(&mut self, f: F) -> (res: Result<
        R,
        FramingError,
    >)
        requires
            old(self).wf(),
            starts_with_message(old(self).unread()) ==> forall|bytes: &[u8]|
                bytes@ == first_message(old(self).unread()) ==> f.requires((bytes,)),
        ensures
            final(self).wf(),
            final(self).spec_capacity() == old(self).spec_capacity(),
            final(self).sent() == old(self).sent(),
            res is Ok == (starts_with_message(old(self).unread()) && !too_long(
                old(self).unread(),
                old(self).spec_capacity(),
            )),
            res matches Ok(out) ==> {
                &&& exists|bytes: &[u8]|
                    bytes@ == first_message(old(self).unread()) && f.ensures((bytes,), out)
                &&& final(self).unread() == after_first_message(old(self).unread())
            },
            res matches Err(error) ==> if too_long(
                old(self).unread(),
                old(self).spec_capacity(),
            ) {
                &&& error == FramingError::MessageTooLong
                &&& final(self).unread() == old(self).unread()
            } else {
                &&& error == FramingError::UnexpectedEof
                &&& final(self).unread() == Seq::<u8>::empty()
            },
    {
        let width: usize = word_size();
        let len: usize = self.incoming.len();
        let ghost unread = self.unread();
        if len - self.position < width {
            self.position = len;
            proof {
                assert(self.unread() =~= Seq::<u8>::empty());
            }
            return Err(FramingError::UnexpectedEof);
        }
        let size: usize = {
            let size_buf = slice_subrange(
                self.incoming.as_slice(),
                self.position,
                self.position + width,
            );
            proof {
                assert(size_buf@ =~= unread.subrange(0, width as int));
            }
            decode_word(size_buf, ByteOrder::Little)
        };
        if size > self.capacity {
            return Err(FramingError::MessageTooLong);
        }
        let start: usize = self.position + width;
        if len - start < size {
            self.position = len;
            proof {
                assert(self.unread() =~= Seq::<u8>::empty());
            }
            return Err(FramingError::UnexpectedEof);
        }
        let message = slice_subrange(self.incoming.as_slice(), start, start + size);
        proof {
            assert(message@ =~= first_message(unread));
        }
        let res = Ok(f(message));
        self.position = start + size;
        proof {
            assert(self.unread() =~= after_first_message(unread));
        }
        res
    }
}

/// What was written as one message is read as that message, and the bytes
/// behind it are what is left.
pub proof fn lemma_framing_round_trip(message: Seq<u8>, rest: Seq<u8>)
    requires
        message.len() <= usize::MAX,
    ensures
        starts_with_message(frame(message, ByteOrder::Little) + rest),
        first_message(frame(message, ByteOrder::Little) + rest) == message,
        after_first_message(frame(message, ByteOrder::Little) + rest) == rest,
{
    let framed = frame(message, ByteOrder::Little);
    let all = framed + rest;
    lemma_word_round_trip(message.len() as usize, ByteOrder::Little);
    assert(all.subrange(0, word_width() as int) =~= crate::word::word_bytes(
        message.len(),
        ByteOrder::Little,
    ));
    assert(first_message(all) =~= message);
    assert(after_first_message(all) =~= rest);
}

} // verus!

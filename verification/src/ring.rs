//! The ring as a process sees it: one region of `size` bytes that is mapped
//! twice at consecutive addresses, so that every offset below `2 * size`
//! names a byte and the bytes at `at` and `at + size` are the same byte.
use vstd::prelude::*;

verus! {

/// The byte of the region that the offset `at` into the double mapping names.
pub open spec fn physical(at: int, size: int) -> int {
    if at < size {
        at
    } else {
        at - size
    }
}

/// What a reader sees in the `len` bytes at offset `at` of the double mapping.
pub open spec fn window(contents: Seq<u8>, at: int, len: int) -> Seq<u8> {
    Seq::new(len as nat, |i: int| contents[physical(at + i, contents.len() as int)])
}

/// The region after `data` was copied to offset `at` of the double mapping.
pub open spec fn overwrite(contents: Seq<u8>, at: int, data: Seq<u8>) -> Seq<u8> {
    Seq::new(
        contents.len(),
        |p: int|
            if at <= p < at + data.len() {
                data[p - at]
            } else if at <= p + contents.len() < at + data.len() {
                data[p + contents.len() - at]
            } else {
                contents[p]
            },
    )
}

/// A copy can be read back where it was written.
pub proof fn lemma_window_of_overwrite(contents: Seq<u8>, at: int, data: Seq<u8>)
    requires
        0 <= at,
        at + data.len() <= 2 * contents.len(),
        data.len() <= contents.len(),
    ensures
        window(overwrite(contents, at, data), at, data.len() as int) == data,
{
    assert(window(overwrite(contents, at, data), at, data.len() as int) =~= data);
}

/// A copy leaves every window untouched that does not meet it, as long as
/// both lie within one stretch of `size` bytes.
pub proof fn lemma_overwrite_keeps(contents: Seq<u8>, at: int, data: Seq<u8>, from: int, len: int)
    requires
        0 <= at,
        at + data.len() <= 2 * contents.len(),
        0 <= from,
        0 <= len,
        from + len <= 2 * contents.len(),
        (from + len <= at && at + data.len() <= from + contents.len()) || (at + data.len() <= from
            && from + len <= at + contents.len()),
    ensures
        window(overwrite(contents, at, data), from, len) == window(contents, from, len),
{
    assert(window(overwrite(contents, at, data), from, len) =~= window(contents, from, len));
}

/// Two copies that follow each other are one copy of both pieces.
pub proof fn lemma_overwrite_twice(contents: Seq<u8>, at: int, first: Seq<u8>, second: Seq<u8>)
    requires
        0 <= at,
        at + first.len() + second.len() <= 2 * contents.len(),
        first.len() + second.len() <= contents.len(),
    ensures
        overwrite(overwrite(contents, at, first), at + first.len(), second) == overwrite(
            contents,
            at,
            first + second,
        ),
{
    assert(overwrite(overwrite(contents, at, first), at + first.len(), second) =~= overwrite(
        contents,
        at,
        first + second,
    ));
}

/// A copy of nothing changes nothing.
pub proof fn lemma_overwrite_nothing(contents: Seq<u8>, at: int)
    ensures
        overwrite(contents, at, Seq::<u8>::empty()) == contents,
{
    assert(overwrite(contents, at, Seq::<u8>::empty()) =~= contents);
}

/// The second mapping shows what the first one shows.
pub proof fn lemma_window_alias(contents: Seq<u8>, at: int, len: int)
    requires
        contents.len() <= at,
        0 <= len,
        at + len <= 2 * contents.len(),
    ensures
        window(contents, at - contents.len(), len) == window(contents, at, len),
{
    assert(window(contents, at - contents.len(), len) =~= window(contents, at, len));
}

/// Two windows that follow each other read as one.
pub proof fn lemma_window_split(contents: Seq<u8>, at: int, first: int, second: int)
    requires
        0 <= first,
        0 <= second,
    ensures
        window(contents, at, first + second) == window(contents, at, first) + window(
            contents,
            at + first,
            second,
        ),
{
    assert(window(contents, at, first + second) =~= window(contents, at, first) + window(
        contents,
        at + first,
        second,
    ));
}

/// The ring data of a queue, seen through both of its mappings.
pub struct Ring {
    bytes: Vec<u8>,
}

impl Ring {
    /// The bytes of the region, by their offset in the file behind the header page.
    pub closed spec fn contents(&self) -> Seq<u8> {
        self.bytes@
    }

    /// The size of the region, which is the length of either mapping.
    pub open spec fn spec_size(&self) -> nat {
        self.contents().len()
    }

    /// What the `len` bytes at offset `at` from the first mapping's base hold.
    pub open spec fn spec_window(&self, at: int, len: int) -> Seq<u8> {
        window(self.contents(), at, len)
    }

    /// A zero-filled ring of `size` bytes.
    pub fn new(size: usize) -> (ring: Ring)
        ensures
            ring.spec_size() == size,
            forall|p: int| 0 <= p < size ==> ring.contents()[p] == 0,
    {
        let mut bytes: Vec<u8> = Vec::new();
        let mut i: usize = 0;
        while i < size
            invariant
                i <= size,
                bytes@.len() == i,
                forall|p: int| 0 <= p < i ==> bytes@[p] == 0,
            decreases size - i,
        {
            bytes.push(0);
            i = i + 1;
        }
        Ring { bytes }
    }

    fn locate(size: usize, at: usize, step: usize) -> (position: usize)
        requires
            at + step < 2 * size,
        ensures
            position == physical(at + step, size as int),
            position < size,
    {
        if at >= size {
            at - size + step
        } else if step >= size - at {
            step - (size - at)
        } else {
            at + step
        }
    }

    /// The size of the region.
    pub fn size(&self) -> (size: usize)
        ensures
            size == self.spec_size(),
    {
        self.bytes.len()
    }

    /// Copies `data` to offset `at` of the double mapping.
    pub fn write(&mut self, at: usize, data: &[u8])
        requires
            at + data@.len() <= 2 * old(self).spec_size(),
            data@.len() <= old(self).spec_size(),
        ensures
            final(self).contents() == overwrite(old(self).contents(), at as int, data@),
            final(self).spec_size() == old(self).spec_size(),
    {
        let size: usize = self.bytes.len();
        let len: usize = data.len();
        let ghost before = self.bytes@;
        let mut i: usize = 0;
        while i < len
            invariant
                i <= len,
                len == data@.len(),
                size == before.len(),
                self.bytes@.len() == size,
                at + len <= 2 * size,
                len <= size,
                self.bytes@ =~= overwrite(before, at as int, data@.subrange(0, i as int)),
            decreases len - i,
        {
            let position: usize = Self::locate(size, at, i);
            let ghost earlier = self.bytes@;
            self.bytes.set(position, data[i]);
            proof {
                let shorter = data@.subrange(0, i as int);
                let longer = data@.subrange(0, i + 1);
                assert forall|p: int| 0 <= p < size implies self.bytes@[p] == overwrite(
                    before,
                    at as int,
                    longer,
                )[p] by {
                    if p == position {
                        assert(longer[i as int] == data@[i as int]);
                    } else {
                        assert(self.bytes@[p] == earlier[p]);
                        assert(earlier[p] == overwrite(before, at as int, shorter)[p]);
                    }
                }
            }
            i = i + 1;
        }
        assert(data@.subrange(0, len as int) =~= data@);
    }

    /// The `len` bytes at offset `at` of the double mapping.
    pub fn read(&self, at: usize, len: usize) -> (out: Vec<u8>)
        requires
            at + len <= 2 * self.spec_size(),
        ensures
            out@ == self.spec_window(at as int, len as int),
    {
        let size: usize = self.bytes.len();
        let mut out: Vec<u8> = Vec::new();
        let mut i: usize = 0;
        while i < len
            invariant
                i <= len,
                size == self.bytes@.len(),
                at + len <= 2 * size,
                out@.len() == i,
                forall|k: int| 0 <= k < i ==> out@[k] == self.bytes@[physical(at + k, size as int)],
            decreases len - i,
        {
            let position: usize = Self::locate(size, at, i);
            out.push(self.bytes[position]);
            i = i + 1;
        }
        assert(out@ =~= self.spec_window(at as int, len as int));
        out
    }
}

} // verus!

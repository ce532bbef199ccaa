//! A cursor over a byte slice, shared by the parsers and the receivers.

use vstd::prelude::*;
use vstd::slice::slice_subrange;

verus! {

/// A position in a byte slice. Reading moves the position forward and
/// never changes the slice.
#[derive(Clone, Copy, Debug)]
pub struct ByteIter<'a> {
    data: &'a [u8],
    pos: usize,
}

impl<'a> ByteIter<'a> {
    /// The position never passes the end of the slice.
    #[verifier::type_invariant]
    pub open spec fn inv(self) -> bool {
        0 <= self.pos() <= self.data().len()
    }

    /// The whole slice, read or not.
    pub closed spec fn data(&self) -> Seq<u8> {
        self.data@
    }

    /// How many bytes of the slice have been read.
    pub closed spec fn pos(&self) -> int {
        self.pos as int
    }

    /// The bytes that have not been read yet.
    pub open spec fn remaining(&self) -> Seq<u8> {
        self.data().skip(self.pos())
    }

    /// A cursor at the start of `data`.
    pub fn new(data: &'a [u8]) -> (r: Self)
        ensures
            r.data() == data@,
            r.pos() == 0,
    {
        ByteIter { data, pos: 0 }
    }

    /// Reads one byte, or returns `None` once every byte has been read.
    pub fn next(&mut self) -> (r: Option<u8>)
        ensures
            final(self).data() == old(self).data(),
            0 <= old(self).pos() <= final(self).pos() <= old(self).data().len(),
            old(self).pos() < old(self).data().len() ==> r == Some(
                old(self).data()[old(self).pos()],
            ) && final(self).pos() == old(self).pos() + 1,
            old(self).pos() >= old(self).data().len() ==> r is None && final(self).pos() == old(self).pos(),
    {
        proof {
            use_type_invariant(&*self);
        }
        if self.pos < self.data.len() {
            let c = self.data[self.pos];
            self.pos = self.pos + 1;
            Some(c)
        } else {
            None
        }
    }

    /// The number of bytes that have not been read yet.
    pub fn len(&self) -> (n: usize)
        ensures
            0 <= self.pos() <= self.data().len(),
            n == self.data().len() - self.pos(),
    {
        proof {
            use_type_invariant(self);
        }
        self.data.len() - self.pos
    }

    /// The number of bytes that have been read.
    pub fn position(&self) -> (n: usize)
        ensures
            0 <= self.pos() <= self.data().len(),
            n == self.pos(),
    {
        proof {
            use_type_invariant(self);
        }
        self.pos
    }

    /// The bytes that have not been read yet.
    pub fn as_slice(&self) -> (s: &'a [u8])
        ensures
            s@ == self.remaining(),
    {
        proof {
            use_type_invariant(self);
        }
        slice_subrange(self.data, self.pos, self.data.len())
    }

    /// The bytes of the slice from index `from` up to index `to`.
    pub fn slice(&self, from: usize, to: usize) -> (s: &'a [u8])
        requires
            from <= to <= self.data().len(),
        ensures
            s@ == self.data().subrange(from as int, to as int),
    {
        slice_subrange(self.data, from, to)
    }

    /// Moves the position forward by `n` bytes.
    pub fn advance(&mut self, n: usize)
        requires
            old(self).pos() + n <= old(self).data().len(),
        ensures
            final(self).data() == old(self).data(),
            final(self).pos() == old(self).pos() + n,
    {
        let len = self.data.len();
        assert(self.pos + n <= len);
        self.pos = self.pos + n;
    }
}

} // verus!

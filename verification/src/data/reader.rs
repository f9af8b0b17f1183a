//! Reading fixed-size records from a byte buffer, the way the game's data
//! files are read: record after record from a moving position.

use vstd::prelude::*;

verus! {

/// A byte buffer and a read position in it.
pub struct ByteReader {
    data: Vec<u8>,
    pos: usize,
}

impl ByteReader {
    /// The buffer.
    pub closed spec fn data_spec(&self) -> Seq<u8> {
        self.data@
    }

    /// The read position.
    pub closed spec fn pos_spec(&self) -> int {
        self.pos as int
    }

    /// The bytes not yet read.
    pub open spec fn rest(&self) -> Seq<u8> {
        self.data_spec().subrange(self.pos_spec(), self.data_spec().len() as int)
    }

    /// The position never passes the end.
    pub closed spec fn wf(&self) -> bool {
        self.pos <= self.data@.len()
    }

    /// A reader at the start of `data`.
    pub fn new(data: Vec<u8>) -> (r: Self)
        ensures
            r.wf(),
            r.data_spec() == data@,
            r.pos_spec() == 0,
            r.rest() == data@,
    {
        let r = ByteReader { data, pos: 0 };
        assert(r.rest() =~= r.data_spec());
        r
    }

    /// Number of bytes left.
    pub fn remaining(&self) -> (r: usize)
        requires
            self.wf(),
        ensures
            r == self.rest().len(),
    {
        self.data.len() - self.pos
    }

    /// The read position.
    pub fn position(&self) -> (r: usize)
        ensures
            r == self.pos_spec(),
    {
        self.pos
    }

    /// Read the next `n` bytes, or nothing, leaving the position, when fewer
    /// are left.
    pub fn read_exact(&mut self, n: usize) -> (r: Option<Vec<u8>>)
        requires
            old(self).wf(),
        ensures
            final(self).wf(),
            final(self).data_spec() == old(self).data_spec(),
            r is Some <==> n <= old(self).rest().len(),
            r matches Some(v) ==> v@ == old(self).rest().subrange(0, n as int)
                && final(self).pos_spec() == old(self).pos_spec() + n
                && final(self).rest() == old(self).rest().subrange(n as int, old(self).rest().len() as int),
            r is None ==> final(self).pos_spec() == old(self).pos_spec(),
    {
        if n > self.data.len() - self.pos {
            return None;
        }
        let mut v: Vec<u8> = Vec::new();
        let mut i: usize = 0;
        while i < n
            invariant
                self.wf(),
                i <= n,
                self.pos + n <= self.data@.len(),
                self.data@.len() == self.data.len(),
                self.data.len() <= usize::MAX,
                v@ == self.data@.subrange(self.pos as int, self.pos + i),
            decreases n - i,
        {
            v.push(self.data[self.pos + i]);
            i += 1;
            assert(v@ =~= self.data@.subrange(self.pos as int, self.pos + i));
        }
        self.pos = self.pos + n;
        assert(v@ =~= old(self).rest().subrange(0, n as int));
        assert(self.rest() =~= old(self).rest().subrange(n as int, old(self).rest().len() as int));
        Some(v)
    }
}

} // verus!

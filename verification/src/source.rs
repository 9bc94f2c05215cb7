//! A byte source that is read from front to back.

use vstd::prelude::*;

verus! {

/// The failure of a read: the source ended before the bytes asked for.
#[derive(Clone, Copy, Debug, PartialEq, Eq, Structural)]
pub struct UnexpectedEnd {
    /// The number of bytes that were asked for.
    pub wanted: usize,
    /// The number of bytes that were left.
    pub left: usize,
}

/// A run of bytes held in memory, with a reading position that only moves
/// forward.
pub struct ByteSource<'a> {
    bytes: &'a [u8],
    position: usize,
}

impl<'a> ByteSource<'a> {
    #[verifier::type_invariant]
    closed spec fn within(self) -> bool {
        self.position <= self.bytes@.len()
    }

    /// All the bytes of the source, read or not.
    pub closed spec fn all(self) -> Seq<u8> {
        self.bytes@
    }

    /// The number of bytes read so far.
    pub closed spec fn consumed(self) -> nat {
        self.position as nat
    }

    /// The bytes that are still to be read.
    pub open spec fn rest(self) -> Seq<u8> {
        self.all().skip(self.consumed() as int)
    }

    /// Whether `self` is what `before` becomes once `n` more bytes are read.
    pub open spec fn follows(self, before: ByteSource<'a>, n: nat) -> bool {
        &&& self.all() == before.all()
        &&& self.consumed() == before.consumed() + n
        &&& self.rest() == before.rest().skip(n as int)
    }

    /// A source over `bytes`, with nothing read yet.
    pub fn new(bytes: &'a [u8]) -> (s: ByteSource<'a>)
        ensures
            s.all() == bytes@,
            s.consumed() == 0,
            s.rest() == bytes@,
    {
        ByteSource { bytes, position: 0 }
    }

    /// The number of bytes read so far.
    pub fn position(&self) -> (p: usize)
        ensures
            p == self.consumed(),
            p <= self.all().len(),
    {
        proof {
            use_type_invariant(self);
        }
        self.position
    }

    /// The number of bytes that are still to be read.
    pub fn remaining(&self) -> (n: usize)
        ensures
            n == self.rest().len(),
            n + self.consumed() == self.all().len(),
    {
        proof {
            use_type_invariant(self);
        }
        self.bytes.len() - self.position
    }

    /// The bytes that are still to be read, without reading them.
    pub fn ahead(&self) -> (s: &'a [u8])
        ensures
            s@ == self.rest(),
    {
        proof {
            use_type_invariant(self);
        }
        let s: &'a [u8] = &self.bytes[self.position..self.bytes.len()];
        assert(s@ =~= self.rest());
        s
    }

    /// Moves on by `n` bytes without looking at them.
    pub fn skip(&mut self, n: usize)
        requires
            n <= old(self).rest().len(),
        ensures
            final(self).follows(*old(self), n as nat),
    {
        proof {
            use_type_invariant(&*self);
        }
        let total: usize = self.bytes.len();
        assert(self.position + n <= total);
        self.position = self.position + n;
        assert(self.rest() =~= old(self).rest().skip(n as int));
    }

    /// Reads the next `n` bytes. Where fewer than `n` bytes are left the
    /// read fails and the source stays as it was.
    pub fn take(&mut self, n: usize) -> (r: Result<&'a [u8], UnexpectedEnd>)
        ensures
            n <= old(self).rest().len() ==> (r matches Ok(s) && s@ == old(self).rest().take(
                n as int,
            ) && final(self).follows(*old(self), n as nat)),
            n > old(self).rest().len() ==> r == Err::<&[u8], UnexpectedEnd>(
                UnexpectedEnd { wanted: n, left: old(self).rest().len() as usize },
            ) && *final(self) == *old(self),
    {
        proof {
            use_type_invariant(&*self);
        }
        let left: usize = self.bytes.len() - self.position;
        if n > left {
            return Err(UnexpectedEnd { wanted: n, left });
        }
        let start: usize = self.position;
        let s: &'a [u8] = &self.bytes[start..start + n];
        self.position = start + n;
        assert(s@ =~= old(self).rest().take(n as int));
        assert(self.rest() =~= old(self).rest().skip(n as int));
        Ok(s)
    }
}

} // verus!

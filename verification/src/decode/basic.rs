//! Decoding of single numbers and tags from a byte source, in either byte
//! order.

use crate::endian::{i16_of, i32_of, i64_of, u16_of, u32_of, u64_of, Endianness};
use crate::source::{ByteSource, UnexpectedEnd};
use crate::tag::Tag;
use vstd::prelude::*;

verus! {

/// What a read of `n` bytes does to a source: with `n` bytes left it
/// succeeds and the source moves on by `n`; with fewer it fails, says how
/// many were wanted and left, and the source stays as it was.
pub open spec fn reads<'a, T>(
    before: ByteSource<'a>,
    after: ByteSource<'a>,
    n: nat,
    r: Result<T, UnexpectedEnd>,
) -> bool {
    if before.rest().len() >= n {
        r is Ok && after.follows(before, n)
    } else {
        r == Err::<T, UnexpectedEnd>(
            UnexpectedEnd { wanted: n as usize, left: before.rest().len() as usize },
        ) && after == before
    }
}

/// What a read of up to `count` numbers of `width` bytes each does to a
/// source: it takes as many whole numbers as are there, `count` at most.
/// Where they are fewer than `count` it fails as the read of the first
/// number that is not whole fails: `width` bytes were wanted, and left are
/// those that follow the numbers taken.
pub open spec fn reads_many<'a>(
    before: ByteSource<'a>,
    after: ByteSource<'a>,
    width: nat,
    count: nat,
    r: Result<(), UnexpectedEnd>,
) -> bool {
    let taken = whole_numbers(before.rest().len(), width, count);
    &&& after.follows(before, taken * width)
    &&& if taken == count {
        r is Ok
    } else {
        r == Err::<(), UnexpectedEnd>(
            UnexpectedEnd {
                wanted: width as usize,
                left: (before.rest().len() - taken * width) as usize,
            },
        )
    }
}

/// How many numbers of `width` bytes each a read of up to `count` of them
/// takes from `left` bytes.
pub open spec fn whole_numbers(left: nat, width: nat, count: nat) -> nat {
    if left / width >= count {
        count
    } else {
        left / width
    }
}

/// The tag that four bytes write: the group, then the element, each in the
/// given byte order.
pub open spec fn tag_of(order: Endianness, b: Seq<u8>) -> Tag
    recommends
        b.len() == 4,
{
    Tag(u16_of(order, b.subrange(0, 2)), u16_of(order, b.subrange(2, 4)))
}

/// What a read of a tag does to a source: with four bytes left it gives
/// the tag and the source moves on by four. With fewer it fails as the read
/// of the half that is not whole fails: where the group is there and the
/// element is not, the source has moved on by the group, and two bytes were
/// wanted of what follows it; where the group is not there, the source
/// stays as it was.
pub open spec fn reads_tag<'a>(
    order: Endianness,
    before: ByteSource<'a>,
    after: ByteSource<'a>,
    r: Result<Tag, UnexpectedEnd>,
) -> bool {
    let left = before.rest().len();
    if left >= 4 {
        r == Ok::<Tag, UnexpectedEnd>(tag_of(order, before.rest().take(4))) && after.follows(
            before,
            4,
        )
    } else if left >= 2 {
        r == Err::<Tag, UnexpectedEnd>(UnexpectedEnd { wanted: 2, left: (left - 2) as usize })
            && after.follows(before, 2)
    } else {
        r == Err::<Tag, UnexpectedEnd>(UnexpectedEnd { wanted: 2, left: left as usize }) && after
            == before
    }
}

/// The numbers that a bulk read of unsigned shorts leaves in a
/// buffer that held `before`: the first `taken` entries are read from
/// `bytes`, 2 bytes each, and the others stay.
pub open spec fn us_filled(order: Endianness, bytes: Seq<u8>, before: Seq<u16>, taken: nat) -> Seq<u16> {
    Seq::new(
        before.len(),
        |i: int|
            if i < taken {
                u16_of(order, bytes.subrange(2 * i, 2 * i + 2))
            } else {
                before[i]
            },
    )
}

/// The numbers that a bulk read of unsigned longs leaves in a
/// buffer that held `before`: the first `taken` entries are read from
/// `bytes`, 4 bytes each, and the others stay.
pub open spec fn ul_filled(order: Endianness, bytes: Seq<u8>, before: Seq<u32>, taken: nat) -> Seq<u32> {
    Seq::new(
        before.len(),
        |i: int|
            if i < taken {
                u32_of(order, bytes.subrange(4 * i, 4 * i + 4))
            } else {
                before[i]
            },
    )
}

/// The numbers that a bulk read of unsigned very longs leaves in a
/// buffer that held `before`: the first `taken` entries are read from
/// `bytes`, 8 bytes each, and the others stay.
pub open spec fn uv_filled(order: Endianness, bytes: Seq<u8>, before: Seq<u64>, taken: nat) -> Seq<u64> {
    Seq::new(
        before.len(),
        |i: int|
            if i < taken {
                u64_of(order, bytes.subrange(8 * i, 8 * i + 8))
            } else {
                before[i]
            },
    )
}

/// The numbers that a bulk read of signed shorts leaves in a
/// buffer that held `before`: the first `taken` entries are read from
/// `bytes`, 2 bytes each, and the others stay.
pub open spec fn ss_filled(order: Endianness, bytes: Seq<u8>, before: Seq<i16>, taken: nat) -> Seq<i16> {
    Seq::new(
        before.len(),
        |i: int|
            if i < taken {
                i16_of(order, bytes.subrange(2 * i, 2 * i + 2))
            } else {
                before[i]
            },
    )
}

/// The numbers that a bulk read of signed longs leaves in a
/// buffer that held `before`: the first `taken` entries are read from
/// `bytes`, 4 bytes each, and the others stay.
pub open spec fn sl_filled(order: Endianness, bytes: Seq<u8>, before: Seq<i32>, taken: nat) -> Seq<i32> {
    Seq::new(
        before.len(),
        |i: int|
            if i < taken {
                i32_of(order, bytes.subrange(4 * i, 4 * i + 4))
            } else {
                before[i]
            },
    )
}

/// The numbers that a bulk read of signed very longs leaves in a
/// buffer that held `before`: the first `taken` entries are read from
/// `bytes`, 8 bytes each, and the others stay.
pub open spec fn sv_filled(order: Endianness, bytes: Seq<u8>, before: Seq<i64>, taken: nat) -> Seq<i64> {
    Seq::new(
        before.len(),
        |i: int|
            if i < taken {
                i64_of(order, bytes.subrange(8 * i, 8 * i + 8))
            } else {
                before[i]
            },
    )
}

/// The numbers that a bulk read of single-precision floats, each as the 32 bits of its IEEE 754 form, leaves in a
/// buffer that held `before`: the first `taken` entries are read from
/// `bytes`, 4 bytes each, and the others stay.
pub open spec fn fl_filled(order: Endianness, bytes: Seq<u8>, before: Seq<u32>, taken: nat) -> Seq<u32> {
    Seq::new(
        before.len(),
        |i: int|
            if i < taken {
                u32_of(order, bytes.subrange(4 * i, 4 * i + 4))
            } else {
                before[i]
            },
    )
}

/// The numbers that a bulk read of double-precision floats, each as the 64 bits of its IEEE 754 form, leaves in a
/// buffer that held `before`: the first `taken` entries are read from
/// `bytes`, 8 bytes each, and the others stay.
pub open spec fn fd_filled(order: Endianness, bytes: Seq<u8>, before: Seq<u64>, taken: nat) -> Seq<u64> {
    Seq::new(
        before.len(),
        |i: int|
            if i < taken {
                u64_of(order, bytes.subrange(8 * i, 8 * i + 8))
            } else {
                before[i]
            },
    )
}

/// Reading of numbers and tags from a byte source in one byte order.
pub trait BasicDecode {
    /// The byte order that the decoder reads in.
    spec fn order(&self) -> Endianness;

    /// The byte order that the decoder reads in.
    fn endianness(&self) -> (e: Endianness)
        ensures
            e == self.order(),
    ;

    /// Reads an unsigned short from the source.
    fn decode_us(&self, source: &mut ByteSource) -> (r: Result<u16, UnexpectedEnd>)
        ensures
            reads(*old(source), *final(source), 2, r),
            r matches Ok(v) ==> v == u16_of(self.order(), old(source).rest().take(2)),
    ;

    /// Reads unsigned shorts from the source into `dst`, one after
    /// the other, until `dst` is full or the source has no whole number left.
    /// In the second case the read fails, and the entries of `dst` that were
    /// not reached stay as they were.
    fn decode_us_into(&self, source: &mut ByteSource, dst: &mut [u16]) -> (r: Result<
        (),
        UnexpectedEnd,
    >)
        ensures
            reads_many(*old(source), *final(source), 2, old(dst)@.len(), r),
            final(dst)@ == us_filled(
                self.order(),
                old(source).rest(),
                old(dst)@,
                whole_numbers(old(source).rest().len(), 2, old(dst)@.len()),
            ),
    {
        let n: usize = dst.len();
        let mut i: usize = 0;
        let ghost rest = source.rest();
        assert(rest =~= rest.skip(0));
        while i < n
            invariant
                i <= n,
                n == dst@.len(),
                n == old(dst)@.len(),
                rest == old(source).rest(),
                source.follows(*old(source), (i * 2) as nat),
                i * 2 <= rest.len(),
                dst@ == us_filled(self.order(), rest, old(dst)@, i as nat),
            decreases n - i,
        {
            let ghost at = *source;
            match self.decode_us(source) {
                Ok(v) => {
                    assert(at.rest().take(2) =~= rest.subrange(2 * i, 2 * i + 2));
                    dst[i] = v;
                    assert(dst@ =~= us_filled(self.order(), rest, old(dst)@, (i + 1) as nat));
                    assert(source.rest() =~= rest.skip((i + 1) * 2));
                },
                Err(e) => {
                    assert(rest.len() - i * 2 < 2);
                    assert(rest.len() / 2 == i);
                    return Err(e);
                },
            }
            i = i + 1;
        }
        assert(rest.len() / 2 >= n);
        Ok(())
    }

    /// Reads an unsigned long from the source.
    fn decode_ul(&self, source: &mut ByteSource) -> (r: Result<u32, UnexpectedEnd>)
        ensures
            reads(*old(source), *final(source), 4, r),
            r matches Ok(v) ==> v == u32_of(self.order(), old(source).rest().take(4)),
    ;

    /// Reads unsigned longs from the source into `dst`, one after
    /// the other, until `dst` is full or the source has no whole number left.
    /// In the second case the read fails, and the entries of `dst` that were
    /// not reached stay as they were.
    fn decode_ul_into(&self, source: &mut ByteSource, dst: &mut [u32]) -> (r: Result<
        (),
        UnexpectedEnd,
    >)
        ensures
            reads_many(*old(source), *final(source), 4, old(dst)@.len(), r),
            final(dst)@ == ul_filled(
                self.order(),
                old(source).rest(),
                old(dst)@,
                whole_numbers(old(source).rest().len(), 4, old(dst)@.len()),
            ),
    {
        let n: usize = dst.len();
        let mut i: usize = 0;
        let ghost rest = source.rest();
        assert(rest =~= rest.skip(0));
        while i < n
            invariant
                i <= n,
                n == dst@.len(),
                n == old(dst)@.len(),
                rest == old(source).rest(),
                source.follows(*old(source), (i * 4) as nat),
                i * 4 <= rest.len(),
                dst@ == ul_filled(self.order(), rest, old(dst)@, i as nat),
            decreases n - i,
        {
            let ghost at = *source;
            match self.decode_ul(source) {
                Ok(v) => {
                    assert(at.rest().take(4) =~= rest.subrange(4 * i, 4 * i + 4));
                    dst[i] = v;
                    assert(dst@ =~= ul_filled(self.order(), rest, old(dst)@, (i + 1) as nat));
                    assert(source.rest() =~= rest.skip((i + 1) * 4));
                },
                Err(e) => {
                    assert(rest.len() - i * 4 < 4);
                    assert(rest.len() / 4 == i);
                    return Err(e);
                },
            }
            i = i + 1;
        }
        assert(rest.len() / 4 >= n);
        Ok(())
    }

    /// Reads an unsigned very long from the source.
    fn decode_uv(&self, source: &mut ByteSource) -> (r: Result<u64, UnexpectedEnd>)
        ensures
            reads(*old(source), *final(source), 8, r),
            r matches Ok(v) ==> v == u64_of(self.order(), old(source).rest().take(8)),
    ;

    /// Reads unsigned very longs from the source into `dst`, one after
    /// the other, until `dst` is full or the source has no whole number left.
    /// In the second case the read fails, and the entries of `dst` that were
    /// not reached stay as they were.
    fn decode_uv_into(&self, source: &mut ByteSource, dst: &mut [u64]) -> (r: Result<
        (),
        UnexpectedEnd,
    >)
        ensures
            reads_many(*old(source), *final(source), 8, old(dst)@.len(), r),
            final(dst)@ == uv_filled(
                self.order(),
                old(source).rest(),
                old(dst)@,
                whole_numbers(old(source).rest().len(), 8, old(dst)@.len()),
            ),
    {
        let n: usize = dst.len();
        let mut i: usize = 0;
        let ghost rest = source.rest();
        assert(rest =~= rest.skip(0));
        while i < n
            invariant
                i <= n,
                n == dst@.len(),
                n == old(dst)@.len(),
                rest == old(source).rest(),
                source.follows(*old(source), (i * 8) as nat),
                i * 8 <= rest.len(),
                dst@ == uv_filled(self.order(), rest, old(dst)@, i as nat),
            decreases n - i,
        {
            let ghost at = *source;
            match self.decode_uv(source) {
                Ok(v) => {
                    assert(at.rest().take(8) =~= rest.subrange(8 * i, 8 * i + 8));
                    dst[i] = v;
                    assert(dst@ =~= uv_filled(self.order(), rest, old(dst)@, (i + 1) as nat));
                    assert(source.rest() =~= rest.skip((i + 1) * 8));
                },
                Err(e) => {
                    assert(rest.len() - i * 8 < 8);
                    assert(rest.len() / 8 == i);
                    return Err(e);
                },
            }
            i = i + 1;
        }
        assert(rest.len() / 8 >= n);
        Ok(())
    }

    /// Reads a signed short from the source.
    fn decode_ss(&self, source: &mut ByteSource) -> (r: Result<i16, UnexpectedEnd>)
        ensures
            reads(*old(source), *final(source), 2, r),
            r matches Ok(v) ==> v == i16_of(self.order(), old(source).rest().take(2)),
    ;

    /// Reads signed shorts from the source into `dst`, one after
    /// the other, until `dst` is full or the source has no whole number left.
    /// In the second case the read fails, and the entries of `dst` that were
    /// not reached stay as they were.
    fn decode_ss_into(&self, source: &mut ByteSource, dst: &mut [i16]) -> (r: Result<
        (),
        UnexpectedEnd,
    >)
        ensures
            reads_many(*old(source), *final(source), 2, old(dst)@.len(), r),
            final(dst)@ == ss_filled(
                self.order(),
                old(source).rest(),
                old(dst)@,
                whole_numbers(old(source).rest().len(), 2, old(dst)@.len()),
            ),
    {
        let n: usize = dst.len();
        let mut i: usize = 0;
        let ghost rest = source.rest();
        assert(rest =~= rest.skip(0));
        while i < n
            invariant
                i <= n,
                n == dst@.len(),
                n == old(dst)@.len(),
                rest == old(source).rest(),
                source.follows(*old(source), (i * 2) as nat),
                i * 2 <= rest.len(),
                dst@ == ss_filled(self.order(), rest, old(dst)@, i as nat),
            decreases n - i,
        {
            let ghost at = *source;
            match self.decode_ss(source) {
                Ok(v) => {
                    assert(at.rest().take(2) =~= rest.subrange(2 * i, 2 * i + 2));
                    dst[i] = v;
                    assert(dst@ =~= ss_filled(self.order(), rest, old(dst)@, (i + 1) as nat));
                    assert(source.rest() =~= rest.skip((i + 1) * 2));
                },
                Err(e) => {
                    assert(rest.len() - i * 2 < 2);
                    assert(rest.len() / 2 == i);
                    return Err(e);
                },
            }
            i = i + 1;
        }
        assert(rest.len() / 2 >= n);
        Ok(())
    }

    /// Reads a signed long from the source.
    fn decode_sl(&self, source: &mut ByteSource) -> (r: Result<i32, UnexpectedEnd>)
        ensures
            reads(*old(source), *final(source), 4, r),
            r matches Ok(v) ==> v == i32_of(self.order(), old(source).rest().take(4)),
    ;

    /// Reads signed longs from the source into `dst`, one after
    /// the other, until `dst` is full or the source has no whole number left.
    /// In the second case the read fails, and the entries of `dst` that were
    /// not reached stay as they were.
    fn decode_sl_into(&self, source: &mut ByteSource, dst: &mut [i32]) -> (r: Result<
        (),
        UnexpectedEnd,
    >)
        ensures
            reads_many(*old(source), *final(source), 4, old(dst)@.len(), r),
            final(dst)@ == sl_filled(
                self.order(),
                old(source).rest(),
                old(dst)@,
                whole_numbers(old(source).rest().len(), 4, old(dst)@.len()),
            ),
    {
        let n: usize = dst.len();
        let mut i: usize = 0;
        let ghost rest = source.rest();
        assert(rest =~= rest.skip(0));
        while i < n
            invariant
                i <= n,
                n == dst@.len(),
                n == old(dst)@.len(),
                rest == old(source).rest(),
                source.follows(*old(source), (i * 4) as nat),
                i * 4 <= rest.len(),
                dst@ == sl_filled(self.order(), rest, old(dst)@, i as nat),
            decreases n - i,
        {
            let ghost at = *source;
            match self.decode_sl(source) {
                Ok(v) => {
                    assert(at.rest().take(4) =~= rest.subrange(4 * i, 4 * i + 4));
                    dst[i] = v;
                    assert(dst@ =~= sl_filled(self.order(), rest, old(dst)@, (i + 1) as nat));
                    assert(source.rest() =~= rest.skip((i + 1) * 4));
                },
                Err(e) => {
                    assert(rest.len() - i * 4 < 4);
                    assert(rest.len() / 4 == i);
                    return Err(e);
                },
            }
            i = i + 1;
        }
        assert(rest.len() / 4 >= n);
        Ok(())
    }

    /// Reads a signed very long from the source.
    fn decode_sv(&self, source: &mut ByteSource) -> (r: Result<i64, UnexpectedEnd>)
        ensures
            reads(*old(source), *final(source), 8, r),
            r matches Ok(v) ==> v == i64_of(self.order(), old(source).rest().take(8)),
    ;

    /// Reads signed very longs from the source into `dst`, one after
    /// the other, until `dst` is full or the source has no whole number left.
    /// In the second case the read fails, and the entries of `dst` that were
    /// not reached stay as they were.
    fn decode_sv_into(&self, source: &mut ByteSource, dst: &mut [i64]) -> (r: Result<
        (),
        UnexpectedEnd,
    >)
        ensures
            reads_many(*old(source), *final(source), 8, old(dst)@.len(), r),
            final(dst)@ == sv_filled(
                self.order(),
                old(source).rest(),
                old(dst)@,
                whole_numbers(old(source).rest().len(), 8, old(dst)@.len()),
            ),
    {
        let n: usize = dst.len();
        let mut i: usize = 0;
        let ghost rest = source.rest();
        assert(rest =~= rest.skip(0));
        while i < n
            invariant
                i <= n,
                n == dst@.len(),
                n == old(dst)@.len(),
                rest == old(source).rest(),
                source.follows(*old(source), (i * 8) as nat),
                i * 8 <= rest.len(),
                dst@ == sv_filled(self.order(), rest, old(dst)@, i as nat),
            decreases n - i,
        {
            let ghost at = *source;
            match self.decode_sv(source) {
                Ok(v) => {
                    assert(at.rest().take(8) =~= rest.subrange(8 * i, 8 * i + 8));
                    dst[i] = v;
                    assert(dst@ =~= sv_filled(self.order(), rest, old(dst)@, (i + 1) as nat));
                    assert(source.rest() =~= rest.skip((i + 1) * 8));
                },
                Err(e) => {
                    assert(rest.len() - i * 8 < 8);
                    assert(rest.len() / 8 == i);
                    return Err(e);
                },
            }
            i = i + 1;
        }
        assert(rest.len() / 8 >= n);
        Ok(())
    }

    /// Reads a single-precision float, as the 32 bits of its IEEE 754 form, from the source.
    fn decode_fl(&self, source: &mut ByteSource) -> (r: Result<u32, UnexpectedEnd>)
        ensures
            reads(*old(source), *final(source), 4, r),
            r matches Ok(v) ==> v == u32_of(self.order(), old(source).rest().take(4)),
    ;

    /// Reads single-precision floats, each as the 32 bits of its IEEE 754 form, from the source into `dst`, one after
    /// the other, until `dst` is full or the source has no whole number left.
    /// In the second case the read fails, and the entries of `dst` that were
    /// not reached stay as they were.
    fn decode_fl_into(&self, source: &mut ByteSource, dst: &mut [u32]) -> (r: Result<
        (),
        UnexpectedEnd,
    >)
        ensures
            reads_many(*old(source), *final(source), 4, old(dst)@.len(), r),
            final(dst)@ == fl_filled(
                self.order(),
                old(source).rest(),
                old(dst)@,
                whole_numbers(old(source).rest().len(), 4, old(dst)@.len()),
            ),
    {
        let n: usize = dst.len();
        let mut i: usize = 0;
        let ghost rest = source.rest();
        assert(rest =~= rest.skip(0));
        while i < n
            invariant
                i <= n,
                n == dst@.len(),
                n == old(dst)@.len(),
                rest == old(source).rest(),
                source.follows(*old(source), (i * 4) as nat),
                i * 4 <= rest.len(),
                dst@ == fl_filled(self.order(), rest, old(dst)@, i as nat),
            decreases n - i,
        {
            let ghost at = *source;
            match self.decode_fl(source) {
                Ok(v) => {
                    assert(at.rest().take(4) =~= rest.subrange(4 * i, 4 * i + 4));
                    dst[i] = v;
                    assert(dst@ =~= fl_filled(self.order(), rest, old(dst)@, (i + 1) as nat));
                    assert(source.rest() =~= rest.skip((i + 1) * 4));
                },
                Err(e) => {
                    assert(rest.len() - i * 4 < 4);
                    assert(rest.len() / 4 == i);
                    return Err(e);
                },
            }
            i = i + 1;
        }
        assert(rest.len() / 4 >= n);
        Ok(())
    }

    /// Reads a double-precision float, as the 64 bits of its IEEE 754 form, from the source.
    fn decode_fd(&self, source: &mut ByteSource) -> (r: Result<u64, UnexpectedEnd>)
        ensures
            reads(*old(source), *final(source), 8, r),
            r matches Ok(v) ==> v == u64_of(self.order(), old(source).rest().take(8)),
    ;

    /// Reads double-precision floats, each as the 64 bits of its IEEE 754 form, from the source into `dst`, one after
    /// the other, until `dst` is full or the source has no whole number left.
    /// In the second case the read fails, and the entries of `dst` that were
    /// not reached stay as they were.
    fn decode_fd_into(&self, source: &mut ByteSource, dst: &mut [u64]) -> (r: Result<
        (),
        UnexpectedEnd,
    >)
        ensures
            reads_many(*old(source), *final(source), 8, old(dst)@.len(), r),
            final(dst)@ == fd_filled(
                self.order(),
                old(source).rest(),
                old(dst)@,
                whole_numbers(old(source).rest().len(), 8, old(dst)@.len()),
            ),
    {
        let n: usize = dst.len();
        let mut i: usize = 0;
        let ghost rest = source.rest();
        assert(rest =~= rest.skip(0));
        while i < n
            invariant
                i <= n,
                n == dst@.len(),
                n == old(dst)@.len(),
                rest == old(source).rest(),
                source.follows(*old(source), (i * 8) as nat),
                i * 8 <= rest.len(),
                dst@ == fd_filled(self.order(), rest, old(dst)@, i as nat),
            decreases n - i,
        {
            let ghost at = *source;
            match self.decode_fd(source) {
                Ok(v) => {
                    assert(at.rest().take(8) =~= rest.subrange(8 * i, 8 * i + 8));
                    dst[i] = v;
                    assert(dst@ =~= fd_filled(self.order(), rest, old(dst)@, (i + 1) as nat));
                    assert(source.rest() =~= rest.skip((i + 1) * 8));
                },
                Err(e) => {
                    assert(rest.len() - i * 8 < 8);
                    assert(rest.len() / 8 == i);
                    return Err(e);
                },
            }
            i = i + 1;
        }
        assert(rest.len() / 8 >= n);
        Ok(())
    }

    /// Reads a tag from the source: the group, then the element.
    fn decode_tag(&self, source: &mut ByteSource) -> (r: Result<Tag, UnexpectedEnd>)
        ensures
            reads_tag(self.order(), *old(source), *final(source), r),
    {
        let ghost rest = source.rest();
        let g: u16 = self.decode_us(source)?;
        let e: u16 = self.decode_us(source)?;
        assert(rest.take(2) =~= rest.take(4).subrange(0, 2));
        assert(rest.skip(2).take(2) =~= rest.take(4).subrange(2, 4));
        assert(source.rest() =~= rest.skip(4));
        Ok(Tag(g, e))
    }
}

/// A decoder of numbers in Little Endian.
#[derive(Clone, Copy, Debug, Default, PartialEq, Eq, Structural)]
pub struct LittleEndianBasicDecoder;

/// A decoder of numbers in Big Endian.
#[derive(Clone, Copy, Debug, Default, PartialEq, Eq, Structural)]
pub struct BigEndianBasicDecoder;

/// A decoder of numbers in a byte order that is chosen when the program
/// runs.
#[derive(Clone, Copy, Debug, PartialEq, Eq, Structural)]
pub enum BasicDecoder {
    /// Reads in Little Endian.
    LE(LittleEndianBasicDecoder),
    /// Reads in Big Endian.
    BE(BigEndianBasicDecoder),
}

impl BasicDecoder {
    /// The decoder that reads in the given byte order.
    pub fn new(order: Endianness) -> (d: BasicDecoder)
        ensures
            d.order() == order,
    {
        match order {
            Endianness::Little => BasicDecoder::LE(LittleEndianBasicDecoder),
            Endianness::Big => BasicDecoder::BE(BigEndianBasicDecoder),
        }
    }
}

impl BasicDecode for LittleEndianBasicDecoder {
    open spec fn order(&self) -> Endianness {
        Endianness::Little
    }

    fn endianness(&self) -> (e: Endianness) {
        Endianness::Little
    }

    fn decode_us(&self, source: &mut ByteSource) -> (r: Result<u16, UnexpectedEnd>) {
        match source.take(2) {
            Ok(b) => Ok(self.endianness().read_u16(b)),
            Err(e) => Err(e),
        }
    }

    fn decode_ul(&self, source: &mut ByteSource) -> (r: Result<u32, UnexpectedEnd>) {
        match source.take(4) {
            Ok(b) => Ok(self.endianness().read_u32(b)),
            Err(e) => Err(e),
        }
    }

    fn decode_uv(&self, source: &mut ByteSource) -> (r: Result<u64, UnexpectedEnd>) {
        match source.take(8) {
            Ok(b) => Ok(self.endianness().read_u64(b)),
            Err(e) => Err(e),
        }
    }

    fn decode_ss(&self, source: &mut ByteSource) -> (r: Result<i16, UnexpectedEnd>) {
        match source.take(2) {
            Ok(b) => Ok(self.endianness().read_i16(b)),
            Err(e) => Err(e),
        }
    }

    fn decode_sl(&self, source: &mut ByteSource) -> (r: Result<i32, UnexpectedEnd>) {
        match source.take(4) {
            Ok(b) => Ok(self.endianness().read_i32(b)),
            Err(e) => Err(e),
        }
    }

    fn decode_sv(&self, source: &mut ByteSource) -> (r: Result<i64, UnexpectedEnd>) {
        match source.take(8) {
            Ok(b) => Ok(self.endianness().read_i64(b)),
            Err(e) => Err(e),
        }
    }

    fn decode_fl(&self, source: &mut ByteSource) -> (r: Result<u32, UnexpectedEnd>) {
        match source.take(4) {
            Ok(b) => Ok(self.endianness().read_u32(b)),
            Err(e) => Err(e),
        }
    }

    fn decode_fd(&self, source: &mut ByteSource) -> (r: Result<u64, UnexpectedEnd>) {
        match source.take(8) {
            Ok(b) => Ok(self.endianness().read_u64(b)),
            Err(e) => Err(e),
        }
    }
}

impl BasicDecode for BigEndianBasicDecoder {
    open spec fn order(&self) -> Endianness {
        Endianness::Big
    }

    fn endianness(&self) -> (e: Endianness) {
        Endianness::Big
    }

    fn decode_us(&self, source: &mut ByteSource) -> (r: Result<u16, UnexpectedEnd>) {
        match source.take(2) {
            Ok(b) => Ok(self.endianness().read_u16(b)),
            Err(e) => Err(e),
        }
    }

    fn decode_ul(&self, source: &mut ByteSource) -> (r: Result<u32, UnexpectedEnd>) {
        match source.take(4) {
            Ok(b) => Ok(self.endianness().read_u32(b)),
            Err(e) => Err(e),
        }
    }

    fn decode_uv(&self, source: &mut ByteSource) -> (r: Result<u64, UnexpectedEnd>) {
        match source.take(8) {
            Ok(b) => Ok(self.endianness().read_u64(b)),
            Err(e) => Err(e),
        }
    }

    fn decode_ss(&self, source: &mut ByteSource) -> (r: Result<i16, UnexpectedEnd>) {
        match source.take(2) {
            Ok(b) => Ok(self.endianness().read_i16(b)),
            Err(e) => Err(e),
        }
    }

    fn decode_sl(&self, source: &mut ByteSource) -> (r: Result<i32, UnexpectedEnd>) {
        match source.take(4) {
            Ok(b) => Ok(self.endianness().read_i32(b)),
            Err(e) => Err(e),
        }
    }

    fn decode_sv(&self, source: &mut ByteSource) -> (r: Result<i64, UnexpectedEnd>) {
        match source.take(8) {
            Ok(b) => Ok(self.endianness().read_i64(b)),
            Err(e) => Err(e),
        }
    }

    fn decode_fl(&self, source: &mut ByteSource) -> (r: Result<u32, UnexpectedEnd>) {
        match source.take(4) {
            Ok(b) => Ok(self.endianness().read_u32(b)),
            Err(e) => Err(e),
        }
    }

    fn decode_fd(&self, source: &mut ByteSource) -> (r: Result<u64, UnexpectedEnd>) {
        match source.take(8) {
            Ok(b) => Ok(self.endianness().read_u64(b)),
            Err(e) => Err(e),
        }
    }
}

impl BasicDecode for BasicDecoder {
    open spec fn order(&self) -> Endianness {
        match self {
            BasicDecoder::LE(_) => Endianness::Little,
            BasicDecoder::BE(_) => Endianness::Big,
        }
    }

    fn endianness(&self) -> (e: Endianness) {
        match self {
            BasicDecoder::LE(_) => Endianness::Little,
            BasicDecoder::BE(_) => Endianness::Big,
        }
    }

    fn decode_us(&self, source: &mut ByteSource) -> (r: Result<u16, UnexpectedEnd>) {
        match source.take(2) {
            Ok(b) => Ok(self.endianness().read_u16(b)),
            Err(e) => Err(e),
        }
    }

    fn decode_ul(&self, source: &mut ByteSource) -> (r: Result<u32, UnexpectedEnd>) {
        match source.take(4) {
            Ok(b) => Ok(self.endianness().read_u32(b)),
            Err(e) => Err(e),
        }
    }

    fn decode_uv(&self, source: &mut ByteSource) -> (r: Result<u64, UnexpectedEnd>) {
        match source.take(8) {
            Ok(b) => Ok(self.endianness().read_u64(b)),
            Err(e) => Err(e),
        }
    }

    fn decode_ss(&self, source: &mut ByteSource) -> (r: Result<i16, UnexpectedEnd>) {
        match source.take(2) {
            Ok(b) => Ok(self.endianness().read_i16(b)),
            Err(e) => Err(e),
        }
    }

    fn decode_sl(&self, source: &mut ByteSource) -> (r: Result<i32, UnexpectedEnd>) {
        match source.take(4) {
            Ok(b) => Ok(self.endianness().read_i32(b)),
            Err(e) => Err(e),
        }
    }

    fn decode_sv(&self, source: &mut ByteSource) -> (r: Result<i64, UnexpectedEnd>) {
        match source.take(8) {
            Ok(b) => Ok(self.endianness().read_i64(b)),
            Err(e) => Err(e),
        }
    }

    fn decode_fl(&self, source: &mut ByteSource) -> (r: Result<u32, UnexpectedEnd>) {
        match source.take(4) {
            Ok(b) => Ok(self.endianness().read_u32(b)),
            Err(e) => Err(e),
        }
    }

    fn decode_fd(&self, source: &mut ByteSource) -> (r: Result<u64, UnexpectedEnd>) {
        match source.take(8) {
            Ok(b) => Ok(self.endianness().read_u64(b)),
            Err(e) => Err(e),
        }
    }
}

/// A boxed decoder reads as the decoder in the box does.
impl<T: BasicDecode> BasicDecode for Box<T> {
    open spec fn order(&self) -> Endianness {
        (**self).order()
    }

    fn endianness(&self) -> (e: Endianness) {
        (**self).endianness()
    }

    fn decode_us(&self, source: &mut ByteSource) -> (r: Result<u16, UnexpectedEnd>) {
        (**self).decode_us(source)
    }

    fn decode_us_into(&self, source: &mut ByteSource, dst: &mut [u16]) -> (r: Result<
        (),
        UnexpectedEnd,
    >) {
        (**self).decode_us_into(source, dst)
    }

    fn decode_ul(&self, source: &mut ByteSource) -> (r: Result<u32, UnexpectedEnd>) {
        (**self).decode_ul(source)
    }

    fn decode_ul_into(&self, source: &mut ByteSource, dst: &mut [u32]) -> (r: Result<
        (),
        UnexpectedEnd,
    >) {
        (**self).decode_ul_into(source, dst)
    }

    fn decode_uv(&self, source: &mut ByteSource) -> (r: Result<u64, UnexpectedEnd>) {
        (**self).decode_uv(source)
    }

    fn decode_uv_into(&self, source: &mut ByteSource, dst: &mut [u64]) -> (r: Result<
        (),
        UnexpectedEnd,
    >) {
        (**self).decode_uv_into(source, dst)
    }

    fn decode_ss(&self, source: &mut ByteSource) -> (r: Result<i16, UnexpectedEnd>) {
        (**self).decode_ss(source)
    }

    fn decode_ss_into(&self, source: &mut ByteSource, dst: &mut [i16]) -> (r: Result<
        (),
        UnexpectedEnd,
    >) {
        (**self).decode_ss_into(source, dst)
    }

    fn decode_sl(&self, source: &mut ByteSource) -> (r: Result<i32, UnexpectedEnd>) {
        (**self).decode_sl(source)
    }

    fn decode_sl_into(&self, source: &mut ByteSource, dst: &mut [i32]) -> (r: Result<
        (),
        UnexpectedEnd,
    >) {
        (**self).decode_sl_into(source, dst)
    }

    fn decode_sv(&self, source: &mut ByteSource) -> (r: Result<i64, UnexpectedEnd>) {
        (**self).decode_sv(source)
    }

    fn decode_sv_into(&self, source: &mut ByteSource, dst: &mut [i64]) -> (r: Result<
        (),
        UnexpectedEnd,
    >) {
        (**self).decode_sv_into(source, dst)
    }

    fn decode_fl(&self, source: &mut ByteSource) -> (r: Result<u32, UnexpectedEnd>) {
        (**self).decode_fl(source)
    }

    fn decode_fl_into(&self, source: &mut ByteSource, dst: &mut [u32]) -> (r: Result<
        (),
        UnexpectedEnd,
    >) {
        (**self).decode_fl_into(source, dst)
    }

    fn decode_fd(&self, source: &mut ByteSource) -> (r: Result<u64, UnexpectedEnd>) {
        (**self).decode_fd(source)
    }

    fn decode_fd_into(&self, source: &mut ByteSource, dst: &mut [u64]) -> (r: Result<
        (),
        UnexpectedEnd,
    >) {
        (**self).decode_fd_into(source, dst)
    }

    fn decode_tag(&self, source: &mut ByteSource) -> (r: Result<Tag, UnexpectedEnd>) {
        (**self).decode_tag(source)
    }
}

/// A borrowed decoder reads as the decoder itself does.
impl<'a, T: BasicDecode> BasicDecode for &'a T {
    open spec fn order(&self) -> Endianness {
        (**self).order()
    }

    fn endianness(&self) -> (e: Endianness) {
        (**self).endianness()
    }

    fn decode_us(&self, source: &mut ByteSource) -> (r: Result<u16, UnexpectedEnd>) {
        (**self).decode_us(source)
    }

    fn decode_us_into(&self, source: &mut ByteSource, dst: &mut [u16]) -> (r: Result<
        (),
        UnexpectedEnd,
    >) {
        (**self).decode_us_into(source, dst)
    }

    fn decode_ul(&self, source: &mut ByteSource) -> (r: Result<u32, UnexpectedEnd>) {
        (**self).decode_ul(source)
    }

    fn decode_ul_into(&self, source: &mut ByteSource, dst: &mut [u32]) -> (r: Result<
        (),
        UnexpectedEnd,
    >) {
        (**self).decode_ul_into(source, dst)
    }

    fn decode_uv(&self, source: &mut ByteSource) -> (r: Result<u64, UnexpectedEnd>) {
        (**self).decode_uv(source)
    }

    fn decode_uv_into(&self, source: &mut ByteSource, dst: &mut [u64]) -> (r: Result<
        (),
        UnexpectedEnd,
    >) {
        (**self).decode_uv_into(source, dst)
    }

    fn decode_ss(&self, source: &mut ByteSource) -> (r: Result<i16, UnexpectedEnd>) {
        (**self).decode_ss(source)
    }

    fn decode_ss_into(&self, source: &mut ByteSource, dst: &mut [i16]) -> (r: Result<
        (),
        UnexpectedEnd,
    >) {
        (**self).decode_ss_into(source, dst)
    }

    fn decode_sl(&self, source: &mut ByteSource) -> (r: Result<i32, UnexpectedEnd>) {
        (**self).decode_sl(source)
    }

    fn decode_sl_into(&self, source: &mut ByteSource, dst: &mut [i32]) -> (r: Result<
        (),
        UnexpectedEnd,
    >) {
        (**self).decode_sl_into(source, dst)
    }

    fn decode_sv(&self, source: &mut ByteSource) -> (r: Result<i64, UnexpectedEnd>) {
        (**self).decode_sv(source)
    }

    fn decode_sv_into(&self, source: &mut ByteSource, dst: &mut [i64]) -> (r: Result<
        (),
        UnexpectedEnd,
    >) {
        (**self).decode_sv_into(source, dst)
    }

    fn decode_fl(&self, source: &mut ByteSource) -> (r: Result<u32, UnexpectedEnd>) {
        (**self).decode_fl(source)
    }

    fn decode_fl_into(&self, source: &mut ByteSource, dst: &mut [u32]) -> (r: Result<
        (),
        UnexpectedEnd,
    >) {
        (**self).decode_fl_into(source, dst)
    }

    fn decode_fd(&self, source: &mut ByteSource) -> (r: Result<u64, UnexpectedEnd>) {
        (**self).decode_fd(source)
    }

    fn decode_fd_into(&self, source: &mut ByteSource, dst: &mut [u64]) -> (r: Result<
        (),
        UnexpectedEnd,
    >) {
        (**self).decode_fd_into(source, dst)
    }

    fn decode_tag(&self, source: &mut ByteSource) -> (r: Result<Tag, UnexpectedEnd>) {
        (**self).decode_tag(source)
    }
}

} // verus!

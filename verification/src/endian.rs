//! Byte order, and the reading and writing of integers in either order.

use vstd::prelude::*;

verus! {

/// The order in which the bytes of a number are written.
#[derive(Clone, Copy, Debug, PartialEq, Eq, Structural, Hash)]
pub enum Endianness {
    /// The byte that weighs least comes first.
    Little,
    /// The byte that weighs most comes first.
    Big,
}

/// The bytes of `b` with the one that weighs least first.
pub open spec fn in_order(order: Endianness, b: Seq<u8>) -> Seq<u8> {
    match order {
        Endianness::Little => b,
        Endianness::Big => b.reverse(),
    }
}

/// The unsigned 16-bit number that the 2 bytes `b` write in the given
/// order.
pub open spec fn u16_of(order: Endianness, b: Seq<u8>) -> u16
    recommends
        b.len() == 2,
{
    match order {
        Endianness::Little => (b[0] as int + b[1] as int * 256) as u16,
        Endianness::Big => (b[1] as int + b[0] as int * 256) as u16,
    }
}

/// The 2 bytes that write the unsigned 16-bit number `v` in the given
/// order.
pub open spec fn u16_bytes(order: Endianness, v: u16) -> Seq<u8> {
    match order {
        Endianness::Little => seq![((v as int / 1) % 256) as u8, ((v as int / 256) % 256) as u8],
        Endianness::Big => seq![((v as int / 256) % 256) as u8, ((v as int / 1) % 256) as u8],
    }
}

/// The signed number with the same 16 bits as `u`, in two's complement.
pub open spec fn signed16(u: u16) -> i16 {
    if (u as int) < 32768 {
        u as int as i16
    } else {
        (u as int - 65536) as i16
    }
}

/// The unsigned number with the same 16 bits as `i`, in two's
/// complement.
pub open spec fn unsigned16(i: i16) -> u16 {
    if i >= 0 {
        i as int as u16
    } else {
        (i as int + 65536) as u16
    }
}

/// The signed 16-bit number that the 2 bytes `b` write in the given
/// order.
pub open spec fn i16_of(order: Endianness, b: Seq<u8>) -> i16
    recommends
        b.len() == 2,
{
    signed16(u16_of(order, b))
}

/// The 2 bytes that write the signed 16-bit number `v` in the given
/// order.
pub open spec fn i16_bytes(order: Endianness, v: i16) -> Seq<u8> {
    u16_bytes(order, unsigned16(v))
}

/// The unsigned 32-bit number that the 4 bytes `b` write in the given
/// order.
pub open spec fn u32_of(order: Endianness, b: Seq<u8>) -> u32
    recommends
        b.len() == 4,
{
    match order {
        Endianness::Little => (b[0] as int + b[1] as int * 256 + b[2] as int * 65536 + b[3] as int * 16777216) as u32,
        Endianness::Big => (b[3] as int + b[2] as int * 256 + b[1] as int * 65536 + b[0] as int * 16777216) as u32,
    }
}

/// The 4 bytes that write the unsigned 32-bit number `v` in the given
/// order.
pub open spec fn u32_bytes(order: Endianness, v: u32) -> Seq<u8> {
    match order {
        Endianness::Little => seq![((v as int / 1) % 256) as u8, ((v as int / 256) % 256) as u8, ((v as int / 65536) % 256) as u8, ((v as int / 16777216) % 256) as u8],
        Endianness::Big => seq![((v as int / 16777216) % 256) as u8, ((v as int / 65536) % 256) as u8, ((v as int / 256) % 256) as u8, ((v as int / 1) % 256) as u8],
    }
}

/// The signed number with the same 32 bits as `u`, in two's complement.
pub open spec fn signed32(u: u32) -> i32 {
    if (u as int) < 2147483648 {
        u as int as i32
    } else {
        (u as int - 4294967296) as i32
    }
}

/// The unsigned number with the same 32 bits as `i`, in two's
/// complement.
pub open spec fn unsigned32(i: i32) -> u32 {
    if i >= 0 {
        i as int as u32
    } else {
        (i as int + 4294967296) as u32
    }
}

/// The signed 32-bit number that the 4 bytes `b` write in the given
/// order.
pub open spec fn i32_of(order: Endianness, b: Seq<u8>) -> i32
    recommends
        b.len() == 4,
{
    signed32(u32_of(order, b))
}

/// The 4 bytes that write the signed 32-bit number `v` in the given
/// order.
pub open spec fn i32_bytes(order: Endianness, v: i32) -> Seq<u8> {
    u32_bytes(order, unsigned32(v))
}

/// The unsigned 64-bit number that the 8 bytes `b` write in the given
/// order.
pub open spec fn u64_of(order: Endianness, b: Seq<u8>) -> u64
    recommends
        b.len() == 8,
{
    match order {
        Endianness::Little => (b[0] as int + b[1] as int * 256 + b[2] as int * 65536 + b[3] as int * 16777216 + b[4] as int * 4294967296 + b[5] as int * 1099511627776 + b[6] as int * 281474976710656 + b[7] as int * 72057594037927936) as u64,
        Endianness::Big => (b[7] as int + b[6] as int * 256 + b[5] as int * 65536 + b[4] as int * 16777216 + b[3] as int * 4294967296 + b[2] as int * 1099511627776 + b[1] as int * 281474976710656 + b[0] as int * 72057594037927936) as u64,
    }
}

/// The 8 bytes that write the unsigned 64-bit number `v` in the given
/// order.
pub open spec fn u64_bytes(order: Endianness, v: u64) -> Seq<u8> {
    match order {
        Endianness::Little => seq![((v as int / 1) % 256) as u8, ((v as int / 256) % 256) as u8, ((v as int / 65536) % 256) as u8, ((v as int / 16777216) % 256) as u8, ((v as int / 4294967296) % 256) as u8, ((v as int / 1099511627776) % 256) as u8, ((v as int / 281474976710656) % 256) as u8, ((v as int / 72057594037927936) % 256) as u8],
        Endianness::Big => seq![((v as int / 72057594037927936) % 256) as u8, ((v as int / 281474976710656) % 256) as u8, ((v as int / 1099511627776) % 256) as u8, ((v as int / 4294967296) % 256) as u8, ((v as int / 16777216) % 256) as u8, ((v as int / 65536) % 256) as u8, ((v as int / 256) % 256) as u8, ((v as int / 1) % 256) as u8],
    }
}

/// The signed number with the same 64 bits as `u`, in two's complement.
pub open spec fn signed64(u: u64) -> i64 {
    if (u as int) < 9223372036854775808 {
        u as int as i64
    } else {
        (u as int - 18446744073709551616) as i64
    }
}

/// The unsigned number with the same 64 bits as `i`, in two's
/// complement.
pub open spec fn unsigned64(i: i64) -> u64 {
    if i >= 0 {
        i as int as u64
    } else {
        (i as int + 18446744073709551616) as u64
    }
}

/// The signed 64-bit number that the 8 bytes `b` write in the given
/// order.
pub open spec fn i64_of(order: Endianness, b: Seq<u8>) -> i64
    recommends
        b.len() == 8,
{
    signed64(u64_of(order, b))
}

/// The 8 bytes that write the signed 64-bit number `v` in the given
/// order.
pub open spec fn i64_bytes(order: Endianness, v: i64) -> Seq<u8> {
    u64_bytes(order, unsigned64(v))
}

impl Endianness {
    /// Whether the byte that weighs least comes first.
    pub fn is_little(self) -> (b: bool)
        ensures
            b == (self == Endianness::Little),
    {
        match self {
            Endianness::Little => true,
            Endianness::Big => false,
        }
    }

    /// Reads an unsigned 16-bit number from 2 bytes.
    pub fn read_u16(self, b: &[u8]) -> (v: u16)
        requires
            b@.len() == 2,
        ensures
            v == u16_of(self, b@),
    {
        match self {
            Endianness::Little => (b[0] as u16) + (b[1] as u16) * 256,
            Endianness::Big => (b[1] as u16) + (b[0] as u16) * 256,
        }
    }

    /// Reads a signed 16-bit number from 2 bytes.
    pub fn read_i16(self, b: &[u8]) -> (v: i16)
        requires
            b@.len() == 2,
        ensures
            v == i16_of(self, b@),
    {
        to_signed16(self.read_u16(b))
    }

    /// Appends the 2 bytes of an unsigned 16-bit number to `out`.
    pub fn write_u16(self, out: &mut Vec<u8>, v: u16)
        ensures
            final(out)@ == old(out)@ + u16_bytes(self, v),
    {
        match self {
            Endianness::Little => {
                out.push(((v / 1) % 256) as u8);
                out.push(((v / 256) % 256) as u8);
            },
            Endianness::Big => {
                out.push(((v / 256) % 256) as u8);
                out.push(((v / 1) % 256) as u8);
            },
        }
        assert(out@ =~= old(out)@ + u16_bytes(self, v));
    }

    /// Appends the 2 bytes of a signed 16-bit number to `out`.
    pub fn write_i16(self, out: &mut Vec<u8>, v: i16)
        ensures
            final(out)@ == old(out)@ + i16_bytes(self, v),
    {
        self.write_u16(out, to_unsigned16(v));
    }

    /// Reads an unsigned 32-bit number from 4 bytes.
    pub fn read_u32(self, b: &[u8]) -> (v: u32)
        requires
            b@.len() == 4,
        ensures
            v == u32_of(self, b@),
    {
        match self {
            Endianness::Little => (b[0] as u32) + (b[1] as u32) * 256 + (b[2] as u32) * 65536 + (b[3] as u32) * 16777216,
            Endianness::Big => (b[3] as u32) + (b[2] as u32) * 256 + (b[1] as u32) * 65536 + (b[0] as u32) * 16777216,
        }
    }

    /// Reads a signed 32-bit number from 4 bytes.
    pub fn read_i32(self, b: &[u8]) -> (v: i32)
        requires
            b@.len() == 4,
        ensures
            v == i32_of(self, b@),
    {
        to_signed32(self.read_u32(b))
    }

    /// Appends the 4 bytes of an unsigned 32-bit number to `out`.
    pub fn write_u32(self, out: &mut Vec<u8>, v: u32)
        ensures
            final(out)@ == old(out)@ + u32_bytes(self, v),
    {
        match self {
            Endianness::Little => {
                out.push(((v / 1) % 256) as u8);
                out.push(((v / 256) % 256) as u8);
                out.push(((v / 65536) % 256) as u8);
                out.push(((v / 16777216) % 256) as u8);
            },
            Endianness::Big => {
                out.push(((v / 16777216) % 256) as u8);
                out.push(((v / 65536) % 256) as u8);
                out.push(((v / 256) % 256) as u8);
                out.push(((v / 1) % 256) as u8);
            },
        }
        assert(out@ =~= old(out)@ + u32_bytes(self, v));
    }

    /// Appends the 4 bytes of a signed 32-bit number to `out`.
    pub fn write_i32(self, out: &mut Vec<u8>, v: i32)
        ensures
            final(out)@ == old(out)@ + i32_bytes(self, v),
    {
        self.write_u32(out, to_unsigned32(v));
    }

    /// Reads an unsigned 64-bit number from 8 bytes.
    pub fn read_u64(self, b: &[u8]) -> (v: u64)
        requires
            b@.len() == 8,
        ensures
            v == u64_of(self, b@),
    {
        match self {
            Endianness::Little => (b[0] as u64) + (b[1] as u64) * 256 + (b[2] as u64) * 65536 + (b[3] as u64) * 16777216 + (b[4] as u64) * 4294967296 + (b[5] as u64) * 1099511627776 + (b[6] as u64) * 281474976710656 + (b[7] as u64) * 72057594037927936,
            Endianness::Big => (b[7] as u64) + (b[6] as u64) * 256 + (b[5] as u64) * 65536 + (b[4] as u64) * 16777216 + (b[3] as u64) * 4294967296 + (b[2] as u64) * 1099511627776 + (b[1] as u64) * 281474976710656 + (b[0] as u64) * 72057594037927936,
        }
    }

    /// Reads a signed 64-bit number from 8 bytes.
    pub fn read_i64(self, b: &[u8]) -> (v: i64)
        requires
            b@.len() == 8,
        ensures
            v == i64_of(self, b@),
    {
        to_signed64(self.read_u64(b))
    }

    /// Appends the 8 bytes of an unsigned 64-bit number to `out`.
    pub fn write_u64(self, out: &mut Vec<u8>, v: u64)
        ensures
            final(out)@ == old(out)@ + u64_bytes(self, v),
    {
        match self {
            Endianness::Little => {
                out.push(((v / 1) % 256) as u8);
                out.push(((v / 256) % 256) as u8);
                out.push(((v / 65536) % 256) as u8);
                out.push(((v / 16777216) % 256) as u8);
                out.push(((v / 4294967296) % 256) as u8);
                out.push(((v / 1099511627776) % 256) as u8);
                out.push(((v / 281474976710656) % 256) as u8);
                out.push(((v / 72057594037927936) % 256) as u8);
            },
            Endianness::Big => {
                out.push(((v / 72057594037927936) % 256) as u8);
                out.push(((v / 281474976710656) % 256) as u8);
                out.push(((v / 1099511627776) % 256) as u8);
                out.push(((v / 4294967296) % 256) as u8);
                out.push(((v / 16777216) % 256) as u8);
                out.push(((v / 65536) % 256) as u8);
                out.push(((v / 256) % 256) as u8);
                out.push(((v / 1) % 256) as u8);
            },
        }
        assert(out@ =~= old(out)@ + u64_bytes(self, v));
    }

    /// Appends the 8 bytes of a signed 64-bit number to `out`.
    pub fn write_i64(self, out: &mut Vec<u8>, v: i64)
        ensures
            final(out)@ == old(out)@ + i64_bytes(self, v),
    {
        self.write_u64(out, to_unsigned64(v));
    }

}

/// A number that is `low` plus `k` times `high`, with `low` below `k`, has
/// the quotient `high` and the remainder `low` on division by `k`.
proof fn lemma_quotient(x: int, k: int, low: int, high: int)
    requires
        k > 0,
        0 <= low < k,
        x == low + k * high,
    ensures
        x / k == high,
        x % k == low,
{
    assert(k * high == high * k) by (nonlinear_arith);
    vstd::arithmetic::div_mod::lemma_fundamental_div_mod_converse(x, k, high, low);
}

/// The signed number with the same 16 bits as `u`.
pub fn to_signed16(u: u16) -> (i: i16)
    ensures
        i == signed16(u),
{
    if u < 32768 {
        u as i16
    } else {
        ((u as i32) - 65536) as i16
    }
}

/// The unsigned number with the same 16 bits as `i`.
pub fn to_unsigned16(i: i16) -> (u: u16)
    ensures
        u == unsigned16(i),
{
    if i >= 0 {
        i as u16
    } else {
        ((i as i32) + 65536) as u16
    }
}

/// A number and the number of the other sign with the same 16 bits
/// stand for each other.
pub proof fn lemma_signed16(u: u16, i: i16)
    ensures
        unsigned16(signed16(u)) == u,
        signed16(unsigned16(i)) == i,
{
}

/// The 2 bytes of a number write that number, in either order.
pub proof fn lemma_u16_of_bytes(order: Endianness, v: u16)
    ensures
        u16_bytes(order, v).len() == 2,
        u16_of(order, u16_bytes(order, v)) == v,
{
    let x: int = v as int;
    assert((x / 1) % 256 + 256 * (x / 256) == x / 1);
    assert(x / 256 < 256);
}

/// 2 bytes are the bytes of the number that they write, in either order.
pub proof fn lemma_u16_bytes_of(order: Endianness, b: Seq<u8>)
    requires
        b.len() == 2,
    ensures
        u16_bytes(order, u16_of(order, b)) == b,
{
    let v = u16_of(order, b);
    let x: int = v as int;
    let c = in_order(order, b);
    assert(c.len() == 2);
    assert(c[0] == (match order {
        Endianness::Little => b[0],
        Endianness::Big => b[1],
    }));
    assert(c[1] == (match order {
        Endianness::Little => b[1],
        Endianness::Big => b[0],
    }));
    let h1: int = c[1] as int;
    let h0: int = c[0] as int + 256 * h1;
    assert(x == h0);
    let l0: int = 0;
    let l1: int = l0 + 1 * c[0] as int;
    lemma_quotient(h0, 256, c[0] as int, h1);
    assert((x / 1) % 256 == c[0] as int);
    lemma_quotient(x, 256, l1, h1);
    assert(h1 % 256 == c[1] as int);
    assert((x / 256) % 256 == c[1] as int);
    assert(u16_bytes(order, v) =~= b);
}

/// The signed number with the same 32 bits as `u`.
pub fn to_signed32(u: u32) -> (i: i32)
    ensures
        i == signed32(u),
{
    if u < 2147483648 {
        u as i32
    } else {
        ((u as i64) - 4294967296) as i32
    }
}

/// The unsigned number with the same 32 bits as `i`.
pub fn to_unsigned32(i: i32) -> (u: u32)
    ensures
        u == unsigned32(i),
{
    if i >= 0 {
        i as u32
    } else {
        ((i as i64) + 4294967296) as u32
    }
}

/// A number and the number of the other sign with the same 32 bits
/// stand for each other.
pub proof fn lemma_signed32(u: u32, i: i32)
    ensures
        unsigned32(signed32(u)) == u,
        signed32(unsigned32(i)) == i,
{
}

/// The 4 bytes of a number write that number, in either order.
pub proof fn lemma_u32_of_bytes(order: Endianness, v: u32)
    ensures
        u32_bytes(order, v).len() == 4,
        u32_of(order, u32_bytes(order, v)) == v,
{
    let x: int = v as int;
    assert((x / 1) % 256 + 256 * (x / 256) == x / 1);
    assert((x / 256) % 256 + 256 * (x / 65536) == x / 256);
    assert((x / 65536) % 256 + 256 * (x / 16777216) == x / 65536);
    assert(x / 16777216 < 256);
}

/// 4 bytes are the bytes of the number that they write, in either order.
pub proof fn lemma_u32_bytes_of(order: Endianness, b: Seq<u8>)
    requires
        b.len() == 4,
    ensures
        u32_bytes(order, u32_of(order, b)) == b,
{
    let v = u32_of(order, b);
    let x: int = v as int;
    let c = in_order(order, b);
    assert(c.len() == 4);
    assert(c[0] == (match order {
        Endianness::Little => b[0],
        Endianness::Big => b[3],
    }));
    assert(c[1] == (match order {
        Endianness::Little => b[1],
        Endianness::Big => b[2],
    }));
    assert(c[2] == (match order {
        Endianness::Little => b[2],
        Endianness::Big => b[1],
    }));
    assert(c[3] == (match order {
        Endianness::Little => b[3],
        Endianness::Big => b[0],
    }));
    let h3: int = c[3] as int;
    let h2: int = c[2] as int + 256 * h3;
    let h1: int = c[1] as int + 256 * h2;
    let h0: int = c[0] as int + 256 * h1;
    assert(x == h0);
    let l0: int = 0;
    let l1: int = l0 + 1 * c[0] as int;
    let l2: int = l1 + 256 * c[1] as int;
    let l3: int = l2 + 65536 * c[2] as int;
    lemma_quotient(h0, 256, c[0] as int, h1);
    assert((x / 1) % 256 == c[0] as int);
    lemma_quotient(x, 256, l1, h1);
    lemma_quotient(h1, 256, c[1] as int, h2);
    assert((x / 256) % 256 == c[1] as int);
    lemma_quotient(x, 65536, l2, h2);
    lemma_quotient(h2, 256, c[2] as int, h3);
    assert((x / 65536) % 256 == c[2] as int);
    lemma_quotient(x, 16777216, l3, h3);
    assert(h3 % 256 == c[3] as int);
    assert((x / 16777216) % 256 == c[3] as int);
    assert(u32_bytes(order, v) =~= b);
}

/// The signed number with the same 64 bits as `u`.
pub fn to_signed64(u: u64) -> (i: i64)
    ensures
        i == signed64(u),
{
    if u < 9223372036854775808 {
        u as i64
    } else {
        ((u as i128) - 18446744073709551616) as i64
    }
}

/// The unsigned number with the same 64 bits as `i`.
pub fn to_unsigned64(i: i64) -> (u: u64)
    ensures
        u == unsigned64(i),
{
    if i >= 0 {
        i as u64
    } else {
        ((i as i128) + 18446744073709551616) as u64
    }
}

/// A number and the number of the other sign with the same 64 bits
/// stand for each other.
pub proof fn lemma_signed64(u: u64, i: i64)
    ensures
        unsigned64(signed64(u)) == u,
        signed64(unsigned64(i)) == i,
{
}

/// The 8 bytes of a number write that number, in either order.
pub proof fn lemma_u64_of_bytes(order: Endianness, v: u64)
    ensures
        u64_bytes(order, v).len() == 8,
        u64_of(order, u64_bytes(order, v)) == v,
{
    let x: int = v as int;
    assert((x / 1) % 256 + 256 * (x / 256) == x / 1);
    assert((x / 256) % 256 + 256 * (x / 65536) == x / 256);
    assert((x / 65536) % 256 + 256 * (x / 16777216) == x / 65536);
    assert((x / 16777216) % 256 + 256 * (x / 4294967296) == x / 16777216);
    assert((x / 4294967296) % 256 + 256 * (x / 1099511627776) == x / 4294967296);
    assert((x / 1099511627776) % 256 + 256 * (x / 281474976710656) == x / 1099511627776);
    assert((x / 281474976710656) % 256 + 256 * (x / 72057594037927936) == x / 281474976710656);
    assert(x / 72057594037927936 < 256);
}

/// 8 bytes are the bytes of the number that they write, in either order.
pub proof fn lemma_u64_bytes_of(order: Endianness, b: Seq<u8>)
    requires
        b.len() == 8,
    ensures
        u64_bytes(order, u64_of(order, b)) == b,
{
    let v = u64_of(order, b);
    let x: int = v as int;
    let c = in_order(order, b);
    assert(c.len() == 8);
    assert(c[0] == (match order {
        Endianness::Little => b[0],
        Endianness::Big => b[7],
    }));
    assert(c[1] == (match order {
        Endianness::Little => b[1],
        Endianness::Big => b[6],
    }));
    assert(c[2] == (match order {
        Endianness::Little => b[2],
        Endianness::Big => b[5],
    }));
    assert(c[3] == (match order {
        Endianness::Little => b[3],
        Endianness::Big => b[4],
    }));
    assert(c[4] == (match order {
        Endianness::Little => b[4],
        Endianness::Big => b[3],
    }));
    assert(c[5] == (match order {
        Endianness::Little => b[5],
        Endianness::Big => b[2],
    }));
    assert(c[6] == (match order {
        Endianness::Little => b[6],
        Endianness::Big => b[1],
    }));
    assert(c[7] == (match order {
        Endianness::Little => b[7],
        Endianness::Big => b[0],
    }));
    let h7: int = c[7] as int;
    let h6: int = c[6] as int + 256 * h7;
    let h5: int = c[5] as int + 256 * h6;
    let h4: int = c[4] as int + 256 * h5;
    let h3: int = c[3] as int + 256 * h4;
    let h2: int = c[2] as int + 256 * h3;
    let h1: int = c[1] as int + 256 * h2;
    let h0: int = c[0] as int + 256 * h1;
    assert(x == h0);
    let l0: int = 0;
    let l1: int = l0 + 1 * c[0] as int;
    let l2: int = l1 + 256 * c[1] as int;
    let l3: int = l2 + 65536 * c[2] as int;
    let l4: int = l3 + 16777216 * c[3] as int;
    let l5: int = l4 + 4294967296 * c[4] as int;
    let l6: int = l5 + 1099511627776 * c[5] as int;
    let l7: int = l6 + 281474976710656 * c[6] as int;
    lemma_quotient(h0, 256, c[0] as int, h1);
    assert((x / 1) % 256 == c[0] as int);
    lemma_quotient(x, 256, l1, h1);
    lemma_quotient(h1, 256, c[1] as int, h2);
    assert((x / 256) % 256 == c[1] as int);
    lemma_quotient(x, 65536, l2, h2);
    lemma_quotient(h2, 256, c[2] as int, h3);
    assert((x / 65536) % 256 == c[2] as int);
    lemma_quotient(x, 16777216, l3, h3);
    lemma_quotient(h3, 256, c[3] as int, h4);
    assert((x / 16777216) % 256 == c[3] as int);
    lemma_quotient(x, 4294967296, l4, h4);
    lemma_quotient(h4, 256, c[4] as int, h5);
    assert((x / 4294967296) % 256 == c[4] as int);
    lemma_quotient(x, 1099511627776, l5, h5);
    lemma_quotient(h5, 256, c[5] as int, h6);
    assert((x / 1099511627776) % 256 == c[5] as int);
    lemma_quotient(x, 281474976710656, l6, h6);
    lemma_quotient(h6, 256, c[6] as int, h7);
    assert((x / 281474976710656) % 256 == c[6] as int);
    lemma_quotient(x, 72057594037927936, l7, h7);
    assert(h7 % 256 == c[7] as int);
    assert((x / 72057594037927936) % 256 == c[7] as int);
    assert(u64_bytes(order, v) =~= b);
}

} // verus!

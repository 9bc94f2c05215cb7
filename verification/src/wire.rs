//! Primitive values on the wire: the bytes that a value is written with.

use crate::encode::{tag_bytes, write_tag};
use crate::endian::{
    i16_bytes, i32_bytes, i64_bytes, lemma_u16_of_bytes, lemma_u32_of_bytes, lemma_u64_of_bytes,
    u16_bytes, u32_bytes, u64_bytes, Endianness,
};
use crate::tag::Tag;
use crate::text::append_bytes;
use crate::value::{joined_bytes, texts, PrimitiveModel, PrimitiveValue};
use crate::vr::VR;
use vstd::prelude::*;
use vstd::utf8::encode_utf8;

verus! {

/// The byte that pads a value of the given representation to an even
/// length: a space for text, NUL for a unique identifier and for anything
/// else.
pub open spec fn padding_of(vr: VR) -> u8 {
    if vr.textual_spec() && vr != VR::UI {
        0x20
    } else {
        0
    }
}

/// The byte that pads a value of the given representation to an even
/// length.
pub fn padding(vr: VR) -> (pad: u8)
    ensures
        pad == padding_of(vr),
{
    if vr.is_textual() && vr != VR::UI {
        0x20
    } else {
        0
    }
}

/// The bytes of the first `n` texts of a list, in UTF-8, with one backslash
/// between two of them.
pub open spec fn joined_text(list: Seq<Seq<char>>, n: nat) -> Seq<u8>
    decreases n,
{
    if n == 0 || n > list.len() {
        Seq::empty()
    } else if n == 1 {
        encode_utf8(list[0])
    } else {
        joined_text(list, (n - 1) as nat) + seq![0x5Cu8] + encode_utf8(list[n - 1])
    }
}

/// The bytes of the first `n` tags of a list.
pub open spec fn tags_bytes(order: Endianness, list: Seq<Tag>, n: nat) -> Seq<u8>
    decreases n,
{
    if n == 0 || n > list.len() {
        Seq::empty()
    } else {
        tags_bytes(order, list, (n - 1) as nat) + tag_bytes(order, list[n - 1])
    }
}

/// The bytes of the first `n` numbers of a list of `i16`.
pub open spec fn i16s_bytes(order: Endianness, list: Seq<i16>, n: nat) -> Seq<u8>
    decreases n,
{
    if n == 0 || n > list.len() {
        Seq::empty()
    } else {
        i16s_bytes(order, list, (n - 1) as nat) + i16_bytes(order, list[n - 1])
    }
}

/// The first `n` numbers of a list of `i16` take 2 bytes each.
pub proof fn lemma_i16s_bytes_len(order: Endianness, list: Seq<i16>, n: nat)
    requires
        n <= list.len(),
    ensures
        i16s_bytes(order, list, n).len() == 2 * n,
    decreases n,
{
    if n > 0 {
        lemma_i16s_bytes_len(order, list, (n - 1) as nat);
        lemma_u16_of_bytes(order, crate::endian::unsigned16(list[n - 1]));
    }
}

/// Appends the bytes of a list of `i16`.
pub fn write_i16s(order: Endianness, out: &mut Vec<u8>, list: &Vec<i16>)
    ensures
        final(out)@ == old(out)@ + i16s_bytes(order, list@, list@.len()),
{
    let mut i: usize = 0;
    assert(out@ =~= old(out)@ + i16s_bytes(order, list@, 0));
    while i < list.len()
        invariant
            i <= list@.len(),
            out@ == old(out)@ + i16s_bytes(order, list@, i as nat),
        decreases list@.len() - i,
    {
        order.write_i16(out, list[i]);
        assert(out@ =~= old(out)@ + i16s_bytes(order, list@, (i + 1) as nat));
        i = i + 1;
    }
}

/// The bytes of the first `n` numbers of a list of `u16`.
pub open spec fn u16s_bytes(order: Endianness, list: Seq<u16>, n: nat) -> Seq<u8>
    decreases n,
{
    if n == 0 || n > list.len() {
        Seq::empty()
    } else {
        u16s_bytes(order, list, (n - 1) as nat) + u16_bytes(order, list[n - 1])
    }
}

/// The first `n` numbers of a list of `u16` take 2 bytes each.
pub proof fn lemma_u16s_bytes_len(order: Endianness, list: Seq<u16>, n: nat)
    requires
        n <= list.len(),
    ensures
        u16s_bytes(order, list, n).len() == 2 * n,
    decreases n,
{
    if n > 0 {
        lemma_u16s_bytes_len(order, list, (n - 1) as nat);
        lemma_u16_of_bytes(order, list[n - 1]);
    }
}

/// Appends the bytes of a list of `u16`.
pub fn write_u16s(order: Endianness, out: &mut Vec<u8>, list: &Vec<u16>)
    ensures
        final(out)@ == old(out)@ + u16s_bytes(order, list@, list@.len()),
{
    let mut i: usize = 0;
    assert(out@ =~= old(out)@ + u16s_bytes(order, list@, 0));
    while i < list.len()
        invariant
            i <= list@.len(),
            out@ == old(out)@ + u16s_bytes(order, list@, i as nat),
        decreases list@.len() - i,
    {
        order.write_u16(out, list[i]);
        assert(out@ =~= old(out)@ + u16s_bytes(order, list@, (i + 1) as nat));
        i = i + 1;
    }
}

/// The bytes of the first `n` numbers of a list of `i32`.
pub open spec fn i32s_bytes(order: Endianness, list: Seq<i32>, n: nat) -> Seq<u8>
    decreases n,
{
    if n == 0 || n > list.len() {
        Seq::empty()
    } else {
        i32s_bytes(order, list, (n - 1) as nat) + i32_bytes(order, list[n - 1])
    }
}

/// The first `n` numbers of a list of `i32` take 4 bytes each.
pub proof fn lemma_i32s_bytes_len(order: Endianness, list: Seq<i32>, n: nat)
    requires
        n <= list.len(),
    ensures
        i32s_bytes(order, list, n).len() == 4 * n,
    decreases n,
{
    if n > 0 {
        lemma_i32s_bytes_len(order, list, (n - 1) as nat);
        lemma_u32_of_bytes(order, crate::endian::unsigned32(list[n - 1]));
    }
}

/// Appends the bytes of a list of `i32`.
pub fn write_i32s(order: Endianness, out: &mut Vec<u8>, list: &Vec<i32>)
    ensures
        final(out)@ == old(out)@ + i32s_bytes(order, list@, list@.len()),
{
    let mut i: usize = 0;
    assert(out@ =~= old(out)@ + i32s_bytes(order, list@, 0));
    while i < list.len()
        invariant
            i <= list@.len(),
            out@ == old(out)@ + i32s_bytes(order, list@, i as nat),
        decreases list@.len() - i,
    {
        order.write_i32(out, list[i]);
        assert(out@ =~= old(out)@ + i32s_bytes(order, list@, (i + 1) as nat));
        i = i + 1;
    }
}

/// The bytes of the first `n` numbers of a list of `u32`.
pub open spec fn u32s_bytes(order: Endianness, list: Seq<u32>, n: nat) -> Seq<u8>
    decreases n,
{
    if n == 0 || n > list.len() {
        Seq::empty()
    } else {
        u32s_bytes(order, list, (n - 1) as nat) + u32_bytes(order, list[n - 1])
    }
}

/// The first `n` numbers of a list of `u32` take 4 bytes each.
pub proof fn lemma_u32s_bytes_len(order: Endianness, list: Seq<u32>, n: nat)
    requires
        n <= list.len(),
    ensures
        u32s_bytes(order, list, n).len() == 4 * n,
    decreases n,
{
    if n > 0 {
        lemma_u32s_bytes_len(order, list, (n - 1) as nat);
        lemma_u32_of_bytes(order, list[n - 1]);
    }
}

/// Appends the bytes of a list of `u32`.
pub fn write_u32s(order: Endianness, out: &mut Vec<u8>, list: &Vec<u32>)
    ensures
        final(out)@ == old(out)@ + u32s_bytes(order, list@, list@.len()),
{
    let mut i: usize = 0;
    assert(out@ =~= old(out)@ + u32s_bytes(order, list@, 0));
    while i < list.len()
        invariant
            i <= list@.len(),
            out@ == old(out)@ + u32s_bytes(order, list@, i as nat),
        decreases list@.len() - i,
    {
        order.write_u32(out, list[i]);
        assert(out@ =~= old(out)@ + u32s_bytes(order, list@, (i + 1) as nat));
        i = i + 1;
    }
}

/// The bytes of the first `n` numbers of a list of `i64`.
pub open spec fn i64s_bytes(order: Endianness, list: Seq<i64>, n: nat) -> Seq<u8>
    decreases n,
{
    if n == 0 || n > list.len() {
        Seq::empty()
    } else {
        i64s_bytes(order, list, (n - 1) as nat) + i64_bytes(order, list[n - 1])
    }
}

/// The first `n` numbers of a list of `i64` take 8 bytes each.
pub proof fn lemma_i64s_bytes_len(order: Endianness, list: Seq<i64>, n: nat)
    requires
        n <= list.len(),
    ensures
        i64s_bytes(order, list, n).len() == 8 * n,
    decreases n,
{
    if n > 0 {
        lemma_i64s_bytes_len(order, list, (n - 1) as nat);
        lemma_u64_of_bytes(order, crate::endian::unsigned64(list[n - 1]));
    }
}

/// Appends the bytes of a list of `i64`.
pub fn write_i64s(order: Endianness, out: &mut Vec<u8>, list: &Vec<i64>)
    ensures
        final(out)@ == old(out)@ + i64s_bytes(order, list@, list@.len()),
{
    let mut i: usize = 0;
    assert(out@ =~= old(out)@ + i64s_bytes(order, list@, 0));
    while i < list.len()
        invariant
            i <= list@.len(),
            out@ == old(out)@ + i64s_bytes(order, list@, i as nat),
        decreases list@.len() - i,
    {
        order.write_i64(out, list[i]);
        assert(out@ =~= old(out)@ + i64s_bytes(order, list@, (i + 1) as nat));
        i = i + 1;
    }
}

/// The bytes of the first `n` numbers of a list of `u64`.
pub open spec fn u64s_bytes(order: Endianness, list: Seq<u64>, n: nat) -> Seq<u8>
    decreases n,
{
    if n == 0 || n > list.len() {
        Seq::empty()
    } else {
        u64s_bytes(order, list, (n - 1) as nat) + u64_bytes(order, list[n - 1])
    }
}

/// The first `n` numbers of a list of `u64` take 8 bytes each.
pub proof fn lemma_u64s_bytes_len(order: Endianness, list: Seq<u64>, n: nat)
    requires
        n <= list.len(),
    ensures
        u64s_bytes(order, list, n).len() == 8 * n,
    decreases n,
{
    if n > 0 {
        lemma_u64s_bytes_len(order, list, (n - 1) as nat);
        lemma_u64_of_bytes(order, list[n - 1]);
    }
}

/// Appends the bytes of a list of `u64`.
pub fn write_u64s(order: Endianness, out: &mut Vec<u8>, list: &Vec<u64>)
    ensures
        final(out)@ == old(out)@ + u64s_bytes(order, list@, list@.len()),
{
    let mut i: usize = 0;
    assert(out@ =~= old(out)@ + u64s_bytes(order, list@, 0));
    while i < list.len()
        invariant
            i <= list@.len(),
            out@ == old(out)@ + u64s_bytes(order, list@, i as nat),
        decreases list@.len() - i,
    {
        order.write_u64(out, list[i]);
        assert(out@ =~= old(out)@ + u64s_bytes(order, list@, (i + 1) as nat));
        i = i + 1;
    }
}

/// The first `n` tags of a list take four bytes each.
pub proof fn lemma_tags_bytes_len(order: Endianness, list: Seq<Tag>, n: nat)
    requires
        n <= list.len(),
    ensures
        tags_bytes(order, list, n).len() == 4 * n,
    decreases n,
{
    if n > 0 {
        lemma_tags_bytes_len(order, list, (n - 1) as nat);
        crate::encode::lemma_tag_bytes(order, list[n - 1]);
    }
}

/// The bytes of the first `n` texts of a list are as many as their length
/// says.
pub proof fn lemma_joined_text_len(list: Seq<Seq<char>>, n: nat)
    requires
        n <= list.len(),
    ensures
        joined_text(list, n).len() == joined_bytes(list, n),
    decreases n,
{
    if n > 1 {
        lemma_joined_text_len(list, (n - 1) as nat);
    }
}

/// A run of bytes with one more byte after it where their number is odd.
pub open spec fn padded(bytes: Seq<u8>, pad: u8) -> Seq<u8> {
    if bytes.len() % 2 == 1 {
        bytes.push(pad)
    } else {
        bytes
    }
}

impl PrimitiveModel {
    /// The bytes of the value before any padding: texts in UTF-8 with one
    /// backslash between two of them, numbers in their fixed widths in the
    /// given byte order, tags as group and element.
    pub open spec fn raw_bytes(self, order: Endianness) -> Seq<u8> {
        match self {
            PrimitiveModel::Empty => Seq::empty(),
            PrimitiveModel::Strs(list) => joined_text(list, list.len()),
            PrimitiveModel::Tags(list) => tags_bytes(order, list, list.len()),
            PrimitiveModel::U8(list) => list,
            PrimitiveModel::I16(list) => i16s_bytes(order, list, list.len()),
            PrimitiveModel::U16(list) => u16s_bytes(order, list, list.len()),
            PrimitiveModel::I32(list) => i32s_bytes(order, list, list.len()),
            PrimitiveModel::U32(list) => u32s_bytes(order, list, list.len()),
            PrimitiveModel::I64(list) => i64s_bytes(order, list, list.len()),
            PrimitiveModel::U64(list) => u64s_bytes(order, list, list.len()),
            PrimitiveModel::F32(list) => u32s_bytes(order, list, list.len()),
            PrimitiveModel::F64(list) => u64s_bytes(order, list, list.len()),
        }
    }

    /// The bytes that the value is written with: its bytes and, where their
    /// number is odd, the byte `pad` after them.
    pub open spec fn wire_bytes(self, order: Endianness, pad: u8) -> Seq<u8> {
        padded(self.raw_bytes(order), pad)
    }
}

/// The bytes of a value are as many as its length says, before padding and
/// after.
pub proof fn lemma_wire_length(v: PrimitiveModel, order: Endianness, pad: u8)
    ensures
        v.raw_bytes(order).len() == v.byte_length(),
        v.wire_bytes(order, pad).len() == v.padded_length(),
        v.wire_bytes(order, pad).len() % 2 == 0,
{
    match v {
        PrimitiveModel::Empty => {},
        PrimitiveModel::Strs(list) => lemma_joined_text_len(list, list.len()),
        PrimitiveModel::Tags(list) => lemma_tags_bytes_len(order, list, list.len()),
        PrimitiveModel::U8(list) => {},
        PrimitiveModel::I16(list) => lemma_i16s_bytes_len(order, list, list.len()),
        PrimitiveModel::U16(list) => lemma_u16s_bytes_len(order, list, list.len()),
        PrimitiveModel::I32(list) => lemma_i32s_bytes_len(order, list, list.len()),
        PrimitiveModel::U32(list) => lemma_u32s_bytes_len(order, list, list.len()),
        PrimitiveModel::I64(list) => lemma_i64s_bytes_len(order, list, list.len()),
        PrimitiveModel::U64(list) => lemma_u64s_bytes_len(order, list, list.len()),
        PrimitiveModel::F32(list) => lemma_u32s_bytes_len(order, list, list.len()),
        PrimitiveModel::F64(list) => lemma_u64s_bytes_len(order, list, list.len()),
    }
}

/// Appends the texts of a list, in UTF-8, with one backslash between two of
/// them.
pub fn write_texts(out: &mut Vec<u8>, list: &Vec<String>)
    ensures
        final(out)@ == old(out)@ + joined_text(texts(list@), list@.len()),
{
    let mut i: usize = 0;
    assert(out@ =~= old(out)@ + joined_text(texts(list@), 0));
    while i < list.len()
        invariant
            i <= list@.len(),
            out@ == old(out)@ + joined_text(texts(list@), i as nat),
        decreases list@.len() - i,
    {
        if i > 0 {
            out.push(0x5C);
        }
        let s: &str = list[i].as_str();
        assert(texts(list@)[i as int] == s@);
        append_bytes(out, s.as_bytes());
        assert(out@ =~= old(out)@ + joined_text(texts(list@), (i + 1) as nat));
        i = i + 1;
    }
}

/// Appends the tags of a list.
pub fn write_tags(order: Endianness, out: &mut Vec<u8>, list: &Vec<Tag>)
    ensures
        final(out)@ == old(out)@ + tags_bytes(order, list@, list@.len()),
{
    let mut i: usize = 0;
    assert(out@ =~= old(out)@ + tags_bytes(order, list@, 0));
    while i < list.len()
        invariant
            i <= list@.len(),
            out@ == old(out)@ + tags_bytes(order, list@, i as nat),
        decreases list@.len() - i,
    {
        write_tag(order, out, list[i]);
        assert(out@ =~= old(out)@ + tags_bytes(order, list@, (i + 1) as nat));
        i = i + 1;
    }
}

impl PrimitiveValue {
    /// Writes the value as it stands on the wire: its bytes in the given
    /// byte order and, where their number is odd, the byte `pad` after them.
    /// The number of bytes written is the padded length of the value.
    pub fn to_wire(&self, order: Endianness, pad: u8) -> (bytes: Vec<u8>)
        ensures
            bytes@ == self@.wire_bytes(order, pad),
            bytes@.len() == self@.padded_length(),
            bytes@.len() % 2 == 0,
    {
        let mut out: Vec<u8> = Vec::new();
        match self {
            PrimitiveValue::Empty => {},
            PrimitiveValue::Strs(list) => write_texts(&mut out, list),
            PrimitiveValue::Str(s) => {
                append_bytes(&mut out, s.as_str().as_bytes());
                assert(joined_text(seq![s@], 1) == encode_utf8(s@));
            },
            PrimitiveValue::Tags(list) => write_tags(order, &mut out, list),
            PrimitiveValue::U8(list) => append_bytes(&mut out, list.as_slice()),
            PrimitiveValue::I16(list) => write_i16s(order, &mut out, list),
            PrimitiveValue::U16(list) => write_u16s(order, &mut out, list),
            PrimitiveValue::I32(list) => write_i32s(order, &mut out, list),
            PrimitiveValue::U32(list) => write_u32s(order, &mut out, list),
            PrimitiveValue::I64(list) => write_i64s(order, &mut out, list),
            PrimitiveValue::U64(list) => write_u64s(order, &mut out, list),
            PrimitiveValue::F32(list) => write_u32s(order, &mut out, list),
            PrimitiveValue::F64(list) => write_u64s(order, &mut out, list),
        }
        assert(out@ =~= self@.raw_bytes(order));
        if out.len() % 2 == 1 {
            out.push(pad);
        }
        proof {
            lemma_wire_length(self@, order, pad);
        }
        out
    }
}

/// Why bytes are no value of a value representation.
#[derive(Clone, Copy, Debug, PartialEq, Eq, Structural)]
pub enum FromWireError {
    /// The number of bytes is no multiple of the width of one value.
    BadLength,
    /// The bytes of a text are not valid UTF-8.
    InvalidText,
    /// A sequence has no primitive value.
    NotPrimitive,
}

/// Reads bytes as text in UTF-8.
///
/// Trusted: this is `String::from_utf8` of the standard library, which
/// gives the string that has just these bytes where they are valid UTF-8,
/// and fails where they are not.
#[verifier::external_body]
fn utf8_text(bytes: Vec<u8>) -> (r: Option<String>)
    ensures
        r matches Some(s) ==> vstd::utf8::valid_utf8(bytes@) && encode_utf8(s@) == bytes@,
        r is None ==> !vstd::utf8::valid_utf8(bytes@),
{
    String::from_utf8(bytes).ok()
}

/// The place of the first backslash in a run of bytes from `from` on; the
/// length of the run where there is none.
pub open spec fn next_backslash(b: Seq<u8>, from: int) -> int
    decreases b.len() - from,
{
    if from < 0 || from >= b.len() {
        b.len() as int
    } else if b[from] == 0x5C {
        from
    } else {
        next_backslash(b, from + 1)
    }
}

/// The runs between the backslashes of a run of bytes; a run without
/// backslash is one run.
pub open spec fn split_runs(b: Seq<u8>) -> Seq<Seq<u8>>
    decreases b.len(),
{
    let i = next_backslash(b, 0);
    if i < 0 || i >= b.len() {
        seq![b]
    } else {
        seq![b.subrange(0, i)] + split_runs(b.subrange(i + 1, b.len() as int))
    }
}

/// The first `n` runs of a list with one backslash between two of them.
pub open spec fn joined_runs(list: Seq<Seq<u8>>, n: nat) -> Seq<u8>
    decreases n,
{
    if n == 0 || n > list.len() {
        Seq::empty()
    } else if n == 1 {
        list[0]
    } else {
        joined_runs(list, (n - 1) as nat) + seq![0x5Cu8] + list[n - 1]
    }
}

/// The first backslash from a place on stands at that place or after it,
/// within the run.
pub proof fn lemma_next_backslash(b: Seq<u8>, from: int)
    requires
        0 <= from <= b.len(),
    ensures
        from <= next_backslash(b, from) <= b.len(),
        next_backslash(b, from) < b.len() ==> b[next_backslash(b, from)] == 0x5C,
    decreases b.len() - from,
{
    if from < b.len() && b[from] != 0x5C {
        lemma_next_backslash(b, from + 1);
    }
}

/// A run before a list of runs: joined, the run comes first and, where the
/// list is not empty, a backslash and the joined list follow.
pub proof fn lemma_joined_front(x: Seq<u8>, rest: Seq<Seq<u8>>, n: nat)
    requires
        1 <= n <= rest.len(),
    ensures
        joined_runs(seq![x] + rest, n + 1) == x + seq![0x5Cu8] + joined_runs(rest, n),
    decreases n,
{
    let all = seq![x] + rest;
    assert(all[n as int] == rest[n - 1]);
    if n == 1 {
        assert(joined_runs(all, 1) == x);
        assert(joined_runs(all, 2) =~= x + seq![0x5Cu8] + rest[0]);
    } else {
        lemma_joined_front(x, rest, (n - 1) as nat);
        assert(joined_runs(all, n + 1) =~= x + seq![0x5Cu8] + joined_runs(rest, n));
    }
}

/// The runs between the backslashes of a run, joined with backslashes, are
/// the run again.
pub proof fn lemma_split_joined(b: Seq<u8>)
    ensures
        split_runs(b).len() >= 1,
        joined_runs(split_runs(b), split_runs(b).len()) == b,
    decreases b.len(),
{
    lemma_next_backslash(b, 0);
    let i = next_backslash(b, 0);
    if i < b.len() {
        let head = b.subrange(0, i);
        let tail = b.subrange(i + 1, b.len() as int);
        lemma_split_joined(tail);
        lemma_joined_front(head, split_runs(tail), split_runs(tail).len());
        assert(head + seq![0x5Cu8] + tail =~= b);
    }
}

/// Whether the values of a text representation are parted by backslashes.
/// The representations for long text hold one value, in which a backslash
/// is a character like any other.
pub open spec fn multi_valued(vr: VR) -> bool {
    vr != VR::LT && vr != VR::ST && vr != VR::UT && vr != VR::UR
}

/// The texts that runs of bytes write in UTF-8, where each of them is valid
/// UTF-8.
pub open spec fn texts_of_runs(runs: Seq<Seq<u8>>) -> Option<Seq<Seq<char>>> {
    if forall|k: int| 0 <= k < runs.len() ==> vstd::utf8::valid_utf8(#[trigger] runs[k]) {
        Some(Seq::new(runs.len(), |k: int| vstd::utf8::decode_utf8(runs[k])))
    } else {
        None
    }
}

/// The tags that a run of bytes writes, four bytes each.
pub open spec fn tags_of(order: Endianness, b: Seq<u8>) -> Seq<Tag> {
    Seq::new(b.len() / 4, |k: int| crate::decode::basic::tag_of(order, b.subrange(4 * k, 4 * k + 4)))
}

/// The numbers of the type `i16` that a run of bytes writes, 2 bytes each.
pub open spec fn i16s_of(order: Endianness, b: Seq<u8>) -> Seq<i16> {
    Seq::new(b.len() / 2, |k: int| crate::endian::i16_of(order, b.subrange(2 * k, 2 * k + 2)))
}

/// Reads a run of bytes as numbers of the type `i16`.
pub fn read_i16s(order: Endianness, b: &[u8]) -> (list: Vec<i16>)
    requires
        b@.len() % 2 == 0,
    ensures
        list@ == i16s_of(order, b@),
{
    let total: usize = b.len();
    let n: usize = total / 2;
    let mut list: Vec<i16> = Vec::new();
    let mut k: usize = 0;
    while k < n
        invariant
            k <= n,
            total == b@.len(),
            2 * n == total,
            list@.len() == k,
            forall|i: int| 0 <= i < k ==> list@[i] == i16s_of(order, b@)[i],
        decreases n - k,
    {
        list.push(order.read_i16(vstd::slice::slice_subrange(b, 2 * k, 2 * k + 2)));
        k = k + 1;
    }
    assert(list@ =~= i16s_of(order, b@));
    list
}

/// The numbers of the type `u16` that a run of bytes writes, 2 bytes each.
pub open spec fn u16s_of(order: Endianness, b: Seq<u8>) -> Seq<u16> {
    Seq::new(b.len() / 2, |k: int| crate::endian::u16_of(order, b.subrange(2 * k, 2 * k + 2)))
}

/// Reads a run of bytes as numbers of the type `u16`.
pub fn read_u16s(order: Endianness, b: &[u8]) -> (list: Vec<u16>)
    requires
        b@.len() % 2 == 0,
    ensures
        list@ == u16s_of(order, b@),
{
    let total: usize = b.len();
    let n: usize = total / 2;
    let mut list: Vec<u16> = Vec::new();
    let mut k: usize = 0;
    while k < n
        invariant
            k <= n,
            total == b@.len(),
            2 * n == total,
            list@.len() == k,
            forall|i: int| 0 <= i < k ==> list@[i] == u16s_of(order, b@)[i],
        decreases n - k,
    {
        list.push(order.read_u16(vstd::slice::slice_subrange(b, 2 * k, 2 * k + 2)));
        k = k + 1;
    }
    assert(list@ =~= u16s_of(order, b@));
    list
}

/// The numbers of the type `i32` that a run of bytes writes, 4 bytes each.
pub open spec fn i32s_of(order: Endianness, b: Seq<u8>) -> Seq<i32> {
    Seq::new(b.len() / 4, |k: int| crate::endian::i32_of(order, b.subrange(4 * k, 4 * k + 4)))
}

/// Reads a run of bytes as numbers of the type `i32`.
pub fn read_i32s(order: Endianness, b: &[u8]) -> (list: Vec<i32>)
    requires
        b@.len() % 4 == 0,
    ensures
        list@ == i32s_of(order, b@),
{
    let total: usize = b.len();
    let n: usize = total / 4;
    let mut list: Vec<i32> = Vec::new();
    let mut k: usize = 0;
    while k < n
        invariant
            k <= n,
            total == b@.len(),
            4 * n == total,
            list@.len() == k,
            forall|i: int| 0 <= i < k ==> list@[i] == i32s_of(order, b@)[i],
        decreases n - k,
    {
        list.push(order.read_i32(vstd::slice::slice_subrange(b, 4 * k, 4 * k + 4)));
        k = k + 1;
    }
    assert(list@ =~= i32s_of(order, b@));
    list
}

/// The numbers of the type `u32` that a run of bytes writes, 4 bytes each.
pub open spec fn u32s_of(order: Endianness, b: Seq<u8>) -> Seq<u32> {
    Seq::new(b.len() / 4, |k: int| crate::endian::u32_of(order, b.subrange(4 * k, 4 * k + 4)))
}

/// Reads a run of bytes as numbers of the type `u32`.
pub fn read_u32s(order: Endianness, b: &[u8]) -> (list: Vec<u32>)
    requires
        b@.len() % 4 == 0,
    ensures
        list@ == u32s_of(order, b@),
{
    let total: usize = b.len();
    let n: usize = total / 4;
    let mut list: Vec<u32> = Vec::new();
    let mut k: usize = 0;
    while k < n
        invariant
            k <= n,
            total == b@.len(),
            4 * n == total,
            list@.len() == k,
            forall|i: int| 0 <= i < k ==> list@[i] == u32s_of(order, b@)[i],
        decreases n - k,
    {
        list.push(order.read_u32(vstd::slice::slice_subrange(b, 4 * k, 4 * k + 4)));
        k = k + 1;
    }
    assert(list@ =~= u32s_of(order, b@));
    list
}

/// The numbers of the type `i64` that a run of bytes writes, 8 bytes each.
pub open spec fn i64s_of(order: Endianness, b: Seq<u8>) -> Seq<i64> {
    Seq::new(b.len() / 8, |k: int| crate::endian::i64_of(order, b.subrange(8 * k, 8 * k + 8)))
}

/// Reads a run of bytes as numbers of the type `i64`.
pub fn read_i64s(order: Endianness, b: &[u8]) -> (list: Vec<i64>)
    requires
        b@.len() % 8 == 0,
    ensures
        list@ == i64s_of(order, b@),
{
    let total: usize = b.len();
    let n: usize = total / 8;
    let mut list: Vec<i64> = Vec::new();
    let mut k: usize = 0;
    while k < n
        invariant
            k <= n,
            total == b@.len(),
            8 * n == total,
            list@.len() == k,
            forall|i: int| 0 <= i < k ==> list@[i] == i64s_of(order, b@)[i],
        decreases n - k,
    {
        list.push(order.read_i64(vstd::slice::slice_subrange(b, 8 * k, 8 * k + 8)));
        k = k + 1;
    }
    assert(list@ =~= i64s_of(order, b@));
    list
}

/// The numbers of the type `u64` that a run of bytes writes, 8 bytes each.
pub open spec fn u64s_of(order: Endianness, b: Seq<u8>) -> Seq<u64> {
    Seq::new(b.len() / 8, |k: int| crate::endian::u64_of(order, b.subrange(8 * k, 8 * k + 8)))
}

/// Reads a run of bytes as numbers of the type `u64`.
pub fn read_u64s(order: Endianness, b: &[u8]) -> (list: Vec<u64>)
    requires
        b@.len() % 8 == 0,
    ensures
        list@ == u64s_of(order, b@),
{
    let total: usize = b.len();
    let n: usize = total / 8;
    let mut list: Vec<u64> = Vec::new();
    let mut k: usize = 0;
    while k < n
        invariant
            k <= n,
            total == b@.len(),
            8 * n == total,
            list@.len() == k,
            forall|i: int| 0 <= i < k ==> list@[i] == u64s_of(order, b@)[i],
        decreases n - k,
    {
        list.push(order.read_u64(vstd::slice::slice_subrange(b, 8 * k, 8 * k + 8)));
        k = k + 1;
    }
    assert(list@ =~= u64s_of(order, b@));
    list
}

/// Reads a run of bytes as tags.
pub fn read_tags(order: Endianness, b: &[u8]) -> (list: Vec<Tag>)
    requires
        b@.len() % 4 == 0,
    ensures
        list@ == tags_of(order, b@),
{
    let total: usize = b.len();
    let n: usize = total / 4;
    let mut list: Vec<Tag> = Vec::new();
    let mut k: usize = 0;
    while k < n
        invariant
            k <= n,
            total == b@.len(),
            4 * n == total,
            list@.len() == k,
            forall|i: int| 0 <= i < k ==> list@[i] == tags_of(order, b@)[i],
        decreases n - k,
    {
        list.push(crate::decode::read_tag(order, vstd::slice::slice_subrange(b, 4 * k, 4 * k + 4)));
        k = k + 1;
    }
    assert(list@ =~= tags_of(order, b@));
    list
}

/// The width of one value of a binary representation, and 1 for the
/// others.
pub open spec fn width_of(vr: VR) -> nat {
    match vr {
        VR::SS | VR::US | VR::OW => 2,
        VR::SL | VR::UL | VR::OL | VR::FL | VR::OF | VR::AT => 4,
        VR::SV | VR::UV | VR::OV | VR::FD | VR::OD => 8,
        _ => 1,
    }
}

/// The primitive value that bytes write under a value representation.
///
/// No bytes are the empty value. Text is read as UTF-8, and parted at the
/// backslashes where the representation holds several values; padding
/// stays. The bytes of a binary representation are numbers of its width in
/// the given byte order, floats in the bits of their IEEE 754 form. Bytes
/// of any other representation stay bytes.
pub open spec fn value_of_wire(vr: VR, b: Seq<u8>, order: Endianness) -> Result<
    PrimitiveModel,
    FromWireError,
> {
    if vr == VR::SQ {
        Err(FromWireError::NotPrimitive)
    } else if b.len() == 0 {
        Ok(PrimitiveModel::Empty)
    } else if vr.textual_spec() {
        match texts_of_runs(if multi_valued(vr) {
            split_runs(b)
        } else {
            seq![b]
        }) {
            Some(list) => Ok(PrimitiveModel::Strs(list)),
            None => Err(FromWireError::InvalidText),
        }
    } else if b.len() % width_of(vr) != 0 {
        Err(FromWireError::BadLength)
    } else {
        Ok(
            match vr {
                VR::SS => PrimitiveModel::I16(i16s_of(order, b)),
                VR::US | VR::OW => PrimitiveModel::U16(u16s_of(order, b)),
                VR::SL => PrimitiveModel::I32(i32s_of(order, b)),
                VR::UL | VR::OL => PrimitiveModel::U32(u32s_of(order, b)),
                VR::SV => PrimitiveModel::I64(i64s_of(order, b)),
                VR::UV | VR::OV => PrimitiveModel::U64(u64s_of(order, b)),
                VR::FL | VR::OF => PrimitiveModel::F32(u32s_of(order, b)),
                VR::FD | VR::OD => PrimitiveModel::F64(u64s_of(order, b)),
                VR::AT => PrimitiveModel::Tags(tags_of(order, b)),
                _ => PrimitiveModel::U8(b),
            },
        )
    }
}

/// Reads the runs between the backslashes of a run of bytes as texts.
pub fn read_texts(b: &[u8], multi: bool) -> (r: Option<Vec<String>>)
    ensures
        match texts_of_runs(if multi {
            split_runs(b@)
        } else {
            seq![b@]
        }) {
            Some(list) => r matches Some(v) && texts(v@) == list,
            None => r is None,
        },
{
    let mut list: Vec<String> = Vec::new();
    let mut start: usize = 0;
    let ghost runs = if multi {
        split_runs(b@)
    } else {
        seq![b@]
    };
    let ghost mut done: Seq<Seq<u8>> = Seq::empty();
    assert(b@.subrange(0, b@.len() as int) =~= b@);
    assert(done + runs =~= runs);
    loop
        invariant
            start <= b@.len(),
            list@.len() == done.len(),
            forall|k: int| 0 <= k < done.len() ==> vstd::utf8::valid_utf8(#[trigger] done[k]),
            forall|k: int|
                0 <= k < done.len() ==> (#[trigger] list@[k])@ == vstd::utf8::decode_utf8(done[k]),
            runs == (if multi {
                split_runs(b@)
            } else {
                seq![b@]
            }),
            runs == done + (if multi {
                split_runs(b@.subrange(start as int, b@.len() as int))
            } else {
                seq![b@]
            }),
            !multi ==> start == 0 && done.len() == 0,
        decreases b@.len() - start,
    {
        let ghost rest = b@.subrange(start as int, b@.len() as int);
        let mut end: usize = start;
        if multi {
            while end < b.len() && b[end] != 0x5C
                invariant
                    start <= end <= b@.len(),
                    rest == b@.subrange(start as int, b@.len() as int),
                    next_backslash(rest, 0) == next_backslash(rest, end - start),
                decreases b@.len() - end,
            {
                end = end + 1;
            }
        } else {
            end = b.len();
        }
        let ghost run = b@.subrange(start as int, end as int);
        let ghost later = b@.subrange(end + 1, b@.len() as int);
        proof {
            if multi {
                lemma_next_backslash(rest, 0);
                lemma_next_backslash(rest, end - start);
                assert(next_backslash(rest, 0) == end - start);
                assert(rest.subrange(0, end - start) =~= run);
                if end < b@.len() {
                    assert(rest.subrange(end - start + 1, rest.len() as int) =~= later);
                    assert(split_runs(rest) == seq![run] + split_runs(later));
                } else {
                    assert(run =~= rest);
                    assert(split_runs(rest) == seq![run]);
                }
            } else {
                assert(run =~= b@);
            }
            assert(runs[done.len() as int] == run);
        }
        let piece: Vec<u8> = vstd::slice::slice_to_vec(vstd::slice::slice_subrange(b, start, end));
        match utf8_text(piece) {
            Some(s) => {
                proof {
                    vstd::utf8::encode_utf8_decode_utf8(s@);
                }
                list.push(s);
            },
            None => {
                return None;
            },
        }
        proof {
            done = done.push(run);
        }
        if !multi || end >= b.len() {
            assert(runs =~= done);
            assert(texts_of_runs(runs) is Some);
            assert(texts(list@) =~= texts_of_runs(runs)->0);
            return Some(list);
        }
        assert(done + split_runs(later) =~= runs);
        start = end + 1;
    }
}

impl PrimitiveValue {
    /// Reads the value that bytes write under a value representation.
    pub fn from_wire(vr: VR, b: &[u8], order: Endianness) -> (r: Result<PrimitiveValue, FromWireError>)
        ensures
            match value_of_wire(vr, b@, order) {
                Ok(model) => r matches Ok(v) && v@ == model,
                Err(e) => r matches Err(x) && x == e,
            },
    {
        if vr.is_sequence() {
            return Err(FromWireError::NotPrimitive);
        }
        if b.len() == 0 {
            return Ok(PrimitiveValue::Empty);
        }
        if vr.is_textual() {
            let multi: bool = match vr {
                VR::LT | VR::ST | VR::UT | VR::UR => false,
                _ => true,
            };
            return match read_texts(b, multi) {
                Some(list) => Ok(PrimitiveValue::Strs(list)),
                None => Err(FromWireError::InvalidText),
            };
        }
        match vr {
            VR::SS => {
                if b.len() % 2 != 0 {
                    return Err(FromWireError::BadLength);
                }
                Ok(PrimitiveValue::I16(read_i16s(order, b)))
            },
            VR::US | VR::OW => {
                if b.len() % 2 != 0 {
                    return Err(FromWireError::BadLength);
                }
                Ok(PrimitiveValue::U16(read_u16s(order, b)))
            },
            VR::SL => {
                if b.len() % 4 != 0 {
                    return Err(FromWireError::BadLength);
                }
                Ok(PrimitiveValue::I32(read_i32s(order, b)))
            },
            VR::UL | VR::OL => {
                if b.len() % 4 != 0 {
                    return Err(FromWireError::BadLength);
                }
                Ok(PrimitiveValue::U32(read_u32s(order, b)))
            },
            VR::FL | VR::OF => {
                if b.len() % 4 != 0 {
                    return Err(FromWireError::BadLength);
                }
                Ok(PrimitiveValue::F32(read_u32s(order, b)))
            },
            VR::AT => {
                if b.len() % 4 != 0 {
                    return Err(FromWireError::BadLength);
                }
                Ok(PrimitiveValue::Tags(read_tags(order, b)))
            },
            VR::SV => {
                if b.len() % 8 != 0 {
                    return Err(FromWireError::BadLength);
                }
                Ok(PrimitiveValue::I64(read_i64s(order, b)))
            },
            VR::UV | VR::OV => {
                if b.len() % 8 != 0 {
                    return Err(FromWireError::BadLength);
                }
                Ok(PrimitiveValue::U64(read_u64s(order, b)))
            },
            VR::FD | VR::OD => {
                if b.len() % 8 != 0 {
                    return Err(FromWireError::BadLength);
                }
                Ok(PrimitiveValue::F64(read_u64s(order, b)))
            },
            _ => Ok(PrimitiveValue::U8(vstd::slice::slice_to_vec(b))),
        }
    }
}

/// The first `n` numbers of the type `i16` that a run of bytes writes are
/// written as the first bytes of the run.
pub proof fn lemma_i16s_round_trip(order: Endianness, b: Seq<u8>, n: nat)
    requires
        2 * n <= b.len(),
    ensures
        i16s_bytes(order, i16s_of(order, b), n) == b.take(2 * n as int),
    decreases n,
{
    if n == 0 {
        assert(b.take(0) =~= Seq::<u8>::empty());
    } else {
        lemma_i16s_round_trip(order, b, (n - 1) as nat);
        let piece = b.subrange(2 * (n as int - 1), 2 * (n as int - 1) + 2);
        crate::endian::lemma_u16_bytes_of(order, piece);
        crate::endian::lemma_signed16(crate::endian::u16_of(order, piece), 0);
        assert(i16s_of(order, b)[n - 1] == crate::endian::i16_of(order, piece));
        assert(b.take(2 * (n as int - 1)) + piece =~= b.take(2 * n as int));
    }
}

/// The first `n` numbers of the type `u16` that a run of bytes writes are
/// written as the first bytes of the run.
pub proof fn lemma_u16s_round_trip(order: Endianness, b: Seq<u8>, n: nat)
    requires
        2 * n <= b.len(),
    ensures
        u16s_bytes(order, u16s_of(order, b), n) == b.take(2 * n as int),
    decreases n,
{
    if n == 0 {
        assert(b.take(0) =~= Seq::<u8>::empty());
    } else {
        lemma_u16s_round_trip(order, b, (n - 1) as nat);
        let piece = b.subrange(2 * (n as int - 1), 2 * (n as int - 1) + 2);
        crate::endian::lemma_u16_bytes_of(order, piece);
        assert(u16s_of(order, b)[n - 1] == crate::endian::u16_of(order, piece));
        assert(b.take(2 * (n as int - 1)) + piece =~= b.take(2 * n as int));
    }
}

/// The first `n` numbers of the type `i32` that a run of bytes writes are
/// written as the first bytes of the run.
pub proof fn lemma_i32s_round_trip(order: Endianness, b: Seq<u8>, n: nat)
    requires
        4 * n <= b.len(),
    ensures
        i32s_bytes(order, i32s_of(order, b), n) == b.take(4 * n as int),
    decreases n,
{
    if n == 0 {
        assert(b.take(0) =~= Seq::<u8>::empty());
    } else {
        lemma_i32s_round_trip(order, b, (n - 1) as nat);
        let piece = b.subrange(4 * (n as int - 1), 4 * (n as int - 1) + 4);
        crate::endian::lemma_u32_bytes_of(order, piece);
        crate::endian::lemma_signed32(crate::endian::u32_of(order, piece), 0);
        assert(i32s_of(order, b)[n - 1] == crate::endian::i32_of(order, piece));
        assert(b.take(4 * (n as int - 1)) + piece =~= b.take(4 * n as int));
    }
}

/// The first `n` numbers of the type `u32` that a run of bytes writes are
/// written as the first bytes of the run.
pub proof fn lemma_u32s_round_trip(order: Endianness, b: Seq<u8>, n: nat)
    requires
        4 * n <= b.len(),
    ensures
        u32s_bytes(order, u32s_of(order, b), n) == b.take(4 * n as int),
    decreases n,
{
    if n == 0 {
        assert(b.take(0) =~= Seq::<u8>::empty());
    } else {
        lemma_u32s_round_trip(order, b, (n - 1) as nat);
        let piece = b.subrange(4 * (n as int - 1), 4 * (n as int - 1) + 4);
        crate::endian::lemma_u32_bytes_of(order, piece);
        assert(u32s_of(order, b)[n - 1] == crate::endian::u32_of(order, piece));
        assert(b.take(4 * (n as int - 1)) + piece =~= b.take(4 * n as int));
    }
}

/// The first `n` numbers of the type `i64` that a run of bytes writes are
/// written as the first bytes of the run.
pub proof fn lemma_i64s_round_trip(order: Endianness, b: Seq<u8>, n: nat)
    requires
        8 * n <= b.len(),
    ensures
        i64s_bytes(order, i64s_of(order, b), n) == b.take(8 * n as int),
    decreases n,
{
    if n == 0 {
        assert(b.take(0) =~= Seq::<u8>::empty());
    } else {
        lemma_i64s_round_trip(order, b, (n - 1) as nat);
        let piece = b.subrange(8 * (n as int - 1), 8 * (n as int - 1) + 8);
        crate::endian::lemma_u64_bytes_of(order, piece);
        crate::endian::lemma_signed64(crate::endian::u64_of(order, piece), 0);
        assert(i64s_of(order, b)[n - 1] == crate::endian::i64_of(order, piece));
        assert(b.take(8 * (n as int - 1)) + piece =~= b.take(8 * n as int));
    }
}

/// The first `n` numbers of the type `u64` that a run of bytes writes are
/// written as the first bytes of the run.
pub proof fn lemma_u64s_round_trip(order: Endianness, b: Seq<u8>, n: nat)
    requires
        8 * n <= b.len(),
    ensures
        u64s_bytes(order, u64s_of(order, b), n) == b.take(8 * n as int),
    decreases n,
{
    if n == 0 {
        assert(b.take(0) =~= Seq::<u8>::empty());
    } else {
        lemma_u64s_round_trip(order, b, (n - 1) as nat);
        let piece = b.subrange(8 * (n as int - 1), 8 * (n as int - 1) + 8);
        crate::endian::lemma_u64_bytes_of(order, piece);
        assert(u64s_of(order, b)[n - 1] == crate::endian::u64_of(order, piece));
        assert(b.take(8 * (n as int - 1)) + piece =~= b.take(8 * n as int));
    }
}

/// The first `n` tags that a run of bytes writes are written as the first
/// bytes of the run.
pub proof fn lemma_tags_round_trip(order: Endianness, b: Seq<u8>, n: nat)
    requires
        4 * n <= b.len(),
    ensures
        tags_bytes(order, tags_of(order, b), n) == b.take(4 * n as int),
    decreases n,
{
    if n == 0 {
        assert(b.take(0) =~= Seq::<u8>::empty());
    } else {
        lemma_tags_round_trip(order, b, (n - 1) as nat);
        let piece = b.subrange(4 * (n as int - 1), 4 * (n as int - 1) + 4);
        crate::endian::lemma_u16_bytes_of(order, piece.subrange(0, 2));
        crate::endian::lemma_u16_bytes_of(order, piece.subrange(2, 4));
        assert(tags_of(order, b)[n - 1] == crate::decode::basic::tag_of(order, piece));
        assert(tag_bytes(order, tags_of(order, b)[n - 1]) =~= piece);
        assert(b.take(4 * (n as int - 1)) + piece =~= b.take(4 * n as int));
    }
}

/// The texts of runs of valid UTF-8, joined with backslashes, are written
/// as the runs joined with backslashes.
pub proof fn lemma_texts_round_trip(runs: Seq<Seq<u8>>, n: nat)
    requires
        n <= runs.len(),
        texts_of_runs(runs) is Some,
    ensures
        joined_text(texts_of_runs(runs)->0, n) == joined_runs(runs, n),
    decreases n,
{
    let list = texts_of_runs(runs)->0;
    if n > 0 {
        lemma_texts_round_trip(runs, (n - 1) as nat);
        assert(vstd::utf8::valid_utf8(runs[n - 1]));
        vstd::utf8::decode_utf8_encode_utf8(runs[n - 1]);
        assert(list[n - 1] == vstd::utf8::decode_utf8(runs[n - 1]));
    }
}

/// A value that is read from bytes is written as the same bytes.
pub proof fn lemma_wire_round_trip(vr: VR, b: Seq<u8>, order: Endianness)
    requires
        value_of_wire(vr, b, order) is Ok,
    ensures
        value_of_wire(vr, b, order)->Ok_0.raw_bytes(order) == b,
{
    let p = value_of_wire(vr, b, order)->Ok_0;
    if b.len() == 0 {
        assert(b =~= Seq::<u8>::empty());
    } else if vr.textual_spec() {
        let runs = if multi_valued(vr) {
            split_runs(b)
        } else {
            seq![b]
        };
        lemma_split_joined(b);
        lemma_texts_round_trip(runs, runs.len());
    } else {
        assert(b.take(b.len() as int) =~= b);
        match vr {
            VR::SS => lemma_i16s_round_trip(order, b, b.len() / 2nat),
            VR::US | VR::OW => lemma_u16s_round_trip(order, b, b.len() / 2nat),
            VR::SL => lemma_i32s_round_trip(order, b, b.len() / 4nat),
            VR::UL | VR::OL | VR::FL | VR::OF => lemma_u32s_round_trip(order, b, b.len() / 4nat),
            VR::SV => lemma_i64s_round_trip(order, b, b.len() / 8nat),
            VR::UV | VR::OV | VR::FD | VR::OD => lemma_u64s_round_trip(order, b, b.len() / 8nat),
            VR::AT => lemma_tags_round_trip(order, b, b.len() / 4nat),
            _ => {},
        }
    }
}

} // verus!

//! Encoding of data element headers: the exact inverse of decoding.

use crate::decode::basic::tag_of;
use crate::decode::{
    explicit_header_of, explicit_vr, implicit_header_of, implicit_vr, item_header_of, Error,
};
use crate::endian::{lemma_u16_of_bytes, lemma_u32_of_bytes, u16_bytes, u32_bytes, Endianness};
use crate::header::{frames_items, is_framing_tag, DataElementHeader, Length};
use crate::tag::Tag;
use crate::vr::{lemma_letters_name, VR};
use vstd::prelude::*;

verus! {

/// The four bytes of a tag: the group, then the element, each in the given
/// byte order.
pub open spec fn tag_bytes(order: Endianness, tag: Tag) -> Seq<u8> {
    u16_bytes(order, tag.0) + u16_bytes(order, tag.1)
}

/// The two bytes of the code of a value representation.
pub open spec fn vr_bytes(vr: VR) -> Seq<u8> {
    seq![vr.letters().0 as u8, vr.letters().1 as u8]
}

/// Whether an explicit encoding can write the header: the length of an
/// element with a short length field must fit in 16 bits.
pub open spec fn explicit_writable(h: DataElementHeader) -> bool {
    is_framing_tag(h.tag) || h.vr.long_length_spec() || h.len.0 <= 0xFFFF
}

/// The bytes of a header in an explicit encoding. An item start or
/// delimiter is written as its tag and a length of 32 bits; any other
/// element with its value representation and, by that, with two reserved
/// bytes of zero and a length of 32 bits, or with a length of 16 bits.
pub open spec fn explicit_header_bytes(order: Endianness, h: DataElementHeader) -> Seq<u8> {
    if is_framing_tag(h.tag) {
        tag_bytes(order, h.tag) + u32_bytes(order, h.len.0)
    } else if h.vr.long_length_spec() {
        tag_bytes(order, h.tag) + vr_bytes(h.vr) + seq![0u8, 0u8] + u32_bytes(order, h.len.0)
    } else {
        tag_bytes(order, h.tag) + vr_bytes(h.vr) + u16_bytes(order, h.len.0 as u16)
    }
}

/// The bytes of a header in the implicit encoding: the tag and a length of
/// 32 bits, in Little Endian.
pub open spec fn implicit_header_bytes(h: DataElementHeader) -> Seq<u8> {
    tag_bytes(Endianness::Little, h.tag) + u32_bytes(Endianness::Little, h.len.0)
}

/// The bytes of an item header: the tag and a length of 32 bits.
pub open spec fn item_header_bytes(order: Endianness, tag: Tag, len: Length) -> Seq<u8> {
    tag_bytes(order, tag) + u32_bytes(order, len.0)
}

/// The failure of an encoding step.
#[derive(Clone, Copy, Debug, PartialEq, Eq, Structural)]
pub enum EncodeError {
    /// The length of an element does not fit in the 16 bits that its value
    /// representation has for it.
    LengthTooLarge {
        /// The tag of the element.
        tag: Tag,
    },
}

/// Appends the four bytes of a tag.
pub fn write_tag(order: Endianness, out: &mut Vec<u8>, tag: Tag)
    ensures
        final(out)@ == old(out)@ + tag_bytes(order, tag),
{
    order.write_u16(out, tag.0);
    order.write_u16(out, tag.1);
    assert(out@ =~= old(out)@ + tag_bytes(order, tag));
}

/// Appends a header in an explicit encoding. Where the header cannot be
/// written, nothing is appended.
pub fn encode_explicit_header(order: Endianness, out: &mut Vec<u8>, h: DataElementHeader) -> (r:
    Result<usize, EncodeError>)
    ensures
        explicit_writable(h) ==> r == Ok::<usize, EncodeError>(
            explicit_header_bytes(order, h).len() as usize,
        ) && final(out)@ == old(out)@ + explicit_header_bytes(order, h),
        !explicit_writable(h) ==> r == Err::<usize, EncodeError>(
            EncodeError::LengthTooLarge { tag: h.tag },
        ) && final(out)@ == old(out)@,
{
    if frames_items(h.tag) {
        write_tag(order, out, h.tag);
        order.write_u32(out, h.len.0);
        assert(out@ =~= old(out)@ + explicit_header_bytes(order, h));
        Ok(8)
    } else if h.vr.has_long_length() {
        write_tag(order, out, h.tag);
        let code: [u8; 2] = h.vr.to_bytes();
        out.push(code[0]);
        out.push(code[1]);
        out.push(0);
        out.push(0);
        order.write_u32(out, h.len.0);
        proof {
            lemma_letter_bytes(h.vr, code[0], code[1]);
        }
        assert(out@ =~= old(out)@ + explicit_header_bytes(order, h));
        Ok(12)
    } else if h.len.0 <= 0xFFFF {
        write_tag(order, out, h.tag);
        let code: [u8; 2] = h.vr.to_bytes();
        out.push(code[0]);
        out.push(code[1]);
        order.write_u16(out, h.len.0 as u16);
        proof {
            lemma_letter_bytes(h.vr, code[0], code[1]);
        }
        assert(out@ =~= old(out)@ + explicit_header_bytes(order, h));
        Ok(8)
    } else {
        Err(EncodeError::LengthTooLarge { tag: h.tag })
    }
}

/// Appends a header in the implicit encoding.
pub fn encode_implicit_header(out: &mut Vec<u8>, h: DataElementHeader) -> (n: usize)
    ensures
        n == 8,
        final(out)@ == old(out)@ + implicit_header_bytes(h),
{
    write_tag(Endianness::Little, out, h.tag);
    Endianness::Little.write_u32(out, h.len.0);
    assert(out@ =~= old(out)@ + implicit_header_bytes(h));
    8
}

/// Appends an item header.
pub fn encode_item_header(order: Endianness, out: &mut Vec<u8>, tag: Tag, len: Length) -> (n: usize)
    ensures
        n == 8,
        final(out)@ == old(out)@ + item_header_bytes(order, tag, len),
{
    write_tag(order, out, tag);
    order.write_u32(out, len.0);
    assert(out@ =~= old(out)@ + item_header_bytes(order, tag, len));
    8
}

/// The two bytes of a code are the letters of the code, which are ASCII.
pub proof fn lemma_letter_bytes(vr: VR, a: u8, b: u8)
    requires
        a as char == vr.letters().0,
        b as char == vr.letters().1,
    ensures
        a == vr.letters().0 as u8,
        b == vr.letters().1 as u8,
        vr_bytes(vr) == seq![a, b],
{
    assert(vr_bytes(vr) =~= seq![a, b]);
}

/// The bytes of a tag are four, and they are read back as the tag.
pub proof fn lemma_tag_bytes(order: Endianness, tag: Tag)
    ensures
        tag_bytes(order, tag).len() == 4,
        tag_of(order, tag_bytes(order, tag)) == tag,
{
    lemma_u16_of_bytes(order, tag.0);
    lemma_u16_of_bytes(order, tag.1);
    let b = tag_bytes(order, tag);
    assert(b.subrange(0, 2) =~= u16_bytes(order, tag.0));
    assert(b.subrange(2, 4) =~= u16_bytes(order, tag.1));
}

/// The two bytes of a code name the value representation again.
pub proof fn lemma_vr_bytes(vr: VR)
    ensures
        vr_bytes(vr).len() == 2,
        explicit_vr(vr_bytes(vr)[0], vr_bytes(vr)[1]) == vr,
{
    lemma_letters_name(vr);
    let a = vr.letters().0;
    let b = vr.letters().1;
    assert((a as u8) as char == a && (b as u8) as char == b);
}

/// A header is read back from its bytes in an explicit encoding, whatever
/// follows them, where it can be written and the value representation of an
/// item start or delimiter is `UN`. The step takes just the bytes of the
/// header, which are eight or twelve.
pub proof fn lemma_explicit_header_round_trip(order: Endianness, h: DataElementHeader, rest: Seq<u8>)
    requires
        explicit_writable(h),
        is_framing_tag(h.tag) ==> h.vr == VR::UN,
    ensures
        explicit_header_of(order, explicit_header_bytes(order, h) + rest) == Ok::<
            (DataElementHeader, usize),
            Error,
        >((h, explicit_header_bytes(order, h).len() as usize)),
        explicit_header_bytes(order, h).len() == 8 || explicit_header_bytes(order, h).len() == 12,
{
    reveal(explicit_header_of);
    let hb = explicit_header_bytes(order, h);
    let b = hb + rest;
    lemma_tag_bytes(order, h.tag);
    lemma_vr_bytes(h.vr);
    lemma_u32_of_bytes(order, h.len.0);
    let t = tag_bytes(order, h.tag);
    if is_framing_tag(h.tag) {
        assert(b.subrange(0, 4) =~= t);
        assert(b.subrange(4, 8) =~= u32_bytes(order, h.len.0));
    } else if h.vr.long_length_spec() {
        assert(b.subrange(0, 4) =~= t);
        assert(b[4] == vr_bytes(h.vr)[0] && b[5] == vr_bytes(h.vr)[1]);
        assert(b.subrange(8, 12) =~= u32_bytes(order, h.len.0));
    } else {
        lemma_u16_of_bytes(order, h.len.0 as u16);
        assert(b.subrange(0, 4) =~= t);
        assert(b[4] == vr_bytes(h.vr)[0] && b[5] == vr_bytes(h.vr)[1]);
        assert(b.subrange(6, 8) =~= u16_bytes(order, h.len.0 as u16));
    }
}

/// A header is read back from its bytes in the implicit encoding, whatever
/// follows them, where its value representation is the one that the
/// encoding gives its tag. The step takes the eight bytes of the header.
pub proof fn lemma_implicit_header_round_trip(
    h: DataElementHeader,
    known: spec_fn(Tag) -> Option<VR>,
    rest: Seq<u8>,
)
    requires
        h.vr == implicit_vr(h.tag, known(h.tag)),
    ensures
        implicit_header_of(implicit_header_bytes(h) + rest, known) == Ok::<
            (DataElementHeader, usize),
            Error,
        >((h, 8usize)),
        implicit_header_bytes(h).len() == 8,
{
    reveal(implicit_header_of);
    let b = implicit_header_bytes(h) + rest;
    lemma_tag_bytes(Endianness::Little, h.tag);
    lemma_u32_of_bytes(Endianness::Little, h.len.0);
    assert(b.subrange(0, 4) =~= tag_bytes(Endianness::Little, h.tag));
    assert(b.subrange(4, 8) =~= u32_bytes(Endianness::Little, h.len.0));
}

/// An item header is read back from its bytes, whatever follows them.
pub proof fn lemma_item_header_round_trip(order: Endianness, tag: Tag, len: Length, rest: Seq<u8>)
    requires
        is_framing_tag(tag),
    ensures
        item_header_of(order, item_header_bytes(order, tag, len) + rest) == Ok::<(Tag, Length), Error>(
            (tag, len),
        ),
        item_header_bytes(order, tag, len).len() == 8,
{
    reveal(item_header_of);
    let b = item_header_bytes(order, tag, len) + rest;
    lemma_tag_bytes(order, tag);
    lemma_u32_of_bytes(order, len.0);
    assert(b.subrange(0, 4) =~= tag_bytes(order, tag));
    assert(b.subrange(4, 8) =~= u32_bytes(order, len.0));
}

} // verus!

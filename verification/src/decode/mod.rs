//! Decoding of data element headers.
//!
//! A header is read in one of three encodings: Implicit VR Little Endian,
//! Explicit VR Little Endian and Explicit VR Big Endian. What each of them
//! reads from a run of bytes is said by a specification function; the
//! decoders are proved to read just that.

use crate::dictionary::{DataDictionary, StandardDataDictionary};
use crate::endian::{u16_of, u32_of, Endianness};
use crate::header::{
    frames_items, is_framing_tag, DataElementHeader, Length, SequenceItemHeader,
    SequenceItemHeaderError,
};
use crate::source::{ByteSource, UnexpectedEnd};
use crate::tag::Tag;
use crate::vr::VR;
use self::basic::tag_of;
use self::explicit_le::ExplicitVRLittleEndianDecoder;
use self::implicit_le::{ImplicitVRLittleEndianDecoder, StandardImplicitVRLittleEndianDecoder};
use vstd::prelude::*;

pub mod basic;
pub mod explicit_be;
pub mod explicit_le;
pub mod implicit_le;

verus! {

/// What can go wrong while a header is decoded.
#[derive(Clone, Copy, Debug, PartialEq, Eq, Structural)]
#[non_exhaustive]
#[allow(inconsistent_fields)]
pub enum Error {
    /// The source ended within the tag at the start of an element header.
    ReadHeaderTag {
        /// How the read failed.
        source: UnexpectedEnd,
    },
    /// The source ended within an item header.
    ReadItemHeader {
        /// How the read failed.
        source: UnexpectedEnd,
    },
    /// The source ended within the length field of an item or delimiter.
    ReadItemLength {
        /// How the read failed.
        source: UnexpectedEnd,
    },
    /// The source ended within a tag.
    ReadTag {
        /// How the read failed.
        source: UnexpectedEnd,
    },
    /// The source ended within the two reserved bytes of a header.
    ReadReserved {
        /// How the read failed.
        source: UnexpectedEnd,
    },
    /// The source ended within the length field of an element header.
    ReadLength {
        /// How the read failed.
        source: UnexpectedEnd,
    },
    /// The source ended within the value representation of a header.
    ReadVr {
        /// How the read failed.
        source: UnexpectedEnd,
    },
    /// The tag of an item header is none of the three that frame items.
    BadSequenceHeader {
        /// Why the header was refused.
        source: SequenceItemHeaderError,
    },
}

/// The result of a decoding step.
pub type Result<T> = std::result::Result<T, Error>;

impl Error {
    /// How the read failed, where the step failed because the bytes ran
    /// out.
    pub open spec fn ended(self) -> Option<UnexpectedEnd> {
        match self {
            Error::ReadHeaderTag { source } => Some(source),
            Error::ReadItemHeader { source } => Some(source),
            Error::ReadItemLength { source } => Some(source),
            Error::ReadTag { source } => Some(source),
            Error::ReadReserved { source } => Some(source),
            Error::ReadLength { source } => Some(source),
            Error::ReadVr { source } => Some(source),
            Error::BadSequenceHeader { .. } => None,
        }
    }

    /// How many bytes more the step needs before it can go on: those that
    /// the read which failed wanted and did not find. None where the step
    /// did not fail for want of bytes.
    pub open spec fn missing_spec(self) -> nat {
        match self.ended() {
            Some(end) => if end.wanted > end.left {
                (end.wanted - end.left) as nat
            } else {
                0
            },
            None => 0,
        }
    }

    /// How many bytes more the step needs before it can go on.
    pub fn missing(&self) -> (n: usize)
        ensures
            n == self.missing_spec(),
    {
        let end: UnexpectedEnd = match self {
            Error::ReadHeaderTag { source } => *source,
            Error::ReadItemHeader { source } => *source,
            Error::ReadItemLength { source } => *source,
            Error::ReadTag { source } => *source,
            Error::ReadReserved { source } => *source,
            Error::ReadLength { source } => *source,
            Error::ReadVr { source } => *source,
            Error::BadSequenceHeader { .. } => {
                return 0;
            },
        };
        if end.wanted > end.left {
            end.wanted - end.left
        } else {
            0
        }
    }
}

/// What a reader that fetches the bytes of a header piece by piece does
/// next.
#[derive(Clone, Copy, Debug, PartialEq, Eq, Structural)]
pub enum Step<T> {
    /// The step is decoded: this is what it gave.
    Done(T),
    /// So many bytes more are to be fetched, and the step decoded again
    /// from all that was fetched.
    Fetch(usize),
    /// The step has failed, and more bytes would not mend it.
    Fail(Error),
}

/// What a reader does next, by what came of decoding the bytes that it has
/// fetched so far: it is done where they were decoded, it fetches the bytes
/// that are missing where they ran out, and it fails on any other error.
pub open spec fn step_of<T>(decoded: Result<T>) -> Step<T> {
    match decoded {
        Ok(v) => Step::Done(v),
        Err(e) => if e.missing_spec() > 0 {
            Step::Fetch(e.missing_spec() as usize)
        } else {
            Step::Fail(e)
        },
    }
}

/// Says what a reader does next, by what came of decoding the bytes that it
/// has fetched so far.
pub fn next_step<T>(decoded: Result<T>) -> (s: Step<T>)
    ensures
        s == step_of(decoded),
{
    match decoded {
        Ok(v) => Step::Done(v),
        Err(e) => {
            let n: usize = e.missing();
            if n > 0 {
                Step::Fetch(n)
            } else {
                Step::Fail(e)
            }
        },
    }
}

/// A header in an explicit encoding that is not decoded is short of bytes,
/// and with those that are missing it has twelve at most: a reader that
/// fetches what is missing comes to an end.
pub proof fn lemma_explicit_header_fetches(order: Endianness, b: Seq<u8>)
    requires
        explicit_header_of(order, b) is Err,
    ensures
        explicit_header_of(order, b)->Err_0.missing_spec() > 0,
        b.len() + explicit_header_of(order, b)->Err_0.missing_spec() <= 12,
{
    reveal(explicit_header_of);
}

/// A header in the implicit encoding that is not decoded is short of bytes,
/// and with those that are missing it has eight at most.
pub proof fn lemma_implicit_header_fetches(b: Seq<u8>, known: spec_fn(Tag) -> Option<VR>)
    requires
        implicit_header_of(b, known) is Err,
    ensures
        implicit_header_of(b, known)->Err_0.missing_spec() > 0,
        b.len() + implicit_header_of(b, known)->Err_0.missing_spec() <= 8,
{
    reveal(implicit_header_of);
}

/// An item header that is not decoded for want of bytes has eight with
/// those that are missing.
pub proof fn lemma_item_header_fetches(order: Endianness, b: Seq<u8>)
    requires
        b.len() < 8,
    ensures
        item_header_of(order, b) is Err,
        b.len() + item_header_of(order, b)->Err_0.missing_spec() == 8,
{
    reveal(item_header_of);
}

/// The failure of a read of `wanted` bytes at the place `at` of `total`
/// bytes.
pub open spec fn short_by(wanted: nat, total: nat, at: nat) -> UnexpectedEnd {
    UnexpectedEnd { wanted: wanted as usize, left: (total - at) as usize }
}

/// The value representation that two bytes of an explicit header name;
/// bytes that name none stand for `UN`.
pub open spec fn explicit_vr(a: u8, b: u8) -> VR {
    match VR::of_bytes(a, b) {
        Some(vr) => vr,
        None => VR::UN,
    }
}

/// What an explicit encoding reads as the header of an element at the start
/// of `b`: the header and the number of bytes that it takes, or the field
/// at which the bytes run out.
///
/// The tag comes first. An item start or delimiter has a length of 32 bits
/// right after it and the representation `UN`. Any other element names its
/// value representation in two letters; one with a long length field has
/// two reserved bytes and a length of 32 bits, the others a length of 16
/// bits.
#[verifier::opaque]
pub open spec fn explicit_header_of(order: Endianness, b: Seq<u8>) -> Result<
    (DataElementHeader, usize),
> {
    if b.len() < 4 {
        Err(Error::ReadHeaderTag { source: short_by(4, b.len(), 0) })
    } else {
        let tag = tag_of(order, b.subrange(0, 4));
        if is_framing_tag(tag) {
            if b.len() < 8 {
                Err(Error::ReadItemLength { source: short_by(4, b.len(), 4) })
            } else {
                Ok(
                    (
                        DataElementHeader {
                            tag,
                            vr: VR::UN,
                            len: Length(u32_of(order, b.subrange(4, 8))),
                        },
                        8usize,
                    ),
                )
            }
        } else if b.len() < 6 {
            Err(Error::ReadVr { source: short_by(2, b.len(), 4) })
        } else {
            let vr = explicit_vr(b[4], b[5]);
            if vr.long_length_spec() {
                if b.len() < 8 {
                    Err(Error::ReadReserved { source: short_by(2, b.len(), 6) })
                } else if b.len() < 12 {
                    Err(Error::ReadLength { source: short_by(4, b.len(), 8) })
                } else {
                    Ok(
                        (
                            DataElementHeader {
                                tag,
                                vr,
                                len: Length(u32_of(order, b.subrange(8, 12))),
                            },
                            12usize,
                        ),
                    )
                }
            } else if b.len() < 8 {
                Err(Error::ReadLength { source: short_by(2, b.len(), 6) })
            } else {
                Ok(
                    (
                        DataElementHeader {
                            tag,
                            vr,
                            len: Length(u16_of(order, b.subrange(6, 8)) as u32),
                        },
                        8usize,
                    ),
                )
            }
        }
    }
}

/// What any of the encodings reads as an item header at the start of `b`:
/// a tag and a length of 32 bits, where the tag is one of the three that
/// frame items.
#[verifier::opaque]
pub open spec fn item_header_of(order: Endianness, b: Seq<u8>) -> Result<(Tag, Length)> {
    if b.len() < 8 {
        Err(Error::ReadItemHeader { source: short_by(8, b.len(), 0) })
    } else {
        let tag = tag_of(order, b.subrange(0, 4));
        if is_framing_tag(tag) {
            Ok((tag, Length(u32_of(order, b.subrange(4, 8)))))
        } else {
            Err(
                Error::BadSequenceHeader { source: SequenceItemHeaderError::UnexpectedTag { tag } },
            )
        }
    }
}

/// What any of the encodings reads as a tag at the start of `b`.
pub open spec fn plain_tag_of(order: Endianness, b: Seq<u8>) -> Result<Tag> {
    if b.len() < 4 {
        Err(Error::ReadTag { source: short_by(4, b.len(), 0) })
    } else {
        Ok(tag_of(order, b.subrange(0, 4)))
    }
}

/// What the implicit encoding reads as the header of an element at the
/// start of `b`, where `known` is what the dictionary holds for the tag: a
/// tag and a length of 32 bits. The representation is `UN` for every tag of
/// the group `FFFE` and for a tag that the dictionary does not know.
#[verifier::opaque]
pub open spec fn implicit_header_of(b: Seq<u8>, known: spec_fn(Tag) -> Option<VR>) -> Result<
    (DataElementHeader, usize),
> {
    if b.len() < 4 {
        Err(Error::ReadHeaderTag { source: short_by(4, b.len(), 0) })
    } else if b.len() < 8 {
        Err(Error::ReadLength { source: short_by(4, b.len(), 4) })
    } else {
        let tag = tag_of(Endianness::Little, b.subrange(0, 4));
        Ok(
            (
                DataElementHeader {
                    tag,
                    vr: implicit_vr(tag, known(tag)),
                    len: Length(u32_of(Endianness::Little, b.subrange(4, 8))),
                },
                8usize,
            ),
        )
    }
}

/// The value representation that the implicit encoding gives an element.
pub open spec fn implicit_vr(tag: Tag, known: Option<VR>) -> VR {
    if tag.0 == 0xFFFE {
        VR::UN
    } else {
        match known {
            Some(vr) => vr,
            None => VR::UN,
        }
    }
}

/// How a decoding step moves the source: a step that succeeds takes the
/// bytes that it read, one that fails takes none.
pub open spec fn moves<'a>(before: ByteSource<'a>, after: ByteSource<'a>, taken: Option<usize>) -> bool {
    match taken {
        Some(n) => n <= before.rest().len() && after.follows(before, n as nat),
        None => after == before,
    }
}

/// The number of bytes that a decoded header took.
pub open spec fn taken_by_header(r: Result<(DataElementHeader, usize)>) -> Option<usize> {
    match r {
        Ok((_, n)) => Some(n),
        Err(_) => None,
    }
}

/// The number of bytes that a step took which reads `n` bytes when it
/// succeeds.
pub open spec fn taken_if_ok<T>(r: Result<T>, n: usize) -> Option<usize> {
    match r {
        Ok(_) => Some(n),
        Err(_) => None,
    }
}

/// Reading of data element headers in one transfer syntax.
pub trait Decode {
    /// What the decoder reads as an element header at the start of `b`.
    spec fn header_at(&self, b: Seq<u8>) -> Result<(DataElementHeader, usize)>;

    /// The byte order of the transfer syntax.
    spec fn byte_order(&self) -> Endianness;

    /// Reads the header of the next data element and says how many bytes it
    /// took. The source then stands at the value of the element. An item
    /// start or delimiter is read as a header with the representation `UN`.
    /// Where the step fails the source stays as it was.
    fn decode_header(&self, source: &mut ByteSource) -> (r: Result<(DataElementHeader, usize)>)
        ensures
            r == self.header_at(old(source).rest()),
            moves(*old(source), *final(source), taken_by_header(r)),
    ;

    /// Reads the header of the next sequence item or delimiter: a tag and a
    /// length, with no value representation in any encoding. The source
    /// then stands at the data of the item. Where the step fails the source
    /// stays as it was.
    fn decode_item_header(&self, source: &mut ByteSource) -> (r: Result<SequenceItemHeader>)
        ensures
            match item_header_of(self.byte_order(), old(source).rest()) {
                Ok((tag, len)) => r matches Ok(h) && h.tag_spec() == tag && h.len_spec() == len,
                Err(e) => r == Err::<SequenceItemHeader, Error>(e),
            },
            moves(*old(source), *final(source), taken_if_ok(r, 8)),
    ;

    /// Reads a tag. Where the step fails the source stays as it was.
    fn decode_tag(&self, source: &mut ByteSource) -> (r: Result<Tag>)
        ensures
            r == plain_tag_of(self.byte_order(), old(source).rest()),
            moves(*old(source), *final(source), taken_if_ok(r, 4)),
    ;
}

/// A boxed decoder reads as the decoder in the box does.
impl<T: Decode> Decode for Box<T> {
    open spec fn header_at(&self, b: Seq<u8>) -> Result<(DataElementHeader, usize)> {
        (**self).header_at(b)
    }

    open spec fn byte_order(&self) -> Endianness {
        (**self).byte_order()
    }

    fn decode_header(&self, source: &mut ByteSource) -> (r: Result<(DataElementHeader, usize)>) {
        (**self).decode_header(source)
    }

    fn decode_item_header(&self, source: &mut ByteSource) -> (r: Result<SequenceItemHeader>) {
        (**self).decode_item_header(source)
    }

    fn decode_tag(&self, source: &mut ByteSource) -> (r: Result<Tag>) {
        (**self).decode_tag(source)
    }
}

/// A borrowed decoder reads as the decoder itself does.
impl<'a, T: Decode> Decode for &'a T {
    open spec fn header_at(&self, b: Seq<u8>) -> Result<(DataElementHeader, usize)> {
        (**self).header_at(b)
    }

    open spec fn byte_order(&self) -> Endianness {
        (**self).byte_order()
    }

    fn decode_header(&self, source: &mut ByteSource) -> (r: Result<(DataElementHeader, usize)>) {
        (**self).decode_header(source)
    }

    fn decode_item_header(&self, source: &mut ByteSource) -> (r: Result<SequenceItemHeader>) {
        (**self).decode_item_header(source)
    }

    fn decode_tag(&self, source: &mut ByteSource) -> (r: Result<Tag>) {
        (**self).decode_tag(source)
    }
}

/// Reads four bytes as a tag.
pub fn read_tag(order: Endianness, b: &[u8]) -> (t: Tag)
    requires
        b@.len() == 4,
    ensures
        t == tag_of(order, b@),
{
    let g: u16 = order.read_u16(vstd::slice::slice_subrange(b, 0, 2));
    let e: u16 = order.read_u16(vstd::slice::slice_subrange(b, 2, 4));
    Tag(g, e)
}

/// Reads the header of an element from the start of `b` in an explicit
/// encoding, without a source.
pub fn explicit_header(order: Endianness, b: &[u8]) -> (r: Result<(DataElementHeader, usize)>)
    ensures
        r == explicit_header_of(order, b@),
        r matches Ok((_, n)) ==> (n == 8 || n == 12) && n <= b@.len(),
{
    reveal(explicit_header_of);
    let total: usize = b.len();
    if total < 4 {
        return Err(Error::ReadHeaderTag { source: UnexpectedEnd { wanted: 4, left: total } });
    }
    let tag: Tag = read_tag(order, vstd::slice::slice_subrange(b, 0, 4));
    if frames_items(tag) {
        if total < 8 {
            return Err(
                Error::ReadItemLength { source: UnexpectedEnd { wanted: 4, left: total - 4 } },
            );
        }
        let len: u32 = order.read_u32(vstd::slice::slice_subrange(b, 4, 8));
        return Ok((DataElementHeader { tag, vr: VR::UN, len: Length(len) }, 8));
    }
    if total < 6 {
        return Err(Error::ReadVr { source: UnexpectedEnd { wanted: 2, left: total - 4 } });
    }
    let vr: VR = match VR::from_binary([b[4], b[5]]) {
        Some(vr) => vr,
        None => VR::UN,
    };
    if vr.has_long_length() {
        if total < 8 {
            return Err(
                Error::ReadReserved { source: UnexpectedEnd { wanted: 2, left: total - 6 } },
            );
        }
        if total < 12 {
            return Err(Error::ReadLength { source: UnexpectedEnd { wanted: 4, left: total - 8 } });
        }
        let len: u32 = order.read_u32(vstd::slice::slice_subrange(b, 8, 12));
        Ok((DataElementHeader { tag, vr, len: Length(len) }, 12))
    } else {
        if total < 8 {
            return Err(Error::ReadLength { source: UnexpectedEnd { wanted: 2, left: total - 6 } });
        }
        let len: u16 = order.read_u16(vstd::slice::slice_subrange(b, 6, 8));
        Ok((DataElementHeader { tag, vr, len: Length(len as u32) }, 8))
    }
}

/// Reads the header of an element from the start of `b` in the implicit
/// encoding, without a source.
pub fn implicit_header<D: DataDictionary>(dict: &D, b: &[u8]) -> (r: Result<
    (DataElementHeader, usize),
>)
    ensures
        r == implicit_header_of(b@, |t: Tag| dict.vr_of(t)),
        r matches Ok((_, n)) ==> n == 8 && n <= b@.len(),
{
    reveal(implicit_header_of);
    let total: usize = b.len();
    if total < 4 {
        return Err(Error::ReadHeaderTag { source: UnexpectedEnd { wanted: 4, left: total } });
    }
    if total < 8 {
        return Err(Error::ReadLength { source: UnexpectedEnd { wanted: 4, left: total - 4 } });
    }
    let tag: Tag = read_tag(Endianness::Little, vstd::slice::slice_subrange(b, 0, 4));
    let len: u32 = Endianness::Little.read_u32(vstd::slice::slice_subrange(b, 4, 8));
    let vr: VR = if tag.0 == 0xFFFE {
        VR::UN
    } else {
        match dict.by_tag(tag) {
            Some(vr) => vr,
            None => VR::UN,
        }
    };
    Ok((DataElementHeader { tag, vr, len: Length(len) }, 8))
}

/// Reads the header of an item or delimiter from the start of `b`, without
/// a source.
pub fn item_header(order: Endianness, b: &[u8]) -> (r: Result<SequenceItemHeader>)
    ensures
        match item_header_of(order, b@) {
            Ok((tag, len)) => r matches Ok(h) && h.tag_spec() == tag && h.len_spec() == len,
            Err(e) => r == Err::<SequenceItemHeader, Error>(e),
        },
        r is Ok ==> 8 <= b@.len(),
{
    reveal(item_header_of);
    let total: usize = b.len();
    if total < 8 {
        return Err(Error::ReadItemHeader { source: UnexpectedEnd { wanted: 8, left: total } });
    }
    let tag: Tag = read_tag(order, vstd::slice::slice_subrange(b, 0, 4));
    let len: u32 = order.read_u32(vstd::slice::slice_subrange(b, 4, 8));
    match SequenceItemHeader::new(tag, Length(len)) {
        Ok(h) => Ok(h),
        Err(e) => Err(Error::BadSequenceHeader { source: e }),
    }
}

/// Reads a tag from the start of `b`, without a source.
pub fn plain_tag(order: Endianness, b: &[u8]) -> (r: Result<Tag>)
    ensures
        r == plain_tag_of(order, b@),
{
    let total: usize = b.len();
    if total < 4 {
        return Err(Error::ReadTag { source: UnexpectedEnd { wanted: 4, left: total } });
    }
    Ok(read_tag(order, vstd::slice::slice_subrange(b, 0, 4)))
}

/// The decoder that data sets are read with where nothing else is said:
/// Implicit VR Little Endian, with the built-in dictionary.
pub fn default_reader() -> (d: StandardImplicitVRLittleEndianDecoder)
    ensures
        d.byte_order() == Endianness::Little,
        forall|b: Seq<u8>| #[trigger]
            d.header_at(b) == implicit_header_of(b, |t: Tag| StandardDataDictionary.vr_of(t)),
{
    ImplicitVRLittleEndianDecoder::default()
}

/// The decoder for the meta information at the head of a file, which is
/// always written in Explicit VR Little Endian.
pub fn file_header_decoder() -> (d: ExplicitVRLittleEndianDecoder)
    ensures
        d.byte_order() == Endianness::Little,
        forall|b: Seq<u8>| #[trigger]
            d.header_at(b) == explicit_header_of(Endianness::Little, b),
{
    ExplicitVRLittleEndianDecoder::default()
}

} // verus!

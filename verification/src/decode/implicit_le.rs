//! Decoding of headers in Implicit VR Little Endian.

use crate::decode::{implicit_header, implicit_header_of, item_header, plain_tag, Decode, Result};
use crate::dictionary::{DataDictionary, StandardDataDictionary, StubDataDictionary};
use crate::endian::Endianness;
use crate::header::{DataElementHeader, SequenceItemHeader};
use crate::source::ByteSource;
use crate::tag::Tag;
use crate::vr::VR;
use vstd::prelude::*;

verus! {

/// A decoder of element headers in Implicit VR Little Endian. The headers
/// of this encoding name no value representation: the decoder looks each
/// tag up in its dictionary.
#[derive(Clone, Copy, Debug)]
pub struct ImplicitVRLittleEndianDecoder<D> {
    dict: D,
}

/// The implicit decoder with a dictionary that knows no attribute.
pub type StubImplicitVRLittleEndianDecoder = ImplicitVRLittleEndianDecoder<StubDataDictionary>;

/// The implicit decoder with the built-in dictionary.
pub type StandardImplicitVRLittleEndianDecoder = ImplicitVRLittleEndianDecoder<
    StandardDataDictionary,
>;

impl<D: DataDictionary> ImplicitVRLittleEndianDecoder<D> {
    /// The dictionary of the decoder.
    pub closed spec fn dictionary(&self) -> D {
        self.dict
    }

    /// A decoder that looks tags up in `dictionary`.
    pub fn with_dict(dictionary: D) -> (d: ImplicitVRLittleEndianDecoder<D>)
        ensures
            d.dictionary() == dictionary,
    {
        ImplicitVRLittleEndianDecoder { dict: dictionary }
    }
}

impl Default for ImplicitVRLittleEndianDecoder<StandardDataDictionary> {
    fn default() -> (d: ImplicitVRLittleEndianDecoder<StandardDataDictionary>)
        ensures
            d.byte_order() == Endianness::Little,
            forall|b: Seq<u8>| #[trigger]
                d.header_at(b) == implicit_header_of(b, |t: Tag| StandardDataDictionary.vr_of(t)),
    {
        ImplicitVRLittleEndianDecoder { dict: StandardDataDictionary }
    }
}

impl Default for ImplicitVRLittleEndianDecoder<StubDataDictionary> {
    fn default() -> (d: ImplicitVRLittleEndianDecoder<StubDataDictionary>)
        ensures
            d.byte_order() == Endianness::Little,
            forall|b: Seq<u8>| #[trigger]
                d.header_at(b) == implicit_header_of(b, |t: Tag| None::<VR>),
    {
        let d = ImplicitVRLittleEndianDecoder { dict: StubDataDictionary };
        assert forall|b: Seq<u8>| #[trigger]
            d.header_at(b) == implicit_header_of(b, |t: Tag| None::<VR>) by {
            assert((|t: Tag| StubDataDictionary.vr_of(t)) =~= (|t: Tag| None::<VR>));
        }
        d
    }
}

impl<D: DataDictionary> Decode for ImplicitVRLittleEndianDecoder<D> {
    open spec fn header_at(&self, b: Seq<u8>) -> Result<(DataElementHeader, usize)> {
        implicit_header_of(b, |t: Tag| self.dictionary().vr_of(t))
    }

    open spec fn byte_order(&self) -> Endianness {
        Endianness::Little
    }

    fn decode_header(&self, source: &mut ByteSource) -> (r: Result<(DataElementHeader, usize)>) {
        let r = implicit_header(&self.dict, source.ahead());
        if let Ok((_, n)) = r {
            source.skip(n);
        }
        r
    }

    fn decode_item_header(&self, source: &mut ByteSource) -> (r: Result<SequenceItemHeader>) {
        let r = item_header(Endianness::Little, source.ahead());
        if r.is_ok() {
            source.skip(8);
        }
        r
    }

    fn decode_tag(&self, source: &mut ByteSource) -> (r: Result<Tag>) {
        let r = plain_tag(Endianness::Little, source.ahead());
        if r.is_ok() {
            source.skip(4);
        }
        r
    }
}

} // verus!

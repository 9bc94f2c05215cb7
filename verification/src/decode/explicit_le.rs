//! Decoding of headers in Explicit VR Little Endian.

use crate::decode::basic::{BasicDecode, LittleEndianBasicDecoder};
use crate::decode::{explicit_header, explicit_header_of, item_header, plain_tag, Decode, Result};
use crate::endian::Endianness;
use crate::header::{DataElementHeader, SequenceItemHeader};
use crate::source::ByteSource;
use crate::tag::Tag;
use vstd::prelude::*;

verus! {

/// A decoder of element headers in Explicit VR Little Endian.
#[derive(Clone, Copy, Debug, PartialEq, Eq, Structural)]
pub struct ExplicitVRLittleEndianDecoder {
    basic: LittleEndianBasicDecoder,
}

impl Default for ExplicitVRLittleEndianDecoder {
    fn default() -> (d: ExplicitVRLittleEndianDecoder)
        ensures
            d.byte_order() == Endianness::Little,
            forall|b: Seq<u8>| #[trigger] d.header_at(b) == explicit_header_of(Endianness::Little, b),
    {
        ExplicitVRLittleEndianDecoder { basic: LittleEndianBasicDecoder }
    }
}

impl Decode for ExplicitVRLittleEndianDecoder {
    open spec fn header_at(&self, b: Seq<u8>) -> Result<(DataElementHeader, usize)> {
        explicit_header_of(Endianness::Little, b)
    }

    open spec fn byte_order(&self) -> Endianness {
        Endianness::Little
    }

    fn decode_header(&self, source: &mut ByteSource) -> (r: Result<(DataElementHeader, usize)>) {
        let r = explicit_header(self.basic.endianness(), source.ahead());
        if let Ok((_, n)) = r {
            source.skip(n);
        }
        r
    }

    fn decode_item_header(&self, source: &mut ByteSource) -> (r: Result<SequenceItemHeader>) {
        let r = item_header(self.basic.endianness(), source.ahead());
        if r.is_ok() {
            source.skip(8);
        }
        r
    }

    fn decode_tag(&self, source: &mut ByteSource) -> (r: Result<Tag>) {
        let r = plain_tag(self.basic.endianness(), source.ahead());
        if r.is_ok() {
            source.skip(4);
        }
        r
    }
}

} // verus!

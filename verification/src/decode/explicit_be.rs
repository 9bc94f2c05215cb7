//! Decoding of headers in Explicit VR Big Endian.

use crate::decode::basic::{BasicDecode, BigEndianBasicDecoder};
use crate::decode::{explicit_header, explicit_header_of, item_header, plain_tag, Decode, Result};
use crate::endian::Endianness;
use crate::header::{DataElementHeader, SequenceItemHeader};
use crate::source::ByteSource;
use crate::tag::Tag;
use vstd::prelude::*;

verus! {

/// A decoder of element headers in Explicit VR Big Endian.
#[derive(Clone, Copy, Debug, PartialEq, Eq, Structural)]
pub struct ExplicitVRBigEndianDecoder {
    basic: BigEndianBasicDecoder,
}

impl Default for ExplicitVRBigEndianDecoder {
    fn default() -> (d: ExplicitVRBigEndianDecoder)
        ensures
            d.byte_order() == Endianness::Big,
            forall|b: Seq<u8>| #[trigger] d.header_at(b) == explicit_header_of(Endianness::Big, b),
    {
        ExplicitVRBigEndianDecoder { basic: BigEndianBasicDecoder }
    }
}

impl Decode for ExplicitVRBigEndianDecoder {
    open spec fn header_at(&self, b: Seq<u8>) -> Result<(DataElementHeader, usize)> {
        explicit_header_of(Endianness::Big, b)
    }

    open spec fn byte_order(&self) -> Endianness {
        Endianness::Big
    }

    fn decode_header(&self, source: &mut ByteSource) -> (r: Result<(DataElementHeader, usize)>) {
        let r = explicit_header(self.basic.endianness(), source.ahead());
        if let Ok((_, n)) = r {
            source.skip(n);
        }
        r
    }

    fn decode_item_header(&self, source: &mut ByteSource) -> (r: Result<SequenceItemHeader>) {
        let r = item_header(self.basic.endianness(), source.ahead());
        if r.is_ok() {
            source.skip(8);
        }
        r
    }

    fn decode_tag(&self, source: &mut ByteSource) -> (r: Result<Tag>) {
        let r = plain_tag(self.basic.endianness(), source.ahead());
        if r.is_ok() {
            source.skip(4);
        }
        r
    }
}

} // verus!

//! Lengths and the headers of data elements and sequence items.

use crate::tag::Tag;
use crate::vr::VR;
use vstd::prelude::*;

verus! {

/// The length field of a header: a number of bytes, or the mark
/// `0xFFFF_FFFF`, which says that the length is undefined and that a
/// delimiter ends the value.
#[derive(Clone, Copy, Debug, PartialEq, Eq, Structural, Hash)]
pub struct Length(pub u32);

impl Length {
    /// Whether this is the mark of an undefined length.
    pub open spec fn undefined_spec(self) -> bool {
        self.0 == 0xFFFF_FFFFu32
    }

    /// The undefined length.
    pub fn undefined() -> (l: Length)
        ensures
            l == Length(0xFFFF_FFFF),
            l.undefined_spec(),
    {
        Length(0xFFFF_FFFF)
    }

    /// A length of `len` bytes.
    pub fn defined(len: u32) -> (l: Length)
        requires
            len != 0xFFFF_FFFFu32,
        ensures
            l == Length(len),
            !l.undefined_spec(),
    {
        Length(len)
    }

    /// Whether the length is undefined.
    pub fn is_undefined(self) -> (b: bool)
        ensures
            b == self.undefined_spec(),
    {
        self.0 == 0xFFFF_FFFF
    }

    /// Whether the length is a number of bytes.
    pub fn is_defined(self) -> (b: bool)
        ensures
            b == !self.undefined_spec(),
    {
        self.0 != 0xFFFF_FFFF
    }

    /// The number of bytes, where the length is defined.
    pub fn get(self) -> (n: Option<u32>)
        ensures
            n == (if self.undefined_spec() {
                None
            } else {
                Some(self.0)
            }),
    {
        if self.0 == 0xFFFF_FFFF {
            None
        } else {
            Some(self.0)
        }
    }
}

/// Whether `tag` is the item start `(FFFE,E000)`.
pub open spec fn is_item_tag(tag: Tag) -> bool {
    tag == Tag(0xFFFE, 0xE000)
}

/// Whether `tag` is the item delimiter `(FFFE,E00D)`.
pub open spec fn is_item_delimiter_tag(tag: Tag) -> bool {
    tag == Tag(0xFFFE, 0xE00D)
}

/// Whether `tag` is the sequence delimiter `(FFFE,E0DD)`.
pub open spec fn is_sequence_delimiter_tag(tag: Tag) -> bool {
    tag == Tag(0xFFFE, 0xE0DD)
}

/// Whether `tag` is one of the three tags that frame the items of a
/// sequence.
pub open spec fn is_framing_tag(tag: Tag) -> bool {
    is_item_tag(tag) || is_item_delimiter_tag(tag) || is_sequence_delimiter_tag(tag)
}

/// Whether `tag` is one of the three tags that frame the items of a
/// sequence.
pub fn frames_items(tag: Tag) -> (b: bool)
    ensures
        b == is_framing_tag(tag),
{
    tag.0 == 0xFFFE && (tag.1 == 0xE000 || tag.1 == 0xE00D || tag.1 == 0xE0DD)
}

/// The header of a data element: its tag, its value representation and the
/// length of its value. For the item and sequence delimiters the value
/// representation is `UN`.
#[derive(Clone, Copy, Debug, PartialEq, Eq, Structural)]
pub struct DataElementHeader {
    /// The tag of the element.
    pub tag: Tag,
    /// The value representation of the element.
    pub vr: VR,
    /// The length of the value.
    pub len: Length,
}

impl DataElementHeader {
    /// A header of the three given parts.
    pub fn new(tag: Tag, vr: VR, len: Length) -> (h: DataElementHeader)
        ensures
            h == (DataElementHeader { tag, vr, len }),
    {
        DataElementHeader { tag, vr, len }
    }

    /// The tag of the element.
    pub fn tag(&self) -> (t: Tag)
        ensures
            t == self.tag,
    {
        self.tag
    }

    /// The value representation of the element.
    pub fn vr(&self) -> (vr: VR)
        ensures
            vr == self.vr,
    {
        self.vr
    }

    /// The length of the value.
    pub fn length(&self) -> (l: Length)
        ensures
            l == self.len,
    {
        self.len
    }

    /// Whether the header starts an item.
    pub fn is_item(&self) -> (b: bool)
        ensures
            b == is_item_tag(self.tag),
    {
        self.tag.0 == 0xFFFE && self.tag.1 == 0xE000
    }

    /// Whether the header ends an item.
    pub fn is_item_delimiter(&self) -> (b: bool)
        ensures
            b == is_item_delimiter_tag(self.tag),
    {
        self.tag.0 == 0xFFFE && self.tag.1 == 0xE00D
    }

    /// Whether the header ends a sequence.
    pub fn is_sequence_delimiter(&self) -> (b: bool)
        ensures
            b == is_sequence_delimiter_tag(self.tag),
    {
        self.tag.0 == 0xFFFE && self.tag.1 == 0xE0DD
    }

    /// Whether the header is that of pixel data in encapsulated form: the
    /// element `(7FE0,0010)` with representation `OB` and undefined length.
    pub open spec fn encapsulated_pixel_data_spec(&self) -> bool {
        self.tag == Tag(0x7FE0, 0x0010) && self.vr == VR::OB && self.len.undefined_spec()
    }

    /// Whether the header is that of pixel data in encapsulated form.
    pub fn is_encapsulated_pixel_data(&self) -> (b: bool)
        ensures
            b == self.encapsulated_pixel_data_spec(),
    {
        self.tag.0 == 0x7FE0 && self.tag.1 == 0x0010 && is_ob(self.vr) && self.len.is_undefined()
    }
}

/// Whether `vr` is `OB`.
fn is_ob(vr: VR) -> (b: bool)
    ensures
        b == (vr == VR::OB),
{
    match vr {
        VR::OB => true,
        _ => false,
    }
}

/// Why a tag and a length make no sequence item header.
#[derive(Clone, Copy, Debug, PartialEq, Eq, Structural)]
pub enum SequenceItemHeaderError {
    /// The tag is none of the item start, the item delimiter and the
    /// sequence delimiter.
    UnexpectedTag {
        /// The tag that was found.
        tag: Tag,
    },
}

/// The header of a sequence item, of the delimiter that ends an item, or of
/// the delimiter that ends a sequence.
///
/// The tag of such a header is always one of `(FFFE,E000)`, `(FFFE,E00D)`
/// and `(FFFE,E0DD)`.
#[derive(Clone, Copy, Debug, PartialEq, Eq, Structural)]
pub struct SequenceItemHeader {
    tag: Tag,
    len: Length,
}

impl SequenceItemHeader {
    /// The tag of the header.
    pub closed spec fn tag_spec(self) -> Tag {
        self.tag
    }

    /// The length of the header.
    pub closed spec fn len_spec(self) -> Length {
        self.len
    }

    #[verifier::type_invariant]
    closed spec fn framed(self) -> bool {
        is_framing_tag(self.tag)
    }

    /// A header is known by its tag and its length.
    pub proof fn lemma_same(self, other: SequenceItemHeader)
        requires
            self.tag_spec() == other.tag_spec(),
            self.len_spec() == other.len_spec(),
        ensures
            self == other,
    {
    }

    /// The header with the given tag and length. Fails when the tag is none
    /// of the item start, the item delimiter and the sequence delimiter.
    pub fn new(tag: Tag, len: Length) -> (r: Result<SequenceItemHeader, SequenceItemHeaderError>)
        ensures
            is_framing_tag(tag) ==> (r matches Ok(h) && h.tag_spec() == tag && h.len_spec() == len),
            !is_framing_tag(tag) ==> r == Err::<SequenceItemHeader, SequenceItemHeaderError>(
                SequenceItemHeaderError::UnexpectedTag { tag },
            ),
    {
        if frames_items(tag) {
            Ok(SequenceItemHeader { tag, len })
        } else {
            Err(SequenceItemHeaderError::UnexpectedTag { tag })
        }
    }

    /// The tag of the header.
    pub fn tag(&self) -> (t: Tag)
        ensures
            t == self.tag_spec(),
            is_framing_tag(t),
    {
        proof {
            use_type_invariant(self);
        }
        self.tag
    }

    /// The length of the header.
    pub fn length(&self) -> (l: Length)
        ensures
            l == self.len_spec(),
    {
        self.len
    }

    /// Whether the header starts an item.
    pub fn is_item(&self) -> (b: bool)
        ensures
            b == is_item_tag(self.tag_spec()),
    {
        self.tag.1 == 0xE000 && self.tag.0 == 0xFFFE
    }

    /// Whether the header ends an item.
    pub fn is_item_delimiter(&self) -> (b: bool)
        ensures
            b == is_item_delimiter_tag(self.tag_spec()),
    {
        self.tag.1 == 0xE00D && self.tag.0 == 0xFFFE
    }

    /// Whether the header ends a sequence.
    pub fn is_sequence_delimiter(&self) -> (b: bool)
        ensures
            b == is_sequence_delimiter_tag(self.tag_spec()),
    {
        self.tag.1 == 0xE0DD && self.tag.0 == 0xFFFE
    }
}

} // verus!

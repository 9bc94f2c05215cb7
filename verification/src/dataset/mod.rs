//! Data sets on the wire: a stream of data elements, of which a sequence
//! holds items that are data sets again, and encapsulated pixel data holds
//! fragments.
//!
//! A data set is read into a tree that keeps each header as it was written,
//! so that the tree can be written back byte for byte. Values stay bytes.

use crate::decode::{explicit_header_of, implicit_header_of};
use crate::encode::{explicit_header_bytes, explicit_writable, implicit_header_bytes};
use crate::endian::Endianness;
use crate::header::{is_framing_tag, DataElementHeader, Length};
use crate::tag::Tag;
use crate::vr::VR;
use vstd::prelude::*;

pub mod typed;
pub mod events;
pub mod laws;
pub mod read;
pub mod write;

verus! {

/// The value of a data element as it stands on the wire.
#[derive(Debug, PartialEq, Eq)]
pub enum RawValue {
    /// The bytes of a primitive value.
    Bytes(Vec<u8>),
    /// The items of a sequence.
    Items(Vec<RawItem>),
    /// The fragments of encapsulated pixel data; the first one is the basic
    /// offset table.
    Fragments(Vec<Vec<u8>>),
}

/// A data element as it stands on the wire.
#[derive(Debug, PartialEq, Eq)]
pub struct RawElement {
    /// The header, as it was read or is to be written.
    pub header: DataElementHeader,
    /// The value.
    pub value: RawValue,
}

/// An item of a sequence as it stands on the wire.
#[derive(Debug, PartialEq, Eq)]
pub struct RawItem {
    /// The length that the item header gives: a number of bytes, or the
    /// undefined length, with which an item delimiter ends the item.
    pub len: Length,
    /// The data elements of the item.
    pub elements: Vec<RawElement>,
}

/// The mathematical value of a [`RawValue`].
pub ghost enum ValueTree {
    /// The bytes of a primitive value.
    Bytes(Seq<u8>),
    /// The items of a sequence.
    Items(Seq<ItemTree>),
    /// The fragments of encapsulated pixel data.
    Fragments(Seq<Seq<u8>>),
}

/// The mathematical value of a [`RawElement`].
pub ghost struct ElementTree {
    /// The header.
    pub header: DataElementHeader,
    /// The value.
    pub value: ValueTree,
}

/// The mathematical value of a [`RawItem`].
pub ghost struct ItemTree {
    /// The length that the item header gives.
    pub len: Length,
    /// The data elements of the item.
    pub elements: Seq<ElementTree>,
}

/// The byte runs of a list of fragments.
pub open spec fn fragment_runs(list: &Vec<Vec<u8>>) -> Seq<Seq<u8>> {
    Seq::new(list@.len(), |i: int| list[i]@)
}

impl RawValue {
    /// The mathematical value.
    pub open spec fn tree(&self) -> ValueTree
        decreases self,
    {
        match self {
            RawValue::Bytes(bytes) => ValueTree::Bytes(bytes@),
            RawValue::Items(items) => ValueTree::Items(
                Seq::new(
                    items@.len(),
                    |i: int|
                        if 0 <= i < items@.len() {
                            items[i].tree()
                        } else {
                            arbitrary()
                        },
                ),
            ),
            RawValue::Fragments(list) => ValueTree::Fragments(fragment_runs(list)),
        }
    }
}

impl RawElement {
    /// The mathematical value.
    pub open spec fn tree(&self) -> ElementTree
        decreases self,
    {
        ElementTree { header: self.header, value: self.value.tree() }
    }
}

impl RawItem {
    /// The mathematical value.
    pub open spec fn tree(&self) -> ItemTree
        decreases self,
    {
        ItemTree {
            len: self.len,
            elements: Seq::new(
                self.elements@.len(),
                |i: int|
                    if 0 <= i < self.elements@.len() {
                        self.elements[i].tree()
                    } else {
                        arbitrary()
                    },
            ),
        }
    }
}

/// The mathematical values of a list of elements.
pub open spec fn element_trees(elements: &Vec<RawElement>) -> Seq<ElementTree> {
    Seq::new(elements@.len(), |i: int| elements[i].tree())
}

/// The mathematical values of a list of items.
pub open spec fn item_trees(items: &Vec<RawItem>) -> Seq<ItemTree> {
    Seq::new(items@.len(), |i: int| items[i].tree())
}

/// How the headers of a data set are written: with or without the value
/// representation, in which byte order, and, for headers without it, what
/// the dictionary knows of each tag.
pub ghost struct Wire {
    /// Whether headers name their value representations.
    pub explicit_vr: bool,
    /// The byte order of the numbers.
    pub order: Endianness,
    /// What the dictionary knows of each tag.
    pub known: spec_fn(Tag) -> Option<VR>,
}

impl Wire {
    /// Whether this is one of the three encodings: headers without value
    /// representation are written in Little Endian only.
    pub open spec fn wf(self) -> bool {
        !self.explicit_vr ==> self.order == Endianness::Little
    }

    /// What is read as an element header at the start of `b`.
    pub open spec fn header_at(self, b: Seq<u8>) -> Result<
        (DataElementHeader, usize),
        crate::decode::Error,
    > {
        if self.explicit_vr {
            explicit_header_of(self.order, b)
        } else {
            implicit_header_of(b, self.known)
        }
    }

    /// The bytes of a header.
    pub open spec fn header_bytes(self, h: DataElementHeader) -> Seq<u8> {
        if self.explicit_vr {
            explicit_header_bytes(self.order, h)
        } else {
            implicit_header_bytes(h)
        }
    }

    /// Whether the header can be written.
    pub open spec fn writable(self, h: DataElementHeader) -> bool {
        self.explicit_vr ==> explicit_writable(h)
    }

    /// Whether the header is read back as it is: an item start or delimiter
    /// has the representation `UN`, and without value representations on
    /// the wire every element has the one that the dictionary gives its tag.
    pub open spec fn keeps(self, h: DataElementHeader) -> bool {
        if self.explicit_vr {
            is_framing_tag(h.tag) ==> h.vr == VR::UN
        } else {
            h.vr == crate::decode::implicit_vr(h.tag, (self.known)(h.tag))
        }
    }
}

/// What can go wrong while a data set is read.
#[derive(Clone, Copy, Debug, PartialEq, Eq, Structural)]
#[non_exhaustive]
pub enum ReadError {
    /// A header could not be decoded.
    DecodeHeader {
        /// What went wrong with the header.
        source: crate::decode::Error,
    },
    /// An element that is neither a sequence nor encapsulated pixel data, or
    /// a fragment, has an undefined length.
    UndefinedLengthNotAllowed {
        /// The tag of the element.
        tag: Tag,
    },
    /// An item start or a delimiter stands where none may stand.
    UnexpectedTag {
        /// The tag that was found.
        tag: Tag,
    },
    /// A value or an item is announced with more bytes than are left for it.
    ValueBeyondEnd {
        /// The tag of the element or item.
        tag: Tag,
    },
    /// The bytes end within a sequence or an item of undefined length, before
    /// the delimiter that ends it.
    MissingDelimiter,
}

} // verus!

//! Writing of data sets.

use crate::dataset::read::{order_of, wire_of};
use crate::dataset::{
    element_trees, fragment_runs, item_trees, ElementTree, ItemTree, RawElement, RawItem, RawValue,
    ValueTree, Wire,
};
use crate::dictionary::DataDictionary;
use crate::encode::{
    encode_explicit_header, encode_implicit_header, encode_item_header, item_header_bytes,
    EncodeError,
};
use crate::endian::Endianness;
use crate::registry::HeaderCodec;
use crate::header::{is_framing_tag, DataElementHeader, Length};
use crate::tag::Tag;
use crate::text::append_bytes;
use crate::vr::VR;
use vstd::prelude::*;

verus! {

/// The bytes of the item delimiter.
pub open spec fn item_delimiter_bytes(w: Wire) -> Seq<u8> {
    item_header_bytes(w.order, Tag(0xFFFE, 0xE00D), Length(0))
}

/// The bytes of the sequence delimiter.
pub open spec fn sequence_delimiter_bytes(w: Wire) -> Seq<u8> {
    item_header_bytes(w.order, Tag(0xFFFE, 0xE0DD), Length(0))
}

/// The bytes of the data elements of a list from the place `i` on.
pub open spec fn encode_elements(w: Wire, elements: Seq<ElementTree>, i: nat) -> Seq<u8>
    decreases elements, elements.len() - i,
{
    if i >= elements.len() {
        Seq::empty()
    } else {
        encode_element(w, elements[i as int]) + encode_elements(w, elements, i + 1)
    }
}

/// The bytes of a data element: its header and its value.
pub open spec fn encode_element(w: Wire, e: ElementTree) -> Seq<u8>
    decreases e, 1nat,
{
    w.header_bytes(e.header) + encode_value(w, e)
}

/// The bytes of the value of a data element. Bytes are written as they
/// are. The items of a sequence are followed by a sequence delimiter where
/// the header gives an undefined length. Each fragment is written as an item
/// of its length, and a sequence delimiter follows the last.
pub open spec fn encode_value(w: Wire, e: ElementTree) -> Seq<u8>
    decreases e, 0nat,
{
    match e.value {
        ValueTree::Bytes(bytes) => bytes,
        ValueTree::Items(items) => if e.header.len.undefined_spec() {
            encode_items(w, items, 0) + sequence_delimiter_bytes(w)
        } else {
            encode_items(w, items, 0)
        },
        ValueTree::Fragments(fragments) => encode_fragments(w, fragments, 0)
            + sequence_delimiter_bytes(w),
    }
}

/// The bytes of the items of a list from the place `i` on.
pub open spec fn encode_items(w: Wire, items: Seq<ItemTree>, i: nat) -> Seq<u8>
    decreases items, items.len() - i,
{
    if i >= items.len() {
        Seq::empty()
    } else {
        encode_item(w, items[i as int]) + encode_items(w, items, i + 1)
    }
}

/// The bytes of an item: its header, its data elements and, where its
/// length is undefined, an item delimiter.
pub open spec fn encode_item(w: Wire, item: ItemTree) -> Seq<u8>
    decreases item,
{
    if item.len.undefined_spec() {
        item_header_bytes(w.order, Tag(0xFFFE, 0xE000), item.len) + encode_elements(
            w,
            item.elements,
            0,
        ) + item_delimiter_bytes(w)
    } else {
        item_header_bytes(w.order, Tag(0xFFFE, 0xE000), item.len) + encode_elements(
            w,
            item.elements,
            0,
        )
    }
}

/// The bytes of the fragments of a list from the place `i` on.
pub open spec fn encode_fragments(w: Wire, fragments: Seq<Seq<u8>>, i: nat) -> Seq<u8>
    decreases fragments.len() - i,
{
    if i >= fragments.len() {
        Seq::empty()
    } else {
        item_header_bytes(w.order, Tag(0xFFFE, 0xE000), Length(fragments[i as int].len() as u32))
            + fragments[i as int] + encode_fragments(w, fragments, i + 1)
    }
}

/// The bytes of a data set.
pub open spec fn encode_data_set(w: Wire, elements: Seq<ElementTree>) -> Seq<u8> {
    encode_elements(w, elements, 0)
}

/// Whether a data element is well formed for the wire: its header can be
/// written and is read back as it is, its tag frames no item, and its value
/// is of the kind and the length that the header announces.
pub open spec fn wf_element(w: Wire, e: ElementTree) -> bool
    decreases e,
{
    &&& !is_framing_tag(e.header.tag)
    &&& w.writable(e.header)
    &&& w.keeps(e.header)
    &&& match e.value {
        ValueTree::Bytes(bytes) => {
            &&& e.header.vr != VR::SQ
            &&& !e.header.encapsulated_pixel_data_spec()
            &&& !e.header.len.undefined_spec()
            &&& e.header.len.0 == bytes.len()
        },
        ValueTree::Items(items) => {
            &&& e.header.vr == VR::SQ
            &&& forall|j: int| 0 <= j < items.len() ==> wf_item(w, #[trigger] items[j])
            &&& (e.header.len.undefined_spec() || e.header.len.0 == encode_items(w, items, 0).len())
        },
        ValueTree::Fragments(fragments) => {
            &&& e.header.vr != VR::SQ
            &&& e.header.encapsulated_pixel_data_spec()
            &&& forall|j: int|
                0 <= j < fragments.len() ==> (#[trigger] fragments[j]).len() < 0xFFFF_FFFF
        },
    }
}

/// Whether an item is well formed for the wire: its data elements are, and
/// its length, where it is defined, is the number of their bytes.
pub open spec fn wf_item(w: Wire, item: ItemTree) -> bool
    decreases item,
{
    &&& forall|i: int|
        0 <= i < item.elements.len() ==> wf_element(w, #[trigger] item.elements[i])
    &&& (item.len.undefined_spec() || item.len.0 == encode_elements(w, item.elements, 0).len())
}

/// Whether a data set is well formed for the wire.
pub open spec fn wf_data_set(w: Wire, elements: Seq<ElementTree>) -> bool {
    forall|i: int| 0 <= i < elements.len() ==> wf_element(w, #[trigger] elements[i])
}

/// Whether every header of a data element and of what it holds can be
/// written, and every fragment is short enough for an item header.
pub open spec fn writable_element(w: Wire, e: ElementTree) -> bool
    decreases e,
{
    &&& w.writable(e.header)
    &&& match e.value {
        ValueTree::Bytes(_) => true,
        ValueTree::Items(items) => forall|j: int|
            0 <= j < items.len() ==> writable_item(w, #[trigger] items[j]),
        ValueTree::Fragments(fragments) => forall|j: int|
            0 <= j < fragments.len() ==> (#[trigger] fragments[j]).len() <= 0xFFFF_FFFF,
    }
}

/// Whether every header within an item can be written.
pub open spec fn writable_item(w: Wire, item: ItemTree) -> bool
    decreases item,
{
    forall|i: int| 0 <= i < item.elements.len() ==> writable_element(w, #[trigger] item.elements[i])
}

/// Whether every header of a data set can be written.
pub open spec fn writable_data_set(w: Wire, elements: Seq<ElementTree>) -> bool {
    forall|i: int| 0 <= i < elements.len() ==> writable_element(w, #[trigger] elements[i])
}

/// A data set that is well formed for the wire can be written.
pub proof fn lemma_wf_is_writable(w: Wire, e: ElementTree)
    requires
        wf_element(w, e),
    ensures
        writable_element(w, e),
    decreases e,
{
    match e.value {
        ValueTree::Items(items) => {
            assert forall|j: int| 0 <= j < items.len() implies writable_item(
                w,
                #[trigger] items[j],
            ) by {
                let item = items[j];
                assert(wf_item(w, item));
                assert forall|i: int| 0 <= i < item.elements.len() implies writable_element(
                    w,
                    #[trigger] item.elements[i],
                ) by {
                    lemma_wf_is_writable(w, item.elements[i]);
                }
            }
        },
        _ => {},
    }
}

/// How far a writing goes: the bytes that it appends and, where it stops at
/// a header that cannot be written, the tag of that header.
pub ghost struct Attempt {
    /// The bytes appended, all of them or those before the stop.
    pub bytes: Seq<u8>,
    /// The tag of the header that cannot be written, where there is one.
    pub stopped: Option<Tag>,
}

impl Attempt {
    /// What the writing returns: success, or the tag that it stopped at.
    pub open spec fn outcome(self) -> Result<(), EncodeError> {
        match self.stopped {
            None => Ok(()),
            Some(tag) => Err(EncodeError::LengthTooLarge { tag }),
        }
    }

    /// A writing that went through with `bytes`.
    pub open spec fn done(bytes: Seq<u8>) -> Attempt {
        Attempt { bytes, stopped: None }
    }

    /// This writing after `bytes` were appended.
    pub open spec fn after(self, bytes: Seq<u8>) -> Attempt {
        Attempt { bytes: bytes + self.bytes, stopped: self.stopped }
    }

    /// This writing with `bytes` at its end, where it went through.
    pub open spec fn closed_by(self, bytes: Seq<u8>) -> Attempt {
        if self.stopped is Some {
            self
        } else {
            Attempt { bytes: self.bytes + bytes, stopped: None }
        }
    }
}

/// How far the writing of a header goes: a header that cannot be written
/// stops it, with nothing appended.
pub open spec fn attempt_header(w: Wire, h: DataElementHeader) -> Attempt {
    if w.writable(h) {
        Attempt::done(w.header_bytes(h))
    } else {
        Attempt { bytes: Seq::empty(), stopped: Some(h.tag) }
    }
}

/// How far the writing of the data elements of a list goes from the place
/// `i` on: it stops where the first of them stops.
pub open spec fn attempt_elements(w: Wire, elements: Seq<ElementTree>, i: nat) -> Attempt
    decreases elements, elements.len() - i,
{
    if i >= elements.len() {
        Attempt::done(Seq::empty())
    } else {
        let first = attempt_element(w, elements[i as int]);
        if first.stopped is Some {
            first
        } else {
            attempt_elements(w, elements, i + 1).after(first.bytes)
        }
    }
}

/// How far the writing of a data element goes: its header, then its value.
pub open spec fn attempt_element(w: Wire, e: ElementTree) -> Attempt
    decreases e, 1nat,
{
    let head = attempt_header(w, e.header);
    if head.stopped is Some {
        head
    } else {
        attempt_value(w, e).after(head.bytes)
    }
}

/// How far the writing of the value of a data element goes. The delimiter
/// of a sequence is written only where the writing of what is before it
/// went through.
pub open spec fn attempt_value(w: Wire, e: ElementTree) -> Attempt
    decreases e, 0nat,
{
    match e.value {
        ValueTree::Bytes(bytes) => Attempt::done(bytes),
        ValueTree::Items(items) => if e.header.len.undefined_spec() {
            attempt_items(w, items, 0).closed_by(sequence_delimiter_bytes(w))
        } else {
            attempt_items(w, items, 0)
        },
        ValueTree::Fragments(fragments) => attempt_fragments(w.order, fragments, 0).closed_by(
            sequence_delimiter_bytes(w),
        ),
    }
}

/// How far the writing of the items of a list goes from the place `i` on.
pub open spec fn attempt_items(w: Wire, items: Seq<ItemTree>, i: nat) -> Attempt
    decreases items, items.len() - i,
{
    if i >= items.len() {
        Attempt::done(Seq::empty())
    } else {
        let first = attempt_item(w, items[i as int]);
        if first.stopped is Some {
            first
        } else {
            attempt_items(w, items, i + 1).after(first.bytes)
        }
    }
}

/// How far the writing of an item goes: its header is always written, then
/// its data elements and, where they went through and the length of the
/// item is undefined, an item delimiter.
pub open spec fn attempt_item(w: Wire, item: ItemTree) -> Attempt
    decreases item,
{
    let body = attempt_elements(w, item.elements, 0).after(
        item_header_bytes(w.order, Tag(0xFFFE, 0xE000), item.len),
    );
    if item.len.undefined_spec() {
        body.closed_by(item_delimiter_bytes(w))
    } else {
        body
    }
}

/// How far the writing of the fragments of a list goes from the place `i`
/// on: a fragment that is too long for an item header stops it, with the
/// tag of an item.
pub open spec fn attempt_fragments(order: Endianness, fragments: Seq<Seq<u8>>, i: nat) -> Attempt
    decreases fragments.len() - i,
{
    if i >= fragments.len() {
        Attempt::done(Seq::empty())
    } else if fragments[i as int].len() > 0xFFFF_FFFF {
        Attempt { bytes: Seq::empty(), stopped: Some(Tag(0xFFFE, 0xE000)) }
    } else {
        attempt_fragments(order, fragments, i + 1).after(
            item_header_bytes(
                order,
                Tag(0xFFFE, 0xE000),
                Length(fragments[i as int].len() as u32),
            ) + fragments[i as int],
        )
    }
}

/// The writing of the data elements of a list from the place `i` on goes
/// through just where each of them can be written, and then it appends
/// their bytes.
pub proof fn lemma_attempt_elements(w: Wire, elements: Seq<ElementTree>, i: nat)
    ensures
        attempt_elements(w, elements, i).stopped is None <==> forall|k: int|
            i <= k < elements.len() ==> writable_element(w, #[trigger] elements[k]),
        attempt_elements(w, elements, i).stopped is None ==> attempt_elements(w, elements, i).bytes
            == encode_elements(w, elements, i),
    decreases elements, elements.len() - i,
{
    if i < elements.len() {
        lemma_attempt_element(w, elements[i as int]);
        lemma_attempt_elements(w, elements, i + 1);
    }
}

/// The writing of a data element goes through just where it can be
/// written, and then it appends the bytes of the element.
pub proof fn lemma_attempt_element(w: Wire, e: ElementTree)
    ensures
        attempt_element(w, e).stopped is None <==> writable_element(w, e),
        attempt_element(w, e).stopped is None ==> attempt_element(w, e).bytes == encode_element(
            w,
            e,
        ),
    decreases e,
{
    match e.value {
        ValueTree::Bytes(_) => {},
        ValueTree::Items(items) => {
            lemma_attempt_items(w, items, 0);
        },
        ValueTree::Fragments(fragments) => {
            lemma_attempt_fragments(w, fragments, 0);
        },
    }
}

/// The writing of the items of a list from the place `i` on goes through
/// just where each of them can be written, and then it appends their bytes.
pub proof fn lemma_attempt_items(w: Wire, items: Seq<ItemTree>, i: nat)
    ensures
        attempt_items(w, items, i).stopped is None <==> forall|j: int|
            i <= j < items.len() ==> writable_item(w, #[trigger] items[j]),
        attempt_items(w, items, i).stopped is None ==> attempt_items(w, items, i).bytes
            == encode_items(w, items, i),
    decreases items, items.len() - i,
{
    if i < items.len() {
        let item = items[i as int];
        lemma_attempt_elements(w, item.elements, 0);
        lemma_attempt_items(w, items, i + 1);
        assert(attempt_item(w, item).stopped is None <==> writable_item(w, item));
        if attempt_item(w, item).stopped is None {
            assert(attempt_item(w, item).bytes =~= encode_item(w, item));
        }
    }
}

/// The writing of the fragments of a list from the place `i` on goes
/// through just where each of them is short enough for an item header, and
/// then it appends their bytes.
pub proof fn lemma_attempt_fragments(w: Wire, fragments: Seq<Seq<u8>>, i: nat)
    ensures
        attempt_fragments(w.order, fragments, i).stopped is None <==> forall|j: int|
            i <= j < fragments.len() ==> (#[trigger] fragments[j]).len() <= 0xFFFF_FFFF,
        attempt_fragments(w.order, fragments, i).stopped is None ==> attempt_fragments(
            w.order,
            fragments,
            i,
        ).bytes == encode_fragments(w, fragments, i),
    decreases fragments.len() - i,
{
    if i < fragments.len() {
        lemma_attempt_fragments(w, fragments, i + 1);
    }
}

/// Appends the header of a data element. A header that cannot be written
/// leaves `out` as it was.
pub fn write_header<D: DataDictionary>(
    codec: HeaderCodec,
    dict: &D,
    out: &mut Vec<u8>,
    h: DataElementHeader,
) -> (r: Result<(), EncodeError>)
    ensures
        match r {
            Ok(_) => wire_of(codec, dict).writable(h) && final(out)@ == old(out)@ + wire_of(
                codec,
                dict,
            ).header_bytes(h),
            Err(_) => !wire_of(codec, dict).writable(h),
        },
        r == attempt_header(wire_of(codec, dict), h).outcome(),
        final(out)@ == old(out)@ + attempt_header(wire_of(codec, dict), h).bytes,
{
    match codec {
        HeaderCodec::ImplicitVRLittleEndian => {
            encode_implicit_header(out, h);
            Ok(())
        },
        HeaderCodec::ExplicitVRLittleEndian => {
            match encode_explicit_header(Endianness::Little, out, h) {
                Ok(_) => Ok(()),
                Err(e) => Err(e),
            }
        },
        HeaderCodec::ExplicitVRBigEndian => {
            match encode_explicit_header(Endianness::Big, out, h) {
                Ok(_) => Ok(()),
                Err(e) => Err(e),
            }
        },
    }
}

/// Appends the bytes of the data elements of a list. Where a header cannot
/// be written the writing stops there and fails.
pub fn write_elements<D: DataDictionary>(
    codec: HeaderCodec,
    dict: &D,
    elements: &Vec<RawElement>,
    out: &mut Vec<u8>,
) -> (r: Result<(), EncodeError>)
    ensures
        match r {
            Ok(_) => writable_data_set(wire_of(codec, dict), element_trees(elements))
                && final(out)@ == old(out)@ + encode_elements(
                wire_of(codec, dict),
                element_trees(elements),
                0,
            ),
            Err(_) => !writable_data_set(wire_of(codec, dict), element_trees(elements)),
        },
        r == attempt_elements(wire_of(codec, dict), element_trees(elements), 0).outcome(),
        final(out)@ == old(out)@ + attempt_elements(
            wire_of(codec, dict),
            element_trees(elements),
            0,
        ).bytes,
    decreases elements,
{
    let ghost w = wire_of(codec, dict);
    let ghost trees = element_trees(elements);
    let ghost whole = attempt_elements(w, trees, 0);
    let mut i: usize = 0;
    assert(out@ + encode_elements(w, trees, 0) =~= old(out)@ + encode_elements(w, trees, 0));
    while i < elements.len()
        invariant
            i <= elements@.len(),
            w == wire_of(codec, dict),
            trees == element_trees(elements),
            whole == attempt_elements(w, trees, 0),
            forall|k: int| 0 <= k < i ==> writable_element(w, #[trigger] trees[k]),
            out@ + encode_elements(w, trees, i as nat) == old(out)@ + encode_elements(w, trees, 0),
            whole.stopped == attempt_elements(w, trees, i as nat).stopped,
            old(out)@ + whole.bytes == out@ + attempt_elements(w, trees, i as nat).bytes,
        decreases elements@.len() - i,
    {
        let ghost before = out@;
        let e: &RawElement = &elements[i];
        assert(trees[i as int] == e.tree());
        match write_element(codec, dict, e, out) {
            Ok(_) => {},
            Err(x) => {
                return Err(x);
            },
        }
        assert(out@ + encode_elements(w, trees, (i + 1) as nat) =~= before + encode_elements(
            w,
            trees,
            i as nat,
        ));
        assert(out@ + attempt_elements(w, trees, (i + 1) as nat).bytes =~= before
            + attempt_elements(w, trees, i as nat).bytes);
        i = i + 1;
    }
    assert(out@ + encode_elements(w, trees, i as nat) =~= out@);
    assert(out@ + attempt_elements(w, trees, i as nat).bytes =~= out@);
    Ok(())
}

/// Appends the bytes of a data element: its header and its value.
pub fn write_element<D: DataDictionary>(
    codec: HeaderCodec,
    dict: &D,
    e: &RawElement,
    out: &mut Vec<u8>,
) -> (r: Result<(), EncodeError>)
    ensures
        match r {
            Ok(_) => writable_element(wire_of(codec, dict), e.tree()) && final(out)@ == old(out)@
                + encode_element(wire_of(codec, dict), e.tree()),
            Err(_) => !writable_element(wire_of(codec, dict), e.tree()),
        },
        r == attempt_element(wire_of(codec, dict), e.tree()).outcome(),
        final(out)@ == old(out)@ + attempt_element(wire_of(codec, dict), e.tree()).bytes,
    decreases e, 1nat,
{
    let ghost w = wire_of(codec, dict);
    match write_header(codec, dict, out, e.header) {
        Ok(_) => {},
        Err(x) => {
            return Err(x);
        },
    }
    match write_value(codec, dict, e, out) {
        Ok(_) => {},
        Err(x) => {
            assert(out@ =~= old(out)@ + (w.header_bytes(e.header) + attempt_value(
                w,
                e.tree(),
            ).bytes));
            return Err(x);
        },
    }
    assert(out@ =~= old(out)@ + (w.header_bytes(e.header) + encode_value(w, e.tree())));
    assert(out@ =~= old(out)@ + (w.header_bytes(e.header) + attempt_value(w, e.tree()).bytes));
    Ok(())
}

/// Whether what a data element holds can be written.
pub open spec fn writable_value(w: Wire, e: ElementTree) -> bool {
    match e.value {
        ValueTree::Bytes(_) => true,
        ValueTree::Items(items) => forall|j: int|
            0 <= j < items.len() ==> writable_item(w, #[trigger] items[j]),
        ValueTree::Fragments(fragments) => forall|j: int|
            0 <= j < fragments.len() ==> (#[trigger] fragments[j]).len() <= 0xFFFF_FFFF,
    }
}

/// Appends the bytes of the value of a data element.
pub fn write_value<D: DataDictionary>(
    codec: HeaderCodec,
    dict: &D,
    e: &RawElement,
    out: &mut Vec<u8>,
) -> (r: Result<(), EncodeError>)
    ensures
        match r {
            Ok(_) => writable_value(wire_of(codec, dict), e.tree()) && final(out)@ == old(out)@
                + encode_value(wire_of(codec, dict), e.tree()),
            Err(_) => !writable_value(wire_of(codec, dict), e.tree()),
        },
        r == attempt_value(wire_of(codec, dict), e.tree()).outcome(),
        final(out)@ == old(out)@ + attempt_value(wire_of(codec, dict), e.tree()).bytes,
    decreases e, 0nat,
{
    let ghost w = wire_of(codec, dict);
    let ghost tree = e.tree();
    let order: Endianness = order_of(codec);
    match &e.value {
        RawValue::Bytes(bytes) => {
            append_bytes(out, bytes.as_slice());
            Ok(())
        },
        RawValue::Items(items) => {
            assert(tree.value->Items_0 =~= item_trees(items));
            match write_items(codec, dict, items, out) {
                Ok(_) => {},
                Err(x) => {
                    return Err(x);
                },
            }
            if e.header.len.is_undefined() {
                encode_item_header(order, out, Tag(0xFFFE, 0xE0DD), Length(0));
                assert(out@ =~= old(out)@ + (attempt_items(w, item_trees(items), 0).bytes
                    + sequence_delimiter_bytes(w)));
            }
            Ok(())
        },
        RawValue::Fragments(fragments) => {
            assert(tree.value->Fragments_0 == fragment_runs(fragments));
            match write_fragments(order, fragments, out) {
                Ok(_) => {},
                Err(x) => {
                    return Err(x);
                },
            }
            let ghost mid = out@;
            assert(mid == old(out)@ + encode_fragments(w, fragment_runs(fragments), 0));
            encode_item_header(order, out, Tag(0xFFFE, 0xE0DD), Length(0));
            assert(out@ =~= old(out)@ + (encode_fragments(w, fragment_runs(fragments), 0)
                + sequence_delimiter_bytes(w)));
            assert(out@ =~= old(out)@ + (attempt_fragments(order, fragment_runs(fragments), 0).bytes
                + sequence_delimiter_bytes(w)));
            Ok(())
        },
    }
}

/// Appends the bytes of the items of a list.
pub fn write_items<D: DataDictionary>(
    codec: HeaderCodec,
    dict: &D,
    items: &Vec<RawItem>,
    out: &mut Vec<u8>,
) -> (r: Result<(), EncodeError>)
    ensures
        match r {
            Ok(_) => (forall|j: int|
                0 <= j < items@.len() ==> writable_item(
                    wire_of(codec, dict),
                    #[trigger] item_trees(items)[j],
                )) && final(out)@ == old(out)@ + encode_items(
                wire_of(codec, dict),
                item_trees(items),
                0,
            ),
            Err(_) => exists|j: int|
                0 <= j < items@.len() && !writable_item(
                    wire_of(codec, dict),
                    #[trigger] item_trees(items)[j],
                ),
        },
        r == attempt_items(wire_of(codec, dict), item_trees(items), 0).outcome(),
        final(out)@ == old(out)@ + attempt_items(wire_of(codec, dict), item_trees(items), 0).bytes,
    decreases items, 1nat,
{
    let ghost w = wire_of(codec, dict);
    let ghost trees = item_trees(items);
    let ghost whole = attempt_items(w, trees, 0);
    let mut j: usize = 0;
    assert(out@ + encode_items(w, trees, 0) =~= old(out)@ + encode_items(w, trees, 0));
    while j < items.len()
        invariant
            j <= items@.len(),
            w == wire_of(codec, dict),
            trees == item_trees(items),
            whole == attempt_items(w, trees, 0),
            forall|k: int| 0 <= k < j ==> writable_item(w, #[trigger] trees[k]),
            out@ + encode_items(w, trees, j as nat) == old(out)@ + encode_items(w, trees, 0),
            whole.stopped == attempt_items(w, trees, j as nat).stopped,
            old(out)@ + whole.bytes == out@ + attempt_items(w, trees, j as nat).bytes,
        decreases items@.len() - j,
    {
        let ghost before = out@;
        assert(trees[j as int] == items[j as int].tree());
        match write_item(codec, dict, &items[j], out) {
            Ok(_) => {},
            Err(x) => {
                return Err(x);
            },
        }
        assert(out@ + encode_items(w, trees, (j + 1) as nat) =~= before + encode_items(
            w,
            trees,
            j as nat,
        ));
        assert(out@ + attempt_items(w, trees, (j + 1) as nat).bytes =~= before + attempt_items(
            w,
            trees,
            j as nat,
        ).bytes);
        j = j + 1;
    }
    assert(out@ + encode_items(w, trees, j as nat) =~= out@);
    assert(out@ + attempt_items(w, trees, j as nat).bytes =~= out@);
    Ok(())
}

/// Appends the bytes of an item: its header, its data elements and, where
/// its length is undefined, an item delimiter.
pub fn write_item<D: DataDictionary>(
    codec: HeaderCodec,
    dict: &D,
    item: &RawItem,
    out: &mut Vec<u8>,
) -> (r: Result<(), EncodeError>)
    ensures
        match r {
            Ok(_) => writable_item(wire_of(codec, dict), item.tree()) && final(out)@ == old(out)@
                + encode_item(wire_of(codec, dict), item.tree()),
            Err(_) => !writable_item(wire_of(codec, dict), item.tree()),
        },
        r == attempt_item(wire_of(codec, dict), item.tree()).outcome(),
        final(out)@ == old(out)@ + attempt_item(wire_of(codec, dict), item.tree()).bytes,
    decreases item, 0nat,
{
    let ghost w = wire_of(codec, dict);
    let ghost tree = item.tree();
    let ghost head = item_header_bytes(w.order, Tag(0xFFFE, 0xE000), item.len);
    let ghost body = attempt_elements(w, tree.elements, 0);
    let order: Endianness = order_of(codec);
    assert(tree.elements =~= element_trees(&item.elements));
    encode_item_header(order, out, Tag(0xFFFE, 0xE000), item.len);
    match write_elements(codec, dict, &item.elements, out) {
        Ok(_) => {},
        Err(x) => {
            assert(out@ =~= old(out)@ + (head + body.bytes));
            return Err(x);
        },
    }
    if item.len.is_undefined() {
        encode_item_header(order, out, Tag(0xFFFE, 0xE00D), Length(0));
    }
    assert(out@ =~= old(out)@ + encode_item(w, tree));
    assert(out@ =~= old(out)@ + attempt_item(w, tree).bytes);
    Ok(())
}

/// Appends the fragments of a list, each as an item of its length.
pub fn write_fragments(order: Endianness, fragments: &Vec<Vec<u8>>, out: &mut Vec<u8>) -> (r: Result<
    (),
    EncodeError,
>)
    ensures
        match r {
            Ok(_) => (forall|j: int|
                0 <= j < fragments@.len() ==> (#[trigger] fragment_runs(fragments)[j]).len()
                    <= 0xFFFF_FFFF) && (forall|w: Wire|
                w.order == order ==> final(out)@ == old(out)@ + #[trigger] encode_fragments(
                    w,
                    fragment_runs(fragments),
                    0,
                )),
            Err(_) => exists|j: int|
                0 <= j < fragments@.len() && (#[trigger] fragment_runs(fragments)[j]).len()
                    > 0xFFFF_FFFF,
        },
        r == attempt_fragments(order, fragment_runs(fragments), 0).outcome(),
        final(out)@ == old(out)@ + attempt_fragments(order, fragment_runs(fragments), 0).bytes,
{
    let ghost runs = fragment_runs(fragments);
    let ghost whole = attempt_fragments(order, runs, 0);
    let ghost w0 = Wire { explicit_vr: true, order, known: |t: Tag| None::<VR> };
    let mut j: usize = 0;
    assert(out@ + encode_fragments(w0, runs, 0) =~= old(out)@ + encode_fragments(w0, runs, 0));
    while j < fragments.len()
        invariant
            j <= fragments@.len(),
            runs == fragment_runs(fragments),
            w0.order == order,
            forall|k: int| 0 <= k < j ==> (#[trigger] runs[k]).len() <= 0xFFFF_FFFF,
            out@ + encode_fragments(w0, runs, j as nat) == old(out)@ + encode_fragments(w0, runs, 0),
            whole == attempt_fragments(order, runs, 0),
            whole.stopped == attempt_fragments(order, runs, j as nat).stopped,
            old(out)@ + whole.bytes == out@ + attempt_fragments(order, runs, j as nat).bytes,
        decreases fragments@.len() - j,
    {
        let ghost before = out@;
        let f: &Vec<u8> = &fragments[j];
        assert(runs[j as int] == f@);
        if f.len() > 0xFFFF_FFFF {
            assert(out@ + attempt_fragments(order, runs, j as nat).bytes =~= out@);
            return Err(EncodeError::LengthTooLarge { tag: Tag(0xFFFE, 0xE000) });
        }
        encode_item_header(order, out, Tag(0xFFFE, 0xE000), Length(f.len() as u32));
        append_bytes(out, f.as_slice());
        assert(out@ + encode_fragments(w0, runs, (j + 1) as nat) =~= before + encode_fragments(
            w0,
            runs,
            j as nat,
        ));
        assert(out@ + attempt_fragments(order, runs, (j + 1) as nat).bytes =~= before
            + attempt_fragments(order, runs, j as nat).bytes);
        j = j + 1;
    }
    assert(out@ + encode_fragments(w0, runs, j as nat) =~= out@);
    assert(out@ + attempt_fragments(order, runs, j as nat).bytes =~= out@);
    proof {
        assert forall|w: Wire| w.order == order implies out@ == old(out)@
            + #[trigger] encode_fragments(w, runs, 0) by {
            lemma_fragments_by_order(w, w0, runs, 0);
        }
    }
    Ok(())
}

/// The bytes of fragments depend on the byte order alone.
pub proof fn lemma_fragments_by_order(w: Wire, v: Wire, runs: Seq<Seq<u8>>, i: nat)
    requires
        w.order == v.order,
    ensures
        encode_fragments(w, runs, i) == encode_fragments(v, runs, i),
    decreases runs.len() - i,
{
    if i < runs.len() {
        lemma_fragments_by_order(w, v, runs, i + 1);
    }
}

/// Writes a data set. Fails where a header cannot be written: where the
/// length of an element does not fit in the 16 bits that an explicit
/// encoding has for it, or a fragment is too long for an item header. The
/// error names the tag of the first such header in the order of writing.
pub fn write_data_set<D: DataDictionary>(codec: HeaderCodec, dict: &D, elements: &Vec<RawElement>) -> (r:
    Result<Vec<u8>, EncodeError>)
    ensures
        match r {
            Ok(bytes) => writable_data_set(wire_of(codec, dict), element_trees(elements)) && bytes@
                == encode_data_set(wire_of(codec, dict), element_trees(elements)),
            Err(x) => !writable_data_set(wire_of(codec, dict), element_trees(elements))
                && Err::<(), EncodeError>(x) == attempt_elements(
                wire_of(codec, dict),
                element_trees(elements),
                0,
            ).outcome(),
        },
{
    let mut out: Vec<u8> = Vec::new();
    match write_elements(codec, dict, elements, &mut out) {
        Ok(_) => {
            assert(out@ =~= encode_data_set(wire_of(codec, dict), element_trees(elements)));
            Ok(out)
        },
        Err(e) => Err(e),
    }
}

} // verus!

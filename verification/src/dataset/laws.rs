//! What reading and writing of data sets have to do with each other: a
//! well-formed data set is read back from its bytes as it is.

use crate::dataset::read::{
    parse_data_set, parse_elements, parse_fragments, parse_items, parse_value, Ending,
};
use crate::dataset::write::{
    encode_data_set, encode_element, encode_elements, encode_fragments, encode_item, encode_items,
    encode_value, item_delimiter_bytes, sequence_delimiter_bytes, wf_data_set, wf_element,
    wf_item,
};
use crate::dataset::{ElementTree, ItemTree, ReadError, ValueTree, Wire};
use crate::decode::item_header_of;
use crate::encode::{
    item_header_bytes, lemma_explicit_header_round_trip, lemma_implicit_header_round_trip,
    lemma_item_header_round_trip,
};

use crate::header::{is_framing_tag, DataElementHeader, Length};
use crate::tag::Tag;
use crate::vr::VR;
use vstd::prelude::*;

verus! {

/// A header that is well formed for the wire is read back from its bytes,
/// whatever follows them; the step takes the bytes of the header, which are
/// eight or twelve.
pub proof fn lemma_header_round_trip(w: Wire, h: DataElementHeader, rest: Seq<u8>)
    requires
        w.wf(),
        w.writable(h),
        w.keeps(h),
    ensures
        w.header_at(w.header_bytes(h) + rest) == Ok::<(DataElementHeader, usize), crate::decode::Error>(
            (h, w.header_bytes(h).len() as usize),
        ),
        w.header_bytes(h).len() == 8 || w.header_bytes(h).len() == 12,
{
    if w.explicit_vr {
        lemma_explicit_header_round_trip(w.order, h, rest);
    } else {
        lemma_implicit_header_round_trip(h, w.known, rest);
    }
}

/// The item delimiter is read as a header of eight bytes with the tag
/// `(FFFE,E00D)`, whatever follows it.
pub proof fn lemma_item_delimiter(w: Wire, rest: Seq<u8>)
    requires
        w.wf(),
    ensures
        w.header_at(item_delimiter_bytes(w) + rest) == Ok::<
            (DataElementHeader, usize),
            crate::decode::Error,
        >((DataElementHeader { tag: Tag(0xFFFE, 0xE00D), vr: VR::UN, len: Length(0) }, 8usize)),
        item_delimiter_bytes(w).len() == 8,
{
    let h = DataElementHeader { tag: Tag(0xFFFE, 0xE00D), vr: VR::UN, len: Length(0) };
    lemma_header_round_trip(w, h, rest);
    assert(w.header_bytes(h) =~= item_delimiter_bytes(w));
    lemma_item_header_round_trip(w.order, Tag(0xFFFE, 0xE00D), Length(0), rest);
}

/// Where the bytes from `pos` on are `x` and then `y`, the bytes of `x` and
/// those of `y` stand one after the other.
pub proof fn lemma_parts(b: Seq<u8>, pos: int, x: Seq<u8>, y: Seq<u8>)
    requires
        0 <= pos,
        pos + x.len() + y.len() <= b.len(),
        b.subrange(pos, pos + x.len() + y.len()) == x + y,
    ensures
        b.subrange(pos, pos + x.len()) == x,
        b.subrange(pos + x.len(), pos + x.len() + y.len()) == y,
{
    let whole = b.subrange(pos, pos + x.len() + y.len());
    assert(whole.subrange(0, x.len() as int) =~= x);
    assert(whole.subrange(x.len() as int, x.len() as int + y.len()) =~= y);
    assert(b.subrange(pos, pos + x.len()) =~= whole.subrange(0, x.len() as int));
    assert(b.subrange(pos + x.len(), pos + x.len() + y.len()) =~= whole.subrange(
        x.len() as int,
        x.len() as int + y.len(),
    ));
}

/// Where the bytes from `pos` on start with `x`, the bytes up to `end` are
/// `x` and what follows it.
pub proof fn lemma_starts_with(b: Seq<u8>, pos: int, end: int, x: Seq<u8>)
    requires
        0 <= pos,
        pos + x.len() <= end <= b.len(),
        b.subrange(pos, pos + x.len()) == x,
    ensures
        b.subrange(pos, end) == x + b.subrange(pos + x.len(), end),
{
    assert(b.subrange(pos, end) =~= b.subrange(pos, pos + x.len()) + b.subrange(
        pos + x.len(),
        end,
    ));
}

/// One data element and then the others: how the elements from a place on
/// are read where the first of them and the rest are known.
pub proof fn lemma_elements_step(
    w: Wire,
    b: Seq<u8>,
    pos: int,
    end: int,
    ending: Ending,
    e: ElementTree,
    n: usize,
    p: int,
    rest: Seq<ElementTree>,
    q: int,
)
    requires
        0 <= pos < end <= b.len(),
        w.header_at(b.subrange(pos, end)) == Ok::<(DataElementHeader, usize), crate::decode::Error>(
            (e.header, n),
        ),
        !is_framing_tag(e.header.tag),
        n > 0,
        pos + n <= end,
        parse_value(w, b, pos + n, end, e.header) == Ok::<(ValueTree, int), ReadError>((e.value, p)),
        pos < p <= end,
        parse_elements(w, b, p, end, ending) == Ok::<(Seq<ElementTree>, int), ReadError>((rest, q)),
    ensures
        parse_elements(w, b, pos, end, ending) == Ok::<(Seq<ElementTree>, int), ReadError>(
            (seq![e] + rest, q),
        ),
{
    assert(e == ElementTree { header: e.header, value: e.value });
}

/// One item and then the others: how the items from a place on are read
/// where the first of them and the rest are known.
pub proof fn lemma_items_step(
    w: Wire,
    b: Seq<u8>,
    pos: int,
    end: int,
    delimited: bool,
    item: ItemTree,
    p: int,
    rest: Seq<ItemTree>,
    q: int,
)
    requires
        0 <= pos < end <= b.len(),
        pos + 8 <= end,
        item_header_of(w.order, b.subrange(pos, end)) == Ok::<(Tag, Length), crate::decode::Error>(
            (Tag(0xFFFE, 0xE000), item.len),
        ),
        item.len.undefined_spec() ==> parse_elements(w, b, pos + 8, end, Ending::AtItemDelimiter)
            == Ok::<(Seq<ElementTree>, int), ReadError>((item.elements, p)),
        !item.len.undefined_spec() ==> pos + 8 + item.len.0 <= end && parse_elements(
            w,
            b,
            pos + 8,
            pos + 8 + item.len.0,
            Ending::AtEnd,
        ) == Ok::<(Seq<ElementTree>, int), ReadError>((item.elements, p)),
        pos < p <= end,
        parse_items(w, b, p, end, delimited) == Ok::<(Seq<ItemTree>, int), ReadError>((rest, q)),
    ensures
        parse_items(w, b, pos, end, delimited) == Ok::<(Seq<ItemTree>, int), ReadError>(
            (seq![item] + rest, q),
        ),
{
    assert(item == ItemTree { len: item.len, elements: item.elements });
}

/// The data elements of a well-formed list, from the place `i` on, are read
/// back from their bytes: either their bytes are all that is there for
/// them, or an item delimiter follows and ends them.
#[verifier::rlimit(40)]
pub proof fn lemma_parse_elements(
    w: Wire,
    elements: Seq<ElementTree>,
    i: nat,
    b: Seq<u8>,
    pos: int,
    end: int,
    ending: Ending,
)
    requires
        w.wf(),
        wf_data_set(w, elements),
        i <= elements.len(),
        0 <= pos,
        end <= b.len(),
        ending == Ending::AtEnd ==> pos + encode_elements(w, elements, i).len() == end
            && b.subrange(pos, end) == encode_elements(w, elements, i),
        ending == Ending::AtItemDelimiter ==> pos + encode_elements(w, elements, i).len() + 8
            <= end && b.subrange(pos, pos + encode_elements(w, elements, i).len() + 8)
            == encode_elements(w, elements, i) + item_delimiter_bytes(w),
    ensures
        parse_elements(w, b, pos, end, ending) == Ok::<(Seq<ElementTree>, int), ReadError>(
            (
                elements.skip(i as int),
                pos + encode_elements(w, elements, i).len() + (if ending
                    == Ending::AtItemDelimiter {
                    8int
                } else {
                    0int
                }),
            ),
        ),
    decreases elements, elements.len() - i, 0nat,
{
    let enc = encode_elements(w, elements, i);
    let closing: Seq<u8> = if ending == Ending::AtItemDelimiter {
        item_delimiter_bytes(w)
    } else {
        Seq::empty()
    };
    lemma_item_delimiter(w, Seq::empty());
    assert(b.subrange(pos, pos + enc.len() + closing.len()) == enc + closing) by {
        if ending == Ending::AtEnd {
            assert(enc + closing =~= enc);
        }
    }
    if i == elements.len() {
        assert(elements.skip(i as int) =~= Seq::<ElementTree>::empty());
        if ending == Ending::AtItemDelimiter {
            assert(enc + closing =~= closing);
            lemma_starts_with(b, pos, end, closing);
            lemma_item_delimiter(w, b.subrange(pos + 8, end));
        }
    } else {
        let e = elements[i as int];
        let hb = w.header_bytes(e.header);
        let val = encode_value(w, e);
        let tail = encode_elements(w, elements, i + 1);
        assert(enc == encode_element(w, e) + tail);
        assert(encode_element(w, e) == hb + val);
        assert(wf_element(w, e));
        lemma_header_round_trip(w, e.header, b.subrange(pos + hb.len(), end));
        assert(enc + closing =~= hb + (val + (tail + closing)));
        lemma_parts(b, pos, hb, val + (tail + closing));
        lemma_starts_with(b, pos, end, hb);
        let n = hb.len() as int;
        lemma_parts(b, pos + n, val, tail + closing);
        lemma_parse_value(w, e, b, pos + n, end);
        let p = pos + n + val.len();
        if ending == Ending::AtEnd {
            assert(tail + closing =~= tail);
        }
        lemma_parse_elements(w, elements, i + 1, b, p, end, ending);
        lemma_elements_step(
            w,
            b,
            pos,
            end,
            ending,
            e,
            hb.len() as usize,
            p,
            elements.skip(i as int + 1),
            p + tail.len() + closing.len(),
        );
        assert(seq![e] + elements.skip(i as int + 1) =~= elements.skip(i as int));
    }
}

/// The value of a well-formed data element is read back from its bytes.
pub proof fn lemma_parse_value(w: Wire, e: ElementTree, b: Seq<u8>, pos: int, end: int)
    requires
        w.wf(),
        wf_element(w, e),
        0 <= pos,
        pos + encode_value(w, e).len() <= end,
        end <= b.len(),
        b.subrange(pos, pos + encode_value(w, e).len()) == encode_value(w, e),
    ensures
        parse_value(w, b, pos, end, e.header) == Ok::<(ValueTree, int), ReadError>(
            (e.value, pos + encode_value(w, e).len()),
        ),
    decreases e, 0nat, 1nat,
{
    let enc = encode_value(w, e);
    match e.value {
        ValueTree::Bytes(bytes) => {},
        ValueTree::Items(items) => {
            if e.header.len.undefined_spec() {
                lemma_parse_items(w, items, 0, b, pos, end, true);
                assert(items.skip(0) =~= items);
            } else {
                lemma_parse_items(w, items, 0, b, pos, pos + e.header.len.0, false);
                assert(items.skip(0) =~= items);
            }
        },
        ValueTree::Fragments(fragments) => {
            lemma_parse_fragments(w, fragments, 0, b, pos, end);
            assert(fragments.skip(0) =~= fragments);
        },
    }
}

/// The data elements of a well-formed item are read back from the bytes
/// after its header.
pub proof fn lemma_parse_item_body(w: Wire, item: ItemTree, b: Seq<u8>, pos: int, end: int)
    requires
        w.wf(),
        wf_item(w, item),
        0 <= pos,
        end <= b.len(),
        item.len.undefined_spec() ==> pos + encode_elements(w, item.elements, 0).len() + 8 <= end
            && b.subrange(pos, pos + encode_elements(w, item.elements, 0).len() + 8)
            == encode_elements(w, item.elements, 0) + item_delimiter_bytes(w),
        !item.len.undefined_spec() ==> pos + encode_elements(w, item.elements, 0).len() <= end
            && b.subrange(pos, pos + encode_elements(w, item.elements, 0).len())
            == encode_elements(w, item.elements, 0) + Seq::<u8>::empty(),
    ensures
        item.len.undefined_spec() ==> parse_elements(w, b, pos, end, Ending::AtItemDelimiter)
            == Ok::<(Seq<ElementTree>, int), ReadError>(
            (item.elements, pos + encode_elements(w, item.elements, 0).len() + 8),
        ),
        !item.len.undefined_spec() ==> parse_elements(
            w,
            b,
            pos,
            pos + item.len.0,
            Ending::AtEnd,
        ) == Ok::<(Seq<ElementTree>, int), ReadError>(
            (item.elements, pos + encode_elements(w, item.elements, 0).len()),
        ),
    decreases item, 0nat, 0nat,
{
    let body = encode_elements(w, item.elements, 0);
    if item.len.undefined_spec() {
        lemma_parse_elements(w, item.elements, 0, b, pos, end, Ending::AtItemDelimiter);
    } else {
        assert(body + Seq::<u8>::empty() =~= body);
        lemma_parse_elements(w, item.elements, 0, b, pos, pos + item.len.0, Ending::AtEnd);
    }
    assert(item.elements.skip(0) =~= item.elements);
}

/// The items of a well-formed list, from the place `j` on, are read back
/// from their bytes: either a sequence delimiter follows and ends them, or
/// their bytes are all that is there for them.
#[verifier::rlimit(40)]
pub proof fn lemma_parse_items(
    w: Wire,
    items: Seq<ItemTree>,
    j: nat,
    b: Seq<u8>,
    pos: int,
    end: int,
    delimited: bool,
)
    requires
        w.wf(),
        forall|k: int| 0 <= k < items.len() ==> wf_item(w, #[trigger] items[k]),
        j <= items.len(),
        0 <= pos,
        end <= b.len(),
        !delimited ==> pos + encode_items(w, items, j).len() == end && b.subrange(pos, end)
            == encode_items(w, items, j),
        delimited ==> pos + encode_items(w, items, j).len() + 8 <= end && b.subrange(
            pos,
            pos + encode_items(w, items, j).len() + 8,
        ) == encode_items(w, items, j) + sequence_delimiter_bytes(w),
    ensures
        parse_items(w, b, pos, end, delimited) == Ok::<(Seq<ItemTree>, int), ReadError>(
            (
                items.skip(j as int),
                pos + encode_items(w, items, j).len() + (if delimited {
                    8int
                } else {
                    0int
                }),
            ),
        ),
    decreases items, items.len() - j, 0nat,
{
    let enc = encode_items(w, items, j);
    let closing: Seq<u8> = if delimited {
        sequence_delimiter_bytes(w)
    } else {
        Seq::empty()
    };
    lemma_item_header_round_trip(w.order, Tag(0xFFFE, 0xE0DD), Length(0), Seq::empty());
    lemma_item_header_round_trip(w.order, Tag(0xFFFE, 0xE00D), Length(0), Seq::empty());
    assert(b.subrange(pos, pos + enc.len() + closing.len()) == enc + closing) by {
        if !delimited {
            assert(enc + closing =~= enc);
        }
    }
    if j == items.len() {
        assert(items.skip(j as int) =~= Seq::<ItemTree>::empty());
        if delimited {
            assert(enc + closing =~= closing);
            lemma_starts_with(b, pos, end, closing);
            lemma_item_header_round_trip(
                w.order,
                Tag(0xFFFE, 0xE0DD),
                Length(0),
                b.subrange(pos + 8, end),
            );
        }
    } else {
        let item = items[j as int];
        assert(wf_item(w, item));
        let ih = item_header_bytes(w.order, Tag(0xFFFE, 0xE000), item.len);
        let body = encode_elements(w, item.elements, 0);
        let ending: Seq<u8> = if item.len.undefined_spec() {
            item_delimiter_bytes(w)
        } else {
            Seq::empty()
        };
        let one = encode_item(w, item);
        let tail = encode_items(w, items, j + 1);
        assert(enc == one + tail);
        assert(one =~= ih + (body + ending));
        lemma_item_header_round_trip(
            w.order,
            Tag(0xFFFE, 0xE000),
            item.len,
            b.subrange(pos + 8, end),
        );
        assert(enc + closing =~= ih + ((body + ending) + (tail + closing)));
        lemma_parts(b, pos, ih, (body + ending) + (tail + closing));
        lemma_starts_with(b, pos, end, ih);
        lemma_parts(b, pos + 8, body + ending, tail + closing);
        let p: int = pos + 8 + body.len() + ending.len();
        lemma_parse_item_body(w, item, b, pos + 8, end);
        if !delimited {
            assert(tail + closing =~= tail);
        }
        lemma_parse_items(w, items, j + 1, b, p, end, delimited);
        lemma_items_step(
            w,
            b,
            pos,
            end,
            delimited,
            item,
            p,
            items.skip(j as int + 1),
            p + tail.len() + closing.len(),
        );
        assert(seq![item] + items.skip(j as int + 1) =~= items.skip(j as int));
    }
}

/// The fragments of a list, from the place `i` on, are read back from
/// their bytes and the sequence delimiter after them.
pub proof fn lemma_parse_fragments(
    w: Wire,
    fragments: Seq<Seq<u8>>,
    i: nat,
    b: Seq<u8>,
    pos: int,
    end: int,
)
    requires
        forall|j: int| 0 <= j < fragments.len() ==> (#[trigger] fragments[j]).len() < 0xFFFF_FFFF,
        i <= fragments.len(),
        0 <= pos,
        end <= b.len(),
        pos + encode_fragments(w, fragments, i).len() + 8 <= end,
        b.subrange(pos, pos + encode_fragments(w, fragments, i).len() + 8) == encode_fragments(
            w,
            fragments,
            i,
        ) + sequence_delimiter_bytes(w),
    ensures
        parse_fragments(w.order, b, pos, end) == Ok::<(Seq<Seq<u8>>, int), ReadError>(
            (fragments.skip(i as int), pos + encode_fragments(w, fragments, i).len() + 8),
        ),
    decreases fragments.len() - i,
{
    let enc = encode_fragments(w, fragments, i);
    let whole = b.subrange(pos, pos + enc.len() + 8);
    let after = b.subrange(pos + 8, end);
    if i == fragments.len() {
        assert(fragments.skip(i as int) =~= Seq::<Seq<u8>>::empty());
        lemma_item_header_round_trip(w.order, Tag(0xFFFE, 0xE0DD), Length(0), after);
        assert(b.subrange(pos, end) =~= sequence_delimiter_bytes(w) + after) by {
            assert(b.subrange(pos, pos + 8) =~= sequence_delimiter_bytes(w));
            assert(b.subrange(pos, end) =~= b.subrange(pos, pos + 8) + after);
        }
    } else {
        let f = fragments[i as int];
        let len = Length(f.len() as u32);
        let ih = item_header_bytes(w.order, Tag(0xFFFE, 0xE000), len);
        let tail = encode_fragments(w, fragments, i + 1);
        assert(enc == ih + f + tail);
        lemma_item_header_round_trip(w.order, Tag(0xFFFE, 0xE000), len, after);
        assert(whole.subrange(0, 8) =~= ih);
        assert(b.subrange(pos, pos + 8) =~= whole.subrange(0, 8));
        assert(b.subrange(pos, end) =~= ih + after);
        assert(b.subrange(pos + 8, pos + 8 + f.len()) =~= f) by {
            assert(whole.subrange(8, 8 + f.len() as int) =~= f);
            assert(b.subrange(pos + 8, pos + 8 + f.len()) =~= whole.subrange(8, 8 + f.len() as int));
        }
        let p: int = pos + 8 + f.len();
        assert(b.subrange(p, pos + enc.len() + 8) =~= tail + sequence_delimiter_bytes(w)) by {
            assert(whole.subrange(8 + f.len() as int, enc.len() as int + 8) =~= tail + sequence_delimiter_bytes(w));
            assert(b.subrange(p, pos + enc.len() + 8) =~= whole.subrange(
                8 + f.len() as int,
                enc.len() as int + 8,
            ));
        }
        lemma_parse_fragments(w, fragments, i + 1, b, p, end);
        assert(seq![f] + fragments.skip(i as int + 1) =~= fragments.skip(i as int));
    }
}

/// Every well-formed data set is read back from its bytes as it is, and so
/// the bytes are written back from what was read: reading and then writing
/// the bytes of a well-formed data set gives the same bytes.
pub proof fn lemma_round_trip(w: Wire, elements: Seq<ElementTree>)
    requires
        w.wf(),
        wf_data_set(w, elements),
    ensures
        parse_data_set(w, encode_data_set(w, elements)) == Ok::<Seq<ElementTree>, ReadError>(
            elements,
        ),
        encode_data_set(w, parse_data_set(w, encode_data_set(w, elements))->Ok_0)
            == encode_data_set(w, elements),
{
    let b = encode_data_set(w, elements);
    assert(b.subrange(0, b.len() as int) =~= b);
    lemma_parse_elements(w, elements, 0, b, 0, b.len() as int, Ending::AtEnd);
    assert(elements.skip(0) =~= elements);
}

/// An element that is neither a sequence nor encapsulated pixel data is not
/// read with an undefined length.
pub proof fn lemma_undefined_length_not_allowed(
    w: Wire,
    b: Seq<u8>,
    pos: int,
    end: int,
    h: DataElementHeader,
)
    requires
        h.len.undefined_spec(),
        h.vr != VR::SQ,
        !h.encapsulated_pixel_data_spec(),
    ensures
        parse_value(w, b, pos, end, h) == Err::<(ValueTree, int), ReadError>(
            ReadError::UndefinedLengthNotAllowed { tag: h.tag },
        ),
{
}

/// The items of a sequence are read back, in their order, whether the
/// sequence is written with its length or with an undefined length and a
/// sequence delimiter.
pub proof fn lemma_sequence_framing(
    w: Wire,
    tag: Tag,
    items: Seq<ItemTree>,
    b: Seq<u8>,
    pos: int,
    end: int,
    defined: bool,
)
    requires
        w.wf(),
        forall|k: int| 0 <= k < items.len() ==> wf_item(w, #[trigger] items[k]),
        0 <= pos,
        end <= b.len(),
        encode_items(w, items, 0).len() < 0xFFFF_FFFF,
        defined ==> pos + encode_items(w, items, 0).len() <= end && b.subrange(
            pos,
            pos + encode_items(w, items, 0).len(),
        ) == encode_items(w, items, 0),
        !defined ==> pos + encode_items(w, items, 0).len() + 8 <= end && b.subrange(
            pos,
            pos + encode_items(w, items, 0).len() + 8,
        ) == encode_items(w, items, 0) + sequence_delimiter_bytes(w),
    ensures
        parse_value(
            w,
            b,
            pos,
            end,
            DataElementHeader {
                tag,
                vr: VR::SQ,
                len: if defined {
                    Length(encode_items(w, items, 0).len() as u32)
                } else {
                    Length(0xFFFF_FFFF)
                },
            },
        ) matches Ok((ValueTree::Items(read), _)) && read == items,
{
    let n = encode_items(w, items, 0).len();
    if defined {
        lemma_parse_items(w, items, 0, b, pos, pos + n, false);
    } else {
        lemma_parse_items(w, items, 0, b, pos, end, true);
    }
    assert(items.skip(0) =~= items);
}

} // verus!

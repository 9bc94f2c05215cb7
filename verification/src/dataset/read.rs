//! Reading of data sets.

use crate::dataset::{
    element_trees, fragment_runs, item_trees, ElementTree, ItemTree, RawElement, RawItem,
    RawValue, ReadError, ValueTree, Wire,
};
use crate::decode::{explicit_header, implicit_header, item_header, item_header_of};
use crate::dictionary::DataDictionary;
use crate::endian::Endianness;
use crate::header::{
    is_framing_tag, is_item_delimiter_tag, is_sequence_delimiter_tag, DataElementHeader, Length,
    SequenceItemHeader,
};
use crate::registry::HeaderCodec;
use crate::tag::Tag;
use crate::vr::VR;
use vstd::prelude::*;

verus! {

/// How a list of data elements ends.
#[derive(Clone, Copy, Debug, PartialEq, Eq, Structural)]
pub enum Ending {
    /// With the last byte that is there for it.
    AtEnd,
    /// With an item delimiter.
    AtItemDelimiter,
}

/// The data elements that stand in `b` from `pos` on, and the place after
/// them. The elements have the bytes up to `end` for them; by `ending` they
/// take all of these, or an item delimiter ends them before.
///
/// An item start or a delimiter in the place of an element is an error,
/// but for the item delimiter that is waited for.
pub open spec fn parse_elements(w: Wire, b: Seq<u8>, pos: int, end: int, ending: Ending) -> Result<
    (Seq<ElementTree>, int),
    ReadError,
>
    decreases end - pos, 2nat,
{
    if pos < 0 || pos >= end || end > b.len() {
        match ending {
            Ending::AtEnd => Ok((Seq::empty(), pos)),
            Ending::AtItemDelimiter => Err(ReadError::MissingDelimiter),
        }
    } else {
        match w.header_at(b.subrange(pos, end)) {
            Err(e) => Err(ReadError::DecodeHeader { source: e }),
            Ok((h, n)) => if is_item_delimiter_tag(h.tag) && ending == Ending::AtItemDelimiter {
                Ok((Seq::empty(), pos + n))
            } else if is_framing_tag(h.tag) {
                Err(ReadError::UnexpectedTag { tag: h.tag })
            } else if n == 0 || pos + n > end {
                Err(ReadError::MissingDelimiter)
            } else {
                match parse_value(w, b, pos + n, end, h) {
                    Err(e) => Err(e),
                    Ok((value, p)) => if p <= pos || p > end {
                        Err(ReadError::MissingDelimiter)
                    } else {
                        match parse_elements(w, b, p, end, ending) {
                            Err(e) => Err(e),
                            Ok((rest, q)) => Ok(
                                (seq![ElementTree { header: h, value }] + rest, q),
                            ),
                        }
                    },
                }
            },
        }
    }
}

/// The value that stands in `b` at `pos` for an element with the header
/// `h`, and the place after it.
///
/// A sequence holds items: up to the sequence delimiter where its length is
/// undefined, else in just the bytes of its length. Encapsulated pixel data
/// holds fragments up to the sequence delimiter. Any other element has no
/// undefined length; its value is the bytes of its length.
pub open spec fn parse_value(w: Wire, b: Seq<u8>, pos: int, end: int, h: DataElementHeader) -> Result<
    (ValueTree, int),
    ReadError,
>
    decreases end - pos, 1nat,
{
    if h.vr == VR::SQ {
        if h.len.undefined_spec() {
            match parse_items(w, b, pos, end, true) {
                Ok((items, p)) => Ok((ValueTree::Items(items), p)),
                Err(e) => Err(e),
            }
        } else if pos + h.len.0 > end {
            Err(ReadError::ValueBeyondEnd { tag: h.tag })
        } else {
            match parse_items(w, b, pos, pos + h.len.0, false) {
                Ok((items, p)) => Ok((ValueTree::Items(items), p)),
                Err(e) => Err(e),
            }
        }
    } else if h.encapsulated_pixel_data_spec() {
        match parse_fragments(w.order, b, pos, end) {
            Ok((fragments, p)) => Ok((ValueTree::Fragments(fragments), p)),
            Err(e) => Err(e),
        }
    } else if h.len.undefined_spec() {
        Err(ReadError::UndefinedLengthNotAllowed { tag: h.tag })
    } else if pos + h.len.0 > end || end > b.len() {
        Err(ReadError::ValueBeyondEnd { tag: h.tag })
    } else {
        Ok((ValueTree::Bytes(b.subrange(pos, pos + h.len.0)), pos + h.len.0))
    }
}

/// The items that stand in `b` from `pos` on, and the place after them.
/// Where `delimited` holds a sequence delimiter ends them; else they take
/// all the bytes up to `end`.
///
/// An item of undefined length holds data elements up to its item
/// delimiter, one of defined length in just the bytes of its length.
pub open spec fn parse_items(w: Wire, b: Seq<u8>, pos: int, end: int, delimited: bool) -> Result<
    (Seq<ItemTree>, int),
    ReadError,
>
    decreases end - pos, 0nat,
{
    if pos < 0 || pos >= end || end > b.len() {
        if delimited {
            Err(ReadError::MissingDelimiter)
        } else {
            Ok((Seq::empty(), pos))
        }
    } else {
        match item_header_of(w.order, b.subrange(pos, end)) {
            Err(e) => Err(ReadError::DecodeHeader { source: e }),
            Ok((tag, len)) => if is_sequence_delimiter_tag(tag) {
                if delimited {
                    Ok((Seq::empty(), pos + 8))
                } else {
                    Err(ReadError::UnexpectedTag { tag })
                }
            } else if is_item_delimiter_tag(tag) || pos + 8 > end {
                Err(ReadError::UnexpectedTag { tag })
            } else {
                let inner = if len.undefined_spec() {
                    parse_elements(w, b, pos + 8, end, Ending::AtItemDelimiter)
                } else if pos + 8 + len.0 > end {
                    Err(ReadError::ValueBeyondEnd { tag })
                } else {
                    parse_elements(w, b, pos + 8, pos + 8 + len.0, Ending::AtEnd)
                };
                match inner {
                    Err(e) => Err(e),
                    Ok((elements, p)) => if p <= pos || p > end {
                        Err(ReadError::MissingDelimiter)
                    } else {
                        match parse_items(w, b, p, end, delimited) {
                            Err(e) => Err(e),
                            Ok((rest, q)) => Ok((seq![ItemTree { len, elements }] + rest, q)),
                        }
                    },
                }
            },
        }
    }
}

/// The fragments that stand in `b` from `pos` on, up to the sequence
/// delimiter, and the place after it. Each fragment is an item of defined
/// length; its bytes are taken as they are.
pub open spec fn parse_fragments(order: Endianness, b: Seq<u8>, pos: int, end: int) -> Result<
    (Seq<Seq<u8>>, int),
    ReadError,
>
    decreases end - pos,
{
    if pos < 0 || pos >= end || end > b.len() {
        Err(ReadError::MissingDelimiter)
    } else {
        match item_header_of(order, b.subrange(pos, end)) {
            Err(e) => Err(ReadError::DecodeHeader { source: e }),
            Ok((tag, len)) => if is_sequence_delimiter_tag(tag) {
                Ok((Seq::empty(), pos + 8))
            } else if is_item_delimiter_tag(tag) || pos + 8 > end {
                Err(ReadError::UnexpectedTag { tag })
            } else if len.undefined_spec() {
                Err(ReadError::UndefinedLengthNotAllowed { tag })
            } else if pos + 8 + len.0 > end {
                Err(ReadError::ValueBeyondEnd { tag })
            } else {
                match parse_fragments(order, b, pos + 8 + len.0, end) {
                    Err(e) => Err(e),
                    Ok((rest, q)) => Ok(
                        (seq![b.subrange(pos + 8, pos + 8 + len.0)] + rest, q),
                    ),
                }
            },
        }
    }
}

/// The data set that the bytes `b` hold.
pub open spec fn parse_data_set(w: Wire, b: Seq<u8>) -> Result<Seq<ElementTree>, ReadError> {
    match parse_elements(w, b, 0, b.len() as int, Ending::AtEnd) {
        Ok((elements, _)) => Ok(elements),
        Err(e) => Err(e),
    }
}

/// How the headers of a data set are written with a header codec and a
/// dictionary.
pub open spec fn wire_of<D: DataDictionary>(codec: HeaderCodec, dict: &D) -> Wire {
    Wire {
        explicit_vr: codec != HeaderCodec::ImplicitVRLittleEndian,
        order: if codec == HeaderCodec::ExplicitVRBigEndian {
            Endianness::Big
        } else {
            Endianness::Little
        },
        known: |t: Tag| dict.vr_of(t),
    }
}

/// The byte order of a header codec.
pub fn order_of(codec: HeaderCodec) -> (order: Endianness)
    ensures
        order == (if codec == HeaderCodec::ExplicitVRBigEndian {
            Endianness::Big
        } else {
            Endianness::Little
        }),
{
    match codec {
        HeaderCodec::ExplicitVRBigEndian => Endianness::Big,
        _ => Endianness::Little,
    }
}

/// What was read so far, and then what is read from here on.
pub open spec fn after<T>(so_far: Seq<T>, r: Result<(Seq<T>, int), ReadError>) -> Result<
    (Seq<T>, int),
    ReadError,
> {
    match r {
        Ok((more, q)) => Ok((so_far + more, q)),
        Err(e) => Err(e),
    }
}

/// Reads the header of a data element from the bytes between `pos` and
/// `end`.
pub fn read_header<D: DataDictionary>(codec: HeaderCodec, dict: &D, b: &[u8], pos: usize, end: usize) -> (r:
    Result<(DataElementHeader, usize), crate::decode::Error>)
    requires
        pos <= end <= b@.len(),
    ensures
        r == wire_of(codec, dict).header_at(b@.subrange(pos as int, end as int)),
        r matches Ok((_, n)) ==> (n == 8 || n == 12) && pos + n <= end,
{
    let window: &[u8] = vstd::slice::slice_subrange(b, pos, end);
    match codec {
        HeaderCodec::ImplicitVRLittleEndian => implicit_header(dict, window),
        HeaderCodec::ExplicitVRLittleEndian => explicit_header(Endianness::Little, window),
        HeaderCodec::ExplicitVRBigEndian => explicit_header(Endianness::Big, window),
    }
}

/// Reads the data elements that stand in `b` from `pos` on.
pub fn read_elements<D: DataDictionary>(
    codec: HeaderCodec,
    dict: &D,
    b: &[u8],
    pos: usize,
    end: usize,
    ending: Ending,
) -> (r: Result<(Vec<RawElement>, usize), ReadError>)
    requires
        pos <= end <= b@.len(),
    ensures
        match parse_elements(wire_of(codec, dict), b@, pos as int, end as int, ending) {
            Ok((trees, p)) => r matches Ok((elements, q)) && element_trees(&elements) == trees && q
                == p && pos <= q <= end,
            Err(e) => r matches Err(x) && x == e,
        },
    decreases end - pos, 2nat,
{
    let ghost w = wire_of(codec, dict);
    let mut elements: Vec<RawElement> = Vec::new();
    let mut cur: usize = pos;
    assert(element_trees(&elements) =~= Seq::empty());
    loop
        invariant
            pos <= cur <= end <= b@.len(),
            w == wire_of(codec, dict),
            parse_elements(w, b@, pos as int, end as int, ending) == after(
                element_trees(&elements),
                parse_elements(w, b@, cur as int, end as int, ending),
            ),
        decreases end - cur,
    {
        let ghost so_far = element_trees(&elements);
        if cur >= end {
            assert(so_far + Seq::<ElementTree>::empty() =~= so_far);
            return match ending {
                Ending::AtEnd => Ok((elements, cur)),
                Ending::AtItemDelimiter => Err(ReadError::MissingDelimiter),
            };
        }
        let (h, n) = match read_header(codec, dict, b, cur, end) {
            Ok(found) => found,
            Err(e) => {
                return Err(ReadError::DecodeHeader { source: e });
            },
        };
        if h.is_item_delimiter() && ending == Ending::AtItemDelimiter {
            assert(so_far + Seq::<ElementTree>::empty() =~= so_far);
            return Ok((elements, cur + n));
        }
        if crate::header::frames_items(h.tag) {
            return Err(ReadError::UnexpectedTag { tag: h.tag });
        }
        let (value, p) = match read_value(codec, dict, b, cur + n, end, h) {
            Ok(found) => found,
            Err(e) => {
                return Err(e);
            },
        };
        let ghost tree = ElementTree { header: h, value: value.tree() };
        proof {
            let rest = parse_elements(w, b@, p as int, end as int, ending);
            assert(parse_elements(w, b@, cur as int, end as int, ending) == after(seq![tree], rest));
            if rest is Ok {
                assert(so_far + (seq![tree] + rest->Ok_0.0) =~= so_far.push(tree) + rest->Ok_0.0);
            }
        }
        elements.push(RawElement { header: h, value });
        assert(element_trees(&elements) =~= so_far.push(tree));
        cur = p;
    }
}

/// Reads the value that stands in `b` at `pos` for an element with the
/// header `h`.
pub fn read_value<D: DataDictionary>(
    codec: HeaderCodec,
    dict: &D,
    b: &[u8],
    pos: usize,
    end: usize,
    h: DataElementHeader,
) -> (r: Result<(RawValue, usize), ReadError>)
    requires
        pos <= end <= b@.len(),
    ensures
        match parse_value(wire_of(codec, dict), b@, pos as int, end as int, h) {
            Ok((tree, p)) => r matches Ok((value, q)) && value.tree() == tree && q == p && pos <= q
                <= end,
            Err(e) => r matches Err(x) && x == e,
        },
    decreases end - pos, 1nat,
{
    if h.vr.is_sequence() {
        if h.len.is_undefined() {
            match read_items(codec, dict, b, pos, end, true) {
                Ok((items, q)) => {
                    let value = RawValue::Items(items);
                    assert(value.tree()->Items_0 =~= item_trees(&items));
                    Ok((value, q))
                },
                Err(e) => Err(e),
            }
        } else {
            let len: usize = h.len.0 as usize;
            if len > end - pos {
                return Err(ReadError::ValueBeyondEnd { tag: h.tag });
            }
            match read_items(codec, dict, b, pos, pos + len, false) {
                Ok((items, q)) => {
                    let value = RawValue::Items(items);
                    assert(value.tree()->Items_0 =~= item_trees(&items));
                    Ok((value, q))
                },
                Err(e) => Err(e),
            }
        }
    } else if h.is_encapsulated_pixel_data() {
        match read_fragments(order_of(codec), b, pos, end) {
            Ok((fragments, q)) => Ok((RawValue::Fragments(fragments), q)),
            Err(e) => Err(e),
        }
    } else if h.len.is_undefined() {
        Err(ReadError::UndefinedLengthNotAllowed { tag: h.tag })
    } else {
        let len: usize = h.len.0 as usize;
        if len > end - pos {
            return Err(ReadError::ValueBeyondEnd { tag: h.tag });
        }
        let bytes: Vec<u8> = vstd::slice::slice_to_vec(vstd::slice::slice_subrange(b, pos, pos + len));
        Ok((RawValue::Bytes(bytes), pos + len))
    }
}

/// Reads the items that stand in `b` from `pos` on.
pub fn read_items<D: DataDictionary>(
    codec: HeaderCodec,
    dict: &D,
    b: &[u8],
    pos: usize,
    end: usize,
    delimited: bool,
) -> (r: Result<(Vec<RawItem>, usize), ReadError>)
    requires
        pos <= end <= b@.len(),
    ensures
        match parse_items(wire_of(codec, dict), b@, pos as int, end as int, delimited) {
            Ok((trees, p)) => r matches Ok((items, q)) && item_trees(&items) == trees && q == p
                && pos <= q <= end,
            Err(e) => r matches Err(x) && x == e,
        },
    decreases end - pos, 0nat,
{
    let ghost w = wire_of(codec, dict);
    let order: Endianness = order_of(codec);
    let mut items: Vec<RawItem> = Vec::new();
    let mut cur: usize = pos;
    assert(item_trees(&items) =~= Seq::empty());
    loop
        invariant
            pos <= cur <= end <= b@.len(),
            w == wire_of(codec, dict),
            order == w.order,
            parse_items(w, b@, pos as int, end as int, delimited) == after(
                item_trees(&items),
                parse_items(w, b@, cur as int, end as int, delimited),
            ),
        decreases end - cur,
    {
        let ghost so_far = item_trees(&items);
        if cur >= end {
            assert(so_far + Seq::<ItemTree>::empty() =~= so_far);
            return if delimited {
                Err(ReadError::MissingDelimiter)
            } else {
                Ok((items, cur))
            };
        }
        let header: SequenceItemHeader = match item_header(
            order,
            vstd::slice::slice_subrange(b, cur, end),
        ) {
            Ok(header) => header,
            Err(e) => {
                return Err(ReadError::DecodeHeader { source: e });
            },
        };
        let tag: Tag = header.tag();
        let len: Length = header.length();
        if header.is_sequence_delimiter() {
            assert(so_far + Seq::<ItemTree>::empty() =~= so_far);
            return if delimited {
                Ok((items, cur + 8))
            } else {
                Err(ReadError::UnexpectedTag { tag })
            };
        }
        if header.is_item_delimiter() {
            return Err(ReadError::UnexpectedTag { tag });
        }
        let inner = if len.is_undefined() {
            read_elements(codec, dict, b, cur + 8, end, Ending::AtItemDelimiter)
        } else {
            let n: usize = len.0 as usize;
            if n > end - (cur + 8) {
                return Err(ReadError::ValueBeyondEnd { tag });
            }
            read_elements(codec, dict, b, cur + 8, cur + 8 + n, Ending::AtEnd)
        };
        let (elements, p) = match inner {
            Ok(found) => found,
            Err(e) => {
                return Err(e);
            },
        };
        let item = RawItem { len, elements };
        let ghost tree = item.tree();
        proof {
            assert(tree.elements =~= element_trees(&item.elements));
            let rest = parse_items(w, b@, p as int, end as int, delimited);
            assert(parse_items(w, b@, cur as int, end as int, delimited) == after(seq![tree], rest));
            if rest is Ok {
                assert(so_far + (seq![tree] + rest->Ok_0.0) =~= so_far.push(tree) + rest->Ok_0.0);
            }
        }
        items.push(item);
        assert(item_trees(&items) =~= so_far.push(tree));
        cur = p;
    }
}

/// Reads the fragments that stand in `b` from `pos` on, up to the sequence
/// delimiter.
pub fn read_fragments(order: Endianness, b: &[u8], pos: usize, end: usize) -> (r: Result<
    (Vec<Vec<u8>>, usize),
    ReadError,
>)
    requires
        pos <= end <= b@.len(),
    ensures
        match parse_fragments(order, b@, pos as int, end as int) {
            Ok((runs, p)) => r matches Ok((fragments, q)) && fragment_runs(&fragments) == runs && q
                == p && pos <= q <= end,
            Err(e) => r matches Err(x) && x == e,
        },
{
    let mut fragments: Vec<Vec<u8>> = Vec::new();
    let mut cur: usize = pos;
    assert(fragment_runs(&fragments) =~= Seq::empty());
    loop
        invariant
            pos <= cur <= end <= b@.len(),
            parse_fragments(order, b@, pos as int, end as int) == after(
                fragment_runs(&fragments),
                parse_fragments(order, b@, cur as int, end as int),
            ),
        decreases end - cur,
    {
        let ghost so_far = fragment_runs(&fragments);
        if cur >= end {
            return Err(ReadError::MissingDelimiter);
        }
        let header: SequenceItemHeader = match item_header(
            order,
            vstd::slice::slice_subrange(b, cur, end),
        ) {
            Ok(header) => header,
            Err(e) => {
                return Err(ReadError::DecodeHeader { source: e });
            },
        };
        let tag: Tag = header.tag();
        let len: Length = header.length();
        if header.is_sequence_delimiter() {
            assert(so_far + Seq::<Seq<u8>>::empty() =~= so_far);
            return Ok((fragments, cur + 8));
        }
        if header.is_item_delimiter() {
            return Err(ReadError::UnexpectedTag { tag });
        }
        if len.is_undefined() {
            return Err(ReadError::UndefinedLengthNotAllowed { tag });
        }
        let n: usize = len.0 as usize;
        if n > end - (cur + 8) {
            return Err(ReadError::ValueBeyondEnd { tag });
        }
        let bytes: Vec<u8> = vstd::slice::slice_to_vec(
            vstd::slice::slice_subrange(b, cur + 8, cur + 8 + n),
        );
        proof {
            let run = b@.subrange(cur + 8, cur + 8 + n);
            let rest = parse_fragments(order, b@, cur + 8 + n, end as int);
            assert(parse_fragments(order, b@, cur as int, end as int) == after(seq![run], rest));
            if rest is Ok {
                assert(so_far + (seq![run] + rest->Ok_0.0) =~= so_far.push(run) + rest->Ok_0.0);
            }
        }
        fragments.push(bytes);
        assert(fragment_runs(&fragments) =~= so_far.push(b@.subrange(cur + 8, cur + 8 + n)));
        cur = cur + 8 + n;
    }
}

/// Reads the data set that the bytes hold.
pub fn read_data_set<D: DataDictionary>(codec: HeaderCodec, dict: &D, bytes: &[u8]) -> (r: Result<
    Vec<RawElement>,
    ReadError,
>)
    ensures
        match parse_data_set(wire_of(codec, dict), bytes@) {
            Ok(trees) => r matches Ok(elements) && element_trees(&elements) == trees,
            Err(e) => r matches Err(x) && x == e,
        },
{
    match read_elements(codec, dict, bytes, 0, bytes.len(), Ending::AtEnd) {
        Ok((elements, _)) => Ok(elements),
        Err(e) => Err(e),
    }
}

} // verus!

//! Data elements, their values, and the object that holds them in memory.

use crate::header::{DataElementHeader, Length};
use crate::tag::Tag;
use crate::value::{joined_bytes, text_bytes, PrimitiveModel, PrimitiveValue};
use crate::vr::VR;
use vstd::prelude::*;
use vstd::std_specs::cmp::PartialEqSpecImpl;

verus! {

/// The fragments of pixel data in encapsulated form, with the basic offset
/// table that comes before them.
#[derive(Clone, Debug, PartialEq, Eq)]
pub struct PixelFragmentSequence {
    /// The basic offset table; it may be empty.
    pub offset_table: Vec<u32>,
    /// The fragments, in the order in which they were written.
    pub fragments: Vec<Vec<u8>>,
}

/// The value of a data element.
#[derive(Debug)]
pub enum Value<D> {
    /// A primitive value.
    Primitive(PrimitiveValue),
    /// A sequence of items, each one an object of its own.
    Sequence(Vec<InMemDicomObject<D>>),
    /// Pixel data in encapsulated form.
    PixelSequence(PixelFragmentSequence),
}

/// A data element: a header and the value that it announces.
#[derive(Debug)]
pub struct DataElement<D> {
    header: DataElementHeader,
    value: Value<D>,
}

/// An object in memory: data elements by their tags, in ascending order of
/// the tags, with at most one element of each tag. The object also holds the
/// dictionary that tells the value representations of its attributes.
#[derive(Debug)]
pub struct InMemDicomObject<D> {
    entries: Vec<DataElement<D>>,
    dict: D,
}

/// The mathematical value of a [`Value`].
pub ghost enum ValueModel {
    /// A primitive value.
    Primitive(PrimitiveModel),
    /// A sequence of items.
    Sequence(Seq<ObjectModel>),
    /// Pixel data in encapsulated form: the offset table and the fragments.
    PixelSequence(Seq<u32>, Seq<Seq<u8>>),
}

/// The mathematical value of a [`DataElement`].
pub ghost struct ElementModel {
    /// The header of the element.
    pub header: DataElementHeader,
    /// The value of the element.
    pub value: ValueModel,
}

/// The mathematical value of an [`InMemDicomObject`]: its elements in the
/// order of their tags.
pub ghost struct ObjectModel {
    /// The elements, in ascending order of their tags.
    pub elements: Seq<ElementModel>,
}

/// The byte runs of a list of fragments.
pub open spec fn fragment_bytes(list: Seq<Vec<u8>>) -> Seq<Seq<u8>> {
    Seq::new(list.len(), |i: int| list[i]@)
}

impl ValueModel {
    /// The length that a header announces such a value with: the number of
    /// bytes that a primitive value takes on the wire, padding included, and
    /// the undefined length for a sequence and for fragments.
    pub open spec fn length(self) -> Length {
        match self {
            ValueModel::Primitive(p) => Length(p.padded_length() as u32),
            ValueModel::Sequence(_) => Length(0xFFFF_FFFF),
            ValueModel::PixelSequence(_, _) => Length(0xFFFF_FFFF),
        }
    }

    /// Whether a header can announce the value: the bytes of a primitive
    /// value on the wire must be fewer than the mark of the undefined
    /// length.
    pub open spec fn announceable(self) -> bool {
        self matches ValueModel::Primitive(p) ==> p.padded_length() < 0xFFFF_FFFF
    }
}

impl ObjectModel {
    /// The object without elements.
    pub open spec fn empty() -> ObjectModel {
        ObjectModel { elements: Seq::empty() }
    }

    /// The tag of the element at place `i`.
    pub open spec fn tag_at(self, i: int) -> Tag {
        self.elements[i].header.tag
    }

    /// Whether the tags of the elements strictly ascend, so that no tag
    /// occurs twice.
    pub open spec fn ascending(self) -> bool {
        forall|i: int, j: int|
            0 <= i < j < self.elements.len() ==> self.tag_at(i).rank() < self.tag_at(j).rank()
    }

    /// The number of elements whose tags come before `tag`: the place at
    /// which an element of that tag stands, or would stand.
    pub open spec fn place(self, tag: Tag) -> nat
        decreases self.elements.len(),
    {
        if self.elements.len() == 0 {
            0
        } else if self.elements.last().header.tag.rank() < tag.rank() {
            self.elements.len()
        } else {
            (ObjectModel { elements: self.elements.drop_last() }).place(tag)
        }
    }

    /// Whether the object has an element of the given tag.
    pub open spec fn contains(self, tag: Tag) -> bool {
        self.place(tag) < self.elements.len() && self.tag_at(self.place(tag) as int) == tag
    }

    /// The element of the given tag, if the object has one.
    pub open spec fn get(self, tag: Tag) -> Option<ElementModel> {
        if self.contains(tag) {
            Some(self.elements[self.place(tag) as int])
        } else {
            None
        }
    }

    /// The object with `e` put in: in place of the element of the same tag
    /// where there is one, else at the place that keeps the tags ascending.
    pub open spec fn put(self, e: ElementModel) -> ObjectModel {
        let k = self.place(e.header.tag) as int;
        if self.contains(e.header.tag) {
            ObjectModel { elements: self.elements.update(k, e) }
        } else {
            ObjectModel { elements: self.elements.insert(k, e) }
        }
    }

    /// The object without the element of the given tag.
    pub open spec fn remove(self, tag: Tag) -> ObjectModel {
        if self.contains(tag) {
            ObjectModel { elements: self.elements.remove(self.place(tag) as int) }
        } else {
            self
        }
    }
}

/// In an ascending object the place of a tag parts the elements: those
/// before it have smaller tags, those from it on have tags at least as
/// large. No other place does so.
pub proof fn lemma_place(m: ObjectModel, tag: Tag)
    requires
        m.ascending(),
    ensures
        m.place(tag) <= m.elements.len(),
        forall|i: int| 0 <= i < m.place(tag) ==> m.tag_at(i).rank() < tag.rank(),
        forall|i: int| m.place(tag) <= i < m.elements.len() ==> m.tag_at(i).rank() >= tag.rank(),
    decreases m.elements.len(),
{
    if m.elements.len() == 0 {
    } else if m.elements.last().header.tag.rank() < tag.rank() {
        assert forall|i: int| 0 <= i < m.elements.len() implies m.tag_at(i).rank()
            < tag.rank() by {
            if i < m.elements.len() - 1 {
                assert(m.tag_at(i).rank() < m.tag_at(m.elements.len() - 1).rank());
            }
        }
    } else {
        let shorter = ObjectModel { elements: m.elements.drop_last() };
        assert forall|i: int, j: int| 0 <= i < j < shorter.elements.len() implies shorter.tag_at(
            i,
        ).rank() < shorter.tag_at(j).rank() by {
            assert(shorter.tag_at(i) == m.tag_at(i));
            assert(shorter.tag_at(j) == m.tag_at(j));
        }
        lemma_place(shorter, tag);
        assert forall|i: int| 0 <= i < m.place(tag) implies m.tag_at(i).rank() < tag.rank() by {
            assert(shorter.tag_at(i) == m.tag_at(i));
        }
        assert forall|i: int| m.place(tag) <= i < m.elements.len() implies m.tag_at(i).rank()
            >= tag.rank() by {
            if i < m.elements.len() - 1 {
                assert(shorter.tag_at(i) == m.tag_at(i));
            }
        }
    }
}

/// A place that parts the elements of an ascending object as the place of
/// `tag` does is the place of `tag`.
pub proof fn lemma_place_is(m: ObjectModel, tag: Tag, k: int)
    requires
        m.ascending(),
        0 <= k <= m.elements.len(),
        forall|i: int| 0 <= i < k ==> m.tag_at(i).rank() < tag.rank(),
        forall|i: int| k <= i < m.elements.len() ==> m.tag_at(i).rank() >= tag.rank(),
    ensures
        m.place(tag) == k,
{
    lemma_place(m, tag);
    let p = m.place(tag) as int;
    if p < k {
        assert(m.tag_at(p).rank() < tag.rank());
    } else if k < p {
        assert(m.tag_at(k).rank() < tag.rank());
    }
}

/// Two tags of the same rank are the same tag.
pub proof fn lemma_rank_names(a: Tag, b: Tag)
    requires
        a.rank() == b.rank(),
    ensures
        a == b,
{
}

/// Putting an element into an ascending object keeps it ascending; the
/// object then holds that element under its tag and, under every other
/// tag, what it held before.
pub proof fn lemma_put(m: ObjectModel, e: ElementModel, tag: Tag)
    requires
        m.ascending(),
    ensures
        m.put(e).ascending(),
        m.put(e).get(e.header.tag) == Some(e),
        tag != e.header.tag ==> m.put(e).get(tag) == m.get(tag),
{
    let t = e.header.tag;
    let k = m.place(t) as int;
    let n = m.put(e);
    lemma_place(m, t);
    lemma_place(m, tag);
    if m.contains(t) {
        assert forall|i: int, j: int| 0 <= i < j < n.elements.len() implies n.tag_at(i).rank()
            < n.tag_at(j).rank() by {
            assert(n.tag_at(i) == m.tag_at(i));
            assert(n.tag_at(j) == m.tag_at(j));
        }
        assert forall|i: int| 0 <= i < n.elements.len() implies n.tag_at(i) == m.tag_at(i) by {}
        lemma_place_is(n, t, k);
        lemma_place_is(n, tag, m.place(tag) as int);
        if tag != t {
            if m.place(tag) == k && m.contains(tag) {
                assert(false);
            }
        }
    } else {
        assert forall|i: int| 0 <= i < n.elements.len() implies n.tag_at(i) == (if i < k {
            m.tag_at(i)
        } else if i == k {
            t
        } else {
            m.tag_at(i - 1)
        }) by {}
        assert forall|i: int| k <= i < m.elements.len() implies m.tag_at(i).rank() > t.rank() by {
            if m.tag_at(i).rank() == t.rank() {
                lemma_rank_names(m.tag_at(i), t);
                if i > k {
                    assert(m.tag_at(k).rank() < m.tag_at(i).rank());
                }
            }
        }
        assert forall|i: int, j: int| 0 <= i < j < n.elements.len() implies n.tag_at(i).rank()
            < n.tag_at(j).rank() by {
            if j < k {
                assert(m.tag_at(i).rank() < m.tag_at(j).rank());
            } else if j == k {
            } else if i < k {
                assert(m.tag_at(j - 1).rank() > t.rank());
            } else if i == k {
                assert(m.tag_at(j - 1).rank() > t.rank());
            } else {
                assert(m.tag_at(i - 1).rank() < m.tag_at(j - 1).rank());
            }
        }
        lemma_place_is(n, t, k);
        if tag != t {
            let p = m.place(tag) as int;
            if tag.rank() < t.rank() {
                assert(p <= k) by {
                    if p > k {
                        assert(m.tag_at(k).rank() < tag.rank());
                    }
                }
                lemma_place_is(n, tag, p);
                if p == k {
                    assert(!m.contains(tag)) by {
                        if m.contains(tag) {
                            assert(m.tag_at(k).rank() > t.rank());
                        }
                    }
                }
            } else {
                if tag.rank() == t.rank() {
                    lemma_rank_names(tag, t);
                }
                assert(p >= k) by {
                    if p < k {
                        assert(m.tag_at(p).rank() >= tag.rank());
                        assert(m.tag_at(p).rank() < t.rank());
                    }
                }
                lemma_place_is(n, tag, p + 1);
            }
        }
    }
}

/// Removing a tag from an ascending object keeps it ascending; the object
/// then holds nothing under that tag and, under every other tag, what it
/// held before.
pub proof fn lemma_remove(m: ObjectModel, gone: Tag, tag: Tag)
    requires
        m.ascending(),
    ensures
        m.remove(gone).ascending(),
        m.remove(gone).get(gone) is None,
        tag != gone ==> m.remove(gone).get(tag) == m.get(tag),
{
    let k = m.place(gone) as int;
    let n = m.remove(gone);
    lemma_place(m, gone);
    lemma_place(m, tag);
    if m.contains(gone) {
        assert forall|i: int| 0 <= i < n.elements.len() implies n.tag_at(i) == (if i < k {
            m.tag_at(i)
        } else {
            m.tag_at(i + 1)
        }) by {}
        assert forall|i: int, j: int| 0 <= i < j < n.elements.len() implies n.tag_at(i).rank()
            < n.tag_at(j).rank() by {
            let a = if i < k { i } else { i + 1 };
            let b = if j < k { j } else { j + 1 };
            assert(m.tag_at(a).rank() < m.tag_at(b).rank());
        }
        assert forall|i: int| k <= i < n.elements.len() implies n.tag_at(i).rank()
            > gone.rank() by {
            assert(m.tag_at(k).rank() < m.tag_at(i + 1).rank());
        }
        lemma_place_is(n, gone, k);
        if tag != gone {
            let p = m.place(tag) as int;
            if tag.rank() < gone.rank() {
                assert(p <= k) by {
                    if p > k {
                        assert(m.tag_at(k).rank() < tag.rank());
                    }
                }
                lemma_place_is(n, tag, p);
                if p == k {
                    assert(m.tag_at(k) != tag);
                    if k < n.elements.len() {
                        assert(n.tag_at(k).rank() > gone.rank());
                    }
                }
            } else {
                if tag.rank() == gone.rank() {
                    lemma_rank_names(tag, gone);
                }
                assert(p > k) by {
                    if p <= k {
                        assert(m.tag_at(k).rank() >= tag.rank());
                    }
                }
                lemma_place_is(n, tag, p - 1);
            }
        }
    } else {
    }
}

impl<D> Value<D> {
    /// The mathematical value.
    pub open spec fn model(&self) -> ValueModel
        decreases self,
    {
        match self {
            Value::Primitive(p) => ValueModel::Primitive(p@),
            Value::Sequence(items) => ValueModel::Sequence(
                Seq::new(
                    items@.len(),
                    |i: int|
                        if 0 <= i < items@.len() {
                            items[i].model()
                        } else {
                            arbitrary()
                        },
                ),
            ),
            Value::PixelSequence(f) => ValueModel::PixelSequence(
                f.offset_table@,
                fragment_bytes(f.fragments@),
            ),
        }
    }

    /// The length that a new element announces the value with. A list of
    /// values is announced with the bytes that it takes on the wire, padding
    /// included; a single text that is held as it stands, with the bytes of
    /// the text as it stands; a sequence and fragments, with the undefined
    /// length.
    pub open spec fn announced(&self) -> Length {
        match self {
            Value::Primitive(PrimitiveValue::Str(s)) => Length(text_bytes(s@) as u32),
            _ => self.model().length(),
        }
    }

    /// The length that a new element announces the value with, where a
    /// header can announce it.
    pub fn length(&self) -> (r: Option<Length>)
        ensures
            r is Some <==> self.model().announceable(),
            r matches Some(l) ==> l == self.announced(),
    {
        match self {
            Value::Primitive(PrimitiveValue::Str(s)) => {
                assert(joined_bytes(seq![s@], 1) == text_bytes(s@));
                let n: usize = s.as_str().as_bytes().len();
                if n < 0xFFFF_FFFF {
                    Some(Length(n as u32))
                } else {
                    None
                }
            },
            _ => self.wire_length(),
        }
    }

    /// The length that the value takes on the wire, where a header can
    /// announce it: that of a primitive value with its padding, and the
    /// undefined length for a sequence and for fragments.
    pub fn wire_length(&self) -> (r: Option<Length>)
        ensures
            r is Some <==> self.model().announceable(),
            r matches Some(l) ==> l == self.model().length(),
    {
        match self {
            Value::Primitive(p) => {
                match p.checked_byte_length() {
                    Some(n) => Some(Length(n)),
                    None => None,
                }
            },
            Value::Sequence(_) => Some(Length(0xFFFF_FFFF)),
            Value::PixelSequence(_) => Some(Length(0xFFFF_FFFF)),
        }
    }
}

impl<D> DataElement<D> {
    /// The mathematical value.
    pub closed spec fn model(&self) -> ElementModel
        decreases self,
    {
        ElementModel { header: self.header, value: self.value.model() }
    }

    /// An element of the given tag and value representation that holds
    /// `value`. The header announces a list of values with the bytes that it
    /// takes on the wire, padding included, a single text that is held as it
    /// stands with the bytes of that text, and a sequence or fragments with
    /// the undefined length.
    pub fn new(tag: Tag, vr: VR, value: Value<D>) -> (e: DataElement<D>)
        requires
            value.model().announceable(),
        ensures
            e.model() == (ElementModel {
                header: DataElementHeader { tag, vr, len: value.announced() },
                value: value.model(),
            }),
    {
        let len: Length = match value.length() {
            Some(l) => l,
            None => Length(0),
        };
        DataElement { header: DataElementHeader { tag, vr, len }, value }
    }

    /// As [`DataElement::new`], for any value: `None` where the bytes of a
    /// primitive value are too many for a header to announce.
    pub fn try_new(tag: Tag, vr: VR, value: Value<D>) -> (r: Option<DataElement<D>>)
        ensures
            r is Some <==> value.model().announceable(),
            r matches Some(e) ==> e.model() == (ElementModel {
                header: DataElementHeader { tag, vr, len: value.announced() },
                value: value.model(),
            }),
    {
        match value.length() {
            Some(len) => Some(DataElement { header: DataElementHeader { tag, vr, len }, value }),
            None => None,
        }
    }

    /// An element with the given header and value, whatever length the
    /// header announces.
    pub fn new_with_len(tag: Tag, vr: VR, len: Length, value: Value<D>) -> (e: DataElement<D>)
        ensures
            e.model() == (ElementModel {
                header: DataElementHeader { tag, vr, len },
                value: value.model(),
            }),
    {
        DataElement { header: DataElementHeader { tag, vr, len }, value }
    }

    /// An element without a value.
    pub fn empty(tag: Tag, vr: VR) -> (e: DataElement<D>)
        ensures
            e.model() == (ElementModel {
                header: DataElementHeader { tag, vr, len: Length(0) },
                value: ValueModel::Primitive(PrimitiveModel::Empty),
            }),
    {
        DataElement {
            header: DataElementHeader { tag, vr, len: Length(0) },
            value: Value::Primitive(PrimitiveValue::Empty),
        }
    }

    /// The header of the element.
    pub fn header(&self) -> (h: &DataElementHeader)
        ensures
            *h == self.model().header,
    {
        &self.header
    }

    /// The tag of the element.
    pub fn tag(&self) -> (t: Tag)
        ensures
            t == self.model().header.tag,
    {
        self.header.tag
    }

    /// The value representation of the element.
    pub fn vr(&self) -> (vr: VR)
        ensures
            vr == self.model().header.vr,
    {
        self.header.vr
    }

    /// The length that the header announces.
    pub fn length(&self) -> (l: Length)
        ensures
            l == self.model().header.len,
    {
        self.header.len
    }

    /// The value of the element.
    pub fn value(&self) -> (v: &Value<D>)
        ensures
            v.model() == self.model().value,
    {
        &self.value
    }

    /// The value of the element, at the price of the element.
    pub fn into_value(self) -> (v: Value<D>)
        ensures
            v.model() == self.model().value,
    {
        self.value
    }
}

/// The mathematical values of a list of objects.
pub open spec fn object_models<D>(objects: &Vec<InMemDicomObject<D>>) -> Seq<ObjectModel> {
    Seq::new(objects@.len(), |i: int| objects[i].model())
}

/// The mathematical values of a list of elements.
pub open spec fn entry_models<D>(entries: &Vec<DataElement<D>>) -> Seq<ElementModel> {
    Seq::new(entries@.len(), |i: int| entries[i].model())
}

impl<D> InMemDicomObject<D> {
    /// The mathematical value: the elements in the order of their tags.
    pub closed spec fn model(&self) -> ObjectModel
        decreases self,
    {
        ObjectModel {
            elements: Seq::new(
                self.entries@.len(),
                |i: int|
                    if 0 <= i < self.entries@.len() {
                        self.entries[i].model()
                    } else {
                        arbitrary()
                    },
            ),
        }
    }

    #[verifier::type_invariant]
    closed spec fn ordered(&self) -> bool {
        (ObjectModel { elements: entry_models(&self.entries) }).ascending()
    }

    /// The dictionary that the object holds.
    pub closed spec fn dictionary(&self) -> D {
        self.dict
    }

    /// An object without elements that holds the given dictionary.
    pub fn new_empty_with_dict(dict: D) -> (o: InMemDicomObject<D>)
        ensures
            o.model() == ObjectModel::empty(),
            o.dictionary() == dict,
    {
        let entries: Vec<DataElement<D>> = Vec::new();
        assert(entry_models(&entries) =~= Seq::empty());
        let o = InMemDicomObject { entries, dict };
        assert(o.model().elements =~= Seq::empty());
        o
    }

    /// The dictionary that the object holds.
    pub fn dict(&self) -> (d: &D)
        ensures
            *d == self.dictionary(),
    {
        &self.dict
    }

    /// The number of elements.
    pub fn len(&self) -> (n: usize)
        ensures
            n == self.model().elements.len(),
            self.model().ascending(),
    {
        proof {
            use_type_invariant(self);
            assert(self.model().elements =~= entry_models(&self.entries));
        }
        self.entries.len()
    }

    /// Whether the object has no element.
    pub fn is_empty(&self) -> (b: bool)
        ensures
            b == (self.model().elements.len() == 0),
    {
        self.entries.len() == 0
    }

    /// The element at place `i` in the ascending order of the tags.
    pub fn element_at(&self, i: usize) -> (e: &DataElement<D>)
        requires
            i < self.model().elements.len(),
        ensures
            e.model() == self.model().elements[i as int],
    {
        &self.entries[i]
    }

    /// The tags of the elements, in ascending order.
    pub fn tags(&self) -> (tags: Vec<Tag>)
        ensures
            tags@.len() == self.model().elements.len(),
            forall|i: int| 0 <= i < tags@.len() ==> tags@[i] == self.model().tag_at(i),
            self.model().ascending(),
    {
        proof {
            use_type_invariant(self);
            assert(self.model().elements =~= entry_models(&self.entries));
        }
        let mut tags: Vec<Tag> = Vec::new();
        let mut i: usize = 0;
        while i < self.entries.len()
            invariant
                i <= self.entries@.len(),
                tags@.len() == i,
                forall|j: int| 0 <= j < i ==> tags@[j] == self.model().tag_at(j),
            decreases self.entries@.len() - i,
        {
            tags.push(self.entries[i].header.tag);
            i = i + 1;
        }
        tags
    }

    /// The place at which an element of the given tag stands, or would
    /// stand.
    fn position(&self, tag: Tag) -> (k: usize)
        ensures
            k == self.model().place(tag),
            k <= self.entries@.len(),
            self.model().ascending(),
    {
        proof {
            use_type_invariant(self);
            assert(self.model().elements =~= entry_models(&self.entries));
        }
        let ghost m = self.model();
        let mut lo: usize = 0;
        let mut hi: usize = self.entries.len();
        while lo < hi
            invariant
                lo <= hi <= self.entries@.len(),
                m == self.model(),
                m.ascending(),
                forall|i: int| 0 <= i < lo ==> m.tag_at(i).rank() < tag.rank(),
                forall|i: int| hi <= i < m.elements.len() ==> m.tag_at(i).rank() >= tag.rank(),
            decreases hi - lo,
        {
            let mid: usize = lo + (hi - lo) / 2;
            assert(m.tag_at(mid as int) == self.entries[mid as int].header.tag);
            if self.entries[mid].header.tag.precedes(tag) {
                assert forall|i: int| 0 <= i < mid + 1 implies m.tag_at(i).rank() < tag.rank() by {
                    if i < mid {
                        assert(m.tag_at(i).rank() < m.tag_at(mid as int).rank());
                    }
                }
                lo = mid + 1;
            } else {
                assert forall|i: int| mid <= i < m.elements.len() implies m.tag_at(i).rank()
                    >= tag.rank() by {
                    if i > mid {
                        assert(m.tag_at(mid as int).rank() < m.tag_at(i).rank());
                    }
                }
                hi = mid;
            }
        }
        proof {
            lemma_place_is(m, tag, lo as int);
        }
        lo
    }

    /// The element of the given tag, if the object has one.
    pub fn get(&self, tag: Tag) -> (r: Option<&DataElement<D>>)
        ensures
            match r {
                Some(e) => self.model().get(tag) == Some(e.model()),
                None => self.model().get(tag) is None,
            },
    {
        let k: usize = self.position(tag);
        if k < self.entries.len() && self.entries[k].header.tag == tag {
            Some(&self.entries[k])
        } else {
            None
        }
    }

    /// Whether the object has an element of the given tag.
    pub fn contains(&self, tag: Tag) -> (b: bool)
        ensures
            b == self.model().contains(tag),
    {
        let k: usize = self.position(tag);
        k < self.entries.len() && self.entries[k].header.tag == tag
    }

    /// Puts an element into the object. An element of the same tag gives
    /// way to it and is handed back.
    pub fn put(&mut self, element: DataElement<D>) -> (r: Option<DataElement<D>>)
        ensures
            final(self).model() == old(self).model().put(element.model()),
            final(self).model().ascending(),
            final(self).dictionary() == old(self).dictionary(),
            match r {
                Some(e) => old(self).model().get(element.model().header.tag) == Some(e.model()),
                None => old(self).model().get(element.model().header.tag) is None,
            },
    {
        let tag: Tag = element.header.tag;
        let k: usize = self.position(tag);
        let ghost before = self.model();
        let ghost e = element.model();
        proof {
            lemma_put(before, e, tag);
        }
        let found: bool = k < self.entries.len() && self.entries[k].header.tag == tag;
        let mut entries: Vec<DataElement<D>> = Vec::new();
        assert(entry_models(&entries) =~= Seq::empty());
        std::mem::swap(&mut self.entries, &mut entries);
        assert(entry_models(&entries) =~= before.elements);
        if found {
            let gone = entries.remove(k);
            entries.insert(k, element);
            assert(entry_models(&entries) =~= before.put(e).elements);
            std::mem::swap(&mut self.entries, &mut entries);
            assert(self.model().elements =~= before.put(e).elements);
            Some(gone)
        } else {
            entries.insert(k, element);
            assert(entry_models(&entries) =~= before.put(e).elements);
            std::mem::swap(&mut self.entries, &mut entries);
            assert(self.model().elements =~= before.put(e).elements);
            None
        }
    }

    /// Takes the element of the given tag out of the object, if there is
    /// one.
    pub fn take(&mut self, tag: Tag) -> (r: Option<DataElement<D>>)
        ensures
            final(self).model() == old(self).model().remove(tag),
            final(self).model().ascending(),
            final(self).dictionary() == old(self).dictionary(),
            match r {
                Some(e) => old(self).model().get(tag) == Some(e.model()),
                None => old(self).model().get(tag) is None,
            },
    {
        let k: usize = self.position(tag);
        let ghost before = self.model();
        proof {
            lemma_remove(before, tag, tag);
        }
        if k < self.entries.len() && self.entries[k].header.tag == tag {
            let mut entries: Vec<DataElement<D>> = Vec::new();
            assert(entry_models(&entries) =~= Seq::empty());
            std::mem::swap(&mut self.entries, &mut entries);
            assert(entry_models(&entries) =~= before.elements);
            let gone = entries.remove(k);
            assert(entry_models(&entries) =~= before.remove(tag).elements);
            std::mem::swap(&mut self.entries, &mut entries);
            assert(self.model().elements =~= before.remove(tag).elements);
            Some(gone)
        } else {
            None
        }
    }

    /// Removes the element of the given tag and says whether there was one.
    pub fn remove(&mut self, tag: Tag) -> (b: bool)
        ensures
            final(self).model() == old(self).model().remove(tag),
            final(self).model().ascending(),
            final(self).dictionary() == old(self).dictionary(),
            b == old(self).model().contains(tag),
    {
        self.take(tag).is_some()
    }
}

/// Whether two lists of fragments hold the same bytes.
pub fn same_fragments(a: &Vec<Vec<u8>>, b: &Vec<Vec<u8>>) -> (r: bool)
    ensures
        r == (fragment_bytes(a@) == fragment_bytes(b@)),
{
    if a.len() != b.len() {
        assert(fragment_bytes(a@).len() != fragment_bytes(b@).len());
        return false;
    }
    let mut i: usize = 0;
    while i < a.len()
        invariant
            i <= a@.len(),
            a@.len() == b@.len(),
            forall|j: int| 0 <= j < i ==> a@[j]@ == b@[j]@,
        decreases a@.len() - i,
    {
        let same: bool = a[i] == b[i];
        assert(same == (a@[i as int]@ =~= b@[i as int]@));
        if !same {
            assert(fragment_bytes(a@)[i as int] != fragment_bytes(b@)[i as int]);
            return false;
        }
        i = i + 1;
    }
    assert(fragment_bytes(a@) =~= fragment_bytes(b@));
    true
}

impl<D> InMemDicomObject<D> {
    /// Whether two objects hold the same elements, whatever dictionaries
    /// they hold.
    pub fn same(&self, other: &InMemDicomObject<D>) -> (r: bool)
        ensures
            r == (self.model() == other.model()),
        decreases self,
    {
        if self.entries.len() != other.entries.len() {
            assert(self.model().elements.len() != other.model().elements.len());
            return false;
        }
        let mut i: usize = 0;
        while i < self.entries.len()
            invariant
                i <= self.entries@.len(),
                self.entries@.len() == other.entries@.len(),
                forall|j: int| 0 <= j < i ==> self.entries[j].model() == other.entries[j].model(),
            decreases self.entries@.len() - i,
        {
            if !self.entries[i].same(&other.entries[i]) {
                assert(self.model().elements[i as int] != other.model().elements[i as int]);
                return false;
            }
            i = i + 1;
        }
        assert(self.model().elements =~= other.model().elements);
        true
    }
}

impl<D> DataElement<D> {
    /// Whether two elements have the same header and hold the same value.
    pub fn same(&self, other: &DataElement<D>) -> (r: bool)
        ensures
            r == (self.model() == other.model()),
        decreases self,
    {
        self.header == other.header && self.value.same(&other.value)
    }
}

impl<D> Value<D> {
    /// Whether two values are the same.
    pub fn same(&self, other: &Value<D>) -> (r: bool)
        ensures
            r == (self.model() == other.model()),
        decreases self,
    {
        match (self, other) {
            (Value::Primitive(a), Value::Primitive(b)) => *a == *b,
            (Value::Sequence(a), Value::Sequence(b)) => {
                if a.len() != b.len() {
                    assert(self.model()->Sequence_0.len() != other.model()->Sequence_0.len());
                    return false;
                }
                let mut i: usize = 0;
                while i < a.len()
                    invariant
                        i <= a@.len(),
                        a@.len() == b@.len(),
                        self == Value::<D>::Sequence(*a),
                        other == Value::<D>::Sequence(*b),
                        forall|j: int| 0 <= j < i ==> a[j].model() == b[j].model(),
                    decreases a@.len() - i,
                {
                    if !a[i].same(&b[i]) {
                        assert(self.model()->Sequence_0[i as int] != other.model()->Sequence_0[i
                            as int]);
                        return false;
                    }
                    i = i + 1;
                }
                assert(self.model()->Sequence_0 =~= other.model()->Sequence_0);
                true
            },
            (Value::PixelSequence(a), Value::PixelSequence(b)) => {
                let same_table: bool = a.offset_table == b.offset_table;
                assert(same_table == (a.offset_table@ =~= b.offset_table@));
                same_table && same_fragments(&a.fragments, &b.fragments)
            },
            _ => false,
        }
    }
}

impl<D> PartialEq for Value<D> {
    fn eq(&self, other: &Value<D>) -> (r: bool) {
        self.same(other)
    }
}

impl<D> PartialEqSpecImpl for Value<D> {
    open spec fn obeys_eq_spec() -> bool {
        true
    }

    open spec fn eq_spec(&self, other: &Value<D>) -> bool {
        self.model() == other.model()
    }
}

impl<D> PartialEq for DataElement<D> {
    fn eq(&self, other: &DataElement<D>) -> (r: bool) {
        self.same(other)
    }
}

impl<D> PartialEqSpecImpl for DataElement<D> {
    open spec fn obeys_eq_spec() -> bool {
        true
    }

    open spec fn eq_spec(&self, other: &DataElement<D>) -> bool {
        self.model() == other.model()
    }
}

impl<D> PartialEq for InMemDicomObject<D> {
    fn eq(&self, other: &InMemDicomObject<D>) -> (r: bool) {
        self.same(other)
    }
}

impl<D> PartialEqSpecImpl for InMemDicomObject<D> {
    open spec fn obeys_eq_spec() -> bool {
        true
    }

    open spec fn eq_spec(&self, other: &InMemDicomObject<D>) -> bool {
        self.model() == other.model()
    }
}

} // verus!

//! From a data set as it stands on the wire to an object in memory with
//! typed values.

use crate::dataset::{
    element_trees, fragment_runs, item_trees, ElementTree, ItemTree, RawElement, RawItem, RawValue,
    ValueTree,
};
use crate::endian::Endianness;
use crate::object::{
    fragment_bytes, object_models, DataElement, ElementModel, InMemDicomObject, ObjectModel,
    PixelFragmentSequence, Value, ValueModel,
};
use crate::tag::Tag;
use crate::value::PrimitiveValue;
use crate::header::{DataElementHeader, Length};
use crate::wire::{
    padding, padding_of, read_u32s, u32s_bytes, u32s_of, value_of_wire, write_u32s, FromWireError,
};
use vstd::prelude::*;

verus! {

/// Why a data set from the wire makes no object: the bytes of the element
/// of this tag are no value of its value representation.
#[derive(Clone, Copy, Debug, PartialEq, Eq, Structural)]
pub struct BuildError {
    /// The tag of the element.
    pub tag: Tag,
    /// Why its bytes are no value.
    pub cause: FromWireError,
}

/// The typed value of a data element from the wire. The bytes of a
/// primitive element are read by its value representation. Each item of a
/// sequence becomes an object. Of the fragments of encapsulated pixel data
/// the first one is read as the basic offset table, a list of numbers of 32
/// bits, and the others stay as they are.
pub open spec fn value_of_tree(tree: ElementTree, order: Endianness) -> Result<ValueModel, BuildError>
    decreases tree, 0nat,
{
    match tree.value {
        ValueTree::Bytes(b) => match value_of_wire(tree.header.vr, b, order) {
            Ok(p) => Ok(ValueModel::Primitive(p)),
            Err(cause) => Err(BuildError { tag: tree.header.tag, cause }),
        },
        ValueTree::Items(items) => match objects_of_items(items, order, items.len()) {
            Ok(objects) => Ok(ValueModel::Sequence(objects)),
            Err(e) => Err(e),
        },
        ValueTree::Fragments(fragments) => if fragments.len() == 0 {
            Ok(ValueModel::PixelSequence(Seq::empty(), Seq::empty()))
        } else if fragments[0].len() % 4 != 0 {
            Err(BuildError { tag: tree.header.tag, cause: FromWireError::BadLength })
        } else {
            Ok(ValueModel::PixelSequence(u32s_of(order, fragments[0]), fragments.skip(1)))
        },
    }
}

/// The objects of the first `n` items of a sequence, or the error of the
/// first item that makes none.
pub open spec fn objects_of_items(items: Seq<ItemTree>, order: Endianness, n: nat) -> Result<
    Seq<ObjectModel>,
    BuildError,
>
    decreases items, n,
{
    if n == 0 || n > items.len() {
        Ok(Seq::empty())
    } else {
        match objects_of_items(items, order, (n - 1) as nat) {
            Ok(objects) => match object_of_trees(
                items[n - 1].elements,
                order,
                items[n - 1].elements.len(),
            ) {
                Ok(o) => Ok(objects.push(o)),
                Err(e) => Err(e),
            },
            Err(e) => Err(e),
        }
    }
}

/// The object that the first `n` data elements of a data set make, each
/// with its header as it was read, or the error of the first element whose
/// bytes are no value. Of two elements with the same tag the later one
/// stays.
pub open spec fn object_of_trees(trees: Seq<ElementTree>, order: Endianness, n: nat) -> Result<
    ObjectModel,
    BuildError,
>
    decreases trees, n,
{
    if n == 0 || n > trees.len() {
        Ok(ObjectModel::empty())
    } else {
        match object_of_trees(trees, order, (n - 1) as nat) {
            Ok(o) => match value_of_tree(trees[n - 1], order) {
                Ok(value) => Ok(o.put(ElementModel { header: trees[n - 1].header, value })),
                Err(e) => Err(e),
            },
            Err(e) => Err(e),
        }
    }
}

/// Once an element has failed, the elements after it do not change the
/// error.
pub proof fn lemma_object_failed(trees: Seq<ElementTree>, order: Endianness, n: nat, m: nat)
    requires
        n <= m <= trees.len(),
        object_of_trees(trees, order, n) is Err,
    ensures
        object_of_trees(trees, order, m) == object_of_trees(trees, order, n),
    decreases m,
{
    if n < m {
        lemma_object_failed(trees, order, n, (m - 1) as nat);
    }
}

/// Once an item has failed, the items after it do not change the error.
pub proof fn lemma_items_failed(items: Seq<ItemTree>, order: Endianness, n: nat, m: nat)
    requires
        n <= m <= items.len(),
        objects_of_items(items, order, n) is Err,
    ensures
        objects_of_items(items, order, m) == objects_of_items(items, order, n),
    decreases m,
{
    if n < m {
        lemma_items_failed(items, order, n, (m - 1) as nat);
    }
}

/// Makes the object of a data set from the wire. The objects that are made,
/// the one of the data set and those of the items, each hold a copy of
/// `dict`.
pub fn build_object<D: Clone>(elements: &Vec<RawElement>, order: Endianness, dict: &D) -> (r: Result<
    InMemDicomObject<D>,
    BuildError,
>)
    ensures
        match object_of_trees(element_trees(elements), order, elements@.len()) {
            Ok(model) => r matches Ok(o) && o.model() == model,
            Err(e) => r matches Err(x) && x == e,
        },
    decreases elements, 1nat,
{
    let ghost trees = element_trees(elements);
    let mut object: InMemDicomObject<D> = InMemDicomObject::new_empty_with_dict(dict.clone());
    let mut i: usize = 0;
    while i < elements.len()
        invariant
            i <= elements@.len(),
            trees == element_trees(elements),
            object_of_trees(trees, order, i as nat) == Ok::<ObjectModel, BuildError>(object.model()),
        decreases elements@.len() - i,
    {
        let e: &RawElement = &elements[i];
        assert(trees[i as int] == e.tree());
        match build_value(e, order, dict) {
            Ok(value) => {
                object.put(
                    DataElement::new_with_len(e.header.tag, e.header.vr, e.header.len, value),
                );
            },
            Err(x) => {
                proof {
                    lemma_object_failed(trees, order, (i + 1) as nat, trees.len());
                }
                return Err(x);
            },
        }
        i = i + 1;
    }
    Ok(object)
}

/// Makes the typed value of a data element from the wire.
pub fn build_value<D: Clone>(e: &RawElement, order: Endianness, dict: &D) -> (r: Result<
    Value<D>,
    BuildError,
>)
    ensures
        match value_of_tree(e.tree(), order) {
            Ok(model) => r matches Ok(v) && v.model() == model,
            Err(x) => r matches Err(y) && y == x,
        },
    decreases e, 0nat,
{
    match &e.value {
        RawValue::Bytes(b) => match PrimitiveValue::from_wire(e.header.vr, b.as_slice(), order) {
            Ok(p) => Ok(Value::Primitive(p)),
            Err(cause) => Err(BuildError { tag: e.header.tag, cause }),
        },
        RawValue::Items(items) => {
            assert(e.tree().value->Items_0 =~= item_trees(items));
            match build_items(items, order, dict) {
                Ok(objects) => {
                    let v = Value::Sequence(objects);
                    assert(v.model()->Sequence_0 =~= object_models(&objects));
                    Ok(v)
                },
                Err(x) => Err(x),
            }
        },
        RawValue::Fragments(fragments) => {
            let ghost runs = fragment_runs(fragments);
            if fragments.len() == 0 {
                let v = Value::PixelSequence(
                    PixelFragmentSequence { offset_table: Vec::new(), fragments: Vec::new() },
                );
                assert(v.model()->PixelSequence_1 =~= Seq::<Seq<u8>>::empty());
                return Ok(v);
            }
            assert(runs[0] == fragments[0]@);
            if fragments[0].len() % 4 != 0 {
                return Err(BuildError { tag: e.header.tag, cause: FromWireError::BadLength });
            }
            let offset_table: Vec<u32> = read_u32s(order, fragments[0].as_slice());
            let mut rest: Vec<Vec<u8>> = Vec::new();
            let mut k: usize = 1;
            while k < fragments.len()
                invariant
                    1 <= k <= fragments@.len(),
                    runs == fragment_runs(fragments),
                    fragment_bytes(rest@) == runs.subrange(1, k as int),
                decreases fragments@.len() - k,
            {
                let ghost before = fragment_bytes(rest@);
                rest.push(vstd::slice::slice_to_vec(fragments[k].as_slice()));
                assert(fragment_bytes(rest@) =~= before.push(runs[k as int]));
                assert(runs.subrange(1, k + 1) =~= runs.subrange(1, k as int).push(runs[k as int]));
                k = k + 1;
            }
            assert(runs.subrange(1, runs.len() as int) =~= runs.skip(1));
            Ok(Value::PixelSequence(PixelFragmentSequence { offset_table, fragments: rest }))
        },
    }
}

/// Makes the objects of the items of a sequence.
pub fn build_items<D: Clone>(items: &Vec<RawItem>, order: Endianness, dict: &D) -> (r: Result<
    Vec<InMemDicomObject<D>>,
    BuildError,
>)
    ensures
        match objects_of_items(item_trees(items), order, items@.len()) {
            Ok(models) => r matches Ok(objects) && object_models(&objects) == models,
            Err(e) => r matches Err(x) && x == e,
        },
    decreases items, 2nat,
{
    let ghost trees = item_trees(items);
    let mut objects: Vec<InMemDicomObject<D>> = Vec::new();
    let mut j: usize = 0;
    assert(object_models(&objects) =~= Seq::empty());
    while j < items.len()
        invariant
            j <= items@.len(),
            trees == item_trees(items),
            objects_of_items(trees, order, j as nat) == Ok::<Seq<ObjectModel>, BuildError>(
                object_models(&objects),
            ),
        decreases items@.len() - j,
    {
        let ghost before = object_models(&objects);
        let item: &RawItem = &items[j];
        assert(trees[j as int] == item.tree());
        assert(item.tree().elements =~= element_trees(&item.elements));
        match build_object(&item.elements, order, dict) {
            Ok(o) => {
                let ghost m = o.model();
                objects.push(o);
                assert(object_models(&objects) =~= before.push(m));
            },
            Err(x) => {
                proof {
                    lemma_items_failed(trees, order, (j + 1) as nat, trees.len());
                }
                return Err(x);
            },
        }
        j = j + 1;
    }
    Ok(objects)
}

/// The data element for the wire of a data element in memory. The header
/// announces what is written: for a primitive value the number of its bytes
/// with their padding, and for a sequence and for fragments the undefined
/// length. The items of a sequence have the undefined length too. `None`
/// where a primitive value has too many bytes for a header to announce.
pub open spec fn tree_of_element(e: ElementModel, order: Endianness) -> Option<ElementTree>
    decreases e, 0nat,
{
    match e.value {
        ValueModel::Primitive(p) => if p.padded_length() >= 0xFFFF_FFFF {
            None
        } else {
            Some(
                ElementTree {
                    header: DataElementHeader {
                        len: Length(p.padded_length() as u32),
                        ..e.header
                    },
                    value: ValueTree::Bytes(p.wire_bytes(order, padding_of(e.header.vr))),
                },
            )
        },
        ValueModel::Sequence(objects) => match items_of_objects(objects, order, objects.len()) {
            Some(items) => Some(
                ElementTree {
                    header: DataElementHeader { len: Length(0xFFFF_FFFF), ..e.header },
                    value: ValueTree::Items(items),
                },
            ),
            None => None,
        },
        ValueModel::PixelSequence(table, fragments) => Some(
            ElementTree {
                header: DataElementHeader { len: Length(0xFFFF_FFFF), ..e.header },
                value: ValueTree::Fragments(
                    seq![u32s_bytes(order, table, table.len())] + fragments,
                ),
            },
        ),
    }
}

/// The items for the wire of the first `n` objects of a sequence.
pub open spec fn items_of_objects(objects: Seq<ObjectModel>, order: Endianness, n: nat) -> Option<
    Seq<ItemTree>,
>
    decreases objects, n,
{
    if n == 0 || n > objects.len() {
        Some(Seq::empty())
    } else {
        match items_of_objects(objects, order, (n - 1) as nat) {
            Some(items) => match trees_of_object(
                objects[n - 1],
                order,
                objects[n - 1].elements.len(),
            ) {
                Some(elements) => Some(items.push(ItemTree { len: Length(0xFFFF_FFFF), elements })),
                None => None,
            },
            None => None,
        }
    }
}

/// The data elements for the wire of the first `n` data elements of an
/// object, in the order of the tags.
pub open spec fn trees_of_object(o: ObjectModel, order: Endianness, n: nat) -> Option<
    Seq<ElementTree>,
>
    decreases o, n,
{
    if n == 0 || n > o.elements.len() {
        Some(Seq::empty())
    } else {
        match trees_of_object(o, order, (n - 1) as nat) {
            Some(trees) => match tree_of_element(o.elements[n - 1], order) {
                Some(tree) => Some(trees.push(tree)),
                None => None,
            },
            None => None,
        }
    }
}

/// Once an element has no form for the wire, the object has none.
pub proof fn lemma_trees_failed(o: ObjectModel, order: Endianness, n: nat, m: nat)
    requires
        n <= m <= o.elements.len(),
        trees_of_object(o, order, n) is None,
    ensures
        trees_of_object(o, order, m) is None,
    decreases m,
{
    if n < m {
        lemma_trees_failed(o, order, n, (m - 1) as nat);
    }
}

/// Once an item has no form for the wire, the sequence has none.
pub proof fn lemma_items_of_objects_failed(
    objects: Seq<ObjectModel>,
    order: Endianness,
    n: nat,
    m: nat,
)
    requires
        n <= m <= objects.len(),
        items_of_objects(objects, order, n) is None,
    ensures
        items_of_objects(objects, order, m) is None,
    decreases m,
{
    if n < m {
        lemma_items_of_objects_failed(objects, order, n, (m - 1) as nat);
    }
}

/// Makes the data set for the wire of an object.
pub fn raw_data_set<D>(o: &InMemDicomObject<D>, order: Endianness) -> (r: Option<Vec<RawElement>>)
    ensures
        match trees_of_object(o.model(), order, o.model().elements.len()) {
            Some(trees) => r matches Some(elements) && element_trees(&elements) == trees,
            None => r is None,
        },
    decreases o.model(), 1nat,
{
    let n: usize = o.len();
    let mut elements: Vec<RawElement> = Vec::new();
    let mut i: usize = 0;
    assert(element_trees(&elements) =~= Seq::empty());
    while i < n
        invariant
            i <= n,
            n == o.model().elements.len(),
            trees_of_object(o.model(), order, i as nat) == Some(element_trees(&elements)),
        decreases n - i,
    {
        let ghost before = element_trees(&elements);
        match raw_element(o.element_at(i), order) {
            Some(e) => {
                let ghost tree = e.tree();
                elements.push(e);
                assert(element_trees(&elements) =~= before.push(tree));
            },
            None => {
                proof {
                    lemma_trees_failed(
                        o.model(),
                        order,
                        (i + 1) as nat,
                        o.model().elements.len(),
                    );
                }
                return None;
            },
        }
        i = i + 1;
    }
    Some(elements)
}

/// Makes the data element for the wire of a data element in memory.
pub fn raw_element<D>(e: &DataElement<D>, order: Endianness) -> (r: Option<RawElement>)
    ensures
        match tree_of_element(e.model(), order) {
            Some(tree) => r matches Some(raw) && raw.tree() == tree,
            None => r is None,
        },
    decreases e.model(), 0nat,
{
    let header: DataElementHeader = *e.header();
    match e.value() {
        Value::Primitive(p) => {
            match p.checked_byte_length() {
                None => None,
                Some(len) => {
                    let bytes: Vec<u8> = p.to_wire(order, padding(header.vr));
                    Some(
                        RawElement {
                            header: DataElementHeader {
                                tag: header.tag,
                                vr: header.vr,
                                len: Length(len),
                            },
                            value: RawValue::Bytes(bytes),
                        },
                    )
                },
            }
        },
        Value::Sequence(objects) => {
            assert(e.model().value->Sequence_0 =~= object_models(objects));
            match raw_items(objects, order) {
                Some(items) => {
                    let raw = RawElement {
                        header: DataElementHeader {
                            tag: header.tag,
                            vr: header.vr,
                            len: Length(0xFFFF_FFFF),
                        },
                        value: RawValue::Items(items),
                    };
                    assert(raw.tree().value->Items_0 =~= item_trees(&items));
                    Some(raw)
                },
                None => None,
            }
        },
        Value::PixelSequence(f) => {
            let mut table: Vec<u8> = Vec::new();
            write_u32s(order, &mut table, &f.offset_table);
            assert(table@ =~= u32s_bytes(order, f.offset_table@, f.offset_table@.len()));
            let mut fragments: Vec<Vec<u8>> = Vec::new();
            fragments.push(table);
            let mut k: usize = 0;
            while k < f.fragments.len()
                invariant
                    k <= f.fragments@.len(),
                    fragment_runs(&fragments) == seq![
                        u32s_bytes(order, f.offset_table@, f.offset_table@.len()),
                    ] + fragment_bytes(f.fragments@).take(k as int),
                decreases f.fragments@.len() - k,
            {
                let ghost before = fragment_runs(&fragments);
                fragments.push(vstd::slice::slice_to_vec(f.fragments[k].as_slice()));
                assert(fragment_runs(&fragments) =~= before.push(f.fragments@[k as int]@));
                assert(fragment_bytes(f.fragments@).take(k + 1) =~= fragment_bytes(
                    f.fragments@,
                ).take(k as int).push(f.fragments@[k as int]@));
                k = k + 1;
            }
            assert(fragment_bytes(f.fragments@).take(k as int) =~= fragment_bytes(f.fragments@));
            Some(
                RawElement {
                    header: DataElementHeader {
                        tag: header.tag,
                        vr: header.vr,
                        len: Length(0xFFFF_FFFF),
                    },
                    value: RawValue::Fragments(fragments),
                },
            )
        },
    }
}

/// Makes the items for the wire of the objects of a sequence.
pub fn raw_items<D>(objects: &Vec<InMemDicomObject<D>>, order: Endianness) -> (r: Option<
    Vec<RawItem>,
>)
    ensures
        match items_of_objects(object_models(objects), order, objects@.len()) {
            Some(trees) => r matches Some(items) && item_trees(&items) == trees,
            None => r is None,
        },
    decreases object_models(objects), 2nat,
{
    let ghost models = object_models(objects);
    let mut items: Vec<RawItem> = Vec::new();
    let mut j: usize = 0;
    assert(item_trees(&items) =~= Seq::empty());
    while j < objects.len()
        invariant
            j <= objects@.len(),
            models == object_models(objects),
            items_of_objects(models, order, j as nat) == Some(item_trees(&items)),
        decreases objects@.len() - j,
    {
        let ghost before = item_trees(&items);
        assert(models[j as int] == objects[j as int].model());
        match raw_data_set(&objects[j], order) {
            Some(elements) => {
                let item = RawItem { len: Length(0xFFFF_FFFF), elements };
                let ghost tree = item.tree();
                assert(tree.elements =~= element_trees(&item.elements));
                items.push(item);
                assert(item_trees(&items) =~= before.push(tree));
            },
            None => {
                proof {
                    lemma_items_of_objects_failed(models, order, (j + 1) as nat, models.len());
                }
                return None;
            },
        }
        j = j + 1;
    }
    Some(items)
}

} // verus!

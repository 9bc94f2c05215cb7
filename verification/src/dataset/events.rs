//! A data set as the run of events that a reader meets on the way through
//! it.

use crate::dataset::{
    element_trees, fragment_runs, item_trees, ElementTree, ItemTree, RawElement, RawItem, RawValue,
    ValueTree,
};
use crate::header::{DataElementHeader, Length};
use vstd::prelude::*;

verus! {

/// What a reader meets on the way through a data set.
#[derive(Clone, Debug, PartialEq, Eq)]
pub enum DataEvent {
    /// The header of a data element.
    ElementHeader(DataElementHeader),
    /// The bytes of a primitive value.
    PrimitiveValueBytes(Vec<u8>),
    /// The start of an item, with the length that its header gives.
    ItemStart(Length),
    /// The end of an item.
    ItemEnd,
    /// The end of a sequence or of the fragments of pixel data.
    SequenceEnd,
    /// A fragment of pixel data; the first one of an element is the basic
    /// offset table.
    PixelFragment(Vec<u8>),
    /// The end of the data set.
    End,
}

/// The mathematical value of a [`DataEvent`].
pub ghost enum EventModel {
    /// The header of a data element.
    ElementHeader(DataElementHeader),
    /// The bytes of a primitive value.
    PrimitiveValueBytes(Seq<u8>),
    /// The start of an item.
    ItemStart(Length),
    /// The end of an item.
    ItemEnd,
    /// The end of a sequence or of the fragments of pixel data.
    SequenceEnd,
    /// A fragment of pixel data.
    PixelFragment(Seq<u8>),
    /// The end of the data set.
    End,
}

impl View for DataEvent {
    type V = EventModel;

    open spec fn view(&self) -> EventModel {
        match self {
            DataEvent::ElementHeader(h) => EventModel::ElementHeader(*h),
            DataEvent::PrimitiveValueBytes(b) => EventModel::PrimitiveValueBytes(b@),
            DataEvent::ItemStart(l) => EventModel::ItemStart(*l),
            DataEvent::ItemEnd => EventModel::ItemEnd,
            DataEvent::SequenceEnd => EventModel::SequenceEnd,
            DataEvent::PixelFragment(b) => EventModel::PixelFragment(b@),
            DataEvent::End => EventModel::End,
        }
    }
}

/// The events of a list of events.
pub open spec fn event_models(events: Seq<DataEvent>) -> Seq<EventModel> {
    Seq::new(events.len(), |i: int| events[i]@)
}

/// The events of the data elements of a list from the place `i` on, in the
/// order of the list.
pub open spec fn events_of_elements(elements: Seq<ElementTree>, i: nat) -> Seq<EventModel>
    decreases elements, elements.len() - i,
{
    if i >= elements.len() {
        Seq::empty()
    } else {
        events_of_element(elements[i as int]) + events_of_elements(elements, i + 1)
    }
}

/// The events of a data element: its header, and then its value. The value
/// of a primitive element is one event. A sequence gives the events of its
/// items, in their order, and then a sequence end, whether or not a
/// delimiter stands for it on the wire. Encapsulated pixel data gives one
/// event for each fragment and then a sequence end.
pub open spec fn events_of_element(e: ElementTree) -> Seq<EventModel>
    decreases e,
{
    seq![EventModel::ElementHeader(e.header)] + (match e.value {
        ValueTree::Bytes(bytes) => seq![EventModel::PrimitiveValueBytes(bytes)],
        ValueTree::Items(items) => events_of_items(items, 0) + seq![EventModel::SequenceEnd],
        ValueTree::Fragments(fragments) => Seq::new(
            fragments.len(),
            |k: int| EventModel::PixelFragment(fragments[k]),
        ) + seq![EventModel::SequenceEnd],
    })
}

/// The events of the items of a list from the place `j` on: for each item
/// its start, the events of its data elements, and its end.
pub open spec fn events_of_items(items: Seq<ItemTree>, j: nat) -> Seq<EventModel>
    decreases items, items.len() - j,
{
    if j >= items.len() {
        Seq::empty()
    } else {
        seq![EventModel::ItemStart(items[j as int].len)] + events_of_elements(
            items[j as int].elements,
            0,
        ) + seq![EventModel::ItemEnd] + events_of_items(items, j + 1)
    }
}

/// The events of a data set: those of its data elements, and then the end.
pub open spec fn events_of_data_set(elements: Seq<ElementTree>) -> Seq<EventModel> {
    events_of_elements(elements, 0) + seq![EventModel::End]
}

/// Appends the events of the data elements of a list.
pub fn push_element_events(elements: &Vec<RawElement>, out: &mut Vec<DataEvent>)
    ensures
        event_models(final(out)@) == event_models(old(out)@) + events_of_elements(
            element_trees(elements),
            0,
        ),
    decreases elements,
{
    let ghost trees = element_trees(elements);
    let mut i: usize = 0;
    assert(event_models(out@) + events_of_elements(trees, 0) =~= event_models(old(out)@)
        + events_of_elements(trees, 0));
    while i < elements.len()
        invariant
            i <= elements@.len(),
            trees == element_trees(elements),
            event_models(out@) + events_of_elements(trees, i as nat) == event_models(old(out)@)
                + events_of_elements(trees, 0),
        decreases elements@.len() - i,
    {
        let ghost before = event_models(out@);
        let e: &RawElement = &elements[i];
        assert(trees[i as int] == e.tree());
        out.push(DataEvent::ElementHeader(e.header));
        assert(event_models(out@) =~= before + seq![EventModel::ElementHeader(e.header)]);
        match &e.value {
            RawValue::Bytes(bytes) => {
                let ghost mid = event_models(out@);
                out.push(DataEvent::PrimitiveValueBytes(vstd::slice::slice_to_vec(bytes.as_slice())));
                assert(event_models(out@) =~= mid + seq![EventModel::PrimitiveValueBytes(bytes@)]);
            },
            RawValue::Items(items) => {
                assert(e.tree().value->Items_0 =~= item_trees(items));
                push_item_events(items, out);
                let ghost mid = event_models(out@);
                out.push(DataEvent::SequenceEnd);
                assert(event_models(out@) =~= mid + seq![EventModel::SequenceEnd]);
            },
            RawValue::Fragments(fragments) => {
                let ghost start = event_models(out@);
                let ghost runs = fragment_runs(fragments);
                let mut k: usize = 0;
                assert(start =~= start + Seq::new(
                    0nat,
                    |n: int| EventModel::PixelFragment(runs[n]),
                ));
                while k < fragments.len()
                    invariant
                        k <= fragments@.len(),
                        runs == fragment_runs(fragments),
                        event_models(out@) == start + Seq::new(
                            k as nat,
                            |n: int| EventModel::PixelFragment(runs[n]),
                        ),
                    decreases fragments@.len() - k,
                {
                    let ghost mid = event_models(out@);
                    assert(runs[k as int] == fragments[k as int]@);
                    out.push(DataEvent::PixelFragment(vstd::slice::slice_to_vec(fragments[k].as_slice())));
                    assert(event_models(out@) =~= mid.push(
                        EventModel::PixelFragment(runs[k as int]),
                    ));
                    assert(event_models(out@) =~= start + Seq::new(
                        (k + 1) as nat,
                        |n: int| EventModel::PixelFragment(runs[n]),
                    ));
                    k = k + 1;
                }
                let ghost mid = event_models(out@);
                out.push(DataEvent::SequenceEnd);
                assert(event_models(out@) =~= mid + seq![EventModel::SequenceEnd]);
            },
        }
        assert(event_models(out@) =~= before + events_of_element(e.tree()));
        assert(event_models(out@) + events_of_elements(trees, (i + 1) as nat) =~= before
            + events_of_elements(trees, i as nat));
        i = i + 1;
    }
    assert(event_models(out@) + events_of_elements(trees, i as nat) =~= event_models(out@));
}

/// Appends the events of the items of a list.
pub fn push_item_events(items: &Vec<RawItem>, out: &mut Vec<DataEvent>)
    ensures
        event_models(final(out)@) == event_models(old(out)@) + events_of_items(item_trees(items), 0),
    decreases items,
{
    let ghost trees = item_trees(items);
    let mut j: usize = 0;
    assert(event_models(out@) + events_of_items(trees, 0) =~= event_models(old(out)@)
        + events_of_items(trees, 0));
    while j < items.len()
        invariant
            j <= items@.len(),
            trees == item_trees(items),
            event_models(out@) + events_of_items(trees, j as nat) == event_models(old(out)@)
                + events_of_items(trees, 0),
        decreases items@.len() - j,
    {
        let ghost before = event_models(out@);
        let item: &RawItem = &items[j];
        assert(trees[j as int] == item.tree());
        assert(item.tree().elements =~= element_trees(&item.elements));
        out.push(DataEvent::ItemStart(item.len));
        assert(event_models(out@) =~= before + seq![EventModel::ItemStart(item.len)]);
        push_element_events(&item.elements, out);
        let ghost mid = event_models(out@);
        out.push(DataEvent::ItemEnd);
        assert(event_models(out@) =~= mid + seq![EventModel::ItemEnd]);
        assert(event_models(out@) + events_of_items(trees, (j + 1) as nat) =~= before
            + events_of_items(trees, j as nat));
        j = j + 1;
    }
    assert(event_models(out@) + events_of_items(trees, j as nat) =~= event_models(out@));
}

/// The events of a data set, in the order of the source: within the data
/// set the elements, within a sequence the items, within encapsulated pixel
/// data the fragments.
pub fn events(elements: &Vec<RawElement>) -> (out: Vec<DataEvent>)
    ensures
        event_models(out@) == events_of_data_set(element_trees(elements)),
{
    let mut out: Vec<DataEvent> = Vec::new();
    assert(event_models(out@) =~= Seq::empty());
    push_element_events(elements, &mut out);
    let ghost mid = event_models(out@);
    out.push(DataEvent::End);
    assert(event_models(out@) =~= mid + seq![EventModel::End]);
    out
}

} // verus!

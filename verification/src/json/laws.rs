//! What writing and reading of the JSON form have to do with each other: an
//! object is read back from its JSON form as it is.

use crate::json::de::{
    base64_decoding, decimal_items_of, decimal_of_item, element_of, field_step, fields_prefix, i16_items_of,
    i16_of_item, i32_items_of, i32_of_item, i64_items_of, i64_of_item, member_of, object_of,
    object_prefix, person_items_of, person_of_item, person_prefix, person_step, person_text,
    primitive_of, sequence_prefix, tag_items_of, tag_of_item, text_items_of, text_of_item,
    u16_items_of, u16_of_item, u32_items_of, u32_of_item, u64_items_of, u64_of_item, u8_items_of,
    u8_of_item, value_of, value_of_fields, vr_of_text, FieldsModel, PersonModel,
};
use crate::json::ser::{
    are_items, fits, is_element, is_number, is_object, is_person, is_string, next_equals, writable,
};
use crate::json::{DeError, JsonValue};
use crate::object::{lemma_place_is, ElementModel, ObjectModel, ValueModel};
use crate::tag::lemma_parse_of_hex;
use crate::value::PrimitiveModel;
use crate::vr::{lemma_letters_name, VR};
use vstd::prelude::*;

verus! {

/// Whether a data element is read back from its JSON form as it is: it has
/// a JSON form, and its header announces its value with the length that
/// the value has on the wire.
pub open spec fn exact_element(e: ElementModel) -> bool
    decreases e,
{
    &&& writable(e)
    &&& e.value.announceable()
    &&& e.header.len == e.value.length()
    &&& match e.value {
        ValueModel::Primitive(_) => true,
        ValueModel::Sequence(objects) => forall|k: int|
            0 <= k < objects.len() ==> exact_object(#[trigger] objects[k]),
        ValueModel::PixelSequence(_, _) => false,
    }
}

/// Whether an object is read back from its JSON form as it is: its tags
/// ascend and each of its data elements is read back as it is.
pub open spec fn exact_object(o: ObjectModel) -> bool
    decreases o,
{
    &&& o.ascending()
    &&& forall|i: int| 0 <= i < o.elements.len() ==> exact_element(#[trigger] o.elements[i])
}

/// The names of the members of the JSON form are different texts.
pub proof fn lemma_names_differ()
    ensures
        "vr"@ != "Value"@,
        "vr"@ != "InlineBinary"@,
        "Value"@ != "InlineBinary"@,
        "Alphabetic"@ != "Ideographic"@,
        "Alphabetic"@ != "Phonetic"@,
        "Ideographic"@ != "Phonetic"@,
{
    reveal_strlit("vr");
    reveal_strlit("Value");
    reveal_strlit("InlineBinary");
    reveal_strlit("Alphabetic");
    reveal_strlit("Ideographic");
    reveal_strlit("Phonetic");
    assert("vr"@.len() == 2 && "Value"@.len() == 5 && "InlineBinary"@.len() == 12);
    assert("Alphabetic"@.len() == 10 && "Ideographic"@.len() == 11 && "Phonetic"@.len() == 8);
}

/// The first `=` from a place on stands at that place or after it, within
/// the text, and nothing before it is `=`.
pub proof fn lemma_next_equals(s: Seq<char>, from: int)
    requires
        0 <= from <= s.len(),
    ensures
        from <= next_equals(s, from) <= s.len(),
        next_equals(s, from) < s.len() ==> s[next_equals(s, from)] == '=',
    decreases s.len() - from,
{
    if from < s.len() && s[from] != '=' {
        lemma_next_equals(s, from + 1);
    }
}

/// A person name is read back from its object of component groups.
pub proof fn lemma_person(j: &JsonValue, text: Seq<char>)
    requires
        is_person(j, text),
    ensures
        person_of_item(j) == Some(text),
{
    lemma_names_differ();
    lemma_next_equals(text, 0);
    let first = next_equals(text, 0);
    let members = j->Object_0;
    let empty = PersonModel {
        alphabetic_seen: false,
        alphabetic: None,
        ideographic_seen: false,
        ideographic: None,
        phonetic_seen: false,
        phonetic: None,
    };
    let a = text.subrange(0, first);
    assert(person_prefix(members@, 0) == Some(empty));
    let named = PersonModel { alphabetic_seen: true, alphabetic: Some(a), ..empty };
    assert(person_step(empty, members[0].0@, &members[0].1) == Some(named));
    assert(person_prefix(members@, 1) == Some(named));
    if first >= text.len() {
        assert(a =~= text);
        assert(person_text(named) == text);
    } else {
        lemma_next_equals(text, first + 1);
        let second = next_equals(text, first + 1);
        let i = text.subrange(first + 1, second);
        let paired = PersonModel { ideographic_seen: true, ideographic: Some(i), ..named };
        assert(person_step(named, members[1].0@, &members[1].1) == Some(paired));
        assert(person_prefix(members@, 2) == Some(paired));
        if second >= text.len() {
            assert(person_text(paired) =~= text);
        } else {
            let p = text.subrange(second + 1, text.len() as int);
            let full = PersonModel { phonetic_seen: true, phonetic: Some(p), ..paired };
            assert(person_step(paired, members[2].0@, &members[2].1) == Some(full));
            assert(person_prefix(members@, 3) == Some(full));
            assert(person_text(full) =~= text);
        }
    }
}

/// A primitive value is read back from the items of its `"Value"` array.
#[verifier::rlimit(50)]
pub proof fn lemma_primitive(items: Seq<JsonValue>, vr: VR, p: PrimitiveModel)
    requires
        are_items(items, vr, p),
        fits(vr, p),
        !(p is Empty),
        vr != VR::UN,
    ensures
        primitive_of(vr, items) == Some(p),
{
    reveal(primitive_of);
    match p {
        PrimitiveModel::Strs(list) => {
            if vr == VR::PN {
                assert forall|k: int| 0 <= k < items.len() implies (#[trigger] person_of_item(
                    &items[k],
                )) == Some(list[k]) by {
                    lemma_person(&items[k], list[k]);
                }
                assert(person_items_of(items)->0 =~= list);
            } else if vr == VR::DS || vr == VR::IS {
                assert forall|k: int| 0 <= k < items.len() implies (#[trigger] decimal_of_item(
                    &items[k],
                )) == Some(list[k]) by {
                    assert(is_string(&items[k], list[k]));
                }
                assert(decimal_items_of(items)->0 =~= list);
            } else {
                assert forall|k: int| 0 <= k < items.len() implies (#[trigger] text_of_item(
                    &items[k],
                )) == Some(list[k]) by {
                    assert(is_string(&items[k], list[k]));
                }
                assert(text_items_of(items)->0 =~= list);
            }
        },
        PrimitiveModel::Tags(list) => {
            assert forall|k: int| 0 <= k < items.len() implies (#[trigger] tag_of_item(&items[k]))
                == Some(list[k]) by {
                assert(is_string(&items[k], list[k].hex_spec()));
                lemma_parse_of_hex(list[k]);
            }
            assert(tag_items_of(items)->0 =~= list);
        },
        PrimitiveModel::U8(list) => {
            assert forall|k: int| 0 <= k < items.len() implies (#[trigger] u8_of_item(&items[k]))
                == Some(list[k]) by {
                assert(is_number(&items[k], list[k] as int));
            }
            assert(u8_items_of(items)->0 =~= list);
        },
        PrimitiveModel::I16(list) => {
            assert forall|k: int| 0 <= k < items.len() implies (#[trigger] i16_of_item(&items[k]))
                == Some(list[k]) by {
                assert(is_number(&items[k], list[k] as int));
            }
            assert(i16_items_of(items)->0 =~= list);
        },
        PrimitiveModel::U16(list) => {
            assert forall|k: int| 0 <= k < items.len() implies (#[trigger] u16_of_item(&items[k]))
                == Some(list[k]) by {
                assert(is_number(&items[k], list[k] as int));
            }
            assert(u16_items_of(items)->0 =~= list);
        },
        PrimitiveModel::I32(list) => {
            assert forall|k: int| 0 <= k < items.len() implies (#[trigger] i32_of_item(&items[k]))
                == Some(list[k]) by {
                assert(is_number(&items[k], list[k] as int));
            }
            assert(i32_items_of(items)->0 =~= list);
        },
        PrimitiveModel::U32(list) => {
            assert forall|k: int| 0 <= k < items.len() implies (#[trigger] u32_of_item(&items[k]))
                == Some(list[k]) by {
                assert(is_number(&items[k], list[k] as int));
            }
            assert(u32_items_of(items)->0 =~= list);
        },
        PrimitiveModel::I64(list) => {
            assert forall|k: int| 0 <= k < items.len() implies (#[trigger] i64_of_item(&items[k]))
                == Some(list[k]) by {
                assert(is_number(&items[k], list[k] as int));
            }
            assert(i64_items_of(items)->0 =~= list);
        },
        PrimitiveModel::U64(list) => {
            assert forall|k: int| 0 <= k < items.len() implies (#[trigger] u64_of_item(&items[k]))
                == Some(list[k]) by {
                assert(is_number(&items[k], list[k] as int));
            }
            assert(u64_items_of(items)->0 =~= list);
        },
        _ => {},
    }
}

/// An object is read back from its JSON form as it is.
pub proof fn lemma_object_round_trip(j: &JsonValue, o: ObjectModel)
    requires
        is_object(j, o),
        exact_object(o),
    ensures
        object_of(j) == Ok::<ObjectModel, DeError>(o),
    decreases j, 0nat,
{
    let members = j->Object_0;
    lemma_members_round_trip(&members, o, members@.len());
    assert(o.elements.take(o.elements.len() as int) =~= o.elements);
}

/// The first `n` data elements of an object are read back from the first
/// `n` members of its JSON form.
pub proof fn lemma_members_round_trip(members: &Vec<(String, JsonValue)>, o: ObjectModel, n: nat)
    requires
        is_object(&JsonValue::Object(*members), o),
        exact_object(o),
        n <= members@.len(),
    ensures
        object_prefix(members, n) == Ok::<ObjectModel, DeError>(
            ObjectModel { elements: o.elements.take(n as int) },
        ),
    decreases members, n,
{
    if n == 0 {
        assert(o.elements.take(0) =~= Seq::<ElementModel>::empty());
    } else {
        lemma_members_round_trip(members, o, (n - 1) as nat);
        let before = ObjectModel { elements: o.elements.take(n - 1) };
        let e = o.elements[n - 1];
        assert(exact_element(e));
        lemma_member_round_trip(members[n - 1].0@, &members[n - 1].1, e);
        assert(before.ascending()) by {
            assert forall|a: int, b: int| 0 <= a < b < before.elements.len() implies before.tag_at(
                a,
            ).rank() < before.tag_at(b).rank() by {
                assert(before.tag_at(a) == o.tag_at(a) && before.tag_at(b) == o.tag_at(b));
            }
        }
        assert forall|a: int| 0 <= a < n - 1 implies before.tag_at(a).rank()
            < e.header.tag.rank() by {
            assert(before.tag_at(a) == o.tag_at(a));
            assert(o.tag_at(a).rank() < o.tag_at(n - 1).rank());
        }
        lemma_place_is(before, e.header.tag, n - 1);
        assert(before.put(e).elements =~= o.elements.take(n as int));
    }
}

/// A data element is read back from the member of its JSON form.
pub proof fn lemma_member_round_trip(name: Seq<char>, j: &JsonValue, e: ElementModel)
    requires
        name == e.header.tag.hex_spec(),
        is_element(j, e),
        exact_element(e),
    ensures
        member_of(name, j) == Ok::<ElementModel, DeError>(e),
    decreases j, 2nat,
{
    lemma_parse_of_hex(e.header.tag);
    lemma_element_round_trip(j, e);
}

/// A data element object that holds only its `"vr"` gives the empty value.
pub proof fn lemma_bare_element(j: &JsonValue, vr: VR)
    requires
        j matches JsonValue::Object(fields) && fields@.len() == 1 && fields[0].0@ == "vr"@
            && is_string(&fields[0].1, vr.text_spec()),
    ensures
        element_of(j) == Ok::<(VR, ValueModel), DeError>(
            (vr, ValueModel::Primitive(PrimitiveModel::Empty)),
        ),
{
    lemma_letters_name(vr);
    let fields = j->Object_0;
    assert(vr_of_text(vr.text_spec()) == vr);
    let none = FieldsModel { value: None, binary: None };
    assert(fields_prefix(vr, &fields, 1) == Ok::<FieldsModel, DeError>(none));
    assert(value_of_fields(none) == Ok::<ValueModel, DeError>(
        ValueModel::Primitive(PrimitiveModel::Empty),
    ));
}

/// A data element object that holds its `"vr"` and then a `"Value"` gives
/// what the `"Value"` gives under that value representation.
pub proof fn lemma_valued_element(j: &JsonValue, vr: VR, value: ValueModel)
    requires
        j matches JsonValue::Object(fields) && fields@.len() == 2 && fields[0].0@ == "vr"@
            && is_string(&fields[0].1, vr.text_spec()) && fields[1].0@ == "Value"@ && value_of(
            vr,
            &fields[1].1,
        ) == Ok::<ValueModel, DeError>(value),
    ensures
        element_of(j) == Ok::<(VR, ValueModel), DeError>((vr, value)),
{
    lemma_names_differ();
    lemma_letters_name(vr);
    let fields = j->Object_0;
    assert(vr_of_text(vr.text_spec()) == vr);
    let none = FieldsModel { value: None, binary: None };
    let read = FieldsModel { value: Some(value), binary: None };
    assert(fields_prefix(vr, &fields, 1) == Ok::<FieldsModel, DeError>(none));
    assert(field_step(vr, none, fields[1].0@, &fields[1].1) == Ok::<FieldsModel, DeError>(read));
    assert(fields_prefix(vr, &fields, 2) == Ok::<FieldsModel, DeError>(read));
    assert(value_of_fields(read) == Ok::<ValueModel, DeError>(value));
}

/// A data element object that holds its `"vr"`, which is `UN`, and then an
/// `"InlineBinary"` gives the bytes that the text is read back as.
pub proof fn lemma_binary_element(j: &JsonValue, bytes: Seq<u8>)
    requires
        j matches JsonValue::Object(fields) && fields@.len() == 2 && fields[0].0@ == "vr"@
            && is_string(&fields[0].1, VR::UN.text_spec()) && fields[1].0@ == "InlineBinary"@
            && (fields[1].1 matches JsonValue::Str(text) && base64_decoding(text@) == Some(bytes)),
    ensures
        element_of(j) == Ok::<(VR, ValueModel), DeError>(
            (VR::UN, ValueModel::Primitive(PrimitiveModel::U8(bytes))),
        ),
{
    lemma_names_differ();
    lemma_letters_name(VR::UN);
    let fields = j->Object_0;
    let text = fields[1].1->Str_0@;
    assert(vr_of_text(VR::UN.text_spec()) == VR::UN);
    let none = FieldsModel { value: None, binary: None };
    let read = FieldsModel { value: None, binary: Some(text) };
    assert(fields_prefix(VR::UN, &fields, 1) == Ok::<FieldsModel, DeError>(none));
    assert(field_step(VR::UN, none, fields[1].0@, &fields[1].1) == Ok::<FieldsModel, DeError>(
        read,
    ));
    assert(fields_prefix(VR::UN, &fields, 2) == Ok::<FieldsModel, DeError>(read));
    assert(value_of_fields(read) == Ok::<ValueModel, DeError>(
        ValueModel::Primitive(PrimitiveModel::U8(bytes)),
    ));
}

/// A `"Value"` array gives the primitive value whose JSON form its items
/// are.
pub proof fn lemma_primitive_value(json: &JsonValue, vr: VR, p: PrimitiveModel)
    requires
        json matches JsonValue::Array(items) && are_items(items@, vr, p),
        fits(vr, p),
        !(p is Empty),
        vr != VR::UN,
    ensures
        value_of(vr, json) == Ok::<ValueModel, DeError>(ValueModel::Primitive(p)),
{
    let items = json->Array_0;
    lemma_primitive(items@, vr, p);
    assert(vr != VR::SQ);
}

/// A `"Value"` array under `SQ` gives the sequence of the objects whose JSON
/// forms its items are.
pub proof fn lemma_sequence_value(json: &JsonValue, objects: Seq<ObjectModel>)
    requires
        json matches JsonValue::Array(items) && sequence_prefix(items, items@.len()) == Ok::<
            Seq<ObjectModel>,
            DeError,
        >(objects),
    ensures
        value_of(VR::SQ, json) == Ok::<ValueModel, DeError>(ValueModel::Sequence(objects)),
{
}

/// The value representation and the value of a data element are read back
/// from its JSON form.
#[verifier::rlimit(50)]
pub proof fn lemma_element_round_trip(j: &JsonValue, e: ElementModel)
    requires
        is_element(j, e),
        exact_element(e),
    ensures
        element_of(j) == Ok::<(VR, ValueModel), DeError>((e.header.vr, e.value)),
    decreases j, 1nat,
{
    let fields = j->Object_0;
    let vr = e.header.vr;
    match e.value {
        ValueModel::Primitive(PrimitiveModel::Empty) => {
            lemma_bare_element(j, vr);
        },
        ValueModel::Primitive(p) => {
            if vr == VR::UN {
                lemma_binary_element(j, p->U8_0);
            } else {
                lemma_primitive_value(&fields[1].1, vr, p);
                lemma_valued_element(j, vr, e.value);
            }
        },
        ValueModel::Sequence(objects) => {
            let items = fields[1].1->Array_0;
            lemma_sequence_round_trip(&items, objects, items@.len());
            assert(objects.take(objects.len() as int) =~= objects);
            lemma_sequence_value(&fields[1].1, objects);
            lemma_valued_element(j, vr, e.value);
        },
        ValueModel::PixelSequence(_, _) => {},
    }
}

/// The first `n` items of a sequence are read back from the first `n` items
/// of its `"Value"` array.
pub proof fn lemma_sequence_round_trip(items: &Vec<JsonValue>, objects: Seq<ObjectModel>, n: nat)
    requires
        items@.len() == objects.len(),
        forall|k: int| 0 <= k < items@.len() ==> is_object(#[trigger] &items[k], objects[k]),
        forall|k: int| 0 <= k < objects.len() ==> exact_object(#[trigger] objects[k]),
        n <= items@.len(),
    ensures
        sequence_prefix(items, n) == Ok::<Seq<ObjectModel>, DeError>(objects.take(n as int)),
    decreases items, n,
{
    if n == 0 {
        assert(objects.take(0) =~= Seq::<ObjectModel>::empty());
    } else {
        lemma_sequence_round_trip(items, objects, (n - 1) as nat);
        assert(is_object(&items[n - 1], objects[n - 1]));
        lemma_object_round_trip(&items[n - 1], objects[n - 1]);
        assert(objects.take(n - 1).push(objects[n - 1]) =~= objects.take(n as int));
    }
}

} // verus!

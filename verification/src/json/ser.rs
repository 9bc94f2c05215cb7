//! Writing of data sets in their JSON form.

use crate::json::de::base64_decoding;
use crate::json::{JsonNumber, JsonValue};
use crate::object::{
    object_models, DataElement, ElementModel, InMemDicomObject, ObjectModel, Value, ValueModel,
};
use crate::tag::Tag;
use crate::value::{texts, PrimitiveModel, PrimitiveValue};
use crate::vr::VR;
use base64::Engine;
use vstd::prelude::*;

verus! {

/// Why an object has no JSON form here.
#[derive(Clone, Copy, Debug, PartialEq, Eq, Structural)]
pub enum SerError {
    /// The element of this tag holds a value that its value representation
    /// has no JSON form for: floats, fragments of pixel data, a list of
    /// another kind than the value representation asks for, or more bytes
    /// of unknown representation than 2^30 - 1.
    NotRepresentable {
        /// The tag of the element.
        tag: Tag,
    },
}

/// The text that bytes are written as in base64: the standard alphabet,
/// with padding, as the crate `base64` encodes them.
pub uninterp spec fn base64_encoding(bytes: Seq<u8>) -> Seq<char>;

/// Whether a text is the base64 of bytes: it is what they are written as,
/// and it is read back as them.
pub open spec fn is_base64(text: Seq<char>, bytes: Seq<u8>) -> bool {
    text == base64_encoding(bytes) && base64_decoding(text) == Some(bytes)
}

/// Encodes bytes in base64.
///
/// Trusted: this is `Engine::encode` of the crate `base64` on its engine
/// `general_purpose::STANDARD`. What it gives depends on the bytes alone;
/// the contract gives that result its name. It also says that the same
/// engine decodes the text to the bytes again: the engine writes and reads
/// one alphabet, and it writes the padding that it asks for when it reads.
/// The bytes must be few enough for the length of the text to be a
/// `usize`, which the engine takes for granted.
#[verifier::external_body]
fn encode_base64(bytes: &Vec<u8>) -> (text: String)
    requires
        bytes@.len() <= 0x3FFF_FFFF,
    ensures
        text@ == base64_encoding(bytes@),
        base64_decoding(text@) == Some(bytes@),
{
    base64::engine::general_purpose::STANDARD.encode(bytes)
}

/// The JSON number of an integer: one that is not negative is written as
/// such, a negative one as a negative integer.
pub open spec fn is_number(j: &JsonValue, v: int) -> bool {
    match j {
        JsonValue::Number(JsonNumber::PosInt(u)) => v >= 0 && *u == v,
        JsonValue::Number(JsonNumber::NegInt(i)) => v < 0 && *i == v,
        _ => false,
    }
}

/// Whether a JSON value is the string of the given text.
pub open spec fn is_string(j: &JsonValue, text: Seq<char>) -> bool {
    j matches JsonValue::Str(s) && s@ == text
}

/// The place of the first `=` in a text from `from` on; the length of the
/// text where there is none.
pub open spec fn next_equals(s: Seq<char>, from: int) -> int
    decreases s.len() - from,
{
    if from < 0 || from >= s.len() {
        s.len() as int
    } else if s[from] == '=' {
        from
    } else {
        next_equals(s, from + 1)
    }
}

/// The number of component groups that a person name is written with: one
/// where the text has no `=`, two where it has one, and three where it has
/// more; the third group then takes all that follows the second `=`.
pub open spec fn group_count(text: Seq<char>) -> nat {
    let first = next_equals(text, 0);
    if first >= text.len() {
        1
    } else if next_equals(text, first + 1) >= text.len() {
        2
    } else {
        3
    }
}

/// Whether a JSON value is the person name object of a text: the first
/// component group under `"Alphabetic"`, the second, where there is one,
/// under `"Ideographic"`, and the third under `"Phonetic"`.
pub open spec fn is_person(j: &JsonValue, text: Seq<char>) -> bool {
    let first = next_equals(text, 0);
    let second = next_equals(text, first + 1);
    match j {
        JsonValue::Object(members) => {
            &&& members@.len() == group_count(text)
            &&& members[0].0@ == "Alphabetic"@
            &&& is_string(&members[0].1, text.subrange(0, first))
            &&& members@.len() >= 2 ==> {
                &&& members[1].0@ == "Ideographic"@
                &&& is_string(&members[1].1, text.subrange(first + 1, second))
            }
            &&& members@.len() == 3 ==> {
                &&& members[2].0@ == "Phonetic"@
                &&& is_string(&members[2].1, text.subrange(second + 1, text.len() as int))
            }
        },
        _ => false,
    }
}

/// Whether a primitive value is of the kind that the JSON form of the value
/// representation holds.
pub open spec fn fits(vr: VR, p: PrimitiveModel) -> bool {
    match p {
        PrimitiveModel::Empty => true,
        PrimitiveModel::Strs(list) => vr == VR::PN || vr == VR::AE || vr == VR::AS || vr == VR::CS || vr == VR::DA || vr == VR::DT || vr == VR::LO || vr == VR::LT || vr == VR::SH || vr == VR::ST || vr == VR::UT || vr == VR::UR || vr == VR::TM || vr == VR::UC || vr == VR::UI || vr == VR::DS || vr == VR::IS,
        PrimitiveModel::Tags(_) => vr == VR::AT,
        PrimitiveModel::U8(list) => vr == VR::OB || (vr == VR::UN && list.len() <= 0x3FFF_FFFF),
        PrimitiveModel::I16(_) => vr == VR::SS,
        PrimitiveModel::U16(_) => vr == VR::US || vr == VR::OW,
        PrimitiveModel::I32(_) => vr == VR::SL,
        PrimitiveModel::U32(_) => vr == VR::UL || vr == VR::OL,
        PrimitiveModel::I64(_) => vr == VR::SV,
        PrimitiveModel::U64(_) => vr == VR::UV || vr == VR::OV,
        PrimitiveModel::F32(_) => false,
        PrimitiveModel::F64(_) => false,
    }
}

/// Whether the items of a JSON array are the JSON form of a primitive value
/// under a value representation: a string for each text, a number for each
/// integer, an object of its component groups for each person name, and
/// eight hexadecimal digits for each tag.
pub open spec fn are_items(items: Seq<JsonValue>, vr: VR, p: PrimitiveModel) -> bool {
    match p {
        PrimitiveModel::Strs(list) => items.len() == list.len() && forall|k: int|
            0 <= k < list.len() ==> if vr == VR::PN {
                is_person(#[trigger] &items[k], list[k])
            } else {
                is_string(#[trigger] &items[k], list[k])
            },
        PrimitiveModel::Tags(list) => items.len() == list.len() && forall|k: int|
            0 <= k < list.len() ==> is_string(#[trigger] &items[k], list[k].hex_spec()),
        PrimitiveModel::U8(list) => items.len() == list.len() && forall|k: int|
            0 <= k < list.len() ==> is_number(#[trigger] &items[k], list[k] as int),
        PrimitiveModel::I16(list) => items.len() == list.len() && forall|k: int|
            0 <= k < list.len() ==> is_number(#[trigger] &items[k], list[k] as int),
        PrimitiveModel::U16(list) => items.len() == list.len() && forall|k: int|
            0 <= k < list.len() ==> is_number(#[trigger] &items[k], list[k] as int),
        PrimitiveModel::I32(list) => items.len() == list.len() && forall|k: int|
            0 <= k < list.len() ==> is_number(#[trigger] &items[k], list[k] as int),
        PrimitiveModel::U32(list) => items.len() == list.len() && forall|k: int|
            0 <= k < list.len() ==> is_number(#[trigger] &items[k], list[k] as int),
        PrimitiveModel::I64(list) => items.len() == list.len() && forall|k: int|
            0 <= k < list.len() ==> is_number(#[trigger] &items[k], list[k] as int),
        PrimitiveModel::U64(list) => items.len() == list.len() && forall|k: int|
            0 <= k < list.len() ==> is_number(#[trigger] &items[k], list[k] as int),
        _ => false,
    }
}

/// Whether a data element has a JSON form: its value is of the kind that
/// the value representation asks for, down through the items of a
/// sequence.
pub open spec fn writable(e: ElementModel) -> bool
    decreases e,
{
    match e.value {
        ValueModel::Primitive(p) => fits(e.header.vr, p),
        ValueModel::Sequence(objects) => e.header.vr == VR::SQ && forall|k: int|
            0 <= k < objects.len() ==> writable_object(#[trigger] objects[k]),
        ValueModel::PixelSequence(_, _) => false,
    }
}

/// Whether every data element of an object has a JSON form.
pub open spec fn writable_object(o: ObjectModel) -> bool
    decreases o,
{
    forall|i: int| 0 <= i < o.elements.len() ==> writable(#[trigger] o.elements[i])
}

/// The tag of the first data element without a JSON form that the writing
/// of a data element comes to: its own, or that of the first such element
/// within the items of its sequence. None where the element has a JSON
/// form.
pub open spec fn refused(e: ElementModel) -> Option<Tag>
    decreases e, 0nat,
{
    match e.value {
        ValueModel::Primitive(p) => if fits(e.header.vr, p) {
            None
        } else {
            Some(e.header.tag)
        },
        ValueModel::Sequence(objects) => if e.header.vr == VR::SQ {
            refused_in_sequence(objects, 0)
        } else {
            Some(e.header.tag)
        },
        ValueModel::PixelSequence(_, _) => Some(e.header.tag),
    }
}

/// The tag of the first data element without a JSON form in the items of a
/// sequence from the place `k` on.
pub open spec fn refused_in_sequence(objects: Seq<ObjectModel>, k: nat) -> Option<Tag>
    decreases objects, objects.len() - k,
{
    if k >= objects.len() {
        None
    } else {
        match refused_in_object(objects[k as int], 0) {
            Some(tag) => Some(tag),
            None => refused_in_sequence(objects, k + 1),
        }
    }
}

/// The tag of the first data element without a JSON form in an object from
/// the place `i` on.
pub open spec fn refused_in_object(o: ObjectModel, i: nat) -> Option<Tag>
    decreases o, o.elements.len() - i,
{
    if i >= o.elements.len() {
        None
    } else {
        match refused(o.elements[i as int]) {
            Some(tag) => Some(tag),
            None => refused_in_object(o, i + 1),
        }
    }
}

/// The tag that a writing was refused for, where it was.
pub open spec fn refusal<T>(r: Result<T, SerError>) -> Option<Tag> {
    match r {
        Ok(_) => None,
        Err(SerError::NotRepresentable { tag }) => Some(tag),
    }
}

/// Whether a JSON value is the JSON form of a data element: an object with
/// the value representation under `"vr"` first and then, where the element
/// holds anything, its value: bytes of unknown representation in base64
/// under `"InlineBinary"`, a text that is read back as them, and anything
/// else as an array under `"Value"`.
pub open spec fn is_element(j: &JsonValue, e: ElementModel) -> bool
    decreases j,
{
    match j {
        JsonValue::Object(fields) => {
            &&& fields@.len() >= 1
            &&& fields[0].0@ == "vr"@
            &&& is_string(&fields[0].1, e.header.vr.text_spec())
            &&& match e.value {
                ValueModel::Primitive(PrimitiveModel::Empty) => fields@.len() == 1,
                ValueModel::Primitive(p) => if e.header.vr == VR::UN {
                    &&& fields@.len() == 2
                    &&& fields[1].0@ == "InlineBinary"@
                    &&& p matches PrimitiveModel::U8(bytes)
                    &&& fields[1].1 matches JsonValue::Str(text)
                    &&& is_base64(text@, bytes)
                } else {
                    &&& fields@.len() == 2
                    &&& fields[1].0@ == "Value"@
                    &&& fields[1].1 matches JsonValue::Array(items)
                    &&& are_items(items@, e.header.vr, p)
                },
                ValueModel::Sequence(objects) => {
                    &&& fields@.len() == 2
                    &&& fields[1].0@ == "Value"@
                    &&& fields[1].1 matches JsonValue::Array(items)
                    &&& items@.len() == objects.len()
                    &&& forall|k: int|
                        0 <= k < items@.len() ==> is_object(#[trigger] &items[k], objects[k])
                },
                ValueModel::PixelSequence(_, _) => false,
            }
        },
        _ => false,
    }
}

/// Whether a JSON value is the JSON form of an object: an object with one
/// member for each data element, in the order of the tags, named by the
/// eight hexadecimal digits of the tag.
pub open spec fn is_object(j: &JsonValue, o: ObjectModel) -> bool
    decreases j,
{
    match j {
        JsonValue::Object(members) => {
            &&& members@.len() == o.elements.len()
            &&& forall|i: int|
                0 <= i < members@.len() ==> (#[trigger] members[i]).0@
                    == o.elements[i].header.tag.hex_spec() && is_element(
                    &members[i].1,
                    o.elements[i],
                )
        },
        _ => false,
    }
}

/// The JSON number of an integer.
pub fn number(v: i128) -> (j: JsonValue)
    requires
        -0x8000_0000_0000_0000 <= v <= 0xFFFF_FFFF_FFFF_FFFF,
    ensures
        is_number(&j, v as int),
{
    if v >= 0 {
        JsonValue::Number(JsonNumber::PosInt(v as u64))
    } else {
        JsonValue::Number(JsonNumber::NegInt(v as i64))
    }
}

/// The JSON string of a text.
pub fn string(text: &str) -> (j: JsonValue)
    ensures
        is_string(&j, text@),
{
    JsonValue::Str(text.to_owned())
}

/// Finds the first `=` in a text from `from` on.
pub fn find_equals(text: &str, from: usize) -> (r: usize)
    requires
        from <= text@.len(),
    ensures
        r == next_equals(text@, from as int),
        from <= r <= text@.len(),
{
    let n: usize = text.unicode_len();
    let mut i: usize = from;
    while i < n
        invariant
            from <= i <= n,
            n == text@.len(),
            next_equals(text@, from as int) == next_equals(text@, i as int),
        decreases n - i,
    {
        if text.get_char(i) == '=' {
            return i;
        }
        i = i + 1;
    }
    i
}

/// The person name object of a text.
pub fn person(text: &str) -> (j: JsonValue)
    ensures
        is_person(&j, text@),
{
    let n: usize = text.unicode_len();
    let first: usize = find_equals(text, 0);
    let mut members: Vec<(String, JsonValue)> = Vec::new();
    members.push(("Alphabetic".to_owned(), string(text.substring_char(0, first))));
    if first < n {
        let second: usize = find_equals(text, first + 1);
        members.push(
            ("Ideographic".to_owned(), string(text.substring_char(first + 1, second))),
        );
        if second < n {
            members.push(("Phonetic".to_owned(), string(text.substring_char(second + 1, n))));
        }
    }
    JsonValue::Object(members)
}

/// The JSON strings of a list of texts.
pub fn string_items(list: &Vec<String>) -> (items: Vec<JsonValue>)
    ensures
        items@.len() == list@.len(),
        forall|k: int| 0 <= k < list@.len() ==> is_string(#[trigger] &items@[k], list@[k]@),
{
    let mut items: Vec<JsonValue> = Vec::new();
    let mut i: usize = 0;
    while i < list.len()
        invariant
            i <= list@.len(),
            items@.len() == i,
            forall|k: int| 0 <= k < i ==> is_string(#[trigger] &items@[k], list@[k]@),
        decreases list@.len() - i,
    {
        items.push(string(list[i].as_str()));
        i = i + 1;
    }
    items
}

/// The person name objects of a list of texts.
pub fn person_items(list: &Vec<String>) -> (items: Vec<JsonValue>)
    ensures
        items@.len() == list@.len(),
        forall|k: int| 0 <= k < list@.len() ==> is_person(#[trigger] &items@[k], list@[k]@),
{
    let mut items: Vec<JsonValue> = Vec::new();
    let mut i: usize = 0;
    while i < list.len()
        invariant
            i <= list@.len(),
            items@.len() == i,
            forall|k: int| 0 <= k < i ==> is_person(#[trigger] &items@[k], list@[k]@),
        decreases list@.len() - i,
    {
        items.push(person(list[i].as_str()));
        i = i + 1;
    }
    items
}

/// The JSON strings of a list of tags.
pub fn tag_items(list: &Vec<Tag>) -> (items: Vec<JsonValue>)
    ensures
        items@.len() == list@.len(),
        forall|k: int| 0 <= k < list@.len() ==> is_string(#[trigger] &items@[k], list@[k].hex_spec()),
{
    let mut items: Vec<JsonValue> = Vec::new();
    let mut i: usize = 0;
    while i < list.len()
        invariant
            i <= list@.len(),
            items@.len() == i,
            forall|k: int| 0 <= k < i ==> is_string(#[trigger] &items@[k], list@[k].hex_spec()),
        decreases list@.len() - i,
    {
        let hex: String = list[i].to_hex();
        items.push(string(hex.as_str()));
        i = i + 1;
    }
    items
}

/// The JSON numbers of a list of `u8`.
pub fn u8_items(list: &Vec<u8>) -> (items: Vec<JsonValue>)
    ensures
        items@.len() == list@.len(),
        forall|k: int| 0 <= k < list@.len() ==> is_number(#[trigger] &items@[k], list@[k] as int),
{
    let mut items: Vec<JsonValue> = Vec::new();
    let mut i: usize = 0;
    while i < list.len()
        invariant
            i <= list@.len(),
            items@.len() == i,
            forall|k: int| 0 <= k < i ==> is_number(#[trigger] &items@[k], list@[k] as int),
        decreases list@.len() - i,
    {
        items.push(number(list[i] as i128));
        i = i + 1;
    }
    items
}

/// The JSON numbers of a list of `i16`.
pub fn i16_items(list: &Vec<i16>) -> (items: Vec<JsonValue>)
    ensures
        items@.len() == list@.len(),
        forall|k: int| 0 <= k < list@.len() ==> is_number(#[trigger] &items@[k], list@[k] as int),
{
    let mut items: Vec<JsonValue> = Vec::new();
    let mut i: usize = 0;
    while i < list.len()
        invariant
            i <= list@.len(),
            items@.len() == i,
            forall|k: int| 0 <= k < i ==> is_number(#[trigger] &items@[k], list@[k] as int),
        decreases list@.len() - i,
    {
        items.push(number(list[i] as i128));
        i = i + 1;
    }
    items
}

/// The JSON numbers of a list of `u16`.
pub fn u16_items(list: &Vec<u16>) -> (items: Vec<JsonValue>)
    ensures
        items@.len() == list@.len(),
        forall|k: int| 0 <= k < list@.len() ==> is_number(#[trigger] &items@[k], list@[k] as int),
{
    let mut items: Vec<JsonValue> = Vec::new();
    let mut i: usize = 0;
    while i < list.len()
        invariant
            i <= list@.len(),
            items@.len() == i,
            forall|k: int| 0 <= k < i ==> is_number(#[trigger] &items@[k], list@[k] as int),
        decreases list@.len() - i,
    {
        items.push(number(list[i] as i128));
        i = i + 1;
    }
    items
}

/// The JSON numbers of a list of `i32`.
pub fn i32_items(list: &Vec<i32>) -> (items: Vec<JsonValue>)
    ensures
        items@.len() == list@.len(),
        forall|k: int| 0 <= k < list@.len() ==> is_number(#[trigger] &items@[k], list@[k] as int),
{
    let mut items: Vec<JsonValue> = Vec::new();
    let mut i: usize = 0;
    while i < list.len()
        invariant
            i <= list@.len(),
            items@.len() == i,
            forall|k: int| 0 <= k < i ==> is_number(#[trigger] &items@[k], list@[k] as int),
        decreases list@.len() - i,
    {
        items.push(number(list[i] as i128));
        i = i + 1;
    }
    items
}

/// The JSON numbers of a list of `u32`.
pub fn u32_items(list: &Vec<u32>) -> (items: Vec<JsonValue>)
    ensures
        items@.len() == list@.len(),
        forall|k: int| 0 <= k < list@.len() ==> is_number(#[trigger] &items@[k], list@[k] as int),
{
    let mut items: Vec<JsonValue> = Vec::new();
    let mut i: usize = 0;
    while i < list.len()
        invariant
            i <= list@.len(),
            items@.len() == i,
            forall|k: int| 0 <= k < i ==> is_number(#[trigger] &items@[k], list@[k] as int),
        decreases list@.len() - i,
    {
        items.push(number(list[i] as i128));
        i = i + 1;
    }
    items
}

/// The JSON numbers of a list of `i64`.
pub fn i64_items(list: &Vec<i64>) -> (items: Vec<JsonValue>)
    ensures
        items@.len() == list@.len(),
        forall|k: int| 0 <= k < list@.len() ==> is_number(#[trigger] &items@[k], list@[k] as int),
{
    let mut items: Vec<JsonValue> = Vec::new();
    let mut i: usize = 0;
    while i < list.len()
        invariant
            i <= list@.len(),
            items@.len() == i,
            forall|k: int| 0 <= k < i ==> is_number(#[trigger] &items@[k], list@[k] as int),
        decreases list@.len() - i,
    {
        items.push(number(list[i] as i128));
        i = i + 1;
    }
    items
}

/// The JSON numbers of a list of `u64`.
pub fn u64_items(list: &Vec<u64>) -> (items: Vec<JsonValue>)
    ensures
        items@.len() == list@.len(),
        forall|k: int| 0 <= k < list@.len() ==> is_number(#[trigger] &items@[k], list@[k] as int),
{
    let mut items: Vec<JsonValue> = Vec::new();
    let mut i: usize = 0;
    while i < list.len()
        invariant
            i <= list@.len(),
            items@.len() == i,
            forall|k: int| 0 <= k < i ==> is_number(#[trigger] &items@[k], list@[k] as int),
        decreases list@.len() - i,
    {
        items.push(number(list[i] as i128));
        i = i + 1;
    }
    items
}

/// Whether a primitive value is of the kind that the JSON form of the value
/// representation holds.
pub fn value_fits(vr: VR, p: &PrimitiveValue) -> (b: bool)
    ensures
        b == fits(vr, p@),
{
    match p {
        PrimitiveValue::Empty => true,
        PrimitiveValue::Strs(_) | PrimitiveValue::Str(_) => match vr {
            VR::PN => true,
            VR::AE | VR::AS | VR::CS | VR::DA | VR::DT | VR::LO | VR::LT | VR::SH | VR::ST | VR::UT | VR::UR | VR::TM | VR::UC | VR::UI | VR::DS | VR::IS => true,
            _ => false,
        },
        PrimitiveValue::Tags(_) => vr == VR::AT,
        PrimitiveValue::U8(list) => vr == VR::OB || (vr == VR::UN && list.len() <= 0x3FFF_FFFF),
        PrimitiveValue::I16(_) => vr == VR::SS,
        PrimitiveValue::U16(_) => vr == VR::US || vr == VR::OW,
        PrimitiveValue::I32(_) => vr == VR::SL,
        PrimitiveValue::U32(_) => vr == VR::UL || vr == VR::OL,
        PrimitiveValue::I64(_) => vr == VR::SV,
        PrimitiveValue::U64(_) => vr == VR::UV || vr == VR::OV,
        PrimitiveValue::F32(_) => false,
        PrimitiveValue::F64(_) => false,
    }
}

/// The items of the `"Value"` array of a primitive value.
fn primitive_items(vr: VR, p: &PrimitiveValue) -> (items: Vec<JsonValue>)
    requires
        fits(vr, p@),
        !(p@ is Empty),
    ensures
        are_items(items@, vr, p@),
{
    match p {
        PrimitiveValue::Strs(list) => {
            if vr == VR::PN {
                person_items(list)
            } else {
                string_items(list)
            }
        },
        PrimitiveValue::Str(s) => {
            let mut items: Vec<JsonValue> = Vec::new();
            if vr == VR::PN {
                items.push(person(s.as_str()));
            } else {
                items.push(string(s.as_str()));
            }
            items
        },
        PrimitiveValue::Tags(list) => tag_items(list),
        PrimitiveValue::U8(list) => u8_items(list),
        PrimitiveValue::I16(list) => i16_items(list),
        PrimitiveValue::U16(list) => u16_items(list),
        PrimitiveValue::I32(list) => i32_items(list),
        PrimitiveValue::U32(list) => u32_items(list),
        PrimitiveValue::I64(list) => i64_items(list),
        PrimitiveValue::U64(list) => u64_items(list),
        _ => Vec::new(),
    }
}

/// The member `"InlineBinary"` of a data element object, by the text that
/// came of encoding its bytes.
pub fn inline_binary_member(text: String) -> (m: (String, JsonValue))
    ensures
        m.0@ == "InlineBinary"@,
        is_string(&m.1, text@),
{
    ("InlineBinary".to_owned(), JsonValue::Str(text))
}

/// The member `"vr"` of a data element object.
fn vr_member(vr: VR) -> (m: (String, JsonValue))
    ensures
        m.0@ == "vr"@,
        is_string(&m.1, vr.text_spec()),
{
    ("vr".to_owned(), string(vr.to_string()))
}

/// Writes a data element in its JSON form. Fails where the element has
/// none.
pub fn element_to_json<D>(e: &DataElement<D>) -> (r: Result<JsonValue, SerError>)
    ensures
        match r {
            Ok(j) => writable(e.model()) && is_element(&j, e.model()),
            Err(_) => !writable(e.model()),
        },
        refusal(r) == refused(e.model()),
    decreases e.model(), 0nat,
{
    let vr: VR = e.vr();
    let mut fields: Vec<(String, JsonValue)> = Vec::new();
    fields.push(vr_member(vr));
    match e.value() {
        Value::Primitive(p) => {
            if !value_fits(vr, p) {
                return Err(SerError::NotRepresentable { tag: e.tag() });
            }
            match p {
                PrimitiveValue::Empty => {},
                PrimitiveValue::U8(bytes) => {
                    if vr == VR::UN {
                        fields.push(inline_binary_member(encode_base64(bytes)));
                    } else {
                        fields.push(("Value".to_owned(), JsonValue::Array(primitive_items(vr, p))));
                    }
                },
                _ => {
                    fields.push(("Value".to_owned(), JsonValue::Array(primitive_items(vr, p))));
                },
            }
            Ok(JsonValue::Object(fields))
        },
        Value::Sequence(objects) => {
            if vr != VR::SQ {
                return Err(SerError::NotRepresentable { tag: e.tag() });
            }
            assert(e.model().value->Sequence_0 =~= object_models(objects));
            match sequence_to_json(objects) {
                Ok(items) => {
                    fields.push(("Value".to_owned(), JsonValue::Array(items)));
                    Ok(JsonValue::Object(fields))
                },
                Err(x) => Err(x),
            }
        },
        Value::PixelSequence(_) => Err(SerError::NotRepresentable { tag: e.tag() }),
    }
}

/// Writes the items of a sequence, each as a data set of its own.
pub fn sequence_to_json<D>(objects: &Vec<InMemDicomObject<D>>) -> (r: Result<
    Vec<JsonValue>,
    SerError,
>)
    ensures
        match r {
            Ok(items) => items@.len() == objects@.len() && forall|k: int|
                0 <= k < objects@.len() ==> writable_object(
                    (#[trigger] object_models(objects)[k]),
                ) && is_object(&items@[k], object_models(objects)[k]),
            Err(_) => exists|k: int|
                0 <= k < objects@.len() && !writable_object(#[trigger] object_models(objects)[k]),
        },
        refusal(r) == refused_in_sequence(object_models(objects), 0),
    decreases object_models(objects), 2nat,
{
    let mut items: Vec<JsonValue> = Vec::new();
    let mut k: usize = 0;
    while k < objects.len()
        invariant
            k <= objects@.len(),
            items@.len() == k,
            refused_in_sequence(object_models(objects), 0) == refused_in_sequence(
                object_models(objects),
                k as nat,
            ),
            forall|i: int|
                0 <= i < k ==> writable_object((#[trigger] object_models(objects)[i])) && is_object(
                    &items@[i],
                    object_models(objects)[i],
                ),
        decreases objects@.len() - k,
    {
        assert(object_models(objects)[k as int] == objects[k as int].model());
        match object_to_json(&objects[k]) {
            Ok(j) => {
                let ghost before = items@;
                items.push(j);
                assert(forall|i: int| 0 <= i < k ==> items@[i] == before[i]);
            },
            Err(x) => {
                assert(!writable_object(object_models(objects)[k as int]));
                return Err(x);
            },
        }
        k = k + 1;
    }
    Ok(items)
}

/// Writes an object in its JSON form: one member for each data element, in
/// the ascending order of the tags. Fails where an element has no JSON
/// form.
pub fn object_to_json<D>(o: &InMemDicomObject<D>) -> (r: Result<JsonValue, SerError>)
    ensures
        match r {
            Ok(j) => writable_object(o.model()) && is_object(&j, o.model()),
            Err(_) => !writable_object(o.model()),
        },
        refusal(r) == refused_in_object(o.model(), 0),
    decreases o.model(), 1nat,
{
    let n: usize = o.len();
    let mut members: Vec<(String, JsonValue)> = Vec::new();
    let mut i: usize = 0;
    while i < n
        invariant
            i <= n,
            n == o.model().elements.len(),
            members@.len() == i,
            refused_in_object(o.model(), 0) == refused_in_object(o.model(), i as nat),
            forall|k: int|
                0 <= k < i ==> writable((#[trigger] o.model().elements[k])) && members@[k].0@
                    == o.model().elements[k].header.tag.hex_spec() && is_element(
                    &members@[k].1,
                    o.model().elements[k],
                ),
        decreases n - i,
    {
        let e: &DataElement<D> = o.element_at(i);
        match element_to_json(e) {
            Ok(j) => {
                let ghost before = members@;
                members.push((e.tag().to_hex(), j));
                assert(forall|k: int| 0 <= k < i ==> members@[k] == before[k]);
            },
            Err(x) => {
                assert(!writable(o.model().elements[i as int]));
                return Err(x);
            },
        }
        i = i + 1;
    }
    let j = JsonValue::Object(members);
    assert(is_object(&j, o.model())) by {
        assert forall|i: int| 0 <= i < members@.len() implies (#[trigger] members[i]).0@
            == o.model().elements[i].header.tag.hex_spec() && is_element(
            &members[i].1,
            o.model().elements[i],
        ) by {
            assert(writable(o.model().elements[i]));
        }
    }
    Ok(j)
}

/// Writes a data set in its JSON form. Where an element has none the
/// error names the first such element in the order of writing.
pub fn to_value<D>(o: &InMemDicomObject<D>) -> (r: Result<JsonValue, SerError>)
    ensures
        match r {
            Ok(j) => writable_object(o.model()) && is_object(&j, o.model()),
            Err(_) => !writable_object(o.model()),
        },
        refusal(r) == refused_in_object(o.model(), 0),
{
    object_to_json(o)
}

} // verus!

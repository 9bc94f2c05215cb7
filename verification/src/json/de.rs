//! Reading of data sets from their JSON form.

use crate::decimal::{
    bounded_integer_of_text, decimal_text, parse_integer, signed_to_text, unsigned_to_text,
};
use crate::header::DataElementHeader;
use crate::ieee::{double_bits, double_of, signed_bits, single_bits, single_of};
use crate::json::{DeError, JsonNumber, JsonValue};
use crate::object::{
    object_models, DataElement, ElementModel, InMemDicomObject, ObjectModel, Value, ValueModel,
};
use crate::tag::Tag;
use crate::value::{PrimitiveModel, PrimitiveValue};
use crate::vr::VR;
use base64::Engine;
use crate::text::{push_char, same_text};
use crate::value::texts;
use vstd::prelude::*;

verus! {

/// The integer that an item of a `"Value"` array gives, where it lies
/// between `low` and `high`: a JSON number that is an integer or, where
/// `text` holds, a string that writes an integer in decimal.
pub open spec fn integer_of_item(item: &JsonValue, signed: bool, text: bool, low: int, high: int) -> Option<
    int,
> {
    match item {
        JsonValue::Number(JsonNumber::PosInt(u)) => if low <= *u <= high {
            Some(*u as int)
        } else {
            None
        },
        JsonValue::Number(JsonNumber::NegInt(i)) => if low <= *i <= high {
            Some(*i as int)
        } else {
            None
        },
        JsonValue::Str(s) => if text {
            bounded_integer_of_text(s@, signed, low, high)
        } else {
            None
        },
        _ => None,
    }
}

/// Reads an item of a `"Value"` array as an integer between `low` and
/// `high`.
pub fn integer_item(item: &JsonValue, signed: bool, text: bool, low: i128, high: i128) -> (r: Option<
    i128,
>)
    requires
        -0x8000_0000_0000_0000 <= low,
        high <= 0xFFFF_FFFF_FFFF_FFFF,
    ensures
        r matches Some(v) ==> integer_of_item(item, signed, text, low as int, high as int) == Some(
            v as int,
        ) && low <= v <= high,
        r is None ==> integer_of_item(item, signed, text, low as int, high as int) is None,
{
    match item {
        JsonValue::Number(JsonNumber::PosInt(u)) => {
            let v: i128 = *u as i128;
            if low <= v && v <= high {
                Some(v)
            } else {
                None
            }
        },
        JsonValue::Number(JsonNumber::NegInt(i)) => {
            let v: i128 = *i as i128;
            if low <= v && v <= high {
                Some(v)
            } else {
                None
            }
        },
        JsonValue::Str(s) => {
            if text {
                parse_integer(s.as_str(), signed, low, high)
            } else {
                None
            }
        },
        _ => None,
    }
}

/// The text that an item of a `"Value"` array gives for a decimal or
/// integer string: a string stays as it is, and a number is written in
/// decimal.
pub open spec fn decimal_of_item(item: &JsonValue) -> Option<Seq<char>> {
    match item {
        JsonValue::Number(JsonNumber::PosInt(u)) => Some(decimal_text(*u as int)),
        JsonValue::Number(JsonNumber::NegInt(i)) => Some(decimal_text(*i as int)),
        JsonValue::Number(JsonNumber::Float(f)) => Some(f.text@),
        JsonValue::Str(s) => Some(s@),
        _ => None,
    }
}

/// Reads an item of a `"Value"` array as a decimal or integer string.
pub fn decimal_item(item: &JsonValue) -> (r: Option<String>)
    ensures
        r matches Some(s) ==> decimal_of_item(item) == Some(s@),
        r is None ==> decimal_of_item(item) is None,
{
    match item {
        JsonValue::Number(JsonNumber::PosInt(u)) => Some(unsigned_to_text(*u)),
        JsonValue::Number(JsonNumber::NegInt(i)) => Some(signed_to_text(*i)),
        JsonValue::Number(JsonNumber::Float(f)) => Some(f.text.clone()),
        JsonValue::Str(s) => Some(s.clone()),
        _ => None,
    }
}

/// The text of an item of a `"Value"` array that is a string.
pub open spec fn text_of_item(item: &JsonValue) -> Option<Seq<char>> {
    match item {
        JsonValue::Str(s) => Some(s@),
        _ => None,
    }
}

/// The tag that an item of a `"Value"` array names: a string of eight
/// hexadecimal digits.
pub open spec fn tag_of_item(item: &JsonValue) -> Option<Tag> {
    match item {
        JsonValue::Str(s) => match Tag::parse_spec(s@) {
            Ok(t) => Some(t),
            Err(_) => None,
        },
        _ => None,
    }
}

/// The 32 bits of the single-precision float that an item of a `"Value"`
/// array gives: a JSON number that is no integer, in the form that it
/// brings; an integer, where a float of this precision is just that
/// integer; or one of the strings `"NaN"`, `"Infinity"` and `"-Infinity"`.
pub open spec fn single_of_item(item: &JsonValue) -> Option<u32> {
    match item {
        JsonValue::Number(JsonNumber::Float(f)) => Some(f.single),
        JsonValue::Number(JsonNumber::PosInt(u)) => match single_of(*u as nat) {
            Some(bits) => Some(bits as u32),
            None => None,
        },
        JsonValue::Number(JsonNumber::NegInt(i)) => match signed_bits(
            *i < 0,
            single_of(magnitude(*i)),
            0x8000_0000,
        ) {
            Some(bits) => Some(bits as u32),
            None => None,
        },
        JsonValue::Str(s) => if s@ == "NaN"@ {
            Some(0x7FC0_0000u32)
        } else if s@ == "Infinity"@ {
            Some(0x7F80_0000u32)
        } else if s@ == "-Infinity"@ {
            Some(0xFF80_0000u32)
        } else {
            None
        },
        _ => None,
    }
}

/// The 64 bits of the double-precision float that an item of a `"Value"`
/// array gives: a JSON number that is no integer, in the form that it
/// brings; an integer, where a float of this precision is just that
/// integer; or one of the strings `"NaN"`, `"Infinity"` and `"-Infinity"`.
pub open spec fn double_of_item(item: &JsonValue) -> Option<u64> {
    match item {
        JsonValue::Number(JsonNumber::Float(f)) => Some(f.double),
        JsonValue::Number(JsonNumber::PosInt(u)) => match double_of(*u as nat) {
            Some(bits) => Some(bits as u64),
            None => None,
        },
        JsonValue::Number(JsonNumber::NegInt(i)) => match signed_bits(
            *i < 0,
            double_of(magnitude(*i)),
            0x8000_0000_0000_0000,
        ) {
            Some(bits) => Some(bits as u64),
            None => None,
        },
        JsonValue::Str(s) => if s@ == "NaN"@ {
            Some(0x7FF8_0000_0000_0000u64)
        } else if s@ == "Infinity"@ {
            Some(0x7FF0_0000_0000_0000u64)
        } else if s@ == "-Infinity"@ {
            Some(0xFFF0_0000_0000_0000u64)
        } else {
            None
        },
        _ => None,
    }
}

/// The magnitude of an integer.
pub open spec fn magnitude(i: i64) -> nat {
    if i < 0 {
        (-(i as int)) as nat
    } else {
        i as nat
    }
}

/// The magnitude of an integer.
pub fn magnitude_of(i: i64) -> (m: u64)
    ensures
        m == magnitude(i),
{
    if i == i64::MIN {
        0x8000_0000_0000_0000
    } else if i < 0 {
        (-i) as u64
    } else {
        i as u64
    }
}

/// Reads an item of a `"Value"` array as a single-precision float.
pub fn single_item(item: &JsonValue) -> (r: Option<u32>)
    ensures
        r == single_of_item(item),
{
    match item {
        JsonValue::Number(JsonNumber::Float(f)) => Some(f.single),
        JsonValue::Number(JsonNumber::PosInt(u)) => single_bits(false, *u),
        JsonValue::Number(JsonNumber::NegInt(i)) => single_bits(*i < 0, magnitude_of(*i)),
        JsonValue::Str(s) => {
            if same_text(s, "NaN") {
                Some(0x7FC0_0000)
            } else if same_text(s, "Infinity") {
                Some(0x7F80_0000)
            } else if same_text(s, "-Infinity") {
                Some(0xFF80_0000)
            } else {
                None
            }
        },
        _ => None,
    }
}

/// Reads an item of a `"Value"` array as a double-precision float.
pub fn double_item(item: &JsonValue) -> (r: Option<u64>)
    ensures
        r == double_of_item(item),
{
    match item {
        JsonValue::Number(JsonNumber::Float(f)) => Some(f.double),
        JsonValue::Number(JsonNumber::PosInt(u)) => double_bits(false, *u),
        JsonValue::Number(JsonNumber::NegInt(i)) => double_bits(*i < 0, magnitude_of(*i)),
        JsonValue::Str(s) => {
            if same_text(s, "NaN") {
                Some(0x7FF8_0000_0000_0000)
            } else if same_text(s, "Infinity") {
                Some(0x7FF0_0000_0000_0000)
            } else if same_text(s, "-Infinity") {
                Some(0xFFF0_0000_0000_0000)
            } else {
                None
            }
        },
        _ => None,
    }
}

/// Reads an item of a `"Value"` array as a string.
pub fn text_item(item: &JsonValue) -> (r: Option<String>)
    ensures
        r matches Some(s) ==> text_of_item(item) == Some(s@),
        r is None ==> text_of_item(item) is None,
{
    match item {
        JsonValue::Str(s) => Some(s.clone()),
        _ => None,
    }
}

/// Reads an item of a `"Value"` array as a tag.
pub fn tag_item(item: &JsonValue) -> (r: Option<Tag>)
    ensures
        r == tag_of_item(item),
{
    match item {
        JsonValue::Str(s) => match Tag::parse(s.as_str()) {
            Ok(t) => Some(t),
            Err(_) => None,
        },
        _ => None,
    }
}

/// The components of a person name as far as they were read: for each of
/// them whether it was named, and its text where one was given.
pub ghost struct PersonModel {
    /// Whether `"Alphabetic"` was named.
    pub alphabetic_seen: bool,
    /// The alphabetic component.
    pub alphabetic: Option<Seq<char>>,
    /// Whether `"Ideographic"` was named.
    pub ideographic_seen: bool,
    /// The ideographic component.
    pub ideographic: Option<Seq<char>>,
    /// Whether `"Phonetic"` was named.
    pub phonetic_seen: bool,
    /// The phonetic component.
    pub phonetic: Option<Seq<char>>,
}

/// What a member of a person name object gives as a component: a string is
/// the component, `null` leaves it out, and nothing else is taken.
pub open spec fn component_of(value: &JsonValue) -> Option<Option<Seq<char>>> {
    match value {
        JsonValue::Str(s) => Some(Some(s@)),
        JsonValue::Null => Some(None),
        _ => None,
    }
}

/// The components of a person name after one more member of its object.
/// A component that is named twice, or given as anything but a string or
/// `null`, spoils the name; members of other names are passed over.
pub open spec fn person_step(p: PersonModel, name: Seq<char>, value: &JsonValue) -> Option<
    PersonModel,
> {
    if name == "Alphabetic"@ {
        match component_of(value) {
            Some(c) => if p.alphabetic_seen {
                None
            } else {
                Some(PersonModel { alphabetic_seen: true, alphabetic: c, ..p })
            },
            None => None,
        }
    } else if name == "Ideographic"@ {
        match component_of(value) {
            Some(c) => if p.ideographic_seen {
                None
            } else {
                Some(PersonModel { ideographic_seen: true, ideographic: c, ..p })
            },
            None => None,
        }
    } else if name == "Phonetic"@ {
        match component_of(value) {
            Some(c) => if p.phonetic_seen {
                None
            } else {
                Some(PersonModel { phonetic_seen: true, phonetic: c, ..p })
            },
            None => None,
        }
    } else {
        Some(p)
    }
}

/// The components of a person name after the first `n` members of its
/// object.
pub open spec fn person_prefix(members: Seq<(String, JsonValue)>, n: nat) -> Option<PersonModel>
    decreases n,
{
    if n == 0 || n > members.len() {
        Some(
            PersonModel {
                alphabetic_seen: false,
                alphabetic: None,
                ideographic_seen: false,
                ideographic: None,
                phonetic_seen: false,
                phonetic: None,
            },
        )
    } else {
        match person_prefix(members, (n - 1) as nat) {
            Some(p) => person_step(p, members[n - 1].0@, &members[n - 1].1),
            None => None,
        }
    }
}

/// Once a member has spoiled a person name, further members do not mend
/// it.
pub proof fn lemma_person_spoiled(members: Seq<(String, JsonValue)>, n: nat, m: nat)
    requires
        n <= m <= members.len(),
        person_prefix(members, n) is None,
    ensures
        person_prefix(members, m) is None,
    decreases m,
{
    if n < m {
        lemma_person_spoiled(members, n, (m - 1) as nat);
    }
}

/// A component that is left out is written as the empty text.
pub open spec fn or_empty(c: Option<Seq<char>>) -> Seq<char> {
    match c {
        Some(s) => s,
        None => Seq::empty(),
    }
}

/// The text of a person name: its components in the order alphabetic,
/// ideographic, phonetic, with `=` between them, up to the last one that is
/// given.
pub open spec fn person_text(p: PersonModel) -> Seq<char> {
    if p.phonetic is Some {
        or_empty(p.alphabetic) + seq!['='] + or_empty(p.ideographic) + seq!['='] + or_empty(
            p.phonetic,
        )
    } else if p.ideographic is Some {
        or_empty(p.alphabetic) + seq!['='] + or_empty(p.ideographic)
    } else {
        or_empty(p.alphabetic)
    }
}

/// The person name that an item of a `"Value"` array gives: an object with
/// the components under `"Alphabetic"`, `"Ideographic"` and `"Phonetic"`.
pub open spec fn person_of_item(item: &JsonValue) -> Option<Seq<char>> {
    match item {
        JsonValue::Object(members) => match person_prefix(members@, members@.len()) {
            Some(p) => Some(person_text(p)),
            None => None,
        },
        _ => None,
    }
}

/// Reads a member of a person name object as a component.
fn component(value: &JsonValue) -> (r: Option<Option<String>>)
    ensures
        match r {
            Some(Some(s)) => component_of(value) == Some(Some(s@)),
            Some(None) => component_of(value) == Some(None::<Seq<char>>),
            None => component_of(value) is None,
        },
{
    match value {
        JsonValue::Str(s) => Some(Some(s.clone())),
        JsonValue::Null => Some(None),
        _ => None,
    }
}

/// The text of an optional string.
pub open spec fn optional_text(s: Option<String>) -> Option<Seq<char>> {
    match s {
        Some(s) => Some(s@),
        None => None,
    }
}

/// Appends a component to a person name.
fn push_component(out: &mut String, c: &Option<String>)
    ensures
        final(out)@ == old(out)@ + or_empty(optional_text(*c)),
{
    match c {
        Some(s) => {
            out.append(s.as_str());
        },
        None => {
            assert(out@ =~= out@ + Seq::<char>::empty());
        },
    }
}

/// Reads an item of a `"Value"` array as a person name.
pub fn person_item(item: &JsonValue) -> (r: Option<String>)
    ensures
        r matches Some(s) ==> person_of_item(item) == Some(s@),
        r is None ==> person_of_item(item) is None,
{
    match item {
        JsonValue::Object(members) => person_name(members),
        _ => None,
    }
}

/// Reads the members of a person name object as a person name.
pub fn person_name(members: &Vec<(String, JsonValue)>) -> (r: Option<String>)
    ensures
        r matches Some(s) ==> person_prefix(members@, members@.len()) matches Some(p) && s@
            == person_text(p),
        r is None ==> person_prefix(members@, members@.len()) is None,
{
    let mut alphabetic: Option<String> = None;
    let mut ideographic: Option<String> = None;
    let mut phonetic: Option<String> = None;
    let mut alphabetic_seen: bool = false;
    let mut ideographic_seen: bool = false;
    let mut phonetic_seen: bool = false;
    let mut i: usize = 0;
    while i < members.len()
        invariant
            i <= members@.len(),
            person_prefix(members@, i as nat) == Some(
                PersonModel {
                    alphabetic_seen,
                    alphabetic: optional_text(alphabetic),
                    ideographic_seen,
                    ideographic: optional_text(ideographic),
                    phonetic_seen,
                    phonetic: optional_text(phonetic),
                },
            ),
        decreases members@.len() - i,
    {
        let name: &String = &members[i].0;
        let value: &JsonValue = &members[i].1;
        assert(person_prefix(members@, (i + 1) as nat) == person_step(
            person_prefix(members@, i as nat)->0,
            name@,
            value,
        ));
        proof {
            if person_prefix(members@, (i + 1) as nat) is None {
                lemma_person_spoiled(members@, (i + 1) as nat, members@.len());
            }
        }
        if same_text(name, "Alphabetic") {
            match component(value) {
                Some(c) => {
                    if alphabetic_seen {
                        return None;
                    }
                    alphabetic_seen = true;
                    alphabetic = c;
                },
                None => {
                    return None;
                },
            }
        } else if same_text(name, "Ideographic") {
            match component(value) {
                Some(c) => {
                    if ideographic_seen {
                        return None;
                    }
                    ideographic_seen = true;
                    ideographic = c;
                },
                None => {
                    return None;
                },
            }
        } else if same_text(name, "Phonetic") {
            match component(value) {
                Some(c) => {
                    if phonetic_seen {
                        return None;
                    }
                    phonetic_seen = true;
                    phonetic = c;
                },
                None => {
                    return None;
                },
            }
        }
        i = i + 1;
    }
    let mut out = String::new();
    push_component(&mut out, &alphabetic);
    if phonetic.is_some() {
        push_char(&mut out, '=');
        push_component(&mut out, &ideographic);
        push_char(&mut out, '=');
        push_component(&mut out, &phonetic);
    } else if ideographic.is_some() {
        push_char(&mut out, '=');
        push_component(&mut out, &ideographic);
    }
    let ghost p = PersonModel {
        alphabetic_seen,
        alphabetic: optional_text(alphabetic),
        ideographic_seen,
        ideographic: optional_text(ideographic),
        phonetic_seen,
        phonetic: optional_text(phonetic),
    };
    assert(out@ =~= person_text(p));
    Some(out)
}

/// What an item of a `"Value"` array gives as a byte: a JSON
/// number that is such an integer.
pub open spec fn u8_of_item(item: &JsonValue) -> Option<u8> {
    match integer_of_item(item, false, false, 0, 0xFF) {
        Some(v) => Some(v as u8),
        None => None,
    }
}

/// What the items of a `"Value"` array give as integers of the type `u8`.
pub open spec fn u8_items_of(items: Seq<JsonValue>) -> Option<Seq<u8>> {
    if forall|i: int| 0 <= i < items.len() ==> (#[trigger] u8_of_item(&items[i])) is Some {
        Some(Seq::new(items.len(), |i: int| u8_of_item(&items[i])->0))
    } else {
        None
    }
}

/// Reads the items of a `"Value"` array as integers of the type `u8`.
pub fn u8_items(items: &Vec<JsonValue>) -> (r: Option<Vec<u8>>)
    ensures
        r matches Some(v) ==> u8_items_of(items@) == Some(v@),
        r is None ==> u8_items_of(items@) is None,
{
    let mut out: Vec<u8> = Vec::new();
    let mut i: usize = 0;
    while i < items.len()
        invariant
            i <= items@.len(),
            out@.len() == i,
            forall|j: int| 0 <= j < i ==> (#[trigger] u8_of_item(&items@[j])) == Some(out@[j]),
        decreases items@.len() - i,
    {
        match integer_item(&items[i], false, false, 0, 0xFF) {
            Some(v) => {
                out.push(v as u8);
            },
            None => {
                assert(u8_of_item(&items@[i as int]) is None);
                return None;
            },
        }
        i = i + 1;
    }
    assert(u8_items_of(items@)->0 =~= out@);
    Some(out)
}

/// What an item of a `"Value"` array gives as a signed 16-bit integer: a JSON
/// number that is such an integer.
pub open spec fn i16_of_item(item: &JsonValue) -> Option<i16> {
    match integer_of_item(item, true, false, -0x8000, 0x7FFF) {
        Some(v) => Some(v as i16),
        None => None,
    }
}

/// What the items of a `"Value"` array give as integers of the type `i16`.
pub open spec fn i16_items_of(items: Seq<JsonValue>) -> Option<Seq<i16>> {
    if forall|i: int| 0 <= i < items.len() ==> (#[trigger] i16_of_item(&items[i])) is Some {
        Some(Seq::new(items.len(), |i: int| i16_of_item(&items[i])->0))
    } else {
        None
    }
}

/// Reads the items of a `"Value"` array as integers of the type `i16`.
pub fn i16_items(items: &Vec<JsonValue>) -> (r: Option<Vec<i16>>)
    ensures
        r matches Some(v) ==> i16_items_of(items@) == Some(v@),
        r is None ==> i16_items_of(items@) is None,
{
    let mut out: Vec<i16> = Vec::new();
    let mut i: usize = 0;
    while i < items.len()
        invariant
            i <= items@.len(),
            out@.len() == i,
            forall|j: int| 0 <= j < i ==> (#[trigger] i16_of_item(&items@[j])) == Some(out@[j]),
        decreases items@.len() - i,
    {
        match integer_item(&items[i], true, false, -0x8000, 0x7FFF) {
            Some(v) => {
                out.push(v as i16);
            },
            None => {
                assert(i16_of_item(&items@[i as int]) is None);
                return None;
            },
        }
        i = i + 1;
    }
    assert(i16_items_of(items@)->0 =~= out@);
    Some(out)
}

/// What an item of a `"Value"` array gives as an unsigned 16-bit integer: a JSON
/// number that is such an integer.
pub open spec fn u16_of_item(item: &JsonValue) -> Option<u16> {
    match integer_of_item(item, false, false, 0, 0xFFFF) {
        Some(v) => Some(v as u16),
        None => None,
    }
}

/// What the items of a `"Value"` array give as integers of the type `u16`.
pub open spec fn u16_items_of(items: Seq<JsonValue>) -> Option<Seq<u16>> {
    if forall|i: int| 0 <= i < items.len() ==> (#[trigger] u16_of_item(&items[i])) is Some {
        Some(Seq::new(items.len(), |i: int| u16_of_item(&items[i])->0))
    } else {
        None
    }
}

/// Reads the items of a `"Value"` array as integers of the type `u16`.
pub fn u16_items(items: &Vec<JsonValue>) -> (r: Option<Vec<u16>>)
    ensures
        r matches Some(v) ==> u16_items_of(items@) == Some(v@),
        r is None ==> u16_items_of(items@) is None,
{
    let mut out: Vec<u16> = Vec::new();
    let mut i: usize = 0;
    while i < items.len()
        invariant
            i <= items@.len(),
            out@.len() == i,
            forall|j: int| 0 <= j < i ==> (#[trigger] u16_of_item(&items@[j])) == Some(out@[j]),
        decreases items@.len() - i,
    {
        match integer_item(&items[i], false, false, 0, 0xFFFF) {
            Some(v) => {
                out.push(v as u16);
            },
            None => {
                assert(u16_of_item(&items@[i as int]) is None);
                return None;
            },
        }
        i = i + 1;
    }
    assert(u16_items_of(items@)->0 =~= out@);
    Some(out)
}

/// What an item of a `"Value"` array gives as a signed 32-bit integer: a JSON
/// number that is such an integer.
pub open spec fn i32_of_item(item: &JsonValue) -> Option<i32> {
    match integer_of_item(item, true, false, -0x8000_0000, 0x7FFF_FFFF) {
        Some(v) => Some(v as i32),
        None => None,
    }
}

/// What the items of a `"Value"` array give as integers of the type `i32`.
pub open spec fn i32_items_of(items: Seq<JsonValue>) -> Option<Seq<i32>> {
    if forall|i: int| 0 <= i < items.len() ==> (#[trigger] i32_of_item(&items[i])) is Some {
        Some(Seq::new(items.len(), |i: int| i32_of_item(&items[i])->0))
    } else {
        None
    }
}

/// Reads the items of a `"Value"` array as integers of the type `i32`.
pub fn i32_items(items: &Vec<JsonValue>) -> (r: Option<Vec<i32>>)
    ensures
        r matches Some(v) ==> i32_items_of(items@) == Some(v@),
        r is None ==> i32_items_of(items@) is None,
{
    let mut out: Vec<i32> = Vec::new();
    let mut i: usize = 0;
    while i < items.len()
        invariant
            i <= items@.len(),
            out@.len() == i,
            forall|j: int| 0 <= j < i ==> (#[trigger] i32_of_item(&items@[j])) == Some(out@[j]),
        decreases items@.len() - i,
    {
        match integer_item(&items[i], true, false, -0x8000_0000, 0x7FFF_FFFF) {
            Some(v) => {
                out.push(v as i32);
            },
            None => {
                assert(i32_of_item(&items@[i as int]) is None);
                return None;
            },
        }
        i = i + 1;
    }
    assert(i32_items_of(items@)->0 =~= out@);
    Some(out)
}

/// What an item of a `"Value"` array gives as an unsigned 32-bit integer: a JSON
/// number that is such an integer or a string that writes one in decimal.
pub open spec fn u32_of_item(item: &JsonValue) -> Option<u32> {
    match integer_of_item(item, false, true, 0, 0xFFFF_FFFF) {
        Some(v) => Some(v as u32),
        None => None,
    }
}

/// What the items of a `"Value"` array give as integers of the type `u32`.
pub open spec fn u32_items_of(items: Seq<JsonValue>) -> Option<Seq<u32>> {
    if forall|i: int| 0 <= i < items.len() ==> (#[trigger] u32_of_item(&items[i])) is Some {
        Some(Seq::new(items.len(), |i: int| u32_of_item(&items[i])->0))
    } else {
        None
    }
}

/// Reads the items of a `"Value"` array as integers of the type `u32`.
pub fn u32_items(items: &Vec<JsonValue>) -> (r: Option<Vec<u32>>)
    ensures
        r matches Some(v) ==> u32_items_of(items@) == Some(v@),
        r is None ==> u32_items_of(items@) is None,
{
    let mut out: Vec<u32> = Vec::new();
    let mut i: usize = 0;
    while i < items.len()
        invariant
            i <= items@.len(),
            out@.len() == i,
            forall|j: int| 0 <= j < i ==> (#[trigger] u32_of_item(&items@[j])) == Some(out@[j]),
        decreases items@.len() - i,
    {
        match integer_item(&items[i], false, true, 0, 0xFFFF_FFFF) {
            Some(v) => {
                out.push(v as u32);
            },
            None => {
                assert(u32_of_item(&items@[i as int]) is None);
                return None;
            },
        }
        i = i + 1;
    }
    assert(u32_items_of(items@)->0 =~= out@);
    Some(out)
}

/// What an item of a `"Value"` array gives as a signed 64-bit integer: a JSON
/// number that is such an integer or a string that writes one in decimal.
pub open spec fn i64_of_item(item: &JsonValue) -> Option<i64> {
    match integer_of_item(item, true, true, -0x8000_0000_0000_0000, 0x7FFF_FFFF_FFFF_FFFF) {
        Some(v) => Some(v as i64),
        None => None,
    }
}

/// What the items of a `"Value"` array give as integers of the type `i64`.
pub open spec fn i64_items_of(items: Seq<JsonValue>) -> Option<Seq<i64>> {
    if forall|i: int| 0 <= i < items.len() ==> (#[trigger] i64_of_item(&items[i])) is Some {
        Some(Seq::new(items.len(), |i: int| i64_of_item(&items[i])->0))
    } else {
        None
    }
}

/// Reads the items of a `"Value"` array as integers of the type `i64`.
pub fn i64_items(items: &Vec<JsonValue>) -> (r: Option<Vec<i64>>)
    ensures
        r matches Some(v) ==> i64_items_of(items@) == Some(v@),
        r is None ==> i64_items_of(items@) is None,
{
    let mut out: Vec<i64> = Vec::new();
    let mut i: usize = 0;
    while i < items.len()
        invariant
            i <= items@.len(),
            out@.len() == i,
            forall|j: int| 0 <= j < i ==> (#[trigger] i64_of_item(&items@[j])) == Some(out@[j]),
        decreases items@.len() - i,
    {
        match integer_item(&items[i], true, true, -0x8000_0000_0000_0000, 0x7FFF_FFFF_FFFF_FFFF) {
            Some(v) => {
                out.push(v as i64);
            },
            None => {
                assert(i64_of_item(&items@[i as int]) is None);
                return None;
            },
        }
        i = i + 1;
    }
    assert(i64_items_of(items@)->0 =~= out@);
    Some(out)
}

/// What an item of a `"Value"` array gives as an unsigned 64-bit integer: a JSON
/// number that is such an integer or a string that writes one in decimal.
pub open spec fn u64_of_item(item: &JsonValue) -> Option<u64> {
    match integer_of_item(item, false, true, 0, 0xFFFF_FFFF_FFFF_FFFF) {
        Some(v) => Some(v as u64),
        None => None,
    }
}

/// What the items of a `"Value"` array give as integers of the type `u64`.
pub open spec fn u64_items_of(items: Seq<JsonValue>) -> Option<Seq<u64>> {
    if forall|i: int| 0 <= i < items.len() ==> (#[trigger] u64_of_item(&items[i])) is Some {
        Some(Seq::new(items.len(), |i: int| u64_of_item(&items[i])->0))
    } else {
        None
    }
}

/// Reads the items of a `"Value"` array as integers of the type `u64`.
pub fn u64_items(items: &Vec<JsonValue>) -> (r: Option<Vec<u64>>)
    ensures
        r matches Some(v) ==> u64_items_of(items@) == Some(v@),
        r is None ==> u64_items_of(items@) is None,
{
    let mut out: Vec<u64> = Vec::new();
    let mut i: usize = 0;
    while i < items.len()
        invariant
            i <= items@.len(),
            out@.len() == i,
            forall|j: int| 0 <= j < i ==> (#[trigger] u64_of_item(&items@[j])) == Some(out@[j]),
        decreases items@.len() - i,
    {
        match integer_item(&items[i], false, true, 0, 0xFFFF_FFFF_FFFF_FFFF) {
            Some(v) => {
                out.push(v as u64);
            },
            None => {
                assert(u64_of_item(&items@[i as int]) is None);
                return None;
            },
        }
        i = i + 1;
    }
    assert(u64_items_of(items@)->0 =~= out@);
    Some(out)
}

/// What the items of a `"Value"` array give as single-precision floats.
pub open spec fn single_items_of(items: Seq<JsonValue>) -> Option<Seq<u32>> {
    if forall|i: int| 0 <= i < items.len() ==> (#[trigger] single_of_item(&items[i])) is Some {
        Some(Seq::new(items.len(), |i: int| single_of_item(&items[i])->0))
    } else {
        None
    }
}

/// Reads the items of a `"Value"` array as single-precision floats.
pub fn single_items(items: &Vec<JsonValue>) -> (r: Option<Vec<u32>>)
    ensures
        r matches Some(v) ==> single_items_of(items@) == Some(v@),
        r is None ==> single_items_of(items@) is None,
{
    let mut out: Vec<u32> = Vec::new();
    let mut i: usize = 0;
    while i < items.len()
        invariant
            i <= items@.len(),
            out@.len() == i,
            forall|j: int| 0 <= j < i ==> (#[trigger] single_of_item(&items@[j])) == Some(out@[j]),
        decreases items@.len() - i,
    {
        match single_item(&items[i]) {
            Some(v) => {
                out.push(v);
            },
            None => {
                assert(single_of_item(&items@[i as int]) is None);
                return None;
            },
        }
        i = i + 1;
    }
    assert(single_items_of(items@)->0 =~= out@);
    Some(out)
}

/// What the items of a `"Value"` array give as double-precision floats.
pub open spec fn double_items_of(items: Seq<JsonValue>) -> Option<Seq<u64>> {
    if forall|i: int| 0 <= i < items.len() ==> (#[trigger] double_of_item(&items[i])) is Some {
        Some(Seq::new(items.len(), |i: int| double_of_item(&items[i])->0))
    } else {
        None
    }
}

/// Reads the items of a `"Value"` array as double-precision floats.
pub fn double_items(items: &Vec<JsonValue>) -> (r: Option<Vec<u64>>)
    ensures
        r matches Some(v) ==> double_items_of(items@) == Some(v@),
        r is None ==> double_items_of(items@) is None,
{
    let mut out: Vec<u64> = Vec::new();
    let mut i: usize = 0;
    while i < items.len()
        invariant
            i <= items@.len(),
            out@.len() == i,
            forall|j: int| 0 <= j < i ==> (#[trigger] double_of_item(&items@[j])) == Some(out@[j]),
        decreases items@.len() - i,
    {
        match double_item(&items[i]) {
            Some(v) => {
                out.push(v);
            },
            None => {
                assert(double_of_item(&items@[i as int]) is None);
                return None;
            },
        }
        i = i + 1;
    }
    assert(double_items_of(items@)->0 =~= out@);
    Some(out)
}

/// What the items of a `"Value"` array give as tags.
pub open spec fn tag_items_of(items: Seq<JsonValue>) -> Option<Seq<Tag>> {
    if forall|i: int| 0 <= i < items.len() ==> (#[trigger] tag_of_item(&items[i])) is Some {
        Some(Seq::new(items.len(), |i: int| tag_of_item(&items[i])->0))
    } else {
        None
    }
}

/// Reads the items of a `"Value"` array as tags.
pub fn tag_items(items: &Vec<JsonValue>) -> (r: Option<Vec<Tag>>)
    ensures
        r matches Some(v) ==> tag_items_of(items@) == Some(v@),
        r is None ==> tag_items_of(items@) is None,
{
    let mut out: Vec<Tag> = Vec::new();
    let mut i: usize = 0;
    while i < items.len()
        invariant
            i <= items@.len(),
            out@.len() == i,
            forall|j: int| 0 <= j < i ==> (#[trigger] tag_of_item(&items@[j])) == Some(out@[j]),
        decreases items@.len() - i,
    {
        match tag_item(&items[i]) {
            Some(v) => {
                out.push(v);
            },
            None => {
                assert(tag_of_item(&items@[i as int]) is None);
                return None;
            },
        }
        i = i + 1;
    }
    assert(tag_items_of(items@)->0 =~= out@);
    Some(out)
}

/// What the items of a `"Value"` array give as strings.
pub open spec fn text_items_of(items: Seq<JsonValue>) -> Option<Seq<Seq<char>>> {
    if forall|i: int| 0 <= i < items.len() ==> (#[trigger] text_of_item(&items[i])) is Some {
        Some(Seq::new(items.len(), |i: int| text_of_item(&items[i])->0))
    } else {
        None
    }
}

/// Reads the items of a `"Value"` array as strings.
pub fn text_items(items: &Vec<JsonValue>) -> (r: Option<Vec<String>>)
    ensures
        r matches Some(v) ==> text_items_of(items@) == Some(texts(v@)),
        r is None ==> text_items_of(items@) is None,
{
    let mut out: Vec<String> = Vec::new();
    let mut i: usize = 0;
    while i < items.len()
        invariant
            i <= items@.len(),
            out@.len() == i,
            forall|j: int| 0 <= j < i ==> (#[trigger] text_of_item(&items@[j])) == Some(out@[j]@),
        decreases items@.len() - i,
    {
        match text_item(&items[i]) {
            Some(v) => {
                out.push(v);
            },
            None => {
                assert(text_of_item(&items@[i as int]) is None);
                return None;
            },
        }
        i = i + 1;
    }
    assert(text_items_of(items@)->0 =~= texts(out@));
    Some(out)
}

/// What the items of a `"Value"` array give as decimal or integer strings.
pub open spec fn decimal_items_of(items: Seq<JsonValue>) -> Option<Seq<Seq<char>>> {
    if forall|i: int| 0 <= i < items.len() ==> (#[trigger] decimal_of_item(&items[i])) is Some {
        Some(Seq::new(items.len(), |i: int| decimal_of_item(&items[i])->0))
    } else {
        None
    }
}

/// Reads the items of a `"Value"` array as decimal or integer strings.
pub fn decimal_items(items: &Vec<JsonValue>) -> (r: Option<Vec<String>>)
    ensures
        r matches Some(v) ==> decimal_items_of(items@) == Some(texts(v@)),
        r is None ==> decimal_items_of(items@) is None,
{
    let mut out: Vec<String> = Vec::new();
    let mut i: usize = 0;
    while i < items.len()
        invariant
            i <= items@.len(),
            out@.len() == i,
            forall|j: int| 0 <= j < i ==> (#[trigger] decimal_of_item(&items@[j])) == Some(out@[j]@),
        decreases items@.len() - i,
    {
        match decimal_item(&items[i]) {
            Some(v) => {
                out.push(v);
            },
            None => {
                assert(decimal_of_item(&items@[i as int]) is None);
                return None;
            },
        }
        i = i + 1;
    }
    assert(decimal_items_of(items@)->0 =~= texts(out@));
    Some(out)
}

/// What the items of a `"Value"` array give as person names.
pub open spec fn person_items_of(items: Seq<JsonValue>) -> Option<Seq<Seq<char>>> {
    if forall|i: int| 0 <= i < items.len() ==> (#[trigger] person_of_item(&items[i])) is Some {
        Some(Seq::new(items.len(), |i: int| person_of_item(&items[i])->0))
    } else {
        None
    }
}

/// Reads the items of a `"Value"` array as person names.
pub fn person_items(items: &Vec<JsonValue>) -> (r: Option<Vec<String>>)
    ensures
        r matches Some(v) ==> person_items_of(items@) == Some(texts(v@)),
        r is None ==> person_items_of(items@) is None,
{
    let mut out: Vec<String> = Vec::new();
    let mut i: usize = 0;
    while i < items.len()
        invariant
            i <= items@.len(),
            out@.len() == i,
            forall|j: int| 0 <= j < i ==> (#[trigger] person_of_item(&items@[j])) == Some(out@[j]@),
        decreases items@.len() - i,
    {
        match person_item(&items[i]) {
            Some(v) => {
                out.push(v);
            },
            None => {
                assert(person_of_item(&items@[i as int]) is None);
                return None;
            },
        }
        i = i + 1;
    }
    assert(person_items_of(items@)->0 =~= texts(out@));
    Some(out)
}

/// The bytes that a text stands for in base64: the standard alphabet, with
/// padding, as the crate `base64` decodes it. `None` where the text is not
/// valid base64.
pub uninterp spec fn base64_decoding(text: Seq<char>) -> Option<Seq<u8>>;

/// Decodes base64.
///
/// Trusted: this is `Engine::decode` of the crate `base64` on its engine
/// `general_purpose::STANDARD`. What it gives depends on the text alone;
/// the contract gives that result its name and says no more of it.
#[verifier::external_body]
fn decode_base64(text: &str) -> (r: Option<Vec<u8>>)
    ensures
        r matches Some(bytes) ==> base64_decoding(text@) == Some(bytes@),
        r is None ==> base64_decoding(text@) is None,
{
    base64::engine::general_purpose::STANDARD.decode(text).ok()
}

/// The value representation that the text under `"vr"` names; a text that
/// names none stands for `UN`.
pub open spec fn vr_of_text(text: Seq<char>) -> VR {
    match VR::of_text(text) {
        Some(vr) => vr,
        None => VR::UN,
    }
}

/// The primitive value that the items of a `"Value"` array give under a
/// value representation that is neither `SQ` nor `UN`; `None` where an item
/// is not of the form that the representation asks for.
///
/// Text stays text. Numbers of the binary representations must be integers
/// in the range of the representation; those of 32 bits without sign and of
/// 64 bits may also come as strings. Floats come as numbers or as one of
/// the strings `"NaN"`, `"Infinity"` and `"-Infinity"`. Decimal and integer
/// strings keep the form in which they come. A person name comes as an
/// object of its components, and a tag as eight hexadecimal digits.
#[verifier::opaque]
pub open spec fn primitive_of(vr: VR, items: Seq<JsonValue>) -> Option<PrimitiveModel> {
    match vr {
        VR::AE | VR::AS | VR::CS | VR::DA | VR::DT | VR::LO | VR::LT | VR::SH | VR::ST | VR::UT | VR::UR | VR::TM | VR::UC | VR::UI => match text_items_of(items) {
            Some(list) => Some(PrimitiveModel::Strs(list)),
            None => None,
        },
        VR::SS => match i16_items_of(items) {
            Some(list) => Some(PrimitiveModel::I16(list)),
            None => None,
        },
        VR::US | VR::OW => match u16_items_of(items) {
            Some(list) => Some(PrimitiveModel::U16(list)),
            None => None,
        },
        VR::SL => match i32_items_of(items) {
            Some(list) => Some(PrimitiveModel::I32(list)),
            None => None,
        },
        VR::OB => match u8_items_of(items) {
            Some(list) => Some(PrimitiveModel::U8(list)),
            None => None,
        },
        VR::FL | VR::OF => match single_items_of(items) {
            Some(list) => Some(PrimitiveModel::F32(list)),
            None => None,
        },
        VR::FD | VR::OD => match double_items_of(items) {
            Some(list) => Some(PrimitiveModel::F64(list)),
            None => None,
        },
        VR::SV => match i64_items_of(items) {
            Some(list) => Some(PrimitiveModel::I64(list)),
            None => None,
        },
        VR::UL | VR::OL => match u32_items_of(items) {
            Some(list) => Some(PrimitiveModel::U32(list)),
            None => None,
        },
        VR::UV | VR::OV => match u64_items_of(items) {
            Some(list) => Some(PrimitiveModel::U64(list)),
            None => None,
        },
        VR::DS | VR::IS => match decimal_items_of(items) {
            Some(list) => Some(PrimitiveModel::Strs(list)),
            None => None,
        },
        VR::PN => match person_items_of(items) {
            Some(list) => Some(PrimitiveModel::Strs(list)),
            None => None,
        },
        VR::AT => match tag_items_of(items) {
            Some(list) => Some(PrimitiveModel::Tags(list)),
            None => None,
        },
        VR::SQ | VR::UN => None,
    }
}

/// Reads the items of a `"Value"` array as a primitive value.
pub fn primitive_from_items(vr: VR, items: &Vec<JsonValue>) -> (r: Option<PrimitiveValue>)
    ensures
        r matches Some(p) ==> primitive_of(vr, items@) == Some(p@),
        r is None ==> primitive_of(vr, items@) is None,
{
    reveal(primitive_of);
    match vr {
        VR::AE | VR::AS | VR::CS | VR::DA | VR::DT | VR::LO | VR::LT | VR::SH | VR::ST | VR::UT | VR::UR | VR::TM | VR::UC | VR::UI => match text_items(items) {
            Some(list) => Some(PrimitiveValue::Strs(list)),
            None => None,
        },
        VR::SS => match i16_items(items) {
            Some(list) => Some(PrimitiveValue::I16(list)),
            None => None,
        },
        VR::US | VR::OW => match u16_items(items) {
            Some(list) => Some(PrimitiveValue::U16(list)),
            None => None,
        },
        VR::SL => match i32_items(items) {
            Some(list) => Some(PrimitiveValue::I32(list)),
            None => None,
        },
        VR::OB => match u8_items(items) {
            Some(list) => Some(PrimitiveValue::U8(list)),
            None => None,
        },
        VR::FL | VR::OF => match single_items(items) {
            Some(list) => Some(PrimitiveValue::F32(list)),
            None => None,
        },
        VR::FD | VR::OD => match double_items(items) {
            Some(list) => Some(PrimitiveValue::F64(list)),
            None => None,
        },
        VR::SV => match i64_items(items) {
            Some(list) => Some(PrimitiveValue::I64(list)),
            None => None,
        },
        VR::UL | VR::OL => match u32_items(items) {
            Some(list) => Some(PrimitiveValue::U32(list)),
            None => None,
        },
        VR::UV | VR::OV => match u64_items(items) {
            Some(list) => Some(PrimitiveValue::U64(list)),
            None => None,
        },
        VR::DS | VR::IS => match decimal_items(items) {
            Some(list) => Some(PrimitiveValue::Strs(list)),
            None => None,
        },
        VR::PN => match person_items(items) {
            Some(list) => Some(PrimitiveValue::Strs(list)),
            None => None,
        },
        VR::AT => match tag_items(items) {
            Some(list) => Some(PrimitiveValue::Tags(list)),
            None => None,
        },
        VR::SQ | VR::UN => None,
    }
}

/// What has been read of a data element object after its `"vr"`: the value
/// under `"Value"` and the text under `"InlineBinary"`, as far as they have
/// come.
pub ghost struct FieldsModel {
    /// The value that was read under `"Value"`.
    pub value: Option<ValueModel>,
    /// The text that was found under `"InlineBinary"`.
    pub binary: Option<Seq<char>>,
}

/// The value that a `"Value"` member gives under the value representation
/// `vr`.
///
/// `UN` has no value form. For any other representation the member must be
/// an array. Under `SQ` each item is a data set of its own; under the others
/// the items give a primitive value.
pub open spec fn value_of(vr: VR, json: &JsonValue) -> Result<ValueModel, DeError>
    decreases json, 0nat,
{
    if vr == VR::UN {
        Err(DeError::ValueInUn)
    } else {
        match json {
            JsonValue::Array(items) => if vr == VR::SQ {
                match sequence_prefix(items, items@.len()) {
                    Ok(objects) => Ok(ValueModel::Sequence(objects)),
                    Err(e) => Err(e),
                }
            } else {
                match primitive_of(vr, items@) {
                    Some(p) => Ok(ValueModel::Primitive(p)),
                    None => Err(DeError::InvalidItem),
                }
            },
            _ => Err(DeError::ValueNotArray),
        }
    }
}

/// The data sets that the first `n` items of a sequence give, or the error
/// of the first item that gives none.
pub open spec fn sequence_prefix(items: &Vec<JsonValue>, n: nat) -> Result<
    Seq<ObjectModel>,
    DeError,
>
    decreases items, n,
{
    if n == 0 || n > items@.len() {
        Ok(Seq::empty())
    } else {
        match sequence_prefix(items, (n - 1) as nat) {
            Ok(objects) => match object_of(&items[n - 1]) {
                Ok(o) => Ok(objects.push(o)),
                Err(e) => Err(e),
            },
            Err(e) => Err(e),
        }
    }
}

/// The data set that a JSON value gives: the value must be an object, and
/// each of its members gives one data element.
pub open spec fn object_of(json: &JsonValue) -> Result<ObjectModel, DeError>
    decreases json, 0nat,
{
    match json {
        JsonValue::Object(members) => object_prefix(members, members@.len()),
        _ => Err(DeError::NotAnObject),
    }
}

/// The data set that the first `n` members of a JSON object give, or the
/// error of the first member that gives no data element. Of two members
/// with the same tag the later one stays.
pub open spec fn object_prefix(members: &Vec<(String, JsonValue)>, n: nat) -> Result<
    ObjectModel,
    DeError,
>
    decreases members, n,
{
    if n == 0 || n > members@.len() {
        Ok(ObjectModel::empty())
    } else {
        match object_prefix(members, (n - 1) as nat) {
            Ok(o) => match member_of(members[n - 1].0@, &members[n - 1].1) {
                Ok(e) => Ok(o.put(e)),
                Err(e) => Err(e),
            },
            Err(e) => Err(e),
        }
    }
}

/// The data element that a member of a data set object gives: its name
/// must be a tag in eight hexadecimal digits and its value a data element
/// object. The header announces the bytes that the value takes on the
/// wire, padding included.
pub open spec fn member_of(name: Seq<char>, json: &JsonValue) -> Result<ElementModel, DeError>
    decreases json, 2nat,
{
    match Tag::parse_spec(name) {
        Ok(tag) => match element_of(json) {
            Ok((vr, value)) => if value.announceable() {
                Ok(
                    ElementModel {
                        header: DataElementHeader { tag, vr, len: value.length() },
                        value,
                    },
                )
            } else {
                Err(DeError::ValueTooLong)
            },
            Err(e) => Err(e),
        },
        Err(_) => Err(DeError::InvalidTag),
    }
}

/// The value representation and the value that a data element object
/// gives.
///
/// The first member must be `"vr"`, with the value representation as a
/// string. The members after it are read in their order; the first one that
/// is out of place ends the reading with its error. Where neither `"Value"`
/// nor `"InlineBinary"` came the value is empty; an `"InlineBinary"` is
/// decoded from base64 at the end and gives bytes.
pub open spec fn element_of(json: &JsonValue) -> Result<(VR, ValueModel), DeError>
    decreases json, 1nat,
{
    match json {
        JsonValue::Object(fields) => if fields@.len() == 0 {
            Err(DeError::MissingVr)
        } else if fields[0].0@ != "vr"@ {
            Err(DeError::VrNotFirst)
        } else {
            match fields[0].1 {
                JsonValue::Str(text) => {
                    let vr = vr_of_text(text@);
                    match fields_prefix(vr, fields, fields@.len()) {
                        Ok(read) => match value_of_fields(read) {
                            Ok(value) => Ok((vr, value)),
                            Err(e) => Err(e),
                        },
                        Err(e) => Err(e),
                    }
                },
                _ => Err(DeError::VrNotText),
            }
        },
        _ => Err(DeError::NotAnObject),
    }
}

/// What the members of a data element object give from the second up to
/// the `n`-th, or the error of the first one that is out of place.
pub open spec fn fields_prefix(vr: VR, fields: &Vec<(String, JsonValue)>, n: nat) -> Result<
    FieldsModel,
    DeError,
>
    decreases fields, n,
{
    if n <= 1 || n > fields@.len() {
        Ok(FieldsModel { value: None, binary: None })
    } else {
        match fields_prefix(vr, fields, (n - 1) as nat) {
            Ok(read) => field_step(vr, read, fields[n - 1].0@, &fields[n - 1].1),
            Err(e) => Err(e),
        }
    }
}

/// What one more member of a data element object adds to what was read.
///
/// A second `"vr"` is an error. `"Value"` may not come after
/// `"InlineBinary"`, nor `"InlineBinary"` after `"Value"`; a later `"Value"`
/// takes the place of an earlier one. No other member is known.
pub open spec fn field_step(vr: VR, read: FieldsModel, name: Seq<char>, json: &JsonValue) -> Result<
    FieldsModel,
    DeError,
>
    decreases json, 1nat,
{
    if name == "vr"@ {
        Err(DeError::DuplicateVr)
    } else if name == "Value"@ {
        if read.binary is Some {
            Err(DeError::ValueAfterInlineBinary)
        } else {
            match value_of(vr, json) {
                Ok(value) => Ok(FieldsModel { value: Some(value), binary: read.binary }),
                Err(e) => Err(e),
            }
        }
    } else if name == "InlineBinary"@ {
        if read.value is Some {
            Err(DeError::InlineBinaryAfterValue)
        } else {
            match json {
                JsonValue::Str(text) => Ok(FieldsModel { value: read.value, binary: Some(text@) }),
                _ => Err(DeError::InlineBinaryNotText),
            }
        }
    } else {
        Err(DeError::UnknownField)
    }
}

/// The value of a data element whose members gave `read`.
pub open spec fn value_of_fields(read: FieldsModel) -> Result<ValueModel, DeError> {
    match read.value {
        Some(value) => Ok(value),
        None => match read.binary {
            Some(text) => inline_binary_of(base64_decoding(text)),
            None => Ok(ValueModel::Primitive(PrimitiveModel::Empty)),
        },
    }
}

/// The value that an `"InlineBinary"` gives, by what came of decoding it:
/// the bytes, or an error where it was not valid base64.
pub open spec fn inline_binary_of(decoded: Option<Seq<u8>>) -> Result<ValueModel, DeError> {
    match decoded {
        Some(bytes) => Ok(ValueModel::Primitive(PrimitiveModel::U8(bytes))),
        None => Err(DeError::InvalidBase64),
    }
}

/// The value that an `"InlineBinary"` gives, by what came of decoding it.
pub fn inline_binary_value<D>(decoded: Option<Vec<u8>>) -> (r: Result<Value<D>, DeError>)
    ensures
        match r {
            Ok(v) => decoded is Some && inline_binary_of(Some(decoded->0@)) == Ok::<
                ValueModel,
                DeError,
            >(v.model()),
            Err(e) => decoded is None && e == DeError::InvalidBase64,
        },
{
    match decoded {
        Some(bytes) => Ok(Value::Primitive(PrimitiveValue::U8(bytes))),
        None => Err(DeError::InvalidBase64),
    }
}

/// The value representation and the value of a data element as they are
/// read from a data element object.
#[derive(Debug)]
pub struct JsonDataElement<D> {
    /// The value representation.
    pub vr: VR,
    /// The value.
    pub value: Value<D>,
}

/// Whether a value that was read, or the error in its place, is what the
/// JSON form gives.
pub open spec fn gives_value<D>(r: Result<Value<D>, DeError>, m: Result<ValueModel, DeError>) -> bool {
    match m {
        Ok(value) => r matches Ok(v) && v.model() == value,
        Err(e) => r matches Err(x) && x == e,
    }
}

/// Whether an object that was read, or the error in its place, is what the
/// JSON form gives.
pub open spec fn gives_object<D>(
    r: Result<InMemDicomObject<D>, DeError>,
    m: Result<ObjectModel, DeError>,
) -> bool {
    match m {
        Ok(object) => r matches Ok(o) && o.model() == object,
        Err(e) => r matches Err(x) && x == e,
    }
}

/// Whether a data element that was read, or the error in its place, is
/// what the JSON form gives.
pub open spec fn gives_element<D>(
    r: Result<DataElement<D>, DeError>,
    m: Result<ElementModel, DeError>,
) -> bool {
    match m {
        Ok(element) => r matches Ok(e) && e.model() == element,
        Err(e) => r matches Err(x) && x == e,
    }
}

/// Whether a value representation and a value that were read, or the error
/// in their place, are what the JSON form gives.
pub open spec fn gives_parts<D>(
    r: Result<JsonDataElement<D>, DeError>,
    m: Result<(VR, ValueModel), DeError>,
) -> bool {
    match m {
        Ok((vr, value)) => r matches Ok(e) && e.vr == vr && e.value.model() == value,
        Err(e) => r matches Err(x) && x == e,
    }
}

/// The mathematical value of a value that may be there.
pub open spec fn optional_value<D>(v: Option<Value<D>>) -> Option<ValueModel> {
    match v {
        Some(v) => Some(v.model()),
        None => None,
    }
}

/// Reads the value of a data element from its `"Value"` member.
pub fn value_from_json<D: Clone>(vr: VR, json: &JsonValue, dict: &D) -> (r: Result<
    Value<D>,
    DeError,
>)
    ensures
        gives_value(r, value_of(vr, json)),
    decreases json, 0nat,
{
    if vr == VR::UN {
        return Err(DeError::ValueInUn);
    }
    match json {
        JsonValue::Array(items) => {
            if vr == VR::SQ {
                match sequence_from_items(items, dict) {
                    Ok(objects) => {
                        let v = Value::Sequence(objects);
                        assert(v.model()->Sequence_0 =~= object_models(&objects));
                        Ok(v)
                    },
                    Err(e) => Err(e),
                }
            } else {
                match primitive_from_items(vr, items) {
                    Some(p) => Ok(Value::Primitive(p)),
                    None => Err(DeError::InvalidItem),
                }
            }
        },
        _ => Err(DeError::ValueNotArray),
    }
}

/// Once an item of a sequence has failed, the items after it do not change
/// the error.
pub proof fn lemma_sequence_failed(items: &Vec<JsonValue>, n: nat, m: nat)
    requires
        n <= m <= items@.len(),
        sequence_prefix(items, n) is Err,
    ensures
        sequence_prefix(items, m) == sequence_prefix(items, n),
    decreases m,
{
    if n < m {
        lemma_sequence_failed(items, n, (m - 1) as nat);
    }
}

/// Reads the items of a sequence, each as a data set of its own.
pub fn sequence_from_items<D: Clone>(items: &Vec<JsonValue>, dict: &D) -> (r: Result<
    Vec<InMemDicomObject<D>>,
    DeError,
>)
    ensures
        match sequence_prefix(items, items@.len()) {
            Ok(objects) => r matches Ok(list) && object_models(&list) == objects,
            Err(e) => r matches Err(x) && x == e,
        },
    decreases items, items@.len(),
{
    let mut out: Vec<InMemDicomObject<D>> = Vec::new();
    let mut i: usize = 0;
    assert(object_models(&out) =~= Seq::empty());
    while i < items.len()
        invariant
            i <= items@.len(),
            sequence_prefix(items, i as nat) == Ok::<Seq<ObjectModel>, DeError>(
                object_models(&out),
            ),
        decreases items@.len() - i,
    {
        let ghost before = object_models(&out);
        match object_from_json(&items[i], dict) {
            Ok(o) => {
                let ghost m = o.model();
                out.push(o);
                assert(object_models(&out) =~= before.push(m));
            },
            Err(e) => {
                proof {
                    lemma_sequence_failed(items, (i + 1) as nat, items@.len());
                }
                return Err(e);
            },
        }
        i = i + 1;
    }
    Ok(out)
}

/// Reads a data set from its JSON form.
pub fn object_from_json<D: Clone>(json: &JsonValue, dict: &D) -> (r: Result<
    InMemDicomObject<D>,
    DeError,
>)
    ensures
        gives_object(r, object_of(json)),
    decreases json, 0nat,
{
    match json {
        JsonValue::Object(members) => object_from_members(members, dict),
        _ => Err(DeError::NotAnObject),
    }
}

/// Once a member of a data set has failed, the members after it do not
/// change the error.
pub proof fn lemma_object_failed(members: &Vec<(String, JsonValue)>, n: nat, m: nat)
    requires
        n <= m <= members@.len(),
        object_prefix(members, n) is Err,
    ensures
        object_prefix(members, m) == object_prefix(members, n),
    decreases m,
{
    if n < m {
        lemma_object_failed(members, n, (m - 1) as nat);
    }
}

/// Reads a data set from the members of its JSON object: each member gives
/// one data element, which is put into the object.
pub fn object_from_members<D: Clone>(members: &Vec<(String, JsonValue)>, dict: &D) -> (r: Result<
    InMemDicomObject<D>,
    DeError,
>)
    ensures
        gives_object(r, object_prefix(members, members@.len())),
    decreases members, members@.len(),
{
    let mut object: InMemDicomObject<D> = InMemDicomObject::new_empty_with_dict(dict.clone());
    let mut i: usize = 0;
    while i < members.len()
        invariant
            i <= members@.len(),
            object_prefix(members, i as nat) == Ok::<ObjectModel, DeError>(object.model()),
        decreases members@.len() - i,
    {
        match element_from_member(&members[i].0, &members[i].1, dict) {
            Ok(e) => {
                object.put(e);
            },
            Err(e) => {
                proof {
                    lemma_object_failed(members, (i + 1) as nat, members@.len());
                }
                return Err(e);
            },
        }
        i = i + 1;
    }
    Ok(object)
}

/// Reads a data element from a member of a data set object.
pub fn element_from_member<D: Clone>(name: &String, json: &JsonValue, dict: &D) -> (r: Result<
    DataElement<D>,
    DeError,
>)
    ensures
        gives_element(r, member_of(name@, json)),
    decreases json, 2nat,
{
    let tag: Tag = match Tag::parse(name.as_str()) {
        Ok(tag) => tag,
        Err(_) => {
            return Err(DeError::InvalidTag);
        },
    };
    match element_from_json(json, dict) {
        Ok(parts) => match parts.value.wire_length() {
            Some(len) => Ok(DataElement::new_with_len(tag, parts.vr, len, parts.value)),
            None => Err(DeError::ValueTooLong),
        },
        Err(e) => Err(e),
    }
}

/// Reads the value representation and the value of a data element from its
/// JSON object.
pub fn element_from_json<D: Clone>(json: &JsonValue, dict: &D) -> (r: Result<
    JsonDataElement<D>,
    DeError,
>)
    ensures
        gives_parts(r, element_of(json)),
    decreases json, 1nat,
{
    match json {
        JsonValue::Object(fields) => element_from_fields(fields, dict),
        _ => Err(DeError::NotAnObject),
    }
}

/// Once a member of a data element object has failed, the members after it
/// do not change the error.
pub proof fn lemma_fields_failed(vr: VR, fields: &Vec<(String, JsonValue)>, n: nat, m: nat)
    requires
        n <= m <= fields@.len(),
        fields_prefix(vr, fields, n) is Err,
    ensures
        fields_prefix(vr, fields, m) == fields_prefix(vr, fields, n),
    decreases m,
{
    if n < m {
        lemma_fields_failed(vr, fields, n, (m - 1) as nat);
    }
}

/// What the members of a data element object give, as
/// [`element_of`] says it of the object.
pub open spec fn element_of_fields(fields: &Vec<(String, JsonValue)>) -> Result<
    (VR, ValueModel),
    DeError,
> {
    element_of(&JsonValue::Object(*fields))
}

/// What was read of a data element object after its `"vr"`.
pub struct JsonFields<D> {
    /// The value that was read under `"Value"`.
    pub value: Option<Value<D>>,
    /// The text that was found under `"InlineBinary"`.
    pub binary: Option<String>,
}

impl<D> JsonFields<D> {
    /// The mathematical value.
    pub open spec fn model(&self) -> FieldsModel {
        FieldsModel { value: optional_value(self.value), binary: optional_text(self.binary) }
    }
}

/// Reads one member of a data element object that comes after `"vr"`.
pub fn field_from_member<D: Clone>(
    vr: VR,
    read: JsonFields<D>,
    name: &String,
    json: &JsonValue,
    dict: &D,
) -> (r: Result<JsonFields<D>, DeError>)
    ensures
        match field_step(vr, read.model(), name@, json) {
            Ok(m) => r matches Ok(f) && f.model() == m,
            Err(e) => r matches Err(x) && x == e,
        },
    decreases json, 1nat,
{
    if same_text(name, "vr") {
        Err(DeError::DuplicateVr)
    } else if same_text(name, "Value") {
        if read.binary.is_some() {
            return Err(DeError::ValueAfterInlineBinary);
        }
        match value_from_json(vr, json, dict) {
            Ok(v) => Ok(JsonFields { value: Some(v), binary: read.binary }),
            Err(e) => Err(e),
        }
    } else if same_text(name, "InlineBinary") {
        if read.value.is_some() {
            return Err(DeError::InlineBinaryAfterValue);
        }
        match json {
            JsonValue::Str(text) => Ok(JsonFields { value: read.value, binary: Some(text.clone()) }),
            _ => Err(DeError::InlineBinaryNotText),
        }
    } else {
        Err(DeError::UnknownField)
    }
}

/// Reads the members of a data element object that come after `"vr"`, in
/// their order.
pub fn fields_from_members<D: Clone>(vr: VR, fields: &Vec<(String, JsonValue)>, dict: &D) -> (r:
    Result<JsonFields<D>, DeError>)
    ensures
        match fields_prefix(vr, fields, fields@.len()) {
            Ok(m) => r matches Ok(f) && f.model() == m,
            Err(e) => r matches Err(x) && x == e,
        },
    decreases fields, fields@.len(),
{
    let mut read: JsonFields<D> = JsonFields { value: None, binary: None };
    let mut i: usize = 1;
    while i < fields.len()
        invariant
            1 <= i,
            i <= fields@.len() || fields@.len() == 0,
            fields_prefix(vr, fields, i as nat) == Ok::<FieldsModel, DeError>(read.model()),
        decreases fields@.len() - i,
    {
        match field_from_member(vr, read, &fields[i].0, &fields[i].1, dict) {
            Ok(next) => {
                read = next;
            },
            Err(e) => {
                proof {
                    lemma_fields_failed(vr, fields, (i + 1) as nat, fields@.len());
                }
                return Err(e);
            },
        }
        i = i + 1;
    }
    Ok(read)
}

/// Reads the value representation and the value of a data element from the
/// members of its JSON object, in their order.
pub fn element_from_fields<D: Clone>(fields: &Vec<(String, JsonValue)>, dict: &D) -> (r: Result<
    JsonDataElement<D>,
    DeError,
>)
    ensures
        gives_parts(r, element_of_fields(fields)),
    decreases fields, fields@.len() + 1,
{
    if fields.len() == 0 {
        return Err(DeError::MissingVr);
    }
    if !same_text(&fields[0].0, "vr") {
        return Err(DeError::VrNotFirst);
    }
    let vr: VR = match &fields[0].1 {
        JsonValue::Str(text) => match VR::from_str(text.as_str()) {
            Some(vr) => vr,
            None => VR::UN,
        },
        _ => {
            return Err(DeError::VrNotText);
        },
    };
    let read: JsonFields<D> = match fields_from_members(vr, fields, dict) {
        Ok(read) => read,
        Err(e) => {
            return Err(e);
        },
    };
    let value: Value<D> = match read.value {
        Some(v) => v,
        None => match read.binary {
            Some(text) => match inline_binary_value(decode_base64(text.as_str())) {
                Ok(v) => v,
                Err(e) => {
                    return Err(e);
                },
            },
            None => Value::Primitive(PrimitiveValue::Empty),
        },
    };
    Ok(JsonDataElement { vr, value })
}

/// Reads a data set from its JSON form. The objects that are made, the one
/// of the data set and those of its sequence items, each hold a copy of
/// `dict`.
pub fn from_value<D: Clone>(value: &JsonValue, dict: &D) -> (r: Result<InMemDicomObject<D>, DeError>)
    ensures
        gives_object(r, object_of(value)),
{
    object_from_json(value, dict)
}

/// The tag that a JSON value gives: a string of eight hexadecimal digits.
pub open spec fn tag_of(json: &JsonValue) -> Result<Tag, DeError> {
    match tag_of_item(json) {
        Some(t) => Ok(t),
        None => Err(DeError::InvalidTag),
    }
}

/// Reads a tag from its JSON form.
pub fn tag_from_value(value: &JsonValue) -> (r: Result<Tag, DeError>)
    ensures
        r == tag_of(value),
{
    match tag_item(value) {
        Some(t) => Ok(t),
        None => Err(DeError::InvalidTag),
    }
}

} // verus!

use dicom_codec::dictionary::{StandardDataDictionary, StubDataDictionary};
use dicom_codec::header::Length;
use dicom_codec::json::de::{
    element_from_json, from_value, inline_binary_value, tag_from_value, value_from_json,
};
use dicom_codec::json::ser::{inline_binary_member, to_value, SerError};
use dicom_codec::json::{DeError, JsonFloat, JsonNumber, JsonValue};
use dicom_codec::object::{DataElement, InMemDicomObject, PixelFragmentSequence, Value};
use dicom_codec::tag::Tag;
use dicom_codec::value::PrimitiveValue;
use dicom_codec::vr::VR;

type Object = InMemDicomObject<StandardDataDictionary>;
type Element = DataElement<StandardDataDictionary>;

/// The value of this library for a value of `serde_json`.
fn convert(value: &serde_json::Value) -> JsonValue {
    match value {
        serde_json::Value::Null => JsonValue::Null,
        serde_json::Value::Bool(b) => JsonValue::Bool(*b),
        serde_json::Value::Number(n) => JsonValue::Number(if let Some(u) = n.as_u64() {
            JsonNumber::PosInt(u)
        } else if let Some(i) = n.as_i64() {
            JsonNumber::NegInt(i)
        } else {
            let double = n.as_f64().unwrap();
            JsonNumber::Float(JsonFloat {
                double: double.to_bits(),
                single: (double as f32).to_bits(),
                text: double.to_string(),
            })
        }),
        serde_json::Value::String(s) => JsonValue::Str(s.clone()),
        serde_json::Value::Array(items) => JsonValue::Array(items.iter().map(convert).collect()),
        serde_json::Value::Object(members) => JsonValue::Object(
            members.iter().map(|(name, value)| (name.clone(), convert(value))).collect(),
        ),
    }
}

fn parse(text: &str) -> JsonValue {
    convert(&serde_json::from_str::<serde_json::Value>(text).unwrap())
}

fn read(text: &str) -> Result<Object, DeError> {
    from_value(&parse(text), &StandardDataDictionary)
}

fn strs(items: &[&str]) -> Value<StandardDataDictionary> {
    Value::Primitive(PrimitiveValue::Strs(items.iter().map(|s| s.to_string()).collect()))
}

#[test]
fn can_parse_tags() {
    let serialized = "\"00080010\"";
    let tag: Tag = tag_from_value(&parse(serialized)).unwrap();
    assert_eq!(tag, Tag(0x0008, 0x0010));

    let serialized = "\"00200013\"";
    let tag: Tag = tag_from_value(&parse(serialized)).unwrap();
    assert_eq!(tag, Tag(0x0020, 0x0013));
}

const SIMPLE: &str = r#"{
    "00080005": { "vr": "CS", "Value": [ "ISO_IR 192" ] },
    "00080020": { "vr": "DA", "Value": [ "20130409" ] },
    "00080061": { "vr": "CS", "Value": [ "CT", "PET" ] },
    "00080090": { "vr": "PN", "Value": [ { "Alphabetic": "^Bob^^Dr." } ] },
    "00091002": { "vr": "UN", "InlineBinary": "z0x9c8v7" },
    "00101010": { "vr": "AS", "Value": [ "30Y" ] }
}"#;

#[test]
fn can_parse_simple_data_sets() {
    let obj: Object = read(SIMPLE).unwrap();

    let tag = Tag(0x0008, 0x0005);
    assert_eq!(
        obj.get(tag),
        Some(&DataElement::new(
            tag,
            VR::CS,
            Value::Primitive(PrimitiveValue::Str("ISO_IR 192".to_string()))
        )),
    )
}

#[test]
fn simple_data_set_holds_every_element() {
    let obj = read(SIMPLE).unwrap();
    assert_eq!(obj.len(), 6);
    assert_eq!(
        obj.tags(),
        vec![
            Tag(0x0008, 0x0005),
            Tag(0x0008, 0x0020),
            Tag(0x0008, 0x0061),
            Tag(0x0008, 0x0090),
            Tag(0x0009, 0x1002),
            Tag(0x0010, 0x1010)
        ]
    );
    let name = obj.get(Tag(0x0008, 0x0090)).unwrap();
    assert_eq!(name.vr(), VR::PN);
    assert_eq!(name.value(), &strs(&["^Bob^^Dr."]));
    assert_eq!(name.length(), Length(10));
    assert_eq!(obj.get(Tag(0x0008, 0x0061)).unwrap().length(), Length(6));
    assert_eq!(obj.get(Tag(0x0010, 0x1010)).unwrap().length(), Length(4));
    assert_eq!(obj.get(Tag(0x0009, 0x1002)).unwrap().length(), Length(6));
    let binary = obj.get(Tag(0x0009, 0x1002)).unwrap();
    assert_eq!(binary.vr(), VR::UN);
    assert_eq!(
        binary.value(),
        &Value::Primitive(PrimitiveValue::U8(vec![207, 76, 125, 115, 203, 251]))
    );
    assert_eq!(obj.get(Tag(0x0008, 0x0061)).unwrap().value(), &strs(&["CT", "PET"]));
    assert_eq!(obj.get(Tag(0x0008, 0x0061)).unwrap().length(), Length(6));
    assert!(obj.get(Tag(0x0008, 0x0062)).is_none());
}

fn element_error(text: &str) -> DeError {
    element_from_json::<StubDataDictionary>(&parse(text), &StubDataDictionary).unwrap_err()
}

#[test]
fn each_misplaced_member_has_its_error() {
    assert_eq!(element_error(r#"{}"#), DeError::MissingVr);
    assert_eq!(element_error(r#"{"Value": ["A"], "vr": "CS"}"#), DeError::VrNotFirst);
    assert_eq!(element_error(r#"{"vr": 7}"#), DeError::VrNotText);
    assert_eq!(element_error(r#"{"vr": "CS", "vr": "CS"}"#.replace("\"vr\": \"CS\", \"vr\"", "\"vr\": \"CS\", \"Vr\"").as_str()), DeError::UnknownField);
    assert_eq!(
        element_error(r#"{"vr": "OB", "InlineBinary": "AA==", "Value": [0]}"#),
        DeError::ValueAfterInlineBinary
    );
    assert_eq!(
        element_error(r#"{"vr": "OB", "Value": [0], "InlineBinary": "AA=="}"#),
        DeError::InlineBinaryAfterValue
    );
    assert_eq!(element_error(r#"{"vr": "CS", "BulkDataURI": "x"}"#), DeError::UnknownField);
    assert_eq!(element_error(r#"{"vr": "UN", "Value": [1]}"#), DeError::ValueInUn);
    assert_eq!(element_error(r#"{"vr": "XX", "Value": [1]}"#), DeError::ValueInUn);
    assert_eq!(element_error(r#"{"vr": "CS", "Value": "A"}"#), DeError::ValueNotArray);
    assert_eq!(element_error(r#"{"vr": "CS", "Value": [1]}"#), DeError::InvalidItem);
    assert_eq!(element_error(r#"{"vr": "US", "Value": [65536]}"#), DeError::InvalidItem);
    assert_eq!(element_error(r#"{"vr": "US", "Value": [-1]}"#), DeError::InvalidItem);
    assert_eq!(element_error(r#"{"vr": "US", "Value": [1.5]}"#), DeError::InvalidItem);
    assert_eq!(element_error(r#"{"vr": "US", "Value": ["1"]}"#), DeError::InvalidItem);
    assert_eq!(element_error(r#"{"vr": "OB", "InlineBinary": 7}"#), DeError::InlineBinaryNotText);
    assert_eq!(element_error(r#"{"vr": "OB", "InlineBinary": "a"}"#), DeError::InvalidBase64);
    assert_eq!(element_error(r#"{"vr": "OB", "InlineBinary": "****"}"#), DeError::InvalidBase64);
    assert_eq!(element_error(r#"{"vr": "AT", "Value": ["0008001"]}"#), DeError::InvalidItem);
    assert_eq!(element_error(r#"["vr"]"#), DeError::NotAnObject);
    assert_eq!(
        element_error(r#"{"vr": "SQ", "Value": [{"00080005": {"Value": []}}]}"#),
        DeError::VrNotFirst
    );
    assert_eq!(element_error(r#"{"vr": "SQ", "Value": [7]}"#), DeError::NotAnObject);
    assert_eq!(
        element_error(r#"{"vr": "PN", "Value": [{"Alphabetic": 1}]}"#),
        DeError::InvalidItem
    );
    assert_eq!(element_error(r#"{"vr": "FL", "Value": ["nan"]}"#), DeError::InvalidItem);
    assert_eq!(element_error(r#"{"vr": "FD", "Value": [true]}"#), DeError::InvalidItem);
}

#[test]
fn a_second_vr_is_an_error() {
    let twice = JsonValue::Object(vec![
        ("vr".to_string(), JsonValue::Str("CS".to_string())),
        ("vr".to_string(), JsonValue::Str("CS".to_string())),
    ]);
    assert_eq!(
        element_from_json::<StubDataDictionary>(&twice, &StubDataDictionary).unwrap_err(),
        DeError::DuplicateVr
    );
    assert_eq!(DeError::DuplicateVr.message(), "\"vr\" should only be set once");
    assert_eq!(DeError::MissingVr.message(), "\"vr\" is not set");
    assert_eq!(DeError::VrNotFirst.message(), "expected \"vr\" to be the first field");
    assert_eq!(DeError::ValueInUn.message(), "can't parse JSON Value in UN");
    assert_eq!(DeError::InvalidBase64.message(), "inline binary data is not valid base64");
    assert_eq!(DeError::UnknownField.message(), "Unrecognized data element field");
}

#[test]
fn data_set_errors() {
    assert_eq!(read(r#"[]"#).unwrap_err(), DeError::NotAnObject);
    assert_eq!(read(r#"{"0008005": {"vr": "CS"}}"#).unwrap_err(), DeError::InvalidTag);
    assert_eq!(read(r#"{"00080005": 1}"#).unwrap_err(), DeError::NotAnObject);
    assert_eq!(tag_from_value(&parse("7")), Err(DeError::InvalidTag));
    assert_eq!(tag_from_value(&parse("\"0008001G\"")), Err(DeError::InvalidTag));
}

fn value(vr: VR, text: &str) -> Value<StubDataDictionary> {
    value_from_json(vr, &parse(text), &StubDataDictionary).unwrap()
}

fn primitive(p: PrimitiveValue) -> Value<StubDataDictionary> {
    Value::Primitive(p)
}

#[test]
fn values_by_value_representation() {
    assert_eq!(value(VR::SS, "[-32768, 32767]"), primitive(PrimitiveValue::I16(vec![-32768, 32767])));
    assert_eq!(value(VR::US, "[0, 65535]"), primitive(PrimitiveValue::U16(vec![0, 65535])));
    assert_eq!(value(VR::OW, "[7]"), primitive(PrimitiveValue::U16(vec![7])));
    assert_eq!(value(VR::SL, "[-2147483648]"), primitive(PrimitiveValue::I32(vec![i32::MIN])));
    assert_eq!(value(VR::OB, "[0, 255]"), primitive(PrimitiveValue::U8(vec![0, 255])));
    assert_eq!(
        value(VR::UL, "[4294967295, \"12\", \"+3\"]"),
        primitive(PrimitiveValue::U32(vec![u32::MAX, 12, 3]))
    );
    assert_eq!(value(VR::OL, "[1]"), primitive(PrimitiveValue::U32(vec![1])));
    assert_eq!(
        value(VR::SV, "[-9223372036854775808, \"9223372036854775807\", \"-5\"]"),
        primitive(PrimitiveValue::I64(vec![i64::MIN, i64::MAX, -5]))
    );
    assert_eq!(
        value(VR::UV, "[18446744073709551615, \"18446744073709551615\"]"),
        primitive(PrimitiveValue::U64(vec![u64::MAX, u64::MAX]))
    );
    assert_eq!(value(VR::OV, "[]"), primitive(PrimitiveValue::U64(vec![])));
    assert_eq!(
        value(VR::AT, "[\"00080010\", \"7fe00010\"]"),
        primitive(PrimitiveValue::Tags(vec![Tag(0x0008, 0x0010), Tag(0x7FE0, 0x0010)]))
    );
    assert_eq!(
        value(VR::DS, "[1.5, \"2.50\", 3, -4]"),
        primitive(PrimitiveValue::Strs(
            ["1.5", "2.50", "3", "-4"].iter().map(|s| s.to_string()).collect()
        ))
    );
    assert_eq!(
        value(VR::IS, "[12, \"13 \"]"),
        primitive(PrimitiveValue::Strs(["12", "13 "].iter().map(|s| s.to_string()).collect()))
    );
    assert_eq!(value(VR::UI, "[\"1.2.3\"]"), primitive(PrimitiveValue::Str("1.2.3".to_string())));
    for text in ["[\"18446744073709551616\"]", "[\"-1\"]", "[\"1 \"]", "[\"\"]", "[\"+\"]", "[\"1e3\"]"] {
        assert_eq!(
            value_from_json::<StubDataDictionary>(VR::UV, &parse(text), &StubDataDictionary),
            Err(DeError::InvalidItem)
        );
    }
}

#[test]
fn floats_come_as_numbers_or_as_the_three_strings() {
    assert_eq!(
        value(VR::FL, "[1.5, \"NaN\", \"Infinity\", \"-Infinity\"]"),
        primitive(PrimitiveValue::F32(vec![
            1.5f32.to_bits(),
            f32::NAN.to_bits(),
            f32::INFINITY.to_bits(),
            f32::NEG_INFINITY.to_bits()
        ]))
    );
    assert_eq!(
        value(VR::FD, "[-0.25, \"NaN\", \"Infinity\", \"-Infinity\"]"),
        primitive(PrimitiveValue::F64(vec![
            (-0.25f64).to_bits(),
            f64::NAN.to_bits(),
            f64::INFINITY.to_bits(),
            f64::NEG_INFINITY.to_bits()
        ]))
    );
    assert_eq!(value(VR::OF, "[0.1]"), primitive(PrimitiveValue::F32(vec![0.1f32.to_bits()])));
    let whole: [i64; 14] = [
        0,
        1,
        -1,
        2,
        3,
        -1000,
        255,
        65536,
        16777215,
        16777216,
        -16777216,
        33554432,
        1 << 40,
        -(1 << 62),
    ];
    let text = format!("{:?}", whole);
    assert_eq!(
        value(VR::FL, &text),
        primitive(PrimitiveValue::F32(whole.iter().map(|n| (*n as f32).to_bits()).collect()))
    );
    assert_eq!(
        value(VR::FD, &text),
        primitive(PrimitiveValue::F64(whole.iter().map(|n| (*n as f64).to_bits()).collect()))
    );
    let large: [u64; 5] = [
        9007199254740991,
        9007199254740992,
        9007199254740994,
        1 << 63,
        18446744073709549568,
    ];
    assert_eq!(
        value(VR::OD, &format!("{:?}", large)),
        primitive(PrimitiveValue::F64(large.iter().map(|n| (*n as f64).to_bits()).collect()))
    );
    assert_eq!(
        value(VR::FD, "[-9223372036854775808]"),
        primitive(PrimitiveValue::F64(vec![(i64::MIN as f64).to_bits()]))
    );
    // integers that no float of the precision is exactly
    for text in ["[16777217]", "[-33554433]", "[18446744073709551615]"] {
        assert_eq!(
            value_from_json::<StubDataDictionary>(VR::FL, &parse(text), &StubDataDictionary),
            Err(DeError::InvalidItem)
        );
    }
    for text in ["[9007199254740993]", "[18446744073709551615]", "[-9007199254740993]"] {
        assert_eq!(
            value_from_json::<StubDataDictionary>(VR::FD, &parse(text), &StubDataDictionary),
            Err(DeError::InvalidItem)
        );
    }
    assert_eq!(value(VR::OD, "[0.1]"), primitive(PrimitiveValue::F64(vec![0.1f64.to_bits()])));
}

#[test]
fn person_names_join_their_component_groups() {
    let names = r#"[
        {"Alphabetic": "A"},
        {"Alphabetic": "A", "Ideographic": "I"},
        {"Alphabetic": "A", "Ideographic": "I", "Phonetic": "P"},
        {"Phonetic": "P"},
        {"Ideographic": "I"},
        {"Alphabetic": "A", "Phonetic": "P", "Other": 1},
        {"Alphabetic": null, "Ideographic": ""},
        {}
    ]"#;
    assert_eq!(
        value(VR::PN, names),
        primitive(PrimitiveValue::Strs(
            ["A", "A=I", "A=I=P", "==P", "=I", "A==P", "=", ""]
                .iter()
                .map(|s| s.to_string())
                .collect()
        ))
    );
    assert_eq!(
        value_from_json::<StubDataDictionary>(
            VR::PN,
            &JsonValue::Array(vec![JsonValue::Object(vec![
                ("Alphabetic".to_string(), JsonValue::Str("A".to_string())),
                ("Alphabetic".to_string(), JsonValue::Str("B".to_string())),
            ])]),
            &StubDataDictionary
        ),
        Err(DeError::InvalidItem)
    );
}

#[test]
fn sequences_nest_and_later_members_win() {
    let obj = read(
        r#"{
        "00081140": {"vr": "SQ", "Value": [
            {"00081155": {"vr": "UI", "Value": ["1.2"]}, "00081150": {"vr": "UI", "Value": ["1.1"]}},
            {}
        ]},
        "00100020": {"vr": "LO", "Value": ["first"]},
        "00100020": {"vr": "LO", "Value": ["second"]},
        "00100010": {"vr": "PN"}
    }"#
        .replace("\"00100020\": {\"vr\": \"LO\", \"Value\": [\"second\"]}", "\"00100021\": {\"vr\": \"LO\", \"Value\": [\"second\"]}")
        .as_str(),
    )
    .unwrap();
    assert_eq!(
        obj.tags(),
        vec![Tag(0x0008, 0x1140), Tag(0x0010, 0x0010), Tag(0x0010, 0x0020), Tag(0x0010, 0x0021)]
    );
    let sequence = obj.get(Tag(0x0008, 0x1140)).unwrap();
    assert_eq!(sequence.length(), Length::undefined());
    match sequence.value() {
        Value::Sequence(items) => {
            assert_eq!(items.len(), 2);
            assert_eq!(items[0].tags(), vec![Tag(0x0008, 0x1150), Tag(0x0008, 0x1155)]);
            assert!(items[1].is_empty());
        }
        other => panic!("not a sequence: {:?}", other),
    }
    assert_eq!(
        obj.get(Tag(0x0010, 0x0010)).unwrap(),
        &Element::empty(Tag(0x0010, 0x0010), VR::PN)
    );

    let twice = JsonValue::Object(vec![
        (
            "00100020".to_string(),
            JsonValue::Object(vec![
                ("vr".to_string(), JsonValue::Str("LO".to_string())),
                ("Value".to_string(), JsonValue::Array(vec![JsonValue::Str("first".to_string())])),
            ]),
        ),
        (
            "00100020".to_string(),
            JsonValue::Object(vec![
                ("vr".to_string(), JsonValue::Str("LO".to_string())),
                ("Value".to_string(), JsonValue::Array(vec![JsonValue::Str("second".to_string())])),
                ("Value".to_string(), JsonValue::Array(vec![JsonValue::Str("third".to_string())])),
            ]),
        ),
    ]);
    let obj = from_value(&twice, &StandardDataDictionary).unwrap();
    assert_eq!(obj.len(), 1);
    assert_eq!(obj.get(Tag(0x0010, 0x0020)).unwrap().value(), &strs(&["third"]));
}

fn sample() -> Object {
    let mut item = Object::new_empty_with_dict(StandardDataDictionary);
    item.put(Element::new(Tag(0x0008, 0x1150), VR::UI, strs(&["1.2.840"])));
    let mut obj = Object::new_empty_with_dict(StandardDataDictionary);
    obj.put(Element::new(Tag(0x0010, 0x0010), VR::PN, strs(&["Doe^John", "A=B", "=", "A=B=C=D"])));
    obj.put(Element::new(Tag(0x0008, 0x0005), VR::CS, strs(&["ISO_IR 192"])));
    obj.put(Element::new(
        Tag(0x0028, 0x0010),
        VR::US,
        Value::Primitive(PrimitiveValue::U16(vec![512])),
    ));
    obj.put(Element::new(
        Tag(0x0009, 0x1001),
        VR::SS,
        Value::Primitive(PrimitiveValue::I16(vec![-3, 3])),
    ));
    obj.put(Element::new(
        Tag(0x0009, 0x1002),
        VR::SV,
        Value::Primitive(PrimitiveValue::I64(vec![i64::MIN, i64::MAX])),
    ));
    obj.put(Element::new(
        Tag(0x0009, 0x1003),
        VR::UV,
        Value::Primitive(PrimitiveValue::U64(vec![u64::MAX])),
    ));
    obj.put(Element::new(
        Tag(0x0009, 0x1004),
        VR::AT,
        Value::Primitive(PrimitiveValue::Tags(vec![Tag(0x7FE0, 0x0010)])),
    ));
    obj.put(Element::new(
        Tag(0x0009, 0x1005),
        VR::OB,
        Value::Primitive(PrimitiveValue::U8(vec![0, 1, 255])),
    ));
    obj.put(Element::new(Tag(0x0009, 0x1006), VR::DS, strs(&["1.50", "-2"])));
    obj.put(Element::empty(Tag(0x0009, 0x1007), VR::UN));
    obj.put(Element::new(Tag(0x0009, 0x1008), VR::LO, strs(&[])));
    obj.put(Element::new(Tag(0x0008, 0x1140), VR::SQ, Value::Sequence(vec![item])));
    obj
}

#[test]
fn objects_are_read_back_from_their_json_form() {
    let obj = sample();
    let json = to_value(&obj).unwrap();
    let back = from_value(&json, &StandardDataDictionary).unwrap();
    assert_eq!(back, obj);
    assert_eq!(back.tags(), obj.tags());

    // a single text that was announced as it stands comes back announced
    // with its padding
    let mut single = Object::new_empty_with_dict(StandardDataDictionary);
    single.put(Element::new(
        Tag(0x0008, 0x1150),
        VR::UI,
        Value::Primitive(PrimitiveValue::Str("1.2.840".to_string())),
    ));
    assert_eq!(single.get(Tag(0x0008, 0x1150)).unwrap().length(), Length(7));
    let back = from_value(&to_value(&single).unwrap(), &StandardDataDictionary).unwrap();
    let element = back.get(Tag(0x0008, 0x1150)).unwrap();
    assert_eq!(element.length(), Length(8));
    assert_eq!(element.value(), &strs(&["1.2.840"]));
}

#[test]
fn json_form_is_exact() {
    let mut obj = Object::new_empty_with_dict(StandardDataDictionary);
    obj.put(Element::new(Tag(0x0010, 0x0010), VR::PN, strs(&["Doe^John=I"])));
    obj.put(Element::new(
        Tag(0x0028, 0x0010),
        VR::US,
        Value::Primitive(PrimitiveValue::U16(vec![512])),
    ));
    obj.put(Element::new(
        Tag(0x0009, 0x1002),
        VR::UN,
        Value::Primitive(PrimitiveValue::U8(vec![207, 76, 125, 115, 203, 251])),
    ));
    obj.put(Element::new(
        Tag(0x0009, 0x1001),
        VR::SL,
        Value::Primitive(PrimitiveValue::I32(vec![-1])),
    ));
    let expected = parse(
        r#"{
        "00091001": {"vr": "SL", "Value": [-1]},
        "00091002": {"vr": "UN", "InlineBinary": "z0x9c8v7"},
        "00100010": {"vr": "PN", "Value": [{"Alphabetic": "Doe^John", "Ideographic": "I"}]},
        "00280010": {"vr": "US", "Value": [512]}
    }"#,
    );
    assert_eq!(to_value(&obj).unwrap(), expected);
    assert_eq!(from_value(&expected, &StandardDataDictionary).unwrap(), obj);
}

#[test]
fn values_without_json_form_are_refused() {
    let mut obj = Object::new_empty_with_dict(StandardDataDictionary);
    obj.put(Element::new(
        Tag(0x0009, 0x1001),
        VR::FL,
        Value::Primitive(PrimitiveValue::F32(vec![0])),
    ));
    assert!(matches!(to_value(&obj), Err(SerError::NotRepresentable { .. })));
    let mut obj = Object::new_empty_with_dict(StandardDataDictionary);
    obj.put(Element::new_with_len(
        Tag(0x7FE0, 0x0010),
        VR::OB,
        Length::undefined(),
        Value::PixelSequence(PixelFragmentSequence { offset_table: vec![], fragments: vec![] }),
    ));
    assert_eq!(
        to_value(&obj),
        Err(SerError::NotRepresentable { tag: Tag(0x7FE0, 0x0010) })
    );
    let mut obj = Object::new_empty_with_dict(StandardDataDictionary);
    obj.put(Element::new(Tag(0x0028, 0x0010), VR::US, strs(&["512"])));
    assert_eq!(to_value(&obj), Err(SerError::NotRepresentable { tag: Tag(0x0028, 0x0010) }));

    // the error names the first such element in the order of writing, also
    // where it stands within an item
    let mut item = Object::new_empty_with_dict(StandardDataDictionary);
    item.put(Element::new(Tag(0x0008, 0x1150), VR::UI, strs(&["1.2.840"])));
    item.put(Element::new(
        Tag(0x0009, 0x1001),
        VR::FD,
        Value::Primitive(PrimitiveValue::F64(vec![0])),
    ));
    let mut obj = Object::new_empty_with_dict(StandardDataDictionary);
    obj.put(Element::new(Tag(0x0028, 0x0010), VR::US, strs(&["512"])));
    obj.put(Element::new(Tag(0x0008, 0x1140), VR::SQ, Value::Sequence(vec![item])));
    obj.put(Element::new(Tag(0x0008, 0x0005), VR::CS, strs(&["ISO_IR 192"])));
    assert_eq!(to_value(&obj), Err(SerError::NotRepresentable { tag: Tag(0x0009, 0x1001) }));
    let mut obj = Object::new_empty_with_dict(StandardDataDictionary);
    obj.put(Element::new(Tag(0x0008, 0x1140), VR::OB, Value::Sequence(vec![])));
    assert_eq!(to_value(&obj), Err(SerError::NotRepresentable { tag: Tag(0x0008, 0x1140) }));
}

#[test]
fn parts_around_base64() {
    assert_eq!(
        inline_binary_value::<StubDataDictionary>(Some(vec![1, 2])),
        Ok(Value::Primitive(PrimitiveValue::U8(vec![1, 2])))
    );
    assert_eq!(inline_binary_value::<StubDataDictionary>(None), Err(DeError::InvalidBase64));
    assert_eq!(
        inline_binary_member("AQI=".to_string()),
        ("InlineBinary".to_string(), JsonValue::Str("AQI=".to_string()))
    );
    let mut obj = Object::new_empty_with_dict(StandardDataDictionary);
    obj.put(Element::new(
        Tag(0x0009, 0x1002),
        VR::UN,
        Value::Primitive(PrimitiveValue::U8(vec![1, 2])),
    ));
    let json = to_value(&obj).unwrap();
    assert_eq!(json, parse(r#"{"00091002": {"vr": "UN", "InlineBinary": "AQI="}}"#));
    assert_eq!(from_value(&json, &StandardDataDictionary), Ok(obj));
}

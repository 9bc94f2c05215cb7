use dicom_codec::conversion::{ConvertValueError, InvalidValueReadError, Requested};
use dicom_codec::dictionary::{DataDictionary, StandardDataDictionary, StubDataDictionary};
use dicom_codec::endian::Endianness;
use dicom_codec::header::Length;
use dicom_codec::object::{DataElement, InMemDicomObject, Value};
use dicom_codec::tag::Tag;
use dicom_codec::value::{PrimitiveValue, ValueType};
use dicom_codec::vr::VR;
use dicom_codec::wire::padding;

#[test]
fn can_use_prelude() {
    // can refer to `DataElement`, `Tag`, `VR`, and a value
    let elem: DataElement<StubDataDictionary> = DataElement::new(
        Tag(0x0010, 0x0010),
        VR::PN,
        Value::Primitive(PrimitiveValue::Str("Simões^João".to_string())),
    );
    let length = elem.length().0;
    assert_eq!(length as usize, "Simões^João".len());

    // can call `by_tag`
    assert_eq!(StubDataDictionary.by_tag(Tag(0x0010, 0x0010)), None,);
}

fn strs(items: &[&str]) -> PrimitiveValue {
    PrimitiveValue::Strs(items.iter().map(|s| s.to_string()).collect())
}

#[test]
fn byte_lengths_are_even_padded() {
    assert_eq!(PrimitiveValue::Empty.calculate_byte_length(), 0);
    assert_eq!(PrimitiveValue::Str("ABCD".to_string()).calculate_byte_length(), 4);
    assert_eq!(PrimitiveValue::Str("Simões^João".to_string()).byte_length(), Some(13));
    assert_eq!(PrimitiveValue::Str("Simões^João".to_string()).calculate_byte_length(), 14);
    assert_eq!(strs(&["ABCD", "EFG"]).calculate_byte_length(), 8);
    assert_eq!(strs(&["ABCD", "EFGH"]).byte_length(), Some(9));
    assert_eq!(strs(&["ABCD", "EFGH"]).calculate_byte_length(), 10);
    assert_eq!(strs(&[]).calculate_byte_length(), 0);
    assert_eq!(strs(&["", ""]).calculate_byte_length(), 2);
    assert_eq!(PrimitiveValue::U8(vec![1, 2, 3]).calculate_byte_length(), 4);
    assert_eq!(PrimitiveValue::U8(vec![1, 2, 3]).checked_byte_length(), Some(4));
    assert_eq!(PrimitiveValue::U16(vec![1, 2, 3]).calculate_byte_length(), 6);
    assert_eq!(PrimitiveValue::I16(vec![1]).calculate_byte_length(), 2);
    assert_eq!(PrimitiveValue::U32(vec![1, 2, 3]).calculate_byte_length(), 12);
    assert_eq!(PrimitiveValue::I32(vec![1]).calculate_byte_length(), 4);
    assert_eq!(PrimitiveValue::U64(vec![1, 2]).calculate_byte_length(), 16);
    assert_eq!(PrimitiveValue::I64(vec![1]).calculate_byte_length(), 8);
    assert_eq!(PrimitiveValue::F32(vec![0, 0]).calculate_byte_length(), 8);
    assert_eq!(PrimitiveValue::F64(vec![0]).calculate_byte_length(), 8);
    assert_eq!(PrimitiveValue::Tags(vec![Tag(1, 2), Tag(3, 4)]).calculate_byte_length(), 8);
}

#[test]
fn written_bytes_are_as_many_as_the_length_says() {
    let values = [
        PrimitiveValue::Empty,
        PrimitiveValue::Str("Simões^João".to_string()),
        strs(&["ABCD", "EFGH"]),
        strs(&["A", "B", "C"]),
        PrimitiveValue::U8(vec![1, 2, 3]),
        PrimitiveValue::U16(vec![0x0102, 0x0304]),
        PrimitiveValue::I16(vec![-2]),
        PrimitiveValue::U32(vec![0x0102_0304]),
        PrimitiveValue::I32(vec![-2]),
        PrimitiveValue::U64(vec![0x0102_0304_0506_0708]),
        PrimitiveValue::I64(vec![-2]),
        PrimitiveValue::F32(vec![1.5f32.to_bits()]),
        PrimitiveValue::F64(vec![1.5f64.to_bits()]),
        PrimitiveValue::Tags(vec![Tag(0x0008, 0x0010)]),
    ];
    for v in &values {
        for order in [Endianness::Little, Endianness::Big] {
            let bytes = v.to_wire(order, 0x20);
            assert_eq!(bytes.len(), v.calculate_byte_length());
            assert_eq!(bytes.len() % 2, 0);
        }
    }
    assert_eq!(strs(&["ABCD", "EFGH"]).to_wire(Endianness::Little, 0x20), b"ABCD\\EFGH ".to_vec());
    assert_eq!(PrimitiveValue::Str("1.2".to_string()).to_wire(Endianness::Little, 0), b"1.2\0".to_vec());
    assert_eq!(
        PrimitiveValue::U16(vec![0x0102, 0x0304]).to_wire(Endianness::Little, 0),
        vec![2, 1, 4, 3]
    );
    assert_eq!(
        PrimitiveValue::U16(vec![0x0102, 0x0304]).to_wire(Endianness::Big, 0),
        vec![1, 2, 3, 4]
    );
    assert_eq!(PrimitiveValue::I32(vec![-2]).to_wire(Endianness::Big, 0), vec![255, 255, 255, 254]);
    assert_eq!(PrimitiveValue::I64(vec![-2]).to_wire(Endianness::Little, 0), (-2i64).to_le_bytes().to_vec());
    assert_eq!(PrimitiveValue::U64(vec![7]).to_wire(Endianness::Big, 0), 7u64.to_be_bytes().to_vec());
    assert_eq!(PrimitiveValue::F32(vec![1.5f32.to_bits()]).to_wire(Endianness::Little, 0), 1.5f32.to_le_bytes().to_vec());
    assert_eq!(PrimitiveValue::Tags(vec![Tag(0x0008, 0x0010)]).to_wire(Endianness::Big, 0), vec![0, 8, 0, 0x10]);
    assert_eq!(PrimitiveValue::U8(vec![1, 2, 3]).to_wire(Endianness::Big, 0), vec![1, 2, 3, 0]);
    assert_eq!(padding(VR::UI), 0);
    assert_eq!(padding(VR::PN), 0x20);
    assert_eq!(padding(VR::CS), 0x20);
    assert_eq!(padding(VR::OB), 0);
}

#[test]
fn one_text_equals_the_list_of_it() {
    assert_eq!(PrimitiveValue::Str("A".to_string()), strs(&["A"]));
    assert_eq!(strs(&["A"]), PrimitiveValue::Str("A".to_string()));
    assert_ne!(PrimitiveValue::Str("A".to_string()), strs(&["A", "B"]));
    assert_ne!(PrimitiveValue::Str("A".to_string()), strs(&[]));
    assert_ne!(PrimitiveValue::Str("A".to_string()), PrimitiveValue::Str("B".to_string()));
    assert_ne!(PrimitiveValue::U8(vec![1]), PrimitiveValue::U16(vec![1]));
    assert_ne!(PrimitiveValue::F32(vec![1]), PrimitiveValue::U32(vec![1]));
    assert_eq!(PrimitiveValue::I64(vec![1, -1]), PrimitiveValue::I64(vec![1, -1]));
    assert_ne!(PrimitiveValue::I64(vec![1, -1]), PrimitiveValue::I64(vec![1]));
    assert_eq!(PrimitiveValue::Tags(vec![Tag(1, 2)]), PrimitiveValue::Tags(vec![Tag(1, 2)]));
    assert_ne!(PrimitiveValue::Tags(vec![Tag(1, 2)]), PrimitiveValue::Tags(vec![Tag(2, 1)]));
    assert_eq!(PrimitiveValue::Str("A".to_string()).value_type(), ValueType::Str);
    assert_eq!(strs(&["A"]).value_type(), ValueType::Strs);
    assert_eq!(strs(&["A", "B"]).multiplicity(), 2);
    assert_eq!(PrimitiveValue::Empty.multiplicity(), 0);
}

fn failed(original: ValueType, cause: InvalidValueReadError) -> ConvertValueError {
    ConvertValueError { requested: Requested::Integer, original, cause }
}

#[test]
fn integers_come_from_numbers_and_from_text() {
    assert_eq!(PrimitiveValue::U16(vec![512, 1]).to_int(), Ok(512));
    assert_eq!(PrimitiveValue::I16(vec![-5]).to_int(), Ok(-5));
    assert_eq!(PrimitiveValue::U8(vec![255]).to_int(), Ok(255));
    assert_eq!(PrimitiveValue::I64(vec![i64::MIN]).to_int(), Ok(i64::MIN));
    assert_eq!(PrimitiveValue::U32(vec![u32::MAX]).to_int(), Ok(u32::MAX as i64));
    assert_eq!(PrimitiveValue::I32(vec![-1]).to_int(), Ok(-1));
    assert_eq!(PrimitiveValue::Str(" 12 ".to_string()).to_int(), Ok(12));
    assert_eq!(strs(&["-7", "x"]).to_int(), Ok(-7));
    assert_eq!(PrimitiveValue::Str("+3\0".to_string()).to_int(), Ok(3));
    assert_eq!(
        PrimitiveValue::U64(vec![u64::MAX]).to_int(),
        Err(failed(ValueType::U64, InvalidValueReadError::NarrowConvert))
    );
    assert_eq!(PrimitiveValue::U64(vec![u64::MAX]).to_int_within(0, u64::MAX as i128), Ok(u64::MAX as i128));
    assert_eq!(
        PrimitiveValue::U16(vec![512]).to_int_within(0, 255),
        Err(failed(ValueType::U16, InvalidValueReadError::NarrowConvert))
    );
    assert_eq!(
        PrimitiveValue::Str("1.5".to_string()).to_int(),
        Err(failed(ValueType::Str, InvalidValueReadError::ParseInteger))
    );
    assert_eq!(
        PrimitiveValue::Str("99999999999999999999999".to_string()).to_int(),
        Err(failed(ValueType::Str, InvalidValueReadError::NarrowConvert))
    );
    assert_eq!(
        PrimitiveValue::Empty.to_int(),
        Err(failed(ValueType::Empty, InvalidValueReadError::EmptyValue))
    );
    assert_eq!(strs(&[]).to_int(), Err(failed(ValueType::Strs, InvalidValueReadError::EmptyValue)));
    assert_eq!(
        PrimitiveValue::F64(vec![0]).to_int(),
        Err(failed(ValueType::F64, InvalidValueReadError::NonPrimitiveType))
    );
    assert_eq!(
        PrimitiveValue::Tags(vec![]).to_int(),
        Err(failed(ValueType::Tags, InvalidValueReadError::NonPrimitiveType))
    );
}

#[test]
fn text_loses_its_padding() {
    assert_eq!(PrimitiveValue::Str("MONOCHROME2 ".to_string()).to_str(), Ok("MONOCHROME2".to_string()));
    assert_eq!(PrimitiveValue::Str("1.2.840\0".to_string()).to_str(), Ok("1.2.840".to_string()));
    assert_eq!(strs(&[" A  ", "B"]).to_str(), Ok(" A".to_string()));
    assert_eq!(PrimitiveValue::Str("  ".to_string()).to_str(), Ok("".to_string()));
    assert_eq!(
        PrimitiveValue::U8(vec![1]).to_str(),
        Err(ConvertValueError {
            requested: Requested::Text,
            original: ValueType::U8,
            cause: InvalidValueReadError::NonPrimitiveType
        })
    );
    assert_eq!(
        PrimitiveValue::Empty.to_str(),
        Err(ConvertValueError {
            requested: Requested::Text,
            original: ValueType::Empty,
            cause: InvalidValueReadError::EmptyValue
        })
    );
}

type Object = InMemDicomObject<StandardDataDictionary>;
type Element = DataElement<StandardDataDictionary>;

fn text(tag: Tag, vr: VR, s: &str) -> Element {
    DataElement::new(tag, vr, Value::Primitive(PrimitiveValue::Str(s.to_string())))
}

#[test]
fn objects_keep_their_elements_in_order() {
    let mut obj = Object::new_empty_with_dict(StandardDataDictionary);
    assert!(obj.is_empty());
    assert_eq!(obj.put(text(Tag(0x0010, 0x0020), VR::LO, "ID")), None);
    assert_eq!(obj.put(text(Tag(0x0008, 0x0060), VR::CS, "CT")), None);
    assert_eq!(obj.put(text(Tag(0x0010, 0x0010), VR::PN, "Doe^John")), None);
    assert_eq!(obj.put(text(Tag(0x0008, 0x0005), VR::CS, "ISO_IR 100")), None);
    assert_eq!(obj.len(), 4);
    assert_eq!(
        obj.tags(),
        vec![Tag(0x0008, 0x0005), Tag(0x0008, 0x0060), Tag(0x0010, 0x0010), Tag(0x0010, 0x0020)]
    );
    assert_eq!(obj.element_at(2).tag(), Tag(0x0010, 0x0010));
    assert_eq!(obj.get(Tag(0x0008, 0x0060)), Some(&text(Tag(0x0008, 0x0060), VR::CS, "CT")));
    assert_eq!(obj.get(Tag(0x0008, 0x0061)), None);
    assert!(obj.contains(Tag(0x0010, 0x0020)));

    // the same tag again takes the place of the element that was there
    assert_eq!(
        obj.put(text(Tag(0x0008, 0x0060), VR::CS, "MR")),
        Some(text(Tag(0x0008, 0x0060), VR::CS, "CT"))
    );
    assert_eq!(obj.len(), 4);
    assert_eq!(obj.get(Tag(0x0008, 0x0060)), Some(&text(Tag(0x0008, 0x0060), VR::CS, "MR")));

    assert!(obj.remove(Tag(0x0010, 0x0010)));
    assert!(!obj.remove(Tag(0x0010, 0x0010)));
    assert_eq!(obj.take(Tag(0x0008, 0x0005)), Some(text(Tag(0x0008, 0x0005), VR::CS, "ISO_IR 100")));
    assert_eq!(obj.take(Tag(0x0008, 0x0005)), None);
    assert_eq!(obj.tags(), vec![Tag(0x0008, 0x0060), Tag(0x0010, 0x0020)]);
    assert_eq!(obj.dict(), &StandardDataDictionary);
}

#[test]
fn elements_announce_the_length_of_their_values() {
    let e = text(Tag(0x0010, 0x0010), VR::PN, "Doe^John");
    assert_eq!(e.header().tag(), Tag(0x0010, 0x0010));
    assert_eq!(e.vr(), VR::PN);
    assert_eq!(e.length(), Length(8));
    assert_eq!(Element::empty(Tag(1, 2), VR::LO).length(), Length(0));
    let sequence = Element::new(Tag(0x0008, 0x1140), VR::SQ, Value::Sequence(vec![]));
    assert_eq!(sequence.length(), Length::undefined());
    assert!(Element::try_new(Tag(1, 2), VR::OB, Value::Primitive(PrimitiveValue::U8(vec![1, 2, 3]))).is_some());
    let given = Element::new_with_len(Tag(1, 2), VR::OB, Length(8), Value::Primitive(PrimitiveValue::U8(vec![1, 2, 3])));
    assert_eq!(given.length(), Length(8));
    assert_ne!(given, Element::new(Tag(1, 2), VR::OB, Value::Primitive(PrimitiveValue::U8(vec![1, 2, 3]))));
    assert_eq!(given.into_value(), Value::Primitive(PrimitiveValue::U8(vec![1, 2, 3])));
    assert_eq!(Length(5).get(), Some(5));
    assert_eq!(Length::undefined().get(), None);
    assert!(Length::defined(7).is_defined());
}

#[test]
fn dictionaries_know_their_attributes() {
    assert_eq!(StandardDataDictionary.by_tag(Tag(0x0010, 0x0010)), Some(VR::PN));
    assert_eq!(StandardDataDictionary.by_tag(Tag(0x0028, 0x0010)), Some(VR::US));
    assert_eq!(StandardDataDictionary.by_tag(Tag(0x7FE0, 0x0010)), Some(VR::OW));
    assert_eq!(StandardDataDictionary.by_tag(Tag(0x0009, 0x0010)), None);
    assert_eq!(StubDataDictionary.by_tag(Tag(0x0028, 0x0010)), None);
}

#[test]
fn value_representations_by_their_codes() {
    for vr in [VR::AE, VR::OB, VR::SQ, VR::UN, VR::UV, VR::SV, VR::PN, VR::FD] {
        assert_eq!(VR::from_str(vr.to_string()), Some(vr));
        assert_eq!(VR::from_binary(vr.to_bytes()), Some(vr));
    }
    assert_eq!(VR::PN.to_string(), "PN");
    assert_eq!(VR::PN.to_bytes(), [0x50, 0x4E]);
    assert_eq!(VR::from_str("pn"), None);
    assert_eq!(VR::from_str("PNX"), None);
    assert_eq!(VR::from_str(""), None);
    assert_eq!(VR::from_binary([0, 0]), None);
    for vr in [VR::OB, VR::OD, VR::OF, VR::OL, VR::OV, VR::OW, VR::SQ, VR::UC, VR::UN, VR::UR, VR::UT, VR::UV] {
        assert!(vr.has_long_length());
    }
    for vr in [VR::AE, VR::AS, VR::AT, VR::CS, VR::DA, VR::DS, VR::DT, VR::FL, VR::FD, VR::IS, VR::LO, VR::LT, VR::PN, VR::SH, VR::SL, VR::SS, VR::ST, VR::SV, VR::TM, VR::UI, VR::UL, VR::US] {
        assert!(!vr.has_long_length());
    }
    assert!(VR::PN.is_textual() && VR::UI.is_textual() && !VR::US.is_textual() && !VR::SQ.is_textual());
    assert!(VR::SQ.is_sequence() && !VR::UN.is_sequence());
    assert!(VR::OB.may_be_encapsulated() && VR::OW.may_be_encapsulated() && !VR::UN.may_be_encapsulated());
    assert!(Tag(0x0008, 0x0010).precedes(Tag(0x0008, 0x0011)));
    assert!(Tag(0x0008, 0xFFFF).precedes(Tag(0x0009, 0x0000)));
    assert!(!Tag(0x0008, 0x0010).precedes(Tag(0x0008, 0x0010)));
    assert_eq!(Tag::item(), Tag(0xFFFE, 0xE000));
    assert_eq!(Tag::pixel_data().group(), 0x7FE0);
    assert_eq!(Tag::sequence_delimiter().element(), 0xE0DD);
    assert_eq!(Tag::item_delimiter(), Tag(0xFFFE, 0xE00D));
}

#[test]
fn lists_of_integers() {
    assert_eq!(PrimitiveValue::U16(vec![1, 2, 65535]).to_multi_int(), Ok(vec![1, 2, 65535]));
    assert_eq!(PrimitiveValue::I32(vec![-1, 0]).to_multi_int(), Ok(vec![-1, 0]));
    assert_eq!(PrimitiveValue::I64(vec![i64::MIN, i64::MAX]).to_multi_int(), Ok(vec![i64::MIN, i64::MAX]));
    assert_eq!(PrimitiveValue::U8(vec![]).to_multi_int(), Ok(vec![]));
    assert_eq!(PrimitiveValue::Empty.to_multi_int(), Ok(vec![]));
    assert_eq!(strs(&[" 1", "-2 ", "+3"]).to_multi_int(), Ok(vec![1, -2, 3]));
    assert_eq!(PrimitiveValue::Str("42 ".to_string()).to_multi_int(), Ok(vec![42]));
    assert_eq!(PrimitiveValue::I16(vec![5, 7]).to_multi_int_within(0, 7), Ok(vec![5, 7]));
    assert_eq!(
        PrimitiveValue::I16(vec![5, 8]).to_multi_int_within(0, 7),
        Err(failed(ValueType::I16, InvalidValueReadError::NarrowConvert))
    );
    assert_eq!(
        PrimitiveValue::U64(vec![1, u64::MAX]).to_multi_int(),
        Err(failed(ValueType::U64, InvalidValueReadError::NarrowConvert))
    );
    assert_eq!(
        strs(&["1", "x"]).to_multi_int(),
        Err(failed(ValueType::Strs, InvalidValueReadError::ParseInteger))
    );
    assert_eq!(
        strs(&["99999999999999999999", "x"]).to_multi_int(),
        Err(failed(ValueType::Strs, InvalidValueReadError::ParseInteger))
    );
    assert_eq!(
        strs(&["1", "99999999999999999999"]).to_multi_int(),
        Err(failed(ValueType::Strs, InvalidValueReadError::NarrowConvert))
    );
    assert_eq!(
        strs(&["300", "1"]).to_multi_int_within(0, 255),
        Err(failed(ValueType::Strs, InvalidValueReadError::NarrowConvert))
    );
    assert_eq!(
        PrimitiveValue::F32(vec![]).to_multi_int(),
        Err(failed(ValueType::F32, InvalidValueReadError::NonPrimitiveType))
    );
    assert_eq!(
        PrimitiveValue::Tags(vec![Tag(1, 2)]).to_multi_int(),
        Err(failed(ValueType::Tags, InvalidValueReadError::NonPrimitiveType))
    );
}

#[test]
fn lists_are_announced_with_their_padding() {
    let bytes = Value::<StandardDataDictionary>::Primitive(PrimitiveValue::U8(vec![1, 2, 3]));
    assert_eq!(bytes.length(), Some(Length(4)));
    assert_eq!(bytes.wire_length(), Some(Length(4)));
    assert_eq!(Element::new(Tag(1, 2), VR::OB, bytes).length(), Length(4));

    let age = || Value::<StandardDataDictionary>::Primitive(strs(&["30Y"]));
    assert_eq!(age().length(), Some(Length(4)));
    assert_eq!(Element::new(Tag(0x0010, 0x1010), VR::AS, age()).length(), Length(4));
    assert_eq!(Element::try_new(Tag(0x0010, 0x1010), VR::AS, age()).unwrap().length(), Length(4));
    let kinds = Value::<StandardDataDictionary>::Primitive(strs(&["CT", "PET"]));
    assert_eq!(Element::new(Tag(0x0008, 0x0061), VR::CS, kinds).length(), Length(6));
    let words = Value::<StandardDataDictionary>::Primitive(PrimitiveValue::U16(vec![1, 2, 3]));
    assert_eq!(Element::new(Tag(0x0028, 0x0010), VR::US, words).length(), Length(6));

    // a single text that is held as it stands is announced as it stands
    let single = || Value::<StandardDataDictionary>::Primitive(PrimitiveValue::Str("30Y".to_string()));
    assert_eq!(single().length(), Some(Length(3)));
    assert_eq!(single().wire_length(), Some(Length(4)));
    assert_eq!(Element::new(Tag(0x0010, 0x1010), VR::AS, single()).length(), Length(3));
}

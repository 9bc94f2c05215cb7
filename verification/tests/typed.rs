use dicom_codec::dataset::read::read_data_set;
use dicom_codec::dataset::typed::{build_object, raw_data_set, BuildError};
use dicom_codec::dataset::write::write_data_set;
use dicom_codec::dataset::{RawElement, RawValue};
use dicom_codec::dictionary::StandardDataDictionary;
use dicom_codec::endian::Endianness;
use dicom_codec::header::{DataElementHeader, Length};
use dicom_codec::json::de::from_value;
use dicom_codec::json::ser::to_value;
use dicom_codec::object::{DataElement, InMemDicomObject, PixelFragmentSequence, Value};
use dicom_codec::pixeldata::{FileDicomObject, FileMetaTable, NoAdapter, PhotometricInterpretation};
use dicom_codec::registry::{HeaderCodec, TransferSyntaxRegistry};
use dicom_codec::tag::Tag;
use dicom_codec::value::PrimitiveValue;
use dicom_codec::vr::VR;
use dicom_codec::wire::FromWireError;

const LE: Endianness = Endianness::Little;
const BE: Endianness = Endianness::Big;

fn strs(items: &[&str]) -> PrimitiveValue {
    PrimitiveValue::Strs(items.iter().map(|s| s.to_string()).collect())
}

#[test]
fn values_are_read_by_their_representation() {
    assert_eq!(PrimitiveValue::from_wire(VR::CS, b"CT\\PET ", LE), Ok(strs(&["CT", "PET "])));
    assert_eq!(PrimitiveValue::from_wire(VR::CS, b"\\", LE), Ok(strs(&["", ""])));
    assert_eq!(PrimitiveValue::from_wire(VR::LO, b"A\\\\B", LE), Ok(strs(&["A", "", "B"])));
    assert_eq!(PrimitiveValue::from_wire(VR::PN, "Simões^João ".as_bytes(), LE), Ok(strs(&["Simões^João "])));
    assert_eq!(PrimitiveValue::from_wire(VR::UT, b"a\\b", LE), Ok(strs(&["a\\b"])));
    assert_eq!(PrimitiveValue::from_wire(VR::ST, b"a\\b", LE), Ok(strs(&["a\\b"])));
    assert_eq!(PrimitiveValue::from_wire(VR::UI, b"1.2\0", LE), Ok(strs(&["1.2\0"])));
    assert_eq!(PrimitiveValue::from_wire(VR::CS, &[], LE), Ok(PrimitiveValue::Empty));
    assert_eq!(PrimitiveValue::from_wire(VR::US, &[], BE), Ok(PrimitiveValue::Empty));
    assert_eq!(
        PrimitiveValue::from_wire(VR::LO, &[b'A', 0xFF], LE),
        Err(FromWireError::InvalidText)
    );
    assert_eq!(
        PrimitiveValue::from_wire(VR::LO, &[b'A', b'\\', 0xC3], LE),
        Err(FromWireError::InvalidText)
    );
    assert_eq!(PrimitiveValue::from_wire(VR::US, &[1, 2, 3, 4], LE), Ok(PrimitiveValue::U16(vec![0x0201, 0x0403])));
    assert_eq!(PrimitiveValue::from_wire(VR::OW, &[1, 2, 3, 4], BE), Ok(PrimitiveValue::U16(vec![0x0102, 0x0304])));
    assert_eq!(PrimitiveValue::from_wire(VR::SS, &[0xFE, 0xFF], LE), Ok(PrimitiveValue::I16(vec![-2])));
    assert_eq!(PrimitiveValue::from_wire(VR::SL, &[0xFF, 0xFF, 0xFF, 0xFE], BE), Ok(PrimitiveValue::I32(vec![-2])));
    assert_eq!(PrimitiveValue::from_wire(VR::UL, &[1, 0, 0, 0], LE), Ok(PrimitiveValue::U32(vec![1])));
    assert_eq!(PrimitiveValue::from_wire(VR::OL, &[0, 0, 0, 1], BE), Ok(PrimitiveValue::U32(vec![1])));
    assert_eq!(PrimitiveValue::from_wire(VR::SV, &(-2i64).to_le_bytes(), LE), Ok(PrimitiveValue::I64(vec![-2])));
    assert_eq!(PrimitiveValue::from_wire(VR::UV, &7u64.to_be_bytes(), BE), Ok(PrimitiveValue::U64(vec![7])));
    assert_eq!(PrimitiveValue::from_wire(VR::OV, &7u64.to_le_bytes(), LE), Ok(PrimitiveValue::U64(vec![7])));
    assert_eq!(
        PrimitiveValue::from_wire(VR::FL, &1.5f32.to_le_bytes(), LE),
        Ok(PrimitiveValue::F32(vec![1.5f32.to_bits()]))
    );
    assert_eq!(
        PrimitiveValue::from_wire(VR::FD, &1.5f64.to_be_bytes(), BE),
        Ok(PrimitiveValue::F64(vec![1.5f64.to_bits()]))
    );
    assert_eq!(PrimitiveValue::from_wire(VR::OF, &[0; 8], LE), Ok(PrimitiveValue::F32(vec![0, 0])));
    assert_eq!(PrimitiveValue::from_wire(VR::OD, &[0; 8], LE), Ok(PrimitiveValue::F64(vec![0])));
    assert_eq!(
        PrimitiveValue::from_wire(VR::AT, &[0x08, 0x00, 0x10, 0x00], LE),
        Ok(PrimitiveValue::Tags(vec![Tag(0x0008, 0x0010)]))
    );
    assert_eq!(PrimitiveValue::from_wire(VR::OB, &[1, 2, 3], LE), Ok(PrimitiveValue::U8(vec![1, 2, 3])));
    assert_eq!(PrimitiveValue::from_wire(VR::UN, &[1], LE), Ok(PrimitiveValue::U8(vec![1])));
    for (vr, n) in [(VR::US, 3), (VR::SS, 1), (VR::UL, 6), (VR::FL, 2), (VR::AT, 5), (VR::FD, 4), (VR::SV, 12)] {
        assert_eq!(PrimitiveValue::from_wire(vr, &vec![0; n], LE), Err(FromWireError::BadLength));
    }
    assert_eq!(PrimitiveValue::from_wire(VR::SQ, &[], LE), Err(FromWireError::NotPrimitive));
}

#[test]
fn values_read_from_bytes_are_written_as_the_same_bytes() {
    let cases: [(VR, &[u8]); 8] = [
        (VR::CS, b"CT\\PET"),
        (VR::LO, b"\\\\"),
        (VR::PN, "Simões^João ".as_bytes()),
        (VR::US, &[1, 2, 3, 4]),
        (VR::SL, &[0xFF, 0xFF, 0xFF, 0xFE]),
        (VR::UV, &[1, 2, 3, 4, 5, 6, 7, 8]),
        (VR::AT, &[0x08, 0x00, 0x10, 0x00]),
        (VR::OB, &[1, 2, 3, 4]),
    ];
    for (vr, bytes) in cases {
        for order in [LE, BE] {
            let value = PrimitiveValue::from_wire(vr, bytes, order).unwrap();
            assert_eq!(value.to_wire(order, 0x20), bytes.to_vec());
        }
    }
}

type Object = InMemDicomObject<StandardDataDictionary>;

fn image_bytes() -> Vec<u8> {
    let mut bytes = vec![];
    let mut element = |tag: (u16, u16), vr: &[u8; 2], value: &[u8]| {
        bytes.extend_from_slice(&tag.0.to_le_bytes());
        bytes.extend_from_slice(&tag.1.to_le_bytes());
        bytes.extend_from_slice(vr);
        if vr == b"OB" {
            bytes.extend_from_slice(&[0, 0]);
            bytes.extend_from_slice(&(value.len() as u32).to_le_bytes());
        } else {
            bytes.extend_from_slice(&(value.len() as u16).to_le_bytes());
        }
        bytes.extend_from_slice(value);
    };
    element((0x0028, 0x0002), b"US", &[1, 0]);
    element((0x0028, 0x0004), b"CS", b"MONOCHROME1 ");
    element((0x0028, 0x0008), b"IS", b"1 ");
    element((0x0028, 0x0010), b"US", &[2, 0]);
    element((0x0028, 0x0011), b"US", &[2, 0]);
    element((0x0028, 0x0100), b"US", &[8, 0]);
    element((0x0028, 0x0101), b"US", &[8, 0]);
    element((0x0028, 0x0102), b"US", &[7, 0]);
    element((0x0028, 0x0103), b"US", &[0, 0]);
    element((0x7FE0, 0x0010), b"OB", &[0, 1, 2, 3]);
    bytes
}

#[test]
fn from_bytes_to_pixels() {
    let bytes = image_bytes();
    let raw = read_data_set(HeaderCodec::ExplicitVRLittleEndian, &StandardDataDictionary, &bytes)
        .unwrap();
    let obj: Object = build_object(&raw, LE, &StandardDataDictionary).unwrap();
    assert_eq!(obj.len(), 10);
    assert_eq!(
        obj.get(Tag(0x0028, 0x0010)).unwrap().value(),
        &Value::Primitive(PrimitiveValue::U16(vec![2]))
    );
    assert_eq!(obj.get(Tag(0x0028, 0x0004)).unwrap().length(), Length(12));
    let file = FileDicomObject::new(
        FileMetaTable { transfer_syntax: "1.2.840.10008.1.2.1".to_string() },
        obj,
    );
    let decoded = file.decode_pixel_data(&TransferSyntaxRegistry::new(), &NoAdapter).unwrap();
    assert_eq!(decoded.data, vec![0, 1, 2, 3]);
    assert_eq!(decoded.photometric_interpretation, PhotometricInterpretation::Monochrome2);
    assert_eq!((decoded.rows, decoded.cols, decoded.number_of_frames), (2, 2, 1));

    let back = raw_data_set(file.object(), LE).unwrap();
    assert_eq!(
        write_data_set(HeaderCodec::ExplicitVRLittleEndian, &StandardDataDictionary, &back),
        Ok(bytes)
    );
    let json = to_value(file.object()).unwrap();
    let from_json: Object = from_value(&json, &StandardDataDictionary).unwrap();
    assert_eq!(&from_json, file.object());
}

#[test]
fn sequences_and_fragments_become_typed() {
    let mut bytes = vec![0x08, 0x00, 0x40, 0x11, b'S', b'Q', 0, 0, 0xFF, 0xFF, 0xFF, 0xFF];
    bytes.extend_from_slice(&[0xFE, 0xFF, 0x00, 0xE0, 0x0A, 0x00, 0x00, 0x00]);
    bytes.extend_from_slice(&[0x20, 0x00, 0x13, 0x00, b'I', b'S', 0x02, 0x00, b'1', b' ']);
    bytes.extend_from_slice(&[0xFE, 0xFF, 0xDD, 0xE0, 0, 0, 0, 0]);
    bytes.extend_from_slice(&[0xE0, 0x7F, 0x10, 0x00, b'O', b'B', 0, 0, 0xFF, 0xFF, 0xFF, 0xFF]);
    bytes.extend_from_slice(&[0xFE, 0xFF, 0x00, 0xE0, 0x04, 0x00, 0x00, 0x00, 9, 0, 0, 0]);
    bytes.extend_from_slice(&[0xFE, 0xFF, 0x00, 0xE0, 0x02, 0x00, 0x00, 0x00, 0xAA, 0xBB]);
    bytes.extend_from_slice(&[0xFE, 0xFF, 0xDD, 0xE0, 0, 0, 0, 0]);
    let raw = read_data_set(HeaderCodec::ExplicitVRLittleEndian, &StandardDataDictionary, &bytes)
        .unwrap();
    let obj: Object = build_object(&raw, LE, &StandardDataDictionary).unwrap();
    match obj.get(Tag(0x0008, 0x1140)).unwrap().value() {
        Value::Sequence(items) => {
            assert_eq!(items.len(), 1);
            assert_eq!(
                items[0].get(Tag(0x0020, 0x0013)),
                Some(&DataElement::new(
                    Tag(0x0020, 0x0013),
                    VR::IS,
                    Value::Primitive(PrimitiveValue::Str("1 ".to_string()))
                ))
            );
        }
        other => panic!("not a sequence: {:?}", other),
    }
    assert_eq!(
        obj.get(Tag(0x7FE0, 0x0010)).unwrap().value(),
        &Value::PixelSequence(PixelFragmentSequence {
            offset_table: vec![9],
            fragments: vec![vec![0xAA, 0xBB]]
        })
    );
    let back = raw_data_set(&obj, LE).unwrap();
    assert_eq!(
        back[1].value,
        RawValue::Fragments(vec![vec![9, 0, 0, 0], vec![0xAA, 0xBB]])
    );
    assert!(back[0].header.length().is_undefined());
    let written =
        write_data_set(HeaderCodec::ExplicitVRLittleEndian, &StandardDataDictionary, &back).unwrap();
    let again = read_data_set(HeaderCodec::ExplicitVRLittleEndian, &StandardDataDictionary, &written)
        .unwrap();
    assert_eq!(build_object::<StandardDataDictionary>(&again, LE, &StandardDataDictionary), Ok(obj));
}

#[test]
fn bytes_that_are_no_value_are_told() {
    let odd = vec![RawElement {
        header: DataElementHeader::new(Tag(0x0028, 0x0010), VR::US, Length(3)),
        value: RawValue::Bytes(vec![1, 2, 3]),
    }];
    assert_eq!(
        build_object::<StandardDataDictionary>(&odd, LE, &StandardDataDictionary),
        Err(BuildError { tag: Tag(0x0028, 0x0010), cause: FromWireError::BadLength })
    );
    let table = vec![RawElement {
        header: DataElementHeader::new(Tag(0x7FE0, 0x0010), VR::OB, Length::undefined()),
        value: RawValue::Fragments(vec![vec![1, 2, 3]]),
    }];
    assert_eq!(
        build_object::<StandardDataDictionary>(&table, LE, &StandardDataDictionary),
        Err(BuildError { tag: Tag(0x7FE0, 0x0010), cause: FromWireError::BadLength })
    );
    let none = vec![RawElement {
        header: DataElementHeader::new(Tag(0x7FE0, 0x0010), VR::OB, Length::undefined()),
        value: RawValue::Fragments(vec![]),
    }];
    let obj: Object = build_object(&none, LE, &StandardDataDictionary).unwrap();
    assert_eq!(
        obj.get(Tag(0x7FE0, 0x0010)).unwrap().value(),
        &Value::PixelSequence(PixelFragmentSequence { offset_table: vec![], fragments: vec![] })
    );
}

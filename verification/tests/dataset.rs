use dicom_codec::dataset::events::{events, DataEvent};
use dicom_codec::dataset::read::read_data_set;
use dicom_codec::dataset::write::{write_data_set, write_elements, write_header};
use dicom_codec::dataset::{RawElement, RawItem, RawValue, ReadError};
use dicom_codec::decode::Error as HeaderError;
use dicom_codec::dictionary::{StandardDataDictionary, StubDataDictionary};
use dicom_codec::encode::EncodeError;
use dicom_codec::header::{DataElementHeader, Length};
use dicom_codec::registry::HeaderCodec;
use dicom_codec::source::UnexpectedEnd;
use dicom_codec::tag::Tag;
use dicom_codec::vr::VR;

const ELE: HeaderCodec = HeaderCodec::ExplicitVRLittleEndian;
const EBE: HeaderCodec = HeaderCodec::ExplicitVRBigEndian;
const ILE: HeaderCodec = HeaderCodec::ImplicitVRLittleEndian;

fn read(codec: HeaderCodec, bytes: &[u8]) -> Result<Vec<RawElement>, ReadError> {
    read_data_set(codec, &StandardDataDictionary, bytes)
}

fn bytes_element(tag: Tag, vr: VR, bytes: &[u8]) -> RawElement {
    RawElement {
        header: DataElementHeader::new(tag, vr, Length(bytes.len() as u32)),
        value: RawValue::Bytes(bytes.to_vec()),
    }
}

const NUMBER: [u8; 10] = [0x20, 0x00, 0x13, 0x00, b'I', b'S', 0x02, 0x00, b'1', b' '];
const ITEM_UNDEFINED: [u8; 8] = [0xFE, 0xFF, 0x00, 0xE0, 0xFF, 0xFF, 0xFF, 0xFF];
const ITEM_OF_TEN: [u8; 8] = [0xFE, 0xFF, 0x00, 0xE0, 0x0A, 0x00, 0x00, 0x00];
const ITEM_END: [u8; 8] = [0xFE, 0xFF, 0x0D, 0xE0, 0x00, 0x00, 0x00, 0x00];
const SEQUENCE_END: [u8; 8] = [0xFE, 0xFF, 0xDD, 0xE0, 0x00, 0x00, 0x00, 0x00];

fn number() -> RawElement {
    bytes_element(Tag(0x0020, 0x0013), VR::IS, b"1 ")
}

fn name() -> Vec<u8> {
    vec![0x10, 0x00, 0x10, 0x00, b'P', b'N', 0x04, 0x00, b'A', b'B', b'^', b'C']
}

fn sequence_header(len: u32) -> Vec<u8> {
    let mut out = vec![0x08, 0x00, 0x40, 0x11, b'S', b'Q', 0x00, 0x00];
    out.extend_from_slice(&len.to_le_bytes());
    out
}

fn undefined_sequence() -> Vec<u8> {
    let mut out = sequence_header(0xFFFF_FFFF);
    out.extend_from_slice(&ITEM_UNDEFINED);
    out.extend_from_slice(&NUMBER);
    out.extend_from_slice(&ITEM_END);
    out.extend_from_slice(&ITEM_OF_TEN);
    out.extend_from_slice(&NUMBER);
    out.extend_from_slice(&SEQUENCE_END);
    out
}

fn defined_sequence() -> Vec<u8> {
    let mut out = sequence_header(44);
    out.extend_from_slice(&ITEM_UNDEFINED);
    out.extend_from_slice(&NUMBER);
    out.extend_from_slice(&ITEM_END);
    out.extend_from_slice(&ITEM_OF_TEN);
    out.extend_from_slice(&NUMBER);
    out
}

fn items() -> Vec<RawItem> {
    vec![
        RawItem { len: Length::undefined(), elements: vec![number()] },
        RawItem { len: Length(10), elements: vec![number()] },
    ]
}

#[test]
fn a_data_set_is_read_in_source_order() {
    let mut bytes = undefined_sequence();
    bytes.extend_from_slice(&name());
    let elements = read(ELE, &bytes).unwrap();
    assert_eq!(
        elements,
        vec![
            RawElement {
                header: DataElementHeader::new(Tag(0x0008, 0x1140), VR::SQ, Length::undefined()),
                value: RawValue::Items(items()),
            },
            bytes_element(Tag(0x0010, 0x0010), VR::PN, b"AB^C"),
        ]
    );
    assert_eq!(read(ELE, &[]), Ok(vec![]));
}

#[test]
fn items_are_the_same_in_either_framing() {
    let undefined = read(ELE, &undefined_sequence()).unwrap();
    let defined = read(ELE, &defined_sequence()).unwrap();
    assert_eq!(undefined.len(), 1);
    assert_eq!(defined.len(), 1);
    assert_eq!(undefined[0].value, RawValue::Items(items()));
    assert_eq!(defined[0].value, RawValue::Items(items()));
    assert_eq!(defined[0].header.length(), Length(44));
    assert!(undefined[0].header.length().is_undefined());
}

#[test]
fn bytes_are_written_back_as_they_were() {
    let mut both = undefined_sequence();
    both.extend_from_slice(&defined_sequence()[..]);
    both.extend_from_slice(&name());
    for bytes in [undefined_sequence(), defined_sequence(), name(), both, vec![]] {
        let elements = read(ELE, &bytes).unwrap();
        assert_eq!(write_data_set(ELE, &StandardDataDictionary, &elements), Ok(bytes));
    }
    let big = vec![0x00, 0x10, 0x00, 0x10, b'P', b'N', 0x00, 0x02, b'A', b'B'];
    let elements = read(EBE, &big).unwrap();
    assert_eq!(elements, vec![bytes_element(Tag(0x0010, 0x0010), VR::PN, b"AB")]);
    assert_eq!(write_data_set(EBE, &StandardDataDictionary, &elements), Ok(big));
    let implicit = vec![0x10, 0x00, 0x10, 0x00, 0x02, 0x00, 0x00, 0x00, b'A', b'B'];
    let elements = read(ILE, &implicit).unwrap();
    assert_eq!(elements, vec![bytes_element(Tag(0x0010, 0x0010), VR::PN, b"AB")]);
    assert_eq!(write_data_set(ILE, &StandardDataDictionary, &elements), Ok(implicit.clone()));
    let unknown = read_data_set(ILE, &StubDataDictionary, &implicit).unwrap();
    assert_eq!(unknown[0].header.vr(), VR::UN);
}

#[test]
fn what_is_written_is_read_back() {
    let elements = vec![
        bytes_element(Tag(0x0008, 0x0005), VR::CS, b"ISO_IR 100"),
        RawElement {
            header: DataElementHeader::new(Tag(0x0008, 0x1140), VR::SQ, Length::undefined()),
            value: RawValue::Items(vec![
                RawItem { len: Length(0), elements: vec![] },
                RawItem {
                    len: Length::undefined(),
                    elements: vec![RawElement {
                        header: DataElementHeader::new(Tag(0x0008, 0x1140), VR::SQ, Length(0)),
                        value: RawValue::Items(vec![]),
                    }],
                },
            ]),
        },
        RawElement {
            header: DataElementHeader::new(Tag(0x7FE0, 0x0010), VR::OB, Length::undefined()),
            value: RawValue::Fragments(vec![vec![], vec![1, 2, 3, 4], vec![5, 6]]),
        },
    ];
    for codec in [ELE, EBE] {
        let bytes = write_data_set(codec, &StandardDataDictionary, &elements).unwrap();
        assert_eq!(read(codec, &bytes), Ok(elements_clone(&elements)));
    }
}

fn elements_clone(elements: &[RawElement]) -> Vec<RawElement> {
    elements
        .iter()
        .map(|e| RawElement {
            header: e.header,
            value: match &e.value {
                RawValue::Bytes(b) => RawValue::Bytes(b.clone()),
                RawValue::Fragments(f) => RawValue::Fragments(f.clone()),
                RawValue::Items(items) => RawValue::Items(
                    items
                        .iter()
                        .map(|i| RawItem { len: i.len, elements: elements_clone(&i.elements) })
                        .collect(),
                ),
            },
        })
        .collect()
}

#[test]
fn encapsulated_pixel_data_holds_fragments() {
    let mut bytes = vec![0xE0, 0x7F, 0x10, 0x00, b'O', b'B', 0x00, 0x00, 0xFF, 0xFF, 0xFF, 0xFF];
    bytes.extend_from_slice(&[0xFE, 0xFF, 0x00, 0xE0, 0x00, 0x00, 0x00, 0x00]);
    bytes.extend_from_slice(&[0xFE, 0xFF, 0x00, 0xE0, 0x02, 0x00, 0x00, 0x00, 0xAA, 0xBB]);
    bytes.extend_from_slice(&SEQUENCE_END);
    let elements = read(ELE, &bytes).unwrap();
    assert_eq!(elements[0].value, RawValue::Fragments(vec![vec![], vec![0xAA, 0xBB]]));
    assert_eq!(
        events(&elements),
        vec![
            DataEvent::ElementHeader(DataElementHeader::new(
                Tag(0x7FE0, 0x0010),
                VR::OB,
                Length::undefined()
            )),
            DataEvent::PixelFragment(vec![]),
            DataEvent::PixelFragment(vec![0xAA, 0xBB]),
            DataEvent::SequenceEnd,
            DataEvent::End,
        ]
    );
}

#[test]
fn events_come_in_source_order() {
    let mut bytes = defined_sequence();
    bytes.extend_from_slice(&name());
    let elements = read(ELE, &bytes).unwrap();
    let number_header = DataElementHeader::new(Tag(0x0020, 0x0013), VR::IS, Length(2));
    assert_eq!(
        events(&elements),
        vec![
            DataEvent::ElementHeader(DataElementHeader::new(
                Tag(0x0008, 0x1140),
                VR::SQ,
                Length(44)
            )),
            DataEvent::ItemStart(Length::undefined()),
            DataEvent::ElementHeader(number_header),
            DataEvent::PrimitiveValueBytes(b"1 ".to_vec()),
            DataEvent::ItemEnd,
            DataEvent::ItemStart(Length(10)),
            DataEvent::ElementHeader(number_header),
            DataEvent::PrimitiveValueBytes(b"1 ".to_vec()),
            DataEvent::ItemEnd,
            DataEvent::SequenceEnd,
            DataEvent::ElementHeader(DataElementHeader::new(
                Tag(0x0010, 0x0010),
                VR::PN,
                Length(4)
            )),
            DataEvent::PrimitiveValueBytes(b"AB^C".to_vec()),
            DataEvent::End,
        ]
    );
    assert_eq!(events(&Vec::new()), vec![DataEvent::End]);
}

#[test]
fn undefined_length_is_for_sequences_and_encapsulated_pixel_data() {
    let text = [0x10, 0x00, 0x10, 0x00, b'U', b'T', 0x00, 0x00, 0xFF, 0xFF, 0xFF, 0xFF];
    assert_eq!(
        read(ELE, &text),
        Err(ReadError::UndefinedLengthNotAllowed { tag: Tag(0x0010, 0x0010) })
    );
    let unknown = [0x09, 0x00, 0x10, 0x00, b'U', b'N', 0x00, 0x00, 0xFF, 0xFF, 0xFF, 0xFF];
    assert_eq!(
        read(ELE, &unknown),
        Err(ReadError::UndefinedLengthNotAllowed { tag: Tag(0x0009, 0x0010) })
    );
    let words = [0xE0, 0x7F, 0x10, 0x00, b'O', b'W', 0x00, 0x00, 0xFF, 0xFF, 0xFF, 0xFF];
    assert_eq!(
        read(ELE, &words),
        Err(ReadError::UndefinedLengthNotAllowed { tag: Tag(0x7FE0, 0x0010) })
    );
    let other = [0xE0, 0x7F, 0x11, 0x00, b'O', b'B', 0x00, 0x00, 0xFF, 0xFF, 0xFF, 0xFF];
    assert_eq!(
        read(ELE, &other),
        Err(ReadError::UndefinedLengthNotAllowed { tag: Tag(0x7FE0, 0x0011) })
    );
    let implicit = [0x10, 0x00, 0x10, 0x00, 0xFF, 0xFF, 0xFF, 0xFF];
    assert_eq!(
        read(ILE, &implicit),
        Err(ReadError::UndefinedLengthNotAllowed { tag: Tag(0x0010, 0x0010) })
    );
    let mut fragment = vec![0xE0, 0x7F, 0x10, 0x00, b'O', b'B', 0x00, 0x00, 0xFF, 0xFF, 0xFF, 0xFF];
    fragment.extend_from_slice(&ITEM_UNDEFINED);
    assert_eq!(
        read(ELE, &fragment),
        Err(ReadError::UndefinedLengthNotAllowed { tag: Tag(0xFFFE, 0xE000) })
    );
}

#[test]
fn broken_framing_is_told() {
    assert_eq!(
        read(ELE, &[0x10, 0x00]),
        Err(ReadError::DecodeHeader {
            source: HeaderError::ReadHeaderTag { source: UnexpectedEnd { wanted: 4, left: 2 } }
        })
    );
    assert_eq!(
        read(ELE, &name()[..10]),
        Err(ReadError::ValueBeyondEnd { tag: Tag(0x0010, 0x0010) })
    );
    assert_eq!(read(ELE, &ITEM_END), Err(ReadError::UnexpectedTag { tag: Tag(0xFFFE, 0xE00D) }));
    assert_eq!(read(ELE, &ITEM_OF_TEN), Err(ReadError::UnexpectedTag { tag: Tag(0xFFFE, 0xE000) }));
    assert_eq!(
        read(ELE, &undefined_sequence()[..50]),
        Err(ReadError::ValueBeyondEnd { tag: Tag(0xFFFE, 0xE000) })
    );
    let mut open = sequence_header(0xFFFF_FFFF);
    assert_eq!(read(ELE, &open), Err(ReadError::MissingDelimiter));
    open.extend_from_slice(&ITEM_UNDEFINED);
    open.extend_from_slice(&NUMBER);
    assert_eq!(read(ELE, &open), Err(ReadError::MissingDelimiter));
    open.extend_from_slice(&SEQUENCE_END);
    assert_eq!(read(ELE, &open), Err(ReadError::UnexpectedTag { tag: Tag(0xFFFE, 0xE0DD) }));
    let mut closed_twice = sequence_header(8);
    closed_twice.extend_from_slice(&SEQUENCE_END);
    assert_eq!(
        read(ELE, &closed_twice),
        Err(ReadError::UnexpectedTag { tag: Tag(0xFFFE, 0xE0DD) })
    );
    let mut stray = sequence_header(0xFFFF_FFFF);
    stray.extend_from_slice(&ITEM_END);
    assert_eq!(read(ELE, &stray), Err(ReadError::UnexpectedTag { tag: Tag(0xFFFE, 0xE00D) }));
    let mut not_an_item = sequence_header(0xFFFF_FFFF);
    not_an_item.extend_from_slice(&NUMBER);
    assert!(matches!(
        read(ELE, &not_an_item),
        Err(ReadError::DecodeHeader { source: HeaderError::BadSequenceHeader { .. } })
    ));
    let mut overrun = sequence_header(12);
    overrun.extend_from_slice(&ITEM_OF_TEN);
    overrun.extend_from_slice(&NUMBER);
    assert_eq!(read(ELE, &overrun), Err(ReadError::ValueBeyondEnd { tag: Tag(0xFFFE, 0xE000) }));
    assert_eq!(
        read(ELE, &sequence_header(1)),
        Err(ReadError::ValueBeyondEnd { tag: Tag(0x0008, 0x1140) })
    );
}

#[test]
fn headers_that_cannot_be_written_fail() {
    let long = RawElement {
        header: DataElementHeader::new(Tag(0x0010, 0x0010), VR::PN, Length(0x1_0000)),
        value: RawValue::Bytes(vec![]),
    };
    assert_eq!(
        write_data_set(ELE, &StandardDataDictionary, &vec![long]),
        Err(EncodeError::LengthTooLarge { tag: Tag(0x0010, 0x0010) })
    );
    let long = RawElement {
        header: DataElementHeader::new(Tag(0x0010, 0x0010), VR::PN, Length(0x1_0000)),
        value: RawValue::Bytes(vec![]),
    };
    assert_eq!(
        write_data_set(ILE, &StandardDataDictionary, &vec![long]),
        Ok(vec![0x10, 0x00, 0x10, 0x00, 0x00, 0x00, 0x01, 0x00])
    );
}

#[test]
fn a_writing_stops_at_the_first_header_that_cannot_be_written() {
    let long = |tag: Tag| RawElement {
        header: DataElementHeader::new(tag, VR::PN, Length(0x1_0000)),
        value: RawValue::Bytes(vec![]),
    };
    let sequence = RawElement {
        header: DataElementHeader::new(Tag(0x0008, 0x1140), VR::SQ, Length::undefined()),
        value: RawValue::Items(vec![RawItem {
            len: Length::undefined(),
            elements: vec![number(), long(Tag(0x0010, 0x0020)), long(Tag(0x0010, 0x0021))],
        }]),
    };
    let elements = vec![number(), sequence, long(Tag(0x0010, 0x0010))];
    assert_eq!(
        write_data_set(ELE, &StandardDataDictionary, &elements),
        Err(EncodeError::LengthTooLarge { tag: Tag(0x0010, 0x0020) })
    );

    // what came before the stop is written, and nothing after it
    let mut out = vec![0xAA];
    assert_eq!(
        write_elements(ELE, &StandardDataDictionary, &elements, &mut out),
        Err(EncodeError::LengthTooLarge { tag: Tag(0x0010, 0x0020) })
    );
    let mut expected = vec![0xAA];
    expected.extend_from_slice(&NUMBER);
    expected.extend_from_slice(&sequence_header(0xFFFF_FFFF));
    expected.extend_from_slice(&ITEM_UNDEFINED);
    expected.extend_from_slice(&NUMBER);
    assert_eq!(out, expected);

    let mut out = vec![0xAA];
    assert_eq!(
        write_header(
            EBE,
            &StandardDataDictionary,
            &mut out,
            DataElementHeader::new(Tag(0x0010, 0x0010), VR::PN, Length(0x1_0000))
        ),
        Err(EncodeError::LengthTooLarge { tag: Tag(0x0010, 0x0010) })
    );
    assert_eq!(out, vec![0xAA]);
}

use dicom_codec::conversion::InvalidValueReadError;
use dicom_codec::dictionary::StandardDataDictionary;
use dicom_codec::header::Length;
use dicom_codec::object::{DataElement, InMemDicomObject, PixelFragmentSequence, Value};
use dicom_codec::pixeldata::{
    assemble, finish_decoding, get_integer, get_optional_text, get_text, image_info, presentation,
    DecodedPixelData, Error, FileDicomObject, FileMetaTable, GetAttributeError, ImageInfo,
    NoAdapter, PhotometricInterpretation, PixelAdapter, PixelRepresentation, PixelRequest,
    PlanarConfiguration, Presentation, VoiLutFunction, WindowLevel,
};
use dicom_codec::registry::{
    Codec, TransferSyntax, TransferSyntaxRegistry, TransferSyntaxRegistryBuilder,
};
use dicom_codec::tag::Tag;
use dicom_codec::value::PrimitiveValue;
use dicom_codec::vr::VR;

type Object = InMemDicomObject<StandardDataDictionary>;
type Element = DataElement<StandardDataDictionary>;

fn us(tag: Tag, v: u16) -> Element {
    DataElement::new(tag, VR::US, Value::Primitive(PrimitiveValue::U16(vec![v])))
}

fn text(tag: Tag, vr: VR, s: &str) -> Element {
    DataElement::new(tag, vr, Value::Primitive(PrimitiveValue::Str(s.to_string())))
}

fn image(samples: u16, interpretation: &str) -> Object {
    let mut obj = Object::new_empty_with_dict(StandardDataDictionary);
    obj.put(us(Tag(0x0028, 0x0002), samples));
    obj.put(text(Tag(0x0028, 0x0004), VR::CS, interpretation));
    obj.put(us(Tag(0x0028, 0x0010), 2));
    obj.put(us(Tag(0x0028, 0x0011), 2));
    obj.put(us(Tag(0x0028, 0x0100), 8));
    obj.put(us(Tag(0x0028, 0x0101), 8));
    obj.put(us(Tag(0x0028, 0x0102), 7));
    obj.put(us(Tag(0x0028, 0x0103), 0));
    obj
}

fn native(samples: u16, interpretation: &str, data: Vec<u8>) -> Object {
    let mut obj = image(samples, interpretation);
    obj.put(DataElement::new(
        Tag(0x7FE0, 0x0010),
        VR::OB,
        Value::Primitive(PrimitiveValue::U8(data)),
    ));
    obj
}

fn file(obj: Object, uid: &str) -> FileDicomObject<StandardDataDictionary> {
    FileDicomObject::new(FileMetaTable { transfer_syntax: uid.to_string() }, obj)
}

const EXPLICIT_LE: &str = "1.2.840.10008.1.2.1";

#[test]
fn uncompressed_pixel_data_is_copied() {
    let registry = TransferSyntaxRegistry::new();
    let obj = file(native(1, "MONOCHROME1 ", vec![0, 1, 2, 3]), EXPLICIT_LE);
    let decoded = obj.decode_pixel_data(&registry, &NoAdapter).unwrap();
    assert_eq!(
        decoded,
        DecodedPixelData {
            data: vec![0, 1, 2, 3],
            cols: 2,
            rows: 2,
            number_of_frames: 1,
            photometric_interpretation: PhotometricInterpretation::Monochrome2,
            samples_per_pixel: 1,
            planar_configuration: PlanarConfiguration::Standard,
            bits_allocated: 8,
            bits_stored: 8,
            high_bit: 7,
            pixel_representation: PixelRepresentation::Unsigned,
            rescale_intercept: None,
            rescale_slope: None,
            voi_lut_function: None,
            window: None,
        }
    );
    assert_eq!(obj.meta().transfer_syntax, EXPLICIT_LE);
    assert_eq!(obj.object().len(), 9);
}

#[test]
fn interpretation_follows_the_samples_per_pixel() {
    let registry = TransferSyntaxRegistry::new();
    let rgb = file(native(3, "YBR_FULL", vec![0; 12]), EXPLICIT_LE);
    assert_eq!(
        rgb.decode_pixel_data(&registry, &NoAdapter).unwrap().photometric_interpretation,
        PhotometricInterpretation::Rgb
    );
    let four = file(native(4, "CMYK", vec![0; 16]), "1.2.840.10008.1.2\0");
    assert_eq!(
        four.decode_pixel_data(&registry, &NoAdapter).unwrap().photometric_interpretation,
        PhotometricInterpretation::Cmyk
    );
    let palette = file(native(2, "PALETTE COLOR", vec![0; 8]), EXPLICIT_LE);
    assert_eq!(
        palette.decode_pixel_data(&registry, &NoAdapter).unwrap().photometric_interpretation,
        PhotometricInterpretation::PaletteColor
    );
    assert_eq!(PhotometricInterpretation::YbrFull422.term(), "YBR_FULL_422");
    assert_eq!(
        PhotometricInterpretation::from_term(&"YBR_RCT".to_string()),
        Some(PhotometricInterpretation::YbrRct)
    );
    assert_eq!(PhotometricInterpretation::from_term(&"rgb".to_string()), None);
}

#[test]
fn presentation_is_read_where_it_is_given() {
    let registry = TransferSyntaxRegistry::new();
    let mut obj = native(1, "MONOCHROME2", vec![0, 1, 2, 3]);
    obj.put(us(Tag(0x0028, 0x0006), 1));
    obj.put(text(Tag(0x0028, 0x0008), VR::IS, "2 "));
    obj.put(text(Tag(0x0028, 0x1050), VR::DS, "40.5 "));
    obj.put(text(Tag(0x0028, 0x1051), VR::DS, "400"));
    obj.put(text(Tag(0x0028, 0x1052), VR::DS, "-1024 "));
    obj.put(text(Tag(0x0028, 0x1053), VR::DS, "1"));
    obj.put(text(Tag(0x0028, 0x1056), VR::CS, "SIGMOID "));
    obj.put(us(Tag(0x0028, 0x0103), 1));
    let decoded = file(obj, EXPLICIT_LE).decode_pixel_data(&registry, &NoAdapter).unwrap();
    assert_eq!(decoded.planar_configuration, PlanarConfiguration::PixelFirst);
    assert_eq!(decoded.number_of_frames, 2);
    assert_eq!(decoded.pixel_representation, PixelRepresentation::Signed);
    assert_eq!(decoded.voi_lut_function, Some(VoiLutFunction::Sigmoid));
    assert_eq!(decoded.rescale_intercept, Some("-1024".to_string()));
    assert_eq!(decoded.rescale_slope, Some("1".to_string()));
    assert_eq!(
        decoded.window,
        Some(WindowLevel { center: "40.5".to_string(), width: "400".to_string() })
    );

    let mut obj = native(1, "MONOCHROME2", vec![0, 1, 2, 3]);
    obj.put(text(Tag(0x0028, 0x1050), VR::DS, "40"));
    obj.put(text(Tag(0x0028, 0x1056), VR::CS, "OTHER"));
    let decoded = file(obj, EXPLICIT_LE).decode_pixel_data(&registry, &NoAdapter).unwrap();
    assert_eq!(decoded.window, None);
    assert_eq!(decoded.voi_lut_function, None);
    assert_eq!(VoiLutFunction::from_term(&"LINEAR".to_string()), Some(VoiLutFunction::Linear));
    assert_eq!(
        VoiLutFunction::from_term(&"LINEAR_EXACT".to_string()),
        Some(VoiLutFunction::LinearExact)
    );
}

#[test]
fn words_are_written_in_little_endian() {
    let registry = TransferSyntaxRegistry::new();
    let mut obj = image(1, "MONOCHROME2");
    obj.put(DataElement::new(
        Tag(0x7FE0, 0x0010),
        VR::OW,
        Value::Primitive(PrimitiveValue::U16(vec![0x0102, 0xFFFE])),
    ));
    let decoded = file(obj, EXPLICIT_LE).decode_pixel_data(&registry, &NoAdapter).unwrap();
    assert_eq!(decoded.data, vec![0x02, 0x01, 0xFE, 0xFF]);
}

fn missing(tag: Tag) -> Error {
    Error::GetAttribute { source: GetAttributeError::MissingRequiredField { tag } }
}

#[test]
fn what_is_amiss_comes_in_order() {
    let registry = TransferSyntaxRegistry::new();
    let decode = |obj: Object, uid: &str| file(obj, uid).decode_pixel_data(&registry, &NoAdapter);

    assert_eq!(decode(image(1, "MONOCHROME2"), EXPLICIT_LE), Err(missing(Tag(0x7FE0, 0x0010))));
    let mut obj = native(1, "MONOCHROME2", vec![0]);
    obj.remove(Tag(0x0028, 0x0011));
    assert_eq!(decode(obj, "9.9"), Err(missing(Tag(0x0028, 0x0011))));
    let mut obj = native(1, "MONOCHROME2", vec![0]);
    obj.remove(Tag(0x0028, 0x0010));
    obj.remove(Tag(0x0028, 0x0004));
    assert_eq!(decode(obj, EXPLICIT_LE), Err(missing(Tag(0x0028, 0x0010))));
    let mut obj = native(1, "MONOCHROME2", vec![0]);
    obj.remove(Tag(0x0028, 0x0004));
    assert_eq!(decode(obj, EXPLICIT_LE), Err(missing(Tag(0x0028, 0x0004))));
    assert_eq!(
        decode(native(1, "MONOCHROME3", vec![0]), "9.9"),
        Err(Error::UnsupportedPhotometricInterpretation)
    );
    assert_eq!(decode(native(1, "MONOCHROME2", vec![0]), "9.9"), Err(Error::UnknownTransferSyntax));
    for tag in [Tag(0x0028, 0x0002), Tag(0x0028, 0x0100), Tag(0x0028, 0x0101), Tag(0x0028, 0x0102), Tag(0x0028, 0x0103)] {
        let mut obj = native(1, "MONOCHROME2", vec![0]);
        obj.remove(tag);
        assert_eq!(decode(obj, EXPLICIT_LE), Err(missing(tag)));
    }
    let mut obj = native(1, "MONOCHROME2", vec![0]);
    obj.put(us(Tag(0x0028, 0x0103), 2));
    assert_eq!(
        decode(obj, EXPLICIT_LE),
        Err(Error::GetAttribute {
            source: GetAttributeError::CastValue {
                tag: Tag(0x0028, 0x0103),
                cause: InvalidValueReadError::NarrowConvert
            }
        })
    );
    let mut obj = native(1, "MONOCHROME2", vec![0]);
    obj.put(text(Tag(0x0028, 0x0010), VR::US, "two"));
    assert_eq!(
        decode(obj, EXPLICIT_LE),
        Err(Error::GetAttribute {
            source: GetAttributeError::CastValue {
                tag: Tag(0x0028, 0x0010),
                cause: InvalidValueReadError::ParseInteger
            }
        })
    );
    let mut obj = native(1, "MONOCHROME2", vec![0]);
    obj.put(text(Tag(0x0028, 0x0008), VR::IS, "-1"));
    assert!(matches!(decode(obj, EXPLICIT_LE), Err(Error::GetAttribute { .. })));
    let mut obj = native(1, "MONOCHROME2", vec![0]);
    obj.put(us(Tag(0x0028, 0x1051), 7));
    obj.put(text(Tag(0x0028, 0x1050), VR::DS, "1"));
    assert_eq!(
        decode(obj, EXPLICIT_LE),
        Err(Error::GetAttribute {
            source: GetAttributeError::CastValue {
                tag: Tag(0x0028, 0x1051),
                cause: InvalidValueReadError::NonPrimitiveType
            }
        })
    );

    let mut obj = image(1, "MONOCHROME2");
    obj.put(DataElement::new(Tag(0x7FE0, 0x0010), VR::SQ, Value::Sequence(vec![])));
    assert_eq!(decode(obj, EXPLICIT_LE), Err(Error::InvalidPixelData));
    let mut obj = image(1, "MONOCHROME2");
    obj.put(text(Tag(0x7FE0, 0x0010), VR::OB, "pixels"));
    assert_eq!(decode(obj, EXPLICIT_LE), Err(Error::InvalidPixelData));
}

fn encapsulated(fragments: Vec<Vec<u8>>) -> Object {
    let mut obj = image(3, "YBR_FULL_422");
    obj.put(DataElement::new_with_len(
        Tag(0x7FE0, 0x0010),
        VR::OB,
        Length::undefined(),
        Value::PixelSequence(PixelFragmentSequence { offset_table: vec![], fragments }),
    ));
    obj
}

/// An adapter that joins the fragments and says what it was asked.
struct Joining;

impl PixelAdapter for Joining {
    fn decode_frames(
        &self,
        fragments: &Vec<Vec<u8>>,
        multi_frame: bool,
        image: &ImageInfo,
        transfer_syntax: &str,
    ) -> Result<Vec<u8>, String> {
        if fragments[0].is_empty() {
            return Err(format!("{} {} {}", transfer_syntax, multi_frame, image.cols));
        }
        Ok(fragments.concat())
    }
}

#[test]
fn encapsulated_pixel_data_goes_through_the_adapter() {
    let mut builder = TransferSyntaxRegistryBuilder::new();
    builder.register(TransferSyntax::new_ele(
        "1.2.3.4",
        "Joined",
        Codec::PixelAdapter { decode: true, encode: false },
    ));
    let registry = builder.build();

    let obj = file(encapsulated(vec![vec![1, 2], vec![3]]), "1.2.3.4");
    let decoded = obj.decode_pixel_data(&registry, &Joining).unwrap();
    assert_eq!(decoded.data, vec![1, 2, 3]);
    assert_eq!(decoded.photometric_interpretation, PhotometricInterpretation::Rgb);
    assert_eq!(decoded.planar_configuration, PlanarConfiguration::Standard);
    assert_eq!(decoded.samples_per_pixel, 3);

    let obj = file(encapsulated(vec![vec![], vec![3]]), "1.2.3.4");
    assert_eq!(
        obj.decode_pixel_data(&registry, &Joining),
        Err(Error::DecodePixelData { message: "1.2.3.4 true 2".to_string() })
    );
    let obj = file(encapsulated(vec![vec![]]), "1.2.3.4");
    assert_eq!(
        obj.decode_pixel_data(&registry, &Joining),
        Err(Error::DecodePixelData { message: "1.2.3.4 false 2".to_string() })
    );
    let obj = file(encapsulated(vec![vec![1]]), "1.2.3.4");
    assert_eq!(
        obj.decode_pixel_data(&registry, &NoAdapter),
        Err(Error::DecodePixelData { message: "no adapter is registered".to_string() })
    );

    let obj = file(encapsulated(vec![]), "1.2.3.4");
    assert_eq!(obj.decode_pixel_data(&registry, &Joining), Err(Error::InvalidPixelData));
    let obj = file(encapsulated(vec![vec![1]]), "1.2.840.10008.1.2.4.50");
    assert_eq!(obj.decode_pixel_data(&registry, &Joining), Err(Error::UnsupportedTransferSyntax));
    let obj = file(encapsulated(vec![vec![1]]), EXPLICIT_LE);
    assert_eq!(obj.decode_pixel_data(&registry, &Joining), Err(Error::UnsupportedTransferSyntax));

    let mut broken = encapsulated(vec![vec![1]]);
    broken.put(us(Tag(0x0028, 0x1050), 1));
    assert!(matches!(
        file(broken, "1.2.3.4").decode_pixel_data(&registry, &Joining),
        Err(Error::GetAttribute { .. })
    ));
}

#[test]
fn parts_of_the_pipeline() {
    let obj = native(1, "MONOCHROME2", vec![0]);
    assert_eq!(get_integer(&obj, Tag(0x0028, 0x0010), 0, 0xFFFF), Ok(2));
    assert_eq!(
        get_integer(&obj, Tag(0x0028, 0x0010), 0, 1),
        Err(GetAttributeError::CastValue {
            tag: Tag(0x0028, 0x0010),
            cause: InvalidValueReadError::NarrowConvert
        })
    );
    assert_eq!(get_text(&obj, Tag(0x0028, 0x0004)), Ok("MONOCHROME2".to_string()));
    assert_eq!(get_optional_text(&obj, Tag(0x0028, 0x1050)), Ok(None));
    assert_eq!(
        get_text(&obj, Tag(0x0028, 0x1050)),
        Err(GetAttributeError::MissingRequiredField { tag: Tag(0x0028, 0x1050) })
    );
    let info = image_info(&obj, EXPLICIT_LE, &TransferSyntaxRegistry::new()).unwrap();
    assert_eq!(info.cols, 2);
    assert_eq!(info.bits_allocated, 8);
    assert_eq!(info.number_of_frames, 1);
    let shown = presentation(&obj).unwrap();
    assert_eq!(shown, Presentation { rescale_intercept: None, rescale_slope: None, window: None });
    let decoded = assemble(info, vec![9], PlanarConfiguration::PixelFirst, shown.clone());
    assert_eq!(decoded.data, vec![9]);
    assert_eq!(decoded.planar_configuration, PlanarConfiguration::PixelFirst);
    assert_eq!(
        finish_decoding(info, Err("broken".to_string()), Ok(shown.clone())),
        Err(Error::DecodePixelData { message: "broken".to_string() })
    );
    assert_eq!(
        finish_decoding(
            info,
            Ok(vec![1]),
            Err(GetAttributeError::MissingRequiredField { tag: Tag(1, 2) })
        ),
        Err(missing(Tag(1, 2)))
    );
    assert_eq!(finish_decoding(info, Ok(vec![1]), Ok(shown)).unwrap().data, vec![1]);
}

#[test]
fn requests_say_what_the_adapter_is_handed() {
    let mut builder = TransferSyntaxRegistryBuilder::new();
    builder.register(TransferSyntax::new_ele(
        "1.2.3.4",
        "Joined",
        Codec::PixelAdapter { decode: true, encode: false },
    ));
    let registry = builder.build();

    let obj = file(encapsulated(vec![vec![1, 2], vec![3]]), "1.2.3.4");
    match obj.pixel_request(&registry) {
        Ok(PixelRequest::Encapsulated { image, fragments, multi_frame, transfer_syntax }) => {
            assert_eq!(fragments, &vec![vec![1, 2], vec![3]]);
            assert!(multi_frame);
            assert_eq!(transfer_syntax, "1.2.3.4");
            assert_eq!(image.cols, 2);
            assert_eq!(image.rows, 2);
            assert_eq!(image.samples_per_pixel, 3);
            assert_eq!(image.photometric_interpretation, PhotometricInterpretation::YbrFull422);
        }
        other => panic!("{:?}", other),
    }
    let obj = file(encapsulated(vec![vec![7]]), "1.2.3.4");
    match obj.pixel_request(&registry) {
        Ok(PixelRequest::Encapsulated { fragments, multi_frame, .. }) => {
            assert_eq!(fragments, &vec![vec![7]]);
            assert!(!multi_frame);
        }
        other => panic!("{:?}", other),
    }
    let obj = file(native(1, "MONOCHROME2", vec![1, 2, 3, 4]), EXPLICIT_LE);
    match obj.pixel_request(&registry) {
        Ok(PixelRequest::Native { image, data }) => {
            assert_eq!(data, vec![1, 2, 3, 4]);
            assert_eq!(image.samples_per_pixel, 1);
        }
        other => panic!("{:?}", other),
    }
    let obj = file(encapsulated(vec![]), "1.2.3.4");
    assert!(matches!(obj.pixel_request(&registry), Err(Error::InvalidPixelData)));
    let obj = file(encapsulated(vec![vec![1]]), EXPLICIT_LE);
    assert!(matches!(obj.pixel_request(&registry), Err(Error::UnsupportedTransferSyntax)));
    let obj = file(encapsulated(vec![vec![1]]), "9.9.9");
    assert!(matches!(obj.pixel_request(&registry), Err(Error::UnknownTransferSyntax)));
}

#[test]
fn decoded_pixel_data_has_the_columns_and_rows_of_the_image() {
    let mut obj = native(1, "MONOCHROME2", vec![0; 6]);
    obj.put(us(Tag(0x0028, 0x0010), 3));
    obj.put(us(Tag(0x0028, 0x0011), 0xFFFF));
    let decoded =
        file(obj, EXPLICIT_LE).decode_pixel_data(&TransferSyntaxRegistry::new(), &NoAdapter).unwrap();
    assert_eq!(decoded.rows, 3);
    assert_eq!(decoded.cols, 0xFFFF);
    let info = ImageInfo {
        cols: 640,
        rows: 480,
        number_of_frames: 1,
        photometric_interpretation: PhotometricInterpretation::Monochrome1,
        samples_per_pixel: 1,
        bits_allocated: 8,
        bits_stored: 8,
        high_bit: 7,
        pixel_representation: PixelRepresentation::Unsigned,
        voi_lut_function: None,
    };
    let shown = Presentation { rescale_intercept: None, rescale_slope: None, window: None };
    let decoded = assemble(info, vec![], PlanarConfiguration::Standard, shown);
    assert_eq!((decoded.cols, decoded.rows), (640, 480));
    assert_eq!(decoded.photometric_interpretation, PhotometricInterpretation::Monochrome2);
}

use dicom_codec::decode::basic::{
    BasicDecode, BasicDecoder, BigEndianBasicDecoder, LittleEndianBasicDecoder,
};
use dicom_codec::decode::explicit_be::ExplicitVRBigEndianDecoder;
use dicom_codec::decode::explicit_le::ExplicitVRLittleEndianDecoder;
use dicom_codec::decode::implicit_le::{
    ImplicitVRLittleEndianDecoder, StubImplicitVRLittleEndianDecoder,
};
use dicom_codec::decode::{default_reader, file_header_decoder, next_step, Decode, Error, Step};
use dicom_codec::dictionary::StandardDataDictionary;
use dicom_codec::encode::{
    encode_explicit_header, encode_implicit_header, encode_item_header, EncodeError,
};
use dicom_codec::endian::Endianness;
use dicom_codec::header::{DataElementHeader, Length, SequenceItemHeader, SequenceItemHeaderError};
use dicom_codec::source::{ByteSource, UnexpectedEnd};
use dicom_codec::tag::Tag;
use dicom_codec::vr::VR;

#[test]
fn explicit_le_short_form() {
    let bytes = [0x10, 0x00, 0x10, 0x00, 0x50, 0x4E, 0x0C, 0x00, 0x41, 0x42];
    let mut source = ByteSource::new(&bytes);
    let (header, read) = file_header_decoder().decode_header(&mut source).unwrap();
    assert_eq!(header, DataElementHeader::new(Tag(0x0010, 0x0010), VR::PN, Length(12)));
    assert_eq!(read, 8);
    assert_eq!(source.position(), 8);
    assert_eq!(source.remaining(), 2);
}

#[test]
fn explicit_le_long_form() {
    let bytes = [0xE0, 0x7F, 0x10, 0x00, 0x4F, 0x42, 0x00, 0x00, 0xFF, 0xFF, 0xFF, 0xFF];
    let mut source = ByteSource::new(&bytes);
    let (header, read) =
        ExplicitVRLittleEndianDecoder::default().decode_header(&mut source).unwrap();
    assert_eq!(header.tag(), Tag(0x7FE0, 0x0010));
    assert_eq!(header.vr(), VR::OB);
    assert!(header.length().is_undefined());
    assert_eq!(header.length(), Length::undefined());
    assert!(header.is_encapsulated_pixel_data());
    assert_eq!(read, 12);
    assert_eq!(source.remaining(), 0);
}

#[test]
fn item_header_in_explicit_syntaxes() {
    let bytes = [0xFE, 0xFF, 0x00, 0xE0, 0x08, 0x00, 0x00, 0x00];
    let mut source = ByteSource::new(&bytes);
    let item = ExplicitVRLittleEndianDecoder::default().decode_item_header(&mut source).unwrap();
    assert_eq!(item.tag(), Tag(0xFFFE, 0xE000));
    assert_eq!(item.length(), Length(8));
    assert!(item.is_item());
    assert_eq!(item, SequenceItemHeader::new(Tag(0xFFFE, 0xE000), Length(8)).unwrap());

    let bytes = [0xFF, 0xFE, 0xE0, 0x00, 0x00, 0x00, 0x00, 0x08];
    let mut source = ByteSource::new(&bytes);
    let item = ExplicitVRBigEndianDecoder::default().decode_item_header(&mut source).unwrap();
    assert_eq!(item.tag(), Tag(0xFFFE, 0xE000));
    assert_eq!(item.length(), Length(8));
    assert_eq!(source.position(), 8);
}

#[test]
fn delimiters_are_headers_with_un() {
    let bytes = [0xFE, 0xFF, 0xDD, 0xE0, 0x00, 0x00, 0x00, 0x00];
    let mut source = ByteSource::new(&bytes);
    let (header, read) = file_header_decoder().decode_header(&mut source).unwrap();
    assert_eq!(header, DataElementHeader::new(Tag(0xFFFE, 0xE0DD), VR::UN, Length(0)));
    assert!(header.is_sequence_delimiter());
    assert_eq!(read, 8);
}

#[test]
fn explicit_be_reads_each_half_big_endian() {
    let bytes = [0x00, 0x28, 0x00, 0x10, 0x55, 0x53, 0x00, 0x02, 0x02, 0x00];
    let mut source = ByteSource::new(&bytes);
    let decoder = ExplicitVRBigEndianDecoder::default();
    let (header, read) = decoder.decode_header(&mut source).unwrap();
    assert_eq!(header, DataElementHeader::new(Tag(0x0028, 0x0010), VR::US, Length(2)));
    assert_eq!(read, 8);
    let bytes = [0x7F, 0xE0, 0x00, 0x10, 0x4F, 0x57, 0x00, 0x00, 0x00, 0x01, 0x02, 0x03];
    let mut source = ByteSource::new(&bytes);
    let (header, read) = decoder.decode_header(&mut source).unwrap();
    assert_eq!(header, DataElementHeader::new(Tag(0x7FE0, 0x0010), VR::OW, Length(0x0001_0203)));
    assert_eq!(read, 12);
}

#[test]
fn implicit_reads_eight_bytes_and_asks_the_dictionary() {
    let bytes = [0x28, 0x00, 0x10, 0x00, 0x02, 0x00, 0x00, 0x00, 0x00, 0x02];
    let mut source = ByteSource::new(&bytes);
    let (header, read) = default_reader().decode_header(&mut source).unwrap();
    assert_eq!(header, DataElementHeader::new(Tag(0x0028, 0x0010), VR::US, Length(2)));
    assert_eq!(read, 8);

    let mut source = ByteSource::new(&bytes);
    let (header, _) =
        StubImplicitVRLittleEndianDecoder::default().decode_header(&mut source).unwrap();
    assert_eq!(header.vr(), VR::UN);

    let delimiter = [0xFE, 0xFF, 0x0D, 0xE0, 0x00, 0x00, 0x00, 0x00];
    let mut source = ByteSource::new(&delimiter);
    let decoder = ImplicitVRLittleEndianDecoder::with_dict(StandardDataDictionary);
    let (header, read) = decoder.decode_header(&mut source).unwrap();
    assert_eq!(header, DataElementHeader::new(Tag(0xFFFE, 0xE00D), VR::UN, Length(0)));
    assert!(header.is_item_delimiter());
    assert_eq!(read, 8);
}

#[test]
fn unknown_vr_letters_stand_for_un() {
    let bytes = [0x09, 0x00, 0x02, 0x10, 0x5A, 0x5A, 0x00, 0x00, 0x04, 0x00, 0x00, 0x00];
    let mut source = ByteSource::new(&bytes);
    let (header, read) = file_header_decoder().decode_header(&mut source).unwrap();
    assert_eq!(header, DataElementHeader::new(Tag(0x0009, 0x1002), VR::UN, Length(4)));
    assert_eq!(read, 12);
}

#[test]
fn sv_has_a_short_length_field() {
    let bytes = [0x09, 0x00, 0x02, 0x10, 0x53, 0x56, 0x08, 0x00];
    let mut source = ByteSource::new(&bytes);
    let (header, read) = file_header_decoder().decode_header(&mut source).unwrap();
    assert_eq!(header, DataElementHeader::new(Tag(0x0009, 0x1002), VR::SV, Length(8)));
    assert_eq!(read, 8);
}

fn failure(bytes: &[u8]) -> Error {
    let mut source = ByteSource::new(bytes);
    let error = file_header_decoder().decode_header(&mut source).unwrap_err();
    assert_eq!(source.position(), 0);
    error
}

#[test]
fn each_field_that_runs_out_has_its_error() {
    assert_eq!(
        failure(&[0x10, 0x00, 0x10]),
        Error::ReadHeaderTag { source: UnexpectedEnd { wanted: 4, left: 3 } }
    );
    assert_eq!(
        failure(&[0x10, 0x00, 0x10, 0x00, 0x50]),
        Error::ReadVr { source: UnexpectedEnd { wanted: 2, left: 1 } }
    );
    assert_eq!(
        failure(&[0x10, 0x00, 0x10, 0x00, 0x50, 0x4E, 0x0C]),
        Error::ReadLength { source: UnexpectedEnd { wanted: 2, left: 1 } }
    );
    assert_eq!(
        failure(&[0xE0, 0x7F, 0x10, 0x00, 0x4F, 0x42, 0x00]),
        Error::ReadReserved { source: UnexpectedEnd { wanted: 2, left: 1 } }
    );
    assert_eq!(
        failure(&[0xE0, 0x7F, 0x10, 0x00, 0x4F, 0x42, 0x00, 0x00, 0xFF, 0xFF]),
        Error::ReadLength { source: UnexpectedEnd { wanted: 4, left: 2 } }
    );
    assert_eq!(
        failure(&[0xFE, 0xFF, 0x00, 0xE0, 0x08, 0x00]),
        Error::ReadItemLength { source: UnexpectedEnd { wanted: 4, left: 2 } }
    );

    let short = [0xFE, 0xFF, 0x00, 0xE0, 0x08, 0x00, 0x00];
    let mut source = ByteSource::new(&short);
    assert_eq!(
        file_header_decoder().decode_item_header(&mut source),
        Err(Error::ReadItemHeader { source: UnexpectedEnd { wanted: 8, left: 7 } })
    );
    let mut source = ByteSource::new(&short[..3]);
    assert_eq!(
        file_header_decoder().decode_tag(&mut source),
        Err(Error::ReadTag { source: UnexpectedEnd { wanted: 4, left: 3 } })
    );
    let mut source = ByteSource::new(&short);
    assert_eq!(file_header_decoder().decode_tag(&mut source), Ok(Tag(0xFFFE, 0xE000)));
    assert_eq!(source.position(), 4);

    let element = [0x10, 0x00, 0x10, 0x00, 0x50, 0x4E, 0x0C, 0x00];
    let mut source = ByteSource::new(&element);
    assert_eq!(
        file_header_decoder().decode_item_header(&mut source),
        Err(Error::BadSequenceHeader {
            source: SequenceItemHeaderError::UnexpectedTag { tag: Tag(0x0010, 0x0010) }
        })
    );
    assert_eq!(source.position(), 0);

    let mut source = ByteSource::new(&element[..6]);
    assert_eq!(
        default_reader().decode_header(&mut source),
        Err(Error::ReadLength { source: UnexpectedEnd { wanted: 4, left: 2 } })
    );
}

#[test]
fn sequence_item_header_takes_only_framing_tags() {
    assert!(SequenceItemHeader::new(Tag(0xFFFE, 0xE000), Length(4)).is_ok());
    assert!(SequenceItemHeader::new(Tag(0xFFFE, 0xE00D), Length(0)).unwrap().is_item_delimiter());
    assert!(SequenceItemHeader::new(Tag(0xFFFE, 0xE0DD), Length(0))
        .unwrap()
        .is_sequence_delimiter());
    assert_eq!(
        SequenceItemHeader::new(Tag(0xFFFE, 0xE001), Length(0)),
        Err(SequenceItemHeaderError::UnexpectedTag { tag: Tag(0xFFFE, 0xE001) })
    );
}

#[test]
fn headers_are_read_back_from_their_bytes() {
    let headers = [
        DataElementHeader::new(Tag(0x0010, 0x0010), VR::PN, Length(12)),
        DataElementHeader::new(Tag(0x7FE0, 0x0010), VR::OB, Length::undefined()),
        DataElementHeader::new(Tag(0x0008, 0x1140), VR::SQ, Length(0x0102_0304)),
        DataElementHeader::new(Tag(0xFFFE, 0xE000), VR::UN, Length(8)),
        DataElementHeader::new(Tag(0x0028, 0x0010), VR::US, Length(0xFFFF)),
    ];
    for order in [Endianness::Little, Endianness::Big] {
        for h in headers {
            let mut out = vec![0xAA];
            let written = encode_explicit_header(order, &mut out, h).unwrap();
            assert_eq!(out.len(), 1 + written);
            out.push(0x55);
            let mut source = ByteSource::new(&out[1..]);
            let read = match order {
                Endianness::Little => {
                    ExplicitVRLittleEndianDecoder::default().decode_header(&mut source)
                }
                Endianness::Big => ExplicitVRBigEndianDecoder::default().decode_header(&mut source),
            };
            assert_eq!(read, Ok((h, written)));
        }
    }
    let mut out = Vec::new();
    let h = DataElementHeader::new(Tag(0x0028, 0x0011), VR::US, Length(2));
    assert_eq!(encode_implicit_header(&mut out, h), 8);
    assert_eq!(out, vec![0x28, 0x00, 0x11, 0x00, 0x02, 0x00, 0x00, 0x00]);
    let mut source = ByteSource::new(&out);
    assert_eq!(default_reader().decode_header(&mut source), Ok((h, 8)));

    let mut out = Vec::new();
    assert_eq!(encode_item_header(Endianness::Big, &mut out, Tag(0xFFFE, 0xE000), Length(8)), 8);
    assert_eq!(out, vec![0xFF, 0xFE, 0xE0, 0x00, 0x00, 0x00, 0x00, 0x08]);
}

#[test]
fn explicit_bytes_are_exact() {
    let mut out = Vec::new();
    let h = DataElementHeader::new(Tag(0x0010, 0x0010), VR::PN, Length(12));
    assert_eq!(encode_explicit_header(Endianness::Little, &mut out, h), Ok(8));
    assert_eq!(out, vec![0x10, 0x00, 0x10, 0x00, 0x50, 0x4E, 0x0C, 0x00]);
    let mut out = Vec::new();
    let h = DataElementHeader::new(Tag(0x7FE0, 0x0010), VR::OB, Length::undefined());
    assert_eq!(encode_explicit_header(Endianness::Little, &mut out, h), Ok(12));
    assert_eq!(
        out,
        vec![0xE0, 0x7F, 0x10, 0x00, 0x4F, 0x42, 0x00, 0x00, 0xFF, 0xFF, 0xFF, 0xFF]
    );
}

#[test]
fn a_short_length_field_refuses_long_lengths() {
    let mut out = vec![1, 2];
    let h = DataElementHeader::new(Tag(0x0010, 0x0010), VR::PN, Length(0x1_0000));
    assert_eq!(
        encode_explicit_header(Endianness::Little, &mut out, h),
        Err(EncodeError::LengthTooLarge { tag: Tag(0x0010, 0x0010) })
    );
    assert_eq!(out, vec![1, 2]);
}

#[test]
fn basic_decoders_read_numbers_in_their_order() {
    let bytes = [0x01, 0x02, 0x03, 0x04, 0x05, 0x06, 0x07, 0x08];
    let le = LittleEndianBasicDecoder;
    let be = BigEndianBasicDecoder;
    assert_eq!(le.endianness(), Endianness::Little);
    assert_eq!(be.endianness(), Endianness::Big);
    assert_eq!(le.decode_us(&mut ByteSource::new(&bytes)), Ok(0x0201));
    assert_eq!(be.decode_us(&mut ByteSource::new(&bytes)), Ok(0x0102));
    assert_eq!(le.decode_ul(&mut ByteSource::new(&bytes)), Ok(0x0403_0201));
    assert_eq!(be.decode_ul(&mut ByteSource::new(&bytes)), Ok(0x0102_0304));
    assert_eq!(le.decode_uv(&mut ByteSource::new(&bytes)), Ok(0x0807_0605_0403_0201));
    assert_eq!(be.decode_uv(&mut ByteSource::new(&bytes)), Ok(0x0102_0304_0506_0708));
    assert_eq!(le.decode_tag(&mut ByteSource::new(&bytes)), Ok(Tag(0x0201, 0x0403)));
    assert_eq!(be.decode_tag(&mut ByteSource::new(&bytes)), Ok(Tag(0x0102, 0x0304)));

    let negative = [0xFE, 0xFF, 0xFF, 0xFF, 0xFF, 0xFF, 0xFF, 0xFF];
    assert_eq!(le.decode_ss(&mut ByteSource::new(&negative)), Ok(-2));
    assert_eq!(le.decode_sl(&mut ByteSource::new(&negative)), Ok(-2));
    assert_eq!(le.decode_sv(&mut ByteSource::new(&negative)), Ok(-2));
    assert_eq!(be.decode_ss(&mut ByteSource::new(&negative)), Ok(-257));
    assert_eq!(be.decode_sl(&mut ByteSource::new(&[0x80, 0, 0, 0])), Ok(i32::MIN));
    assert_eq!(be.decode_sv(&mut ByteSource::new(&[0x80, 0, 0, 0, 0, 0, 0, 0])), Ok(i64::MIN));

    let one = 1.0f32.to_le_bytes();
    assert_eq!(le.decode_fl(&mut ByteSource::new(&one)).map(f32::from_bits), Ok(1.0));
    let half = 0.5f64.to_be_bytes();
    assert_eq!(be.decode_fd(&mut ByteSource::new(&half)).map(f64::from_bits), Ok(0.5));

    let runtime = BasicDecoder::new(Endianness::Big);
    assert_eq!(runtime.endianness(), Endianness::Big);
    assert_eq!(runtime.decode_us(&mut ByteSource::new(&bytes)), Ok(0x0102));
    let boxed = Box::new(le);
    assert_eq!(boxed.decode_us(&mut ByteSource::new(&bytes)), Ok(0x0201));
    assert_eq!((&be).decode_us(&mut ByteSource::new(&bytes)), Ok(0x0102));
}

#[test]
fn a_short_source_fails_and_stays() {
    let bytes = [0x01];
    let mut source = ByteSource::new(&bytes);
    assert_eq!(
        LittleEndianBasicDecoder.decode_us(&mut source),
        Err(UnexpectedEnd { wanted: 2, left: 1 })
    );
    assert_eq!(source.position(), 0);
    let bytes = [0x01, 0x02, 0x03];
    let mut source = ByteSource::new(&bytes);
    assert_eq!(
        LittleEndianBasicDecoder.decode_tag(&mut source),
        Err(UnexpectedEnd { wanted: 2, left: 1 })
    );
    assert_eq!(source.position(), 2);
    let mut source = ByteSource::new(&bytes[..2]);
    assert_eq!(
        BigEndianBasicDecoder.decode_tag(&mut source),
        Err(UnexpectedEnd { wanted: 2, left: 0 })
    );
    assert_eq!(source.position(), 2);
    let mut source = ByteSource::new(&bytes[..1]);
    assert_eq!(
        BigEndianBasicDecoder.decode_tag(&mut source),
        Err(UnexpectedEnd { wanted: 2, left: 1 })
    );
    assert_eq!(source.position(), 0);
    let mut source = ByteSource::new(&[]);
    assert_eq!(
        LittleEndianBasicDecoder.decode_tag(&mut source),
        Err(UnexpectedEnd { wanted: 2, left: 0 })
    );
}

#[test]
fn bulk_reads_fill_in_order() {
    let bytes = [0x01, 0x00, 0x02, 0x00, 0x03, 0x00, 0x04];
    let le = LittleEndianBasicDecoder;
    let mut source = ByteSource::new(&bytes);
    let mut dst = [9u16; 3];
    assert_eq!(le.decode_us_into(&mut source, &mut dst), Ok(()));
    assert_eq!(dst, [1, 2, 3]);
    assert_eq!(source.position(), 6);

    let mut source = ByteSource::new(&bytes);
    let mut dst = [9u16; 5];
    assert_eq!(
        le.decode_us_into(&mut source, &mut dst),
        Err(UnexpectedEnd { wanted: 2, left: 1 })
    );
    assert_eq!(dst, [1, 2, 3, 9, 9]);
    assert_eq!(source.position(), 6);

    let be = BigEndianBasicDecoder;
    let mut source = ByteSource::new(&bytes);
    let mut dst = [0i16; 2];
    assert_eq!(be.decode_ss_into(&mut source, &mut dst), Ok(()));
    assert_eq!(dst, [0x0100, 0x0200]);
    let mut source = ByteSource::new(&bytes);
    let mut dst = [0u32; 1];
    assert_eq!(be.decode_ul_into(&mut source, &mut dst), Ok(()));
    assert_eq!(dst, [0x0100_0200]);
    let mut source = ByteSource::new(&bytes);
    let mut dst = [0i32; 1];
    assert_eq!(le.decode_sl_into(&mut source, &mut dst), Ok(()));
    assert_eq!(dst, [0x0002_0001]);
    let mut source = ByteSource::new(&bytes);
    let mut dst = [7u64; 1];
    assert_eq!(
        le.decode_uv_into(&mut source, &mut dst),
        Err(UnexpectedEnd { wanted: 8, left: 7 })
    );
    assert_eq!(dst, [7]);
    assert_eq!(source.position(), 0);
    let mut dst = [7u32; 3];
    assert_eq!(
        le.decode_ul_into(&mut source, &mut dst),
        Err(UnexpectedEnd { wanted: 4, left: 3 })
    );
    assert_eq!(dst, [0x0002_0001, 7, 7]);
    assert_eq!(source.position(), 4);
    let mut dst = [7i64; 0];
    assert_eq!(le.decode_sv_into(&mut source, &mut dst), Ok(()));
    let mut source = ByteSource::new(&bytes);
    let mut dst = [0u32; 1];
    assert_eq!(le.decode_fl_into(&mut source, &mut dst), Ok(()));
    assert_eq!(dst, [0x0002_0001]);
    let mut dst = [0u64; 1];
    assert_eq!(
        le.decode_fd_into(&mut source, &mut dst),
        Err(UnexpectedEnd { wanted: 8, left: 3 })
    );
}

#[test]
fn a_reader_is_told_what_to_fetch() {
    let end = |wanted, left| UnexpectedEnd { wanted, left };
    assert_eq!(Error::ReadHeaderTag { source: end(4, 0) }.missing(), 4);
    assert_eq!(Error::ReadVr { source: end(2, 1) }.missing(), 1);
    assert_eq!(Error::ReadLength { source: end(4, 4) }.missing(), 0);
    assert_eq!(
        Error::BadSequenceHeader {
            source: SequenceItemHeaderError::UnexpectedTag { tag: Tag(1, 2) }
        }
        .missing(),
        0
    );
    assert_eq!(next_step(Ok::<u8, Error>(7)), Step::Done(7));
    assert_eq!(
        next_step(Err::<u8, Error>(Error::ReadItemHeader { source: end(8, 3) })),
        Step::Fetch(5)
    );
    let bad = Error::BadSequenceHeader {
        source: SequenceItemHeaderError::UnexpectedTag { tag: Tag(1, 2) },
    };
    assert_eq!(next_step(Err::<u8, Error>(bad)), Step::Fail(bad));

    // a long header in an explicit encoding is fetched in four pieces
    let bytes = [0xE0, 0x7F, 0x10, 0x00, 0x4F, 0x42, 0x00, 0x00, 0x04, 0x00, 0x00, 0x00];
    let decoder = file_header_decoder();
    let mut have = 0;
    let mut fetched = vec![];
    let header = loop {
        match next_step(decoder.decode_header(&mut ByteSource::new(&bytes[..have]))) {
            Step::Done((header, read)) => {
                assert_eq!(read, have);
                break header;
            }
            Step::Fetch(n) => {
                fetched.push(n);
                have += n;
            }
            Step::Fail(e) => panic!("{:?}", e),
        }
    };
    assert_eq!(fetched, vec![4, 2, 2, 4]);
    assert_eq!(header, DataElementHeader::new(Tag(0x7FE0, 0x0010), VR::OB, Length(4)));

    // one in the implicit encoding in two
    let mut have = 0;
    let mut fetched = vec![];
    loop {
        match next_step(default_reader().decode_header(&mut ByteSource::new(&bytes[..have]))) {
            Step::Done(_) => break,
            Step::Fetch(n) => {
                fetched.push(n);
                have += n;
            }
            Step::Fail(e) => panic!("{:?}", e),
        }
    }
    assert_eq!(fetched, vec![4, 4]);
    assert_eq!(
        next_step(decoder.decode_item_header(&mut ByteSource::new(&bytes[..3]))),
        Step::Fetch(5)
    );
}

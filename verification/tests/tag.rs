use dicom_codec::tag::{ParseTagError, Tag};

#[test]
fn parses_eight_hex_digits() {
    assert_eq!(Tag::parse("00080010"), Ok(Tag(0x0008, 0x0010)));
    assert_eq!(Tag::parse("00200013"), Ok(Tag(0x0020, 0x0013)));
    assert_eq!(Tag::parse("7fe0001A"), Ok(Tag(0x7FE0, 0x001A)));
}

#[test]
fn refuses_other_texts() {
    assert_eq!(Tag::parse("0008001"), Err(ParseTagError::Length));
    assert_eq!(Tag::parse("000800100"), Err(ParseTagError::Length));
    assert_eq!(Tag::parse("0008001G"), Err(ParseTagError::Digit));
    assert_eq!(Tag::parse("+0080010"), Err(ParseTagError::Digit));
}

#[test]
fn hex_form_is_read_back() {
    for t in [Tag(0, 0), Tag(0x0008, 0x0010), Tag(0xFFFE, 0xE0DD), Tag(0xFFFF, 0xFFFF), Tag(0x7FE0, 0x0010)] {
        let text = t.to_hex();
        assert_eq!(text, format!("{:04X}{:04X}", t.0, t.1));
        assert_eq!(Tag::parse(&text), Ok(t));
    }
}

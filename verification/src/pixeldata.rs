//! Decoding of pixel data: from an object with the attributes of the image
//! pixel module to one buffer of frames with what is needed to show them.
//!
//! Pixel data that is written natively is copied. Pixel data in
//! encapsulated form is handed, with what describes the image, to the
//! adapter of the transfer syntax; this library holds no decoder of its own.

use crate::conversion::InvalidValueReadError;
use crate::endian::{u16_bytes, Endianness};
use crate::object::{
    fragment_bytes, DataElement, InMemDicomObject, ObjectModel, Value, ValueModel,
};
use crate::registry::{find, trimmed, Codec, TransferSyntaxModel, TransferSyntaxRegistry};
use crate::tag::Tag;
use crate::text::same_text;

use crate::value::{PrimitiveModel, PrimitiveValue};
use vstd::prelude::*;

verus! {

/// How the samples of a pixel are to be understood.
#[derive(Clone, Copy, Debug, PartialEq, Eq, Structural)]
pub enum PhotometricInterpretation {
    /// `MONOCHROME1`.
    Monochrome1,
    /// `MONOCHROME2`.
    Monochrome2,
    /// `PALETTE COLOR`.
    PaletteColor,
    /// `RGB`.
    Rgb,
    /// `HSV`.
    Hsv,
    /// `ARGB`.
    Argb,
    /// `CMYK`.
    Cmyk,
    /// `YBR_FULL`.
    YbrFull,
    /// `YBR_FULL_422`.
    YbrFull422,
    /// `YBR_PARTIAL_422`.
    YbrPartial422,
    /// `YBR_PARTIAL_420`.
    YbrPartial420,
    /// `YBR_ICT`.
    YbrIct,
    /// `YBR_RCT`.
    YbrRct,
}

/// How the samples of the pixels are laid out.
#[derive(Clone, Copy, Debug, PartialEq, Eq, Structural)]
pub enum PlanarConfiguration {
    /// The samples of one pixel stand together.
    Standard,
    /// The samples of one colour plane stand together.
    PixelFirst,
}

/// Whether the stored values have a sign.
#[derive(Clone, Copy, Debug, PartialEq, Eq, Structural)]
pub enum PixelRepresentation {
    /// Unsigned integers.
    Unsigned,
    /// Integers in two's complement.
    Signed,
}

/// The function that maps stored values to what is shown.
#[derive(Clone, Copy, Debug, PartialEq, Eq, Structural)]
pub enum VoiLutFunction {
    /// `LINEAR`.
    Linear,
    /// `LINEAR_EXACT`.
    LinearExact,
    /// `SIGMOID`.
    Sigmoid,
}

/// A window of values to show, by its centre and its width. Both are kept
/// as the decimal strings that the object holds.
#[derive(Clone, Debug, PartialEq, Eq)]
pub struct WindowLevel {
    /// The centre of the window.
    pub center: String,
    /// The width of the window.
    pub width: String,
}

/// Why an attribute could not be had from an object.
#[derive(Clone, Copy, Debug, PartialEq, Eq, Structural)]
pub enum GetAttributeError {
    /// The object has no element of the tag.
    MissingRequiredField {
        /// The tag that was looked for.
        tag: Tag,
    },
    /// The element of the tag does not hold what was asked for.
    CastValue {
        /// The tag that was looked for.
        tag: Tag,
        /// Why its value could not be read.
        cause: InvalidValueReadError,
    },
}

/// What can go wrong while pixel data is decoded.
#[derive(Clone, Debug, PartialEq, Eq)]
#[non_exhaustive]
pub enum Error {
    /// An attribute of the image pixel module could not be had.
    GetAttribute {
        /// Which attribute, and why.
        source: GetAttributeError,
    },
    /// The registry does not know the transfer syntax of the object.
    UnknownTransferSyntax,
    /// No adapter decodes pixel data of the transfer syntax.
    UnsupportedTransferSyntax,
    /// The photometric interpretation is none of the defined terms.
    UnsupportedPhotometricInterpretation,
    /// The pixel data element holds a sequence of items, or no fragment.
    InvalidPixelData,
    /// The adapter failed.
    DecodePixelData {
        /// What the adapter said.
        message: String,
    },
}

/// Errors without what an adapter said: the kind of an [`Error`].
#[derive(Clone, Copy, Debug, PartialEq, Eq, Structural)]
pub enum ErrorKind {
    /// An attribute of the image pixel module could not be had.
    GetAttribute(GetAttributeError),
    /// The registry does not know the transfer syntax of the object.
    UnknownTransferSyntax,
    /// No adapter decodes pixel data of the transfer syntax.
    UnsupportedTransferSyntax,
    /// The photometric interpretation is none of the defined terms.
    UnsupportedPhotometricInterpretation,
    /// The pixel data element holds a sequence of items, or no fragment.
    InvalidPixelData,
    /// The adapter failed.
    DecodePixelData,
}

impl Error {
    /// The kind of the error.
    pub open spec fn kind(self) -> ErrorKind {
        match self {
            Error::GetAttribute { source } => ErrorKind::GetAttribute(source),
            Error::UnknownTransferSyntax => ErrorKind::UnknownTransferSyntax,
            Error::UnsupportedTransferSyntax => ErrorKind::UnsupportedTransferSyntax,
            Error::UnsupportedPhotometricInterpretation => {
                ErrorKind::UnsupportedPhotometricInterpretation
            },
            Error::InvalidPixelData => ErrorKind::InvalidPixelData,
            Error::DecodePixelData { message } => ErrorKind::DecodePixelData,
        }
    }
}

/// What describes the image of an object: the attributes of the image pixel
/// module that are numbers or terms.
#[derive(Clone, Copy, Debug, PartialEq, Eq, Structural)]
pub struct ImageInfo {
    /// The number of columns.
    pub cols: u16,
    /// The number of rows.
    pub rows: u16,
    /// The number of frames.
    pub number_of_frames: u32,
    /// The photometric interpretation of the stored pixels.
    pub photometric_interpretation: PhotometricInterpretation,
    /// The number of samples of a pixel.
    pub samples_per_pixel: u16,
    /// The number of bits that a sample takes.
    pub bits_allocated: u16,
    /// The number of bits of a sample that are used.
    pub bits_stored: u16,
    /// The place of the bit that weighs most.
    pub high_bit: u16,
    /// Whether the stored values have a sign.
    pub pixel_representation: PixelRepresentation,
    /// The function that maps stored values to what is shown.
    pub voi_lut_function: Option<VoiLutFunction>,
}

/// The decimal strings that say how stored values are to be scaled and
/// shown. They stay text: this library does no arithmetic on them.
#[derive(Clone, Debug, PartialEq, Eq)]
pub struct Presentation {
    /// The rescale intercept, where the object gives one.
    pub rescale_intercept: Option<String>,
    /// The rescale slope, where the object gives one.
    pub rescale_slope: Option<String>,
    /// The window, where the object gives both its centre and its width.
    pub window: Option<WindowLevel>,
}

/// Pixel data after decoding.
#[derive(Clone, Debug, PartialEq, Eq)]
pub struct DecodedPixelData {
    /// The bytes of all frames.
    pub data: Vec<u8>,
    /// The number of columns.
    pub cols: u32,
    /// The number of rows.
    pub rows: u32,
    /// The number of frames.
    pub number_of_frames: u32,
    /// The photometric interpretation of the decoded pixels.
    pub photometric_interpretation: PhotometricInterpretation,
    /// The number of samples of a pixel.
    pub samples_per_pixel: u16,
    /// How the samples are laid out.
    pub planar_configuration: PlanarConfiguration,
    /// The number of bits that a sample takes.
    pub bits_allocated: u16,
    /// The number of bits of a sample that are used.
    pub bits_stored: u16,
    /// The place of the bit that weighs most.
    pub high_bit: u16,
    /// Whether the values have a sign.
    pub pixel_representation: PixelRepresentation,
    /// The rescale intercept, where the object gives one.
    pub rescale_intercept: Option<String>,
    /// The rescale slope, where the object gives one.
    pub rescale_slope: Option<String>,
    /// The function that maps values to what is shown.
    pub voi_lut_function: Option<VoiLutFunction>,
    /// The window to show.
    pub window: Option<WindowLevel>,
}

/// The text of a string that may be there.
pub open spec fn text_of(s: Option<String>) -> Option<Seq<char>> {
    match s {
        Some(s) => Some(s@),
        None => None,
    }
}

/// The mathematical value of a [`Presentation`].
pub ghost struct PresentationModel {
    /// The rescale intercept.
    pub rescale_intercept: Option<Seq<char>>,
    /// The rescale slope.
    pub rescale_slope: Option<Seq<char>>,
    /// The centre and the width of the window.
    pub window: Option<(Seq<char>, Seq<char>)>,
}

impl View for Presentation {
    type V = PresentationModel;

    open spec fn view(&self) -> PresentationModel {
        PresentationModel {
            rescale_intercept: text_of(self.rescale_intercept),
            rescale_slope: text_of(self.rescale_slope),
            window: match self.window {
                Some(w) => Some((w.center@, w.width@)),
                None => None,
            },
        }
    }
}

/// The mathematical value of a [`DecodedPixelData`].
pub ghost struct DecodedModel {
    /// The bytes of all frames.
    pub data: Seq<u8>,
    /// The number of columns.
    pub cols: u32,
    /// The number of rows.
    pub rows: u32,
    /// The number of frames.
    pub number_of_frames: u32,
    /// The photometric interpretation of the decoded pixels.
    pub photometric_interpretation: PhotometricInterpretation,
    /// The number of samples of a pixel.
    pub samples_per_pixel: u16,
    /// How the samples are laid out.
    pub planar_configuration: PlanarConfiguration,
    /// The number of bits that a sample takes.
    pub bits_allocated: u16,
    /// The number of bits of a sample that are used.
    pub bits_stored: u16,
    /// The place of the bit that weighs most.
    pub high_bit: u16,
    /// Whether the values have a sign.
    pub pixel_representation: PixelRepresentation,
    /// The function that maps values to what is shown.
    pub voi_lut_function: Option<VoiLutFunction>,
    /// How the values are to be scaled and shown.
    pub presentation: PresentationModel,
}

impl View for DecodedPixelData {
    type V = DecodedModel;

    open spec fn view(&self) -> DecodedModel {
        DecodedModel {
            data: self.data@,
            cols: self.cols,
            rows: self.rows,
            number_of_frames: self.number_of_frames,
            photometric_interpretation: self.photometric_interpretation,
            samples_per_pixel: self.samples_per_pixel,
            planar_configuration: self.planar_configuration,
            bits_allocated: self.bits_allocated,
            bits_stored: self.bits_stored,
            high_bit: self.high_bit,
            pixel_representation: self.pixel_representation,
            voi_lut_function: self.voi_lut_function,
            presentation: PresentationModel {
                rescale_intercept: text_of(self.rescale_intercept),
                rescale_slope: text_of(self.rescale_slope),
                window: match self.window {
                    Some(w) => Some((w.center@, w.width@)),
                    None => None,
                },
            },
        }
    }
}

/// The photometric interpretation that a defined term names.
pub open spec fn photometric_of(text: Seq<char>) -> Option<PhotometricInterpretation> {
    if text == "MONOCHROME1"@ {
        Some(PhotometricInterpretation::Monochrome1)
    } else if text == "MONOCHROME2"@ {
        Some(PhotometricInterpretation::Monochrome2)
    } else if text == "PALETTE COLOR"@ {
        Some(PhotometricInterpretation::PaletteColor)
    } else if text == "RGB"@ {
        Some(PhotometricInterpretation::Rgb)
    } else if text == "HSV"@ {
        Some(PhotometricInterpretation::Hsv)
    } else if text == "ARGB"@ {
        Some(PhotometricInterpretation::Argb)
    } else if text == "CMYK"@ {
        Some(PhotometricInterpretation::Cmyk)
    } else if text == "YBR_FULL"@ {
        Some(PhotometricInterpretation::YbrFull)
    } else if text == "YBR_FULL_422"@ {
        Some(PhotometricInterpretation::YbrFull422)
    } else if text == "YBR_PARTIAL_422"@ {
        Some(PhotometricInterpretation::YbrPartial422)
    } else if text == "YBR_PARTIAL_420"@ {
        Some(PhotometricInterpretation::YbrPartial420)
    } else if text == "YBR_ICT"@ {
        Some(PhotometricInterpretation::YbrIct)
    } else if text == "YBR_RCT"@ {
        Some(PhotometricInterpretation::YbrRct)
    } else {
        None
    }
}

/// The function that a defined term names.
pub open spec fn voi_lut_of(text: Seq<char>) -> Option<VoiLutFunction> {
    if text == "LINEAR"@ {
        Some(VoiLutFunction::Linear)
    } else if text == "LINEAR_EXACT"@ {
        Some(VoiLutFunction::LinearExact)
    } else if text == "SIGMOID"@ {
        Some(VoiLutFunction::Sigmoid)
    } else {
        None
    }
}

impl PhotometricInterpretation {
    /// Reads a photometric interpretation from its defined term.
    pub fn from_term(text: &String) -> (r: Option<PhotometricInterpretation>)
        ensures
            r == photometric_of(text@),
    {
        if same_text(text, "MONOCHROME1") {
            Some(PhotometricInterpretation::Monochrome1)
        } else if same_text(text, "MONOCHROME2") {
            Some(PhotometricInterpretation::Monochrome2)
        } else if same_text(text, "PALETTE COLOR") {
            Some(PhotometricInterpretation::PaletteColor)
        } else if same_text(text, "RGB") {
            Some(PhotometricInterpretation::Rgb)
        } else if same_text(text, "HSV") {
            Some(PhotometricInterpretation::Hsv)
        } else if same_text(text, "ARGB") {
            Some(PhotometricInterpretation::Argb)
        } else if same_text(text, "CMYK") {
            Some(PhotometricInterpretation::Cmyk)
        } else if same_text(text, "YBR_FULL") {
            Some(PhotometricInterpretation::YbrFull)
        } else if same_text(text, "YBR_FULL_422") {
            Some(PhotometricInterpretation::YbrFull422)
        } else if same_text(text, "YBR_PARTIAL_422") {
            Some(PhotometricInterpretation::YbrPartial422)
        } else if same_text(text, "YBR_PARTIAL_420") {
            Some(PhotometricInterpretation::YbrPartial420)
        } else if same_text(text, "YBR_ICT") {
            Some(PhotometricInterpretation::YbrIct)
        } else if same_text(text, "YBR_RCT") {
            Some(PhotometricInterpretation::YbrRct)
        } else {
            None
        }
    }

    /// The defined term.
    pub fn term(self) -> (s: &'static str)
        ensures
            photometric_of(s@) == Some(self),
    {
        match self {
            PhotometricInterpretation::Monochrome1 => {
                proof {
                    lemma_terms_differ();
                }
                "MONOCHROME1"
            },
            PhotometricInterpretation::Monochrome2 => {
                proof {
                    lemma_terms_differ();
                }
                "MONOCHROME2"
            },
            PhotometricInterpretation::PaletteColor => {
                proof {
                    lemma_terms_differ();
                }
                "PALETTE COLOR"
            },
            PhotometricInterpretation::Rgb => {
                proof {
                    lemma_terms_differ();
                }
                "RGB"
            },
            PhotometricInterpretation::Hsv => {
                proof {
                    lemma_terms_differ();
                }
                "HSV"
            },
            PhotometricInterpretation::Argb => {
                proof {
                    lemma_terms_differ();
                }
                "ARGB"
            },
            PhotometricInterpretation::Cmyk => {
                proof {
                    lemma_terms_differ();
                }
                "CMYK"
            },
            PhotometricInterpretation::YbrFull => {
                proof {
                    lemma_terms_differ();
                }
                "YBR_FULL"
            },
            PhotometricInterpretation::YbrFull422 => {
                proof {
                    lemma_terms_differ();
                }
                "YBR_FULL_422"
            },
            PhotometricInterpretation::YbrPartial422 => {
                proof {
                    lemma_terms_differ();
                }
                "YBR_PARTIAL_422"
            },
            PhotometricInterpretation::YbrPartial420 => {
                proof {
                    lemma_terms_differ();
                }
                "YBR_PARTIAL_420"
            },
            PhotometricInterpretation::YbrIct => {
                proof {
                    lemma_terms_differ();
                }
                "YBR_ICT"
            },
            PhotometricInterpretation::YbrRct => {
                proof {
                    lemma_terms_differ();
                }
                "YBR_RCT"
            },
        }
    }
}

/// No two of the defined terms are the same text.
pub proof fn lemma_terms_differ()
    ensures
        photometric_of("MONOCHROME1"@) == Some(PhotometricInterpretation::Monochrome1),
        photometric_of("MONOCHROME2"@) == Some(PhotometricInterpretation::Monochrome2),
        photometric_of("PALETTE COLOR"@) == Some(PhotometricInterpretation::PaletteColor),
        photometric_of("RGB"@) == Some(PhotometricInterpretation::Rgb),
        photometric_of("HSV"@) == Some(PhotometricInterpretation::Hsv),
        photometric_of("ARGB"@) == Some(PhotometricInterpretation::Argb),
        photometric_of("CMYK"@) == Some(PhotometricInterpretation::Cmyk),
        photometric_of("YBR_FULL"@) == Some(PhotometricInterpretation::YbrFull),
        photometric_of("YBR_FULL_422"@) == Some(PhotometricInterpretation::YbrFull422),
        photometric_of("YBR_PARTIAL_422"@) == Some(PhotometricInterpretation::YbrPartial422),
        photometric_of("YBR_PARTIAL_420"@) == Some(PhotometricInterpretation::YbrPartial420),
        photometric_of("YBR_ICT"@) == Some(PhotometricInterpretation::YbrIct),
        photometric_of("YBR_RCT"@) == Some(PhotometricInterpretation::YbrRct),
{
    reveal_strlit("MONOCHROME1");
    reveal_strlit("MONOCHROME2");
    reveal_strlit("PALETTE COLOR");
    reveal_strlit("RGB");
    reveal_strlit("HSV");
    reveal_strlit("ARGB");
    reveal_strlit("CMYK");
    reveal_strlit("YBR_FULL");
    reveal_strlit("YBR_FULL_422");
    reveal_strlit("YBR_PARTIAL_422");
    reveal_strlit("YBR_PARTIAL_420");
    reveal_strlit("YBR_ICT");
    reveal_strlit("YBR_RCT");
    assert("MONOCHROME1"@.len() == 11);
    assert("MONOCHROME2"@.len() == 11);
    assert("PALETTE COLOR"@.len() == 13);
    assert("RGB"@.len() == 3);
    assert("HSV"@.len() == 3);
    assert("ARGB"@.len() == 4);
    assert("CMYK"@.len() == 4);
    assert("YBR_FULL"@.len() == 8);
    assert("YBR_FULL_422"@.len() == 12);
    assert("YBR_PARTIAL_422"@.len() == 15);
    assert("YBR_PARTIAL_420"@.len() == 15);
    assert("YBR_ICT"@.len() == 7);
    assert("YBR_RCT"@.len() == 7);
    assert("MONOCHROME1"@[10] != "MONOCHROME2"@[10]);
    assert("RGB"@[0] != "HSV"@[0]);
    assert("ARGB"@[0] != "CMYK"@[0]);
    assert("YBR_PARTIAL_422"@[14] != "YBR_PARTIAL_420"@[14]);
    assert("YBR_ICT"@[4] != "YBR_RCT"@[4]);
}

impl VoiLutFunction {
    /// Reads the function from its defined term.
    pub fn from_term(text: &String) -> (r: Option<VoiLutFunction>)
        ensures
            r == voi_lut_of(text@),
    {
        if same_text(text, "LINEAR") {
            Some(VoiLutFunction::Linear)
        } else if same_text(text, "LINEAR_EXACT") {
            Some(VoiLutFunction::LinearExact)
        } else if same_text(text, "SIGMOID") {
            Some(VoiLutFunction::Sigmoid)
        } else {
            None
        }
    }
}

/// The integer that the element of `tag` holds, between `low` and `high`.
/// An object without such an element, and an element that holds no such
/// integer, give an error.
pub open spec fn integer_attribute(o: ObjectModel, tag: Tag, low: int, high: int) -> Result<
    int,
    GetAttributeError,
> {
    match o.get(tag) {
        None => Err(GetAttributeError::MissingRequiredField { tag }),
        Some(e) => match e.value {
            ValueModel::Primitive(p) => match p.first_integer_within(low, high) {
                Ok(v) => Ok(v),
                Err(cause) => Err(GetAttributeError::CastValue { tag, cause }),
            },
            _ => Err(
                GetAttributeError::CastValue { tag, cause: InvalidValueReadError::NonPrimitiveType },
            ),
        },
    }
}

/// The text that the element of `tag` holds, without its padding; `None`
/// where the object has no such element.
pub open spec fn optional_text_attribute(o: ObjectModel, tag: Tag) -> Result<
    Option<Seq<char>>,
    GetAttributeError,
> {
    match o.get(tag) {
        None => Ok(None),
        Some(e) => match e.value {
            ValueModel::Primitive(p) => match p.first_text() {
                Ok(t) => Ok(Some(t)),
                Err(cause) => Err(GetAttributeError::CastValue { tag, cause }),
            },
            _ => Err(
                GetAttributeError::CastValue { tag, cause: InvalidValueReadError::NonPrimitiveType },
            ),
        },
    }
}

/// The text that the element of `tag` holds, without its padding. An object
/// without such an element gives an error.
pub open spec fn text_attribute(o: ObjectModel, tag: Tag) -> Result<Seq<char>, GetAttributeError> {
    match optional_text_attribute(o, tag) {
        Ok(Some(t)) => Ok(t),
        Ok(None) => Err(GetAttributeError::MissingRequiredField { tag }),
        Err(e) => Err(e),
    }
}

/// Reads the integer that the element of `tag` holds.
pub fn get_integer<D>(obj: &InMemDicomObject<D>, tag: Tag, low: i128, high: i128) -> (r: Result<
    i128,
    GetAttributeError,
>)
    requires
        -0x8000_0000_0000_0000 <= low,
        high <= 0xFFFF_FFFF_FFFF_FFFF,
    ensures
        match integer_attribute(obj.model(), tag, low as int, high as int) {
            Ok(v) => r == Ok::<i128, GetAttributeError>(v as i128) && low <= v <= high,
            Err(e) => r == Err::<i128, GetAttributeError>(e),
        },
{
    match obj.get(tag) {
        None => Err(GetAttributeError::MissingRequiredField { tag }),
        Some(e) => match e.value() {
            Value::Primitive(p) => match p.to_int_within(low, high) {
                Ok(v) => Ok(v),
                Err(e) => Err(GetAttributeError::CastValue { tag, cause: e.cause }),
            },
            _ => Err(
                GetAttributeError::CastValue { tag, cause: InvalidValueReadError::NonPrimitiveType },
            ),
        },
    }
}

/// Reads the text that the element of `tag` holds, where there is such an
/// element.
pub fn get_optional_text<D>(obj: &InMemDicomObject<D>, tag: Tag) -> (r: Result<
    Option<String>,
    GetAttributeError,
>)
    ensures
        match optional_text_attribute(obj.model(), tag) {
            Ok(t) => r matches Ok(s) && text_of(s) == t,
            Err(e) => r matches Err(x) && x == e,
        },
{
    match obj.get(tag) {
        None => Ok(None),
        Some(e) => match e.value() {
            Value::Primitive(p) => match p.to_str() {
                Ok(s) => Ok(Some(s)),
                Err(e) => Err(GetAttributeError::CastValue { tag, cause: e.cause }),
            },
            _ => Err(
                GetAttributeError::CastValue { tag, cause: InvalidValueReadError::NonPrimitiveType },
            ),
        },
    }
}

/// Reads the text that the element of `tag` holds.
pub fn get_text<D>(obj: &InMemDicomObject<D>, tag: Tag) -> (r: Result<String, GetAttributeError>)
    ensures
        match text_attribute(obj.model(), tag) {
            Ok(t) => r matches Ok(s) && s@ == t,
            Err(e) => r matches Err(x) && x == e,
        },
{
    match get_optional_text(obj, tag) {
        Ok(Some(s)) => Ok(s),
        Ok(None) => Err(GetAttributeError::MissingRequiredField { tag }),
        Err(e) => Err(e),
    }
}

/// What describes the image of an object, or the first thing that is amiss
/// with it, in this order: the pixel data element must be there; the
/// columns, the rows and the photometric interpretation must be readable
/// and the latter a defined term; the transfer syntax must be known to the
/// registry; then come samples per pixel, bits allocated, bits stored, the
/// high bit, the pixel representation, the number of frames, which is 1
/// where the object gives none, and the VOI LUT function, of which a term
/// that is not defined counts as none given.
pub open spec fn image_of(o: ObjectModel, ts_uid: Seq<char>, registry: Seq<TransferSyntaxModel>) -> Result<
    ImageInfo,
    ErrorKind,
> {
    if o.get(Tag(0x7FE0, 0x0010)) is None {
        Err(
            ErrorKind::GetAttribute(
                GetAttributeError::MissingRequiredField { tag: Tag(0x7FE0, 0x0010) },
            ),
        )
    } else {
        match integer_attribute(o, Tag(0x0028, 0x0011), 0, 0xFFFF) {
            Err(e) => Err(ErrorKind::GetAttribute(e)),
            Ok(cols) => match integer_attribute(o, Tag(0x0028, 0x0010), 0, 0xFFFF) {
                Err(e) => Err(ErrorKind::GetAttribute(e)),
                Ok(rows) => match text_attribute(o, Tag(0x0028, 0x0004)) {
                    Err(e) => Err(ErrorKind::GetAttribute(e)),
                    Ok(term) => match photometric_of(term) {
                        None => Err(ErrorKind::UnsupportedPhotometricInterpretation),
                        Some(pi) => if find(registry, trimmed(ts_uid)) is None {
                            Err(ErrorKind::UnknownTransferSyntax)
                        } else {
                            match sample_layout_of(o) {
                                Err(e) => Err(ErrorKind::GetAttribute(e)),
                                Ok(layout) => Ok(
                                    ImageInfo {
                                        cols: cols as u16,
                                        rows: rows as u16,
                                        photometric_interpretation: pi,
                                        ..layout
                                    },
                                ),
                            }
                        },
                    },
                },
            },
        }
    }
}

/// The attributes of an image that say how its samples are stored, with
/// nothing yet in the place of columns, rows and photometric
/// interpretation.
pub open spec fn sample_layout_of(o: ObjectModel) -> Result<ImageInfo, GetAttributeError> {
    match integer_attribute(o, Tag(0x0028, 0x0002), 0, 0xFFFF) {
        Err(e) => Err(e),
        Ok(samples) => match integer_attribute(o, Tag(0x0028, 0x0100), 0, 0xFFFF) {
            Err(e) => Err(e),
            Ok(allocated) => match integer_attribute(o, Tag(0x0028, 0x0101), 0, 0xFFFF) {
                Err(e) => Err(e),
                Ok(stored) => match integer_attribute(o, Tag(0x0028, 0x0102), 0, 0xFFFF) {
                    Err(e) => Err(e),
                    Ok(high) => match integer_attribute(o, Tag(0x0028, 0x0103), 0, 1) {
                        Err(e) => Err(e),
                        Ok(sign) => match frames_of(o) {
                            Err(e) => Err(e),
                            Ok(frames) => match optional_text_attribute(o, Tag(0x0028, 0x1056)) {
                                Err(e) => Err(e),
                                Ok(function) => Ok(
                                    ImageInfo {
                                        cols: 0,
                                        rows: 0,
                                        number_of_frames: frames as u32,
                                        photometric_interpretation:
                                            PhotometricInterpretation::Monochrome2,
                                        samples_per_pixel: samples as u16,
                                        bits_allocated: allocated as u16,
                                        bits_stored: stored as u16,
                                        high_bit: high as u16,
                                        pixel_representation: if sign == 0 {
                                            PixelRepresentation::Unsigned
                                        } else {
                                            PixelRepresentation::Signed
                                        },
                                        voi_lut_function: match function {
                                            Some(term) => voi_lut_of(term),
                                            None => None,
                                        },
                                    },
                                ),
                            },
                        },
                    },
                },
            },
        }
    }
}

/// The number of frames of an object: 1 where it gives none.
pub open spec fn frames_of(o: ObjectModel) -> Result<int, GetAttributeError> {
    if o.get(Tag(0x0028, 0x0008)) is None {
        Ok(1)
    } else {
        integer_attribute(o, Tag(0x0028, 0x0008), 0, 0xFFFF_FFFF)
    }
}

/// Reads the attributes of an image that say how its samples are stored.
pub fn sample_layout<D>(obj: &InMemDicomObject<D>) -> (r: Result<ImageInfo, GetAttributeError>)
    ensures
        r == sample_layout_of(obj.model()),
{
    let samples: i128 = get_integer(obj, Tag(0x0028, 0x0002), 0, 0xFFFF)?;
    let allocated: i128 = get_integer(obj, Tag(0x0028, 0x0100), 0, 0xFFFF)?;
    let stored: i128 = get_integer(obj, Tag(0x0028, 0x0101), 0, 0xFFFF)?;
    let high: i128 = get_integer(obj, Tag(0x0028, 0x0102), 0, 0xFFFF)?;
    let sign: i128 = get_integer(obj, Tag(0x0028, 0x0103), 0, 1)?;
    let frames: i128 = if obj.contains(Tag(0x0028, 0x0008)) {
        get_integer(obj, Tag(0x0028, 0x0008), 0, 0xFFFF_FFFF)?
    } else {
        1
    };
    let function: Option<String> = get_optional_text(obj, Tag(0x0028, 0x1056))?;
    Ok(
        ImageInfo {
            cols: 0,
            rows: 0,
            number_of_frames: frames as u32,
            photometric_interpretation: PhotometricInterpretation::Monochrome2,
            samples_per_pixel: samples as u16,
            bits_allocated: allocated as u16,
            bits_stored: stored as u16,
            high_bit: high as u16,
            pixel_representation: if sign == 0 {
                PixelRepresentation::Unsigned
            } else {
                PixelRepresentation::Signed
            },
            voi_lut_function: match function {
                Some(term) => VoiLutFunction::from_term(&term),
                None => None,
            },
        },
    )
}

/// Reads what describes the image of an object.
pub fn image_info<D>(obj: &InMemDicomObject<D>, ts_uid: &str, registry: &TransferSyntaxRegistry) -> (r:
    Result<ImageInfo, Error>)
    ensures
        match image_of(obj.model(), ts_uid@, registry.model()) {
            Ok(image) => r matches Ok(i) && i == image,
            Err(k) => r matches Err(e) && e.kind() == k,
        },
{
    if !obj.contains(Tag(0x7FE0, 0x0010)) {
        return Err(
            Error::GetAttribute {
                source: GetAttributeError::MissingRequiredField { tag: Tag(0x7FE0, 0x0010) },
            },
        );
    }
    let cols: i128 = match get_integer(obj, Tag(0x0028, 0x0011), 0, 0xFFFF) {
        Ok(v) => v,
        Err(source) => {
            return Err(Error::GetAttribute { source });
        },
    };
    let rows: i128 = match get_integer(obj, Tag(0x0028, 0x0010), 0, 0xFFFF) {
        Ok(v) => v,
        Err(source) => {
            return Err(Error::GetAttribute { source });
        },
    };
    let term: String = match get_text(obj, Tag(0x0028, 0x0004)) {
        Ok(v) => v,
        Err(source) => {
            return Err(Error::GetAttribute { source });
        },
    };
    let pi: PhotometricInterpretation = match PhotometricInterpretation::from_term(&term) {
        Some(pi) => pi,
        None => {
            return Err(Error::UnsupportedPhotometricInterpretation);
        },
    };
    if registry.get(ts_uid).is_none() {
        return Err(Error::UnknownTransferSyntax);
    }
    match sample_layout(obj) {
        Ok(layout) => Ok(
            ImageInfo {
                cols: cols as u16,
                rows: rows as u16,
                photometric_interpretation: pi,
                ..layout
            },
        ),
        Err(source) => Err(Error::GetAttribute { source }),
    }
}

/// The meta information of a file, as far as this library reads it.
#[derive(Clone, Debug, PartialEq, Eq)]
pub struct FileMetaTable {
    /// The unique identifier of the transfer syntax of the data set.
    pub transfer_syntax: String,
}

/// An object as it comes from a file: the meta information and the data
/// set.
#[derive(Debug)]
pub struct FileDicomObject<D> {
    meta: FileMetaTable,
    obj: InMemDicomObject<D>,
}

/// A decoder of encapsulated pixel data for the transfer syntaxes that it
/// was registered for.
pub trait PixelAdapter {
    /// Decodes the frames that the fragments hold into one buffer, in the
    /// standard layout. There is one fragment at least, and `multi_frame`
    /// says whether there are several, which are then taken as the frames
    /// of the image. Where the adapter fails it says why.
    fn decode_frames(
        &self,
        fragments: &Vec<Vec<u8>>,
        multi_frame: bool,
        image: &ImageInfo,
        transfer_syntax: &str,
    ) -> Result<Vec<u8>, String>
        requires
            fragments@.len() >= 1,
            multi_frame == (fragments@.len() > 1),
    ;
}

/// The adapter of a program that has none: it decodes nothing.
#[derive(Clone, Copy, Debug, Default, PartialEq, Eq, Structural)]
pub struct NoAdapter;

impl PixelAdapter for NoAdapter {
    /// Fails on every input, and says that no adapter is registered.
    fn decode_frames(
        &self,
        fragments: &Vec<Vec<u8>>,
        multi_frame: bool,
        image: &ImageInfo,
        transfer_syntax: &str,
    ) -> (r: Result<Vec<u8>, String>)
        ensures
            r matches Err(said) && said@ == "no adapter is registered"@,
    {
        Err("no adapter is registered".to_owned())
    }
}

/// Where the bytes of the frames come from.
pub ghost enum PixelSourceModel {
    /// From the value itself, which holds them natively.
    Native(Seq<u8>),
    /// From the adapter, which decodes the fragments.
    Encapsulated(Seq<Seq<u8>>),
}

/// The bytes of the first `n` of a list of 16-bit words, each in Little
/// Endian.
pub open spec fn word_bytes(words: Seq<u16>, n: nat) -> Seq<u8>
    decreases n,
{
    if n == 0 || n > words.len() {
        Seq::empty()
    } else {
        word_bytes(words, (n - 1) as nat) + u16_bytes(Endianness::Little, words[n - 1])
    }
}

/// Whether a codec has an adapter that decodes frames.
pub open spec fn decodes_frames(codec: Codec) -> bool {
    codec matches Codec::PixelAdapter { decode, .. } && decode
}

/// Where the bytes of the frames come from, by the value of the pixel data
/// element and the codec of the transfer syntax. Bytes and 16-bit words are
/// native pixel data. Fragments are encapsulated pixel data; there must be
/// one at least, and an adapter that decodes them. Nothing else is pixel
/// data.
pub open spec fn pixel_source_of(value: ValueModel, codec: Codec) -> Result<
    PixelSourceModel,
    ErrorKind,
> {
    match value {
        ValueModel::Primitive(PrimitiveModel::U8(bytes)) => Ok(PixelSourceModel::Native(bytes)),
        ValueModel::Primitive(PrimitiveModel::U16(words)) => Ok(
            PixelSourceModel::Native(word_bytes(words, words.len())),
        ),
        ValueModel::Primitive(_) => Err(ErrorKind::InvalidPixelData),
        ValueModel::Sequence(_) => Err(ErrorKind::InvalidPixelData),
        ValueModel::PixelSequence(_, fragments) => if fragments.len() == 0 {
            Err(ErrorKind::InvalidPixelData)
        } else if decodes_frames(codec) {
            Ok(PixelSourceModel::Encapsulated(fragments))
        } else {
            Err(ErrorKind::UnsupportedTransferSyntax)
        },
    }
}

/// The planar configuration of an object: the standard one where it gives
/// none.
pub open spec fn planar_of(o: ObjectModel) -> Result<PlanarConfiguration, GetAttributeError> {
    if o.get(Tag(0x0028, 0x0006)) is None {
        Ok(PlanarConfiguration::Standard)
    } else {
        match integer_attribute(o, Tag(0x0028, 0x0006), 0, 1) {
            Ok(v) => if v == 0 {
                Ok(PlanarConfiguration::Standard)
            } else {
                Ok(PlanarConfiguration::PixelFirst)
            },
            Err(e) => Err(e),
        }
    }
}

/// A text that could be read, or none.
pub open spec fn readable(r: Result<Option<Seq<char>>, GetAttributeError>) -> Option<Seq<char>> {
    match r {
        Ok(t) => t,
        Err(_) => None,
    }
}

/// How the values of an object are to be scaled and shown. A rescale
/// intercept or slope that cannot be read counts as none given. The window
/// is there where the object gives its centre and its width; a centre or a
/// width that is there and cannot be read is an error.
pub open spec fn presentation_of(o: ObjectModel) -> Result<PresentationModel, GetAttributeError> {
    match optional_text_attribute(o, Tag(0x0028, 0x1050)) {
        Err(e) => Err(e),
        Ok(None) => Ok(
            PresentationModel {
                rescale_intercept: readable(optional_text_attribute(o, Tag(0x0028, 0x1052))),
                rescale_slope: readable(optional_text_attribute(o, Tag(0x0028, 0x1053))),
                window: None,
            },
        ),
        Ok(Some(center)) => match optional_text_attribute(o, Tag(0x0028, 0x1051)) {
            Err(e) => Err(e),
            Ok(width) => Ok(
                PresentationModel {
                    rescale_intercept: readable(optional_text_attribute(o, Tag(0x0028, 0x1052))),
                    rescale_slope: readable(optional_text_attribute(o, Tag(0x0028, 0x1053))),
                    window: match width {
                        Some(width) => Some((center, width)),
                        None => None,
                    },
                },
            ),
        },
    }
}

/// The photometric interpretation of decoded pixels: one sample per pixel
/// is `MONOCHROME2`, three are `RGB`, and with any other number the
/// interpretation stays what it was.
pub open spec fn decoded_interpretation(image: ImageInfo) -> PhotometricInterpretation {
    if image.samples_per_pixel == 1 {
        PhotometricInterpretation::Monochrome2
    } else if image.samples_per_pixel == 3 {
        PhotometricInterpretation::Rgb
    } else {
        image.photometric_interpretation
    }
}

/// The decoded pixel data that the bytes of the frames make with what
/// describes the image: the columns, the rows and everything else as the
/// image has them, but for the photometric interpretation, which is that of
/// decoded pixels.
pub open spec fn decoded_of(
    image: ImageInfo,
    data: Seq<u8>,
    planar_configuration: PlanarConfiguration,
    presentation: PresentationModel,
) -> DecodedModel {
    DecodedModel {
        data,
        cols: image.cols as u32,
        rows: image.rows as u32,
        number_of_frames: image.number_of_frames,
        photometric_interpretation: decoded_interpretation(image),
        samples_per_pixel: image.samples_per_pixel,
        planar_configuration,
        bits_allocated: image.bits_allocated,
        bits_stored: image.bits_stored,
        high_bit: image.high_bit,
        pixel_representation: image.pixel_representation,
        voi_lut_function: image.voi_lut_function,
        presentation,
    }
}

/// Puts decoded pixel data together from the bytes of the frames and what
/// describes the image.
pub fn assemble(
    image: ImageInfo,
    data: Vec<u8>,
    planar_configuration: PlanarConfiguration,
    presentation: Presentation,
) -> (d: DecodedPixelData)
    ensures
        d@ == decoded_of(image, data@, planar_configuration, presentation@),
{
    let interpretation: PhotometricInterpretation = if image.samples_per_pixel == 1 {
        PhotometricInterpretation::Monochrome2
    } else if image.samples_per_pixel == 3 {
        PhotometricInterpretation::Rgb
    } else {
        image.photometric_interpretation
    };
    DecodedPixelData {
        data,
        cols: image.cols as u32,
        rows: image.rows as u32,
        number_of_frames: image.number_of_frames,
        photometric_interpretation: interpretation,
        samples_per_pixel: image.samples_per_pixel,
        planar_configuration,
        bits_allocated: image.bits_allocated,
        bits_stored: image.bits_stored,
        high_bit: image.high_bit,
        pixel_representation: image.pixel_representation,
        rescale_intercept: presentation.rescale_intercept,
        rescale_slope: presentation.rescale_slope,
        voi_lut_function: image.voi_lut_function,
        window: presentation.window,
    }
}

/// What could be read of the presentation, as a mathematical value.
pub open spec fn presentation_read(r: Result<Presentation, GetAttributeError>) -> Result<
    PresentationModel,
    GetAttributeError,
> {
    match r {
        Ok(p) => Ok(p@),
        Err(e) => Err(e),
    }
}

/// Whether `r` is what comes of decoding encapsulated pixel data, by what
/// the adapter gave and what the object says of the presentation: the
/// failure of the adapter first, with what the adapter said, then that of
/// the presentation, else the decoded pixel data in the standard layout.
pub open spec fn finishes(
    image: ImageInfo,
    decoded: Result<Vec<u8>, String>,
    presentation: Result<PresentationModel, GetAttributeError>,
    r: Result<DecodedPixelData, Error>,
) -> bool {
    match decoded {
        Err(said) => r matches Err(Error::DecodePixelData { message }) && message@ == said@,
        Ok(data) => match presentation {
            Err(e) => r matches Err(Error::GetAttribute { source }) && source == e,
            Ok(p) => r matches Ok(d) && d@ == decoded_of(
                image,
                data@,
                PlanarConfiguration::Standard,
                p,
            ),
        },
    }
}

/// Finishes the decoding of encapsulated pixel data with what the adapter
/// gave.
pub fn finish_decoding(
    image: ImageInfo,
    decoded: Result<Vec<u8>, String>,
    presentation: Result<Presentation, GetAttributeError>,
) -> (r: Result<DecodedPixelData, Error>)
    ensures
        finishes(image, decoded, presentation_read(presentation), r),
{
    match decoded {
        Err(message) => Err(Error::DecodePixelData { message }),
        Ok(data) => match presentation {
            Err(source) => Err(Error::GetAttribute { source }),
            Ok(p) => Ok(assemble(image, data, PlanarConfiguration::Standard, p)),
        },
    }
}

/// Reads the planar configuration of an object.
pub fn planar_configuration<D>(obj: &InMemDicomObject<D>) -> (r: Result<
    PlanarConfiguration,
    GetAttributeError,
>)
    ensures
        r == planar_of(obj.model()),
{
    if !obj.contains(Tag(0x0028, 0x0006)) {
        return Ok(PlanarConfiguration::Standard);
    }
    let v: i128 = get_integer(obj, Tag(0x0028, 0x0006), 0, 1)?;
    if v == 0 {
        Ok(PlanarConfiguration::Standard)
    } else {
        Ok(PlanarConfiguration::PixelFirst)
    }
}

/// Reads how the values of an object are to be scaled and shown.
pub fn presentation<D>(obj: &InMemDicomObject<D>) -> (r: Result<Presentation, GetAttributeError>)
    ensures
        presentation_read(r) == presentation_of(obj.model()),
{
    let center: Option<String> = match get_optional_text(obj, Tag(0x0028, 0x1050)) {
        Ok(c) => c,
        Err(e) => {
            return Err(e);
        },
    };
    let window: Option<WindowLevel> = match center {
        None => None,
        Some(center) => match get_optional_text(obj, Tag(0x0028, 0x1051)) {
            Ok(Some(width)) => Some(WindowLevel { center, width }),
            Ok(None) => None,
            Err(e) => {
                return Err(e);
            },
        },
    };
    let rescale_intercept: Option<String> = match get_optional_text(obj, Tag(0x0028, 0x1052)) {
        Ok(t) => t,
        Err(_) => None,
    };
    let rescale_slope: Option<String> = match get_optional_text(obj, Tag(0x0028, 0x1053)) {
        Ok(t) => t,
        Err(_) => None,
    };
    Ok(Presentation { rescale_intercept, rescale_slope, window })
}

/// Writes 16-bit words as bytes, each word in Little Endian.
pub fn words_to_bytes(words: &Vec<u16>) -> (bytes: Vec<u8>)
    ensures
        bytes@ == word_bytes(words@, words@.len()),
{
    let mut bytes: Vec<u8> = Vec::new();
    let mut i: usize = 0;
    while i < words.len()
        invariant
            i <= words@.len(),
            bytes@ == word_bytes(words@, i as nat),
        decreases words@.len() - i,
    {
        Endianness::Little.write_u16(&mut bytes, words[i]);
        i = i + 1;
    }
    bytes
}

/// What is to be done to decode the pixel data of an object.
#[derive(Debug)]
pub enum PixelRequest<'a> {
    /// The pixel data is native: the bytes of the frames are at hand.
    Native {
        /// What describes the image.
        image: ImageInfo,
        /// The bytes of the frames.
        data: Vec<u8>,
    },
    /// The pixel data is encapsulated: an adapter is to decode it.
    Encapsulated {
        /// What describes the image.
        image: ImageInfo,
        /// The fragments of the object, all of them and in their order.
        fragments: &'a Vec<Vec<u8>>,
        /// Whether there are several fragments.
        multi_frame: bool,
        /// The unique identifier of the transfer syntax, as the object
        /// gives it.
        transfer_syntax: &'a str,
    },
}

/// Whether `r` is the request that decoding the pixel data of an object
/// begins with.
///
/// What is amiss with the image comes first, then what is amiss with the
/// pixel data element. Native pixel data is handed on as its bytes. Of
/// encapsulated pixel data the adapter is handed every fragment of the
/// object, whether they are several, the image and the transfer syntax of
/// the object.
pub open spec fn requests<D>(
    file: &FileDicomObject<D>,
    registry: Seq<TransferSyntaxModel>,
    r: Result<PixelRequest<'_>, Error>,
) -> bool {
    let o = file.object_model();
    let uid = file.transfer_syntax_uid();
    match image_of(o, uid, registry) {
        Err(k) => r matches Err(e) && e.kind() == k,
        Ok(image) => match pixel_source_of(
            o.get(Tag(0x7FE0, 0x0010))->0.value,
            find(registry, trimmed(uid))->0.codec,
        ) {
            Err(k) => r matches Err(e) && e.kind() == k,
            Ok(PixelSourceModel::Native(bytes)) => r matches Ok(
                PixelRequest::Native { image: i, data },
            ) && i == image && data@ == bytes,
            Ok(PixelSourceModel::Encapsulated(list)) => r matches Ok(
                PixelRequest::Encapsulated { image: i, fragments, multi_frame, transfer_syntax },
            ) && i == image && fragment_bytes(fragments@) == list && multi_frame == (list.len() > 1)
                && transfer_syntax@ == uid,
        },
    }
}

/// Whether decoding the pixel data of an object with an adapter came out as
/// it must.
///
/// What is amiss with the image comes first, then what is amiss with the
/// pixel data element. Native pixel data is copied; its planar
/// configuration is that of the object. For encapsulated pixel data the
/// adapter was called, with every fragment of the object, whether they are
/// several, the image and the transfer syntax of the object, and what it
/// gave decides: where it failed the decoding fails with what it said, and
/// where it gave bytes they are the data, in the standard layout.
pub open spec fn decodes<D, A: PixelAdapter>(
    file: &FileDicomObject<D>,
    registry: Seq<TransferSyntaxModel>,
    adapter: &A,
    r: Result<DecodedPixelData, Error>,
) -> bool {
    let o = file.object_model();
    let uid = file.transfer_syntax_uid();
    match image_of(o, uid, registry) {
        Err(k) => r matches Err(e) && e.kind() == k,
        Ok(image) => match pixel_source_of(
            o.get(Tag(0x7FE0, 0x0010))->0.value,
            find(registry, trimmed(uid))->0.codec,
        ) {
            Err(k) => r matches Err(e) && e.kind() == k,
            Ok(PixelSourceModel::Native(bytes)) => match planar_of(o) {
                Err(g) => r matches Err(e) && e.kind() == ErrorKind::GetAttribute(g),
                Ok(planar) => match presentation_of(o) {
                    Err(g) => r matches Err(e) && e.kind() == ErrorKind::GetAttribute(g),
                    Ok(p) => r matches Ok(d) && d@ == decoded_of(image, bytes, planar, p),
                },
            },
            Ok(PixelSourceModel::Encapsulated(list)) => exists|
                fragments: &Vec<Vec<u8>>,
                multi_frame: bool,
                transfer_syntax: &str,
                decoded: Result<Vec<u8>, String>,
            |
                fragment_bytes(fragments@) == list && multi_frame == (list.len() > 1)
                    && transfer_syntax@ == uid && #[trigger] call_ensures(
                    A::decode_frames,
                    (adapter, fragments, multi_frame, &image, transfer_syntax),
                    decoded,
                ) && finishes(image, decoded, presentation_of(o), r),
        },
    }
}

impl<D> FileDicomObject<D> {
    /// The data set.
    pub closed spec fn object_model(&self) -> ObjectModel {
        self.obj.model()
    }

    /// The unique identifier of the transfer syntax.
    pub closed spec fn transfer_syntax_uid(&self) -> Seq<char> {
        self.meta.transfer_syntax@
    }

    /// An object of the given meta information and data set.
    pub fn new(meta: FileMetaTable, obj: InMemDicomObject<D>) -> (f: FileDicomObject<D>)
        ensures
            f.object_model() == obj.model(),
            f.transfer_syntax_uid() == meta.transfer_syntax@,
    {
        FileDicomObject { meta, obj }
    }

    /// The meta information.
    pub fn meta(&self) -> (m: &FileMetaTable)
        ensures
            m.transfer_syntax@ == self.transfer_syntax_uid(),
    {
        &self.meta
    }

    /// The data set.
    pub fn object(&self) -> (o: &InMemDicomObject<D>)
        ensures
            o.model() == self.object_model(),
    {
        &self.obj
    }

    /// What is to be done to decode the pixel data of the object: its
    /// native bytes with what describes the image, or what an adapter is to
    /// be handed. The transfer syntax is looked up in `registry`.
    pub fn pixel_request(&self, registry: &TransferSyntaxRegistry) -> (r: Result<
        PixelRequest<'_>,
        Error,
    >)
        ensures
            requests(self, registry.model(), r),
    {
        let uid: &str = self.meta.transfer_syntax.as_str();
        let image: ImageInfo = image_info(&self.obj, uid, registry)?;
        let codec: Codec = match registry.get(uid) {
            Some(ts) => ts.codec(),
            None => {
                return Err(Error::UnknownTransferSyntax);
            },
        };
        let element: &DataElement<D> = match self.obj.get(Tag(0x7FE0, 0x0010)) {
            Some(e) => e,
            None => {
                return Err(Error::InvalidPixelData);
            },
        };
        match element.value() {
            Value::Primitive(PrimitiveValue::U8(bytes)) => Ok(
                PixelRequest::Native { image, data: vstd::slice::slice_to_vec(bytes.as_slice()) },
            ),
            Value::Primitive(PrimitiveValue::U16(words)) => Ok(
                PixelRequest::Native { image, data: words_to_bytes(words) },
            ),
            Value::Primitive(_) => Err(Error::InvalidPixelData),
            Value::Sequence(_) => Err(Error::InvalidPixelData),
            Value::PixelSequence(f) => {
                if f.fragments.len() == 0 {
                    return Err(Error::InvalidPixelData);
                }
                let adapted: bool = match codec {
                    Codec::PixelAdapter { decode, encode } => decode,
                    _ => false,
                };
                if !adapted {
                    return Err(Error::UnsupportedTransferSyntax);
                }
                Ok(
                    PixelRequest::Encapsulated {
                        image,
                        fragments: &f.fragments,
                        multi_frame: f.fragments.len() > 1,
                        transfer_syntax: uid,
                    },
                )
            },
        }
    }

    /// Decodes the pixel data of the object. The transfer syntax is looked
    /// up in `registry`; `adapter` is asked where the pixel data is
    /// encapsulated and the registry says that there is an adapter for the
    /// transfer syntax.
    pub fn decode_pixel_data<A: PixelAdapter>(&self, registry: &TransferSyntaxRegistry, adapter: &A) -> (r:
        Result<DecodedPixelData, Error>)
        ensures
            decodes(self, registry.model(), adapter, r),
    {
        match self.pixel_request(registry)? {
            PixelRequest::Native { image, data } => self.decode_native(image, data),
            PixelRequest::Encapsulated { image, fragments, multi_frame, transfer_syntax } => {
                let decoded: Result<Vec<u8>, String> = adapter.decode_frames(
                    fragments,
                    multi_frame,
                    &image,
                    transfer_syntax,
                );
                finish_decoding(image, decoded, presentation(&self.obj))
            },
        }
    }

    /// Puts decoded pixel data together from native bytes.
    fn decode_native(&self, image: ImageInfo, data: Vec<u8>) -> (r: Result<DecodedPixelData, Error>)
        ensures
            match planar_of(self.object_model()) {
                Err(g) => r matches Err(e) && e.kind() == ErrorKind::GetAttribute(g),
                Ok(planar) => match presentation_of(self.object_model()) {
                    Err(g) => r matches Err(e) && e.kind() == ErrorKind::GetAttribute(g),
                    Ok(p) => r matches Ok(d) && d@ == decoded_of(image, data@, planar, p),
                },
            },
    {
        let planar: PlanarConfiguration = match planar_configuration(&self.obj) {
            Ok(p) => p,
            Err(source) => {
                return Err(Error::GetAttribute { source });
            },
        };
        match presentation(&self.obj) {
            Ok(p) => Ok(assemble(image, data, planar, p)),
            Err(source) => Err(Error::GetAttribute { source }),
        }
    }
}

} // verus!

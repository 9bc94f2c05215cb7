//! The JSON form of data sets: a data set is a JSON object whose member
//! names are tags written in eight hexadecimal digits, and each member is
//! an object with the value representation under `"vr"` and the value under
//! `"Value"` or, in base64, under `"InlineBinary"`.

use vstd::prelude::*;

pub mod de;
pub mod laws;
pub mod ser;

verus! {

/// A JSON number that is no integer in the range of `u64` or `i64`, in the
/// three forms in which it is read: as a double, as a single, and in
/// decimal.
#[derive(Clone, Debug, PartialEq, Eq)]
pub struct JsonFloat {
    /// The number as a double-precision float, in the 64 bits of its IEEE
    /// 754 form.
    pub double: u64,
    /// The number as a single-precision float, in the 32 bits of its IEEE
    /// 754 form.
    pub single: u32,
    /// The number written in decimal.
    pub text: String,
}

/// A JSON number.
#[derive(Clone, Debug, PartialEq, Eq)]
pub enum JsonNumber {
    /// An integer that is not negative.
    PosInt(u64),
    /// A negative integer.
    NegInt(i64),
    /// Any other number.
    Float(JsonFloat),
}

/// A JSON value. The members of an object are held in the order in which
/// the document gives them.
#[derive(Debug, PartialEq)]
pub enum JsonValue {
    /// `null`.
    Null,
    /// `true` or `false`.
    Bool(bool),
    /// A number.
    Number(JsonNumber),
    /// A string.
    Str(String),
    /// An array.
    Array(Vec<JsonValue>),
    /// An object: its members by name, in the order of the document.
    Object(Vec<(String, JsonValue)>),
}

/// Why a JSON value is not the JSON form of a data set.
#[derive(Clone, Copy, Debug, PartialEq, Eq, Structural)]
pub enum DeError {
    /// A value that should be an object is none.
    NotAnObject,
    /// The name of a member of a data set is no tag.
    InvalidTag,
    /// A data element object has no member at all.
    MissingVr,
    /// The first member of a data element object is not `"vr"`.
    VrNotFirst,
    /// The value representation is not given as a string.
    VrNotText,
    /// `"vr"` occurs a second time.
    DuplicateVr,
    /// `"Value"` comes after `"InlineBinary"`.
    ValueAfterInlineBinary,
    /// `"InlineBinary"` comes after `"Value"`.
    InlineBinaryAfterValue,
    /// A data element object has a member that is none of `"vr"`, `"Value"`
    /// and `"InlineBinary"`.
    UnknownField,
    /// A `"Value"` is given for the representation `UN`, which has no JSON
    /// value form.
    ValueInUn,
    /// A `"Value"` is not an array.
    ValueNotArray,
    /// An item of a `"Value"` array is not of the form that the value
    /// representation asks for, or is out of its range.
    InvalidItem,
    /// A person name object names one of its components twice.
    DuplicateComponent,
    /// An `"InlineBinary"` is not given as a string.
    InlineBinaryNotText,
    /// An `"InlineBinary"` is not valid base64.
    InvalidBase64,
    /// A value takes more bytes than a header can announce.
    ValueTooLong,
}

impl DeError {
    /// What the error says.
    pub open spec fn text(self) -> Seq<char> {
        match self {
            DeError::NotAnObject => "expected an object"@,
            DeError::InvalidTag => "expected a DICOM tag string in the form \"GGGGEEEE\""@,
            DeError::MissingVr => "\"vr\" is not set"@,
            DeError::VrNotFirst => "expected \"vr\" to be the first field"@,
            DeError::VrNotText => "expected \"vr\" to be a string"@,
            DeError::DuplicateVr => "\"vr\" should only be set once"@,
            DeError::ValueAfterInlineBinary => "\"Value\" conflicts with \"InlineBinary\""@,
            DeError::InlineBinaryAfterValue => "\"InlineBinary\" conflicts with \"Value\""@,
            DeError::UnknownField => "Unrecognized data element field"@,
            DeError::ValueInUn => "can't parse JSON Value in UN"@,
            DeError::ValueNotArray => "expected \"Value\" to be an array"@,
            DeError::InvalidItem => "invalid item in \"Value\""@,
            DeError::DuplicateComponent => "duplicate component in person name"@,
            DeError::InlineBinaryNotText => "expected \"InlineBinary\" to be a string"@,
            DeError::InvalidBase64 => "inline binary data is not valid base64"@,
            DeError::ValueTooLong => "value is too long"@,
        }
    }

    /// What the error says.
    pub fn message(&self) -> (s: &'static str)
        ensures
            s@ == self.text(),
    {
        match self {
            DeError::NotAnObject => "expected an object",
            DeError::InvalidTag => "expected a DICOM tag string in the form \"GGGGEEEE\"",
            DeError::MissingVr => "\"vr\" is not set",
            DeError::VrNotFirst => "expected \"vr\" to be the first field",
            DeError::VrNotText => "expected \"vr\" to be a string",
            DeError::DuplicateVr => "\"vr\" should only be set once",
            DeError::ValueAfterInlineBinary => "\"Value\" conflicts with \"InlineBinary\"",
            DeError::InlineBinaryAfterValue => "\"InlineBinary\" conflicts with \"Value\"",
            DeError::UnknownField => "Unrecognized data element field",
            DeError::ValueInUn => "can't parse JSON Value in UN",
            DeError::ValueNotArray => "expected \"Value\" to be an array",
            DeError::InvalidItem => "invalid item in \"Value\"",
            DeError::DuplicateComponent => "duplicate component in person name",
            DeError::InlineBinaryNotText => "expected \"InlineBinary\" to be a string",
            DeError::InvalidBase64 => "inline binary data is not valid base64",
            DeError::ValueTooLong => "value is too long",
        }
    }
}

} // verus!

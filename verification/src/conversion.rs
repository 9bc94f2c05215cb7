//! Conversions of primitive values to integers and to text.

use crate::decimal::{integer_of_text, parse_integer};
use crate::text::{trim, trimmed_text, strip_padding, without_padding};
use crate::value::{PrimitiveModel, PrimitiveValue, ValueType};
use vstd::prelude::*;

verus! {

/// What a conversion was asked to give.
#[derive(Clone, Copy, Debug, PartialEq, Eq, Structural)]
pub enum Requested {
    /// An integer.
    Integer,
    /// A text.
    Text,
}

/// Why a value could not be read as what was asked for.
#[derive(Clone, Copy, Debug, PartialEq, Eq, Structural)]
pub enum InvalidValueReadError {
    /// The value holds nothing.
    EmptyValue,
    /// A text does not write an integer.
    ParseInteger,
    /// A number does not fit in the type that was asked for.
    NarrowConvert,
    /// Values of this kind have no such form.
    NonPrimitiveType,
}

/// The failure of a conversion: what was asked for, the kind of the value
/// that was there, and why the two do not go together.
#[derive(Clone, Copy, Debug, PartialEq, Eq, Structural)]
pub struct ConvertValueError {
    /// What the conversion was asked to give.
    pub requested: Requested,
    /// The kind of the value.
    pub original: ValueType,
    /// Why the value could not be read so.
    pub cause: InvalidValueReadError,
}

impl PrimitiveModel {
    /// The first value of the list as an integer, or the reason why there
    /// is none: a number as it is, and a text by the integer that it writes
    /// in decimal between its padding. Floats and tags give no integer.
    pub open spec fn first_integer(self) -> Result<int, InvalidValueReadError> {
        match self {
            PrimitiveModel::Empty => Err(InvalidValueReadError::EmptyValue),
            PrimitiveModel::Strs(list) => if list.len() == 0 {
                Err(InvalidValueReadError::EmptyValue)
            } else {
                match integer_of_text(trimmed_text(list[0])) {
                    Some(v) => Ok(v),
                    None => Err(InvalidValueReadError::ParseInteger),
                }
            },
            PrimitiveModel::U8(list) => if list.len() == 0 {
                Err(InvalidValueReadError::EmptyValue)
            } else {
                Ok(list[0] as int)
            },
            PrimitiveModel::I16(list) => if list.len() == 0 {
                Err(InvalidValueReadError::EmptyValue)
            } else {
                Ok(list[0] as int)
            },
            PrimitiveModel::U16(list) => if list.len() == 0 {
                Err(InvalidValueReadError::EmptyValue)
            } else {
                Ok(list[0] as int)
            },
            PrimitiveModel::I32(list) => if list.len() == 0 {
                Err(InvalidValueReadError::EmptyValue)
            } else {
                Ok(list[0] as int)
            },
            PrimitiveModel::U32(list) => if list.len() == 0 {
                Err(InvalidValueReadError::EmptyValue)
            } else {
                Ok(list[0] as int)
            },
            PrimitiveModel::I64(list) => if list.len() == 0 {
                Err(InvalidValueReadError::EmptyValue)
            } else {
                Ok(list[0] as int)
            },
            PrimitiveModel::U64(list) => if list.len() == 0 {
                Err(InvalidValueReadError::EmptyValue)
            } else {
                Ok(list[0] as int)
            },
            PrimitiveModel::Tags(_) => Err(InvalidValueReadError::NonPrimitiveType),
            PrimitiveModel::F32(_) => Err(InvalidValueReadError::NonPrimitiveType),
            PrimitiveModel::F64(_) => Err(InvalidValueReadError::NonPrimitiveType),
        }
    }

    /// The first value of the list as an integer between `low` and `high`.
    pub open spec fn first_integer_within(self, low: int, high: int) -> Result<
        int,
        InvalidValueReadError,
    > {
        match self.first_integer() {
            Ok(v) => if low <= v <= high {
                Ok(v)
            } else {
                Err(InvalidValueReadError::NarrowConvert)
            },
            Err(e) => Err(e),
        }
    }

    /// The first text of a value that holds text, without the padding at its
    /// end.
    pub open spec fn first_text(self) -> Result<Seq<char>, InvalidValueReadError> {
        match self {
            PrimitiveModel::Empty => Err(InvalidValueReadError::EmptyValue),
            PrimitiveModel::Strs(list) => if list.len() == 0 {
                Err(InvalidValueReadError::EmptyValue)
            } else {
                Ok(without_padding(list[0]))
            },
            _ => Err(InvalidValueReadError::NonPrimitiveType),
        }
    }
}

/// Reads the integer that a text value writes between its padding.
fn text_integer(text: &str) -> (r: Result<i128, InvalidValueReadError>)
    ensures
        match integer_of_text(trimmed_text(text@)) {
            Some(v) => if -0x8000_0000_0000_0000 <= v <= 0xFFFF_FFFF_FFFF_FFFF {
                r == Ok::<i128, InvalidValueReadError>(v as i128)
            } else {
                r == Err::<i128, InvalidValueReadError>(InvalidValueReadError::NarrowConvert)
            },
            None => r == Err::<i128, InvalidValueReadError>(InvalidValueReadError::ParseInteger),
        },
{
    let t: String = trim(text);
    match parse_integer(t.as_str(), true, -0x8000_0000_0000_0000, 0xFFFF_FFFF_FFFF_FFFF) {
        Some(v) => Ok(v),
        None => {
            // The text may still write an integer that is out of all range:
            // then it is made of an optional sign and digits.
            if writes_integer(t.as_str()) {
                Err(InvalidValueReadError::NarrowConvert)
            } else {
                Err(InvalidValueReadError::ParseInteger)
            }
        },
    }
}

/// Whether a text writes an integer in decimal, of whatever size.
fn writes_integer(text: &str) -> (b: bool)
    ensures
        b == integer_of_text(text@) is Some,
{
    let n: usize = text.unicode_len();
    if n == 0 {
        return false;
    }
    let first: char = text.get_char(0);
    let start: usize = if first == '-' || first == '+' {
        1
    } else {
        0
    };
    if start == n {
        return false;
    }
    let ghost digits = text@.skip(start as int);
    assert(start == 0 ==> digits =~= text@);
    let mut i: usize = start;
    while i < n
        invariant
            start <= i <= n,
            start < n,
            start <= 1,
            n == text@.len(),
            start == 0 ==> digits == text@,
            start == 1 ==> text@[0] == '-' || text@[0] == '+',
            start == 0 ==> text@[0] != '-' && text@[0] != '+',
            digits == text@.skip(start as int),
            forall|j: int| 0 <= j < i - start ==> crate::decimal::is_digit(#[trigger] digits[j]),
        decreases n - i,
    {
        let c: char = text.get_char(i);
        assert(digits[i - start] == c);
        if !('0' <= c && c <= '9') {
            assert(!crate::decimal::all_digits(digits));
            return false;
        }
        i = i + 1;
    }
    assert(crate::decimal::all_digits(digits));
    true
}

impl PrimitiveValue {
    /// Reads the first value of the list as an integer between `low` and
    /// `high`.
    pub fn to_int_within(&self, low: i128, high: i128) -> (r: Result<i128, ConvertValueError>)
        requires
            -0x8000_0000_0000_0000 <= low,
            high <= 0xFFFF_FFFF_FFFF_FFFF,
        ensures
            match self@.first_integer_within(low as int, high as int) {
                Ok(v) => r == Ok::<i128, ConvertValueError>(v as i128),
                Err(cause) => r == Err::<i128, ConvertValueError>(
                    ConvertValueError {
                        requested: Requested::Integer,
                        original: self.kind(),
                        cause,
                    },
                ),
            },
    {
        let first: Result<i128, InvalidValueReadError> = match self {
            PrimitiveValue::Empty => Err(InvalidValueReadError::EmptyValue),
            PrimitiveValue::Strs(list) => {
                if list.len() == 0 {
                    Err(InvalidValueReadError::EmptyValue)
                } else {
                    text_integer(list[0].as_str())
                }
            },
            PrimitiveValue::Str(s) => text_integer(s.as_str()),
            PrimitiveValue::U8(list) => {
                if list.len() == 0 {
                    Err(InvalidValueReadError::EmptyValue)
                } else {
                    Ok(list[0] as i128)
                }
            },
            PrimitiveValue::I16(list) => {
                if list.len() == 0 {
                    Err(InvalidValueReadError::EmptyValue)
                } else {
                    Ok(list[0] as i128)
                }
            },
            PrimitiveValue::U16(list) => {
                if list.len() == 0 {
                    Err(InvalidValueReadError::EmptyValue)
                } else {
                    Ok(list[0] as i128)
                }
            },
            PrimitiveValue::I32(list) => {
                if list.len() == 0 {
                    Err(InvalidValueReadError::EmptyValue)
                } else {
                    Ok(list[0] as i128)
                }
            },
            PrimitiveValue::U32(list) => {
                if list.len() == 0 {
                    Err(InvalidValueReadError::EmptyValue)
                } else {
                    Ok(list[0] as i128)
                }
            },
            PrimitiveValue::I64(list) => {
                if list.len() == 0 {
                    Err(InvalidValueReadError::EmptyValue)
                } else {
                    Ok(list[0] as i128)
                }
            },
            PrimitiveValue::U64(list) => {
                if list.len() == 0 {
                    Err(InvalidValueReadError::EmptyValue)
                } else {
                    Ok(list[0] as i128)
                }
            },
            PrimitiveValue::Tags(_) => Err(InvalidValueReadError::NonPrimitiveType),
            PrimitiveValue::F32(_) => Err(InvalidValueReadError::NonPrimitiveType),
            PrimitiveValue::F64(_) => Err(InvalidValueReadError::NonPrimitiveType),
        };
        match first {
            Ok(v) => {
                if low <= v && v <= high {
                    Ok(v)
                } else {
                    Err(
                        ConvertValueError {
                            requested: Requested::Integer,
                            original: self.value_type(),
                            cause: InvalidValueReadError::NarrowConvert,
                        },
                    )
                }
            },
            Err(cause) => Err(
                ConvertValueError { requested: Requested::Integer, original: self.value_type(), cause },
            ),
        }
    }

    /// Reads the first value of the list as an integer.
    pub fn to_int(&self) -> (r: Result<i64, ConvertValueError>)
        ensures
            match self@.first_integer_within(i64::MIN as int, i64::MAX as int) {
                Ok(v) => r == Ok::<i64, ConvertValueError>(v as i64),
                Err(cause) => r == Err::<i64, ConvertValueError>(
                    ConvertValueError {
                        requested: Requested::Integer,
                        original: self.kind(),
                        cause,
                    },
                ),
            },
    {
        match self.to_int_within(-0x8000_0000_0000_0000, 0x7FFF_FFFF_FFFF_FFFF) {
            Ok(v) => Ok(v as i64),
            Err(e) => Err(e),
        }
    }

    /// Reads the first text of a value that holds text, without the padding
    /// at its end.
    pub fn to_str(&self) -> (r: Result<String, ConvertValueError>)
        ensures
            match self@.first_text() {
                Ok(t) => r matches Ok(s) && s@ == t,
                Err(cause) => r matches Err(e) && e == (ConvertValueError {
                    requested: Requested::Text,
                    original: self.kind(),
                    cause,
                }),
            },
    {
        match self {
            PrimitiveValue::Strs(list) => {
                if list.len() == 0 {
                    Err(
                        ConvertValueError {
                            requested: Requested::Text,
                            original: ValueType::Strs,
                            cause: InvalidValueReadError::EmptyValue,
                        },
                    )
                } else {
                    Ok(strip_padding(list[0].as_str()))
                }
            },
            PrimitiveValue::Str(s) => Ok(strip_padding(s.as_str())),
            PrimitiveValue::Empty => Err(
                ConvertValueError {
                    requested: Requested::Text,
                    original: ValueType::Empty,
                    cause: InvalidValueReadError::EmptyValue,
                },
            ),
            _ => Err(
                ConvertValueError {
                    requested: Requested::Text,
                    original: self.value_type(),
                    cause: InvalidValueReadError::NonPrimitiveType,
                },
            ),
        }
    }
}

/// The integer that a text value writes between its padding.
pub open spec fn text_value(text: Seq<char>) -> Option<int> {
    integer_of_text(trimmed_text(text))
}

/// Whether an integer is there and lies between `low` and `high`.
pub open spec fn lies_within(v: Option<int>, low: int, high: int) -> bool {
    match v {
        Some(v) => low <= v <= high,
        None => false,
    }
}

/// The integers that the texts of a list write between their padding,
/// where each of them writes one between `low` and `high`. A text that
/// writes no integer fails the list before an integer out of range does.
pub open spec fn text_integers(list: Seq<Seq<char>>, low: int, high: int) -> Result<
    Seq<int>,
    InvalidValueReadError,
> {
    if forall|k: int| 0 <= k < list.len() ==> lies_within(#[trigger] text_value(list[k]), low, high) {
        Ok(Seq::new(list.len(), |k: int| text_value(list[k])->0))
    } else if exists|k: int| 0 <= k < list.len() && (#[trigger] text_value(list[k])) is None {
        Err(InvalidValueReadError::ParseInteger)
    } else {
        Err(InvalidValueReadError::NarrowConvert)
    }
}

/// The numbers of a list as integers, where each lies between `low` and
/// `high`.
pub open spec fn within(list: Seq<int>, low: int, high: int) -> Result<
    Seq<int>,
    InvalidValueReadError,
> {
    if forall|k: int| 0 <= k < list.len() ==> low <= #[trigger] list[k] <= high {
        Ok(list)
    } else {
        Err(InvalidValueReadError::NarrowConvert)
    }
}

impl PrimitiveModel {
    /// The values of the list as integers between `low` and `high`: numbers
    /// as they are, and texts by the integers that they write in decimal
    /// between their padding. A text that writes no integer fails the whole
    /// list before a number out of range does. Floats and tags give no
    /// integers.
    pub open spec fn integers_within(self, low: int, high: int) -> Result<
        Seq<int>,
        InvalidValueReadError,
    > {
        match self {
            PrimitiveModel::Empty => Ok(Seq::empty()),
            PrimitiveModel::Strs(list) => text_integers(list, low, high),
            PrimitiveModel::U8(list) => within(Seq::new(list.len(), |k: int| list[k] as int), low, high),
            PrimitiveModel::I16(list) => within(Seq::new(list.len(), |k: int| list[k] as int), low, high),
            PrimitiveModel::U16(list) => within(Seq::new(list.len(), |k: int| list[k] as int), low, high),
            PrimitiveModel::I32(list) => within(Seq::new(list.len(), |k: int| list[k] as int), low, high),
            PrimitiveModel::U32(list) => within(Seq::new(list.len(), |k: int| list[k] as int), low, high),
            PrimitiveModel::I64(list) => within(Seq::new(list.len(), |k: int| list[k] as int), low, high),
            PrimitiveModel::U64(list) => within(Seq::new(list.len(), |k: int| list[k] as int), low, high),
            PrimitiveModel::Tags(_) => Err(InvalidValueReadError::NonPrimitiveType),
            PrimitiveModel::F32(_) => Err(InvalidValueReadError::NonPrimitiveType),
            PrimitiveModel::F64(_) => Err(InvalidValueReadError::NonPrimitiveType),
        }
    }
}

/// Reads the integers that the texts of a list write.
fn texts_to_integers(list: &Vec<String>, low: i64, high: i64) -> (r: Result<
    Vec<i64>,
    InvalidValueReadError,
>)
    ensures
        match text_integers(crate::value::texts(list@), low as int, high as int) {
            Ok(values) => r matches Ok(v) && Seq::new(v@.len(), |k: int| v@[k] as int) == values,
            Err(e) => r matches Err(x) && x == e,
        },
{
    let ghost all = crate::value::texts(list@);
    let mut out: Vec<i64> = Vec::new();
    let mut narrow: bool = false;
    let ghost mut witness: int = 0;
    let mut i: usize = 0;
    while i < list.len()
        invariant
            i <= list@.len(),
            all == crate::value::texts(list@),
            !narrow ==> out@.len() == i,
            !narrow ==> forall|k: int|
                0 <= k < i ==> (#[trigger] text_value(all[k])) == Some(out@[k] as int) && low
                    <= out@[k] <= high,
            forall|k: int| 0 <= k < i ==> (#[trigger] text_value(all[k])) is Some,
            narrow ==> 0 <= witness < i && !lies_within(
                text_value(all[witness]),
                low as int,
                high as int,
            ),
        decreases list@.len() - i,
    {
        assert(all[i as int] == list@[i as int]@);
        match text_integer(list[i].as_str()) {
            Ok(v) => {
                if low as i128 <= v && v <= high as i128 {
                    if !narrow {
                        out.push(v as i64);
                    }
                } else {
                    proof {
                        witness = i as int;
                    }
                    narrow = true;
                }
            },
            Err(InvalidValueReadError::NarrowConvert) => {
                proof {
                    witness = i as int;
                }
                narrow = true;
            },
            Err(_) => {
                assert(text_value(all[i as int]) is None);
                return Err(InvalidValueReadError::ParseInteger);
            },
        }
        i = i + 1;
    }
    if narrow {
        Err(InvalidValueReadError::NarrowConvert)
    } else {
        assert forall|k: int| 0 <= k < all.len() implies lies_within(
            #[trigger] text_value(all[k]),
            low as int,
            high as int,
        ) by {}
        assert(Seq::new(out@.len(), |k: int| out@[k] as int) =~= text_integers(
            all,
            low as int,
            high as int,
        )->Ok_0);
        Ok(out)
    }
}

/// The numbers of a list of `u8` as integers between `low` and `high`.
fn u8s_within(list: &Vec<u8>, low: i64, high: i64) -> (r: Result<Vec<i64>, InvalidValueReadError>)
    ensures
        match within(Seq::new(list@.len(), |k: int| list@[k] as int), low as int, high as int) {
            Ok(values) => r matches Ok(v) && Seq::new(v@.len(), |k: int| v@[k] as int) == values,
            Err(e) => r matches Err(x) && x == e,
        },
{
    let ghost all = Seq::new(list@.len(), |k: int| list@[k] as int);
    let mut out: Vec<i64> = Vec::new();
    let mut i: usize = 0;
    while i < list.len()
        invariant
            i <= list@.len(),
            all == Seq::new(list@.len(), |k: int| list@[k] as int),
            out@.len() == i,
            forall|k: int| 0 <= k < i ==> out@[k] == all[k] && low <= #[trigger] all[k] <= high,
        decreases list@.len() - i,
    {
        let v: i128 = list[i] as i128;
        assert(all[i as int] == v);
        if v < low as i128 || v > high as i128 {
            return Err(InvalidValueReadError::NarrowConvert);
        }
        out.push(v as i64);
        i = i + 1;
    }
    assert(Seq::new(out@.len(), |k: int| out@[k] as int) =~= all);
    Ok(out)
}

/// The numbers of a list of `i16` as integers between `low` and `high`.
fn i16s_within(list: &Vec<i16>, low: i64, high: i64) -> (r: Result<Vec<i64>, InvalidValueReadError>)
    ensures
        match within(Seq::new(list@.len(), |k: int| list@[k] as int), low as int, high as int) {
            Ok(values) => r matches Ok(v) && Seq::new(v@.len(), |k: int| v@[k] as int) == values,
            Err(e) => r matches Err(x) && x == e,
        },
{
    let ghost all = Seq::new(list@.len(), |k: int| list@[k] as int);
    let mut out: Vec<i64> = Vec::new();
    let mut i: usize = 0;
    while i < list.len()
        invariant
            i <= list@.len(),
            all == Seq::new(list@.len(), |k: int| list@[k] as int),
            out@.len() == i,
            forall|k: int| 0 <= k < i ==> out@[k] == all[k] && low <= #[trigger] all[k] <= high,
        decreases list@.len() - i,
    {
        let v: i128 = list[i] as i128;
        assert(all[i as int] == v);
        if v < low as i128 || v > high as i128 {
            return Err(InvalidValueReadError::NarrowConvert);
        }
        out.push(v as i64);
        i = i + 1;
    }
    assert(Seq::new(out@.len(), |k: int| out@[k] as int) =~= all);
    Ok(out)
}

/// The numbers of a list of `u16` as integers between `low` and `high`.
fn u16s_within(list: &Vec<u16>, low: i64, high: i64) -> (r: Result<Vec<i64>, InvalidValueReadError>)
    ensures
        match within(Seq::new(list@.len(), |k: int| list@[k] as int), low as int, high as int) {
            Ok(values) => r matches Ok(v) && Seq::new(v@.len(), |k: int| v@[k] as int) == values,
            Err(e) => r matches Err(x) && x == e,
        },
{
    let ghost all = Seq::new(list@.len(), |k: int| list@[k] as int);
    let mut out: Vec<i64> = Vec::new();
    let mut i: usize = 0;
    while i < list.len()
        invariant
            i <= list@.len(),
            all == Seq::new(list@.len(), |k: int| list@[k] as int),
            out@.len() == i,
            forall|k: int| 0 <= k < i ==> out@[k] == all[k] && low <= #[trigger] all[k] <= high,
        decreases list@.len() - i,
    {
        let v: i128 = list[i] as i128;
        assert(all[i as int] == v);
        if v < low as i128 || v > high as i128 {
            return Err(InvalidValueReadError::NarrowConvert);
        }
        out.push(v as i64);
        i = i + 1;
    }
    assert(Seq::new(out@.len(), |k: int| out@[k] as int) =~= all);
    Ok(out)
}

/// The numbers of a list of `i32` as integers between `low` and `high`.
fn i32s_within(list: &Vec<i32>, low: i64, high: i64) -> (r: Result<Vec<i64>, InvalidValueReadError>)
    ensures
        match within(Seq::new(list@.len(), |k: int| list@[k] as int), low as int, high as int) {
            Ok(values) => r matches Ok(v) && Seq::new(v@.len(), |k: int| v@[k] as int) == values,
            Err(e) => r matches Err(x) && x == e,
        },
{
    let ghost all = Seq::new(list@.len(), |k: int| list@[k] as int);
    let mut out: Vec<i64> = Vec::new();
    let mut i: usize = 0;
    while i < list.len()
        invariant
            i <= list@.len(),
            all == Seq::new(list@.len(), |k: int| list@[k] as int),
            out@.len() == i,
            forall|k: int| 0 <= k < i ==> out@[k] == all[k] && low <= #[trigger] all[k] <= high,
        decreases list@.len() - i,
    {
        let v: i128 = list[i] as i128;
        assert(all[i as int] == v);
        if v < low as i128 || v > high as i128 {
            return Err(InvalidValueReadError::NarrowConvert);
        }
        out.push(v as i64);
        i = i + 1;
    }
    assert(Seq::new(out@.len(), |k: int| out@[k] as int) =~= all);
    Ok(out)
}

/// The numbers of a list of `u32` as integers between `low` and `high`.
fn u32s_within(list: &Vec<u32>, low: i64, high: i64) -> (r: Result<Vec<i64>, InvalidValueReadError>)
    ensures
        match within(Seq::new(list@.len(), |k: int| list@[k] as int), low as int, high as int) {
            Ok(values) => r matches Ok(v) && Seq::new(v@.len(), |k: int| v@[k] as int) == values,
            Err(e) => r matches Err(x) && x == e,
        },
{
    let ghost all = Seq::new(list@.len(), |k: int| list@[k] as int);
    let mut out: Vec<i64> = Vec::new();
    let mut i: usize = 0;
    while i < list.len()
        invariant
            i <= list@.len(),
            all == Seq::new(list@.len(), |k: int| list@[k] as int),
            out@.len() == i,
            forall|k: int| 0 <= k < i ==> out@[k] == all[k] && low <= #[trigger] all[k] <= high,
        decreases list@.len() - i,
    {
        let v: i128 = list[i] as i128;
        assert(all[i as int] == v);
        if v < low as i128 || v > high as i128 {
            return Err(InvalidValueReadError::NarrowConvert);
        }
        out.push(v as i64);
        i = i + 1;
    }
    assert(Seq::new(out@.len(), |k: int| out@[k] as int) =~= all);
    Ok(out)
}

/// The numbers of a list of `i64` as integers between `low` and `high`.
fn i64s_within(list: &Vec<i64>, low: i64, high: i64) -> (r: Result<Vec<i64>, InvalidValueReadError>)
    ensures
        match within(Seq::new(list@.len(), |k: int| list@[k] as int), low as int, high as int) {
            Ok(values) => r matches Ok(v) && Seq::new(v@.len(), |k: int| v@[k] as int) == values,
            Err(e) => r matches Err(x) && x == e,
        },
{
    let ghost all = Seq::new(list@.len(), |k: int| list@[k] as int);
    let mut out: Vec<i64> = Vec::new();
    let mut i: usize = 0;
    while i < list.len()
        invariant
            i <= list@.len(),
            all == Seq::new(list@.len(), |k: int| list@[k] as int),
            out@.len() == i,
            forall|k: int| 0 <= k < i ==> out@[k] == all[k] && low <= #[trigger] all[k] <= high,
        decreases list@.len() - i,
    {
        let v: i128 = list[i] as i128;
        assert(all[i as int] == v);
        if v < low as i128 || v > high as i128 {
            return Err(InvalidValueReadError::NarrowConvert);
        }
        out.push(v as i64);
        i = i + 1;
    }
    assert(Seq::new(out@.len(), |k: int| out@[k] as int) =~= all);
    Ok(out)
}

/// The numbers of a list of `u64` as integers between `low` and `high`.
fn u64s_within(list: &Vec<u64>, low: i64, high: i64) -> (r: Result<Vec<i64>, InvalidValueReadError>)
    ensures
        match within(Seq::new(list@.len(), |k: int| list@[k] as int), low as int, high as int) {
            Ok(values) => r matches Ok(v) && Seq::new(v@.len(), |k: int| v@[k] as int) == values,
            Err(e) => r matches Err(x) && x == e,
        },
{
    let ghost all = Seq::new(list@.len(), |k: int| list@[k] as int);
    let mut out: Vec<i64> = Vec::new();
    let mut i: usize = 0;
    while i < list.len()
        invariant
            i <= list@.len(),
            all == Seq::new(list@.len(), |k: int| list@[k] as int),
            out@.len() == i,
            forall|k: int| 0 <= k < i ==> out@[k] == all[k] && low <= #[trigger] all[k] <= high,
        decreases list@.len() - i,
    {
        let v: i128 = list[i] as i128;
        assert(all[i as int] == v);
        if v < low as i128 || v > high as i128 {
            return Err(InvalidValueReadError::NarrowConvert);
        }
        out.push(v as i64);
        i = i + 1;
    }
    assert(Seq::new(out@.len(), |k: int| out@[k] as int) =~= all);
    Ok(out)
}

impl PrimitiveValue {
    /// Reads the values of the list as integers between `low` and `high`.
    pub fn to_multi_int_within(&self, low: i64, high: i64) -> (r: Result<Vec<i64>, ConvertValueError>)
        ensures
            match self@.integers_within(low as int, high as int) {
                Ok(values) => r matches Ok(v) && Seq::new(v@.len(), |k: int| v@[k] as int)
                    == values,
                Err(cause) => r matches Err(e) && e == (ConvertValueError {
                    requested: Requested::Integer,
                    original: self.kind(),
                    cause,
                }),
            },
    {
        let read: Result<Vec<i64>, InvalidValueReadError> = match self {
            PrimitiveValue::Empty => {
                let none: Vec<i64> = Vec::new();
                assert(Seq::new(none@.len(), |k: int| none@[k] as int) =~= Seq::<int>::empty());
                Ok(none)
            },
            PrimitiveValue::Strs(list) => texts_to_integers(list, low, high),
            PrimitiveValue::Str(s) => {
                let mut one: Vec<String> = Vec::new();
                one.push(s.clone());
                assert(crate::value::texts(one@) =~= seq![s@]);
                texts_to_integers(&one, low, high)
            },
            PrimitiveValue::U8(list) => u8s_within(list, low, high),
            PrimitiveValue::I16(list) => i16s_within(list, low, high),
            PrimitiveValue::U16(list) => u16s_within(list, low, high),
            PrimitiveValue::I32(list) => i32s_within(list, low, high),
            PrimitiveValue::U32(list) => u32s_within(list, low, high),
            PrimitiveValue::I64(list) => i64s_within(list, low, high),
            PrimitiveValue::U64(list) => u64s_within(list, low, high),
            PrimitiveValue::Tags(_) => Err(InvalidValueReadError::NonPrimitiveType),
            PrimitiveValue::F32(_) => Err(InvalidValueReadError::NonPrimitiveType),
            PrimitiveValue::F64(_) => Err(InvalidValueReadError::NonPrimitiveType),
        };
        match read {
            Ok(values) => Ok(values),
            Err(cause) => Err(
                ConvertValueError { requested: Requested::Integer, original: self.value_type(), cause },
            ),
        }
    }

    /// Reads the values of the list as integers.
    pub fn to_multi_int(&self) -> (r: Result<Vec<i64>, ConvertValueError>)
        ensures
            match self@.integers_within(i64::MIN as int, i64::MAX as int) {
                Ok(values) => r matches Ok(v) && Seq::new(v@.len(), |k: int| v@[k] as int)
                    == values,
                Err(cause) => r matches Err(e) && e == (ConvertValueError {
                    requested: Requested::Integer,
                    original: self.kind(),
                    cause,
                }),
            },
    {
        self.to_multi_int_within(i64::MIN, i64::MAX)
    }
}

} // verus!

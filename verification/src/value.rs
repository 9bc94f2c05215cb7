//! Primitive values: what a data element holds that is no sequence.

use crate::tag::Tag;
use vstd::prelude::*;
use vstd::std_specs::cmp::PartialEqSpecImpl;
use vstd::utf8::encode_utf8;

verus! {

/// A primitive value: an ordered list of zero or more values of one kind.
///
/// One text can be held as `Str`, which spares the list; several are held
/// as `Strs`.
#[derive(Clone, Debug)]
pub enum PrimitiveValue {
    /// No value.
    Empty,
    /// A list of texts.
    Strs(Vec<String>),
    /// One text.
    Str(String),
    /// A list of tags.
    Tags(Vec<Tag>),
    /// Bytes.
    U8(Vec<u8>),
    /// Signed 16-bit integers.
    I16(Vec<i16>),
    /// Unsigned 16-bit integers.
    U16(Vec<u16>),
    /// Signed 32-bit integers.
    I32(Vec<i32>),
    /// Unsigned 32-bit integers.
    U32(Vec<u32>),
    /// Signed 64-bit integers.
    I64(Vec<i64>),
    /// Unsigned 64-bit integers.
    U64(Vec<u64>),
    /// Single-precision floats, each held as the 32 bits of its IEEE 754 form.
    F32(Vec<u32>),
    /// Double-precision floats, each held as the 64 bits of its IEEE 754 form.
    F64(Vec<u64>),
}

/// The mathematical value of a [`PrimitiveValue`]: the list that it holds.
/// One text held as `Str` is the list of that one text.
pub ghost enum PrimitiveModel {
    /// No value.
    Empty,
    /// A list of texts.
    Strs(Seq<Seq<char>>),
    /// A list of tags.
    Tags(Seq<Tag>),
    /// Bytes.
    U8(Seq<u8>),
    /// Signed 16-bit integers.
    I16(Seq<i16>),
    /// Unsigned 16-bit integers.
    U16(Seq<u16>),
    /// Signed 32-bit integers.
    I32(Seq<i32>),
    /// Unsigned 32-bit integers.
    U32(Seq<u32>),
    /// Signed 64-bit integers.
    I64(Seq<i64>),
    /// Unsigned 64-bit integers.
    U64(Seq<u64>),
    /// Single-precision floats, each held as the 32 bits of its IEEE 754 form.
    F32(Seq<u32>),
    /// Double-precision floats, each held as the 64 bits of its IEEE 754 form.
    F64(Seq<u64>),
}

/// The kind of a primitive value.
#[derive(Clone, Copy, Debug, PartialEq, Eq, Structural)]
pub enum ValueType {
    /// No value.
    Empty,
    /// A list of texts.
    Strs,
    /// One text.
    Str,
    /// A list of tags.
    Tags,
    /// Bytes.
    U8,
    /// Signed 16-bit integers.
    I16,
    /// Unsigned 16-bit integers.
    U16,
    /// Signed 32-bit integers.
    I32,
    /// Unsigned 32-bit integers.
    U32,
    /// Signed 64-bit integers.
    I64,
    /// Unsigned 64-bit integers.
    U64,
    /// Single-precision floats, each held as the 32 bits of its IEEE 754 form.
    F32,
    /// Double-precision floats, each held as the 64 bits of its IEEE 754 form.
    F64,
}

/// The texts of a list of strings.
pub open spec fn texts(v: Seq<String>) -> Seq<Seq<char>> {
    Seq::new(v.len(), |i: int| v[i]@)
}

/// The number of bytes that a text takes in UTF-8.
pub open spec fn text_bytes(s: Seq<char>) -> nat {
    encode_utf8(s).len()
}

/// The number of bytes that the first `n` texts of `list` take together,
/// with one separator between two of them.
pub open spec fn joined_bytes(list: Seq<Seq<char>>, n: nat) -> nat
    decreases n,
{
    if n == 0 || n > list.len() {
        0
    } else if n == 1 {
        text_bytes(list[0])
    } else {
        joined_bytes(list, (n - 1) as nat) + 1 + text_bytes(list[n - 1])
    }
}

/// A number of bytes made even by one more byte where it is odd.
pub open spec fn even_padded(n: nat) -> nat {
    n + n % 2
}

impl PrimitiveModel {
    /// The number of bytes that the value takes when it is written, before
    /// any padding: texts in UTF-8 with one backslash between two of them,
    /// numbers in their fixed widths, a tag in four bytes.
    pub open spec fn byte_length(self) -> nat {
        match self {
            PrimitiveModel::Empty => 0,
            PrimitiveModel::Strs(list) => joined_bytes(list, list.len()),
            PrimitiveModel::Tags(list) => 4 * list.len(),
            PrimitiveModel::U8(list) => list.len(),
            PrimitiveModel::I16(list) => 2 * list.len(),
            PrimitiveModel::U16(list) => 2 * list.len(),
            PrimitiveModel::I32(list) => 4 * list.len(),
            PrimitiveModel::U32(list) => 4 * list.len(),
            PrimitiveModel::I64(list) => 8 * list.len(),
            PrimitiveModel::U64(list) => 8 * list.len(),
            PrimitiveModel::F32(list) => 4 * list.len(),
            PrimitiveModel::F64(list) => 8 * list.len(),
        }
    }

    /// The number of bytes that the value takes when it is written with its
    /// padding: the length before padding, made even.
    pub open spec fn padded_length(self) -> nat {
        even_padded(self.byte_length())
    }

    /// The number of values in the list.
    pub open spec fn multiplicity(self) -> nat {
        match self {
            PrimitiveModel::Empty => 0,
            PrimitiveModel::Strs(list) => list.len(),
            PrimitiveModel::Tags(list) => list.len(),
            PrimitiveModel::U8(list) => list.len(),
            PrimitiveModel::I16(list) => list.len(),
            PrimitiveModel::U16(list) => list.len(),
            PrimitiveModel::I32(list) => list.len(),
            PrimitiveModel::U32(list) => list.len(),
            PrimitiveModel::I64(list) => list.len(),
            PrimitiveModel::U64(list) => list.len(),
            PrimitiveModel::F32(list) => list.len(),
            PrimitiveModel::F64(list) => list.len(),
        }
    }
}

impl View for PrimitiveValue {
    type V = PrimitiveModel;

    open spec fn view(&self) -> PrimitiveModel {
        match self {
            PrimitiveValue::Empty => PrimitiveModel::Empty,
            PrimitiveValue::Strs(list) => PrimitiveModel::Strs(texts(list@)),
            PrimitiveValue::Str(s) => PrimitiveModel::Strs(seq![s@]),
            PrimitiveValue::Tags(list) => PrimitiveModel::Tags(list@),
            PrimitiveValue::U8(list) => PrimitiveModel::U8(list@),
            PrimitiveValue::I16(list) => PrimitiveModel::I16(list@),
            PrimitiveValue::U16(list) => PrimitiveModel::U16(list@),
            PrimitiveValue::I32(list) => PrimitiveModel::I32(list@),
            PrimitiveValue::U32(list) => PrimitiveModel::U32(list@),
            PrimitiveValue::I64(list) => PrimitiveModel::I64(list@),
            PrimitiveValue::U64(list) => PrimitiveModel::U64(list@),
            PrimitiveValue::F32(list) => PrimitiveModel::F32(list@),
            PrimitiveValue::F64(list) => PrimitiveModel::F64(list@),
        }
    }
}

/// The number of bytes that the texts of `list` take together, with one
/// separator between two of them; `None` where that number does not fit.
fn joined_length(list: &Vec<String>) -> (r: Option<usize>)
    ensures
        r matches Some(n) ==> n == joined_bytes(texts(list@), list@.len()),
        r is None <==> joined_bytes(texts(list@), list@.len()) > usize::MAX,
{
    let mut total: usize = 0;
    let mut i: usize = 0;
    while i < list.len()
        invariant
            i <= list@.len(),
            total == joined_bytes(texts(list@), i as nat),
        decreases list@.len() - i,
    {
        let s: &str = list[i].as_str();
        let n: usize = s.as_bytes().len();
        let between: usize = if i == 0 {
            0
        } else {
            1
        };
        assert(texts(list@)[i as int] == s@);
        assert(joined_bytes(texts(list@), (i + 1) as nat) == total + between + n);
        if total > usize::MAX - between || n > usize::MAX - between - total {
            proof {
                lemma_joined_bytes_grow(texts(list@), (i + 1) as nat, list@.len());
            }
            return None;
        }
        total = total + between + n;
        i = i + 1;
    }
    Some(total)
}

/// The texts up to a later place take no fewer bytes.
pub proof fn lemma_joined_bytes_grow(list: Seq<Seq<char>>, n: nat, m: nat)
    requires
        n <= m <= list.len(),
    ensures
        joined_bytes(list, n) <= joined_bytes(list, m),
    decreases m,
{
    if n < m {
        lemma_joined_bytes_grow(list, n, (m - 1) as nat);
    }
}

/// `n` times `width`, where that fits.
fn scaled(n: usize, width: usize) -> (r: Option<usize>)
    requires
        1 <= width <= 8,
    ensures
        r matches Some(v) ==> v == n * width,
        r is None <==> n * width > usize::MAX,
{
    if n > usize::MAX / width {
        assert(n * width > usize::MAX) by (nonlinear_arith)
            requires
                n > usize::MAX / width,
                1 <= width <= 8,
        ;
        None
    } else {
        assert(n * width <= usize::MAX) by (nonlinear_arith)
            requires
                n <= usize::MAX / width,
                1 <= width <= 8,
        ;
        Some(n * width)
    }
}

/// Whether two lists of texts hold the same texts.
pub fn same_texts(a: &Vec<String>, b: &Vec<String>) -> (r: bool)
    ensures
        r == (texts(a@) == texts(b@)),
{
    if a.len() != b.len() {
        assert(texts(a@).len() != texts(b@).len());
        return false;
    }
    let mut i: usize = 0;
    while i < a.len()
        invariant
            i <= a@.len(),
            a@.len() == b@.len(),
            forall|j: int| 0 <= j < i ==> a@[j]@ == b@[j]@,
        decreases a@.len() - i,
    {
        if a[i] != b[i] {
            assert(texts(a@)[i as int] != texts(b@)[i as int]);
            return false;
        }
        i = i + 1;
    }
    assert(texts(a@) =~= texts(b@));
    true
}

/// Whether a list of texts holds the one text `s` and nothing else.
pub fn is_one_text(list: &Vec<String>, s: &String) -> (r: bool)
    ensures
        r == (texts(list@) == seq![s@]),
{
    if list.len() != 1 {
        assert(texts(list@).len() != seq![s@].len());
        return false;
    }
    if list[0] != *s {
        assert(texts(list@)[0] != seq![s@][0]);
        return false;
    }
    assert(texts(list@) =~= seq![s@]);
    true
}

/// Whether two lists of tags hold the same tags.
pub fn same_tags(a: &Vec<Tag>, b: &Vec<Tag>) -> (r: bool)
    ensures
        r == (a@ == b@),
{
    if a.len() != b.len() {
        return false;
    }
    let mut i: usize = 0;
    while i < a.len()
        invariant
            i <= a@.len(),
            a@.len() == b@.len(),
            forall|j: int| 0 <= j < i ==> a@[j] == b@[j],
        decreases a@.len() - i,
    {
        if a[i] != b[i] {
            return false;
        }
        i = i + 1;
    }
    assert(a@ =~= b@);
    true
}

impl PartialEq for PrimitiveValue {
    /// Two values are equal when they hold the same list. One text held as
    /// `Str` equals the list of that one text.
    fn eq(&self, other: &PrimitiveValue) -> (r: bool) {
        match (self, other) {
            (PrimitiveValue::Empty, PrimitiveValue::Empty) => true,
            (PrimitiveValue::Strs(a), PrimitiveValue::Strs(b)) => same_texts(a, b),
            (PrimitiveValue::Str(a), PrimitiveValue::Str(b)) => {
                assert((seq![a@] == seq![b@]) == (a@ == b@)) by {
                    assert(seq![a@][0] == a@);
                    assert(seq![b@][0] == b@);
                }
                *a == *b
            },
            (PrimitiveValue::Str(a), PrimitiveValue::Strs(b)) => {
                assert((seq![a@] == texts(b@)) == (texts(b@) == seq![a@]));
                is_one_text(b, a)
            },
            (PrimitiveValue::Strs(a), PrimitiveValue::Str(b)) => is_one_text(a, b),
            (PrimitiveValue::Tags(a), PrimitiveValue::Tags(b)) => same_tags(a, b),
            (PrimitiveValue::U8(a), PrimitiveValue::U8(b)) => {
                let r = *a == *b;
                assert(r == (a@ =~= b@));
                r
            },
            (PrimitiveValue::I16(a), PrimitiveValue::I16(b)) => {
                let r = *a == *b;
                assert(r == (a@ =~= b@));
                r
            },
            (PrimitiveValue::U16(a), PrimitiveValue::U16(b)) => {
                let r = *a == *b;
                assert(r == (a@ =~= b@));
                r
            },
            (PrimitiveValue::I32(a), PrimitiveValue::I32(b)) => {
                let r = *a == *b;
                assert(r == (a@ =~= b@));
                r
            },
            (PrimitiveValue::U32(a), PrimitiveValue::U32(b)) => {
                let r = *a == *b;
                assert(r == (a@ =~= b@));
                r
            },
            (PrimitiveValue::I64(a), PrimitiveValue::I64(b)) => {
                let r = *a == *b;
                assert(r == (a@ =~= b@));
                r
            },
            (PrimitiveValue::U64(a), PrimitiveValue::U64(b)) => {
                let r = *a == *b;
                assert(r == (a@ =~= b@));
                r
            },
            (PrimitiveValue::F32(a), PrimitiveValue::F32(b)) => {
                let r = *a == *b;
                assert(r == (a@ =~= b@));
                r
            },
            (PrimitiveValue::F64(a), PrimitiveValue::F64(b)) => {
                let r = *a == *b;
                assert(r == (a@ =~= b@));
                r
            },
            _ => false,
        }
    }
}

impl PartialEqSpecImpl for PrimitiveValue {
    open spec fn obeys_eq_spec() -> bool {
        true
    }

    open spec fn eq_spec(&self, other: &PrimitiveValue) -> bool {
        self@ == other@
    }
}

impl PrimitiveValue {
    /// The kind of the value.
    pub open spec fn kind(&self) -> ValueType {
        match self {
            PrimitiveValue::Empty => ValueType::Empty,
            PrimitiveValue::Strs(_) => ValueType::Strs,
            PrimitiveValue::Str(_) => ValueType::Str,
            PrimitiveValue::Tags(_) => ValueType::Tags,
            PrimitiveValue::U8(_) => ValueType::U8,
            PrimitiveValue::I16(_) => ValueType::I16,
            PrimitiveValue::U16(_) => ValueType::U16,
            PrimitiveValue::I32(_) => ValueType::I32,
            PrimitiveValue::U32(_) => ValueType::U32,
            PrimitiveValue::I64(_) => ValueType::I64,
            PrimitiveValue::U64(_) => ValueType::U64,
            PrimitiveValue::F32(_) => ValueType::F32,
            PrimitiveValue::F64(_) => ValueType::F64,
        }
    }

    /// The kind of the value.
    pub fn value_type(&self) -> (t: ValueType)
        ensures
            t == self.kind(),
    {
        match self {
            PrimitiveValue::Empty => ValueType::Empty,
            PrimitiveValue::Strs(_) => ValueType::Strs,
            PrimitiveValue::Str(_) => ValueType::Str,
            PrimitiveValue::Tags(_) => ValueType::Tags,
            PrimitiveValue::U8(_) => ValueType::U8,
            PrimitiveValue::I16(_) => ValueType::I16,
            PrimitiveValue::U16(_) => ValueType::U16,
            PrimitiveValue::I32(_) => ValueType::I32,
            PrimitiveValue::U32(_) => ValueType::U32,
            PrimitiveValue::I64(_) => ValueType::I64,
            PrimitiveValue::U64(_) => ValueType::U64,
            PrimitiveValue::F32(_) => ValueType::F32,
            PrimitiveValue::F64(_) => ValueType::F64,
        }
    }

    /// The number of values in the list.
    pub fn multiplicity(&self) -> (n: usize)
        ensures
            n == self@.multiplicity(),
    {
        match self {
            PrimitiveValue::Empty => 0,
            PrimitiveValue::Strs(list) => list.len(),
            PrimitiveValue::Str(_) => 1,
            PrimitiveValue::Tags(list) => list.len(),
            PrimitiveValue::U8(list) => list.len(),
            PrimitiveValue::I16(list) => list.len(),
            PrimitiveValue::U16(list) => list.len(),
            PrimitiveValue::I32(list) => list.len(),
            PrimitiveValue::U32(list) => list.len(),
            PrimitiveValue::I64(list) => list.len(),
            PrimitiveValue::U64(list) => list.len(),
            PrimitiveValue::F32(list) => list.len(),
            PrimitiveValue::F64(list) => list.len(),
        }
    }

    /// The number of bytes that the value takes when it is written, before
    /// any padding; `None` where that number does not fit in `usize`.
    pub fn byte_length(&self) -> (r: Option<usize>)
        ensures
            r matches Some(n) ==> n == self@.byte_length(),
            r is None <==> self@.byte_length() > usize::MAX,
    {
        match self {
            PrimitiveValue::Empty => Some(0),
            PrimitiveValue::Strs(list) => joined_length(list),
            PrimitiveValue::Str(s) => {
                assert(joined_bytes(seq![s@], 1) == text_bytes(s@));
                Some(s.as_str().as_bytes().len())
            },
            PrimitiveValue::Tags(list) => scaled(list.len(), 4),
            PrimitiveValue::U8(list) => scaled(list.len(), 1),
            PrimitiveValue::I16(list) => scaled(list.len(), 2),
            PrimitiveValue::U16(list) => scaled(list.len(), 2),
            PrimitiveValue::I32(list) => scaled(list.len(), 4),
            PrimitiveValue::U32(list) => scaled(list.len(), 4),
            PrimitiveValue::I64(list) => scaled(list.len(), 8),
            PrimitiveValue::U64(list) => scaled(list.len(), 8),
            PrimitiveValue::F32(list) => scaled(list.len(), 4),
            PrimitiveValue::F64(list) => scaled(list.len(), 8),
        }
    }

    /// The exact number of bytes that the value takes on the wire: its
    /// length made even, as if text were padded with a space and a unique
    /// identifier with a NUL. This is the length that a header is written
    /// with.
    pub fn calculate_byte_length(&self) -> (n: usize)
        requires
            self@.padded_length() <= usize::MAX,
        ensures
            n == self@.padded_length(),
            n % 2 == 0,
    {
        match self.byte_length() {
            Some(n) => n + n % 2,
            None => 0,
        }
    }

    /// The exact number of bytes that the value takes on the wire, where
    /// that number fits in the 32 bits of a length field and is not the mark
    /// of an undefined length.
    pub fn checked_byte_length(&self) -> (r: Option<u32>)
        ensures
            r matches Some(n) ==> n == self@.padded_length() && n != 0xFFFF_FFFFu32,
            r is None <==> self@.padded_length() >= 0xFFFF_FFFF,
    {
        match self.byte_length() {
            Some(n) => {
                if n <= 0xFFFF_FFFE {
                    Some((n + n % 2) as u32)
                } else {
                    None
                }
            },
            None => None,
        }
    }
}

} // verus!

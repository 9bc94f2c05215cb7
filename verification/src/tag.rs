//! Attribute tags.

use crate::text::{hex_digit, hex_digit_char, hex_digit_value, hex_value, is_hex_digit, push_char};
use vstd::prelude::*;

verus! {

/// The name of an attribute: a group number and an element number.
///
/// Two tags are equal when both numbers are equal, and tags are ordered by
/// group first and by element second.
#[derive(Clone, Copy, Debug, PartialEq, Eq, Structural, Hash, PartialOrd, Ord)]
pub struct Tag(pub u16, pub u16);

/// Why a text is not a tag.
#[derive(Clone, Copy, Debug, PartialEq, Eq, Structural)]
pub enum ParseTagError {
    /// The text does not have exactly eight characters.
    Length,
    /// One of the eight characters is not a hexadecimal digit.
    Digit,
}

/// The number written by four hexadecimal digits, the first one weighing most.
pub open spec fn hex_quad_value(digits: Seq<char>) -> int
    recommends
        digits.len() == 4,
{
    hex_value(digits[0]) * 4096 + hex_value(digits[1]) * 256 + hex_value(digits[2]) * 16
        + hex_value(digits[3])
}

/// The four upper-case hexadecimal digits of a 16-bit number.
pub open spec fn hex_quad(v: u16) -> Seq<char> {
    seq![
        hex_digit((v / 4096) as int),
        hex_digit(((v / 256) % 16) as int),
        hex_digit(((v / 16) % 16) as int),
        hex_digit((v % 16) as int),
    ]
}

/// Whether every character of `text` is a hexadecimal digit.
pub open spec fn all_hex(text: Seq<char>) -> bool {
    forall|i: int| 0 <= i < text.len() ==> is_hex_digit(#[trigger] text[i])
}

impl Tag {
    /// The item start, `(FFFE,E000)`.
    pub fn item() -> (t: Tag)
        ensures
            t == Tag(0xFFFE, 0xE000),
    {
        Tag(0xFFFE, 0xE000)
    }

    /// The item delimitation item, `(FFFE,E00D)`.
    pub fn item_delimiter() -> (t: Tag)
        ensures
            t == Tag(0xFFFE, 0xE00D),
    {
        Tag(0xFFFE, 0xE00D)
    }

    /// The sequence delimitation item, `(FFFE,E0DD)`.
    pub fn sequence_delimiter() -> (t: Tag)
        ensures
            t == Tag(0xFFFE, 0xE0DD),
    {
        Tag(0xFFFE, 0xE0DD)
    }

    /// The pixel data attribute, `(7FE0,0010)`.
    pub fn pixel_data() -> (t: Tag)
        ensures
            t == Tag(0x7FE0, 0x0010),
    {
        Tag(0x7FE0, 0x0010)
    }

    /// The group number.
    pub fn group(self) -> (g: u16)
        ensures
            g == self.0,
    {
        self.0
    }

    /// The element number.
    pub fn element(self) -> (e: u16)
        ensures
            e == self.1,
    {
        self.1
    }

    /// The place of the tag in the order of all tags: the group number
    /// weighs more than the element number.
    pub open spec fn rank(self) -> int {
        self.0 as int * 65536 + self.1 as int
    }

    /// Whether `self` comes strictly before `other` in the order of tags.
    pub fn precedes(self, other: Tag) -> (b: bool)
        ensures
            b == (self.rank() < other.rank()),
    {
        self.0 < other.0 || (self.0 == other.0 && self.1 < other.1)
    }

    /// The tag that a text of the form `GGGGEEEE` names, or the reason why
    /// the text names none.
    pub open spec fn parse_spec(text: Seq<char>) -> Result<Tag, ParseTagError> {
        if text.len() != 8 {
            Err(ParseTagError::Length)
        } else if !all_hex(text) {
            Err(ParseTagError::Digit)
        } else {
            Ok(
                Tag(
                    hex_quad_value(text.subrange(0, 4)) as u16,
                    hex_quad_value(text.subrange(4, 8)) as u16,
                ),
            )
        }
    }

    /// The eight upper-case hexadecimal digits of the tag, group first.
    pub open spec fn hex_spec(self) -> Seq<char> {
        hex_quad(self.0) + hex_quad(self.1)
    }

    /// Reads a tag from its eight hexadecimal digits `GGGGEEEE`; digits of
    /// either case are taken.
    pub fn parse(text: &str) -> (r: Result<Tag, ParseTagError>)
        ensures
            r == Tag::parse_spec(text@),
    {
        if text.unicode_len() != 8 {
            return Err(ParseTagError::Length);
        }
        let mut group: u16 = 0;
        let mut element: u16 = 0;
        let mut i: usize = 0;
        let ghost mut vals: Seq<int> = Seq::empty();
        while i < 8
            invariant
                i <= 8,
                text@.len() == 8,
                vals.len() == i,
                forall|j: int| 0 <= j < i ==> is_hex_digit(#[trigger] text@[j]),
                forall|j: int| 0 <= j < i ==> #[trigger] vals[j] == hex_value(text@[j]),
                forall|j: int| 0 <= j < i ==> 0 <= #[trigger] vals[j] < 16,
                i == 0 ==> group == 0,
                i == 1 ==> group == vals[0],
                i == 2 ==> group == vals[0] * 16 + vals[1],
                i == 3 ==> group == vals[0] * 256 + vals[1] * 16 + vals[2],
                i >= 4 ==> group == vals[0] * 4096 + vals[1] * 256 + vals[2] * 16 + vals[3],
                i <= 4 ==> element == 0,
                i == 5 ==> element == vals[4],
                i == 6 ==> element == vals[4] * 16 + vals[5],
                i == 7 ==> element == vals[4] * 256 + vals[5] * 16 + vals[6],
                i == 8 ==> element == vals[4] * 4096 + vals[5] * 256 + vals[6] * 16 + vals[7],
            decreases 8 - i,
        {
            let c: char = text.get_char(i);
            match hex_digit_value(c) {
                None => {
                    assert(!all_hex(text@));
                    return Err(ParseTagError::Digit);
                },
                Some(v) => {
                    proof {
                        vals = vals.push(v as int);
                    }
                    if i < 4 {
                        group = group * 16 + v as u16;
                    } else {
                        element = element * 16 + v as u16;
                    }
                },
            }
            i = i + 1;
        }
        proof {
            let g = text@.subrange(0, 4);
            let e = text@.subrange(4, 8);
            assert(g[0] == text@[0] && g[1] == text@[1] && g[2] == text@[2] && g[3] == text@[3]);
            assert(e[0] == text@[4] && e[1] == text@[5] && e[2] == text@[6] && e[3] == text@[7]);
            assert(all_hex(text@));
        }
        Ok(Tag(group, element))
    }

    /// Writes the tag as eight upper-case hexadecimal digits, group first.
    pub fn to_hex(self) -> (s: String)
        ensures
            s@ == self.hex_spec(),
    {
        let mut s = String::new();
        push_quad(&mut s, self.0);
        push_quad(&mut s, self.1);
        s
    }
}

/// Appends the four upper-case hexadecimal digits of `v` to `s`.
fn push_quad(s: &mut String, v: u16)
    ensures
        final(s)@ == old(s)@ + hex_quad(v),
{
    push_char(s, hex_digit_char((v / 4096) as u8));
    push_char(s, hex_digit_char(((v / 256) % 16) as u8));
    push_char(s, hex_digit_char(((v / 16) % 16) as u8));
    push_char(s, hex_digit_char((v % 16) as u8));
    assert(s@ =~= old(s)@ + hex_quad(v));
}

/// The four digits of a 16-bit number are hexadecimal digits and name that
/// number again.
pub proof fn lemma_hex_quad_value(v: u16)
    ensures
        hex_quad(v).len() == 4,
        all_hex(hex_quad(v)),
        hex_quad_value(hex_quad(v)) == v,
{
    let q = hex_quad(v);
    let a: u16 = v / 4096;
    let b: u16 = (v / 256) % 16;
    let c: u16 = (v / 16) % 16;
    let d: u16 = v % 16;
    assert(a < 16 && b < 16 && c < 16 && d < 16 && a * 4096 + b * 256 + c * 16 + d == v) by (bit_vector)
        requires
            a == v / 4096,
            b == (v / 256) % 16,
            c == (v / 16) % 16,
            d == v % 16,
    ;
    lemma_hex_digit_value(a as int);
    lemma_hex_digit_value(b as int);
    lemma_hex_digit_value(c as int);
    lemma_hex_digit_value(d as int);
    assert(q[0] == hex_digit(a as int) && q[1] == hex_digit(b as int) && q[2] == hex_digit(c as int)
        && q[3] == hex_digit(d as int));
}

/// A number below sixteen is read back from its hexadecimal digit.
pub proof fn lemma_hex_digit_value(v: int)
    requires
        0 <= v < 16,
    ensures
        is_hex_digit(hex_digit(v)),
        hex_value(hex_digit(v)) == v,
{
}

/// Every tag is read back from its eight hexadecimal digits.
pub proof fn lemma_parse_of_hex(t: Tag)
    ensures
        Tag::parse_spec(t.hex_spec()) == Ok::<Tag, ParseTagError>(t),
{
    let text = t.hex_spec();
    lemma_hex_quad_value(t.0);
    lemma_hex_quad_value(t.1);
    assert(text.len() == 8);
    assert(text.subrange(0, 4) =~= hex_quad(t.0));
    assert(text.subrange(4, 8) =~= hex_quad(t.1));
    assert forall|i: int| 0 <= i < text.len() implies is_hex_digit(#[trigger] text[i]) by {
        if i < 4 {
            assert(text[i] == hex_quad(t.0)[i]);
        } else {
            assert(text[i] == hex_quad(t.1)[i - 4]);
        }
    }
}

} // verus!

//! Integers as decimal text: reading and writing.

use crate::text::push_char;
use vstd::prelude::*;

verus! {

/// Whether `c` is one of the ten decimal digits.
pub open spec fn is_digit(c: char) -> bool {
    '0' <= c && c <= '9'
}

/// The number that the decimal digit `c` stands for.
pub open spec fn digit_value(c: char) -> int {
    c as int - '0' as int
}

/// The decimal digit for a number below ten.
pub open spec fn digit_char(v: int) -> char {
    (v + '0' as int) as char
}

/// Whether every character of `s` is a decimal digit.
pub open spec fn all_digits(s: Seq<char>) -> bool {
    forall|i: int| 0 <= i < s.len() ==> is_digit(#[trigger] s[i])
}

/// The number that a run of decimal digits writes; the empty run writes
/// zero.
pub open spec fn digits_value(s: Seq<char>) -> nat
    decreases s.len(),
{
    if s.len() == 0 {
        0
    } else {
        (digits_value(s.drop_last()) * 10 + digit_value(s.last())) as nat
    }
}

/// The integer that a text writes in decimal: an optional sign, `+` or `-`,
/// and then one digit or more, with nothing before, between or after.
/// `None` for any other text.
pub open spec fn integer_of_text(s: Seq<char>) -> Option<int> {
    if s.len() == 0 {
        None
    } else if s[0] == '-' {
        if s.len() > 1 && all_digits(s.skip(1)) {
            Some(-(digits_value(s.skip(1)) as int))
        } else {
            None
        }
    } else if s[0] == '+' {
        if s.len() > 1 && all_digits(s.skip(1)) {
            Some(digits_value(s.skip(1)) as int)
        } else {
            None
        }
    } else if all_digits(s) {
        Some(digits_value(s) as int)
    } else {
        None
    }
}

/// The integer that a text writes, where that integer lies between `low`
/// and `high`; a text that starts with `-` is taken only where `signed`
/// holds.
pub open spec fn bounded_integer_of_text(s: Seq<char>, signed: bool, low: int, high: int) -> Option<
    int,
> {
    match integer_of_text(s) {
        Some(v) => if low <= v <= high && (signed || s[0] != '-') {
            Some(v)
        } else {
            None
        },
        None => None,
    }
}

/// More digits never write a smaller number.
pub proof fn lemma_digits_value_grows(s: Seq<char>, n: int)
    requires
        0 <= n <= s.len(),
        all_digits(s),
    ensures
        digits_value(s.take(n)) <= digits_value(s),
    decreases s.len() - n,
{
    if n < s.len() {
        let t = s.take(n + 1);
        assert(t.drop_last() =~= s.take(n));
        assert(is_digit(s[n]));
        assert(t.last() == s[n]);
        assert(digits_value(t) == digits_value(s.take(n)) * 10 + digit_value(s[n]));
        lemma_digits_value_grows(s, n + 1);
    } else {
        assert(s.take(n) =~= s);
    }
}

/// Reads the integer that a text writes in decimal, where it lies between
/// `low` and `high`; a text that starts with `-` is read only where
/// `signed` holds.
pub fn parse_integer(text: &str, signed: bool, low: i128, high: i128) -> (r: Option<i128>)
    requires
        -0x8000_0000_0000_0000 <= low,
        high <= 0xFFFF_FFFF_FFFF_FFFF,
    ensures
        r matches Some(v) ==> bounded_integer_of_text(text@, signed, low as int, high as int)
            == Some(v as int),
        r is None ==> bounded_integer_of_text(text@, signed, low as int, high as int) is None,
{
    let n: usize = text.unicode_len();
    if n == 0 {
        return None;
    }
    let first: char = text.get_char(0);
    let negative: bool = first == '-';
    let start: usize = if first == '-' || first == '+' {
        1
    } else {
        0
    };
    if start == n {
        return None;
    }
    let ghost digits = text@.skip(start as int);
    assert(start == 0 ==> digits =~= text@);
    let mut acc: u128 = 0;
    let mut i: usize = start;
    while i < n
        invariant
            start <= i <= n,
            start <= 1,
            -0x8000_0000_0000_0000 <= low,
            high <= 0xFFFF_FFFF_FFFF_FFFF,
            n == text@.len(),
            start == 0 ==> digits == text@,
            start == 1 ==> text@[0] == '-' || text@[0] == '+',
            start == 0 ==> text@[0] != '-' && text@[0] != '+',
            digits == text@.skip(start as int),
            all_digits(digits.take(i - start)),
            acc == digits_value(digits.take(i - start)),
            acc <= 0xFFFF_FFFF_FFFF_FFFF,
        decreases n - i,
    {
        let c: char = text.get_char(i);
        assert(digits[i - start] == c);
        if !('0' <= c && c <= '9') {
            assert(!all_digits(digits));
            return None;
        }
        let d: u128 = ((c as u32) - ('0' as u32)) as u128;
        let ghost t = digits.take(i + 1 - start);
        assert(t.drop_last() =~= digits.take(i - start));
        assert(t.last() == c);
        assert(all_digits(t)) by {
            assert forall|j: int| 0 <= j < t.len() implies is_digit(#[trigger] t[j]) by {
                if j < t.len() - 1 {
                    assert(t[j] == digits.take(i - start)[j]);
                }
            }
        }
        assert(digits_value(t) == acc * 10 + d);
        acc = acc * 10 + d;
        if acc > 0xFFFF_FFFF_FFFF_FFFF {
            // Whatever digits follow, the number stays too large; it only
            // matters whether they are digits at all.
            let mut j: usize = i + 1;
            while j < n
                invariant
                    start <= i < j <= n,
                    start <= 1,
                    n == text@.len(),
                    start == 0 ==> digits == text@,
                    start == 1 ==> text@[0] == '-' || text@[0] == '+',
                    start == 0 ==> text@[0] != '-' && text@[0] != '+',
                    digits == text@.skip(start as int),
                    all_digits(digits.take(j - start)),
                    acc == digits_value(digits.take(i + 1 - start)),
                    acc > 0xFFFF_FFFF_FFFF_FFFF,
                decreases n - j,
            {
                let c2: char = text.get_char(j);
                assert(digits[j - start] == c2);
                if !('0' <= c2 && c2 <= '9') {
                    assert(!all_digits(digits));
                    return None;
                }
                assert(all_digits(digits.take(j + 1 - start))) by {
                    let u = digits.take(j + 1 - start);
                    assert forall|k: int| 0 <= k < u.len() implies is_digit(#[trigger] u[k]) by {
                        if k < u.len() - 1 {
                            assert(u[k] == digits.take(j - start)[k]);
                        }
                    }
                }
                j = j + 1;
            }
            proof {
                assert(digits.take(n - start) =~= digits);
                lemma_digits_value_grows(digits, i + 1 - start);
            }
            return None;
        }
        i = i + 1;
    }
    assert(digits.take(n - start) =~= digits);
    assert(start == 0 ==> digits =~= text@);
    let v: i128 = if negative {
        -(acc as i128)
    } else {
        acc as i128
    };
    if low <= v && v <= high && (signed || !negative) {
        Some(v)
    } else {
        None
    }
}

/// The decimal digits of a number, the one that weighs most first, with no
/// zero before them; zero is the one digit `0`.
pub open spec fn decimal_digits(n: nat) -> Seq<char>
    decreases n,
{
    if n < 10 {
        seq![digit_char(n as int)]
    } else {
        decimal_digits(n / 10).push(digit_char((n % 10) as int))
    }
}

/// The decimal text of an integer: a `-` before the digits of a negative
/// one.
pub open spec fn decimal_text(v: int) -> Seq<char> {
    if v < 0 {
        seq!['-'] + decimal_digits((-v) as nat)
    } else {
        decimal_digits(v as nat)
    }
}

/// The digits of a number are digits, and they write that number.
pub proof fn lemma_decimal_digits(n: nat)
    ensures
        decimal_digits(n).len() >= 1,
        all_digits(decimal_digits(n)),
        digits_value(decimal_digits(n)) == n,
    decreases n,
{
    if n < 10 {
        let s = decimal_digits(n);
        assert(s.drop_last() =~= Seq::<char>::empty());
        assert(digits_value(s.drop_last()) == 0);
    } else {
        lemma_decimal_digits(n / 10);
        let s = decimal_digits(n);
        let head = decimal_digits(n / 10);
        assert(s.drop_last() =~= head);
        assert forall|i: int| 0 <= i < s.len() implies is_digit(#[trigger] s[i]) by {
            if i < s.len() - 1 {
                assert(s[i] == head[i]);
            }
        }
    }
}

/// Every integer is read back from its decimal text.
pub proof fn lemma_integer_of_decimal_text(v: int)
    ensures
        integer_of_text(decimal_text(v)) == Some(v),
{
    if v < 0 {
        lemma_decimal_digits((-v) as nat);
        let s = decimal_text(v);
        assert(s.skip(1) =~= decimal_digits((-v) as nat));
    } else {
        lemma_decimal_digits(v as nat);
        let s = decimal_text(v);
        assert(is_digit(s[0]));
    }
}

/// Appends the decimal digits of `n` to `s`.
pub fn push_decimal(s: &mut String, n: u64)
    ensures
        final(s)@ == old(s)@ + decimal_digits(n as nat),
    decreases n,
{
    if n < 10 {
        push_char(s, ((n as u8) + 48) as char);
        assert(s@ =~= old(s)@ + decimal_digits(n as nat));
    } else {
        push_decimal(s, n / 10);
        push_char(s, (((n % 10) as u8) + 48) as char);
        assert(s@ =~= old(s)@ + decimal_digits(n as nat));
    }
}

/// Writes an unsigned integer in decimal.
pub fn unsigned_to_text(n: u64) -> (s: String)
    ensures
        s@ == decimal_text(n as int),
{
    let mut s = String::new();
    push_decimal(&mut s, n);
    s
}

/// Writes a signed integer in decimal.
pub fn signed_to_text(v: i64) -> (s: String)
    ensures
        s@ == decimal_text(v as int),
{
    let mut s = String::new();
    if v < 0 {
        push_char(&mut s, '-');
        let magnitude: u64 = if v == i64::MIN {
            0x8000_0000_0000_0000
        } else {
            (-v) as u64
        };
        push_decimal(&mut s, magnitude);
        assert(s@ =~= seq!['-'] + decimal_digits((-v) as nat));
    } else {
        push_decimal(&mut s, v as u64);
    }
    s
}

} // verus!

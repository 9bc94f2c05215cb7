//! Small helpers for building and reading strings.

use vstd::prelude::*;

verus! {

/// Appends one character to a string.
///
/// Trusted: this is `String::push` of the standard library, which adds the
/// given character at the end of the string and changes nothing else.
#[verifier::external_body]
pub(crate) fn push_char(s: &mut String, c: char)
    ensures
        final(s)@ == old(s)@.push(c),
{
    s.push(c)
}

/// Whether a string is the given text.
pub fn same_text(s: &String, text: &str) -> (b: bool)
    ensures
        b == (s@ == text@),
{
    let t: String = text.to_owned();
    *s == t
}

/// Appends the bytes of a run.
pub fn append_bytes(out: &mut Vec<u8>, bytes: &[u8])
    ensures
        final(out)@ == old(out)@ + bytes@,
{
    let mut i: usize = 0;
    while i < bytes.len()
        invariant
            i <= bytes@.len(),
            out@ == old(out)@ + bytes@.take(i as int),
        decreases bytes@.len() - i,
    {
        out.push(bytes[i]);
        assert(out@ =~= old(out)@ + bytes@.take(i + 1));
        i = i + 1;
    }
    assert(bytes@.take(bytes@.len() as int) =~= bytes@);
}

/// Whether `c` is one of the sixteen hexadecimal digits, in either case.
pub open spec fn is_hex_digit(c: char) -> bool {
    ('0' <= c && c <= '9') || ('A' <= c && c <= 'F') || ('a' <= c && c <= 'f')
}

/// The number that the hexadecimal digit `c` stands for.
pub open spec fn hex_value(c: char) -> int
    recommends
        is_hex_digit(c),
{
    if '0' <= c && c <= '9' {
        c as int - '0' as int
    } else if 'A' <= c && c <= 'F' {
        c as int - 'A' as int + 10
    } else {
        c as int - 'a' as int + 10
    }
}

/// The upper-case hexadecimal digit for a number below sixteen.
pub open spec fn hex_digit(v: int) -> char
    recommends
        0 <= v < 16,
{
    if v < 10 {
        (v + '0' as int) as char
    } else {
        (v - 10 + 'A' as int) as char
    }
}

/// Reads one hexadecimal digit; `None` for any other character.
pub fn hex_digit_value(c: char) -> (r: Option<u8>)
    ensures
        r is Some <==> is_hex_digit(c),
        r matches Some(v) ==> v as int == hex_value(c) && v < 16,
{
    if '0' <= c && c <= '9' {
        Some(((c as u32) - ('0' as u32)) as u8)
    } else if 'A' <= c && c <= 'F' {
        Some(((c as u32) - ('A' as u32) + 10) as u8)
    } else if 'a' <= c && c <= 'f' {
        Some(((c as u32) - ('a' as u32) + 10) as u8)
    } else {
        None
    }
}

/// Writes a number below sixteen as an upper-case hexadecimal digit.
pub fn hex_digit_char(v: u8) -> (c: char)
    requires
        v < 16,
    ensures
        c == hex_digit(v as int),
        is_hex_digit(c),
        hex_value(c) == v,
{
    if v < 10 {
        (v + 48) as char
    } else {
        (v + 55) as char
    }
}

/// Whether `c` is one of the characters that pad a text value: the space
/// and NUL.
pub open spec fn is_padding(c: char) -> bool {
    c == ' ' || c == '\0'
}

/// A text without the spaces and NULs at its end.
pub open spec fn without_padding(s: Seq<char>) -> Seq<char>
    decreases s.len(),
{
    if s.len() > 0 && is_padding(s.last()) {
        without_padding(s.drop_last())
    } else {
        s
    }
}

/// A text without the spaces at its start.
pub open spec fn without_leading_spaces(s: Seq<char>) -> Seq<char>
    decreases s.len(),
{
    if s.len() > 0 && s[0] == ' ' {
        without_leading_spaces(s.skip(1))
    } else {
        s
    }
}

/// A text without the padding at its end and the spaces at its start.
pub open spec fn trimmed_text(s: Seq<char>) -> Seq<char> {
    without_leading_spaces(without_padding(s))
}

/// What is left of a text without its padding is a start of the text.
pub proof fn lemma_without_padding(s: Seq<char>)
    ensures
        without_padding(s).len() <= s.len(),
        without_padding(s) == s.take(without_padding(s).len() as int),
        without_padding(s).len() > 0 ==> !is_padding(without_padding(s).last()),
    decreases s.len(),
{
    if s.len() > 0 && is_padding(s.last()) {
        lemma_without_padding(s.drop_last());
        let n = without_padding(s).len() as int;
        assert(s.drop_last().take(n) =~= s.take(n));
    } else {
        assert(s.take(s.len() as int) =~= s);
    }
}

/// The number of characters of a text before the padding at its end.
pub fn unpadded_len(text: &str) -> (n: usize)
    ensures
        n == without_padding(text@).len(),
        n <= text@.len(),
{
    let mut n: usize = text.unicode_len();
    assert(text@.take(n as int) =~= text@);
    while n > 0
        invariant
            n <= text@.len(),
            without_padding(text@) == without_padding(text@.take(n as int)),
        decreases n,
    {
        let c: char = text.get_char(n - 1);
        if c == ' ' || c == '\0' {
            assert(text@.take(n as int).drop_last() =~= text@.take(n - 1));
            n = n - 1;
        } else {
            assert(text@.take(n as int).last() == c);
            return n;
        }
    }
    n
}

/// A text without the spaces and NULs at its end.
pub fn strip_padding(text: &str) -> (s: String)
    ensures
        s@ == without_padding(text@),
{
    let n: usize = unpadded_len(text);
    proof {
        lemma_without_padding(text@);
    }
    text.substring_char(0, n).to_owned()
}

/// A text without the padding at its end and the spaces at its start.
pub fn trim(text: &str) -> (s: String)
    ensures
        s@ == trimmed_text(text@),
{
    let n: usize = unpadded_len(text);
    proof {
        lemma_without_padding(text@);
    }
    let ghost body = without_padding(text@);
    let mut k: usize = 0;
    assert(body.skip(0) =~= body);
    while k < n
        invariant
            k <= n,
            n == body.len(),
            n <= text@.len(),
            body == text@.take(n as int),
            body == without_padding(text@),
            without_leading_spaces(body) == without_leading_spaces(body.skip(k as int)),
        decreases n - k,
    {
        let c: char = text.get_char(k);
        assert(body.skip(k as int)[0] == c);
        if c == ' ' {
            assert(body.skip(k as int).skip(1) =~= body.skip(k + 1));
            k = k + 1;
        } else {
            let t: &str = text.substring_char(k, n);
            assert(t@ =~= body.skip(k as int));
            return t.to_owned();
        }
    }
    assert(body.skip(k as int).len() == 0);
    let t: &str = text.substring_char(n, n);
    assert(t@ =~= body.skip(k as int));
    t.to_owned()
}

} // verus!

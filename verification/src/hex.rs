//! Hexadecimal digits, and the two-digit form of a byte.
//!
//! Reading accepts both cases; writing produces lower case only.

use vstd::prelude::*;

verus! {

/// Whether `c` is one of `0`-`9`, `a`-`f` or `A`-`F`.
pub open spec fn is_hex_digit(c: char) -> bool {
    ('0' <= c && c <= '9') || ('a' <= c && c <= 'f') || ('A' <= c && c <= 'F')
}

/// Whether `c` is one of `0`-`9` or `a`-`f`: the digits that are written.
pub open spec fn is_lower_hex_digit(c: char) -> bool {
    ('0' <= c && c <= '9') || ('a' <= c && c <= 'f')
}

/// The number, from 0 to 15, that the hexadecimal digit `c` stands for.
pub open spec fn hex_digit_value(c: char) -> int
    recommends
        is_hex_digit(c),
{
    if '0' <= c && c <= '9' {
        c as int - '0' as int
    } else if 'a' <= c && c <= 'f' {
        c as int - 'a' as int + 10
    } else {
        c as int - 'A' as int + 10
    }
}

/// The lower-case hexadecimal digit that stands for `n`.
pub open spec fn lower_hex_digit(n: int) -> char
    recommends
        0 <= n < 16,
{
    if n < 10 {
        ('0' as int + n) as char
    } else {
        ('a' as int + n - 10) as char
    }
}

/// `c` with an upper-case ASCII letter replaced by its lower-case form.
pub open spec fn ascii_lower(c: char) -> char {
    if 'A' <= c && c <= 'Z' {
        (c as int + 32) as char
    } else {
        c
    }
}

/// `s` with every character replaced by its `ascii_lower`.
pub open spec fn ascii_lower_seq(s: Seq<char>) -> Seq<char> {
    Seq::new(s.len(), |i: int| ascii_lower(s[i]))
}

/// Whether `a` and `b` differ by the case of their ASCII letters at most.
pub open spec fn eq_ignore_ascii_case(a: Seq<char>, b: Seq<char>) -> bool {
    ascii_lower_seq(a) == ascii_lower_seq(b)
}

/// Whether every character of `s` is a hexadecimal digit.
pub open spec fn all_hex_digits(s: Seq<char>) -> bool {
    forall|i: int| 0 <= i < s.len() ==> is_hex_digit(#[trigger] s[i])
}

/// The byte that the digit pair `hi`, `lo` writes in base 16.
pub open spec fn pair_value(hi: char, lo: char) -> u8
    recommends
        is_hex_digit(hi),
        is_hex_digit(lo),
{
    (16 * hex_digit_value(hi) + hex_digit_value(lo)) as u8
}

/// The two lower-case digits that write `b` in base 16, the high one first.
pub open spec fn byte_digits(b: u8) -> Seq<char> {
    seq![lower_hex_digit(b as int / 16), lower_hex_digit(b as int % 16)]
}

/// Reads one hexadecimal digit, in either case. `None` for any other
/// character.
pub fn digit_value(c: char) -> (value: Option<u8>)
    ensures
        value is Some <==> is_hex_digit(c),
        value matches Some(v) ==> v == hex_digit_value(c) && v < 16,
{
    if '0' <= c && c <= '9' {
        Some((c as u32 - '0' as u32) as u8)
    } else if 'a' <= c && c <= 'f' {
        Some((c as u32 - 'a' as u32 + 10) as u8)
    } else if 'A' <= c && c <= 'F' {
        Some((c as u32 - 'A' as u32 + 10) as u8)
    } else {
        None
    }
}

/// Reads a byte from its two hexadecimal digits. `None` unless both
/// characters are digits.
pub fn byte_from_digits(hi: char, lo: char) -> (byte: Option<u8>)
    ensures
        byte is Some <==> is_hex_digit(hi) && is_hex_digit(lo),
        byte matches Some(b) ==> b == pair_value(hi, lo),
{
    match (digit_value(hi), digit_value(lo)) {
        (Some(h), Some(l)) => Some(16 * h + l),
        _ => None,
    }
}

/// The one-character text of the lower-case digit for `n`.
fn digit_text(n: u8) -> (text: &'static str)
    requires
        n < 16,
    ensures
        text@ == seq![lower_hex_digit(n as int)],
{
    let text = match n {
        0 => "0",
        1 => "1",
        2 => "2",
        3 => "3",
        4 => "4",
        5 => "5",
        6 => "6",
        7 => "7",
        8 => "8",
        9 => "9",
        10 => "a",
        11 => "b",
        12 => "c",
        13 => "d",
        14 => "e",
        _ => "f",
    };
    proof {
        reveal_strlit("0");
        reveal_strlit("1");
        reveal_strlit("2");
        reveal_strlit("3");
        reveal_strlit("4");
        reveal_strlit("5");
        reveal_strlit("6");
        reveal_strlit("7");
        reveal_strlit("8");
        reveal_strlit("9");
        reveal_strlit("a");
        reveal_strlit("b");
        reveal_strlit("c");
        reveal_strlit("d");
        reveal_strlit("e");
        reveal_strlit("f");
    }
    text
}

/// Appends the two lower-case hexadecimal digits of `b` to `out`.
pub fn push_byte(out: &mut String, b: u8)
    ensures
        final(out)@ == old(out)@ + byte_digits(b),
{
    out.append(digit_text(b / 16));
    out.append(digit_text(b % 16));
}

/// Every number below 16 has a digit, and reading that digit gives the
/// number back.
pub proof fn lemma_digit_of_value(n: int)
    requires
        0 <= n < 16,
    ensures
        is_lower_hex_digit(lower_hex_digit(n)),
        is_hex_digit(lower_hex_digit(n)),
        hex_digit_value(lower_hex_digit(n)) == n,
{
}

/// A digit stands for a number below 16, and writing that number gives the
/// digit back in lower case.
pub proof fn lemma_value_of_digit(c: char)
    requires
        is_hex_digit(c),
    ensures
        0 <= hex_digit_value(c) < 16,
        lower_hex_digit(hex_digit_value(c)) == ascii_lower(c),
{
}

/// Reading the two digits of a byte gives the byte back.
pub proof fn lemma_pair_of_byte(b: u8)
    ensures
        byte_digits(b).len() == 2,
        is_lower_hex_digit(byte_digits(b)[0]),
        is_lower_hex_digit(byte_digits(b)[1]),
        is_hex_digit(byte_digits(b)[0]),
        is_hex_digit(byte_digits(b)[1]),
        pair_value(byte_digits(b)[0], byte_digits(b)[1]) == b,
{
    lemma_digit_of_value(b as int / 16);
    lemma_digit_of_value(b as int % 16);
}

/// Writing the byte that a digit pair stands for gives the pair back in
/// lower case.
pub proof fn lemma_byte_of_pair(hi: char, lo: char)
    requires
        is_hex_digit(hi),
        is_hex_digit(lo),
    ensures
        byte_digits(pair_value(hi, lo)) == seq![ascii_lower(hi), ascii_lower(lo)],
{
    lemma_value_of_digit(hi);
    lemma_value_of_digit(lo);
}

} // verus!

//! Reading and writing colour codes undo each other.

use vstd::prelude::*;
use crate::color::{
    canonical, channel_at, color_of_digits, digits_of, format_hex, parse_hex, AlphaPosition, Color,
    ColorError,
};
use crate::hex::{
    all_hex_digits, ascii_lower, ascii_lower_seq, byte_digits, eq_ignore_ascii_case, is_hex_digit,
    lemma_byte_of_pair, lemma_pair_of_byte,
};

verus! {

/// The digits of four bytes, one after the other.
spec fn four_bytes(a: u8, b: u8, c: u8, d: u8) -> Seq<char> {
    byte_digits(a) + byte_digits(b) + byte_digits(c) + byte_digits(d)
}

/// Reading the digits of four bytes pair by pair gives the bytes back.
proof fn lemma_read_four_bytes(a: u8, b: u8, c: u8, d: u8)
    ensures
        four_bytes(a, b, c, d).len() == 8,
        all_hex_digits(four_bytes(a, b, c, d)),
        channel_at(four_bytes(a, b, c, d), 0) == a,
        channel_at(four_bytes(a, b, c, d), 1) == b,
        channel_at(four_bytes(a, b, c, d), 2) == c,
        channel_at(four_bytes(a, b, c, d), 3) == d,
{
    let digits = four_bytes(a, b, c, d);
    lemma_pair_of_byte(a);
    lemma_pair_of_byte(b);
    lemma_pair_of_byte(c);
    lemma_pair_of_byte(d);
    assert(digits[0] == byte_digits(a)[0] && digits[1] == byte_digits(a)[1]);
    assert(digits[2] == byte_digits(b)[0] && digits[3] == byte_digits(b)[1]);
    assert(digits[4] == byte_digits(c)[0] && digits[5] == byte_digits(c)[1]);
    assert(digits[6] == byte_digits(d)[0] && digits[7] == byte_digits(d)[1]);
    assert forall|i: int| 0 <= i < digits.len() implies is_hex_digit(#[trigger] digits[i]) by {
        assert(i == 0 || i == 1 || i == 2 || i == 3 || i == 4 || i == 5 || i == 6 || i == 7);
    }
}

/// Writing the four bytes that eight digits stand for gives the digits back
/// in lower case.
proof fn lemma_write_four_pairs(digits: Seq<char>)
    requires
        digits.len() == 8,
        all_hex_digits(digits),
    ensures
        four_bytes(
            channel_at(digits, 0),
            channel_at(digits, 1),
            channel_at(digits, 2),
            channel_at(digits, 3),
        ) == ascii_lower_seq(digits),
{
    lemma_byte_of_pair(digits[0], digits[1]);
    lemma_byte_of_pair(digits[2], digits[3]);
    lemma_byte_of_pair(digits[4], digits[5]);
    lemma_byte_of_pair(digits[6], digits[7]);
    let first = seq![ascii_lower(digits[0]), ascii_lower(digits[1])];
    let second = seq![ascii_lower(digits[2]), ascii_lower(digits[3])];
    let third = seq![ascii_lower(digits[4]), ascii_lower(digits[5])];
    let fourth = seq![ascii_lower(digits[6]), ascii_lower(digits[7])];
    assert(byte_digits(channel_at(digits, 0)) == first);
    assert(byte_digits(channel_at(digits, 1)) == second);
    assert(byte_digits(channel_at(digits, 2)) == third);
    assert(byte_digits(channel_at(digits, 3)) == fourth);
    assert(first + second + third + fourth =~= ascii_lower_seq(digits));
}

/// Writing a colour and reading the code again, with the alpha in the same
/// place both times, gives the colour back.
pub proof fn lemma_format_then_parse(color: Color, alpha_position: AlphaPosition)
    ensures
        parse_hex(format_hex(color, alpha_position), alpha_position) == Ok::<Color, ColorError>(
            color,
        ),
{
    let code = format_hex(color, alpha_position);
    let digits = match alpha_position {
        AlphaPosition::Start => four_bytes(color.alpha, color.red, color.green, color.blue),
        AlphaPosition::End => four_bytes(color.red, color.green, color.blue, color.alpha),
    };
    assert(code =~= seq!['#'] + digits);
    assert(digits_of(code) =~= digits);
    match alpha_position {
        AlphaPosition::Start => lemma_read_four_bytes(
            color.alpha,
            color.red,
            color.green,
            color.blue,
        ),
        AlphaPosition::End => lemma_read_four_bytes(
            color.red,
            color.green,
            color.blue,
            color.alpha,
        ),
    }
    assert(color_of_digits(digits, alpha_position) == color);
}

/// Reading a code of eight digits and writing the colour again, with the
/// alpha in the same place both times, gives the code back in its canonical
/// form: with the `#`, and with its digits in lower case. So what comes out
/// differs from what went in by the case of its letters at most, once the
/// `#` is supplied where the text had none.
pub proof fn lemma_parse_then_format(text: Seq<char>, alpha_position: AlphaPosition)
    requires
        digits_of(text).len() == 8,
        all_hex_digits(digits_of(text)),
    ensures
        parse_hex(text, alpha_position) is Ok,
        format_hex(parse_hex(text, alpha_position)->Ok_0, alpha_position) == canonical(text),
        eq_ignore_ascii_case(
            format_hex(parse_hex(text, alpha_position)->Ok_0, alpha_position),
            seq!['#'] + digits_of(text),
        ),
        text[0] == '#' ==> eq_ignore_ascii_case(
            format_hex(parse_hex(text, alpha_position)->Ok_0, alpha_position),
            text,
        ),
{
    let digits = digits_of(text);
    let color = color_of_digits(digits, alpha_position);
    let code = format_hex(color, alpha_position);
    lemma_write_four_pairs(digits);
    assert(code =~= seq!['#'] + four_bytes(
        channel_at(digits, 0),
        channel_at(digits, 1),
        channel_at(digits, 2),
        channel_at(digits, 3),
    ));
    assert(code == canonical(text));
    assert(ascii_lower_seq(canonical(text)) =~= ascii_lower_seq(seq!['#'] + digits));
    if text[0] == '#' {
        assert(seq!['#'] + digits =~= text);
    }
}

} // verus!

//! Colours and their hexadecimal codes.
//!
//! A code is an optional `#` followed by six digits (`rrggbb`) or by eight,
//! in which the opacity stands either before the colour (`aarrggbb`) or
//! after it (`rrggbbaa`). Codes are read in either case and written in lower
//! case, always with the `#` and all eight digits.

use vstd::prelude::*;
use crate::hex::{
    all_hex_digits, ascii_lower_seq, byte_digits, byte_from_digits, is_hex_digit,
    is_lower_hex_digit, lemma_pair_of_byte, pair_value, push_byte,
};
use crate::round_trip::{lemma_format_then_parse, lemma_parse_then_format};

verus! {

/// A colour: red, green, blue and opacity, each from 0 to 255. An alpha of
/// 255 is fully opaque, one of 0 fully transparent.
#[derive(Clone, Copy, Debug, PartialEq, Eq, Hash, Structural)]
pub struct Color {
    pub red: u8,
    pub green: u8,
    pub blue: u8,
    pub alpha: u8,
}

/// Where the opacity stands among the eight digits of a code.
#[derive(Clone, Copy, Debug, PartialEq, Eq, Hash, Structural)]
pub enum AlphaPosition {
    /// Before the colour: `aarrggbb`.
    Start,
    /// After the colour: `rrggbbaa`.
    End,
}

/// Why a text is not a colour code.
#[derive(Clone, Copy, Debug, PartialEq, Eq, Hash, Structural)]
pub enum ColorError {
    /// Without its `#`, the text is neither six nor eight characters long.
    InvalidLength,
    /// The text has the right length, but one of its characters is no
    /// hexadecimal digit.
    InvalidDigit,
}

/// The alpha of a colour whose code leaves it out.
pub const OPAQUE: u8 = 255;

/// The text without its leading `#`, if it has one.
pub open spec fn digits_of(text: Seq<char>) -> Seq<char> {
    if text.len() > 0 && text[0] == '#' {
        text.skip(1)
    } else {
        text
    }
}

/// Whether `digits` has one of the two lengths of a code: six or eight.
pub open spec fn has_code_length(digits: Seq<char>) -> bool {
    digits.len() == 6 || digits.len() == 8
}

/// The byte that the `k`-th pair of `digits` writes.
pub open spec fn channel_at(digits: Seq<char>, k: int) -> u8
    recommends
        0 <= k,
        2 * k + 1 < digits.len(),
{
    pair_value(digits[2 * k], digits[2 * k + 1])
}

/// The colour that six or eight hexadecimal digits write.
pub open spec fn color_of_digits(digits: Seq<char>, alpha_position: AlphaPosition) -> Color
    recommends
        has_code_length(digits),
        all_hex_digits(digits),
{
    if digits.len() == 6 {
        Color {
            red: channel_at(digits, 0),
            green: channel_at(digits, 1),
            blue: channel_at(digits, 2),
            alpha: OPAQUE,
        }
    } else {
        match alpha_position {
            AlphaPosition::Start => Color {
                red: channel_at(digits, 1),
                green: channel_at(digits, 2),
                blue: channel_at(digits, 3),
                alpha: channel_at(digits, 0),
            },
            AlphaPosition::End => Color {
                red: channel_at(digits, 0),
                green: channel_at(digits, 1),
                blue: channel_at(digits, 2),
                alpha: channel_at(digits, 3),
            },
        }
    }
}

/// What reading `text` as a colour code gives: the colour, or the reason
/// why there is none. The length is judged before the digits are.
pub open spec fn parse_hex(text: Seq<char>, alpha_position: AlphaPosition) -> Result<
    Color,
    ColorError,
> {
    let digits = digits_of(text);
    if !has_code_length(digits) {
        Err(ColorError::InvalidLength)
    } else if !all_hex_digits(digits) {
        Err(ColorError::InvalidDigit)
    } else {
        Ok(color_of_digits(digits, alpha_position))
    }
}

/// The code of `color`: `#`, then the four channels in the order that
/// `alpha_position` asks for, each as two lower-case digits.
pub open spec fn format_hex(color: Color, alpha_position: AlphaPosition) -> Seq<char> {
    match alpha_position {
        AlphaPosition::Start => seq!['#'] + byte_digits(color.alpha) + byte_digits(color.red)
            + byte_digits(color.green) + byte_digits(color.blue),
        AlphaPosition::End => seq!['#'] + byte_digits(color.red) + byte_digits(color.green)
            + byte_digits(color.blue) + byte_digits(color.alpha),
    }
}

/// The canonical form of a code: `#`, then its digits in lower case.
pub open spec fn canonical(text: Seq<char>) -> Seq<char> {
    seq!['#'] + ascii_lower_seq(digits_of(text))
}

/// Whether both characters of the `k`-th pair of `digits` are hexadecimal
/// digits.
spec fn is_digit_pair(digits: Seq<char>, k: int) -> bool {
    is_hex_digit(digits[2 * k]) && is_hex_digit(digits[2 * k + 1])
}

/// Digits of a code's length are all hexadecimal just when each of their
/// three or four pairs is.
proof fn lemma_all_hex_by_pair(digits: Seq<char>)
    requires
        has_code_length(digits),
    ensures
        all_hex_digits(digits) <==> is_digit_pair(digits, 0) && is_digit_pair(digits, 1)
            && is_digit_pair(digits, 2) && (digits.len() == 8 ==> is_digit_pair(digits, 3)),
{
    let each_pair = is_digit_pair(digits, 0) && is_digit_pair(digits, 1) && is_digit_pair(digits, 2)
        && (digits.len() == 8 ==> is_digit_pair(digits, 3));
    if each_pair {
        assert forall|i: int| 0 <= i < digits.len() implies is_hex_digit(#[trigger] digits[i]) by {
            let k = i / 2;
            assert(is_digit_pair(digits, k));
            assert(i == 2 * k || i == 2 * k + 1);
        }
    }
}

/// Reads the `k`-th digit pair of the code `text`, whose digits begin at
/// `start`.
fn read_channel(text: &str, start: usize, k: usize) -> (byte: Option<u8>)
    requires
        start <= 1,
        k < 4,
        start + 2 * k + 1 < text@.len(),
    ensures
        byte is Some <==> is_digit_pair(text@.skip(start as int), k as int),
        byte matches Some(b) ==> b == channel_at(text@.skip(start as int), k as int),
{
    let hi = text.get_char(start + 2 * k);
    let lo = text.get_char(start + 2 * k + 1);
    byte_from_digits(hi, lo)
}

impl Color {
    /// The colour with the given channels.
    pub fn new(red: u8, green: u8, blue: u8, alpha: u8) -> (color: Color)
        ensures
            color == (Color { red, green, blue, alpha }),
    {
        Color { red, green, blue, alpha }
    }

    /// Reads a colour code.
    ///
    /// One leading `#` is dropped. What is left must be six or eight
    /// characters long (`InvalidLength` otherwise), and each of them a
    /// hexadecimal digit in either case (`InvalidDigit` otherwise). Six
    /// digits are red, green and blue, and the colour is opaque. With eight,
    /// `alpha_position` says whether the first or the last pair is the alpha.
    /// Nothing is trimmed: white space makes the text invalid.
    ///
    /// Writing the colour of an eight-digit code with the same
    /// `alpha_position` gives the code back in its canonical form.
    pub fn from_hex(text: &str, alpha_position: AlphaPosition) -> (result: Result<
        Color,
        ColorError,
    >)
        ensures
            result == parse_hex(text@, alpha_position),
            result == Err::<Color, ColorError>(ColorError::InvalidLength) <==> !has_code_length(
                digits_of(text@),
            ),
            result == Err::<Color, ColorError>(ColorError::InvalidDigit) <==> has_code_length(
                digits_of(text@),
            ) && !all_hex_digits(digits_of(text@)),
            result is Ok <==> has_code_length(digits_of(text@)) && all_hex_digits(
                digits_of(text@),
            ),
            digits_of(text@).len() == 6 && all_hex_digits(digits_of(text@)) ==> (result matches Ok(
                color,
            ) && color.alpha == OPAQUE),
            digits_of(text@).len() == 8 ==> (result matches Ok(color) ==> format_hex(
                color,
                alpha_position,
            ) == canonical(text@)),
    {
        let len: usize = text.unicode_len();
        let start: usize = if len > 0 && text.get_char(0) == '#' {
            1
        } else {
            0
        };
        let count: usize = len - start;
        assert(digits_of(text@) == text@.skip(start as int));
        if count != 6 && count != 8 {
            return Err(ColorError::InvalidLength);
        }
        proof {
            lemma_all_hex_by_pair(digits_of(text@));
            if count == 8 && all_hex_digits(digits_of(text@)) {
                lemma_parse_then_format(text@, alpha_position);
            }
        }
        let first = read_channel(text, start, 0);
        let second = read_channel(text, start, 1);
        let third = read_channel(text, start, 2);
        if count == 6 {
            match (first, second, third) {
                (Some(red), Some(green), Some(blue)) => Ok(
                    Color { red, green, blue, alpha: OPAQUE },
                ),
                _ => Err(ColorError::InvalidDigit),
            }
        } else {
            let fourth = read_channel(text, start, 3);
            match (first, second, third, fourth, alpha_position) {
                (Some(alpha), Some(red), Some(green), Some(blue), AlphaPosition::Start) => Ok(
                    Color { red, green, blue, alpha },
                ),
                (Some(red), Some(green), Some(blue), Some(alpha), AlphaPosition::End) => Ok(
                    Color { red, green, blue, alpha },
                ),
                _ => Err(ColorError::InvalidDigit),
            }
        }
    }

    /// Writes the code of this colour: `#` and eight lower-case digits, the
    /// alpha first or last as `alpha_position` says. The alpha is written
    /// also where the colour is opaque, so that reading the code with the
    /// same `alpha_position` gives this colour back.
    pub fn to_hex_string(&self, alpha_position: AlphaPosition) -> (code: String)
        ensures
            code@ == format_hex(*self, alpha_position),
            code@.len() == 9,
            code@[0] == '#',
            forall|i: int| 1 <= i < 9 ==> is_lower_hex_digit(#[trigger] code@[i]),
            parse_hex(code@, alpha_position) == Ok::<Color, ColorError>(*self),
    {
        let mut code = String::from_str("#");
        proof {
            reveal_strlit("#");
            lemma_format_then_parse(*self, alpha_position);
            lemma_pair_of_byte(self.red);
            lemma_pair_of_byte(self.green);
            lemma_pair_of_byte(self.blue);
            lemma_pair_of_byte(self.alpha);
        }
        match alpha_position {
            AlphaPosition::Start => {
                push_byte(&mut code, self.alpha);
                push_byte(&mut code, self.red);
                push_byte(&mut code, self.green);
                push_byte(&mut code, self.blue);
            },
            AlphaPosition::End => {
                push_byte(&mut code, self.red);
                push_byte(&mut code, self.green);
                push_byte(&mut code, self.blue);
                push_byte(&mut code, self.alpha);
            },
        }
        code
    }
}

} // verus!

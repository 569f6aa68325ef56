use eyedropper::color::{AlphaPosition, Color, ColorError, OPAQUE};

const BOTH: [AlphaPosition; 2] = [AlphaPosition::Start, AlphaPosition::End];

#[test]
fn empty_text_has_invalid_length() {
    for position in BOTH {
        assert_eq!(Color::from_hex("", position), Err(ColorError::InvalidLength));
    }
}

#[test]
fn five_digits_have_invalid_length() {
    for position in BOTH {
        assert_eq!(Color::from_hex("#12345", position), Err(ColorError::InvalidLength));
        assert_eq!(Color::from_hex("12345", position), Err(ColorError::InvalidLength));
    }
}

#[test]
fn seven_digits_have_invalid_length() {
    for position in BOTH {
        assert_eq!(Color::from_hex("#1234567", position), Err(ColorError::InvalidLength));
        assert_eq!(Color::from_hex("1234567", position), Err(ColorError::InvalidLength));
    }
}

#[test]
fn ten_digits_have_invalid_length() {
    for position in BOTH {
        assert_eq!(Color::from_hex("80ff000080", position), Err(ColorError::InvalidLength));
        assert_eq!(Color::from_hex("#80ff000080", position), Err(ColorError::InvalidLength));
    }
}

#[test]
fn letter_g_is_an_invalid_digit() {
    assert_eq!(Color::from_hex("#gg0000", AlphaPosition::End), Err(ColorError::InvalidDigit));
    assert_eq!(Color::from_hex("#gg0000", AlphaPosition::Start), Err(ColorError::InvalidDigit));
}

#[test]
fn six_digits_without_prefix_are_opaque_red() {
    assert_eq!(
        Color::from_hex("ff0000", AlphaPosition::End),
        Ok(Color { red: 255, green: 0, blue: 0, alpha: 255 })
    );
}

#[test]
fn eight_digits_with_alpha_last() {
    assert_eq!(
        Color::from_hex("ff000080", AlphaPosition::End),
        Ok(Color { red: 255, green: 0, blue: 0, alpha: 128 })
    );
}

#[test]
fn eight_digits_with_alpha_first() {
    assert_eq!(
        Color::from_hex("80ff0000", AlphaPosition::Start),
        Ok(Color { red: 255, green: 0, blue: 0, alpha: 128 })
    );
}

#[test]
fn alpha_position_changes_the_reading_of_eight_digits() {
    assert_eq!(
        Color::from_hex("80ff0000", AlphaPosition::End),
        Ok(Color { red: 128, green: 255, blue: 0, alpha: 0 })
    );
    assert_eq!(
        Color::from_hex("ff000080", AlphaPosition::Start),
        Ok(Color { red: 0, green: 0, blue: 128, alpha: 255 })
    );
}

#[test]
fn opaque_green_is_written_with_its_alpha() {
    let green = Color { red: 0, green: 255, blue: 0, alpha: 255 };
    assert_eq!(green.to_hex_string(AlphaPosition::End), "#00ff00ff");
    assert_eq!(green.to_hex_string(AlphaPosition::Start), "#ff00ff00");
}

#[test]
fn every_six_digit_code_is_opaque() {
    let codes = ["000000", "#000000", "ffffff", "#FFFFFF", "12ab9F", "#a0B1c2", "0a0b0c"];
    for code in codes {
        for position in BOTH {
            let color = Color::from_hex(code, position).expect("six hexadecimal digits");
            assert_eq!(color.alpha, 255);
            assert_eq!(color.alpha, OPAQUE);
        }
    }
}

#[test]
fn six_digits_read_the_same_for_both_positions() {
    for code in ["123456", "#abcdef", "#ABCDEF", "00ff7f"] {
        assert_eq!(
            Color::from_hex(code, AlphaPosition::Start),
            Color::from_hex(code, AlphaPosition::End)
        );
    }
    assert_eq!(
        Color::from_hex("#123456", AlphaPosition::Start),
        Ok(Color { red: 0x12, green: 0x34, blue: 0x56, alpha: 255 })
    );
}

#[test]
fn pairs_are_read_in_base_sixteen() {
    assert_eq!(
        Color::from_hex("7fa00a10", AlphaPosition::End),
        Ok(Color { red: 127, green: 160, blue: 10, alpha: 16 })
    );
    assert_eq!(
        Color::from_hex("#09900f", AlphaPosition::End),
        Ok(Color { red: 9, green: 144, blue: 15, alpha: 255 })
    );
}

#[test]
fn digits_are_read_in_either_case() {
    let expected = Ok(Color { red: 0xab, green: 0xcd, blue: 0xef, alpha: 0x1a });
    for code in ["abcdef1a", "ABCDEF1A", "AbCdEf1a", "#aBcDeF1A"] {
        assert_eq!(Color::from_hex(code, AlphaPosition::End), expected);
    }
}

#[test]
fn only_one_prefix_is_dropped() {
    for position in BOTH {
        assert_eq!(Color::from_hex("#", position), Err(ColorError::InvalidLength));
        assert_eq!(Color::from_hex("##ff0000", position), Err(ColorError::InvalidLength));
        assert_eq!(Color::from_hex("##ff000", position), Err(ColorError::InvalidDigit));
        assert_eq!(Color::from_hex("ff0000#", position), Err(ColorError::InvalidLength));
        assert_eq!(Color::from_hex("ff000#", position), Err(ColorError::InvalidDigit));
    }
}

#[test]
fn white_space_is_not_trimmed() {
    for position in BOTH {
        assert_eq!(Color::from_hex(" ff0000", position), Err(ColorError::InvalidLength));
        assert_eq!(Color::from_hex("ff0000 ", position), Err(ColorError::InvalidLength));
        assert_eq!(Color::from_hex("ff000 ", position), Err(ColorError::InvalidDigit));
        assert_eq!(Color::from_hex("#ff0000\n", position), Err(ColorError::InvalidLength));
        assert_eq!(Color::from_hex("ff 00 00", position), Err(ColorError::InvalidDigit));
    }
}

#[test]
fn signs_are_not_digits() {
    for position in BOTH {
        assert_eq!(Color::from_hex("+f+f+f", position), Err(ColorError::InvalidDigit));
        assert_eq!(Color::from_hex("-1000000", position), Err(ColorError::InvalidDigit));
        assert_eq!(Color::from_hex("0x1234", position), Err(ColorError::InvalidDigit));
    }
}

#[test]
fn length_is_judged_before_digits() {
    for position in BOTH {
        assert_eq!(Color::from_hex("zzzzz", position), Err(ColorError::InvalidLength));
        assert_eq!(Color::from_hex("zzzzzz", position), Err(ColorError::InvalidDigit));
        assert_eq!(Color::from_hex("zzzzzzz", position), Err(ColorError::InvalidLength));
        assert_eq!(Color::from_hex("zzzzzzzz", position), Err(ColorError::InvalidDigit));
        assert_eq!(Color::from_hex("zzzzzzzzz", position), Err(ColorError::InvalidLength));
    }
}

#[test]
fn one_bad_digit_anywhere_is_enough() {
    for at in 0..8 {
        let mut code: Vec<char> = "12345678".chars().collect();
        code[at] = 'x';
        let code: String = code.into_iter().collect();
        for position in BOTH {
            assert_eq!(Color::from_hex(&code, position), Err(ColorError::InvalidDigit));
        }
    }
    for at in 0..6 {
        let mut code: Vec<char> = "#123456".chars().collect();
        code[at + 1] = '/';
        let code: String = code.into_iter().collect();
        for position in BOTH {
            assert_eq!(Color::from_hex(&code, position), Err(ColorError::InvalidDigit));
        }
    }
}

#[test]
fn length_counts_characters() {
    for position in BOTH {
        assert_eq!(Color::from_hex("ff00é0", position), Err(ColorError::InvalidDigit));
        assert_eq!(Color::from_hex("ééé", position), Err(ColorError::InvalidLength));
        assert_eq!(Color::from_hex("１２３４５６", position), Err(ColorError::InvalidDigit));
        assert_eq!(Color::from_hex("#ｆｆ００００", position), Err(ColorError::InvalidDigit));
        assert_eq!(Color::from_hex("＃ff0000", position), Err(ColorError::InvalidLength));
    }
}

#[test]
fn channels_are_written_in_the_order_asked_for() {
    let color = Color::new(1, 2, 3, 4);
    assert_eq!(color.to_hex_string(AlphaPosition::End), "#01020304");
    assert_eq!(color.to_hex_string(AlphaPosition::Start), "#04010203");
}

#[test]
fn codes_are_lower_case_and_zero_padded() {
    let color = Color::new(0xAB, 0x0C, 0xF0, 0x00);
    assert_eq!(color.to_hex_string(AlphaPosition::End), "#ab0cf000");
    assert_eq!(color.to_hex_string(AlphaPosition::Start), "#00ab0cf0");
    assert_eq!(Color::new(0, 0, 0, 0).to_hex_string(AlphaPosition::End), "#00000000");
    assert_eq!(Color::new(255, 255, 255, 255).to_hex_string(AlphaPosition::Start), "#ffffffff");
}

#[test]
fn codes_are_nine_characters_long() {
    for value in 0..=255u8 {
        let color = Color::new(value, 255 - value, value / 2, value.wrapping_mul(7));
        for position in BOTH {
            let code = color.to_hex_string(position);
            assert_eq!(code.chars().count(), 9);
            assert_eq!(code.len(), 9);
            assert!(code.starts_with('#'));
            assert!(code[1..].chars().all(|c| matches!(c, '0'..='9' | 'a'..='f')));
        }
    }
}

#[test]
fn new_keeps_the_channels() {
    let color = Color::new(10, 20, 30, 40);
    assert_eq!(color, Color { red: 10, green: 20, blue: 30, alpha: 40 });
    assert_eq!((color.red, color.green, color.blue, color.alpha), (10, 20, 30, 40));
}

#[test]
fn writing_then_reading_gives_the_colour_back() {
    for value in 0..=255u8 {
        let colors = [
            Color::new(value, 0, 0, 0),
            Color::new(0, value, 0, 0),
            Color::new(0, 0, value, 0),
            Color::new(0, 0, 0, value),
            Color::new(value, value.wrapping_add(85), value.wrapping_add(170), 255 - value),
        ];
        for color in colors {
            for position in BOTH {
                let code = color.to_hex_string(position);
                assert_eq!(Color::from_hex(&code, position), Ok(color));
                assert_eq!(Color::from_hex(&code[1..], position), Ok(color));
            }
        }
    }
}

#[test]
fn writing_and_reading_with_different_positions_rotates_the_channels() {
    let color = Color::new(0x11, 0x22, 0x33, 0x44);
    let code = color.to_hex_string(AlphaPosition::Start);
    assert_eq!(code, "#44112233");
    assert_eq!(
        Color::from_hex(&code, AlphaPosition::End),
        Ok(Color { red: 0x44, green: 0x11, blue: 0x22, alpha: 0x33 })
    );
}

#[test]
fn reading_then_writing_gives_the_canonical_code() {
    let cases = [
        ("ff000080", "#ff000080"),
        ("#ff000080", "#ff000080"),
        ("#FF00AA80", "#ff00aa80"),
        ("AbCdEf09", "#abcdef09"),
        ("00000000", "#00000000"),
        ("#FFFFFFFF", "#ffffffff"),
    ];
    for (code, canonical) in cases {
        for position in BOTH {
            let color = Color::from_hex(code, position).expect("eight hexadecimal digits");
            let written = color.to_hex_string(position);
            assert_eq!(written, canonical);
            let digits = code.strip_prefix('#').unwrap_or(code);
            assert!(written[1..].eq_ignore_ascii_case(digits));
        }
    }
}

#[test]
fn reading_then_writing_six_digits_adds_the_alpha() {
    let color = Color::from_hex("#1A2b3C", AlphaPosition::End).expect("six hexadecimal digits");
    assert_eq!(color.to_hex_string(AlphaPosition::End), "#1a2b3cff");
    assert_eq!(color.to_hex_string(AlphaPosition::Start), "#ff1a2b3c");
}

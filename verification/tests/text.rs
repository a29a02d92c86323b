use reg16::text::{
    chars_of, digit_of, is_digit, is_whitespace, parse_numeral, spells, to_uppercase, SyntaxError,
};

fn word(s: &str) -> Vec<char> {
    s.chars().collect()
}

#[test]
fn white_space_is_what_the_standard_library_calls_white_space() {
    for code in 0..=0x10FFFFu32 {
        if let Some(c) = char::from_u32(code) {
            assert_eq!(is_whitespace(c), c.is_whitespace(), "U+{:04X}", code);
        }
    }
}

#[test]
fn digits_are_what_the_standard_library_calls_digits() {
    for code in 0..=0x10FFFFu32 {
        if let Some(c) = char::from_u32(code) {
            assert_eq!(is_digit(c), c.is_digit(10), "U+{:04X}", code);
            assert_eq!(digit_of(c), c.to_digit(36).unwrap_or(36), "U+{:04X}", code);
        }
    }
}

#[test]
fn upper_case_of_an_ascii_word_changes_its_small_letters_only() {
    let all: Vec<char> = (0u8..128).map(char::from).collect();
    let expected: Vec<char> = all.iter().map(|c| c.to_ascii_uppercase()).collect();
    assert_eq!(to_uppercase(&all), expected);
    assert_eq!(to_uppercase(&word("mov %a, *0x1f ;z{`")), word("MOV %A, *0X1F ;Z{`"));
    assert_eq!(to_uppercase(&word("MOV")), word("MOV"));
    assert_eq!(to_uppercase(&[]), vec![]);
}

#[test]
fn upper_case_is_that_of_the_standard_library() {
    for code in 0..=0x10FFFFu32 {
        if let Some(c) = char::from_u32(code) {
            let expected: Vec<char> = c.to_uppercase().collect();
            assert_eq!(to_uppercase(&[c]), expected, "U+{:04X}", code);
        }
    }
    assert_eq!(to_uppercase(&word("Stra\u{DF}e")), word("STRASSE"));
    assert_eq!(to_uppercase(&word("pu\u{17F}h d\u{131}v \u{FB02}gs")), word("PUSH DIV FLGS"));
    assert_eq!(to_uppercase(&word("\u{3C3}\u{3C2}")), word("\u{3A3}\u{3A3}"));
    for text in ["", "hlt", "\u{E9}t\u{E9}", "\u{1F600}a\u{149}", "\u{1F80}\u{390}x"] {
        assert_eq!(to_uppercase(&word(text)), word(&text.to_uppercase()), "{:?}", text);
    }
}

#[test]
fn the_characters_of_a_string() {
    assert_eq!(chars_of(""), vec![]);
    assert_eq!(chars_of("a\u{E9}\u{1F600}z"), vec!['a', '\u{E9}', '\u{1F600}', 'z']);
}

#[test]
fn a_name_spells_a_word() {
    assert!(spells("PUSH", &word("PUSH")));
    assert!(spells("", &[]));
    assert!(!spells("PUSH", &word("PUSHX")));
    assert!(!spells("PUSH", &word("PUS")));
    assert!(!spells("PUSH", &word("PUSh")));
    assert!(!spells("PUSH", &word("XUSH")));
    assert!(spells("\u{E9}t\u{E9}", &word("\u{E9}t\u{E9}")));
}

#[test]
fn numerals_agree_with_the_standard_library() {
    let words = [
        "0", "1", "9", "10", "65535", "65536", "99999", "00017", "+", "+5", "++5", "-5", "", "ff",
        "FF", "fF", "zz", "1z", "7fff", "ffff", "10000", "1111111111111111", "10000000000000000",
        "177777", "200000", " 1", "1 ", "1_0", "\u{661}",
    ];
    for text in words {
        for radix in [2u32, 8, 10, 16, 36] {
            let expected = match u16::from_str_radix(text, radix) {
                Ok(v) => Ok(v),
                Err(_) => {
                    let digits = text.strip_prefix('+').unwrap_or(text);
                    let well_formed =
                        !digits.is_empty() && digits.chars().all(|c| c.to_digit(radix).is_some());
                    if well_formed {
                        Err(SyntaxError::NumberTooLarge)
                    } else {
                        Err(SyntaxError::MalformedNumber)
                    }
                }
            };
            assert_eq!(parse_numeral(&word(text), radix), expected, "{:?} in base {}", text, radix);
        }
    }
}

#[test]
fn every_sixteen_bit_value_is_read_back_in_every_base() {
    for v in (0..=0xFFFFu16).step_by(7).chain([0xFFFF]) {
        assert_eq!(parse_numeral(&word(&format!("{}", v)), 10), Ok(v));
        assert_eq!(parse_numeral(&word(&format!("{:x}", v)), 16), Ok(v));
        assert_eq!(parse_numeral(&word(&format!("{:X}", v)), 16), Ok(v));
        assert_eq!(parse_numeral(&word(&format!("{:o}", v)), 8), Ok(v));
        assert_eq!(parse_numeral(&word(&format!("{:b}", v)), 2), Ok(v));
    }
}

#[test]
fn a_base_below_two_has_at_most_the_digit_zero() {
    assert_eq!(parse_numeral(&word("0"), 0), Err(SyntaxError::MalformedNumber));
    assert_eq!(parse_numeral(&word("0"), 1), Ok(0));
    assert_eq!(parse_numeral(&word("000"), 1), Ok(0));
    assert_eq!(parse_numeral(&word("1"), 1), Err(SyntaxError::MalformedNumber));
}

#[test]
fn a_character_that_is_no_digit_is_rejected_in_every_base() {
    for radix in [0u32, 1, 2, 10, 36, 37, 100, u32::MAX] {
        for text in ["!", "1!", "_", " ", "\u{E9}", "1\u{661}", "-", "1+"] {
            assert_eq!(
                parse_numeral(&word(text), radix),
                Err(SyntaxError::MalformedNumber),
                "{:?} in base {}",
                text,
                radix
            );
        }
    }
}

#[test]
fn a_base_may_be_larger_than_its_alphabet() {
    assert_eq!(parse_numeral(&word("zz"), 100), Ok(3535));
    assert_eq!(parse_numeral(&word("z"), u32::MAX), Ok(35));
    assert_eq!(parse_numeral(&word("10"), 65535), Ok(65535));
    assert_eq!(parse_numeral(&word("10"), 65536), Err(SyntaxError::NumberTooLarge));
    assert_eq!(parse_numeral(&word("zz"), u32::MAX), Err(SyntaxError::NumberTooLarge));
}

use osxrdp::text::{
    chars_of, parse_number, split_lines, split_words, text_is, to_decimal, to_hex2, trim,
};

fn joined(pieces: Vec<Vec<char>>) -> Vec<String> {
    pieces.into_iter().map(|p| p.into_iter().collect()).collect()
}

const TEXTS: [&str; 12] = [
    "",
    " ",
    "a",
    " a b ",
    "\n",
    "a\nb",
    "\na\n\nb\n",
    "\u{85}x\u{2028}y\u{2029}z\u{1680}",
    "tab\tvt\u{b}ff\u{c}cr\r",
    "\u{200b}zero\u{feff}",
    "\u{2000}\u{200a}\u{202f}\u{205f}\u{3000}end",
    "äöü 𝄞 ß",
];

#[test]
fn splitting_agrees_with_std() {
    for t in TEXTS {
        let c = chars_of(t);
        assert_eq!(joined(split_words(&c)), t.split_whitespace().collect::<Vec<_>>(), "{t:?}");
        assert_eq!(joined(split_lines(&c)), t.split('\n').collect::<Vec<_>>(), "{t:?}");
        assert_eq!(trim(&c).into_iter().collect::<String>(), t.trim(), "{t:?}");
    }
}

#[test]
fn every_white_space_character_is_known() {
    for c in '\0'..=char::MAX {
        assert_eq!(trim(&vec![c]).is_empty(), c.is_whitespace(), "{c:?}");
    }
}

#[test]
fn numbers_are_parsed_as_std_does() {
    for t in [
        "", "+", "-", "0", "00", "+0", "-0", "++1", "1+", "12", "255", "256", "+255", "0255",
        "4294967295", "4294967296", "18446744073709551615", "18446744073709551616",
        "99999999999999999999999", " 1", "1 ", "0x1", "1_000", "١",
    ] {
        let c = chars_of(t);
        assert_eq!(parse_number(&c, u64::MAX), t.parse::<u64>().ok(), "{t}");
        assert_eq!(parse_number(&c, u32::MAX as u64), t.parse::<u32>().ok().map(u64::from), "{t}");
        assert_eq!(parse_number(&c, 255), t.parse::<u8>().ok().map(u64::from), "{t}");
    }
}

#[test]
fn decimals_round_trip() {
    for n in [0u64, 1, 9, 10, 99, 100, 65535, 4294967296, u64::MAX - 1, u64::MAX] {
        assert_eq!(to_decimal(n), n.to_string());
        assert_eq!(parse_number(&chars_of(&to_decimal(n)), u64::MAX), Some(n));
    }
}

#[test]
fn hexadecimal_has_two_digits() {
    for n in 0..=u16::MAX {
        assert_eq!(to_hex2(n), format!("{n:02X}"));
    }
}

#[test]
fn texts_are_compared() {
    assert!(text_is(&chars_of("OK"), "OK"));
    assert!(!text_is(&chars_of("OK "), "OK"));
    assert!(!text_is(&chars_of("0K"), "OK"));
    assert!(text_is(&chars_of(""), ""));
}

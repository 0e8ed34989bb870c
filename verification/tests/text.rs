use tilepad_manifest::chars::{
    chars_of, find_from, is_ascii_digit, is_ascii_hex_digit, is_ascii_letter, parse_unsigned,
    string_of, trim, utf8_len_is,
};
use tilepad_manifest::system::same_text;

fn chars(text: &str) -> Vec<char> {
    text.chars().collect()
}

#[test]
fn chars_and_strings_convert_both_ways() {
    assert_eq!(chars_of(""), Vec::<char>::new());
    assert_eq!(chars_of("a\u{e9}\u{1f600}"), vec!['a', '\u{e9}', '\u{1f600}']);
    assert_eq!(string_of(&['r', 'g', 'b']), "rgb");
    assert_eq!(string_of(&[]), "");
    let text = "hsla(0, 0%, 0%, 0.5) \u{2603}";
    assert_eq!(string_of(&chars_of(text)), text);
}

#[test]
fn the_ascii_classes_end_where_they_should() {
    for c in ['a', 'z', 'A', 'Z', 'm'] {
        assert!(is_ascii_letter(c));
    }
    for c in ['`', '{', '@', '[', '0', '\u{e9}', ' '] {
        assert!(!is_ascii_letter(c));
    }
    for c in ['0', '9', '5'] {
        assert!(is_ascii_digit(c));
    }
    for c in ['/', ':', 'a', '\u{0663}'] {
        assert!(!is_ascii_digit(c));
    }
    for c in ['0', '9', 'a', 'f', 'A', 'F'] {
        assert!(is_ascii_hex_digit(c));
    }
    for c in ['g', 'G', '/', ':', '`', '@'] {
        assert!(!is_ascii_hex_digit(c));
    }
}

#[test]
fn utf8_length_counts_bytes() {
    assert!(utf8_len_is(&chars(""), 0));
    assert!(utf8_len_is(&chars("abc"), 3));
    assert!(!utf8_len_is(&chars("abc"), 4));
    assert!(!utf8_len_is(&chars("abc"), 2));
    // one, two, three and four bytes
    assert!(utf8_len_is(&chars("\u{7f}"), 1));
    assert!(utf8_len_is(&chars("\u{80}"), 2));
    assert!(utf8_len_is(&chars("\u{7ff}"), 2));
    assert!(utf8_len_is(&chars("\u{800}"), 3));
    assert!(utf8_len_is(&chars("\u{ffff}"), 3));
    assert!(utf8_len_is(&chars("\u{10000}"), 4));
    assert!(utf8_len_is(&chars("a\u{e9}\u{20ac}\u{1f600}"), 10));
    assert!(!utf8_len_is(&chars("\u{1f600}"), 0));
    assert!(!utf8_len_is(&chars("\u{1f600}"), usize::MAX));
    for text in ["", "x", "\u{e9}t\u{e9}", "\u{1f600}\u{1f600}"] {
        assert!(utf8_len_is(&chars(text), text.len()));
    }
}

#[test]
fn find_from_finds_the_first_at_or_after_the_start() {
    let text = chars("a.b..c");
    assert_eq!(find_from(&text, '.', 0), 1);
    assert_eq!(find_from(&text, '.', 1), 1);
    assert_eq!(find_from(&text, '.', 2), 3);
    assert_eq!(find_from(&text, '.', 4), 4);
    assert_eq!(find_from(&text, '.', 5), 6);
    assert_eq!(find_from(&text, '.', 6), 6);
    assert_eq!(find_from(&text, 'x', 0), 6);
    assert_eq!(find_from(&[], '.', 0), 0);
}

#[test]
fn trim_removes_whitespace_at_both_ends_only() {
    assert_eq!(trim(&chars("  a b  ")), &chars("a b")[..]);
    assert_eq!(trim(&chars("a")), &chars("a")[..]);
    assert_eq!(trim(&chars("")), &chars("")[..]);
    assert_eq!(trim(&chars(" \t\r\n")), &chars("")[..]);
    assert_eq!(trim(&chars("\u{a0}x\u{3000}")), &chars("x")[..]);
    // a zero width space is no whitespace
    assert_eq!(trim(&chars("\u{200b}x")), &chars("\u{200b}x")[..]);
    for text in ["  x  ", "\n\ty z\u{2028}", "none", " \u{1680} "] {
        assert_eq!(string_of(trim(&chars(text))), text.trim());
    }
}

#[test]
fn parse_unsigned_reads_what_the_integer_types_read() {
    for text in [
        "0", "7", "255", "256", "65535", "65536", "+1", "+0", "-0", "-1", "+", "-", "", " 1", "1 ",
        "1_0", "0x10", "00000000000000000000000000000000255", "99999999999999999999", "1e2",
        "1.0", "\u{0661}", "+-1", "++1",
    ] {
        assert_eq!(
            parse_unsigned(&chars(text), 255),
            text.parse::<u8>().ok().map(u32::from),
            "{text}"
        );
        assert_eq!(
            parse_unsigned(&chars(text), 65535),
            text.parse::<u16>().ok().map(u32::from),
            "{text}"
        );
        assert_eq!(
            parse_unsigned(&chars(text), u32::MAX),
            text.parse::<u32>().ok(),
            "{text}"
        );
    }
    assert_eq!(parse_unsigned(&chars("4294967295"), u32::MAX), Some(u32::MAX));
    assert_eq!(parse_unsigned(&chars("4294967296"), u32::MAX), None);
    assert_eq!(parse_unsigned(&chars("100"), 100), Some(100));
    assert_eq!(parse_unsigned(&chars("101"), 100), None);
    assert_eq!(parse_unsigned(&chars("0"), 0), Some(0));
    assert_eq!(parse_unsigned(&chars("1"), 0), None);
}

#[test]
fn same_text_compares_whole_strings() {
    assert!(same_text("", ""));
    assert!(same_text("linux", "linux"));
    assert!(!same_text("linux", "linus"));
    assert!(!same_text("linux", "linu"));
    assert!(!same_text("linu", "linux"));
    assert!(!same_text("", "x"));
    assert!(same_text("\u{e9}", "\u{e9}"));
}

#[test]
fn whitespace_is_the_white_space_property_and_nothing_else() {
    for code in 0..=0x10FFFFu32 {
        let Some(c) = char::from_u32(code) else {
            continue;
        };
        let listed = matches!(
            code,
            0x09..=0x0D
                | 0x20
                | 0x85
                | 0xA0
                | 0x1680
                | 0x2000..=0x200A
                | 0x2028
                | 0x2029
                | 0x202F
                | 0x205F
                | 0x3000
        );
        assert_eq!(trim(&[c]).is_empty(), listed, "U+{code:04X}");
        assert_eq!(trim(&['x', c]).len(), if listed { 1 } else { 2 }, "U+{code:04X}");
        assert_eq!(trim(&[c, 'x']).len(), if listed { 1 } else { 2 }, "U+{code:04X}");
    }
}

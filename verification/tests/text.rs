use rust_primer::text::{chars_of, parse_u32, split_whitespace, trim, whitespace};

#[test]
fn whitespace_is_the_unicode_property() {
    let mut c = '\0';
    loop {
        assert_eq!(whitespace(c), c.is_whitespace(), "U+{:04X}", c as u32);
        if c == char::MAX {
            break;
        }
        c = match char::from_u32(c as u32 + 1) {
            Some(next) => next,
            None => '\u{e000}',
        };
    }
}

#[test]
fn chars_of_lists_every_character() {
    assert_eq!(chars_of("a\u{e9}\u{65e5}!"), vec!['a', '\u{e9}', '\u{65e5}', '!']);
    assert_eq!(chars_of(""), Vec::<char>::new());
}

#[test]
fn trim_takes_white_space_off_both_ends() {
    for text in [
        "", " ", "   ", "a", " a", "a ", "  a b  ", "\t\n x y \r\n", "\u{a0}x\u{3000}",
        "\u{2003}\u{2028}mid dle\u{205f}", "no-space", " \u{e9} ", "\u{85}",
    ] {
        assert_eq!(trim(text), text.trim(), "{:?}", text);
    }
}

#[test]
fn trim_is_a_slice_of_its_argument() {
    let text = String::from("  42\n");
    let core = trim(&text);
    assert_eq!(core, "42");
    assert_eq!(core.as_ptr() as usize, text.as_ptr() as usize + 2);
}

#[test]
fn parse_u32_reads_decimal_numbers() {
    assert_eq!(parse_u32("0"), Some(0));
    assert_eq!(parse_u32("7"), Some(7));
    assert_eq!(parse_u32("42"), Some(42));
    assert_eq!(parse_u32("+42"), Some(42));
    assert_eq!(parse_u32("007"), Some(7));
    assert_eq!(parse_u32("4294967295"), Some(u32::MAX));
    assert_eq!(parse_u32("+0004294967295"), Some(u32::MAX));
}

#[test]
fn parse_u32_refuses_everything_else() {
    for text in [
        "", "+", "-", "-1", "-0", "++1", "+-1", "1+", " 1", "1 ", "1_000", "12a", "a12", "0x10",
        "4294967296", "42949672950", "99999999999999999999999999", "1.0", "\u{661}", "\u{ff11}",
    ] {
        assert_eq!(parse_u32(text), None, "{:?}", text);
    }
}

#[test]
fn parse_u32_agrees_with_the_standard_parser() {
    let samples = [
        "", "0", "+", "+1", "-1", "12", "012", "4294967295", "4294967296", "00000000000000001",
        "18446744073709551616", "1e3", "٣", "３", " 5", "5\n",
    ];
    for text in samples {
        assert_eq!(parse_u32(text), text.parse::<u32>().ok(), "{:?}", text);
    }
    for n in (0..=u32::MAX).step_by(9_999_991) {
        assert_eq!(parse_u32(&n.to_string()), Some(n));
    }
}

#[test]
fn split_whitespace_gives_the_words() {
    for text in [
        "hello world beautiful world", "", "   ", "one", " one", "one ", "  two   words ",
        "tabs\tand\nlines\r\nmixed", "\u{a0}wide\u{3000}gap\u{2003}", "\u{e9}t\u{e9} \u{65e5}\u{672c}",
    ] {
        let want: Vec<String> = text.split_whitespace().map(String::from).collect();
        assert_eq!(split_whitespace(text), want, "{:?}", text);
    }
    assert_eq!(
        split_whitespace("hello world beautiful world"),
        vec!["hello", "world", "beautiful", "world"]
    );
}

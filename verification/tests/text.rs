use open_cowork::text::{
    blank, chars_of, decimal_string, is_whitespace, parse_usize, push_decimal, push_signed_decimal,
    starts_with_at, string_of, trim_bounds, trimmed,
};

const SAMPLES: [&str; 14] = [
    "",
    " ",
    "a",
    "  a  ",
    "\t\r\n x y \u{a0}\u{3000}",
    "\u{2003}é\u{2028}",
    "\u{85}\u{1680}mid dle\u{205f}\u{202f}",
    "no-space",
    "\n\n",
    " \u{feff} ",
    "\u{200b}",
    "日本語 ",
    "+12",
    "x\u{0}",
];

#[test]
fn white_space_is_what_the_standard_library_says() {
    for code in 0..=0x10ffffu32 {
        if let Some(c) = char::from_u32(code) {
            assert_eq!(is_whitespace(c), c.is_whitespace(), "U+{:04X}", code);
        }
    }
}

#[test]
fn trimming_agrees_with_the_standard_library() {
    for s in SAMPLES {
        assert_eq!(trimmed(s), s.trim());
        assert_eq!(blank(s), s.trim().is_empty());
        let v = chars_of(s);
        let (a, b) = trim_bounds(&v, 0, v.len());
        assert_eq!(string_of(&v, a, b), s.trim());
    }
}

#[test]
fn characters_round_trip() {
    for s in SAMPLES {
        let v = chars_of(s);
        assert_eq!(v, s.chars().collect::<Vec<char>>());
        assert_eq!(string_of(&v, 0, v.len()), s);
    }
    let v = chars_of("héllo");
    assert_eq!(string_of(&v, 1, 3), "él");
    assert_eq!(string_of(&v, 2, 2), "");
}

#[test]
fn numbers_are_read_like_the_standard_library_reads_them() {
    let cases = [
        "0",
        "7",
        "007",
        "+7",
        "++7",
        "-7",
        "",
        "+",
        "-",
        " 7",
        "7 ",
        "1_000",
        "0x10",
        "١٢",
        "18446744073709551615",
        "18446744073709551616",
        "99999999999999999999999999999",
        "1e3",
        "4294967295",
        "4294967296",
    ];
    for s in cases {
        assert_eq!(parse_usize(s), s.parse::<usize>().ok(), "{:?}", s);
    }
}

#[test]
fn numbers_are_written_in_decimal() {
    for n in [
        0u64,
        1,
        9,
        10,
        11,
        99,
        100,
        8000,
        1_700_000_000_123,
        u64::MAX,
    ] {
        assert_eq!(decimal_string(n), n.to_string());
    }
    for i in [
        0i64,
        1,
        -1,
        10,
        -10,
        i64::MAX,
        i64::MIN,
        -9_223_372_036_854_775_807,
    ] {
        let mut out = String::from("n=");
        push_signed_decimal(&mut out, i);
        assert_eq!(out, format!("n={}", i));
    }
    let mut out = String::from("tool-");
    push_decimal(&mut out, 12);
    assert_eq!(out, "tool-12");
}

#[test]
fn prefixes_are_found_in_ranges() {
    let v = chars_of("xx data: y");
    assert!(starts_with_at(&v, 3, v.len(), "data:"));
    assert!(starts_with_at(&v, 3, 8, "data:"));
    assert!(!starts_with_at(&v, 3, 7, "data:"));
    assert!(!starts_with_at(&v, 2, v.len(), "data:"));
    assert!(starts_with_at(&v, 5, 5, ""));
}

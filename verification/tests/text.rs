use sentinel::text::{
    chars_equal, chars_of, chars_spell, is_control, is_whitespace, matches_at, push_decimal,
    split_chars, str_equal, str_spells, string_from_chars, string_from_range, trim, trim_bounds,
};

fn decimal_text(n: i64) -> String {
    let mut s = String::new();
    push_decimal(&mut s, n);
    s
}

#[test]
fn is_control_agrees_with_std_on_every_character() {
    for n in 0u32..=0x10FFFF {
        if let Some(c) = char::from_u32(n) {
            assert_eq!(is_control(c), c.is_control(), "U+{:04X}", n);
        }
    }
}

#[test]
fn is_whitespace_agrees_with_std_on_every_character() {
    for n in 0u32..=0x10FFFF {
        if let Some(c) = char::from_u32(n) {
            assert_eq!(is_whitespace(c), c.is_whitespace(), "U+{:04X}", n);
        }
    }
}

#[test]
fn control_codes_are_the_two_documented_ranges() {
    assert!(is_control('\u{0}'));
    assert!(is_control('\u{1f}'));
    assert!(!is_control(' '));
    assert!(!is_control('~'));
    assert!(is_control('\u{7f}'));
    assert!(is_control('\u{9f}'));
    assert!(!is_control('\u{a0}'));
}

#[test]
fn chars_of_and_back() {
    let v = chars_of("héllo 🌍");
    assert_eq!(v, vec!['h', 'é', 'l', 'l', 'o', ' ', '🌍']);
    assert_eq!(string_from_chars(&v), "héllo 🌍");
    assert_eq!(string_from_range(&v, 1, 4), "éll");
    assert_eq!(string_from_range(&v, 3, 3), "");
    assert_eq!(chars_of(""), Vec::<char>::new());
}

#[test]
fn equality_of_strings() {
    assert!(str_equal("SCAN", "SCAN"));
    assert!(!str_equal("SCAN", "scan"));
    assert!(!str_equal("SCAN", "SCANS"));
    assert!(str_equal("", ""));
    assert!(chars_equal(&chars_of("ab"), &chars_of("ab")));
    assert!(!chars_equal(&chars_of("ab"), &chars_of("ba")));
    assert!(chars_spell(&chars_of("key"), "key"));
    assert!(!chars_spell(&chars_of("key"), "ke"));
}

#[test]
fn a_string_against_given_characters() {
    assert!(str_spells("héllo", &chars_of("héllo")));
    assert!(str_spells("", &chars_of("")));
    assert!(!str_spells("hello", &chars_of("hell")));
    assert!(!str_spells("hell", &chars_of("hello")));
    assert!(!str_spells("hello", &chars_of("hallo")));
    assert!(!str_spells("", &chars_of("a")));
}

#[test]
fn the_empty_string_occurs_at_every_place() {
    assert!(matches_at(&chars_of("abc"), &chars_of(""), 0));
    assert!(matches_at(&chars_of("abc"), &chars_of(""), 3));
    assert!(!matches_at(&chars_of("abc"), &chars_of(""), 4));
}

#[test]
fn matches_at_looks_at_one_place() {
    let hay = chars_of("abcabc");
    let needle = chars_of("bc");
    assert!(!matches_at(&hay, &needle, 0));
    assert!(matches_at(&hay, &needle, 1));
    assert!(matches_at(&hay, &needle, 4));
    assert!(!matches_at(&hay, &needle, 5));
    assert!(!matches_at(&hay, &needle, usize::MAX));
}

#[test]
fn trim_agrees_with_std() {
    let cases = [
        "",
        " ",
        "\t\r\n",
        "a",
        "  a  ",
        "\u{3000}a\u{a0}",
        "a b",
        "\n  SCAN \r\n",
        "\u{85}x\u{2028}",
        "x\u{200b}",
        "\u{feff}x",
    ];
    for case in cases {
        assert_eq!(trim(case), case.trim(), "{:?}", case);
    }
}

#[test]
fn trim_bounds_of_padded_text() {
    assert_eq!(trim_bounds(&chars_of("  ab ")), (2, 4));
    assert_eq!(trim_bounds(&chars_of("ab")), (0, 2));
    let (from, to) = trim_bounds(&chars_of("   "));
    assert_eq!(from, to);
}

#[test]
fn trimming_twice_is_trimming_once() {
    let once = trim(" \t win \n");
    assert_eq!(trim(&once), once);
    assert_eq!(once, "win");
}

#[test]
fn split_agrees_with_std() {
    let cases = ["", "+", "a", "a+b", "a+", "+a", "a++b", "ctrl+shift+k", "++"];
    for case in cases {
        let parts: Vec<String> =
            split_chars(&chars_of(case), '+').iter().map(|p| string_from_chars(p)).collect();
        let expected: Vec<String> = case.split('+').map(|p| p.to_string()).collect();
        assert_eq!(parts, expected, "{:?}", case);
    }
}

#[test]
fn decimal_of_integers() {
    assert_eq!(decimal_text(0), "0");
    assert_eq!(decimal_text(7), "7");
    assert_eq!(decimal_text(10), "10");
    assert_eq!(decimal_text(-1), "-1");
    assert_eq!(decimal_text(1920), "1920");
    assert_eq!(decimal_text(-2147483648), "-2147483648");
    assert_eq!(decimal_text(2147483647), "2147483647");
    assert_eq!(decimal_text(i64::MAX), i64::MAX.to_string());
    assert_eq!(decimal_text(i64::MIN), i64::MIN.to_string());
}

#[test]
fn decimal_is_appended() {
    let mut s = String::from("left=");
    push_decimal(&mut s, -12);
    assert_eq!(s, "left=-12");
}

#[test]
fn decimal_agrees_with_std_on_many_values() {
    let mut n: i64 = -1_000_003;
    while n < 1_000_003 {
        assert_eq!(decimal_text(n), n.to_string());
        n += 997;
    }
}

use hyprstate::json::{integer_at, text_at};
use hyprstate::number::{
    i64_text, leading_digits, parse_hex_u64, parse_i64, parse_u32, parse_u64, push_long_decimal,
    u64_text,
};
use hyprstate::order::sort_texts;
use hyprstate::text::{
    contains, ends_with, find, find_folded, first_word, join, last_piece, less, lines, pad,
    quoted, split, split_once, starts_with, strip_prefix, strip_suffix, trim, trim_end,
    trim_end_char, trim_start, white, words,
};

fn strings(v: &[&str]) -> Vec<String> {
    v.iter().map(|s| s.to_string()).collect()
}

/// Texts to hold against the standard library.
const SAMPLES: [&str; 12] = [
    "",
    " ",
    "a",
    "  a b  ",
    "\u{a0}x\u{3000}y\u{2028}",
    "one\r\ntwo\nthree",
    "tail\n",
    "\n\n",
    "a::b:",
    "\u{1f600} \u{e9}\u{301}",
    "x\u{b}y\u{c}z\u{85}w",
    "key = value = more",
];

#[test]
fn texts_as_the_standard_library_has_them() {
    for s in SAMPLES {
        assert_eq!(trim(s), s.trim(), "{s:?}");
        assert_eq!(trim_start(s), s.trim_start(), "{s:?}");
        assert_eq!(trim_end(s), s.trim_end(), "{s:?}");
        assert_eq!(words(s), s.split_whitespace().collect::<Vec<_>>(), "{s:?}");
        assert_eq!(first_word(s), s.split_whitespace().next(), "{s:?}");
        assert_eq!(lines(s), s.lines().collect::<Vec<_>>(), "{s:?}");
        assert_eq!(split(s, ':'), s.split(':').collect::<Vec<_>>(), "{s:?}");
        assert_eq!(split_once(s, '='), s.split_once('='), "{s:?}");
        assert_eq!(last_piece(s, ':'), s.rsplit(':').next().unwrap(), "{s:?}");
        assert_eq!(quoted("", s), format!("{s:?}"));
        for p in ["", "a", "\u{e9}", "::", "tail", " "] {
            assert_eq!(starts_with(s, p), s.starts_with(p), "{s:?} {p:?}");
            assert_eq!(ends_with(s, p), s.ends_with(p), "{s:?} {p:?}");
            assert_eq!(contains(s, p), s.contains(p), "{s:?} {p:?}");
            assert_eq!(strip_prefix(s, p), s.strip_prefix(p), "{s:?} {p:?}");
            assert_eq!(strip_suffix(s, p), s.strip_suffix(p), "{s:?} {p:?}");
        }
        for t in SAMPLES {
            assert_eq!(less(s, t), s < t, "{s:?} {t:?}");
        }
    }
}

#[test]
fn white_space_as_the_standard_library_has_it() {
    for n in 0..0x11_0000u32 {
        if let Some(c) = char::from_u32(n) {
            assert_eq!(white(c), c.is_whitespace(), "{n:#x}");
        }
    }
}

#[test]
fn parts_of_texts() {
    assert_eq!(find("a=b", '='), 1);
    assert_eq!(find("ab", '='), 2);
    assert_eq!(find_folded("xINHIBIT locks", "inhibit"), Some(1));
    assert_eq!(find_folded("nothing", "inhibit"), None);
    assert_eq!(join(&strings(&["a", "", "b"]), ", "), "a, , b");
    assert_eq!(pad("ab", 4), "ab  ");
    assert_eq!(pad("\u{e9}bcde", 4), "\u{e9}bcde");
    assert_eq!(trim_end_char("1.500", '0'), "1.5");
    assert_eq!(split(&join(&strings(&["a", "b", ""]), ":"), ':'), vec!["a", "b", ""]);
}

#[test]
fn numbers_as_the_standard_library_has_them() {
    for s in [
        "", "0", "-0", "+7", "-", "+", "007", "12x", " 1", "4294967295", "4294967296", "-5",
        "9223372036854775807", "9223372036854775808", "-9223372036854775808",
        "-9223372036854775809", "18446744073709551615", "18446744073709551616", "--1", "\u{663}",
    ] {
        assert_eq!(parse_i64(s), s.parse::<i64>().ok(), "{s:?}");
        assert_eq!(parse_u64(s), s.parse::<u64>().ok(), "{s:?}");
        assert_eq!(parse_u32(s), s.parse::<u32>().ok(), "{s:?}");
        assert_eq!(parse_hex_u64(s), u64::from_str_radix(s, 16).ok(), "{s:?}");
    }
    assert_eq!(parse_hex_u64("0300Ff"), Some(0x0300ff));
    for n in [0u64, 9, 10, 1_000_000, u64::MAX] {
        assert_eq!(u64_text(n), n.to_string());
        assert_eq!(parse_u64(&u64_text(n)), Some(n));
    }
    for n in [0i64, -1, 42, i64::MIN, i64::MAX] {
        assert_eq!(i64_text(n), n.to_string());
    }
    let mut out = String::from("t=");
    push_long_decimal(&mut out, u128::MAX);
    assert_eq!(out, format!("t={}", u128::MAX));
    assert_eq!(leading_digits("12ab3"), "12");
    assert_eq!(leading_digits("x"), "");
}

#[test]
fn texts_in_order() {
    let unsorted = strings(&["b", "a", "\u{e9}", "", "b", "B"]);
    let mut want = unsorted.clone();
    want.sort();
    assert_eq!(sort_texts(&unsorted), want);
}

#[test]
fn members_of_documents() {
    let v: serde_json::Value =
        serde_json::from_str("{\"n\": -4, \"big\": 18446744073709551615, \"f\": 1.0, \"s\": \"x\"}")
            .unwrap();
    assert_eq!(integer_at(&v, "n"), Some(-4));
    assert_eq!(integer_at(&v, "big"), None);
    assert_eq!(integer_at(&v, "f"), None);
    assert_eq!(integer_at(&v, "s"), None);
    assert_eq!(integer_at(&v, "none"), None);
    assert_eq!(text_at(&v, "s"), Some("x"));
    assert_eq!(text_at(&v, "n"), None);
    assert_eq!(text_at(&serde_json::Value::Null, "s"), None);
}

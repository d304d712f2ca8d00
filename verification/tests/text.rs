use rgbw_dashboard::numbers::{is_decimal, is_i64};
use rgbw_dashboard::table::StringMap;
use rgbw_dashboard::text::{
    char_is_ascii_alphabetic, char_is_ascii_alphanumeric, char_is_ascii_digit,
    char_is_whitespace, chars_le, concat2, concat3, contains_char, ends_with, find,
    first_token_of, join, matches_at, sort_strings, split_once, starts_with, str_contains,
    str_eq, str_is_blank, str_le, strip_prefix, strip_suffix, subvec, to_chars, to_decimal, trim,
    trim_bounds, trimmed_lines,
};

fn chars(s: &str) -> Vec<char> {
    s.chars().collect()
}

#[test]
fn whitespace_is_what_the_standard_library_says() {
    for code in 0..=0x10ffffu32 {
        if let Some(c) = char::from_u32(code) {
            assert_eq!(char_is_whitespace(c), c.is_whitespace(), "U+{:04X}", code);
        }
    }
}

#[test]
fn ascii_classes_are_what_the_standard_library_says() {
    for code in 0..=0x2ffu32 {
        let c = char::from_u32(code).unwrap();
        assert_eq!(char_is_ascii_alphabetic(c), c.is_ascii_alphabetic());
        assert_eq!(char_is_ascii_digit(c), c.is_ascii_digit());
        assert_eq!(char_is_ascii_alphanumeric(c), c.is_ascii_alphanumeric());
    }
}

#[test]
fn trimming_is_what_the_standard_library_does() {
    for s in ["", " ", "a", "  a b  ", "\t\r\n x \u{a0}\u{3000}", "\u{2003}y", "é ", " \0 "] {
        assert_eq!(trim(s), s.trim(), "{:?}", s);
        assert_eq!(str_is_blank(s), s.trim().is_empty(), "{:?}", s);
        let v = chars(s);
        let (from, to) = trim_bounds(&v);
        assert_eq!(v[from..to].iter().collect::<String>(), s.trim());
    }
}

#[test]
fn characters_and_equality() {
    assert_eq!(to_chars("héllo"), chars("héllo"));
    assert!(to_chars("").is_empty());
    assert!(str_eq("abc", "abc"));
    assert!(!str_eq("abc", "abd"));
    assert!(!str_eq("abc", "ab"));
    assert!(str_eq("", ""));
    assert_eq!(concat2("ab", "cd"), "abcd");
    assert_eq!(concat3("a", "", "c"), "ac");
    assert_eq!(subvec(&chars("hello"), 1, 3), chars("el"));
    assert!(subvec(&chars("hello"), 2, 2).is_empty());
}

#[test]
fn searching() {
    assert!(contains_char(&chars("a=b"), '='));
    assert!(!contains_char(&chars("ab"), '='));
    assert_eq!(find(&chars("hello world"), &chars("o")), Some(4));
    assert_eq!(find(&chars("hello world"), &chars("world")), Some(6));
    assert_eq!(find(&chars("hello"), &chars("hello")), Some(0));
    assert_eq!(find(&chars("hello"), &chars("")), Some(0));
    assert_eq!(find(&chars(""), &chars("")), Some(0));
    assert_eq!(find(&chars("hello"), &chars("lo!")), None);
    assert_eq!(find(&chars("hi"), &chars("hello")), None);
    assert_eq!(find(&chars("aab"), &chars("ab")), Some(1));
    assert!(matches_at(&chars("aab"), &chars("ab"), 1));
    assert!(!matches_at(&chars("aab"), &chars("ab"), 0));
    assert!(!matches_at(&chars("aab"), &chars("ab"), 2));
    assert!(!matches_at(&chars("aab"), &chars("ab"), 9));
    for (hay, needle) in [("a..b", ".."), ("a.b", ".."), ("", ""), ("x", ""), ("", "x"), ("ab", "ab")] {
        assert_eq!(str_contains(hay, needle), hay.contains(needle));
        assert_eq!(starts_with(hay, needle), hay.starts_with(needle));
        assert_eq!(ends_with(hay, needle), hay.ends_with(needle));
        assert_eq!(strip_prefix(hay, needle), hay.strip_prefix(needle));
        assert_eq!(strip_suffix(hay, needle), hay.strip_suffix(needle));
    }
    assert_eq!(strip_prefix("#ifdef X", "#ifdef"), Some(" X"));
    assert_eq!(strip_suffix("a.json", ".json"), Some("a"));
}

#[test]
fn splitting() {
    assert_eq!(split_once("a // b // c", "//"), ("a ", Some(" b // c")));
    assert_eq!(split_once("no comment", "//"), ("no comment", None));
    assert_eq!(split_once("//x", "//"), ("", Some("x")));
    assert_eq!(split_once("k=v=w", "="), ("k", Some("v=w")));
    for s in ["", "  ", " one two", "one", "\tx\u{a0}y ", "a\nb"] {
        assert_eq!(first_token_of(s), s.split_whitespace().next().unwrap_or(""), "{:?}", s);
    }
}

#[test]
fn lines() {
    let expected = |s: &str| -> Vec<String> {
        s.lines().map(|l| l.trim()).filter(|l| !l.is_empty()).map(str::to_string).collect()
    };
    for s in [
        "",
        "\n",
        "a",
        "a\n",
        "a\nb",
        " a \r\n\r\n b\r\n",
        "\n\n x \n\n",
        "a\rb\nc",
        "last \r",
        "é\n\u{3000}ü\u{3000}\n",
    ] {
        assert_eq!(trimmed_lines(s), expected(s), "{:?}", s);
    }
}

#[test]
fn decimal_digits() {
    for n in [0u64, 1, 9, 10, 11, 99, 100, 600, 4096, 115200, 1234567890, u64::MAX] {
        assert_eq!(to_decimal(n), n.to_string());
    }
}

#[test]
fn joining() {
    let items = |v: &[&str]| -> Vec<String> { v.iter().map(|s| s.to_string()).collect() };
    assert_eq!(join(&items(&[]), " "), "");
    assert_eq!(join(&items(&["a"]), " "), "a");
    assert_eq!(join(&items(&["a", "b", "c"]), ", "), "a, b, c");
    assert_eq!(join(&items(&["", ""]), "-"), "-");
}

#[test]
fn order_of_strings_is_what_the_standard_library_says() {
    let samples = ["", "a", "A", "ab", "abc", "b", "é", "z", "\u{10000}", "\u{ffff}", "a\0"];
    for a in samples {
        for b in samples {
            assert_eq!(str_le(a, b), a <= b, "{:?} {:?}", a, b);
            assert_eq!(chars_le(&chars(a), &chars(b)), a <= b);
        }
    }
    let mut expected: Vec<String> = samples.iter().map(|s| s.to_string()).collect();
    let sorted = sort_strings(expected.clone());
    expected.sort();
    assert_eq!(sorted, expected);
    assert!(sort_strings(Vec::new()).is_empty());
    assert_eq!(
        sort_strings(vec!["b".to_string(), "a".to_string(), "b".to_string()]),
        vec!["a".to_string(), "b".to_string(), "b".to_string()]
    );
}

#[test]
fn integers_are_what_the_standard_library_reads() {
    for s in [
        "", "0", "-0", "+0", "7", "-7", "+7", "--7", "+-7", "+", "-", " 7", "7 ", "1_000", "1e3",
        "0x10", "ff", "FF", "-ff", "zz", "9223372036854775807", "9223372036854775808",
        "-9223372036854775808", "-9223372036854775809", "7fffffffffffffff", "8000000000000000",
        "-8000000000000000", "-8000000000000001", "00000000000000000000000000000000000009",
        "٣", "१२",
    ] {
        assert_eq!(is_i64(&chars(s), false), s.parse::<i64>().is_ok(), "{:?}", s);
        assert_eq!(is_i64(&chars(s), true), i64::from_str_radix(s, 16).is_ok(), "hex {:?}", s);
    }
}

#[test]
fn decimal_notation() {
    for s in ["0.8", "1", "-1", "+1.", ".5", "-.5", "1e5", "1E5", "1e+5", "1.5e-3", "00.10", "12."] {
        assert!(is_decimal(&chars(s)), "{:?}", s);
    }
    for s in ["", ".", "-", "+.", "e5", ".e5", "1e", "1e+", "1.2.3", "1 ", " 1", "1f", "0x1", "1,5", "1e5.0", "--1", "١.٥"] {
        assert!(!is_decimal(&chars(s)), "{:?}", s);
    }
}

#[test]
fn a_table_keeps_each_key_once_in_order() {
    let mut table: StringMap<u32> = StringMap::new();
    assert_eq!(table.len(), 0);
    assert_eq!(table.insert("b".to_string(), 1), None);
    assert_eq!(table.insert("a".to_string(), 2), None);
    assert_eq!(table.insert("b".to_string(), 3), Some(1));
    assert_eq!(table.len(), 2);
    assert_eq!(table.keys(), vec!["b".to_string(), "a".to_string()]);
    assert_eq!(table.get("b"), Some(&3));
    assert_eq!(table.get("c"), None);
    assert!(table.contains_key("a"));
    assert!(!table.contains_key("A"));
    assert_eq!(table.position("a"), Some(1));
    assert_eq!(table.position("zz"), None);
    assert_eq!(table.key_at(0), "b");
    assert_eq!(*table.value_at(0), 3);
    assert_eq!(table.remove("b"), Some(3));
    assert_eq!(table.remove("b"), None);
    assert_eq!(table.keys(), vec!["a".to_string()]);
    let copy = table.clone();
    assert_eq!(copy.get("a"), Some(&2));
}

use ygege::numbers::{
    int_error_text, parse_i32, parse_u16, parse_unsigned, parse_usize, u64_to_string,
    unsigned_parse_error_of, usize_to_string, IntErrorKind,
};
use ygege::text::{
    chars_to_string, contains_chars, find_chars, join_strings, split_chars, split_chars_any,
    str_contains, str_eq, str_to_chars, trim_str,
};
use ygege::urls::{decode_or_keep, url_encode};

fn chars(s: &str) -> Vec<char> {
    s.chars().collect()
}

#[test]
fn trims_unicode_whitespace() {
    assert_eq!(trim_str("  \t abc def \n"), "abc def");
    assert_eq!(trim_str("\u{3000}x\u{a0}"), "x");
    assert_eq!(trim_str("   "), "");
    assert_eq!(trim_str(""), "");
}

#[test]
fn finds_first_occurrence_in_characters() {
    let hay = chars("aé/torrent/x/torrent/y");
    assert_eq!(find_chars(&hay, &chars("/torrent/")), Some(2));
    assert_eq!(find_chars(&hay, &chars("zzz")), None);
    assert!(contains_chars(&hay, &chars("")));
    assert!(str_contains("Aucun résultat pour", "Aucun résultat "));
    assert!(!str_contains("abc", "abcd"));
}

#[test]
fn splits_like_str_split() {
    let pieces: Vec<String> = split_chars(&chars("a,,b,"), ',')
        .iter()
        .map(|p| chars_to_string(p))
        .collect();
    assert_eq!(pieces, vec!["a", "", "b", ""]);
    let any: Vec<String> = split_chars_any(&chars("x+y z"), &['+', ' '])
        .iter()
        .map(|p| chars_to_string(p))
        .collect();
    assert_eq!(any, vec!["x", "y", "z"]);
    let one: Vec<String> = split_chars(&chars(""), ',').iter().map(|p| chars_to_string(p)).collect();
    assert_eq!(one, vec![""]);
}

#[test]
fn joins_and_compares() {
    let parts = vec!["a".to_string(), "b".to_string(), "c".to_string()];
    assert_eq!(join_strings(&parts, "; "), "a; b; c");
    assert_eq!(join_strings(&Vec::new(), "; "), "");
    assert!(str_eq("abc", "abc"));
    assert!(!str_eq("abc", "abd"));
    assert_eq!(str_to_chars("hé"), vec!['h', 'é']);
}

#[test]
fn formats_decimal_numbers() {
    assert_eq!(u64_to_string(0), "0");
    assert_eq!(u64_to_string(1234567890), "1234567890");
    assert_eq!(u64_to_string(u64::MAX), u64::MAX.to_string());
    assert_eq!(usize_to_string(42), "42");
}

#[test]
fn parses_unsigned_like_std() {
    for s in ["0", "+7", "0042", "18446744073709551615", "", "+", "-1", "12a", " 1", "18446744073709551616"] {
        assert_eq!(parse_usize(s), s.parse::<usize>().ok(), "{:?}", s);
    }
    for s in ["65535", "65536", "-0", "+65535", "1_0"] {
        assert_eq!(parse_u16(s), s.parse::<u16>().ok(), "{:?}", s);
    }
    assert_eq!(parse_unsigned(&chars("255"), 255), Some(255));
    assert_eq!(parse_unsigned(&chars("256"), 255), None);
}

#[test]
fn parses_signed_like_std() {
    for s in ["-2147483648", "2147483647", "2147483648", "-2147483649", "+5", "-", "+", "-+1", "--1", "12"] {
        assert_eq!(parse_i32(s), s.parse::<i32>().ok(), "{:?}", s);
    }
}

#[test]
fn parse_errors_say_what_std_says() {
    for s in ["", "+", "-", "x", "12x", "99999", "-3", "9999999999999x"] {
        let kind = unsigned_parse_error_of(&chars(s), u16::MAX as u64);
        let expected = s.parse::<u16>().unwrap_err().to_string();
        assert_eq!(int_error_text(kind.unwrap()), expected, "{:?}", s);
    }
    assert_eq!(unsigned_parse_error_of(&chars("12"), u16::MAX as u64), None);
    assert_eq!(unsigned_parse_error_of(&chars(""), 9), Some(IntErrorKind::Empty));
}

#[test]
fn percent_encodes_like_urlencoding() {
    for s in ["hello", "a b&c", "é~-._", "100%", ""] {
        assert_eq!(url_encode(s), urlencoding::encode(s).into_owned(), "{:?}", s);
    }
    assert_eq!(url_encode("a b"), "a%20b");
}

#[test]
fn percent_decodes_like_urlencoding() {
    for s in ["hello%20world", "%41%zz", "%", "%4", "%e9", "%C3%A9t%C3%A9", "a+b", "50%25"] {
        let expected = match urlencoding::decode(s) {
            Ok(d) => d.into_owned(),
            Err(_) => s.to_string(),
        };
        assert_eq!(decode_or_keep(s), expected, "{:?}", s);
    }
    assert_eq!(decode_or_keep(&url_encode("l'été à Paris")), "l'été à Paris");
}

#[test]
fn printed_numbers_read_back() {
    for n in [0u64, 7, 10, 1234, 65535, u64::MAX] {
        assert_eq!(parse_unsigned(&chars(&u64_to_string(n)), u64::MAX), Some(n));
    }
    for n in [0usize, 42, usize::MAX] {
        assert_eq!(parse_usize(&usize_to_string(n)), Some(n));
    }
}

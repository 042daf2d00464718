use bifrost::order::{comes_before, sort_descending};
use bifrost::text::{
    contains_text, decimal_padded, decimal_string, ends_with, hex_padded, join_strings,
    lines_of, octal_string, parse_number, replace_char, same, signed_decimal_string, split_char,
    split_once, starts_with, strip_prefix, to_ascii_upper, to_forward_slashes,
};

const WORDS: [&str; 12] =
    ["", "a", "ab", "a/b", "/", "//", "a\\b", "größe", "日本語", "A-Z", "=x=y", "\u{10ffff}"];

#[test]
fn text_behaves_like_the_standard_library() {
    for a in WORDS {
        assert_eq!(to_forward_slashes(a), a.replace('\\', "/"));
        assert_eq!(to_ascii_upper(a), a.to_ascii_uppercase());
        assert_eq!(replace_char(a, 'a', "<&>"), a.replace('a', "<&>"));
        let want: Vec<&str> = a.split('/').collect();
        assert_eq!(split_char(a, '/'), want);
        let want = a.split_once('=').map(|(x, y)| (x.to_string(), y.to_string()));
        assert_eq!(split_once(a, '='), want);
        for b in WORDS {
            assert_eq!(same(a, b), a == b);
            assert_eq!(bifrost::text::concat(a, b), format!("{}{}", a, b));
            assert_eq!(contains_text(a, b), a.contains(b));
            assert_eq!(starts_with(a, b), a.starts_with(b));
            assert_eq!(ends_with(a, b), a.ends_with(b));
            assert_eq!(strip_prefix(a, b), a.strip_prefix(b).map(|s| s.to_string()));
            assert_eq!(comes_before(a, b), a < b);
        }
    }
}

#[test]
fn lines_are_those_of_the_standard_library() {
    for s in ["", "\n", "a", "a\n", "a\nb", "a\r\nb\r\n", "\r", "a\r", "\n\na", "a\r\r\n", "\r\n\r"] {
        let want: Vec<&str> = s.lines().collect();
        assert_eq!(lines_of(s), want, "lines of {:?}", s);
    }
}

#[test]
fn numbers_are_written_like_the_standard_library() {
    for n in [0u64, 1, 7, 8, 9, 10, 99, 100, 255, 4096, u32::MAX as u64, u64::MAX] {
        assert_eq!(decimal_string(n), format!("{}", n));
        assert_eq!(decimal_padded(n, 5), format!("{:05}", n));
        assert_eq!(hex_padded(n, 8, false), format!("{:08x}", n));
        assert_eq!(hex_padded(n, 8, true), format!("{:08X}", n));
        assert_eq!(octal_string(n), format!("{:o}", n));
    }
    for n in [0i32, -1, 42, i32::MIN, i32::MAX] {
        assert_eq!(signed_decimal_string(n), format!("{}", n));
    }
}

#[test]
fn numbers_are_read_like_the_standard_library() {
    let words = [
        "", "0", "+", "-", "+7", "-7", "007", "ff", "FF", "+ff", "1_0", " 1", "18446744073709551615",
        "18446744073709551616", "ffffffffffffffff", "10000000000000000", "٣", "65535", "65536",
    ];
    for w in words {
        for base in [10u64, 16] {
            match (parse_number(w, base, u64::MAX), u64::from_str_radix(w, base as u32)) {
                (Ok(a), Ok(b)) => assert_eq!(a, b),
                (Err(a), Err(b)) => assert_eq!(a.message(), b.to_string()),
                (a, b) => panic!("{:?}: {:?} and {:?}", w, a.is_ok(), b),
            }
        }
        match (parse_number(w, 10, u16::MAX as u64), w.parse::<u16>()) {
            (Ok(a), Ok(b)) => assert_eq!(a, b as u64),
            (Err(a), Err(b)) => assert_eq!(a.message(), b.to_string()),
            (a, b) => panic!("{:?}: {:?} and {:?}", w, a.is_ok(), b),
        }
    }
    for n in 0..70_000u64 {
        assert_eq!(parse_number(&decimal_padded(n, 3), 10, u64::MAX).ok(), Some(n));
    }
}

#[test]
fn strings_are_joined() {
    let parts: Vec<String> = vec!["a".to_string(), "".to_string(), "b".to_string()];
    assert_eq!(join_strings(&parts, ", "), parts.join(", "));
    assert_eq!(join_strings(&Vec::new(), ", "), "");
}

#[test]
fn sorting_runs_downwards_and_extensions_come_first() {
    let list: Vec<String> =
        ["b", "a/b", "a", "", "a/b/c", "ä", "a", "a/b-"].iter().map(|s| s.to_string()).collect();
    let mut want = list.clone();
    want.sort();
    want.reverse();
    let sorted = sort_descending(list);
    assert_eq!(sorted, want);
    let at = |s: &str| sorted.iter().position(|x| x == s).unwrap();
    assert!(at("a/b/c") < at("a/b") && at("a/b") < at("a"));
}

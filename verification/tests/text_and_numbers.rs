use gamemon::number::{format_u64, parse_u32, parse_u32_chars, parse_u64};
use gamemon::text::{
    chars_of, contains_chars, find_at_or_after, has_char, list_has, owned, push_chars,
    replace_str, same_chars, same_text, slice_chars, split_str, str_contains, string_of,
};

#[test]
fn split_str_separates_on_each_separator() {
    assert_eq!(split_str("a && b && c", " && "), vec!["a", "b", "c"]);
}

#[test]
fn split_str_keeps_empty_pieces() {
    assert_eq!(split_str("", " && "), vec![""]);
    assert_eq!(split_str("a && ", " && "), vec!["a", ""]);
    assert_eq!(split_str(" && a", " && "), vec!["", "a"]);
}

#[test]
fn split_then_join_gives_the_text_back() {
    for (s, sep) in [("a && b && c", " && "), ("xx", "x"), ("", ","), ("no separator", ";"), ("aaaa", "aa")] {
        let parts = split_str(s, sep);
        assert_eq!(parts.join(sep), s);
        let expected: Vec<String> = s.split(sep).map(|x| x.to_string()).collect();
        assert_eq!(parts, expected);
    }
}

#[test]
fn replace_str_replaces_every_occurrence() {
    assert_eq!(replace_str("a b c", " ", "_"), "a_b_c");
    assert_eq!(replace_str("aaa", "aa", "b"), "ba");
    assert_eq!(replace_str("nothing", "x", "y"), "nothing");
}

#[test]
fn replace_str_with_empty_pattern_surrounds_each_character() {
    assert_eq!(replace_str("abc", "", "-"), "-a-b-c-");
    assert_eq!(replace_str("", "", "-"), "-");
}

#[test]
fn replace_str_agrees_with_std() {
    for (s, from, to) in [("x && y && z", " && ", ","), ("--EDITING--", "--EDITING--", "cmd"), ("aXbXc", "X", ""), ("héllo wörld", "ö", "o")] {
        assert_eq!(replace_str(s, from, to), s.replace(from, to));
    }
}

#[test]
fn str_contains_finds_patterns() {
    assert!(str_contains("hello", "ll"));
    assert!(str_contains("hello", ""));
    assert!(!str_contains("", "a"));
    assert!(!str_contains("hello", "lo!"));
}

#[test]
fn find_at_or_after_returns_the_leftmost_occurrence_from_the_start() {
    let s = chars_of("abcabc");
    let p = chars_of("bc");
    assert_eq!(find_at_or_after(&s, &p, 0), Some(1));
    assert_eq!(find_at_or_after(&s, &p, 2), Some(4));
    assert_eq!(find_at_or_after(&s, &p, 5), None);
    assert!(contains_chars(&s, &p));
    assert!(!contains_chars(&s, &chars_of("cb")));
}

#[test]
fn character_helpers_round_trip() {
    let v = chars_of("GameMon ✓");
    assert_eq!(v.len(), 9);
    assert_eq!(string_of(&v), "GameMon ✓");
    assert_eq!(slice_chars(&v, 4, 7), vec!['M', 'o', 'n']);
    let mut s = String::from("ab");
    push_chars(&mut s, &vec!['c', 'd']);
    assert_eq!(s, "abcd");
    assert!(same_chars(&v, &chars_of("GameMon ✓")));
    assert!(!same_chars(&v, &chars_of("GameMon")));
}

#[test]
fn text_comparisons() {
    assert!(same_text("Idle", "Idle"));
    assert!(!same_text("Idle", "idle"));
    assert!(has_char("a?b", '?'));
    assert!(!has_char("ab", '?'));
    let list = vec!["General".to_string(), "Idle".to_string()];
    assert!(list_has(&list, &"Idle".to_string()));
    assert!(!list_has(&list, &"defaults".to_string()));
    assert_eq!(owned("x"), "x");
    assert_eq!(gamemon::text::concat("Game", "Mon"), "GameMon");
}

#[test]
fn parse_u64_reads_unsigned_numbers() {
    assert_eq!(parse_u64("123"), Some(123));
    assert_eq!(parse_u64("+7"), Some(7));
    assert_eq!(parse_u64("0042"), Some(42));
    assert_eq!(parse_u64("18446744073709551615"), Some(u64::MAX));
    assert_eq!(parse_u64("18446744073709551616"), None);
    assert_eq!(parse_u64(""), None);
    assert_eq!(parse_u64("+"), None);
    assert_eq!(parse_u64("-1"), None);
    assert_eq!(parse_u64(" 1"), None);
    assert_eq!(parse_u64("1a"), None);
}

#[test]
fn parse_u32_agrees_with_std() {
    for s in ["0", "4", "4294967295", "4294967296", "", "+12", "++1", "12 ", "٣"] {
        assert_eq!(parse_u32(s), s.parse::<u32>().ok());
        assert_eq!(parse_u32_chars(&s.chars().collect::<Vec<char>>()), s.parse::<u32>().ok());
    }
}

#[test]
fn format_u64_writes_decimal() {
    assert_eq!(format_u64(0), "0");
    assert_eq!(format_u64(7), "7");
    assert_eq!(format_u64(1234567890), "1234567890");
    assert_eq!(format_u64(u64::MAX), "18446744073709551615");
}

#[test]
fn parse_reads_back_what_format_writes() {
    for n in [0u64, 9, 10, 300, 6742, 4294967296, u64::MAX] {
        assert_eq!(parse_u64(&format_u64(n)), Some(n));
    }
}

use redis_tui::horizontal_slice;
use redis_tui::sort_strings;
use redis_tui::text::{chars_of, lex_le_str, str_contains, push_decimal, byte_length};

#[test]
fn horizontal_slice_takes_a_window() {
    assert_eq!(horizontal_slice("hello", 1, 3), "ell");
}

#[test]
fn horizontal_slice_past_the_end_is_empty() {
    assert_eq!(horizontal_slice("hello", 7, 3), "");
    assert_eq!(horizontal_slice("hello", 5, 3), "");
}

#[test]
fn horizontal_slice_stops_at_the_end() {
    assert_eq!(horizontal_slice("hello", 3, 10), "lo");
}

#[test]
fn horizontal_slice_counts_characters_not_bytes() {
    assert_eq!(horizontal_slice("héllo wörld", 1, 4), "éllo");
    assert_eq!(horizontal_slice("wörld", 1, 1), "ö");
}

#[test]
fn adjacent_windows_concatenate() {
    let s = "abcdefgh";
    let joined = format!("{}{}", horizontal_slice(s, 2, 3), horizontal_slice(s, 5, 2));
    assert_eq!(joined, horizontal_slice(s, 2, 5));
}

#[test]
fn chars_of_keeps_order() {
    assert_eq!(chars_of("aé😀"), vec!['a', 'é', '😀']);
}

#[test]
fn contains_finds_substrings() {
    assert!(str_contains("user:42:name", ":42:"));
    assert!(str_contains("user", ""));
    assert!(str_contains("", ""));
    assert!(!str_contains("user", "users"));
    assert!(!str_contains("abc", "ac"));
    assert!(str_contains("aab", "ab"));
}

#[test]
fn order_of_strings() {
    assert!(lex_le_str("a", "b"));
    assert!(lex_le_str("ab", "b"));
    assert!(lex_le_str("", "a"));
    assert!(lex_le_str("abc", "abc"));
    assert!(!lex_le_str("b", "ab"));
    assert!(!lex_le_str("abc", "ab"));
    assert!(lex_le_str("z", "é"));
}

#[test]
fn order_agrees_with_string_order() {
    let words = ["", "a", "ab", "b", "é", "z", "Z", "aé", "😀", "a😀"];
    for x in words {
        for y in words {
            assert_eq!(lex_le_str(x, y), x <= y, "{x} {y}");
        }
    }
}

#[test]
fn sort_strings_sorts_with_duplicates() {
    let v: Vec<String> = ["b", "a", "c", "a", "", "ba"].iter().map(|s| s.to_string()).collect();
    let sorted = sort_strings(v);
    assert_eq!(sorted, vec!["", "a", "a", "b", "ba", "c"]);
}

#[test]
fn sort_strings_matches_std_sort() {
    let words = ["user:10", "user:2", "session:é", "session:z", "a", "A", "😀", "user:1", "user:10"];
    let mut expected: Vec<String> = words.iter().map(|s| s.to_string()).collect();
    expected.sort();
    let got = sort_strings(words.iter().map(|s| s.to_string()).collect());
    assert_eq!(got, expected);
}

#[test]
fn sort_strings_edge_cases() {
    assert_eq!(sort_strings(Vec::new()), Vec::<String>::new());
    assert_eq!(sort_strings(vec!["x".to_string()]), vec!["x".to_string()]);
}

#[test]
fn decimal_numerals() {
    let mut s = String::from("n=");
    push_decimal(&mut s, 0);
    assert_eq!(s, "n=0");
    let mut s = String::new();
    push_decimal(&mut s, 1907);
    assert_eq!(s, "1907");
    let mut s = String::new();
    push_decimal(&mut s, usize::MAX);
    assert_eq!(s, usize::MAX.to_string());
}

#[test]
fn byte_length_counts_utf8_bytes() {
    assert_eq!(byte_length("abc"), 3);
    assert_eq!(byte_length("é"), 2);
    assert_eq!(byte_length("😀"), 4);
}

#[test]
fn window_is_never_wider_than_asked() {
    for start in 0..8 {
        for width in 0..8 {
            assert!(horizontal_slice("abcdef", start, width).chars().count() <= width);
        }
    }
    assert_eq!(horizontal_slice("abc", 0, 0), "");
}

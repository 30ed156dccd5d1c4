use arbor::text::{decimal_string, parse_usize, split_lines, split_words, trimmed, trimmed_start};

#[test]
fn lines_like_str_lines() {
    assert_eq!(split_lines("a\nb\r\n\nc"), vec!["a", "b", "", "c"]);
    assert_eq!(split_lines("a\n"), vec!["a"]);
    assert!(split_lines("").is_empty());
    assert_eq!(split_lines("\n"), vec![""]);
}

#[test]
fn trimming_whitespace() {
    assert_eq!(trimmed("  a b \n"), "a b");
    assert_eq!(trimmed("\t\n"), "");
    assert_eq!(trimmed_start("  # x "), "# x ");
}

#[test]
fn words_split_on_whitespace() {
    assert_eq!(split_words("  3\t12 \n"), vec!["3", "12"]);
    assert!(split_words("   ").is_empty());
}

#[test]
fn decimal_round_trip() {
    assert_eq!(decimal_string(0), "0");
    assert_eq!(decimal_string(1234), "1234");
    assert_eq!(parse_usize("1234"), Some(1234));
    assert_eq!(parse_usize("007"), Some(7));
    assert_eq!(parse_usize(""), None);
    assert_eq!(parse_usize("-1"), None);
    assert_eq!(parse_usize("1a"), None);
    assert_eq!(parse_usize("99999999999999999999999"), None);
}

use dopbase::commands::output::{column_widths, render_fields, render_row, render_table, table_listing};
use dopbase::order::str_lt;
use dopbase::text::{
    contains_char, contains_str, counted_text, i64_to_string, join_strings, parse_i64, same_text,
    u64_to_string,
};

#[test]
fn decimal_rendering() {
    assert_eq!(u64_to_string(0), "0");
    assert_eq!(u64_to_string(7), "7");
    assert_eq!(u64_to_string(1209600), "1209600");
    assert_eq!(u64_to_string(u64::MAX), "18446744073709551615");
    assert_eq!(i64_to_string(-42), "-42");
    assert_eq!(i64_to_string(i64::MIN), "-9223372036854775808");
    assert_eq!(i64_to_string(i64::MAX), "9223372036854775807");
}

#[test]
fn parse_i64_accepts_what_str_parse_accepts() {
    let cases = [
        "0", "42", "+42", "-42", "007", "9223372036854775807", "-9223372036854775808",
        "9223372036854775808", "-9223372036854775809", "", "+", "-", "1a", " 1", "1 ", "--1",
        "99999999999999999999999",
    ];
    for case in cases {
        assert_eq!(parse_i64(case), case.parse::<i64>().ok(), "{case}");
    }
}

#[test]
fn counted_labels() {
    assert_eq!(counted_text(1, " secret", " secrets"), "1 secret");
    assert_eq!(counted_text(0, " secret", " secrets"), "0 secrets");
    assert_eq!(counted_text(12, " secret", " secrets"), "12 secrets");
}

#[test]
fn join_and_search() {
    let parts = vec!["a".to_owned(), "bc".to_owned(), "d".to_owned()];
    assert_eq!(join_strings(&parts, ", "), "a, bc, d");
    assert_eq!(join_strings(&Vec::new(), ", "), "");
    assert!(contains_str("ENVIRONMENT_NOT_FOUND: missing", "NOT_FOUND"));
    assert!(!contains_str("abc", "abcd"));
    assert!(contains_str("abc", ""));
    assert!(contains_char("a=b", '='));
    assert!(!contains_char("ab", '='));
    assert!(same_text("é", "é"));
    assert!(!same_text("a", "ab"));
}

#[test]
fn string_order_is_by_character() {
    assert!(str_lt("a", "b"));
    assert!(str_lt("a", "ab"));
    assert!(!str_lt("b", "ab"));
    assert!(!str_lt("same", "same"));
}

#[test]
fn fields_are_aligned_to_the_longest_label() {
    let fields = [("Server:", "https://x".to_owned()), ("Server status:", "connected (live)".to_owned())];
    assert_eq!(
        render_fields(&fields),
        "Server:         https://x\nServer status:  connected (live)"
    );
    assert_eq!(render_fields(&[]), "");
}

#[test]
fn table_columns_are_padded_by_three_spaces() {
    let rows = vec![
        vec!["payments".to_owned(), "production".to_owned(), "env_1".to_owned()],
        vec!["api".to_owned(), "dev".to_owned(), "env_22".to_owned()],
    ];
    let widths = column_widths(&["PROJECT", "ENVIRONMENT", "ID"], &rows);
    assert_eq!(widths, vec![8, 11, 6]);
    assert_eq!(render_row(&rows[1], &widths), "api        dev           env_22");
    assert_eq!(
        render_table(&["PROJECT", "ENVIRONMENT", "ID"], &rows),
        "PROJECT    ENVIRONMENT   ID\npayments   production    env_1\napi        dev           env_22"
    );
}

#[test]
fn listing_shows_message_or_table_and_summary() {
    let rows: Vec<Vec<String>> = Vec::new();
    assert_eq!(table_listing(&["A"], &rows, "Nothing here.", "0 things"), "Nothing here.");
    let rows = vec![vec!["x".to_owned()]];
    assert_eq!(table_listing(&["A"], &rows, "Nothing here.", "1 thing"), "A\nx\n\n1 thing");
    assert_eq!(table_listing(&["A"], &rows, "Nothing here.", ""), "A\nx");
}

use mkchoice::{str_height, str_height_checked};

#[test]
fn test_empty_string_has_no_rows() {
    assert_eq!(str_height("", 80), 0);
}

#[test]
fn test_single_line_is_one_row() {
    assert_eq!(str_height("a", 80), 1);
}

#[test]
fn test_each_embedded_line_counts() {
    assert_eq!(str_height("x\n\ny", 80), 3);
    assert_eq!(str_height("a\nb", 80), 2);
}

#[test]
fn test_trailing_newline_adds_no_row() {
    assert_eq!(str_height("a\n", 80), 1);
    assert_eq!(str_height("\n", 80), 1);
}

#[test]
fn test_crlf_counts_like_lf() {
    assert_eq!(str_height("a\r\nb", 80), 2);
}

#[test]
fn test_wrapping_adds_rows() {
    // Two lines of widths 3 and 3 at width 2: each is 1 + 3/2 = 2 rows.
    assert_eq!(str_height("abc\ndef", 2), 4);
    // An exact multiple still adds a row, as the original geometry did.
    assert_eq!(str_height("abcd", 2), 3);
    assert_eq!(str_height("aaaa", 1), 5);
}

#[test]
fn test_wide_characters_use_display_width() {
    // Two CJK characters occupy four columns, not two: at width 3 that
    // wraps once, and at width 5 it fits on one row.
    assert_eq!(str_height("\u{4f60}\u{597d}", 3), 2);
    assert_eq!(str_height("\u{4f60}\u{597d}", 5), 1);
}

#[test]
fn test_checked_height_agrees() {
    assert_eq!(str_height_checked("abc\ndef", 2), Some(4));
    assert_eq!(str_height_checked("", 1), Some(0));
}

#[test]
fn test_checked_height_reports_overflow() {
    let tall = "\n".repeat(70000);
    assert_eq!(str_height_checked(&tall, 80), None);
}

use bili_sync::decimal::{decimal_text, integer_text, parse_i32, two_digit_text};
use bili_sync::text::{
    byte_length, contains, ends_with, fitting_text, is_before, join, replace_char, same_text,
};

#[test]
fn patterns_are_found_anywhere() {
    assert!(contains("status code: -101", "-101"));
    assert!(contains("账号未登录", "未登"));
    assert!(contains("abc", ""));
    assert!(!contains("abc", "abcd"));
    assert!(!contains("", "a"));
    assert!(contains("aab", "ab"));
}

#[test]
fn endings_are_found() {
    assert!(ends_with("video.mp4", ".mp4"));
    assert!(!ends_with("video.mp4 ", ".mp4"));
    assert!(ends_with("x", ""));
    assert!(!ends_with("4", ".mp4"));
}

#[test]
fn characters_are_replaced() {
    assert_eq!(replace_char("a\\b\\c", '\\', '/'), "a/b/c");
    assert_eq!(replace_char("", 'a', 'b'), "");
}

#[test]
fn strings_are_joined() {
    let parts = vec!["a".to_string(), "b".to_string(), "".to_string()];
    assert_eq!(join(&parts, "; "), "a; b; ");
    assert_eq!(join(&Vec::new(), "; "), "");
    assert_eq!(join(&vec!["only".to_string()], ","), "only");
}

#[test]
fn prefixes_count_bytes_and_keep_characters_whole() {
    assert_eq!(fitting_text("合集合集", 6), "合集");
    assert_eq!(fitting_text("合集合集", 8), "合集");
    assert_eq!(fitting_text("ab", 5), "ab");
    assert_eq!(fitting_text("é📊x", 6), "é📊");
    assert_eq!(fitting_text("é📊x", 5), "é");
    assert_eq!(fitting_text("合", 2), "");
    assert_eq!(byte_length("合集"), 6);
    assert_eq!(byte_length("a📊"), 5);
}

#[test]
fn texts_are_ordered_like_strings() {
    let texts = ["", "2024-01-01 00:00:00", "2024-01-02", "a", "ab", "合", "📊"];
    for left in texts {
        for right in texts {
            assert_eq!(is_before(left, right), left < right);
            assert_eq!(same_text(left, right), left == right);
        }
    }
}

#[test]
fn numbers_are_written_in_decimal() {
    assert_eq!(decimal_text(0), "0");
    assert_eq!(decimal_text(u64::MAX), u64::MAX.to_string());
    assert_eq!(integer_text(-1024), "-1024");
    assert_eq!(integer_text(i64::MIN), i64::MIN.to_string());
}

#[test]
fn short_numbers_are_padded() {
    for number in [0, 1, 9, 10, 123, -1, -9, -10, i32::MIN, i32::MAX] {
        assert_eq!(two_digit_text(number), format!("{:02}", number));
    }
}

#[test]
fn numbers_are_read_like_std_reads_them() {
    let texts = [
        "0", "-0", "+7", "007", "2147483647", "2147483648", "-2147483648", "-2147483649", "", "+",
        "-", " 1", "1 ", "1.0", "0x1", "--1", "99999999999999999999",
    ];
    for text in texts {
        assert_eq!(parse_i32(text), text.parse::<i32>().ok());
    }
}

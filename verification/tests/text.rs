use lokin::text::{
    concatenate, contains, decimal_text, is_blank, is_white_space, join, lower, pad_end, pad_start,
    same_text, starts_with, strip_slashes, trim, two_digit_text,
};

#[test]
fn white_space_is_that_of_unicode() {
    for code in 0..=0x10ffffu32 {
        if let Some(c) = char::from_u32(code) {
            assert_eq!(is_white_space(c), c.is_whitespace(), "U+{code:04X}");
        }
    }
}

#[test]
fn trimming() {
    for text in ["", " ", "a", " a ", "\u{3000}a b\n\t", "\u{200b}a", "é "] {
        assert_eq!(trim(text), text.trim());
        assert_eq!(is_blank(text), text.trim().is_empty());
        assert_eq!(trim(&trim(text)), trim(text));
    }
}

#[test]
fn searching() {
    for (text, part) in [
        ("", ""),
        ("abc", ""),
        ("", "a"),
        ("abab", "bab"),
        ("aab", "ab"),
        ("abc", "abcd"),
        ("größe", "öß"),
        ("abc", "ac"),
    ] {
        assert_eq!(contains(text, part), text.contains(part));
        assert_eq!(starts_with(text, part), text.starts_with(part));
        assert_eq!(same_text(text, part), text == part);
    }
    assert!(same_text("same", "same"));
    assert!(starts_with("prefix", "pre"));
}

#[test]
fn slashes_at_the_end_are_taken_off() {
    assert_eq!(strip_slashes("http://host//"), "http://host");
    assert_eq!(strip_slashes("//"), "");
    assert_eq!(strip_slashes("/a"), "/a");
}

#[test]
fn numbers_in_decimal() {
    for n in [0, 1, 9, 10, 99, 100, 65535, u128::MAX] {
        assert_eq!(decimal_text(n), n.to_string());
        assert_eq!(two_digit_text(n), format!("{n:02}"));
    }
}

#[test]
fn padding() {
    assert_eq!(pad_end("ab", 4), "ab  ");
    assert_eq!(pad_start("ab", 4), "  ab");
    assert_eq!(pad_end("abcde", 4), "abcde");
    assert_eq!(pad_start("abcde", 4), "abcde");
    assert_eq!(pad_start("é", 2), " é");
}

#[test]
fn joining() {
    let parts = ["a".to_string(), "".to_string(), "b".to_string()];
    assert_eq!(join(&parts, ", "), "a, , b");
    assert_eq!(join(&parts[..1], ", "), "a");
    assert_eq!(join(&[], ", "), "");
    assert_eq!(concatenate(&parts), "ab");
}

#[test]
fn lower_case() {
    for code in 0..128u8 {
        let c = char::from(code);
        assert_eq!(
            lower(&c.to_string()),
            c.to_ascii_lowercase().to_string()
        );
    }
    assert_eq!(lower("ÄB"), "äb");
    assert_eq!(lower("\u{212a}"), "k");
}

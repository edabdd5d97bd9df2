use cync::bytes::{push_all, push_be, read_be, same_bytes};
use cync::text::{decimal_text, push_decimal, same_text, trim};

#[test]
fn numbers_are_written_most_significant_digit_first() {
    let mut out = vec![7];
    push_be(&mut out, 0x0102_0304_0506_0708, 8);
    assert_eq!(out, vec![7, 1, 2, 3, 4, 5, 6, 7, 8]);
    let mut short = Vec::new();
    push_be(&mut short, 0x0102, 1);
    assert_eq!(short, vec![2]);
}

#[test]
fn numbers_read_back() {
    for n in [0u64, 1, 255, 256, u64::MAX] {
        let mut out = Vec::new();
        push_be(&mut out, n, 8);
        assert_eq!(out, n.to_be_bytes().to_vec());
        assert_eq!(read_be(&out), n);
    }
    assert_eq!(read_be(&[]), 0);
    assert_eq!(read_be(&[1, 0]), 256);
}

#[test]
fn byte_strings_compare() {
    assert!(same_bytes(b"", b""));
    assert!(same_bytes(b"ab", b"ab"));
    assert!(!same_bytes(b"ab", b"ac"));
    assert!(!same_bytes(b"ab", b"abc"));
}

#[test]
fn byte_strings_join() {
    let mut out = vec![1];
    push_all(&mut out, &[2, 3]);
    assert_eq!(out, vec![1, 2, 3]);
}

#[test]
fn texts_compare() {
    assert!(same_text("\u{e9}", "\u{e9}"));
    assert!(!same_text("e", "E"));
}

#[test]
fn ports_are_written_in_decimal() {
    for n in [0u16, 9, 10, 4343, 65535] {
        assert_eq!(decimal_text(n), n.to_string());
    }
    let mut out = ":".to_string();
    push_decimal(&mut out, 80);
    assert_eq!(out, ":80");
}

#[test]
fn white_space_is_trimmed_at_both_ends() {
    for s in ["", " ", "\t \r\n", "a", " a b\n", "\u{3000}\u{e9} \u{e9}\u{a0}", "\u{200b}n", "\u{feff}n\u{85}"] {
        assert_eq!(trim(s), s.trim());
    }
    for n in 0..=0x10ffffu32 {
        if let Some(c) = char::from_u32(n) {
            if n < 0x3100 || n % 251 == 0 {
                let s = format!("{}x{}", c, c);
                assert_eq!(trim(&s), s.trim());
            }
        }
    }
}

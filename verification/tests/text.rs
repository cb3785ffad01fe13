use messenger::text::{
    chars_of, cut, decimal, hex_of, hex_short, pad, port_of, same_text, split_text, text_of,
    trimmed, white,
};

#[test]
fn white_space_is_what_unicode_says() {
    for n in 0..=0x10FFFFu32 {
        if let Some(c) = char::from_u32(n) {
            assert_eq!(white(c), c.is_whitespace(), "{n:x}");
        }
    }
}

#[test]
fn trimming_removes_white_space_around() {
    for s in ["", " ", "a", " a b ", "\u{3000}x\u{85}\n", "é "] {
        assert_eq!(trimmed(s), s.trim());
    }
}

#[test]
fn splitting_keeps_empty_parts() {
    for s in ["", ",", "a", "a,b", ",a,,b,", "é,ü"] {
        let expected: Vec<String> = s.split(',').map(|p| p.to_string()).collect();
        assert_eq!(split_text(s, ','), expected);
    }
    assert_eq!(cut("a b c", ' '), ("a".to_string(), "b c".to_string()));
    assert_eq!(cut("abc", ' '), ("abc".to_string(), String::new()));
    assert_eq!(cut(" x", ' '), (String::new(), "x".to_string()));
}

#[test]
fn numbers_are_written_and_read_in_decimal() {
    for n in [0u64, 9, 10, 99, 100, 12345, u64::MAX] {
        assert_eq!(decimal(n), n.to_string());
    }
    for s in ["9000", "0", "65535", "+80", "00012", "65536", "", "+", "-1", "1 ", "9é", "99999999999999"] {
        assert_eq!(port_of(s), s.parse::<u16>().ok(), "{s}");
    }
}

#[test]
fn bytes_are_written_in_lowercase_hexadecimal() {
    let all: Vec<u8> = (0..=255).collect();
    assert_eq!(hex_of(&all), hex::encode(&all));
    let mut id = [0u8; 32];
    id[..5].copy_from_slice(&[0xDE, 0xAD, 0xBE, 0xEF, 0x11]);
    assert_eq!(hex_short(&id), "deadbeef");
}

#[test]
fn characters_and_widths() {
    let chars = chars_of("aé→b");
    assert_eq!(chars, vec!['a', 'é', '→', 'b']);
    assert_eq!(text_of(&chars, 1, 3), "é→");
    assert!(same_text("é", "é"));
    assert!(!same_text("é", "e"));
    assert_eq!(pad("ab…", 5), format!("{:<5}", "ab…"));
    assert_eq!(pad("abcdef", 5), "abcdef");
}

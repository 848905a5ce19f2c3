use kaku_tools::path::FilePath;
use kaku_tools::text::{
    chars_of, contains, decimal_text, is_blank, is_white_space, join, lines, parse_small_number,
    same_text, starts_with, take_chars, text_of, trim, trim_end, trim_start,
};

const SAMPLES: [&str; 16] = [
    "",
    " ",
    "\n",
    "\r",
    "\r\n",
    "a",
    "a\n",
    "a\r\nb",
    "a\rb\n\nc\r",
    "\n\n",
    "x\r\r\ny",
    "  padded\t\n",
    "\u{a0}\u{3000}wide\u{2028}",
    "no trailing",
    "ünï cödé \u{1F600}\n",
    "-- --\n--",
];

#[test]
fn white_space_is_what_unicode_says() {
    for n in 0..=0x10ffff_u32 {
        if let Some(c) = char::from_u32(n) {
            assert_eq!(is_white_space(c), c.is_whitespace(), "{:x}", n);
        }
    }
}

#[test]
fn trimming_agrees_with_the_standard_library() {
    for s in SAMPLES {
        assert_eq!(trim(s), s.trim());
        assert_eq!(trim_end(s), s.trim_end());
        assert_eq!(trim_start(s), s.trim_start());
        assert_eq!(is_blank(s), s.trim().is_empty());
    }
}

#[test]
fn lines_agree_with_the_standard_library() {
    for s in SAMPLES {
        let expected: Vec<&str> = s.lines().collect();
        assert_eq!(lines(s), expected, "{:?}", s);
    }
}

#[test]
fn searching_agrees_with_the_standard_library() {
    for s in SAMPLES {
        for part in ["", "a", "\n", "--", "dé", "padded\t\n", "longer than anything here"] {
            assert_eq!(contains(s, part), s.contains(part), "{:?} {:?}", s, part);
            assert_eq!(starts_with(s, part), s.starts_with(part), "{:?} {:?}", s, part);
            assert_eq!(same_text(s, part), s == part);
        }
    }
}

#[test]
fn characters_are_taken_from_the_front() {
    assert_eq!(take_chars("häß", 2), "hä");
    assert_eq!(take_chars("häß", 3), "häß");
    assert_eq!(take_chars("häß", 9), "häß");
    assert_eq!(take_chars("häß", 0), "");
    assert_eq!(chars_of("häß"), vec!['h', 'ä', 'ß']);
    assert_eq!(text_of(&chars_of("häßlich"), 1, 3), "äß");
}

#[test]
fn parts_are_joined() {
    let parts = vec!["a".to_string(), "".to_string(), "c".to_string()];
    assert_eq!(join(&parts, "|"), "a||c");
    assert_eq!(join(&vec![], "|"), "");
    assert_eq!(join(&vec!["a".to_string()], "|"), "a");
}

#[test]
fn numbers_are_written_in_decimal() {
    for n in [0u128, 7, 9, 10, 42, 100, 30, 12345678901234567890, u128::MAX] {
        assert_eq!(decimal_text(n), n.to_string());
    }
}

#[test]
fn numbers_are_read_as_the_standard_library_does() {
    for s in [
        "", "0", "7", "007", "+7", "++7", "+", "-1", "-0", " 7", "7 ", "7d", "4294967295",
        "4294967296", "99999999999999999999999999", "0000000000000000000000001", "٣",
    ] {
        assert_eq!(parse_small_number(s), s.parse::<u32>().ok(), "{:?}", s);
    }
}

#[test]
fn bytes_are_read_as_text_with_replacements() {
    for bytes in [
        vec![],
        b"plain".to_vec(),
        vec![0xff],
        vec![b'a', 0xc3, 0xa9, 0xc3],
        vec![0xf0, 0x9f, 0x98, b'x'],
    ] {
        let expected = String::from_utf8_lossy(&bytes).into_owned();
        assert_eq!(FilePath { bytes }.display(), expected);
    }
}

use demonator::text::{
    chars_of, decimal_text, has_text, is_blank, is_white, join, lines, parse_number, replace,
    same_text, signed_text, string_of, trim,
};

const SAMPLES: [&str; 12] = [
    "",
    " ",
    "a",
    " a ",
    "\t a b \n",
    "\u{a0}x\u{3000}",
    "line\n",
    "one\r\ntwo\nthree",
    "\n\n",
    "a\r",
    "a\r\n",
    "ümläut ─ ▸",
];

#[test]
fn white_space_is_that_of_std() {
    for code in 0..=0x10FFFFu32 {
        if let Some(ch) = char::from_u32(code) {
            assert_eq!(is_white(ch), ch.is_whitespace(), "{:x}", code);
        }
    }
}

#[test]
fn trim_is_that_of_std() {
    for text in SAMPLES {
        assert_eq!(trim(text), text.trim());
        assert_eq!(is_blank(text), text.trim().is_empty());
    }
    assert_eq!(trim("  padded  "), "padded");
}

#[test]
fn lines_are_those_of_std() {
    for text in SAMPLES {
        let expected: Vec<&str> = text.lines().collect();
        assert_eq!(lines(text), expected);
    }
    assert_eq!(lines("a\nb\r\n\nc\r"), vec!["a", "b", "", "c\r"]);
}

#[test]
fn replace_is_that_of_std() {
    for (text, from, to) in [
        ("aaa", "aa", "b"),
        ("abcabc", "c", ""),
        ("{x}{x}", "{x}", "{x}{x}"),
        ("", "a", "b"),
        ("näh", "ä", "ae"),
        ("abab", "abab", "x"),
    ] {
        assert_eq!(replace(text, from, to), text.replace(from, to));
    }
    assert_eq!(replace("aaa", "aa", "b"), "ba");
}

#[test]
fn search_is_that_of_std() {
    for (text, pattern) in [
        ("hello", "ell"),
        ("hello", "hello!"),
        ("hello", ""),
        ("", ""),
        ("", "a"),
        ("aab", "ab"),
    ] {
        assert_eq!(has_text(text, pattern), text.contains(pattern));
    }
}

#[test]
fn numbers_are_read_as_std_reads_them() {
    for text in [
        "", "+", "-", "-1", "0", "00", "7", "+7", "++7", "12a", " 1", "18446744073709551615",
        "18446744073709551616", "99999999999999999999999", "٣",
    ] {
        assert_eq!(parse_number(&chars_of(text)), text.parse::<usize>().ok(), "{}", text);
    }
    assert_eq!(parse_number(&chars_of("42")), Some(42));
}

#[test]
fn numbers_are_written_as_std_writes_them() {
    for n in [0, 9, 10, 99, 100, 1500, u64::MAX] {
        assert_eq!(decimal_text(n), n.to_string());
    }
    for n in [0, 1, -1, 127, -128, i32::MAX, i32::MIN] {
        assert_eq!(signed_text(n), n.to_string());
    }
}

#[test]
fn a_written_number_reads_back() {
    for n in [0u64, 8, 10, 4096, 1234567890] {
        assert_eq!(parse_number(&chars_of(&decimal_text(n))), Some(n as usize));
    }
}

#[test]
fn pieces_of_text() {
    let chars = chars_of("añb");
    assert_eq!(chars, vec!['a', 'ñ', 'b']);
    assert_eq!(string_of(&chars, 1, 3), "ñb");
    assert_eq!(join("ab", "cd"), "abcd");
    assert!(same_text("é", "é"));
    assert!(!same_text("e", "é"));
}

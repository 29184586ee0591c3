use std::path::Path;
use ten_rust::log::json::{hex_digit, push_escaped, push_escaped_char, push_quoted};
use ten_rust::log::text::{
    chars_of, control, digit, file_name_of, push_all, push_decimal, push_plain, push_signed,
    push_str, push_three_digits, same_chars, string_of,
};

fn chars(text: &str) -> Vec<char> {
    text.chars().collect()
}

fn text(chars: &[char]) -> String {
    chars.iter().collect()
}

fn base(path: &str) -> String {
    text(&file_name_of(&chars(path)))
}

#[test]
fn text_and_characters_convert_both_ways() {
    for sample in ["", "a", "héllo wörld", "日本語", "tab\tnew\nline", "\u{0}\u{10ffff}"] {
        assert_eq!(chars_of(sample), chars(sample));
        assert_eq!(string_of(&chars(sample)), sample);
    }
}

#[test]
fn same_chars_compares_contents() {
    assert!(same_chars(&chars(""), &chars("")));
    assert!(same_chars(&chars("auth"), &chars("auth")));
    assert!(!same_chars(&chars("auth"), &chars("autH")));
    assert!(!same_chars(&chars("auth"), &chars("aut")));
    assert!(!same_chars(&chars("aut"), &chars("auth")));
}

#[test]
fn appending_keeps_what_was_there() {
    let mut out = chars("ab");
    push_all(&mut out, &chars("cd"));
    push_str(&mut out, "éf");
    push_all(&mut out, &Vec::new());
    assert_eq!(text(&out), "abcdéf");
}

#[test]
fn decimal_numerals() {
    let cases: [(u64, &str); 7] = [
        (0, "0"),
        (7, "7"),
        (10, "10"),
        (909, "909"),
        (1_000_000, "1000000"),
        (4_294_967_295, "4294967295"),
        (u64::MAX, "18446744073709551615"),
    ];
    for (n, expected) in cases {
        let mut out = chars("n=");
        push_decimal(&mut out, n);
        assert_eq!(text(&out), format!("n={}", expected));
    }
    for d in 0u8..10 {
        assert_eq!(digit(d), char::from(b'0' + d));
    }
}

#[test]
fn signed_numerals() {
    let cases: [(i64, &str); 6] = [
        (0, "0"),
        (-1, "-1"),
        (15, "15"),
        (-120, "-120"),
        (i64::MAX, "9223372036854775807"),
        (i64::MIN, "-9223372036854775808"),
    ];
    for (n, expected) in cases {
        let mut out = Vec::new();
        push_signed(&mut out, n);
        assert_eq!(text(&out), expected);
    }
}

#[test]
fn three_digits_keep_their_zeros() {
    for (n, expected) in [(0, "000"), (7, "007"), (45, "045"), (120, "120"), (999, "999")] {
        let mut out = Vec::new();
        push_three_digits(&mut out, n);
        assert_eq!(text(&out), expected);
    }
}

#[test]
fn control_characters() {
    for code in 0u32..0x20 {
        assert!(control(char::from_u32(code).unwrap()));
    }
    assert!(control('\u{7f}'));
    for c in [' ', '~', 'a', '\u{80}', 'é', '日'] {
        assert!(!control(c));
    }
    let mut out = chars(">");
    push_plain(&mut out, &chars("a\nb\tc\u{7f}d é"));
    assert_eq!(text(&out), ">a b c d é");
}

#[test]
fn file_name_is_the_last_component() {
    assert_eq!(base("test.rs"), "test.rs");
    assert_eq!(base("/usr/src/app/main.rs"), "main.rs");
    assert_eq!(base("src/log/mod.rs"), "mod.rs");
    assert_eq!(base("src/log/"), "log");
    assert_eq!(base("src/log/."), "log");
    assert_eq!(base("src//log///"), "log");
    assert_eq!(base("./main.rs"), "main.rs");
    assert_eq!(base(".hidden"), ".hidden");
    assert_eq!(base("a/..b"), "..b");
    assert_eq!(base("a/b.."), "b..");
}

#[test]
fn file_name_falls_back_to_the_path() {
    for path in ["", "/", "//", ".", "./", "..", "a/..", "/..", "./.", "/./", "../.."] {
        assert_eq!(base(path), path, "{:?}", path);
    }
}

#[test]
fn file_name_agrees_with_the_standard_library() {
    let pieces = ["", "/", ".", "..", "a", "b.rs", "/.", "./", "//", "x/", "..a", "a..", "\\"];
    for first in pieces {
        for second in pieces {
            for third in pieces {
                let path = format!("{}{}{}", first, second, third);
                let expected = Path::new(&path)
                    .file_name()
                    .and_then(|name| name.to_str())
                    .unwrap_or(&path)
                    .to_string();
                assert_eq!(base(&path), expected, "{:?}", path);
            }
        }
    }
}

#[test]
fn escaped_characters() {
    let cases: [(char, &str); 12] = [
        ('"', "\\\""),
        ('\\', "\\\\"),
        ('\n', "\\n"),
        ('\r', "\\r"),
        ('\t', "\\t"),
        ('\u{0}', "\\u0000"),
        ('\u{8}', "\\u0008"),
        ('\u{c}', "\\u000c"),
        ('\u{1f}', "\\u001f"),
        (' ', " "),
        ('\u{7f}', "\u{7f}"),
        ('é', "é"),
    ];
    for (c, expected) in cases {
        let mut out = Vec::new();
        push_escaped_char(&mut out, c);
        assert_eq!(text(&out), expected);
    }
    for d in 0u8..16 {
        assert_eq!(hex_digit(d), char::from_digit(d as u32, 16).unwrap());
    }
}

#[test]
fn quoted_text_reads_back() {
    for sample in ["", "plain", "a\"b\\c", "\u{0}\u{1}\u{1e}\u{1f}", "multi\nline\r\n", "日本\té"] {
        let mut inside = chars("x");
        push_escaped(&mut inside, &chars(sample));
        assert_eq!(inside[0], 'x');
        let mut token = Vec::new();
        push_quoted(&mut token, &chars(sample));
        assert_eq!(text(&token), format!("\"{}\"", text(&inside[1..])));
        let read: String = serde_json::from_str(&text(&token)).unwrap();
        assert_eq!(read, sample);
    }
}

use stirn::text::{
    from_utf8_lossy, is_whitespace, last_split_piece, push_decimal, same_text, split_str,
    split_whitespace, str_contains, trim,
};

#[test]
fn whitespace_agrees_with_std_on_every_char() {
    for code in 0u32..=0x10FFFF {
        if let Some(c) = char::from_u32(code) {
            assert_eq!(is_whitespace(c), c.is_whitespace(), "code point {:x}", code);
        }
    }
}

#[test]
fn trim_agrees_with_std() {
    for s in ["", "  ", " a ", "\t\r\nkey\u{3000}", "a b", "\u{85}x\u{a0}", "x"] {
        assert_eq!(trim(s), s.trim());
    }
}

#[test]
fn split_agrees_with_std() {
    let cases = [
        ("", ": "),
        ("Host: example.com", ": "),
        ("a: b: c", ": "),
        ("no separator", ": "),
        (": ", ": "),
        ("GET / HTTP/1.1\r\nHost: x\r\n\r\n", "\r\n"),
        ("a.b.c", "."),
        ("...", "."),
        ("aaa", "aa"),
    ];
    for (s, sep) in cases {
        let expected: Vec<String> = s.split(sep).map(|p| p.to_string()).collect();
        assert_eq!(split_str(s, sep), expected, "{:?} by {:?}", s, sep);
    }
}

#[test]
fn split_whitespace_agrees_with_std() {
    for s in ["", "   ", "GET / HTTP/1.1", "  a\tb  c ", "one", "\u{2003}x\u{2003}y"] {
        let expected: Vec<String> = s.split_whitespace().map(|p| p.to_string()).collect();
        assert_eq!(split_whitespace(s), expected);
    }
}

#[test]
fn contains_agrees_with_std() {
    for (s, p) in [("gzip, deflate", "gzip"), ("deflate", "gzip"), ("", ""), ("ab", "abc"), ("x", "")] {
        assert_eq!(str_contains(s, p), s.contains(p));
    }
}

#[test]
fn same_text_compares_characters() {
    assert!(same_text("abc", "abc"));
    assert!(!same_text("abc", "abd"));
    assert!(!same_text("ab", "abc"));
}

#[test]
fn last_piece_is_the_extension() {
    assert_eq!(last_split_piece("index.html", "."), "html");
    assert_eq!(last_split_piece("archive.tar.gz", "."), "gz");
    assert_eq!(last_split_piece("README", "."), "README");
    assert_eq!(last_split_piece("dir.", "."), "");
}

#[test]
fn decimal_agrees_with_to_string() {
    for n in [0usize, 7, 10, 99, 100, 1024, 65535, 1234567890, usize::MAX] {
        let mut s = String::from("len=");
        push_decimal(&mut s, n);
        assert_eq!(s, format!("len={}", n));
    }
}

#[test]
fn lossy_decoding_keeps_valid_text() {
    assert_eq!(from_utf8_lossy("héllo".as_bytes()), "héllo");
    assert_eq!(from_utf8_lossy(&[b'a', 0xff, b'b']), "a\u{fffd}b");
}

use hivm::literals::{escape, escaped, parse_digits, unescape};

#[test]
fn the_escapes() {
    assert_eq!(escaped('n'), Some('\n'));
    assert_eq!(escaped('r'), Some('\r'));
    assert_eq!(escaped('0'), Some('\0'));
    assert_eq!(escaped('t'), Some('\t'));
    assert_eq!(escaped('\\'), Some('\\'));
    assert_eq!(escaped('\''), Some('\''));
    assert_eq!(escaped('"'), Some('"'));
    assert_eq!(escaped('x'), None);
    assert_eq!(escaped('N'), None);
}

#[test]
fn decoding() {
    assert_eq!(unescape("plain"), Ok("plain".to_string()));
    assert_eq!(unescape(""), Ok(String::new()));
    assert_eq!(unescape("a\\nb"), Ok("a\nb".to_string()));
    assert_eq!(unescape("\\r\\0\\t\\\\\\'\\\""), Ok("\r\0\t\\'\"".to_string()));
    assert_eq!(unescape("é\\n→"), Ok("é\n→".to_string()));
    // A backslash at the very end stands for nothing.
    assert_eq!(unescape("ab\\"), Ok("ab".to_string()));
    assert_eq!(unescape("\\\\n"), Ok("\\n".to_string()));
}

#[test]
fn an_unknown_escape_is_refused_where_it_stands() {
    assert_eq!(unescape("\\q"), Err(('q', 1)));
    assert_eq!(unescape("ab\\xcd"), Err(('x', 3)));
    assert_eq!(unescape("\\n\\n\\z"), Err(('z', 5)));
    assert_eq!(unescape("é\\é"), Err(('é', 2)));
}

#[test]
fn escaping() {
    assert_eq!(escape("plain"), "plain");
    assert_eq!(escape("a\nb"), "a\\nb");
    assert_eq!(escape("\r\0\t\\'\""), "\\r\\0\\t\\\\\\'\\\"");
    assert_eq!(escape(""), "");
}

#[test]
fn escaping_and_decoding_undo_each_other() {
    for text in ["", "hi", "a\nb", "tab\there", "quote\"s' and \\ slashes", "\0\r\n", "é→"] {
        assert_eq!(unescape(&escape(text)), Ok(text.to_string()));
    }
    for body in ["", "hi", "a\\nb", "\\\\", "\\'\\\"", "x\\0y\\tz\\r"] {
        assert_eq!(escape(&unescape(body).unwrap()), body);
    }
}

#[test]
fn digits() {
    assert_eq!(parse_digits("123", 0, 10, u64::MAX), Some(123));
    assert_eq!(parse_digits("0x1F", 2, 16, u64::MAX), Some(31));
    assert_eq!(parse_digits("ff", 0, 16, u64::MAX), Some(255));
    assert_eq!(parse_digits("FF", 0, 16, u64::MAX), Some(255));
    assert_eq!(parse_digits("-42", 1, 10, u64::MAX), Some(42));
    assert_eq!(parse_digits("007", 0, 10, u64::MAX), Some(7));
    assert_eq!(parse_digits("0", 0, 10, 0), Some(0));
}

#[test]
fn what_is_no_number() {
    assert_eq!(parse_digits("", 0, 10, u64::MAX), None);
    assert_eq!(parse_digits("12", 2, 10, u64::MAX), None);
    assert_eq!(parse_digits("12a", 0, 10, u64::MAX), None);
    assert_eq!(parse_digits("1g", 0, 16, u64::MAX), None);
    assert_eq!(parse_digits("1 2", 0, 10, u64::MAX), None);
    assert_eq!(parse_digits("-1", 0, 10, u64::MAX), None);
    assert_eq!(parse_digits("١", 0, 10, u64::MAX), None);
}

#[test]
fn the_limit() {
    assert_eq!(parse_digits("18446744073709551615", 0, 10, u64::MAX), Some(u64::MAX));
    assert_eq!(parse_digits("18446744073709551616", 0, 10, u64::MAX), None);
    assert_eq!(parse_digits("99999999999999999999999", 0, 10, u64::MAX), None);
    assert_eq!(parse_digits("ffffffffffffffff", 0, 16, u64::MAX), Some(u64::MAX));
    assert_eq!(parse_digits("10000000000000000", 0, 16, u64::MAX), None);
    assert_eq!(parse_digits("255", 0, 10, 255), Some(255));
    assert_eq!(parse_digits("256", 0, 10, 255), None);
    assert_eq!(parse_digits("9", 0, 10, 5), None);
}

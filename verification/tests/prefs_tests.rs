//! Tests for pref values and the `user.js` format.

use fxrecord::prefs::{parse_pref, parse_user_js, write_prefs, PrefError, PrefValue};

#[test]
fn test_write_prefs() {
    let mut buf = String::new();

    write_prefs(
        &mut buf,
        &vec![
            ("foo".to_string(), PrefValue::Str("hello, world".to_string())),
            ("bar".to_string(), PrefValue::Str("\"hello, world\"".to_string())),
            ("baz".to_string(), PrefValue::Bool(true)),
            ("qux".to_string(), PrefValue::Bool(false)),
            ("quux".to_string(), PrefValue::Num("0.0".to_string())),
            ("corge".to_string(), PrefValue::Num("1".to_string())),
            ("grault".to_string(), PrefValue::Num("-1".to_string())),
        ],
    );

    let expected = "pref(\"foo\", \"hello, world\");\npref(\"bar\", \"\\\"hello, world\\\"\");\npref(\"baz\", true);\npref(\"qux\", false);\npref(\"quux\", 0.0);\npref(\"corge\", 1);\npref(\"grault\", -1);\n";
    assert_eq!(buf, expected);
}

#[test]
fn test_write_prefs_appends() {
    // Existing contents are preserved; lines are appended.
    let mut buf = String::from("// existing\n");
    write_prefs(&mut buf, &vec![("a".to_string(), PrefValue::Bool(true))]);
    assert_eq!(buf, "// existing\npref(\"a\", true);\n");
}

#[test]
fn test_write_prefs_escapes_backslash() {
    let mut buf = String::new();
    write_prefs(
        &mut buf,
        &vec![("p".to_string(), PrefValue::Str("a\\b".to_string()))],
    );
    assert_eq!(buf, "pref(\"p\", \"a\\\\b\");\n");
}

#[test]
fn test_parse_pref() {
    match parse_pref("foo:\"bar\"") {
        Ok((key, value)) => {
            assert_eq!(key, "foo");
            assert!(matches!(value, PrefValue::Str(s) if s == "bar"));
        }
        other => panic!("expected a string pref, got {:?}", other),
    }

    match parse_pref("foo:\"\\\"bar\\\"\"") {
        Ok((key, value)) => {
            assert_eq!(key, "foo");
            assert!(matches!(value, PrefValue::Str(s) if s == "\"bar\""));
        }
        other => panic!("expected a string pref, got {:?}", other),
    }

    assert!(matches!(parse_pref("foo"), Err(PrefError::ExpectedColon)));
    assert!(matches!(parse_pref("foo:flse"), Err(PrefError::Json(_))));
}

#[test]
fn test_try_from() {
    assert!(matches!(PrefValue::try_from_text("null"), Err(PrefError::Null)));
    assert!(matches!(PrefValue::try_from_text("[]"), Err(PrefError::Array)));
    assert!(matches!(PrefValue::try_from_text("{}"), Err(PrefError::Object)));

    match PrefValue::try_from_text("\"hello, world\"") {
        Ok(PrefValue::Str(s)) => assert_eq!(s, "hello, world"),
        other => panic!("expected a string, got {:?}", other),
    }

    match PrefValue::try_from_text("0.0") {
        Ok(PrefValue::Num(s)) => assert_eq!(s, "0.0"),
        other => panic!("expected a number, got {:?}", other),
    }

    assert!(matches!(PrefValue::try_from_text("true"), Ok(PrefValue::Bool(true))));
    assert!(matches!(PrefValue::try_from_text("false"), Ok(PrefValue::Bool(false))));
    assert!(matches!(PrefValue::try_from_text("1e3"), Ok(PrefValue::Num(_))));
    assert!(matches!(PrefValue::try_from_text("-1"), Ok(PrefValue::Num(_))));
    assert!(matches!(PrefValue::try_from_text("01"), Err(PrefError::Json(_))));
    assert!(matches!(PrefValue::try_from_text("\"open"), Err(PrefError::Json(_))));
}

#[test]
fn test_prefs_round_trip() {
    // Writing a pref list and parsing the file back yields the same list.
    let prefs = vec![
        ("foo".to_string(), PrefValue::Str("hello, world".to_string())),
        ("bar".to_string(), PrefValue::Str("\"quoted\"".to_string())),
        ("baz".to_string(), PrefValue::Bool(true)),
        ("quux".to_string(), PrefValue::Num("0.5".to_string())),
        ("grault".to_string(), PrefValue::Num("-12e4".to_string())),
    ];
    let mut rendered = String::new();
    write_prefs(&mut rendered, &prefs);
    let parsed = parse_user_js(&rendered).unwrap();
    assert_eq!(parsed.len(), prefs.len());
    for (a, b) in parsed.iter().zip(prefs.iter()) {
        assert_eq!(a.0, b.0);
        match (&a.1, &b.1) {
            (PrefValue::Bool(x), PrefValue::Bool(y)) => assert_eq!(x, y),
            (PrefValue::Num(x), PrefValue::Num(y)) => assert_eq!(x, y),
            (PrefValue::Str(x), PrefValue::Str(y)) => assert_eq!(x, y),
            _ => panic!("parsed value changed shape"),
        }
    }

    // An empty list renders to an empty file and parses back empty.
    let parsed = parse_user_js("").unwrap();
    assert!(parsed.is_empty());

    // A file missing its final newline is malformed.
    assert!(parse_user_js("pref(\"a\", true);").is_err());
}

#[test]
fn test_write_prefs_escapes_controls() {
    // Control characters get standard JSON escapes; other text stands as
    // itself.
    let mut buf = String::new();
    write_prefs(
        &mut buf,
        &vec![("p".to_string(), PrefValue::Str("a\nb\tc\u{1}d\u{8}\u{c}\r".to_string()))],
    );
    assert_eq!(buf, "pref(\"p\", \"a\\nb\\tc\\u0001d\\b\\f\\r\");\n");
}

#[test]
fn test_control_chars_round_trip() {
    // A string value holding control characters survives the write/parse
    // round trip.
    let prefs = vec![
        ("p".to_string(), PrefValue::Str("line1\nline2\ttabbed\u{1}\u{1f}".to_string())),
        ("q".to_string(), PrefValue::Str("back\\slash \"quote\"".to_string())),
    ];
    let mut rendered = String::new();
    write_prefs(&mut rendered, &prefs);
    let parsed = parse_user_js(&rendered).unwrap();
    assert_eq!(parsed.len(), 2);
    assert!(matches!(&parsed[0].1, PrefValue::Str(s) if s == "line1\nline2\ttabbed\u{1}\u{1f}"));
    assert!(matches!(&parsed[1].1, PrefValue::Str(s) if s == "back\\slash \"quote\""));
}

#[test]
fn test_parse_unicode_escape() {
    // The parser accepts the full JSON escape set, including solidus and
    // arbitrary non-surrogate code points.
    match PrefValue::try_from_text("\"a\\u0041\\/b\"") {
        Ok(PrefValue::Str(s)) => assert_eq!(s, "aA/b"),
        other => panic!("expected a string, got {:?}", other),
    }
    // A surrogate code point and a short escape are malformed.
    assert!(matches!(PrefValue::try_from_text("\"\\ud800\""), Err(PrefError::Json(_))));
    assert!(matches!(PrefValue::try_from_text("\"\\u00\""), Err(PrefError::Json(_))));
    assert!(matches!(PrefValue::try_from_text("\"\\x\""), Err(PrefError::Json(_))));
}

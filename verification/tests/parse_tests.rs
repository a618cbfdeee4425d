use mole::parse::{
    parse_error_message, parse_key, parse_value_boolean, parse_value_list, parse_value_string,
    parse_value_time, ParseError,
};

#[test]
fn parse_key_test() {
    let line = "hello: world";
    let (key, rest) = parse_key(line, "test.txt", line, 1).unwrap();
    assert_eq!(key, "hello");
    assert_eq!(rest, " world");
}

#[test]
fn parse_key_no_semicolon() {
    let line = "hello  world";
    let err = parse_key(line, "test.txt", line, 1).err();
    match err {
        Some(ParseError::InvalidKey(config)) => assert!(
            config.contains("no semicolon found"),
            "expected 'no semicolon found' in {}",
            config
        ),
        _ => assert!(false, "expected error"),
    }
}

#[test]
fn parse_key_empty() {
    let err = parse_key("", "test.txt", "", 1).err();
    match err {
        Some(ParseError::EmptyValue(config)) => assert!(
            config.contains("expected name of key"),
            "expected 'expected name of key' in {}",
            config
        ),
        _ => assert!(false, "expected error"),
    }
}

#[test]
fn parse_value_list_multi_spaced() {
    let line = "a, b, c, d";
    let list = parse_value_list(line, "test.txt", line, 1).unwrap();
    assert_eq!(vec!["a", "b", "c", "d"], list);
}

#[test]
fn parse_value_list_single() {
    let line = "a";
    let list = parse_value_list(line, "test.txt", line, 1).unwrap();
    assert_eq!(vec!["a"], list);
}

#[test]
fn parse_value_list_double_no_spaced() {
    let line = "a, b";
    let list = parse_value_list(line, "test.txt", line, 1).unwrap();
    assert_eq!(vec!["a", "b"], list);
}

#[test]
fn parse_value_list_square_brackets() {
    let line = "[a, b]";
    let list = parse_value_list(line, "test.txt", line, 1).unwrap();
    assert_eq!(vec!["a", "b"], list);
}

#[test]
fn parse_value_list_sauare_brackets_err() {
    let line = "[a, b";
    let err = parse_value_list(line, "test.txt", line, 1).err();
    match err {
        Some(ParseError::InvalidValue(config)) => assert!(
            config.contains("found opening square bracket for list but no opening bracket"),
            "found opening square bracket for list but no opening bracket' in {}",
            config
        ),
        _ => assert!(false, "expected error"),
    }
}

#[test]
fn parse_value_list_single_quote() {
    let line = "',a', 'b'";
    let list = parse_value_list(line, "test.txt", line, 1).unwrap();
    assert_eq!(vec![",a", "b"], list);
}

#[test]
fn parse_value_list_double_quote() {
    let line = "\",a\", \"b\"";
    let list = parse_value_list(line, "test.txt", line, 1).unwrap();
    assert_eq!(vec![",a", "b"], list);
}

#[test]
fn parse_value_list_err() {
    let line = "a, b,";
    let err = parse_value_list(line, "test.txt", line, 1).err();
    match err {
        Some(ParseError::InvalidValue(config)) => assert!(
            config.contains("value expected after semi-colon"),
            "expected 'value expected after semi-colon' in {}",
            config
        ),
        _ => assert!(false, "expected error"),
    }
}

#[test]
fn parse_value_list_unclosed_double_quote() {
    let line = "\"a, b";
    let err = parse_value_list(line, "test.txt", line, 1).err();
    match err {
        Some(ParseError::InvalidValue(config)) => assert!(
            config.contains("found a string but no closing \""),
            "expected unclosed-quote report in {}",
            config
        ),
        _ => assert!(false, "expected error"),
    }
}

#[test]
fn parse_value_list_empty() {
    let err = parse_value_list("   ", "test.txt", "   ", 1).err();
    assert!(matches!(err, Some(ParseError::EmptyValue(_))));
}

#[test]
fn parse_value_string_bare() {
    assert_eq!("page", parse_value_string(" page ", "test.txt", "layout: page", 2).unwrap());
}

#[test]
fn parse_value_string_double_quoted() {
    assert_eq!("a b", parse_value_string("\"a b\"", "test.txt", "t: \"a b\"", 2).unwrap());
}

#[test]
fn parse_value_string_single_quoted() {
    assert_eq!("a b", parse_value_string("'a b'", "test.txt", "t: 'a b'", 2).unwrap());
}

#[test]
fn parse_value_string_unclosed_quote() {
    let err = parse_value_string("\"a b", "test.txt", "t: \"a b", 2).err();
    match err {
        Some(ParseError::InvalidValue(config)) => assert!(
            config.contains("did not close string at the end"),
            "expected unclosed-string report in {}",
            config
        ),
        _ => assert!(false, "expected error"),
    }
}

#[test]
fn parse_value_string_dashes_forbidden() {
    let err = parse_value_string("---", "test.txt", "t: ---", 2).err();
    match err {
        Some(ParseError::InvalidValue(config)) => assert!(
            config.contains("can't use configuration start and end identifier"),
            "expected delimiter-value report in {}",
            config
        ),
        _ => assert!(false, "expected error"),
    }
}

#[test]
fn parse_value_string_empty() {
    let err = parse_value_string("  ", "test.txt", "t:  ", 2).err();
    assert!(matches!(err, Some(ParseError::EmptyValue(_))));
}

#[test]
fn parse_value_boolean_words() {
    assert_eq!(true, parse_value_boolean("true", "test.txt", "titlebar: true", 2).unwrap());
    assert_eq!(false, parse_value_boolean("false", "test.txt", "titlebar: false", 2).unwrap());
}

#[test]
fn parse_value_boolean_rejects_other_words() {
    let err = parse_value_boolean("yes", "test.txt", "titlebar: yes", 2).err();
    assert!(matches!(err, Some(ParseError::InvalidValue(_))));
}

#[test]
fn parse_value_time_date_only() {
    let t = parse_value_time("2020-01-01", "test.txt", "date: 2020-01-01", 2).unwrap();
    assert_eq!("2020-01-01 00:00:00", t);
}

#[test]
fn parse_value_time_date_and_minutes() {
    let t = parse_value_time("2020-01-02 10:30", "test.txt", "date: 2020-01-02 10:30", 2).unwrap();
    assert_eq!("2020-01-02 10:30:00", t);
}

#[test]
fn parse_value_time_rejects_other_shapes() {
    let err = parse_value_time("yesterday", "test.txt", "date: yesterday", 2).err();
    match err {
        Some(ParseError::InvalidValue(config)) => assert!(
            config.contains("expected Y-m-d or Y-m-d h:m"),
            "expected date-format report in {}",
            config
        ),
        _ => assert!(false, "expected error"),
    }
}

#[test]
fn parse_value_time_rejects_bad_calendar_date() {
    let err = parse_value_time("2020-13-01", "test.txt", "date: 2020-13-01", 2).err();
    assert!(matches!(err, Some(ParseError::InvalidValue(_))));
}

#[test]
fn parse_error_message_exact_layout() {
    let msg = parse_error_message("boom", "a.md", "x: y", 0, 4, 1);
    assert_eq!("\n   --> a.md 1:0\n   |\n 1 | x: y\n   | ^^^^\n   |\n  boom", msg);
}

#[test]
fn parse_error_message_underline_offset() {
    let msg = parse_error_message("m", "a.md", "abcdef", 2, 4, 3);
    assert_eq!("\n   --> a.md 3:2\n   |\n 3 | abcdef\n   |   ^^\n   |\n  m", msg);
}

#[test]
fn parse_error_message_underline_may_pass_line_end() {
    let msg = parse_error_message("m", "a.md", "ab", 2, 7, 1);
    assert_eq!("\n   --> a.md 1:2\n   |\n 1 | ab\n   |   ^^^^^\n   |\n  m", msg);
}

#[test]
fn parse_error_describe_prefixes() {
    assert_eq!("Invalid key: k\n", ParseError::InvalidKey("k".to_string()).describe());
    assert_eq!("Empty value\ne\n", ParseError::EmptyValue("e".to_string()).describe());
    assert_eq!("Invalid value: v\n", ParseError::InvalidValue("v".to_string()).describe());
    assert_eq!(
        "Invalid configuration: c\n",
        ParseError::InvalidConfig("c".to_string()).describe()
    );
}

#[test]
fn parse_error_message_wider_gutter() {
    let msg = parse_error_message("m", "p", "l", 0, 1, 100);
    assert_eq!("\n    --> p 100:0\n    |\n100 | l\n    | ^\n    |\n   m", msg);
}

#[test]
fn parse_error_message_two_digit_gutter_at_99() {
    let msg = parse_error_message("m", "p", "l", 0, 1, 99);
    assert_eq!("\n   --> p 99:0\n   |\n99 | l\n   | ^\n   |\n  m", msg);
}

#[test]
fn parse_error_message_three_digit_gutter_at_127() {
    let msg = parse_error_message("m", "p", "l", 0, 1, 127);
    assert_eq!("\n    --> p 127:0\n    |\n127 | l\n    | ^\n    |\n   m", msg);
}

#[test]
fn parse_value_string_trims_unicode_whitespace() {
    assert_eq!(
        "page",
        parse_value_string("\u{A0}page\u{2003}", "t.txt", "layout: page", 2).unwrap()
    );
}

use dockerust::text::{chars_contain, chars_of, clone_strings, matches_at, parse_u16, str_contains, str_eq};

#[test]
fn chars_of_keeps_every_character() {
    assert_eq!(chars_of("a\u{e9}z"), vec!['a', '\u{e9}', 'z']);
    assert_eq!(chars_of(""), Vec::<char>::new());
}

#[test]
fn str_contains_agrees_with_std() {
    let cases = [
        ("", ""),
        ("abc", ""),
        ("", "a"),
        ("abc", "abc"),
        ("abc", "abcd"),
        ("xxabcxx", "abc"),
        ("aab", "ab"),
        ("ababac", "abac"),
        ("caf\u{e9} ready", "\u{e9} r"),
        ("Ready", "ready"),
    ];
    for (line, marker) in cases {
        assert_eq!(str_contains(line, marker), line.contains(marker));
    }
}

#[test]
fn matches_at_checks_one_position() {
    let line = chars_of("hello");
    let marker = chars_of("ll");
    assert!(matches_at(&line, &marker, 2));
    assert!(!matches_at(&line, &marker, 1));
    assert!(!matches_at(&line, &marker, 4));
    assert!(!matches_at(&line, &marker, usize::MAX));
    assert!(matches_at(&line, &Vec::new(), 5));
    assert!(!matches_at(&line, &Vec::new(), 6));
    assert!(chars_contain(&line, &marker));
}

#[test]
fn parse_u16_agrees_with_std() {
    let cases = [
        "0", "80", "080", "+80", "65535", "65536", "99999999999999999999", "", "+", "-1", "8 0",
        " 80", "80 ", "8_0", "tcp", "+-1", "++1", "0x10", "\u{663}",
    ];
    for text in cases {
        let expected: Option<u16> = text.parse::<u16>().ok();
        assert_eq!(parse_u16(&chars_of(text)), expected);
    }
}

#[test]
fn parse_u16_exact_values() {
    assert_eq!(parse_u16(&chars_of("5432")), Some(5432));
    assert_eq!(parse_u16(&chars_of("65535")), Some(65535));
    assert_eq!(parse_u16(&chars_of("65536")), None);
}

#[test]
fn str_eq_compares_texts() {
    assert!(str_eq("true", "true"));
    assert!(!str_eq("true", "True"));
    assert!(!str_eq("true", "tru"));
    assert!(str_eq("", ""));
}

#[test]
fn clone_strings_copies_all() {
    let texts = vec!["a".to_string(), "bc".to_string()];
    assert_eq!(clone_strings(&texts), texts);
}

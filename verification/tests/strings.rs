use container_segment::text::{
    after_last_in, chars_of, find_after_prefix, same_text, slice_string, starts_with_in,
    trim_range, CharClass,
};

fn chars(s: &str) -> Vec<char> {
    s.chars().collect()
}

fn range(s: &str, r: (usize, usize)) -> String {
    s.chars().skip(r.0).take(r.1 - r.0).collect()
}

#[test]
fn chars_and_slices() {
    assert_eq!(chars_of("a⬢c"), vec!['a', '⬢', 'c']);
    assert_eq!(chars_of(""), Vec::<char>::new());
    assert_eq!(slice_string("a⬢cd", 1, 3), "⬢c");
    assert_eq!(slice_string("a⬢cd", 2, 2), "");
    assert_eq!(slice_string("a⬢cd", 0, 4), "a⬢cd");
    assert!(same_text("wsl", "wsl"));
    assert!(!same_text("wsl", "wsl "));
    assert!(same_text("", ""));
}

#[test]
fn white_space_is_the_unicode_property() {
    let white = [
        '\t', '\n', '\u{b}', '\u{c}', '\r', ' ', '\u{85}', '\u{a0}', '\u{1680}', '\u{2000}',
        '\u{2005}', '\u{200a}', '\u{2028}', '\u{2029}', '\u{202f}', '\u{205f}', '\u{3000}',
    ];
    for c in white {
        assert!(CharClass::Whitespace.contains(c), "{:?}", c);
    }
    for c in ['a', '0', '\u{8}', '\u{e}', '\u{1f}', '\u{200b}', '\u{180e}', '\u{feff}', '"'] {
        assert!(!CharClass::Whitespace.contains(c), "{:?}", c);
    }
    // the same answer as std gives, for every character
    let mut code: u32 = 0;
    while code <= 0x10ffff {
        if let Some(c) = char::from_u32(code) {
            assert_eq!(CharClass::Whitespace.contains(c), c.is_whitespace(), "{:x}", code);
        }
        code += 1;
    }
    assert!(CharClass::Exactly('"').contains('"'));
    assert!(!CharClass::Exactly('"').contains('\''));
}

#[test]
fn trimming() {
    let cases = [
        ("  docker \n", "docker"),
        ("docker", "docker"),
        ("", ""),
        (" \t ", ""),
        ("a b", "a b"),
        ("\u{3000}x\u{a0}", "x"),
    ];
    for (input, expected) in cases {
        let v = chars(input);
        let r = trim_range(&v, 0, v.len(), CharClass::Whitespace);
        assert_eq!(range(input, r), expected);
        assert_eq!(expected, input.trim());
    }
    let quoted = "x\"\"a\"b\"y";
    let v = chars(quoted);
    assert_eq!(range(quoted, trim_range(&v, 1, 7, CharClass::Exactly('"'))), "a\"b");
    assert_eq!(trim_range(&v, 1, 3, CharClass::Exactly('"')), (3, 3));
    assert_eq!(trim_range(&v, 0, 8, CharClass::Exactly('"')), (0, 8));
}

#[test]
fn after_the_last_slash() {
    let cases = [
        ("registry.example.org/fedora-toolbox:35", "fedora-toolbox:35"),
        ("a/b/c", "c"),
        ("abc", "abc"),
        ("abc/", ""),
        ("/", ""),
        ("", ""),
        ("/abc", "abc"),
    ];
    for (input, expected) in cases {
        let v = chars(input);
        let k = after_last_in(&v, 0, v.len(), '/');
        assert_eq!(range(input, (k, v.len())), expected);
    }
    let v = chars("a/b/c");
    assert_eq!(after_last_in(&v, 0, 3, '/'), 2);
    assert_eq!(after_last_in(&v, 2, 3, '/'), 2);
}

#[test]
fn prefixes() {
    let v = chars("name=x");
    assert!(starts_with_in(&v, 0, 6, &chars("name=")));
    assert!(starts_with_in(&v, 0, 5, &chars("name=")));
    assert!(!starts_with_in(&v, 0, 4, &chars("name=")));
    assert!(!starts_with_in(&v, 1, 6, &chars("name=")));
    assert!(starts_with_in(&v, 1, 6, &chars("ame")));
    assert!(starts_with_in(&v, 3, 3, &chars("")));
    assert!(!starts_with_in(&v, 0, 6, &chars("image=")));
}

#[test]
fn first_line_with_a_prefix() {
    let find = |text: &str, prefix: &str| {
        find_after_prefix(&chars(text), &chars(prefix)).map(|r| range(text, r))
    };
    assert_eq!(find("a=1\nb=2\nb=3\n", "b="), Some("2".to_string()));
    assert_eq!(find("a=1\nb=2", "b="), Some("2".to_string()));
    assert_eq!(find("a=1\r\nb=2\r\n", "a="), Some("1".to_string()));
    assert_eq!(find("a=1\r", "a="), Some("1\r".to_string()));
    assert_eq!(find("a=1\r\r\n", "a="), Some("1\r".to_string()));
    assert_eq!(find("xa=1\n", "a="), None);
    assert_eq!(find("", "a="), None);
    assert_eq!(find("\n\n", "a="), None);
    assert_eq!(find("\n\n", ""), Some("".to_string()));
    assert_eq!(find("", ""), None);
    assert_eq!(find("a=", "a="), Some("".to_string()));
    // as std splits lines
    for text in ["a=1\nb=2\n", "a=1\r\nb=2", "\r\n\n\rb=2\r", "b=", "", "\n"] {
        let expected =
            text.lines().find_map(|line| line.strip_prefix("b=")).map(|s| s.to_string());
        assert_eq!(find(text, "b="), expected, "{:?}", text);
    }
}

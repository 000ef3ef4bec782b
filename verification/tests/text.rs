use bcvk_toolbox::text;

/// All texts of up to `len` characters from `alphabet`.
fn texts(alphabet: &[char], len: usize) -> Vec<String> {
    let mut all = vec![String::new()];
    let mut last = vec![String::new()];
    for _ in 0..len {
        let mut next = Vec::new();
        for s in &last {
            for c in alphabet {
                let mut t = s.clone();
                t.push(*c);
                next.push(t);
            }
        }
        all.extend(next.iter().cloned());
        last = next;
    }
    all
}

#[test]
fn white_space_is_that_of_char() {
    for c in '\0'..=char::MAX {
        assert_eq!(text::is_white_space(c), c.is_whitespace(), "{c:?}");
    }
}

#[test]
fn lines_are_those_of_str() {
    assert_eq!(text::lines("foo\nbar\n\r\nbaz\r"), ["foo", "bar", "", "baz\r"]);
    for s in texts(&['\n', '\r', 'a', '\u{e9}'], 6) {
        let expected: Vec<&str> = s.lines().collect();
        assert_eq!(text::lines(&s), expected, "{s:?}");
    }
}

#[test]
fn splitting_is_that_of_str() {
    assert_eq!(text::split_once("k=v=w", '='), Some(("k", "v=w")));
    for s in texts(&['=', 'a', '\u{20ac}'], 6) {
        assert_eq!(text::split_once(&s, '='), s.split_once('='), "{s:?}");
    }
}

#[test]
fn trimming_is_that_of_str() {
    assert_eq!(text::trim(" \t x y\u{3000}\n"), "x y");
    assert_eq!(text::trim_matches("\"\"a\"b\"", '"'), "a\"b");
    for s in texts(&['"', ' ', '\u{2003}', 'a'], 6) {
        assert_eq!(text::trim(&s), s.trim(), "{s:?}");
        assert_eq!(text::trim_matches(&s, '"'), s.trim_matches('"'), "{s:?}");
    }
}

#[test]
fn searching_is_that_of_str() {
    assert!(text::contains("fedora-toolbox-43", "toolbox"));
    assert!(!text::contains("toolbx", "toolbox"));
    let parts = texts(&['a', 'b'], 3);
    for s in texts(&['a', 'b'], 7) {
        for part in &parts {
            assert_eq!(text::contains(&s, part), s.contains(part.as_str()), "{s:?} {part:?}");
            assert_eq!(text::same(&s, part), s == *part, "{s:?} {part:?}");
        }
    }
}

#[test]
fn characters_in_order() {
    assert_eq!(text::chars_of("a\u{e9}\n"), ['a', '\u{e9}', '\n']);
    assert_eq!(text::chars_of(""), []);
}

use ccorral::text::{
    chars_of, lines, owned, same, split, split_at_most, starts_with, text_of, trim,
};

#[test]
fn trim_takes_white_space_off_both_ends() {
    assert_eq!(trim("  a b \n"), "a b");
    assert_eq!(trim("\t\r\n"), "");
    assert_eq!(trim(""), "");
    assert_eq!(trim("x"), "x");
    assert_eq!(trim("\u{3000}\u{a0}é\u{2028}"), "é");
    assert_eq!(trim("\u{200b}x\u{feff}"), "\u{200b}x\u{feff}");
}

#[test]
fn white_space_is_the_unicode_property() {
    let mut found: Vec<u32> = Vec::new();
    for n in 0..=0x10ffffu32 {
        if let Some(c) = char::from_u32(n) {
            let mut buf = [0u8; 4];
            if trim(c.encode_utf8(&mut buf)).is_empty() {
                found.push(n);
            }
        }
    }
    let mut expected: Vec<u32> = vec![9, 10, 11, 12, 13, 0x20, 0x85, 0xa0, 0x1680];
    expected.extend(0x2000..=0x200au32);
    expected.extend([0x2028, 0x2029, 0x202f, 0x205f, 0x3000]);
    assert_eq!(found, expected);
}

#[test]
fn trimming_twice_is_trimming_once() {
    for s in ["", " ", " a ", "a\n", "\u{85}a b\u{85}"] {
        assert_eq!(trim(&trim(s)), trim(s));
    }
}

#[test]
fn lines_end_at_line_feeds() {
    assert_eq!(lines("a\nb\n"), vec!["a", "b"]);
    assert_eq!(lines("a\nb"), vec!["a", "b"]);
    assert_eq!(lines("a\r\nb\r"), vec!["a", "b\r"]);
    assert_eq!(lines("\n\na"), vec!["", "", "a"]);
    assert_eq!(lines("\r\n"), vec![""]);
    assert_eq!(lines("a\r\r\n"), vec!["a\r"]);
    assert!(lines("").is_empty());
}

#[test]
fn lines_agree_with_the_standard_library() {
    for s in ["", "a", "a\n", "\n", "\r", "\r\n", "x\r\ny\n\nz", "é\n✳\r\n", "\n\r\n\r", "a\rb\nc"] {
        let expected: Vec<&str> = s.lines().collect();
        assert_eq!(lines(s), expected);
    }
}

#[test]
fn split_at_most_keeps_the_rest_in_the_last_piece() {
    assert_eq!(split_at_most("a\tb\tc\td", 3, '\t'), vec!["a", "b", "c\td"]);
    assert_eq!(split_at_most("a", 3, '\t'), vec!["a"]);
    assert_eq!(split_at_most("a\tb", 1, '\t'), vec!["a\tb"]);
    assert_eq!(split_at_most("\t\t", 5, '\t'), vec!["", "", ""]);
    assert_eq!(split_at_most("", 2, '\t'), vec![""]);
    assert!(split_at_most("a", 0, '\t').is_empty());
}

#[test]
fn pieces_agree_with_the_standard_library() {
    for s in ["", "/", "a/b", "//a//", "a", "é/✳/", "/a/b/c/d/e"] {
        let all: Vec<&str> = s.split('/').collect();
        assert_eq!(split(s, '/'), all);
        for n in 0..6 {
            let some: Vec<&str> = s.splitn(n, '/').collect();
            assert_eq!(split_at_most(s, n, '/'), some);
        }
    }
}

#[test]
fn prefixes_and_sameness() {
    assert!(starts_with("/dev/pts/3", "/dev/"));
    assert!(starts_with("/dev/", "/dev/"));
    assert!(starts_with("x", ""));
    assert!(!starts_with("/dev", "/dev/"));
    assert!(!starts_with("not a tty", "/dev/"));
    assert!(same("perm", "perm"));
    assert!(!same("perm", "Perm"));
    assert!(!same("perm", "permit"));
}

#[test]
fn characters_and_back() {
    let cs = chars_of("aé✳");
    assert_eq!(cs, vec!['a', 'é', '✳']);
    assert_eq!(text_of(&cs, 1, 3), "é✳");
    assert_eq!(text_of(&cs, 2, 2), "");
    assert_eq!(owned(vec!["a", ""]), vec!["a".to_string(), String::new()]);
}

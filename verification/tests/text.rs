use deploy::bytes::{bytes_list, bytes_text, utf8_text};
use deploy::text::{
    code_text, decimal_text, file_name, first_word, has_char, has_text, hex_text, is_whitespace,
    join_path, join_texts, lines_of, prefix_before, replace_char, same_path, split_at_char,
    split_at_last, starts_with, trim,
};

#[test]
fn white_space_is_that_of_unicode() {
    for n in 0..=0x10ffff_u32 {
        if let Some(c) = char::from_u32(n) {
            assert_eq!(is_whitespace(c), c.is_whitespace(), "{:x}", n);
        }
    }
}

#[test]
fn texts_are_trimmed_like_those_of_std() {
    for text in ["", " ", "a", " a ", "\t a b\n", "\u{a0}x\u{3000}", "x\u{200b}"] {
        assert_eq!(trim(text), text.trim());
        assert_eq!(first_word(text).as_deref(), text.split_whitespace().next());
    }
}

#[test]
fn paths_are_the_same_where_those_of_std_are() {
    let paths = [
        "", ".", "./", "./.", "..", "/", "//", "/.", "/..", "/./..", "a", "./a", "a/", "a/.", "a//",
        "/a", "//a", "/./a", "a/b", "a//b", "a/./b", "a/../b", "./a/b", "/a/b", "/a//./b/", ".a",
        "a.", "...", "a/...",
    ];
    for a in paths {
        for b in paths {
            let same = std::path::Path::new(a) == std::path::Path::new(b);
            assert_eq!(same_path(a, b), same, "{} and {}", a, b);
        }
    }
}

#[test]
fn texts_are_taken_apart() {
    assert_eq!(split_at_char("a/b//", '/'), vec!["a", "b", "", ""]);
    assert_eq!(lines_of("a\n\nb\n"), vec!["a", "", "b"]);
    assert!(lines_of("").is_empty());
    assert_eq!(lines_of("\n"), vec![""]);
    assert_eq!(split_at_last("a^b^c", '^'), Some(("a^b".to_string(), "c".to_string())));
    assert_eq!(split_at_last("abc", '^'), None);
    assert_eq!(split_at_last("^", '^'), Some((String::new(), String::new())));
    assert_eq!(prefix_before("a^b^c", '^'), "a");
    assert_eq!(prefix_before("abc", '^'), "abc");
    assert_eq!(join_texts(&["a".to_string(), "b".to_string()], ", "), "a, b");
    assert_eq!(replace_char("a.b.", '.', "::"), "a::b::");
}

#[test]
fn texts_are_searched() {
    assert!(starts_with("/nix/store/x", "/nix/store/") && !starts_with("/nix", "/nix/store/"));
    assert!(has_char("a\0b", '\0') && !has_char("ab", '\0'));
    assert!(has_text("xxControlPathyy", "ControlPath") && !has_text("ControlPat", "ControlPath"));
    assert!(has_text("aab", "ab") && has_text("x", ""));
}

#[test]
fn paths_are_joined_like_those_of_std() {
    for base in ["", "/", "a", "a/", "/x/y", "./r"] {
        for child in ["b", "b/c", "/abs", ""] {
            let joined = std::path::Path::new(base).join(child);
            assert_eq!(join_path(base, child), joined.to_str().unwrap());
        }
    }
}

#[test]
fn file_names_are_those_of_std() {
    for path in ["", "/", "a", "a/b", "a/b/", "a/.", "a/..", "..", ".", "//x//", "./a", "a/./"] {
        let name = std::path::Path::new(path).file_name().map(|n| n.to_str().unwrap().to_string());
        assert_eq!(file_name(path), name, "{}", path);
    }
}

#[test]
fn numbers_are_written_like_those_of_std() {
    for n in [0, 7, 10, 99, 12345, u64::MAX] {
        assert_eq!(decimal_text(n), n.to_string());
    }
    for code in [None, Some(0), Some(-1), Some(i32::MIN), Some(i32::MAX)] {
        assert_eq!(code_text(code), format!("{:?}", code));
    }
    let bytes: Vec<u8> = (0..=255).collect();
    let expected: String = bytes.iter().map(|b| format!("{:02x}", b)).collect();
    assert_eq!(hex_text(&bytes), expected);
}

#[test]
fn bytes_are_read_as_text_where_they_are() {
    assert_eq!(utf8_text("h\u{e4}".as_bytes()).unwrap(), "h\u{e4}");
    assert_eq!(
        utf8_text(b"a\xff").unwrap_err(),
        std::str::from_utf8(b"a\xff").unwrap_err().to_string()
    );
    assert_eq!(bytes_text(b"plain"), "plain");
    assert_eq!(bytes_text(&[255, 0]), "[255, 0]");
    assert_eq!(bytes_list(&[]), format!("{:?}", Vec::<u8>::new()));
    assert_eq!(bytes_list(&[1, 20, 255]), format!("{:?}", [1, 20, 255]));
}

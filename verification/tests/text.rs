use deltachat_channels::text::{
    before, join_with_spaces, split, split_once, split_whitespace, str_eq,
};

#[test]
fn words_of_a_text() {
    assert_eq!(split_whitespace("  a bc\t\u{3000}d\n"), vec!["a", "bc", "d"]);
    assert_eq!(split_whitespace(" \t"), Vec::<&str>::new());
    assert_eq!(split_whitespace("\u{e4}\u{a0}\u{20ac}"), vec!["\u{e4}", "\u{20ac}"]);
}

#[test]
fn white_space_is_that_of_the_standard_library() {
    let mut n: u32 = 0;
    while n <= 0x10ffff {
        if let Some(c) = char::from_u32(n) {
            let s = c.to_string();
            let expected: Vec<&str> = s.split_whitespace().collect();
            if n < 0x4000 {
                assert_eq!(split_whitespace(&s), expected);
            } else {
                assert!(!c.is_whitespace());
            }
        }
        n += 1;
    }
}

#[test]
fn pieces_of_a_text() {
    assert_eq!(split("a b", ' '), vec!["a", "b"]);
    assert_eq!(split("", ' '), vec![""]);
    assert_eq!(split(" a  ", ' '), vec!["", "a", "", ""]);
    assert_eq!(before("ab;c;d", ';'), "ab");
    assert_eq!(before("abc", ';'), "abc");
    assert_eq!(split_once("x dkim=pass dkim=fail", "dkim="), Some("pass dkim=fail"));
    assert_eq!(split_once("x dkim", "dkim="), None);
    assert_eq!(split_once("abc", ""), Some("abc"));
}

#[test]
fn joined_text_is_split_again() {
    let parts = vec!["a".to_string(), "bc".to_string(), "d".to_string()];
    let joined = join_with_spaces(&parts);
    assert_eq!(joined, "a bc d");
    assert_eq!(split(&joined, ' '), vec!["a", "bc", "d"]);
    assert_eq!(join_with_spaces(&vec![]), "");
    assert_eq!(join_with_spaces(&vec!["x".to_string()]), "x");
}

#[test]
fn equal_texts() {
    assert!(str_eq("", ""));
    assert!(str_eq("a\u{e4}", "a\u{e4}"));
    assert!(!str_eq("a", "ab"));
    assert!(!str_eq("ab", "ac"));
}

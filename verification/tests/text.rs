use shell_core::text::{first_char, followed_by, join, last_char, str_eq, trim};

#[test]
fn trim_removes_white_space_at_both_ends() {
    assert_eq!(trim("\n Hello\tworld\t\n"), "Hello\tworld");
    assert_eq!(trim("  exit 0\r\n"), "exit 0");
    assert_eq!(trim("a"), "a");
    assert_eq!(trim(" a"), "a");
    assert_eq!(trim("a "), "a");
}

#[test]
fn trim_of_white_space_is_empty() {
    assert_eq!(trim(""), "");
    assert_eq!(trim(" \t\r\n\u{a0}\u{3000}"), "");
}

#[test]
fn trim_agrees_with_the_standard_library() {
    for s in ["", " ", "x", " x y ", "\u{2003}é 越\u{2003}", "\t\tab\n", "  -  "] {
        assert_eq!(trim(s), s.trim());
    }
}

#[test]
fn str_eq_compares_characters() {
    assert!(str_eq("", ""));
    assert!(str_eq("exit 0", "exit 0"));
    assert!(!str_eq("exit 0", "exit 1"));
    assert!(!str_eq("exit", "exit 0"));
    assert!(!str_eq("exit 0", "exit"));
    assert!(str_eq("é越", "é越"));
    assert!(!str_eq("e", "é"));
}

#[test]
fn concat_appends() {
    assert_eq!(followed_by("ab", "cd"), "abcd");
    assert_eq!(followed_by("", "x"), "x");
    assert_eq!(followed_by("x", ""), "x");
}

#[test]
fn join_puts_the_separator_between() {
    let parts = vec!["one".to_string(), "two".to_string(), "three".to_string()];
    assert_eq!(join(&parts, " "), "one two three");
    assert_eq!(join(&parts, ", "), "one, two, three");
    assert_eq!(join(&vec!["one".to_string()], " "), "one");
    assert_eq!(join(&Vec::new(), " "), "");
    assert_eq!(join(&vec![String::new(), String::new()], ":"), ":");
}

#[test]
fn trim_takes_ascii_white_space_from_tab_to_carriage_return() {
    assert_eq!(trim("\t\n\u{b}\u{c}\r x \r\u{c}\u{b}\n\t"), "x");
    assert_eq!(trim("\u{8}x\u{e}"), "\u{8}x\u{e}");
    assert_eq!(trim("\u{1f}x\u{7f}"), "\u{1f}x\u{7f}");
}

#[test]
fn trim_keeps_white_space_inside() {
    assert_eq!(trim(" a \t b "), "a \t b");
}

#[test]
fn first_and_last_character() {
    assert_eq!(first_char(""), None);
    assert_eq!(last_char(""), None);
    assert_eq!(first_char("a"), Some('a'));
    assert_eq!(last_char("a"), Some('a'));
    assert_eq!(first_char("/bin/ls"), Some('/'));
    assert_eq!(last_char("/bin/ls"), Some('s'));
    assert_eq!(first_char("é越"), Some('é'));
    assert_eq!(last_char("é越"), Some('越'));
}

use book_exercises::text::{chars_of, same_text, split_whitespace, trim};

#[test]
fn chars_of_gives_each_character() {
    assert_eq!(chars_of("héllo"), vec!['h', 'é', 'l', 'l', 'o']);
    assert_eq!(chars_of(""), Vec::<char>::new());
}

#[test]
fn same_text_compares_characters() {
    assert!(same_text("Add", "Add"));
    assert!(!same_text("Add", "add"));
    assert!(!same_text("Add", "Ad"));
    assert!(same_text("", ""));
}

#[test]
fn split_whitespace_gives_the_words() {
    assert_eq!(split_whitespace("Add Sally to Engineering"), vec!["Add", "Sally", "to", "Engineering"]);
    assert_eq!(split_whitespace("  two\t\twords \n"), vec!["two", "words"]);
    assert_eq!(split_whitespace(""), Vec::<&str>::new());
    assert_eq!(split_whitespace(" \t\n"), Vec::<&str>::new());
    assert_eq!(split_whitespace("one"), vec!["one"]);
    assert_eq!(split_whitespace("é\u{a0}ü\u{3000}ß"), vec!["é", "ü", "ß"]);
}

#[test]
fn split_whitespace_agrees_with_the_standard_library() {
    let lines = ["a b  c", " lead", "trail ", "\u{2003}x\u{2003}y", "tab\tand\nfeed\r\n", "日本 語"];
    for line in lines {
        let expected: Vec<&str> = line.split_whitespace().collect();
        assert_eq!(split_whitespace(line), expected);
        assert_eq!(trim(line), line.trim());
    }
}

#[test]
fn trim_drops_whitespace_at_both_ends() {
    assert_eq!(trim("  q \n"), "q");
    assert_eq!(trim("a b"), "a b");
    assert_eq!(trim(" a  b \t"), "a  b");
    assert_eq!(trim(""), "");
    assert_eq!(trim(" \n\t "), "");
    assert_eq!(trim("\u{a0}é\u{a0}"), "é");
}

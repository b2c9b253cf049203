use book_exercises::minigrep::{run, search, search_case_insensitive, select_lines, Config};

#[test]
fn case_sensitive() {
    let query = "duct";
    let contents = "\
        Rust:\nsafe, fast, productive.\nPick three.\nDuct tape.";

    assert_eq!(vec!["safe, fast, productive."], search(query, contents));
}

#[test]
fn case_insensitive() {
    let query = "ruST";
    let contents = "\
        Rust:\nsafe, fast, productive.\nPick three.\nTrust me.";

    assert_eq!(vec!["Rust:", "Trust me."], search_case_insensitive(query, contents));
}

#[test]
fn search_keeps_order_and_finds_nothing_in_nothing() {
    assert_eq!(search("a", "ba\nc\nab\n"), vec!["ba", "ab"]);
    assert_eq!(search("a", ""), Vec::<&str>::new());
    assert_eq!(search("zzz", "one\ntwo"), Vec::<&str>::new());
}

#[test]
fn the_empty_query_is_in_every_line() {
    assert_eq!(search("", "one\n\ntwo\n"), vec!["one", "", "two"]);
}

#[test]
fn lines_end_at_line_feeds_with_or_without_carriage_return() {
    assert_eq!(search("o", "foo\r\nbar\nboo\r"), vec!["foo", "boo\r"]);
    assert_eq!(search("\r", "foo\r\nbar\r"), vec!["bar\r"]);
}

#[test]
fn search_is_case_sensitive() {
    assert_eq!(search("rust", "Rust:\nTrust me."), vec!["Trust me."]);
}

#[test]
fn case_insensitive_search_lowers_both_sides() {
    assert_eq!(search_case_insensitive("RUST", "rust\nRUSTY\nrest"), vec!["rust", "RUSTY"]);
    assert_eq!(search_case_insensitive("É", "école\nEcole"), vec!["école"]);
}

#[test]
fn select_lines_goes_by_the_keys() {
    let lines = vec!["Rust:", "safe", "Trust me."];
    let keys = vec![String::from("rust:"), String::from("safe"), String::from("trust me.")];
    assert_eq!(select_lines(&lines, &keys, "rust"), vec!["Rust:", "Trust me."]);
    let other = vec![String::from("x"), String::from("rust"), String::from("y")];
    assert_eq!(select_lines(&lines, &other, "rust"), vec!["safe"]);
    assert_eq!(select_lines(&lines, &other, "q"), Vec::<&str>::new());
}

#[test]
fn build_reads_query_and_path() {
    let args = vec![String::from("minigrep"), String::from("needle"), String::from("hay.txt")];
    let config = Config::build(args, true).unwrap();
    assert_eq!(config.query, "needle");
    assert_eq!(config.file_path, "hay.txt");
    assert!(config.ignore_case);
    let more = vec![
        String::from("minigrep"),
        String::from("a"),
        String::from("b"),
        String::from("c"),
    ];
    let config = Config::build(more, false).unwrap();
    assert_eq!(config.query, "a");
    assert_eq!(config.file_path, "b");
    assert!(!config.ignore_case);
}

#[test]
fn build_says_what_is_missing() {
    assert_eq!(Config::build(vec![], false).err(), Some("Didn't get a query string"));
    assert_eq!(
        Config::build(vec![String::from("minigrep")], false).err(),
        Some("Didn't get a query string")
    );
    assert_eq!(
        Config::build(vec![String::from("minigrep"), String::from("q")], true).err(),
        Some("Didn't get a file path")
    );
}

#[test]
fn run_searches_as_the_configuration_says() {
    let contents = "Rust:\nsafe, fast, productive.\nTrust me.";
    let strict = Config {
        query: String::from("rust"),
        file_path: String::from("poem.txt"),
        ignore_case: false,
    };
    assert_eq!(run(&strict, contents), vec!["Trust me."]);
    let loose = Config {
        query: String::from("rust"),
        file_path: String::from("poem.txt"),
        ignore_case: true,
    };
    assert_eq!(run(&loose, contents), vec!["Rust:", "Trust me."]);
}

use minigrep::config::{search_with_config, ArgumentError, Config};
use minigrep::search::{search, search_case_insensitive};
use minigrep::text::contains;

#[test]
fn case_sensitive() {
    let query = "duct";
    let contents = "\
Rust:
safe, fast, productive.
Pick three.
Duct tape.";

    assert_eq!(vec!["safe, fast, productive."], search(query, contents));
}

#[test]
fn case_insensitive() {
    let query = "rUsT";
    let contents = "\
Rust:
safe, fast, productive.
Pick three.
Trust me.";

    assert_eq!(
        vec!["Rust:", "Trust me."],
        search_case_insensitive(query, contents)
    );
}

#[test]
fn empty_query_returns_every_line() {
    let contents = "one\ntwo\n\nthree";
    assert_eq!(vec!["one", "two", "", "three"], search("", contents));
}

#[test]
fn trailing_newline_adds_no_line() {
    assert_eq!(search("", "a\nb"), search("", "a\nb\n"));
    assert_eq!(vec!["a", "b"], search("", "a\nb\n"));
}

#[test]
fn empty_contents_have_no_lines() {
    assert!(search("", "").is_empty());
    assert!(search_case_insensitive("x", "").is_empty());
}

#[test]
fn carriage_return_before_line_feed_is_dropped() {
    assert_eq!(vec!["ab", "cd\r"], search("", "ab\r\ncd\r"));
    assert_eq!(vec!["x\ry"], search("x", "x\ry\nz"));
}

#[test]
fn no_match_gives_empty_result() {
    assert!(search("zebra", "Rust:\nsafe, fast, productive.").is_empty());
}

#[test]
fn duplicates_and_order_are_kept() {
    let contents = "b1\na\nb2\nb1";
    assert_eq!(vec!["b1", "b2", "b1"], search("b", contents));
}

#[test]
fn case_insensitive_keeps_case_sensitive_matches() {
    let contents = "Rust:\ntrust\nRUST\nrust";
    let exact = search("rust", contents);
    let folded = search_case_insensitive("rust", contents);
    assert_eq!(vec!["trust", "rust"], exact);
    assert_eq!(vec!["Rust:", "trust", "RUST", "rust"], folded);
    for line in &exact {
        assert!(folded.contains(line));
    }
}

#[test]
fn search_twice_gives_same_result() {
    let contents = "alpha\nbeta\nalphabet";
    assert_eq!(search("alpha", contents), search("alpha", contents));
}

#[test]
fn lowercasing_is_applied_to_query_and_line() {
    assert_eq!(vec!["ÄPFEL"], search_case_insensitive("äpfel", "ÄPFEL\nbirnen"));
    assert!(search("äpfel", "ÄPFEL\nbirnen").is_empty());
}

#[test]
fn contains_finds_substrings() {
    assert!(contains("productive", "duct"));
    assert!(contains("anything", ""));
    assert!(contains("", ""));
    assert!(!contains("", "a"));
    assert!(!contains("Duct tape.", "duct"));
    assert!(contains("aaab", "aab"));
}

fn args(items: &[&str]) -> Vec<String> {
    items.iter().map(|s| s.to_string()).collect()
}

#[test]
fn build_missing_file_path() {
    let r = Config::build(args(&["minigrep", "foo"]), None);
    assert_eq!(Some(ArgumentError::MissingFilePath), r.err());
    assert_eq!("missing file path", ArgumentError::MissingFilePath.message());
}

#[test]
fn build_missing_query() {
    let r = Config::build(args(&["minigrep"]), None);
    assert_eq!(Some(ArgumentError::MissingQuery), r.err());
    let r = Config::build(Vec::new(), None);
    assert_eq!(Some(ArgumentError::MissingQuery), r.err());
    assert_eq!("missing query string", ArgumentError::MissingQuery.message());
}

#[test]
fn build_ignore_case_set_to_empty() {
    let config = Config::build(args(&["minigrep", "to", "poem.txt"]), Some(String::new())).unwrap();
    assert!(config.ignore_case());
}

#[test]
fn build_takes_arguments_verbatim() {
    let config =
        Config::build(args(&["minigrep", " to ", "./poem.txt", "extra"]), None).unwrap();
    assert_eq!(" to ", config.query());
    assert_eq!("./poem.txt", config.filepath());
    assert!(!config.ignore_case());
}

#[test]
fn config_selects_the_comparison() {
    let contents = "Rust:\nTrust me.";
    let exact = Config::build(args(&["minigrep", "rUsT", "f"]), None).unwrap();
    let folded = Config::build(args(&["minigrep", "rUsT", "f"]), Some("1".to_string())).unwrap();
    assert!(search_with_config(&exact, contents).is_empty());
    assert_eq!(vec!["Rust:", "Trust me."], search_with_config(&folded, contents));
}

#[test]
fn lines_agree_with_std_lines() {
    let samples = ["", "\n", "a", "a\n", "a\r\n", "a\r", "\r\n\r\n", "x\n\ny\r\nz\r", "é\nü\r\nß"];
    for s in samples {
        let expected: Vec<&str> = s.lines().collect();
        assert_eq!(expected, search("", s));
    }
}

#[test]
fn final_sigma_can_escape_case_insensitive_match() {
    assert_eq!(vec!["ΑΣ"], search("Σ", "ΑΣ"));
    assert!(search_case_insensitive("Σ", "ΑΣ").is_empty());
}

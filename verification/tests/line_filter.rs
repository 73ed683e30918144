use workbook::line_filter::{
    filter_lines, run, search, search_case_insensitive, take_line, Config,
};
use workbook::text::contains_text;

fn std_lines(contents: &str) -> Vec<&str> {
    contents.lines().collect()
}

fn all_lines(contents: &str) -> Vec<&str> {
    search("", contents)
}

#[test]
fn one_result() {
    let query = "duct";
    let contents = "\
Rust:
safe, fast, productive.
Pick three.";

    assert_eq!(vec!["safe, fast, productive."], search(query, contents));
}

#[test]
fn case_sensitive_skips_other_case() {
    let contents = "Rust:\nsafe, fast, productive.\nDuct tape.";
    assert_eq!(vec!["safe, fast, productive."], search("duct", contents));
    assert_eq!(
        vec!["safe, fast, productive."],
        filter_lines("duct", contents, true)
    );
}

#[test]
fn case_insensitive_finds_both() {
    let contents = "Rust:\nsafe, fast, productive.\nTrust me.";
    assert_eq!(
        vec!["Rust:", "Trust me."],
        search_case_insensitive("rUsT", contents)
    );
    assert_eq!(
        vec!["Rust:", "Trust me."],
        filter_lines("rUsT", contents, false)
    );
}

#[test]
fn case_insensitive_lowers_the_line_too() {
    // A wrapper that handed its argument back unchanged would miss this.
    assert_eq!(vec!["RUST"], search_case_insensitive("rust", "RUST\nruby"));
    assert_eq!(vec!["rust"], search_case_insensitive("RUST", "rust\nruby"));
    assert!(search("rust", "RUST\nruby").is_empty());
}

#[test]
fn case_insensitive_keeps_at_least_the_exact_matches() {
    let contents = "Duct\nduct\nDUCT tape\nnothing";
    let exact = search("duct", contents);
    let folded = search_case_insensitive("duct", contents);
    assert_eq!(vec!["duct"], exact);
    assert_eq!(vec!["Duct", "duct", "DUCT tape"], folded);
    assert!(exact.len() <= folded.len());
}

#[test]
fn final_sigma_is_lowered_by_its_place() {
    // The capital sigma at the end of a word lowers to the final form, the
    // lone one to the ordinary form: here ignoring case loses a match.
    let contents = "\u{391}\u{3a3}";
    assert_eq!(vec![contents], search("\u{3a3}", contents));
    assert!(search_case_insensitive("\u{3a3}", contents).is_empty());
}

#[test]
fn empty_query_returns_every_line() {
    let contents = "one\n\ntwo\r\nthree";
    assert_eq!(vec!["one", "", "two", "three"], search("", contents));
    assert_eq!(std_lines(contents), search("", contents));
}

#[test]
fn empty_text_returns_nothing() {
    assert!(search("duct", "").is_empty());
    assert!(search("", "").is_empty());
    assert!(search_case_insensitive("duct", "").is_empty());
}

#[test]
fn same_inputs_same_result() {
    let contents = "Rust:\nsafe, fast, productive.\nPick three.";
    assert_eq!(search("t", contents), search("t", contents));
    assert_eq!(
        search_case_insensitive("T", contents),
        search_case_insensitive("T", contents)
    );
}

#[test]
fn every_kept_line_contains_the_query() {
    let contents = "alpha\nbeta\ngamma\ndelta\n";
    let kept = search("a", contents);
    assert_eq!(vec!["alpha", "beta", "gamma", "delta"], kept);
    let kept = search("lt", contents);
    assert_eq!(vec!["delta"], kept);
    for line in kept {
        assert!(line.contains("lt"));
    }
}

#[test]
fn trailing_newline_gives_no_empty_line() {
    assert_eq!(vec!["a", "b"], all_lines("a\nb\n"));
    assert_eq!(vec!["a", "b"], all_lines("a\nb"));
    assert_eq!(vec!["a", "", "b"], all_lines("a\n\nb"));
    assert_eq!(vec![""], all_lines("\n"));
    assert_eq!(vec!["", ""], all_lines("\n\n"));
}

#[test]
fn carriage_returns_before_line_feeds_are_dropped() {
    assert_eq!(vec!["a", "b"], all_lines("a\r\nb\r\n"));
    assert_eq!(vec!["a\r"], all_lines("a\r"));
    assert_eq!(vec!["a\rb"], all_lines("a\rb\n"));
    assert_eq!(vec!["a\r", "b"], all_lines("a\r\r\nb"));
    assert_eq!(vec!["", "\r"], all_lines("\r\n\r"));
}

#[test]
fn lines_agree_with_std() {
    let samples = [
        "",
        "\n",
        "\r\n",
        "\r",
        "a",
        "a\n",
        "a\nb",
        "a\r\nb\r\n",
        "a\n\n\nb\n\n",
        "\r\r\n\n\r",
        "h\u{e9}llo\nw\u{f6}rld\r\n\u{4f60}\u{597d}\n\u{1f600}",
        "\u{1f600}\r\n\u{1f600}\r",
    ];
    for sample in samples {
        assert_eq!(std_lines(sample), all_lines(sample), "{:?}", sample);
    }
}

#[test]
fn take_line_splits_at_the_first_line_end() {
    assert_eq!(("a", "b\nc"), take_line("a\nb\nc"));
    assert_eq!(("a", "b"), take_line("a\r\nb"));
    assert_eq!(("a", ""), take_line("a"));
    assert_eq!(("a", ""), take_line("a\n"));
    assert_eq!(("", ""), take_line(""));
    assert_eq!(("", "x"), take_line("\nx"));
    assert_eq!(("\u{e9}", "\u{e9}"), take_line("\u{e9}\n\u{e9}"));
}

#[test]
fn contains_text_agrees_with_std() {
    let texts = [
        "",
        "a",
        "ab",
        "abc",
        "aab",
        "aaa",
        "h\u{e9}llo",
        "\u{e9}",
        "\u{4f60}\u{597d}",
        "x\u{1f600}y",
        "safe, fast, productive.",
    ];
    for haystack in texts {
        for needle in texts {
            assert_eq!(
                haystack.contains(needle),
                contains_text(haystack, needle),
                "{:?} in {:?}",
                needle,
                haystack
            );
        }
    }
}

#[test]
fn contains_text_edge_cases() {
    assert!(contains_text("", ""));
    assert!(contains_text("abc", ""));
    assert!(!contains_text("", "a"));
    assert!(contains_text("abc", "abc"));
    assert!(contains_text("abc", "bc"));
    assert!(!contains_text("abc", "abcd"));
    assert!(!contains_text("abc", "ac"));
}

#[test]
fn config_needs_query_and_filename() {
    let none: Vec<String> = vec![];
    assert_eq!(Err("not enough arguments"), Config::new(&none, true).map(|_| ()));
    let one = vec![String::from("prog")];
    assert_eq!(Err("not enough arguments"), Config::new(&one, true).map(|_| ()));
    let two = vec![String::from("prog"), String::from("needle")];
    assert_eq!(Err("not enough arguments"), Config::new(&two, false).map(|_| ()));
}

#[test]
fn config_takes_query_then_filename() {
    let args = vec![
        String::from("prog"),
        String::from("needle"),
        String::from("poem.txt"),
        String::from("ignored"),
    ];
    let config = Config::new(&args, true).ok().unwrap();
    assert_eq!("needle", config.query);
    assert_eq!("poem.txt", config.filename);
    assert!(config.case_sensitive);
    let config = Config::new(&args[..3], false).ok().unwrap();
    assert_eq!("needle", config.query);
    assert_eq!("poem.txt", config.filename);
    assert!(!config.case_sensitive);
}

#[test]
fn run_filters_by_the_configuration() {
    let contents = "Rust:\nsafe, fast, productive.\nTrust me.";
    let exact = Config {
        query: String::from("rust"),
        filename: String::from("poem.txt"),
        case_sensitive: true,
    };
    assert_eq!(vec!["Trust me."], run(&exact, contents));
    let folded = Config {
        query: String::from("rust"),
        filename: String::from("poem.txt"),
        case_sensitive: false,
    };
    assert_eq!(vec!["Rust:", "Trust me."], run(&folded, contents));
}

#[test]
fn filtering_the_result_again_changes_nothing() {
    let contents = "alpha\nbeta\ngamma\ndelta\nepsilon";
    let kept = search("a", contents);
    let joined = kept.join("\n");
    assert_eq!(kept, search("a", &joined));
    let folded = search_case_insensitive("A", contents);
    let joined = folded.join("\n");
    assert_eq!(folded, search_case_insensitive("A", &joined));
}

#[test]
fn kept_lines_stand_in_the_order_of_the_text() {
    let contents = "b1\na\nb2\nc\nb3\nb1";
    assert_eq!(vec!["b1", "b2", "b3", "b1"], search("b", contents));
    let all = search("", contents);
    let kept = search("b", contents);
    assert!(kept.len() <= all.len());
    let mut from = 0;
    for line in kept {
        let at = all[from..].iter().position(|l| *l == line).unwrap();
        from += at + 1;
    }
}

#[test]
fn kept_lines_are_views_into_the_text() {
    let contents = String::from("first\nsecond\r\nthird");
    let range = contents.as_bytes().as_ptr_range();
    for line in search("", &contents) {
        let start = line.as_ptr();
        assert!(range.start <= start && start <= range.end);
    }
}

#[test]
fn a_long_text_is_filtered_line_by_line() {
    let mut contents = String::new();
    for i in 0..100_000 {
        contents.push_str("line number ");
        contents.push_str(&i.to_string());
        contents.push('\n');
    }
    let kept = search("99999", &contents);
    assert_eq!(vec!["line number 99999"], kept);
    assert_eq!(100_000, search("line", &contents).len());
    assert_eq!(100_000, search_case_insensitive("LINE", &contents).len());
}

use workbook::strings::{
    calculate_length, change, first_word, gives_ownership, longest, longest_with_announcement,
    pig_latin, prettier_pig_latin, returns_tuples, takes_and_gives_back, ImportantExcerpt,
};
use workbook::text::{before_ascii, find_byte, same_text, slice_text, split_first_char};

#[test]
fn ownership_moves_the_text() {
    assert_eq!("hello", gives_ownership());
    assert_eq!("given", takes_and_gives_back(String::from("given")));
    assert_eq!((String::from("hello"), 5), returns_tuples(String::from("hello")));
    assert_eq!((String::new(), 0), returns_tuples(String::new()));
}

#[test]
fn lengths_are_counted_in_bytes() {
    assert_eq!(5, calculate_length(&String::from("hello")));
    assert_eq!(0, calculate_length(&String::new()));
    assert_eq!(4, calculate_length(&String::from("Hola")));
    assert_eq!(
        24,
        calculate_length(&String::from(
            "\u{417}\u{434}\u{440}\u{430}\u{432}\u{441}\u{442}\u{432}\u{443}\u{439}\u{442}\u{435}"
        ))
    );
    assert_eq!(
        (String::from("\u{e9}"), 2),
        returns_tuples(String::from("\u{e9}"))
    );
}

#[test]
fn change_appends_world() {
    let mut s = String::from("hello");
    change(&mut s);
    assert_eq!("hello, world", s);
    let mut empty = String::new();
    change(&mut empty);
    assert_eq!(", world", empty);
}

#[test]
fn first_word_stops_at_the_first_space() {
    assert_eq!("hello", first_word("hello world"));
    assert_eq!("hello", first_word("hello"));
    assert_eq!("", first_word(" hello"));
    assert_eq!("", first_word(""));
    assert_eq!("a", first_word("a b c"));
    assert_eq!("h\u{e9}llo", first_word("h\u{e9}llo w\u{f6}rld"));
    assert_eq!("tab\tis", first_word("tab\tis no space"));
}

#[test]
fn longest_goes_by_bytes_and_prefers_the_second() {
    assert_eq!("abcd", longest("abcd", "xyz"));
    assert_eq!("this string is long", longest("this string is long", "xyz"));
    assert_eq!("xyz", longest("abc", "xyz"));
    assert_eq!("abcd", longest("xyz", "abcd"));
    assert_eq!("", longest("", ""));
    // Two characters in four bytes are longer than three in three.
    assert_eq!("\u{e9}\u{e9}", longest("\u{e9}\u{e9}", "abc"));
}

#[test]
fn announcement_goes_with_the_longest() {
    assert_eq!(
        (
            String::from("Announcement: This is my announcement"),
            "longest string"
        ),
        longest_with_announcement("longest string", "short str", "This is my announcement")
    );
}

#[test]
fn excerpt_keeps_its_part() {
    let novel = String::from("Call me Ishmael. Some years ago...");
    let first_sentence = novel.split('.').next().unwrap();
    let excerpt = ImportantExcerpt {
        part: first_sentence,
    };
    assert_eq!(3, excerpt.level());
    assert_eq!(
        (String::from("Attention please: listen"), "Call me Ishmael"),
        excerpt.announce_and_return_part("listen")
    );
}

#[test]
fn pig_latin_moves_a_consonant_and_keeps_a_vowel() {
    assert_eq!("opsiclepay", pig_latin(&String::from("popsicle")));
    assert_eq!("applehay", pig_latin(&String::from("apple")));
    assert_eq!(
        "\u{434}\u{440}\u{430}\u{432}\u{441}\u{442}\u{432}\u{443}\u{439}\u{442}\u{435}\u{417}ay",
        pig_latin(&String::from(
            "\u{417}\u{434}\u{440}\u{430}\u{432}\u{441}\u{442}\u{432}\u{443}\u{439}\u{442}\u{435}"
        ))
    );
    assert_eq!("xay", pig_latin(&String::from("x")));
    assert_eq!("ahay", pig_latin(&String::from("a")));
    assert_eq!("ppleAay", pig_latin(&String::from("Apple")));
    for vowel in ["e", "i", "o", "u"] {
        assert_eq!(format!("{}hay", vowel), pig_latin(&String::from(vowel)));
    }
}

#[test]
fn prettier_pig_latin_agrees_on_ascii() {
    assert_eq!("opsiclepay", prettier_pig_latin(&String::from("popsicle")));
    assert_eq!("applehay", prettier_pig_latin(&String::from("apple")));
    for word in ["popsicle", "apple", "x", "igloo", "rust"] {
        let word = String::from(word);
        assert_eq!(pig_latin(&word), prettier_pig_latin(&word));
    }
}

#[test]
fn text_helpers_on_bytes() {
    assert_eq!(2, find_byte(b"abcabc", b'c'));
    assert_eq!(6, find_byte(b"abcabc", b'x'));
    assert_eq!(0, find_byte(b"", b'x'));
    assert_eq!("bc", slice_text("abcd", 1, 3));
    assert_eq!("", slice_text("abcd", 2, 2));
    assert_eq!("\u{e9}", slice_text("a\u{e9}b", 1, 3));
    assert_eq!("abcd", slice_text("abcd", 0, 4));
}

#[test]
fn text_helpers_on_characters() {
    assert_eq!(("a", "bc"), split_first_char("abc"));
    assert_eq!(("a", ""), split_first_char("a"));
    assert_eq!(("\u{e9}", "t\u{e9}"), split_first_char("\u{e9}t\u{e9}"));
    assert_eq!(("\u{4f60}", "\u{597d}"), split_first_char("\u{4f60}\u{597d}"));
    assert_eq!(("\u{1f600}", "!"), split_first_char("\u{1f600}!"));
    assert_eq!("key", before_ascii("key=value", b'='));
    assert_eq!("key", before_ascii("key", b'='));
    assert_eq!("", before_ascii("=value", b'='));
    assert!(same_text("abc", "abc"));
    assert!(same_text("", ""));
    assert!(!same_text("abc", "abd"));
    assert!(!same_text("abc", "ab"));
    assert!(!same_text("ab", "abc"));
    assert!(same_text("\u{e9}", "\u{e9}"));
    assert!(!same_text("\u{e9}", "e"));
}

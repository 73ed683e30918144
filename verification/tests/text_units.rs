use workbook::text_units::{scalar_values, text_units};

#[test]
fn namaste_in_three_ways() {
    let hello = "\u{928}\u{92e}\u{938}\u{94d}\u{924}\u{947}";
    let units = text_units(hello);
    assert_eq!(
        vec![
            224, 164, 168, 224, 164, 174, 224, 164, 184, 224, 165, 141, 224, 164, 164, 224, 165,
            135
        ],
        units.bytes
    );
    assert_eq!(
        vec!['\u{928}', '\u{92e}', '\u{938}', '\u{94d}', '\u{924}', '\u{947}'],
        units.scalars
    );
    assert_eq!(
        vec!["\u{928}", "\u{92e}", "\u{938}\u{94d}\u{924}\u{947}"],
        units.graphemes
    );
}

#[test]
fn clusters_keep_marks_with_their_letters() {
    let units = text_units("a\u{310}e\u{301}o\u{308}\u{332}");
    assert_eq!(
        vec!["a\u{310}", "e\u{301}", "o\u{308}\u{332}"],
        units.graphemes
    );
    assert_eq!(7, units.scalars.len());
    let units = text_units("a\r\nb");
    assert_eq!(vec!["a", "\r\n", "b"], units.graphemes);
    assert_eq!(vec![97, 13, 10, 98], units.bytes);
}

#[test]
fn the_empty_text_has_no_units() {
    let units = text_units("");
    assert!(units.bytes.is_empty());
    assert!(units.scalars.is_empty());
    assert!(units.graphemes.is_empty());
}

#[test]
fn scalar_values_agree_with_std() {
    for text in ["", "a", "hello", "h\u{e9}llo", "\u{4f60}\u{597d}", "x\u{1f600}y\u{e9}"] {
        assert_eq!(text.chars().collect::<Vec<char>>(), scalar_values(text));
    }
}

//! A line filter: the lines of a text that contain a query, in the order of
//! the text, each one a view into the text.

use crate::encoding::{lemma_encode_injective, lemma_first_ascii_char, lemma_last_ascii_char};
use crate::sequences::{
    contains, first_index_of, is_subsequence, lemma_contains_empty, lemma_filter_all,
    lemma_filter_is_subsequence, lemma_filter_monotone, lemma_first_index_of,
    lemma_subsequence_elements, occurs_at,
};
use crate::text::{contains_text, find_byte, slice_text};
use vstd::prelude::*;
use vstd::string::*;
use vstd::utf8::*;

verus! {

/// The position of the first line feed of `text`, or `text.len()` where it
/// has none.
pub open spec fn line_end(text: Seq<char>) -> int {
    first_index_of(text, '\n')
}

/// `line` without one carriage return at its end, if it has one there.
pub open spec fn strip_carriage_return(line: Seq<char>) -> Seq<char> {
    if line.len() > 0 && line.last() == '\r' {
        line.drop_last()
    } else {
        line
    }
}

/// The first line of `text`: what stands before its first line feed, without
/// the carriage return that may precede the line feed. A text without a line
/// feed is its own first line, whatever it ends in.
pub open spec fn first_line(text: Seq<char>) -> Seq<char> {
    if line_end(text) < text.len() {
        strip_carriage_return(text.subrange(0, line_end(text)))
    } else {
        text
    }
}

/// What follows the first line feed of `text`; empty where it has none.
pub open spec fn after_first_line(text: Seq<char>) -> Seq<char> {
    if line_end(text) < text.len() {
        text.subrange(line_end(text) + 1, text.len() as int)
    } else {
        Seq::empty()
    }
}

/// The lines of `text`. A line ends with a line feed or with a carriage
/// return and a line feed, neither of which belongs to the line; the last
/// line may end with the text instead. So `"a\nb\n"` and `"a\nb"` both have
/// the lines `"a"` and `"b"`, and the empty text has no line.
pub open spec fn lines_of(text: Seq<char>) -> Seq<Seq<char>>
    decreases text.len(),
{
    if text.len() == 0 {
        Seq::empty()
    } else {
        proof {
            lemma_first_index_of(text, '\n');
        }
        seq![first_line(text)] + lines_of(after_first_line(text))
    }
}

/// Splits `text` into its first line and what follows that line's end.
pub fn take_line<'a>(text: &'a str) -> (parts: (&'a str, &'a str))
    ensures
        parts.0@ == first_line(text@),
        parts.1@ == after_first_line(text@),
{
    let bytes = text.as_bytes();
    let total = bytes.len();
    let at = find_byte(bytes, 0x0A);
    proof {
        assert('\n' as u32 == 0x0A);
        assert('\r' as u32 == 0x0D);
        lemma_first_ascii_char(text@, '\n');
        encode_utf8_valid_utf8(text@);
        is_char_boundary_start_end_of_seq(bytes@);
    }
    if at == total {
        let rest = slice_text(text, total, total);
        proof {
            assert(encode_utf8(rest@) =~= encode_utf8(Seq::<char>::empty()));
            lemma_encode_injective(rest@, Seq::empty());
        }
        return (text, rest);
    }
    let ghost before = text@.subrange(0, line_end(text@));
    let rest = slice_text(text, at + 1, total);
    proof {
        lemma_encode_injective(rest@, after_first_line(text@));
        if before.len() > 0 {
            lemma_last_ascii_char(before, '\r');
            assert(bytes@.subrange(0, at as int).last() == bytes@[at - 1]);
        }
    }
    let stop = if at > 0 && bytes[at - 1] == 0x0D {
        at - 1
    } else {
        at
    };
    proof {
        if stop < at {
            encode_utf8_valid_utf8(before);
            is_char_boundary_iff_not_is_continuation_byte(bytes@, stop as int);
            assert(bytes@.subrange(0, at as int).drop_last() =~= bytes@.subrange(0, stop as int));
        }
    }
    let line = slice_text(text, 0, stop);
    proof {
        lemma_encode_injective(line@, first_line(text@));
    }
    (line, rest)
}

/// The lowercase form of `text`, as `str::to_lowercase` gives it.
pub uninterp spec fn lowercase_of(text: Seq<char>) -> Seq<char>;

/// Calls `str::to_lowercase`, which returns the lowercase equivalent of the
/// whole string as a new `String`. The result depends on the characters of
/// `text` alone; the contract gives it the name `lowercase_of` and claims
/// nothing else of it.
#[verifier::external_body]
fn lowercase(text: &str) -> (lowered: String)
    ensures
        lowered@ == lowercase_of(text@),
{
    text.to_lowercase()
}

/// Whether `line` is kept for `query`: it contains the query as it stands,
/// or, where case is ignored, its lowercase form contains the lowercase form
/// of the query.
pub open spec fn line_matches(query: Seq<char>, line: Seq<char>, case_sensitive: bool) -> bool {
    if case_sensitive {
        contains(line, query)
    } else {
        contains(lowercase_of(line), lowercase_of(query))
    }
}

/// The lines of `text` that match `query`, in the order of the text.
pub open spec fn matching_lines(query: Seq<char>, text: Seq<char>, case_sensitive: bool) -> Seq<
    Seq<char>,
> {
    lines_of(text).filter(|line: Seq<char>| line_matches(query, line, case_sensitive))
}

/// The matching lines of a text are the first line, where it matches, and
/// the matching lines of what follows it.
pub proof fn lemma_matching_lines_step(query: Seq<char>, text: Seq<char>, case_sensitive: bool)
    requires
        text.len() > 0,
    ensures
        after_first_line(text).len() < text.len(),
        matching_lines(query, text, case_sensitive) == if line_matches(
            query,
            first_line(text),
            case_sensitive,
        ) {
            seq![first_line(text)] + matching_lines(query, after_first_line(text), case_sensitive)
        } else {
            matching_lines(query, after_first_line(text), case_sensitive)
        },
{
    let keep = |line: Seq<char>| line_matches(query, line, case_sensitive);
    let first = seq![first_line(text)];
    let others = lines_of(after_first_line(text));
    lemma_first_index_of(text, '\n');
    assert(lines_of(text) == first + others);
    Seq::filter_distributes_over_add(first, others, keep);
    assert(first.filter(keep) =~= if keep(first_line(text)) {
        first
    } else {
        Seq::empty()
    }) by {
        reveal_with_fuel(Seq::filter, 2);
        assert(first.drop_last() =~= Seq::<Seq<char>>::empty());
        assert(first.last() == first_line(text));
    }
    assert(Seq::<Seq<char>>::empty() + others.filter(keep) =~= others.filter(keep));
}

/// The lines of `contents` that match `query`, in their order in `contents`.
/// With `case_sensitive` a line matches where it contains `query` as it
/// stands; without it, where its lowercase form contains the lowercase form
/// of `query`. Each line is a view into `contents`.
pub fn filter_lines<'a>(query: &str, contents: &'a str, case_sensitive: bool) -> (lines: Vec<
    &'a str,
>)
    ensures
        lines.deep_view() == matching_lines(query@, contents@, case_sensitive),
{
    let lowered_query = if case_sensitive {
        String::new()
    } else {
        lowercase(query)
    };
    let mut lines: Vec<&'a str> = Vec::new();
    let mut rest = contents;
    proof {
        assert(lines.deep_view() =~= Seq::<Seq<char>>::empty());
        assert(lines.deep_view() + matching_lines(query@, rest@, case_sensitive)
            =~= matching_lines(query@, contents@, case_sensitive));
    }
    while !rest.is_empty()
        invariant
            !case_sensitive ==> lowered_query@ == lowercase_of(query@),
            lines.deep_view() + matching_lines(query@, rest@, case_sensitive) == matching_lines(
                query@,
                contents@,
                case_sensitive,
            ),
        decreases rest@.len(),
    {
        let (line, tail) = take_line(rest);
        let keep = if case_sensitive {
            contains_text(line, query)
        } else {
            let lowered_line = lowercase(line);
            contains_text(lowered_line.as_str(), lowered_query.as_str())
        };
        proof {
            lemma_matching_lines_step(query@, rest@, case_sensitive);
        }
        let ghost before = lines.deep_view();
        if keep {
            lines.push(line);
            proof {
                assert(lines.deep_view() =~= before + seq![line@]);
                assert(before + (seq![line@] + matching_lines(query@, tail@, case_sensitive))
                    =~= before + seq![line@] + matching_lines(query@, tail@, case_sensitive));
            }
        }
        rest = tail;
    }
    proof {
        assert(lines_of(rest@) =~= Seq::<Seq<char>>::empty());
        assert(matching_lines(query@, rest@, case_sensitive) =~= Seq::<Seq<char>>::empty()) by {
            reveal_with_fuel(Seq::filter, 1);
        }
        assert(lines.deep_view() + Seq::<Seq<char>>::empty() =~= lines.deep_view());
    }
    lines
}

/// The lines of `contents` that contain `query` as a literal substring, in
/// their order in `contents`.
pub fn search<'a>(query: &str, contents: &'a str) -> (lines: Vec<&'a str>)
    ensures
        lines.deep_view() == matching_lines(query@, contents@, true),
        forall|i: int| 0 <= i < lines.len() ==> contains(#[trigger] lines[i]@, query@),
{
    let lines = filter_lines(query, contents, true);
    proof {
        let keep = |line: Seq<char>| line_matches(query@, line, true);
        assert forall|i: int| 0 <= i < lines.len() implies contains(#[trigger] lines[i]@, query@) by {
            lines_of(contents@).lemma_filter_pred(keep, i);
            assert(lines.deep_view()[i] == lines[i]@);
        }
    }
    lines
}

/// The lines of `contents` whose lowercase form contains the lowercase form
/// of `query`, in their order in `contents` and as they stand there.
pub fn search_case_insensitive<'a>(query: &str, contents: &'a str) -> (lines: Vec<&'a str>)
    ensures
        lines.deep_view() == matching_lines(query@, contents@, false),
{
    filter_lines(query, contents, false)
}

/// What a search is run with: the text to look for, the name of the source
/// to look in, and whether the case of letters counts.
pub struct Config {
    pub query: String,
    pub filename: String,
    pub case_sensitive: bool,
}

impl Config {
    /// Reads a configuration from command-line arguments: the program's name,
    /// the query and the name of the source, in that order; what follows them
    /// is ignored. `case_sensitive` is passed in as it stands. With fewer than
    /// two arguments after the program's name there is no configuration.
    pub fn new(args: &[String], case_sensitive: bool) -> (made: Result<Config, &'static str>)
        ensures
            made is Err <==> args@.len() < 3,
            made matches Err(message) ==> message@ == "not enough arguments"@,
            made matches Ok(config) ==> {
                &&& config.query@ == args@[1]@
                &&& config.filename@ == args@[2]@
                &&& config.case_sensitive == case_sensitive
            },
    {
        if args.len() < 3 {
            return Err("not enough arguments");
        }
        let query = args[1].clone();
        let filename = args[2].clone();
        Ok(Config { query, filename, case_sensitive })
    }
}

/// The lines of `contents`, the text that the source named in `config` held,
/// which match the query of `config`, in their order in `contents`.
pub fn run<'a>(config: &Config, contents: &'a str) -> (lines: Vec<&'a str>)
    ensures
        lines.deep_view() == matching_lines(config.query@, contents@, config.case_sensitive),
{
    filter_lines(config.query.as_str(), contents, config.case_sensitive)
}

/// Every line that a search returns matches the query: with the case of
/// letters counting, it contains the query as a literal substring; without,
/// its lowercase form contains the lowercase form of the query.
pub proof fn law_kept_lines_match(query: Seq<char>, text: Seq<char>, case_sensitive: bool)
    ensures
        forall|i: int|
            0 <= i < matching_lines(query, text, case_sensitive).len() ==> line_matches(
                query,
                #[trigger] matching_lines(query, text, case_sensitive)[i],
                case_sensitive,
            ),
        forall|i: int|
            0 <= i < matching_lines(query, text, true).len() ==> contains(
                #[trigger] matching_lines(query, text, true)[i],
                query,
            ),
{
    let keep = |line: Seq<char>| line_matches(query, line, case_sensitive);
    assert forall|i: int|
        0 <= i < matching_lines(query, text, case_sensitive).len() implies line_matches(
        query,
        #[trigger] matching_lines(query, text, case_sensitive)[i],
        case_sensitive,
    ) by {
        lines_of(text).lemma_filter_pred(keep, i);
    }
    let exact = |line: Seq<char>| line_matches(query, line, true);
    assert forall|i: int| 0 <= i < matching_lines(query, text, true).len() implies contains(
        #[trigger] matching_lines(query, text, true)[i],
        query,
    ) by {
        lines_of(text).lemma_filter_pred(exact, i);
    }
}

/// The lines that a search returns are lines of the text, in the order of
/// the text: the result is the sequence of lines with some left out, so it
/// has at most as many lines as the text.
pub proof fn law_kept_lines_are_lines_in_order(
    query: Seq<char>,
    text: Seq<char>,
    case_sensitive: bool,
)
    ensures
        is_subsequence(matching_lines(query, text, case_sensitive), lines_of(text)),
        matching_lines(query, text, case_sensitive).len() <= lines_of(text).len(),
        forall|i: int|
            0 <= i < matching_lines(query, text, case_sensitive).len() ==> lines_of(text).contains(
                #[trigger] matching_lines(query, text, case_sensitive)[i],
            ),
{
    let keep = |line: Seq<char>| line_matches(query, line, case_sensitive);
    let kept = matching_lines(query, text, case_sensitive);
    lemma_filter_is_subsequence(lines_of(text), keep);
    lines_of(text).lemma_filter_len(keep);
    assert forall|i: int| 0 <= i < kept.len() implies lines_of(text).contains(#[trigger] kept[i]) by {
        lemma_subsequence_elements(kept, lines_of(text), i);
    }
}

/// Every line of a text stands in the text, character for character.
pub proof fn law_lines_are_parts_of_the_text(text: Seq<char>)
    ensures
        forall|i: int|
            0 <= i < lines_of(text).len() ==> contains(text, #[trigger] lines_of(text)[i]),
    decreases text.len(),
{
    if text.len() > 0 {
        let first = first_line(text);
        let rest = after_first_line(text);
        let others = lines_of(rest);
        let end = line_end(text);
        lemma_first_index_of(text, '\n');
        law_lines_are_parts_of_the_text(rest);
        assert(lines_of(text) == seq![first] + others);
        assert forall|i: int| 0 <= i < lines_of(text).len() implies contains(
            text,
            #[trigger] lines_of(text)[i],
        ) by {
            if i == 0 {
                assert(text.subrange(0, first.len() as int) =~= first);
                assert(occurs_at(text, first, 0));
            } else {
                let line = others[i - 1];
                assert(lines_of(text)[i] == line);
                let at = choose|at: int| occurs_at(rest, line, at);
                assert(text.subrange(end + 1 + at, end + 1 + at + line.len()) =~= rest.subrange(
                    at,
                    at + line.len(),
                ));
                assert(occurs_at(text, line, end + 1 + at));
            }
        }
    }
}

/// Where lowering the case loses no match among the lines of the text, a
/// search that ignores case returns every line that a case-sensitive search
/// returns, in the same order, and so at least as many.
pub proof fn law_ignoring_case_keeps_more(query: Seq<char>, text: Seq<char>)
    requires
        forall|i: int|
            0 <= i < lines_of(text).len() && contains(#[trigger] lines_of(text)[i], query)
                ==> contains(lowercase_of(lines_of(text)[i]), lowercase_of(query)),
    ensures
        is_subsequence(matching_lines(query, text, true), matching_lines(query, text, false)),
        matching_lines(query, text, true).len() <= matching_lines(query, text, false).len(),
{
    let exact = |line: Seq<char>| line_matches(query, line, true);
    let folded = |line: Seq<char>| line_matches(query, line, false);
    lemma_filter_monotone(lines_of(text), exact, folded);
}

/// The result of a search is a function of the query, the text and the flag:
/// two results for the same three are the same lines in the same order.
pub proof fn law_same_inputs_same_lines(
    query: Seq<char>,
    text: Seq<char>,
    case_sensitive: bool,
    first: Seq<Seq<char>>,
    second: Seq<Seq<char>>,
)
    requires
        first == matching_lines(query, text, case_sensitive),
        second == matching_lines(query, text, case_sensitive),
    ensures
        first == second,
{
}

/// Filtering the lines that a search returned once more, for the same query
/// and flag, leaves them as they are.
pub proof fn law_filtering_again_changes_nothing(
    query: Seq<char>,
    text: Seq<char>,
    case_sensitive: bool,
)
    ensures
        matching_lines(query, text, case_sensitive).filter(
            |line: Seq<char>| line_matches(query, line, case_sensitive),
        ) == matching_lines(query, text, case_sensitive),
{
    let keep = |line: Seq<char>| line_matches(query, line, case_sensitive);
    let kept = matching_lines(query, text, case_sensitive);
    assert forall|i: int| 0 <= i < kept.len() implies keep(kept[i]) by {
        lines_of(text).lemma_filter_pred(keep, i);
    }
    lemma_filter_all(kept, keep);
}

/// A case-sensitive search for the empty query returns every line of the
/// text unchanged.
pub proof fn law_empty_query_keeps_every_line(query: Seq<char>, text: Seq<char>)
    requires
        query.len() == 0,
    ensures
        matching_lines(query, text, true) == lines_of(text),
{
    let keep = |line: Seq<char>| line_matches(query, line, true);
    assert forall|i: int| 0 <= i < lines_of(text).len() implies keep(lines_of(text)[i]) by {
        lemma_contains_empty(lines_of(text)[i], query);
    }
    lemma_filter_all(lines_of(text), keep);
}

/// A search in the empty text returns no line, whatever the query.
pub proof fn law_empty_text_has_no_lines(query: Seq<char>, text: Seq<char>, case_sensitive: bool)
    requires
        text.len() == 0,
    ensures
        lines_of(text).len() == 0,
        matching_lines(query, text, case_sensitive).len() == 0,
{
    let keep = |line: Seq<char>| line_matches(query, line, case_sensitive);
    lines_of(text).lemma_filter_len(keep);
}

} // verus!

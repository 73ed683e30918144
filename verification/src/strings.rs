//! Owned strings and string slices: who holds a text, how long it is, and
//! which part of it is meant.

use crate::encoding::is_ascii_char;
use crate::sequences::first_index_of;
use crate::text::{before_ascii, byte_length, split_first_char};
use vstd::prelude::*;
use vstd::string::*;

verus! {

/// The text `"hello"`, owned by the caller from here on.
pub fn gives_ownership() -> (text: String)
    ensures
        text@ == "hello"@,
{
    String::from_str("hello")
}

/// Hands `a_string` back as it came.
pub fn takes_and_gives_back(a_string: String) -> (same: String)
    ensures
        same == a_string,
{
    a_string
}

/// Hands `s` back together with its length in bytes.
pub fn returns_tuples(s: String) -> (pair: (String, usize))
    ensures
        pair.0 == s,
        pair.1 == byte_length(s@),
{
    let length = s.as_str().as_bytes().len();
    (s, length)
}

/// The length of `s` in bytes.
pub fn calculate_length(s: &String) -> (length: usize)
    ensures
        length == byte_length(s@),
{
    s.as_str().as_bytes().len()
}

/// Appends `", world"` to `some_string`.
pub fn change(some_string: &mut String)
    ensures
        final(some_string)@ == old(some_string)@ + ", world"@,
{
    some_string.append(", world");
}

/// The greeting for `name`: `"Hello "` and the name.
pub fn greeting(name: &str) -> (text: String)
    ensures
        text@ == "Hello "@ + name@,
{
    String::from_str("Hello ").concat(name)
}

/// The first word of `s`: what stands before its first space, or all of `s`
/// where it has no space.
pub open spec fn first_word_of(s: Seq<char>) -> Seq<char> {
    s.subrange(0, first_index_of(s, ' '))
}

/// The first word of `s`, as a view into `s`.
pub fn first_word(s: &str) -> (word: &str)
    ensures
        word@ == first_word_of(s@),
{
    proof {
        assert(0x20u8 as char == ' ');
    }
    before_ascii(s, 0x20)
}

/// The one of `x` and `y` that takes more bytes, and `y` where they take
/// equally many.
pub fn longest<'a>(x: &'a str, y: &'a str) -> (longer: &'a str)
    ensures
        longer@ == if byte_length(x@) > byte_length(y@) {
            x@
        } else {
            y@
        },
{
    if x.as_bytes().len() > y.as_bytes().len() {
        x
    } else {
        y
    }
}

/// The line that announces `ann`, and the longer of `x` and `y` as `longest`
/// gives it.
pub fn longest_with_announcement<'a>(x: &'a str, y: &'a str, ann: &str) -> (out: (String, &'a str))
    ensures
        out.0@ == "Announcement: "@ + ann@,
        out.1@ == if byte_length(x@) > byte_length(y@) {
            x@
        } else {
            y@
        },
{
    let announced = String::from_str("Announcement: ").concat(ann);
    (announced, longest(x, y))
}

/// A part of a text that someone else holds.
pub struct ImportantExcerpt<'a> {
    pub part: &'a str,
}

impl<'a> ImportantExcerpt<'a> {
    /// The level of importance, which is 3 for every excerpt.
    pub fn level(&self) -> (level: i32)
        ensures
            level == 3,
    {
        3
    }

    /// The line that asks for attention to `announcement`, and the part
    /// held.
    pub fn announce_and_return_part(&self, announcement: &str) -> (out: (String, &'a str))
        ensures
            out.0@ == "Attention please: "@ + announcement@,
            out.1@ == self.part@,
    {
        let announced = String::from_str("Attention please: ").concat(announcement);
        (announced, self.part)
    }
}

/// One of the five lowercase vowels of the Latin alphabet.
pub open spec fn is_vowel(c: char) -> bool {
    c == 'a' || c == 'e' || c == 'i' || c == 'o' || c == 'u'
}

/// The pig-latin form of a word that is not empty: a word that starts with a
/// vowel gets `"hay"` at its end; any other word loses its first character,
/// which comes back at the end, followed by `"ay"`.
pub open spec fn pig_latin_of(word: Seq<char>) -> Seq<char> {
    if is_vowel(word[0]) {
        word + seq!['h', 'a', 'y']
    } else {
        word.drop_first() + seq![word[0]] + seq!['a', 'y']
    }
}

/// The pig-latin form of `word`, which is not empty.
pub fn pig_latin(word: &String) -> (turned: String)
    requires
        word@.len() > 0,
    ensures
        turned@ == pig_latin_of(word@),
{
    let (first, rest) = split_first_char(word.as_str());
    let letter = first.get_char(0);
    proof {
        reveal_strlit("hay");
        reveal_strlit("ay");
        assert("hay"@ =~= seq!['h', 'a', 'y']);
        assert("ay"@ =~= seq!['a', 'y']);
    }
    if letter == 'a' || letter == 'e' || letter == 'i' || letter == 'o' || letter == 'u' {
        String::from_str(word.as_str()).concat("hay")
    } else {
        String::from_str(rest).concat(first).concat("ay")
    }
}

/// The pig-latin form of `word`, which starts with an ASCII character.
pub fn prettier_pig_latin(word: &String) -> (turned: String)
    requires
        word@.len() > 0,
        is_ascii_char(word@[0]),
    ensures
        turned@ == pig_latin_of(word@),
{
    pig_latin(word)
}

} // verus!

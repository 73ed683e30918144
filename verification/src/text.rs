//! Executable helpers on string slices, each stated over the characters of
//! the text.

use crate::encoding::{lemma_contains_encoded, lemma_encode_injective, lemma_first_ascii_char};
use crate::sequences::{contains, first_index_of, lemma_first_index_is, occurs_at};
use vstd::prelude::*;
use vstd::string::*;
use vstd::utf8::*;

verus! {

/// The position of the first byte of `bytes` equal to `byte`, or the length
/// of `bytes` where there is none.
pub fn find_byte(bytes: &[u8], byte: u8) -> (at: usize)
    ensures
        at == first_index_of(bytes@, byte),
{
    let total = bytes.len();
    let mut at: usize = 0;
    while at < total && bytes[at] != byte
        invariant
            at <= total,
            total == bytes@.len(),
            forall|j: int| 0 <= j < at ==> bytes@[j] != byte,
        decreases total - at,
    {
        at += 1;
    }
    proof {
        lemma_first_index_is(bytes@, byte, at as int);
    }
    at
}

/// The part of `text` between the byte positions `from` and `to`, both of
/// which are character boundaries.
pub fn slice_text<'a>(text: &'a str, from: usize, to: usize) -> (part: &'a str)
    requires
        from <= to <= text.spec_bytes().len(),
        is_char_boundary(text.spec_bytes(), from as int),
        is_char_boundary(text.spec_bytes(), to as int),
    ensures
        part.spec_bytes() == text.spec_bytes().subrange(from as int, to as int),
{
    let (head, _) = text.split_at(to);
    proof {
        let bytes = text.spec_bytes();
        encode_utf8_valid_utf8(text@);
        encode_utf8_valid_utf8(head@);
        if from < to {
            is_char_boundary_iff_not_is_continuation_byte(bytes, from as int);
            assert(head.spec_bytes()[from as int] == bytes[from as int]);
            is_char_boundary_iff_not_is_continuation_byte(head.spec_bytes(), from as int);
        } else {
            is_char_boundary_start_end_of_seq(head.spec_bytes());
        }
    }
    let (_, part) = head.split_at(from);
    proof {
        assert(part.spec_bytes() =~= text.spec_bytes().subrange(from as int, to as int));
    }
    part
}

/// `needle` stands in `haystack` at byte position `at`.
pub fn bytes_match_at(haystack: &[u8], needle: &[u8], at: usize) -> (found: bool)
    requires
        at + needle@.len() <= haystack@.len(),
    ensures
        found == occurs_at(haystack@, needle@, at as int),
{
    let width = needle.len();
    let total = haystack.len();
    let mut k: usize = 0;
    while k < width
        invariant
            k <= width,
            width == needle@.len(),
            total == haystack@.len(),
            at + width <= total,
            forall|j: int| 0 <= j < k ==> haystack@[at + j] == needle@[j],
        decreases width - k,
    {
        if haystack[at + k] != needle[k] {
            proof {
                let part = haystack@.subrange(at as int, at + width);
                assert(part[k as int] == haystack@[at + k]);
            }
            return false;
        }
        k += 1;
    }
    proof {
        assert(haystack@.subrange(at as int, at + width) =~= needle@);
    }
    true
}

/// Whether `haystack` contains `needle` as a literal substring. The empty
/// needle is contained in every text.
pub fn contains_text(haystack: &str, needle: &str) -> (found: bool)
    ensures
        found == contains(haystack@, needle@),
{
    let hay = haystack.as_bytes();
    let pin = needle.as_bytes();
    proof {
        lemma_contains_encoded(haystack@, needle@);
    }
    if pin.len() > hay.len() {
        return false;
    }
    let last: usize = hay.len() - pin.len();
    let mut at: usize = 0;
    while at < last
        invariant
            last + pin@.len() == hay@.len(),
            at <= last,
            forall|j: int| 0 <= j < at ==> !occurs_at(hay@, pin@, j),
            contains(hay@, pin@) <==> contains(haystack@, needle@),
        decreases last - at,
    {
        if bytes_match_at(hay, pin, at) {
            return true;
        }
        at += 1;
    }
    bytes_match_at(hay, pin, last)
}

/// Whether two texts are the same characters in the same order.
pub fn same_text(left: &str, right: &str) -> (same: bool)
    ensures
        same == (left@ == right@),
{
    let a = left.as_bytes();
    let b = right.as_bytes();
    if a.len() != b.len() {
        return false;
    }
    let same = bytes_match_at(a, b, 0);
    proof {
        assert(a@.subrange(0, b@.len() as int) =~= a@);
        if same {
            lemma_encode_injective(left@, right@);
        }
    }
    same
}

/// The number of bytes that the UTF-8 encoding of `text` takes.
pub open spec fn byte_length(text: Seq<char>) -> nat {
    encode_utf8(text).len()
}

/// Splits a text that is not empty into its first character and the rest.
pub fn split_first_char<'a>(text: &'a str) -> (parts: (&'a str, &'a str))
    requires
        text@.len() > 0,
    ensures
        parts.0@ == seq![text@[0]],
        parts.1@ == text@.drop_first(),
{
    let bytes = text.as_bytes();
    let lead = bytes[0];
    let width: usize = if lead < 0x80 {
        1
    } else if lead < 0xE0 {
        2
    } else if lead < 0xF0 {
        3
    } else {
        4
    };
    proof {
        encode_utf8_valid_utf8(text@);
        encode_utf8_first_scalar(text@);
        assert(width == length_of_first_scalar(bytes@));
        assert(is_char_boundary(bytes@, width as int)) by {
            reveal_with_fuel(is_char_boundary, 2);
        }
        is_char_boundary_start_end_of_seq(bytes@);
    }
    let (first, rest) = text.split_at(width);
    proof {
        let one = seq![text@[0]];
        assert(encode_utf8(one) =~= encode_scalar(text@[0] as u32)) by {
            reveal_with_fuel(encode_utf8, 2);
            assert(one.drop_first() =~= Seq::<char>::empty());
        }
        assert(encode_utf8(first@) =~= encode_utf8(one));
        lemma_encode_injective(first@, one);
        assert(encode_utf8(rest@) =~= encode_utf8(text@.drop_first()));
        lemma_encode_injective(rest@, text@.drop_first());
    }
    (first, rest)
}

/// What stands in `text` before the first occurrence of the ASCII character
/// with the byte `byte`; all of `text` where it does not occur.
pub fn before_ascii<'a>(text: &'a str, byte: u8) -> (part: &'a str)
    requires
        byte < 0x80,
    ensures
        part@ == text@.subrange(0, first_index_of(text@, byte as char)),
{
    let bytes = text.as_bytes();
    let at = find_byte(bytes, byte);
    proof {
        let c = byte as char;
        assert(c as u32 == byte);
        lemma_first_ascii_char(text@, c);
        encode_utf8_valid_utf8(text@);
        is_char_boundary_start_end_of_seq(bytes@);
        assert(text@.subrange(0, text@.len() as int) =~= text@);
    }
    if at == bytes.len() {
        return text;
    }
    let part = slice_text(text, 0, at);
    proof {
        lemma_encode_injective(part@, text@.subrange(0, first_index_of(text@, byte as char)));
    }
    part
}

} // verus!

//! How the characters of a text and the bytes of its UTF-8 encoding
//! correspond. The text routines scan bytes and state their results over
//! characters; the lemmas here carry a fact from one side to the other.

use vstd::prelude::*;
use vstd::utf8::*;

verus! {

/// A character of the ASCII range, which UTF-8 encodes as the one byte of
/// the same value.
pub open spec fn is_ascii_char(c: char) -> bool {
    (c as u32) < 0x80
}

/// The encoding of an ASCII character is the single byte of its value; every
/// byte of the encoding of any other character is 0x80 or above.
pub proof fn lemma_encode_scalar_bytes(c: char)
    ensures
        1 <= encode_scalar(c as u32).len() <= 4,
        is_ascii_char(c) ==> encode_scalar(c as u32) == seq![c as u8],
        !is_ascii_char(c) ==> forall|j: int|
            0 <= j < encode_scalar(c as u32).len() ==> #[trigger] encode_scalar(c as u32)[j]
                >= 0x80,
{
    let s = c as u32;
    if has_width_1_encoding(s) {
        assert(leading_byte_width_1(s) == s as u8) by (bit_vector)
            requires
                s <= 0x7F,
        ;
        assert(encode_scalar(s) =~= seq![c as u8]);
    } else {
        assert(0xC0u8 | ((s >> 6) & 0x1F) as u8 >= 0x80) by (bit_vector);
        assert(0xE0u8 | ((s >> 12) & 0x0F) as u8 >= 0x80) by (bit_vector);
        assert(0xF0u8 | ((s >> 18) & 0x7) as u8 >= 0x80) by (bit_vector);
        assert(0x80u8 | (s & 0x3F) as u8 >= 0x80) by (bit_vector);
        assert(0x80u8 | ((s >> 6) & 0x3F) as u8 >= 0x80) by (bit_vector);
        assert(0x80u8 | ((s >> 12) & 0x3F) as u8 >= 0x80) by (bit_vector);
    }
}

/// Encoding distributes over concatenation.
pub proof fn lemma_encode_concat(a: Seq<char>, b: Seq<char>)
    ensures
        encode_utf8(a + b) == encode_utf8(a) + encode_utf8(b),
    decreases a.len(),
{
    if a.len() == 0 {
        assert(a + b =~= b);
        assert(encode_utf8(a) + encode_utf8(b) =~= encode_utf8(b));
    } else {
        let whole = a + b;
        assert(whole.drop_first() =~= a.drop_first() + b);
        lemma_encode_concat(a.drop_first(), b);
        assert(whole[0] == a[0]);
        assert(encode_utf8(whole) =~= encode_utf8(a) + encode_utf8(b));
    }
}

/// Two texts with the same encoding are the same text.
pub proof fn lemma_encode_injective(a: Seq<char>, b: Seq<char>)
    requires
        encode_utf8(a) == encode_utf8(b),
    ensures
        a == b,
{
    encode_utf8_decode_utf8(a);
    encode_utf8_decode_utf8(b);
}

/// An ASCII character of a text shows as its byte somewhere in the encoding.
pub proof fn lemma_ascii_char_in_bytes(chars: Seq<char>, k: int)
    requires
        0 <= k < chars.len(),
        is_ascii_char(chars[k]),
    ensures
        exists|j: int|
            0 <= j < encode_utf8(chars).len() && encode_utf8(chars)[j] == chars[k] as u8,
    decreases chars.len(),
{
    let bytes = encode_utf8(chars);
    let head = encode_scalar(chars[0] as u32);
    let rest = chars.drop_first();
    lemma_encode_scalar_bytes(chars[0]);
    if k == 0 {
        assert(bytes[0] == chars[0] as u8);
    } else {
        assert(rest[k - 1] == chars[k]);
        lemma_ascii_char_in_bytes(rest, k - 1);
        let j = choose|j: int|
            0 <= j < encode_utf8(rest).len() && encode_utf8(rest)[j] == chars[k] as u8;
        assert(bytes[head.len() + j] == encode_utf8(rest)[j]);
    }
}

/// An encoding without the byte of an ASCII character encodes a text without
/// that character.
pub proof fn lemma_no_byte_no_char(chars: Seq<char>, c: char)
    requires
        is_ascii_char(c),
        forall|j: int| 0 <= j < encode_utf8(chars).len() ==> encode_utf8(chars)[j] != c as u8,
    ensures
        forall|k: int| 0 <= k < chars.len() ==> chars[k] != c,
{
    assert forall|k: int| 0 <= k < chars.len() implies chars[k] != c by {
        if chars[k] == c {
            lemma_ascii_char_in_bytes(chars, k);
        }
    }
}

/// A valid encoding splits at any byte below 0x80: the positions before and
/// after it are character boundaries, both sides are valid encodings, and the
/// text is what the left side encodes, the character of that byte, and what
/// the right side encodes.
pub proof fn lemma_split_at_ascii_byte(bytes: Seq<u8>, i: int)
    requires
        valid_utf8(bytes),
        0 <= i < bytes.len(),
        bytes[i] < 0x80,
    ensures
        is_char_boundary(bytes, i),
        is_char_boundary(bytes, i + 1),
        valid_utf8(bytes.subrange(0, i)),
        valid_utf8(bytes.subrange(i + 1, bytes.len() as int)),
        decode_utf8(bytes) == decode_utf8(bytes.subrange(0, i)) + seq![bytes[i] as char]
            + decode_utf8(bytes.subrange(i + 1, bytes.len() as int)),
{
    let n = bytes.len() as int;
    is_char_boundary_iff_not_is_continuation_byte(bytes, i);
    valid_utf8_split(bytes, i);
    decode_utf8_split(bytes, i);
    let tail = bytes.subrange(i, n);
    let after = bytes.subrange(i + 1, n);
    assert(tail[0] == bytes[i]);
    assert(is_leading_byte_width_1(tail[0]));
    assert(pop_first_scalar(tail) =~= after);
    assert(valid_utf8(after));
    let b = bytes[i];
    assert(b & 0x7F == b) by (bit_vector)
        requires
            b < 0x80,
    ;
    assert(decode_first_scalar(tail) == b as u32);
    assert(decode_utf8(tail) =~= seq![b as char] + decode_utf8(after));
    if i + 1 < n {
        assert(after[0] == bytes[i + 1]);
        assert(valid_first_scalar(after));
        is_char_boundary_iff_not_is_continuation_byte(bytes, i + 1);
    } else {
        is_char_boundary_start_end_of_seq(bytes);
    }
}

/// Where the first bytes of a valid encoding are a valid encoding themselves,
/// they end at a character boundary.
pub proof fn lemma_valid_prefix_is_boundary(bytes: Seq<u8>, m: int)
    requires
        valid_utf8(bytes),
        0 <= m <= bytes.len(),
        valid_utf8(bytes.subrange(0, m)),
    ensures
        is_char_boundary(bytes, m),
    decreases bytes.len(),
{
    if m != 0 {
        let prefix = bytes.subrange(0, m);
        assert(prefix[0] == bytes[0]);
        let width = length_of_first_scalar(prefix);
        assert(width == length_of_first_scalar(bytes));
        assert(width <= m);
        assert(pop_first_scalar(prefix) =~= pop_first_scalar(bytes).subrange(0, m - width));
        lemma_valid_prefix_is_boundary(pop_first_scalar(bytes), m - width);
    }
}

/// A text contains another exactly where its encoding contains the
/// encoding of the other: a match between bytes never starts or ends inside
/// a character.
pub proof fn lemma_contains_encoded(haystack: Seq<char>, needle: Seq<char>)
    ensures
        crate::sequences::contains(encode_utf8(haystack), encode_utf8(needle))
            <==> crate::sequences::contains(haystack, needle),
{
    let hb = encode_utf8(haystack);
    let nb = encode_utf8(needle);
    encode_utf8_valid_utf8(haystack);
    encode_utf8_valid_utf8(needle);
    encode_utf8_decode_utf8(haystack);
    encode_utf8_decode_utf8(needle);
    if crate::sequences::contains(haystack, needle) {
        let k = choose|k: int| crate::sequences::occurs_at(haystack, needle, k);
        let before = haystack.subrange(0, k);
        let after = haystack.subrange(k + needle.len(), haystack.len() as int);
        crate::sequences::lemma_occurrence_splits(haystack, needle, k);
        lemma_encode_concat(before + needle, after);
        lemma_encode_concat(before, needle);
        crate::sequences::lemma_contains_middle(encode_utf8(before), nb, encode_utf8(after));
    }
    if crate::sequences::contains(hb, nb) {
        if needle.len() == 0 {
            crate::sequences::lemma_contains_empty(haystack, needle);
        } else {
            let j = choose|j: int| crate::sequences::occurs_at(hb, nb, j);
            let m = nb.len() as int;
            lemma_encode_scalar_bytes(needle[0]);
            assert(m > 0);
            assert(valid_first_scalar(nb));
            assert(hb.subrange(j, j + m)[0] == hb[j]);
            assert(!is_continuation_byte(hb[j]));
            is_char_boundary_iff_not_is_continuation_byte(hb, j);
            valid_utf8_split(hb, j);
            decode_utf8_split(hb, j);
            let tail = hb.subrange(j, hb.len() as int);
            assert(tail.subrange(0, m) =~= nb);
            lemma_valid_prefix_is_boundary(tail, m);
            decode_utf8_split(tail, m);
            let before = decode_utf8(hb.subrange(0, j));
            let after = decode_utf8(tail.subrange(m, tail.len() as int));
            assert(haystack =~= before + needle + after);
            crate::sequences::lemma_contains_middle(before, needle, after);
        }
    }
}

/// The first occurrence of an ASCII character in a text and the first
/// occurrence of its byte in the encoding are the same place: either both are
/// absent, or the byte stands between two character boundaries, with the
/// encoding of what precedes the character before it and the encoding of what
/// follows the character after it.
pub proof fn lemma_first_ascii_char(text: Seq<char>, c: char)
    requires
        is_ascii_char(c),
    ensures
        ({
            let bytes = encode_utf8(text);
            let at = crate::sequences::first_index_of(bytes, c as u8);
            let k = crate::sequences::first_index_of(text, c);
            &&& 0 <= at <= bytes.len()
            &&& 0 <= k <= text.len()
            &&& at == bytes.len() <==> k == text.len()
            &&& at < bytes.len() ==> {
                &&& is_char_boundary(bytes, at)
                &&& is_char_boundary(bytes, at + 1)
                &&& bytes.subrange(0, at) == encode_utf8(text.subrange(0, k))
                &&& bytes.subrange(at + 1, bytes.len() as int) == encode_utf8(
                    text.subrange(k + 1, text.len() as int),
                )
            }
        }),
{
    let bytes = encode_utf8(text);
    let at = crate::sequences::first_index_of(bytes, c as u8);
    let k = crate::sequences::first_index_of(text, c);
    crate::sequences::lemma_first_index_of(bytes, c as u8);
    crate::sequences::lemma_first_index_of(text, c);
    encode_utf8_valid_utf8(text);
    encode_utf8_decode_utf8(text);
    if at == bytes.len() {
        lemma_no_byte_no_char(text, c);
    } else {
        let head = bytes.subrange(0, at);
        let tail = bytes.subrange(at + 1, bytes.len() as int);
        let before = decode_utf8(head);
        let after = decode_utf8(tail);
        lemma_split_at_ascii_byte(bytes, at);
        char_u32_cast(c, c as u32);
        assert(bytes[at] as char == c);
        assert(text == before + seq![c] + after);
        decode_utf8_encode_utf8(head);
        decode_utf8_encode_utf8(tail);
        assert forall|j: int| 0 <= j < encode_utf8(before).len() implies encode_utf8(before)[j]
            != c as u8 by {
            assert(encode_utf8(before)[j] == bytes[j]);
        }
        lemma_no_byte_no_char(before, c);
        assert forall|j: int| 0 <= j < before.len() implies text[j] != c by {
            assert(text[j] == before[j]);
        }
        assert(text[before.len() as int] == c);
        crate::sequences::lemma_first_index_is(text, c, before.len() as int);
        assert(text.subrange(0, k) =~= before);
        assert(text.subrange(k + 1, text.len() as int) =~= after);
    }
}

/// A text ends in an ASCII character exactly where its encoding ends in the
/// byte of that character; the encoding without that byte then encodes the
/// text without that character, and ends at a character boundary.
pub proof fn lemma_last_ascii_char(text: Seq<char>, c: char)
    requires
        is_ascii_char(c),
        text.len() > 0,
    ensures
        encode_utf8(text).len() > 0,
        encode_utf8(text).last() == c as u8 <==> text.last() == c,
        text.last() == c ==> {
            &&& encode_utf8(text).drop_last() == encode_utf8(text.drop_last())
            &&& is_char_boundary(encode_utf8(text), encode_utf8(text).len() - 1)
        },
{
    let bytes = encode_utf8(text);
    let last = seq![text.last()];
    assert(text =~= text.drop_last() + last);
    lemma_encode_concat(text.drop_last(), last);
    lemma_encode_scalar_bytes(text.last());
    assert(encode_utf8(last) =~= encode_scalar(text.last() as u32)) by {
        reveal_with_fuel(encode_utf8, 2);
        assert(last.drop_first() =~= Seq::<char>::empty());
    }
    let width = encode_scalar(text.last() as u32).len() as int;
    assert(bytes.last() == encode_scalar(text.last() as u32)[width - 1]);
    if text.last() == c {
        assert(bytes.drop_last() =~= encode_utf8(text.drop_last()));
        encode_utf8_valid_utf8(text);
        is_char_boundary_iff_not_is_continuation_byte(bytes, bytes.len() - 1);
    } else if is_ascii_char(text.last()) {
        char_u32_cast(c, c as u32);
        char_u32_cast(text.last(), text.last() as u32);
    }
}

} // verus!

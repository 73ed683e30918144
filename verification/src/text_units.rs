//! The three ways to take a text apart: into bytes, into characters, and
//! into the clusters that a reader sees as one letter each.

use crate::text::split_first_char;
use unicode_segmentation::UnicodeSegmentation;
use vstd::prelude::*;
use vstd::string::*;
use vstd::utf8::*;

verus! {

/// The extended grapheme clusters of `text`, as
/// `UnicodeSegmentation::graphemes` gives them.
pub uninterp spec fn graphemes_of(text: Seq<char>) -> Seq<Seq<char>>;

/// Calls `UnicodeSegmentation::graphemes` with `is_extended` set, which
/// iterates over the extended grapheme clusters of the text, and collects
/// them in their order. The result depends on the characters of `text`
/// alone; the contract gives it the name `graphemes_of` and claims nothing
/// else of it.
#[verifier::external_body]
fn grapheme_clusters<'a>(text: &'a str) -> (clusters: Vec<&'a str>)
    ensures
        clusters.deep_view() == graphemes_of(text@),
{
    text.graphemes(true).collect()
}

/// A text taken apart in three ways.
pub struct TextUnits<'a> {
    /// The bytes of the UTF-8 encoding.
    pub bytes: Vec<u8>,
    /// The characters.
    pub scalars: Vec<char>,
    /// The extended grapheme clusters, each a view into the text.
    pub graphemes: Vec<&'a str>,
}

/// The characters of `text`, in their order.
pub fn scalar_values(text: &str) -> (scalars: Vec<char>)
    ensures
        scalars@ == text@,
{
    let mut scalars: Vec<char> = Vec::new();
    let mut rest = text;
    proof {
        assert(scalars@ + rest@ =~= text@);
    }
    while !rest.is_empty()
        invariant
            scalars@ + rest@ == text@,
        decreases rest@.len(),
    {
        let (first, tail) = split_first_char(rest);
        let ghost before = scalars@;
        scalars.push(first.get_char(0));
        proof {
            assert(rest@ =~= seq![rest@[0]] + tail@);
            assert(scalars@ + tail@ =~= before + rest@);
        }
        rest = tail;
    }
    proof {
        assert(scalars@ + rest@ =~= scalars@);
    }
    scalars
}

/// `text` taken apart into bytes, characters and grapheme clusters.
pub fn text_units<'a>(text: &'a str) -> (units: TextUnits<'a>)
    ensures
        units.bytes@ == encode_utf8(text@),
        units.scalars@ == text@,
        units.graphemes.deep_view() == graphemes_of(text@),
{
    TextUnits {
        bytes: text.as_bytes_vec(),
        scalars: scalar_values(text),
        graphemes: grapheme_clusters(text),
    }
}

} // verus!

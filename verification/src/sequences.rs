//! Facts about mathematical sequences that the text routines share.

use vstd::prelude::*;

verus! {

/// The position of the first element of `s` equal to `x`, or `s.len()` where
/// `x` does not occur.
pub open spec fn first_index_of<T>(s: Seq<T>, x: T) -> int
    decreases s.len(),
{
    if s.len() == 0 || s[0] == x {
        0
    } else {
        1 + first_index_of(s.drop_first(), x)
    }
}

/// `first_index_of` lies within `0..=s.len()`, nothing before it equals `x`,
/// and where it is an index of `s`, the element there is `x`.
pub proof fn lemma_first_index_of<T>(s: Seq<T>, x: T)
    ensures
        0 <= first_index_of(s, x) <= s.len(),
        forall|j: int| 0 <= j < first_index_of(s, x) ==> s[j] != x,
        first_index_of(s, x) < s.len() ==> s[first_index_of(s, x)] == x,
    decreases s.len(),
{
    if s.len() == 0 || s[0] == x {
    } else {
        let rest = s.drop_first();
        lemma_first_index_of(rest, x);
        assert forall|j: int| 0 <= j < first_index_of(s, x) implies s[j] != x by {
            if j > 0 {
                assert(s[j] == rest[j - 1]);
            }
        }
    }
}

/// A position within `0..=s.len()` before which nothing equals `x`, and which
/// holds `x` where it is an index of `s`, is the first index.
pub proof fn lemma_first_index_is<T>(s: Seq<T>, x: T, k: int)
    requires
        0 <= k <= s.len(),
        forall|j: int| 0 <= j < k ==> s[j] != x,
        k < s.len() ==> s[k] == x,
    ensures
        first_index_of(s, x) == k,
    decreases s.len(),
{
    if s.len() == 0 || s[0] == x {
    } else {
        let rest = s.drop_first();
        assert forall|j: int| 0 <= j < k - 1 implies rest[j] != x by {
            assert(rest[j] == s[j + 1]);
        }
        lemma_first_index_is(rest, x, k - 1);
    }
}

/// `needle` stands in `haystack` at position `i`.
pub open spec fn occurs_at<T>(haystack: Seq<T>, needle: Seq<T>, i: int) -> bool {
    &&& 0 <= i
    &&& i + needle.len() <= haystack.len()
    &&& haystack.subrange(i, i + needle.len()) == needle
}

/// `needle` is a contiguous part of `haystack`. The empty sequence is a part
/// of every sequence.
pub open spec fn contains<T>(haystack: Seq<T>, needle: Seq<T>) -> bool {
    exists|i: int| occurs_at(haystack, needle, i)
}

/// Every sequence contains the empty sequence.
pub proof fn lemma_contains_empty<T>(haystack: Seq<T>, needle: Seq<T>)
    requires
        needle.len() == 0,
    ensures
        contains(haystack, needle),
{
    assert(haystack.subrange(0, 0) =~= needle);
    assert(occurs_at(haystack, needle, 0));
}

/// A sequence put together from three parts contains the middle one.
pub proof fn lemma_contains_middle<T>(before: Seq<T>, middle: Seq<T>, after: Seq<T>)
    ensures
        occurs_at(before + middle + after, middle, before.len() as int),
        contains(before + middle + after, middle),
{
    let whole = before + middle + after;
    assert(whole.subrange(before.len() as int, (before.len() + middle.len()) as int) =~= middle);
    assert(occurs_at(whole, middle, before.len() as int));
}

/// A sequence that contains `needle` at `i` is the part before it, `needle`
/// and the part after it.
pub proof fn lemma_occurrence_splits<T>(haystack: Seq<T>, needle: Seq<T>, i: int)
    requires
        occurs_at(haystack, needle, i),
    ensures
        haystack == haystack.subrange(0, i) + needle + haystack.subrange(
            i + needle.len(),
            haystack.len() as int,
        ),
{
    assert(haystack =~= haystack.subrange(0, i) + haystack.subrange(i, i + needle.len())
        + haystack.subrange(i + needle.len(), haystack.len() as int));
}

/// `part` can be had from `whole` by leaving elements out: its elements
/// stand in `whole`, in the same order.
pub open spec fn is_subsequence<T>(part: Seq<T>, whole: Seq<T>) -> bool
    decreases whole.len(),
{
    if part.len() == 0 {
        true
    } else if whole.len() == 0 {
        false
    } else if part.last() == whole.last() {
        is_subsequence(part.drop_last(), whole.drop_last())
    } else {
        is_subsequence(part, whole.drop_last())
    }
}

/// A subsequence stays one when its last element leaves.
pub proof fn lemma_subsequence_drop_last<T>(part: Seq<T>, whole: Seq<T>)
    requires
        is_subsequence(part, whole),
        part.len() > 0,
    ensures
        is_subsequence(part.drop_last(), whole),
    decreases whole.len(),
{
    let shorter = part.drop_last();
    let fewer = whole.drop_last();
    if shorter.len() > 0 {
        if part.last() != whole.last() {
            lemma_subsequence_drop_last(part, fewer);
        }
        assert(is_subsequence(shorter, fewer));
        if shorter.last() == whole.last() {
            lemma_subsequence_drop_last(shorter, fewer);
        }
    }
}

/// A subsequence stays one when `whole` gains an element at its end.
pub proof fn lemma_subsequence_push<T>(part: Seq<T>, whole: Seq<T>, extra: T)
    requires
        is_subsequence(part, whole),
    ensures
        is_subsequence(part, whole.push(extra)),
{
    let longer = whole.push(extra);
    assert(longer.drop_last() =~= whole);
    assert(longer.last() == extra);
    if part.len() > 0 && part.last() == extra {
        lemma_subsequence_drop_last(part, whole);
    }
}

/// A subsequence is no longer than the sequence it is taken from.
pub proof fn lemma_subsequence_len<T>(part: Seq<T>, whole: Seq<T>)
    requires
        is_subsequence(part, whole),
    ensures
        part.len() <= whole.len(),
    decreases whole.len(),
{
    if part.len() > 0 {
        if part.last() == whole.last() {
            lemma_subsequence_len(part.drop_last(), whole.drop_last());
        } else {
            lemma_subsequence_len(part, whole.drop_last());
        }
    }
}

/// Every element of a subsequence is an element of the sequence it is taken
/// from.
pub proof fn lemma_subsequence_elements<T>(part: Seq<T>, whole: Seq<T>, i: int)
    requires
        is_subsequence(part, whole),
        0 <= i < part.len(),
    ensures
        whole.contains(part[i]),
    decreases whole.len(),
{
    let shorter = whole.drop_last();
    if part.last() == whole.last() {
        if i == part.len() - 1 {
            assert(whole[whole.len() - 1] == part[i]);
        } else {
            lemma_subsequence_elements(part.drop_last(), shorter, i);
            let j = choose|j: int| 0 <= j < shorter.len() && shorter[j] == part.drop_last()[i];
            assert(whole[j] == part[i]);
        }
    } else {
        lemma_subsequence_elements(part, shorter, i);
        let j = choose|j: int| 0 <= j < shorter.len() && shorter[j] == part[i];
        assert(whole[j] == part[i]);
    }
}

/// A filter that every element passes keeps the sequence as it is.
pub proof fn lemma_filter_all<T>(s: Seq<T>, pred: spec_fn(T) -> bool)
    requires
        forall|i: int| 0 <= i < s.len() ==> pred(s[i]),
    ensures
        s.filter(pred) == s,
    decreases s.len(),
{
    reveal(Seq::filter);
    if s.len() > 0 {
        let shorter = s.drop_last();
        assert forall|i: int| 0 <= i < shorter.len() implies pred(shorter[i]) by {
            assert(shorter[i] == s[i]);
        }
        lemma_filter_all(shorter, pred);
        assert(shorter.push(s.last()) =~= s);
    }
}

/// Where every element that passes `strong` passes `weak`, what `strong`
/// keeps is a subsequence of what `weak` keeps.
pub proof fn lemma_filter_monotone<T>(
    s: Seq<T>,
    strong: spec_fn(T) -> bool,
    weak: spec_fn(T) -> bool,
)
    requires
        forall|i: int| 0 <= i < s.len() && strong(s[i]) ==> weak(s[i]),
    ensures
        is_subsequence(s.filter(strong), s.filter(weak)),
        s.filter(strong).len() <= s.filter(weak).len(),
    decreases s.len(),
{
    reveal(Seq::filter);
    if s.len() > 0 {
        let shorter = s.drop_last();
        let x = s.last();
        assert forall|i: int| 0 <= i < shorter.len() && strong(shorter[i]) implies weak(
            shorter[i],
        ) by {
            assert(shorter[i] == s[i]);
        }
        lemma_filter_monotone(shorter, strong, weak);
        let kept_strong = shorter.filter(strong);
        let kept_weak = shorter.filter(weak);
        assert(strong(x) ==> weak(x)) by {
            assert(x == s[s.len() - 1]);
        }
        if strong(x) {
            assert(kept_strong.push(x).drop_last() =~= kept_strong);
            assert(kept_weak.push(x).drop_last() =~= kept_weak);
        } else if weak(x) {
            lemma_subsequence_push(kept_strong, kept_weak, x);
        }
    }
    lemma_subsequence_len(s.filter(strong), s.filter(weak));
}

/// What a filter keeps is a subsequence of what it was given.
pub proof fn lemma_filter_is_subsequence<T>(s: Seq<T>, pred: spec_fn(T) -> bool)
    ensures
        is_subsequence(s.filter(pred), s),
{
    let all = |x: T| true;
    lemma_filter_monotone(s, pred, all);
    lemma_filter_all(s, all);
}

} // verus!

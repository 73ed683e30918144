//! The mode of a list of numbers.

use std::collections::HashMap;
use vstd::prelude::*;
use vstd::std_specs::hash::*;

verus! {

broadcast use group_hash_axioms;

/// How often `value` occurs in `list`.
pub open spec fn occurrences(list: Seq<i32>, value: i32) -> nat
    decreases list.len(),
{
    if list.len() == 0 {
        0
    } else {
        occurrences(list.drop_last(), value) + if list.last() == value {
            1nat
        } else {
            0nat
        }
    }
}

/// A value occurs at most as often as the list is long, and a value that
/// occurs stands at some position.
pub proof fn lemma_occurrences(list: Seq<i32>, value: i32)
    ensures
        occurrences(list, value) <= list.len(),
        occurrences(list, value) > 0 <==> list.contains(value),
    decreases list.len(),
{
    if list.len() > 0 {
        let shorter = list.drop_last();
        lemma_occurrences(shorter, value);
        if list.last() == value {
            assert(list[list.len() - 1] == value);
        } else if shorter.contains(value) {
            let j = choose|j: int| 0 <= j < shorter.len() && shorter[j] == value;
            assert(list[j] == value);
        } else if list.contains(value) {
            let j = choose|j: int| 0 <= j < list.len() && list[j] == value;
            assert(shorter[j] == value);
        }
    }
}

/// `value` is a mode of `list`: it occurs there, and nothing occurs more
/// often.
pub open spec fn is_mode(list: Seq<i32>, value: i32) -> bool {
    &&& list.contains(value)
    &&& forall|other: i32| occurrences(list, other) <= occurrences(list, value)
}

/// How often each number of `list` occurs: the numbers that occur are the
/// keys, and each key's value is the number of its occurrences.
pub fn count_occurrences(list: &Vec<i32>) -> (counts: HashMap<i32, usize>)
    ensures
        forall|value: i32| counts@.contains_key(value) <==> list@.contains(value),
        forall|value: i32|
            counts@.contains_key(value) ==> counts@[value] == occurrences(list@, value),
{
    let mut counts: HashMap<i32, usize> = HashMap::new();
    let mut at: usize = 0;
    proof {
        assert(list@.subrange(0, 0) =~= Seq::<i32>::empty());
    }
    while at < list.len()
        invariant
            at <= list@.len(),
            forall|value: i32|
                counts@.contains_key(value) <==> occurrences(list@.subrange(0, at as int), value)
                    > 0,
            forall|value: i32|
                counts@.contains_key(value) ==> counts@[value] == occurrences(
                    list@.subrange(0, at as int),
                    value,
                ),
        decreases list@.len() - at,
    {
        let num = list[at];
        let ghost seen = list@.subrange(0, at as int);
        let ghost longer = list@.subrange(0, at + 1);
        proof {
            assert(longer.drop_last() =~= seen);
            assert(longer.last() == num);
            lemma_occurrences(longer, num);
        }
        let so_far: usize = match counts.get(&num) {
            Some(count) => *count,
            None => 0,
        };
        counts.insert(num, so_far + 1);
        at += 1;
    }
    proof {
        assert(list@.subrange(0, at as int) =~= list@);
        assert forall|value: i32| counts@.contains_key(value) <==> list@.contains(value) by {
            lemma_occurrences(list@, value);
        }
    }
    counts
}

/// A mode of a list that is not empty. Where several numbers occur most
/// often, it is one of them.
pub fn calc_mode(my_vec: &Vec<i32>) -> (mode: i32)
    requires
        my_vec@.len() > 0,
    ensures
        is_mode(my_vec@, mode),
{
    let num_counts = count_occurrences(my_vec);
    let mut mode = my_vec[0];
    let mut most: usize = 0;
    let mut at: usize = 0;
    while at < my_vec.len()
        invariant
            at <= my_vec@.len(),
            my_vec@.len() > 0,
            my_vec@.contains(mode),
            at == 0 ==> most == 0,
            at > 0 ==> most == occurrences(my_vec@, mode),
            forall|j: int| 0 <= j < at ==> occurrences(my_vec@, my_vec@[j]) <= most,
            forall|value: i32| num_counts@.contains_key(value) <==> my_vec@.contains(value),
            forall|value: i32|
                num_counts@.contains_key(value) ==> num_counts@[value] == occurrences(
                    my_vec@,
                    value,
                ),
        decreases my_vec@.len() - at,
    {
        let num = my_vec[at];
        proof {
            assert(my_vec@.contains(num));
            lemma_occurrences(my_vec@, num);
        }
        let count: usize = match num_counts.get(&num) {
            Some(count) => *count,
            None => 0,
        };
        if count > most {
            mode = num;
            most = count;
        }
        at += 1;
    }
    proof {
        assert forall|other: i32| occurrences(my_vec@, other) <= occurrences(my_vec@, mode) by {
            lemma_occurrences(my_vec@, other);
            if my_vec@.contains(other) {
                let j = choose|j: int| 0 <= j < my_vec@.len() && my_vec@[j] == other;
                assert(occurrences(my_vec@, my_vec@[j]) <= most);
            }
        }
    }
    mode
}

} // verus!

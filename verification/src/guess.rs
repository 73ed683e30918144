//! A guess in a number game: a number from 1 to 100.

use vstd::prelude::*;

verus! {

/// A number that is known to lie between 1 and 100.
pub struct Guess {
    value: i32,
}

impl Guess {
    /// What every `Guess` satisfies.
    #[verifier::type_invariant]
    pub closed spec fn in_range(&self) -> bool {
        1 <= self.value <= 100
    }

    /// The number held, as contracts see it.
    pub closed spec fn spec_value(&self) -> i32 {
        self.value
    }

    /// Whether `value` can be held by a `Guess`.
    pub open spec fn accepts(value: i32) -> bool {
        1 <= value <= 100
    }

    /// A guess of `value`, which must lie between 1 and 100.
    pub fn new(value: i32) -> (guess: Guess)
        requires
            Guess::accepts(value),
        ensures
            guess.spec_value() == value,
    {
        Guess { value }
    }

    /// A guess of `value` where it lies between 1 and 100, nothing
    /// otherwise.
    pub fn checked(value: i32) -> (guess: Option<Guess>)
        ensures
            guess is Some <==> Guess::accepts(value),
            guess matches Some(made) ==> made.spec_value() == value,
    {
        if value < 1 || value > 100 {
            None
        } else {
            Some(Guess::new(value))
        }
    }

    /// The number held, which lies between 1 and 100.
    pub fn value(&self) -> (value: i32)
        ensures
            value == self.spec_value(),
            Guess::accepts(value),
    {
        proof {
            use_type_invariant(self);
        }
        self.value
    }
}

} // verus!

//! A stock of shirts in two colours, and which one is given away.

use vstd::prelude::*;

verus! {

/// The colour of a shirt.
#[derive(Debug, PartialEq, Eq, Structural, Copy, Clone)]
pub enum ShirtColor {
    Red,
    Blue,
}

/// The shirts in stock.
pub struct Inventory {
    pub shirts: Vec<ShirtColor>,
}

/// How many shirts of `shirts` have the colour `color`.
pub open spec fn count_of(shirts: Seq<ShirtColor>, color: ShirtColor) -> nat
    decreases shirts.len(),
{
    if shirts.len() == 0 {
        0
    } else {
        count_of(shirts.drop_last(), color) + if shirts.last() == color {
            1nat
        } else {
            0nat
        }
    }
}

/// No colour has more shirts than there are shirts.
pub proof fn lemma_count_of_bound(shirts: Seq<ShirtColor>, color: ShirtColor)
    ensures
        count_of(shirts, color) <= shirts.len(),
    decreases shirts.len(),
{
    if shirts.len() > 0 {
        lemma_count_of_bound(shirts.drop_last(), color);
    }
}

/// Every shirt is red or blue.
pub proof fn law_every_shirt_is_counted(shirts: Seq<ShirtColor>)
    ensures
        count_of(shirts, ShirtColor::Red) + count_of(shirts, ShirtColor::Blue) == shirts.len(),
    decreases shirts.len(),
{
    if shirts.len() > 0 {
        law_every_shirt_is_counted(shirts.drop_last());
    }
}

impl Inventory {
    /// The colour that the stock holds most of: red where there are more red
    /// shirts than blue ones, else blue.
    pub open spec fn spec_most_stocked(&self) -> ShirtColor {
        if count_of(self.shirts@, ShirtColor::Red) > count_of(self.shirts@, ShirtColor::Blue) {
            ShirtColor::Red
        } else {
            ShirtColor::Blue
        }
    }

    /// The colour given away: the one that the user prefers, or, without a
    /// preference, the one that the stock holds most of.
    pub fn giveaway(&self, user_preference: Option<ShirtColor>) -> (given: ShirtColor)
        ensures
            given == match user_preference {
                Some(color) => color,
                None => self.spec_most_stocked(),
            },
    {
        match user_preference {
            Some(color) => color,
            None => self.most_stocked(),
        }
    }

    /// The colour that the stock holds most of.
    pub fn most_stocked(&self) -> (color: ShirtColor)
        ensures
            color == self.spec_most_stocked(),
    {
        let mut num_red: usize = 0;
        let mut num_blue: usize = 0;
        let mut at: usize = 0;
        while at < self.shirts.len()
            invariant
                at <= self.shirts@.len(),
                num_red == count_of(self.shirts@.subrange(0, at as int), ShirtColor::Red),
                num_blue == count_of(self.shirts@.subrange(0, at as int), ShirtColor::Blue),
            decreases self.shirts@.len() - at,
        {
            proof {
                let seen = self.shirts@.subrange(0, at + 1);
                assert(seen.drop_last() =~= self.shirts@.subrange(0, at as int));
                assert(seen.last() == self.shirts@[at as int]);
                lemma_count_of_bound(seen, ShirtColor::Red);
                lemma_count_of_bound(seen, ShirtColor::Blue);
            }
            match self.shirts[at] {
                ShirtColor::Red => {
                    num_red += 1;
                },
                ShirtColor::Blue => {
                    num_blue += 1;
                },
            }
            at += 1;
        }
        proof {
            assert(self.shirts@.subrange(0, at as int) =~= self.shirts@);
        }
        if num_red > num_blue {
            ShirtColor::Red
        } else {
            ShirtColor::Blue
        }
    }
}

} // verus!

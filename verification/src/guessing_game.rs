//! A number game: the player guesses a secret number from 1 to 100 and is
//! told after each guess whether it was too small, too big or right. The
//! game decides; reading the guesses and showing the answers is left to the
//! caller.

use crate::parse::{parse_u32, parse_u32_of};
use rand::Rng;
use vstd::prelude::*;

verus! {

/// How a guess stands to the secret number.
#[derive(Debug, PartialEq, Eq, Structural, Clone, Copy)]
pub enum Verdict {
    TooSmall,
    TooBig,
    Win,
}

/// The colour in which an answer is shown.
#[derive(Debug, PartialEq, Eq, Structural, Clone, Copy)]
pub enum Tint {
    Red,
    Green,
}

/// What became of a line that the player typed.
#[derive(Debug, PartialEq, Eq, Structural, Clone, Copy)]
pub enum Turn {
    /// The line is no number: the player is asked again, without an answer.
    NotANumber,
    /// The line is the number `guess`, to which `verdict` is the answer.
    Guessed { guess: u32, verdict: Verdict },
}

/// How `guess` stands to `secret`.
pub open spec fn verdict_of(guess: u32, secret: u32) -> Verdict {
    if guess < secret {
        Verdict::TooSmall
    } else if guess > secret {
        Verdict::TooBig
    } else {
        Verdict::Win
    }
}

/// What becomes of a line in which `guess` was read, for the secret number
/// `secret`.
pub open spec fn turn_of(secret: u32, guess: Option<u32>) -> Turn {
    match guess {
        Some(guess) => Turn::Guessed { guess, verdict: verdict_of(guess, secret) },
        None => Turn::NotANumber,
    }
}

/// `text` without the whitespace at its start and at its end, as `str::trim`
/// gives it.
pub uninterp spec fn trim_of(text: Seq<char>) -> Seq<char>;

/// Calls `str::trim`, which returns the slice without leading and trailing
/// whitespace. The result depends on the characters of `text` alone; the
/// contract gives it the name `trim_of` and claims nothing else of it.
#[verifier::external_body]
fn trimmed<'a>(text: &'a str) -> (inner: &'a str)
    ensures
        inner@ == trim_of(text@),
{
    text.trim()
}

/// Calls `rand::thread_rng` and, on the generator it returns,
/// `Rng::gen_range` with the range from 1 up to, but without, 101. The
/// result is a number of that range; which one is left to chance, so two
/// calls may differ. `thread_rng` depends on the system's source of
/// randomness and does not return without it.
#[verifier::external_body]
fn random_secret() -> (secret: u32)
    ensures
        1 <= secret <= 100,
{
    rand::thread_rng().gen_range(1..101)
}

impl Verdict {
    /// What the player is told.
    pub fn message(&self) -> (text: &'static str)
        ensures
            text@ == match self {
                Verdict::TooSmall => "Too small!"@,
                Verdict::TooBig => "Too big!"@,
                Verdict::Win => "You win!"@,
            },
    {
        match self {
            Verdict::TooSmall => "Too small!",
            Verdict::TooBig => "Too big!",
            Verdict::Win => "You win!",
        }
    }

    /// The colour of the answer: green for the right guess, red for a wrong
    /// one.
    pub fn tint(&self) -> (tint: Tint)
        ensures
            tint == if self == Verdict::Win {
                Tint::Green
            } else {
                Tint::Red
            },
    {
        match self {
            Verdict::Win => Tint::Green,
            _ => Tint::Red,
        }
    }

    /// Whether the game is over: it is once the guess was right.
    pub fn ends_game(&self) -> (over: bool)
        ensures
            over == (self == Verdict::Win),
    {
        match self {
            Verdict::Win => true,
            _ => false,
        }
    }
}

/// A game in progress, which holds the secret number.
pub struct Game {
    secret: u32,
}

impl Game {
    /// What every game satisfies: its secret number lies between 1 and 100.
    #[verifier::type_invariant]
    pub closed spec fn in_range(&self) -> bool {
        1 <= self.secret <= 100
    }

    /// The secret number, as contracts see it.
    pub closed spec fn spec_secret(&self) -> u32 {
        self.secret
    }

    /// A new game with a secret number left to chance.
    pub fn start() -> (game: Game)
        ensures
            1 <= game.spec_secret() <= 100,
    {
        Game { secret: random_secret() }
    }

    /// A game with the secret number `secret`, where that lies between 1 and
    /// 100; no game otherwise.
    pub fn with_secret(secret: u32) -> (game: Option<Game>)
        ensures
            game is Some <==> 1 <= secret <= 100,
            game matches Some(made) ==> made.spec_secret() == secret,
    {
        if 1 <= secret && secret <= 100 {
            Some(Game { secret })
        } else {
            None
        }
    }

    /// The secret number, which lies between 1 and 100.
    pub fn secret(&self) -> (secret: u32)
        ensures
            secret == self.spec_secret(),
            1 <= secret <= 100,
    {
        proof {
            use_type_invariant(self);
        }
        self.secret
    }

    /// How `guess` stands to the secret number.
    pub fn judge(&self, guess: u32) -> (verdict: Verdict)
        ensures
            verdict == verdict_of(guess, self.spec_secret()),
    {
        if guess < self.secret {
            Verdict::TooSmall
        } else if guess > self.secret {
            Verdict::TooBig
        } else {
            Verdict::Win
        }
    }

    /// What becomes of a line in which `guess` was read.
    pub fn turn_for(&self, guess: Option<u32>) -> (turn: Turn)
        ensures
            turn == turn_of(self.spec_secret(), guess),
    {
        match guess {
            Some(guess) => Turn::Guessed { guess, verdict: self.judge(guess) },
            None => Turn::NotANumber,
        }
    }

    /// What becomes of the line `input`: the number read is what the line
    /// writes between the whitespace at its two ends.
    pub fn take_turn(&self, input: &str) -> (turn: Turn)
        ensures
            turn == turn_of(self.spec_secret(), parse_u32_of(trim_of(input@))),
    {
        self.turn_for(parse_u32(trimmed(input)))
    }
}

/// Exactly one answer ends the game, and it is the answer to the secret
/// number itself.
pub proof fn law_only_the_secret_wins(guess: u32, secret: u32)
    ensures
        verdict_of(guess, secret) == Verdict::Win <==> guess == secret,
{
}

} // verus!

//! A number guessing game, one turn at a time.
//!
//! The game draws a secret number and judges each line that the player
//! enters. It reads and prints nothing itself: whoever runs it hands every
//! line to [`Game::judge`] and tells the player what came back, until the
//! reply is [`Reply::Correct`].

use crate::text::parse_u32;
use crate::text::parsed_u32;
use crate::text::trim;
use crate::text::trimmed;
use rand::Rng;
use vstd::prelude::*;

verus! {

/// The lowest number that can be the secret.
pub const LOWEST_SECRET: u32 = 1;

/// The highest number that can be the secret.
pub const HIGHEST_SECRET: u32 = 100;

/// What the player is told about one line of input.
#[derive(PartialEq, Eq, Structural, Clone, Copy, Debug)]
pub enum Reply {
    /// The line is no number: it does not count, and the player is asked
    /// again.
    Unreadable,
    /// The guess is below the secret: guess higher.
    Higher,
    /// The guess is above the secret: guess lower.
    Lower,
    /// The guess is the secret: the game is over.
    Correct,
}

/// The reply to `line` in a game whose secret is `secret`. The line is
/// trimmed of white space and read as a `u32` in decimal.
pub open spec fn reply_to(secret: u32, line: Seq<char>) -> Reply {
    match parsed_u32(trimmed(line)) {
        None => Reply::Unreadable,
        Some(guess) => if guess < secret {
            Reply::Higher
        } else if guess > secret {
            Reply::Lower
        } else {
            Reply::Correct
        },
    }
}

/// Draws a number from `low` up to, and not including, `high`: it calls
/// `Rng::gen_range(low, high)` of the `rand` crate on the generator that
/// `rand::thread_rng()` hands out.
///
/// Believed, not proved: the number drawn lies in that range. Which number
/// it is depends on chance, so nothing more is said of it. `gen_range` panics
/// where `low >= high`, which the precondition rules out; `thread_rng`
/// panics where the system gives it no seed, which no argument can prevent.
#[verifier::external_body]
fn random_in_range(low: u32, high: u32) -> (drawn: u32)
    requires
        low < high,
    ensures
        low <= drawn < high,
{
    rand::thread_rng().gen_range(low, high)
}

/// A game in progress: it knows the secret and nothing else.
pub struct Game {
    secret: u32,
}

impl Game {
    /// The number to be guessed.
    pub closed spec fn secret(&self) -> u32 {
        self.secret
    }

    /// The secret lies between [`LOWEST_SECRET`] and [`HIGHEST_SECRET`].
    pub open spec fn wf(&self) -> bool {
        LOWEST_SECRET <= self.secret() <= HIGHEST_SECRET
    }

    /// Starts a game with a secret drawn at random.
    pub fn new() -> (game: Game)
        ensures
            game.wf(),
    {
        Game { secret: random_in_range(LOWEST_SECRET, HIGHEST_SECRET + 1) }
    }

    /// Starts a game with a secret that the caller has chosen; `None` where
    /// the number is not one that can be drawn.
    pub fn with_secret(secret: u32) -> (game: Option<Game>)
        ensures
            game matches Some(started) ==> started.wf() && started.secret() == secret,
            game is Some <==> LOWEST_SECRET <= secret <= HIGHEST_SECRET,
    {
        if LOWEST_SECRET <= secret && secret <= HIGHEST_SECRET {
            Some(Game { secret })
        } else {
            None
        }
    }

    /// Judges one line of input. The game itself never changes: it goes on
    /// until a line is judged [`Reply::Correct`].
    pub fn judge(&self, line: &str) -> (reply: Reply)
        ensures
            reply == reply_to(self.secret(), line@),
    {
        match parse_u32(trim(line)) {
            None => Reply::Unreadable,
            Some(guess) => if guess < self.secret {
                Reply::Higher
            } else if guess > self.secret {
                Reply::Lower
            } else {
                Reply::Correct
            },
        }
    }
}

} // verus!

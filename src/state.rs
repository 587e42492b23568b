use crate::suspect::Suspect;
use vstd::prelude::*;

verus! {

/// The flip budget of a new game.
pub const STARTING_COIN_FLIPS: i32 = 100;

/// Flips added to the budget for a right guess.
pub const RIGHT_GUESS_REWARD: i32 = 15;

/// Flips taken from the budget for a wrong guess.
pub const WRONG_GUESS_PENALTY: i32 = 30;

/// What lasts for the whole game: the flip budget and the running statistics.
#[derive(Debug, Clone, Copy, PartialEq, Eq, Structural)]
pub struct PermanentState {
    pub remaining_coin_flips: i32,
    pub score: i32,
    pub incorrect_guesses_so_far: i32,
    pub correct_guesses_so_far: i32,
    pub amount_of_cheating_suspects_so_far: i32,
    pub amount_of_honest_suspects_so_far: i32,
}

/// What lasts for one round: how many heads and tails were flipped in it.
#[derive(Debug, Clone, Copy, PartialEq, Eq, Structural)]
pub struct RoundState {
    pub amount_of_heads_flipped: i32,
    pub amount_of_tails_flipped: i32,
}

/// A move that a strategy makes in a round.
#[derive(Debug, Clone, Copy, PartialEq, Eq, Structural)]
pub enum ValidMove {
    /// Ends the round with a guess of the suspect, bias included.
    Guess(Suspect),
    /// Flips the suspect's coin this many times.
    Flip(i32),
    /// No decision yet: the strategy is asked again.
    TryAgain,
}

impl PermanentState {
    /// The state at the start of a game: the starting budget and no statistics.
    pub fn new() -> (r: PermanentState)
        ensures
            r.remaining_coin_flips == STARTING_COIN_FLIPS,
            r.score == 0,
            r.incorrect_guesses_so_far == 0,
            r.correct_guesses_so_far == 0,
            r.amount_of_cheating_suspects_so_far == 0,
            r.amount_of_honest_suspects_so_far == 0,
    {
        PermanentState {
            remaining_coin_flips: STARTING_COIN_FLIPS,
            score: 0,
            incorrect_guesses_so_far: 0,
            correct_guesses_so_far: 0,
            amount_of_cheating_suspects_so_far: 0,
            amount_of_honest_suspects_so_far: 0,
        }
    }

    /// Whether a guess can be scored without any counter leaving `i32`.
    pub open spec fn guess_fits(self) -> bool {
        &&& i32::MIN + WRONG_GUESS_PENALTY <= self.remaining_coin_flips
        &&& self.remaining_coin_flips <= i32::MAX - RIGHT_GUESS_REWARD
        &&& self.score < i32::MAX
        &&& self.incorrect_guesses_so_far < i32::MAX
        &&& self.correct_guesses_so_far < i32::MAX
        &&& self.amount_of_cheating_suspects_so_far < i32::MAX
        &&& self.amount_of_honest_suspects_so_far < i32::MAX
    }
}

impl RoundState {
    /// The state at the start of a round: nothing flipped.
    pub fn new() -> (r: RoundState)
        ensures
            r.amount_of_heads_flipped == 0,
            r.amount_of_tails_flipped == 0,
    {
        RoundState { amount_of_heads_flipped: 0, amount_of_tails_flipped: 0 }
    }

    /// The number of flips made this round, heads and tails together.
    pub open spec fn flips(self) -> int {
        self.amount_of_heads_flipped + self.amount_of_tails_flipped
    }

    /// The number of flips made this round, heads and tails together.
    pub fn total_flips(&self) -> (r: i32)
        requires
            i32::MIN <= self.flips() <= i32::MAX,
        ensures
            r == self.flips(),
    {
        self.amount_of_heads_flipped + self.amount_of_tails_flipped
    }
}

} // verus!

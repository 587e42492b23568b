use crate::state::{
    PermanentState, RoundState, ValidMove, RIGHT_GUESS_REWARD, WRONG_GUESS_PENALTY,
};
use crate::suspect::{CoinFlip, Suspect};
use vstd::prelude::*;

verus! {

/// No move of the round so far is a guess: the round is still being played.
pub open spec fn round_open(moves: Seq<ValidMove>) -> bool {
    forall|i: int| 0 <= i < moves.len() ==> !(#[trigger] moves[i] is Guess)
}

/// The round is over: its last move is its only guess.
pub open spec fn round_closed(moves: Seq<ValidMove>) -> bool {
    &&& moves.len() > 0
    &&& moves.last() is Guess
    &&& round_open(moves.drop_last())
}

/// A new round's empty move list is open, and a closed move list holds
/// exactly one guess, its last move, every move before it being a flip or a
/// `TryAgain`.
pub proof fn lemma_round_log(moves: Seq<ValidMove>)
    ensures
        round_open(Seq::<ValidMove>::empty()),
        round_closed(moves) ==> {
            &&& moves.last() is Guess
            &&& forall|i: int|
                0 <= i < moves.len() - 1 ==> (#[trigger] moves[i] is Flip || moves[i] is TryAgain)
            &&& forall|i: int| 0 <= i < moves.len() && #[trigger] moves[i] is Guess ==> i
                == moves.len() - 1
        },
{
    if round_closed(moves) {
        assert forall|i: int| 0 <= i < moves.len() - 1 implies (#[trigger] moves[i] is Flip
            || moves[i] is TryAgain) by {
            assert(moves.drop_last()[i] == moves[i]);
        }
        assert forall|i: int| 0 <= i < moves.len() && #[trigger] moves[i] is Guess implies i
            == moves.len() - 1 by {
            if i < moves.len() - 1 {
                assert(moves.drop_last()[i] == moves[i]);
            }
        }
    }
}

/// Every round of a game's move history ended with its only guess.
pub open spec fn history_closed(history: Seq<Vec<ValidMove>>) -> bool {
    forall|i: int| 0 <= i < history.len() ==> round_closed(#[trigger] history[i]@)
}

/// The game state after a guess `guess` of the suspect `suspect` is scored.
pub open spec fn scored(p: PermanentState, suspect: Suspect, guess: Suspect) -> PermanentState {
    let right = guess == suspect;
    PermanentState {
        remaining_coin_flips: if right {
            (p.remaining_coin_flips + RIGHT_GUESS_REWARD) as i32
        } else {
            (p.remaining_coin_flips - WRONG_GUESS_PENALTY) as i32
        },
        score: (p.score + 1) as i32,
        incorrect_guesses_so_far: if right {
            p.incorrect_guesses_so_far
        } else {
            (p.incorrect_guesses_so_far + 1) as i32
        },
        correct_guesses_so_far: if right {
            (p.correct_guesses_so_far + 1) as i32
        } else {
            p.correct_guesses_so_far
        },
        amount_of_cheating_suspects_so_far: if suspect is Honest {
            p.amount_of_cheating_suspects_so_far
        } else {
            (p.amount_of_cheating_suspects_so_far + 1) as i32
        },
        amount_of_honest_suspects_so_far: if suspect is Honest {
            (p.amount_of_honest_suspects_so_far + 1) as i32
        } else {
            p.amount_of_honest_suspects_so_far
        },
    }
}

/// The number of heads among the flips `s`.
pub open spec fn count_heads(s: Seq<CoinFlip>) -> nat
    decreases s.len(),
{
    if s.len() == 0 {
        0
    } else {
        count_heads(s.drop_last()) + if s.last() is Heads {
            1nat
        } else {
            0nat
        }
    }
}

/// How `n` flips of `suspect`'s coin, with the outcomes `flips` in order,
/// change the two states: the budget loses `n`, the round counts each
/// outcome, nothing else changes, and a coin that always lands heads gave
/// heads only.
pub open spec fn flipped(
    p0: PermanentState,
    p1: PermanentState,
    r0: RoundState,
    r1: RoundState,
    suspect: Suspect,
    n: int,
    flips: Seq<CoinFlip>,
) -> bool {
    &&& p1 == PermanentState { remaining_coin_flips: (p0.remaining_coin_flips - n) as i32, ..p0 }
    &&& flips.len() == n
    &&& r1.amount_of_heads_flipped == r0.amount_of_heads_flipped + count_heads(flips)
    &&& r1.amount_of_tails_flipped == r0.amount_of_tails_flipped + (n - count_heads(flips))
    &&& r1.flips() == r0.flips() + n
    &&& suspect.bias() == crate::suspect::PROBABILITY_SCALE ==> count_heads(flips) == n
}

/// Whether the engine accepts `mv` in the given states: a flip needs a
/// positive count within the budget, and no counter may leave `i32`.
pub open spec fn move_allowed(p: PermanentState, r: RoundState, mv: ValidMove) -> bool {
    match mv {
        ValidMove::TryAgain => true,
        ValidMove::Flip(n) => {
            &&& 0 < n <= p.remaining_coin_flips
            &&& r.amount_of_heads_flipped + n <= i32::MAX
            &&& r.amount_of_tails_flipped + n <= i32::MAX
            &&& i32::MIN <= r.flips() && r.flips() + n <= i32::MAX
        },
        ValidMove::Guess(_) => p.guess_fits(),
    }
}

/// Scoring a guess adds one to the score; adds one to exactly one of the
/// right and wrong counts, and to exactly one of the honest and cheating
/// counts, the latter by the true suspect whatever the guess; and moves the
/// budget up by the reward for a right guess or down by the penalty otherwise.
pub proof fn lemma_guess_accounting(p: PermanentState, suspect: Suspect, guess: Suspect)
    requires
        p.guess_fits(),
    ensures
        ({
            let q = scored(p, suspect, guess);
            &&& q.score == p.score + 1
            &&& q.correct_guesses_so_far + q.incorrect_guesses_so_far
                == p.correct_guesses_so_far + p.incorrect_guesses_so_far + 1
            &&& (guess == suspect ==> q.correct_guesses_so_far == p.correct_guesses_so_far + 1
                && q.remaining_coin_flips == p.remaining_coin_flips + 15)
            &&& (guess != suspect ==> q.incorrect_guesses_so_far == p.incorrect_guesses_so_far + 1
                && q.remaining_coin_flips == p.remaining_coin_flips - 30)
            &&& q.amount_of_honest_suspects_so_far + q.amount_of_cheating_suspects_so_far
                == p.amount_of_honest_suspects_so_far + p.amount_of_cheating_suspects_so_far + 1
            &&& (suspect is Honest ==> q.amount_of_honest_suspects_so_far
                == p.amount_of_honest_suspects_so_far + 1)
            &&& (suspect is Cheating ==> q.amount_of_cheating_suspects_so_far
                == p.amount_of_cheating_suspects_so_far + 1)
        }),
{
}

/// Whether the engine accepts `mv` in the given states (see `move_allowed`).
pub fn move_is_allowed(p: &PermanentState, r: &RoundState, mv: ValidMove) -> (b: bool)
    ensures
        b == move_allowed(*p, *r, mv),
{
    match mv {
        ValidMove::TryAgain => true,
        ValidMove::Flip(n) => {
            let heads = r.amount_of_heads_flipped as i64;
            let tails = r.amount_of_tails_flipped as i64;
            let max = i32::MAX as i64;
            0 < n && n <= p.remaining_coin_flips && heads + n as i64 <= max && tails + n as i64
                <= max && i32::MIN as i64 <= heads + tails && heads + tails + n as i64 <= max
        },
        ValidMove::Guess(_) => {
            i32::MIN + WRONG_GUESS_PENALTY <= p.remaining_coin_flips && p.remaining_coin_flips
                <= i32::MAX - RIGHT_GUESS_REWARD && p.score < i32::MAX
                && p.incorrect_guesses_so_far < i32::MAX && p.correct_guesses_so_far < i32::MAX
                && p.amount_of_cheating_suspects_so_far < i32::MAX
                && p.amount_of_honest_suspects_so_far < i32::MAX
        },
    }
}

/// Whether the game is over: it ends once the budget is spent, which is
/// checked between rounds only.
pub fn game_is_over(p: &PermanentState) -> (b: bool)
    ensures
        b == (p.remaining_coin_flips <= 0),
{
    p.remaining_coin_flips <= 0
}

/// Flips `suspect`'s coin `num_of_flips` times, tallies the outcomes in the
/// round, takes the flips from the budget, and returns the outcomes in order.
pub fn perform_flips(
    permanent_state: &mut PermanentState,
    round_state: &mut RoundState,
    suspect: Suspect,
    num_of_flips: i32,
) -> (outcomes: Vec<CoinFlip>)
    requires
        suspect.wf(),
        move_allowed(*old(permanent_state), *old(round_state), ValidMove::Flip(num_of_flips)),
    ensures
        flipped(
            *old(permanent_state),
            *final(permanent_state),
            *old(round_state),
            *final(round_state),
            suspect,
            num_of_flips as int,
            outcomes@,
        ),
{
    let ghost r0 = *round_state;
    let mut outcomes: Vec<CoinFlip> = Vec::new();
    let mut i: i32 = 0;
    while i < num_of_flips
        invariant
            0 <= i <= num_of_flips,
            suspect.wf(),
            outcomes@.len() == i,
            count_heads(outcomes@) <= i,
            round_state.amount_of_heads_flipped == r0.amount_of_heads_flipped + count_heads(
                outcomes@,
            ),
            round_state.amount_of_tails_flipped == r0.amount_of_tails_flipped + (i - count_heads(
                outcomes@,
            )),
            r0.amount_of_heads_flipped + num_of_flips <= i32::MAX,
            r0.amount_of_tails_flipped + num_of_flips <= i32::MAX,
            suspect.bias() == crate::suspect::PROBABILITY_SCALE ==> count_heads(outcomes@) == i,
        decreases num_of_flips - i,
    {
        let flip = suspect.flip_coin();
        let ghost before = outcomes@;
        outcomes.push(flip);
        proof {
            assert(outcomes@.drop_last() =~= before);
        }
        match flip {
            CoinFlip::Heads => {
                round_state.amount_of_heads_flipped = round_state.amount_of_heads_flipped + 1;
            },
            CoinFlip::Tails => {
                round_state.amount_of_tails_flipped = round_state.amount_of_tails_flipped + 1;
            },
        }
        i = i + 1;
    }
    permanent_state.remaining_coin_flips = permanent_state.remaining_coin_flips - num_of_flips;
    outcomes
}

/// Scores a guess: a right one earns the reward, a wrong one costs the
/// penalty, the score goes up by one either way, and the kind of the true
/// suspect is counted. Returns whether the guess was right.
pub fn resolve_guess(permanent_state: &mut PermanentState, suspect: Suspect, guess: Suspect) -> (right: bool)
    requires
        old(permanent_state).guess_fits(),
    ensures
        right == (guess == suspect),
        *final(permanent_state) == scored(*old(permanent_state), suspect, guess),
{
    let right = guess == suspect;
    if right {
        permanent_state.correct_guesses_so_far = permanent_state.correct_guesses_so_far + 1;
        permanent_state.remaining_coin_flips = permanent_state.remaining_coin_flips
            + RIGHT_GUESS_REWARD;
    } else {
        permanent_state.incorrect_guesses_so_far = permanent_state.incorrect_guesses_so_far + 1;
        permanent_state.remaining_coin_flips = permanent_state.remaining_coin_flips
            - WRONG_GUESS_PENALTY;
    }
    permanent_state.score = permanent_state.score + 1;
    match suspect {
        Suspect::Honest => {
            permanent_state.amount_of_honest_suspects_so_far =
            permanent_state.amount_of_honest_suspects_so_far + 1;
        },
        Suspect::Cheating { .. } => {
            permanent_state.amount_of_cheating_suspects_so_far =
            permanent_state.amount_of_cheating_suspects_so_far + 1;
        },
    }
    right
}

/// Plays one move of a round: records it, then a `TryAgain` changes nothing,
/// a `Flip` flips the coin and spends the budget, and a `Guess` is scored and
/// ends the round. Returns whether the round is over, and the outcomes of the
/// flips that the move made.
pub fn play_move(
    permanent_state: &mut PermanentState,
    round_state: &mut RoundState,
    suspect: Suspect,
    moves_made_this_round: &mut Vec<ValidMove>,
    strategy_play: ValidMove,
) -> (r: (bool, Vec<CoinFlip>))
    requires
        suspect.wf(),
        move_allowed(*old(permanent_state), *old(round_state), strategy_play),
    ensures
        final(moves_made_this_round)@ == old(moves_made_this_round)@.push(strategy_play),
        r.0 == (strategy_play is Guess),
        !(strategy_play is Flip) ==> r.1@.len() == 0,
        round_open(old(moves_made_this_round)@) ==> if r.0 {
            round_closed(final(moves_made_this_round)@)
        } else {
            round_open(final(moves_made_this_round)@)
        },
        strategy_play is TryAgain ==> *final(permanent_state) == *old(permanent_state)
            && *final(round_state) == *old(round_state),
        strategy_play is Flip ==> flipped(
            *old(permanent_state),
            *final(permanent_state),
            *old(round_state),
            *final(round_state),
            suspect,
            strategy_play->Flip_0 as int,
            r.1@,
        ),
        strategy_play is Guess ==> *final(permanent_state) == scored(
            *old(permanent_state),
            suspect,
            strategy_play->Guess_0,
        ) && *final(round_state) == *old(round_state),
{
    moves_made_this_round.push(strategy_play);
    proof {
        let s = moves_made_this_round@;
        assert(s.drop_last() =~= old(moves_made_this_round)@);
    }
    match strategy_play {
        ValidMove::TryAgain => (false, Vec::new()),
        ValidMove::Flip(num_of_flips) => {
            let outcomes = perform_flips(permanent_state, round_state, suspect, num_of_flips);
            (false, outcomes)
        },
        ValidMove::Guess(guess) => {
            resolve_guess(permanent_state, suspect, guess);
            (true, Vec::new())
        },
    }
}

/// Appends the moves of a finished round to the game's move history.
pub fn record_round(all_moves_made: &mut Vec<Vec<ValidMove>>, moves_made_this_round: Vec<ValidMove>)
    requires
        history_closed(old(all_moves_made)@),
        round_closed(moves_made_this_round@),
    ensures
        final(all_moves_made)@ == old(all_moves_made)@.push(moves_made_this_round),
        history_closed(final(all_moves_made)@),
{
    all_moves_made.push(moves_made_this_round);
}

} // verus!

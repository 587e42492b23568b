use crate::state::{PermanentState, RoundState, ValidMove};
use crate::suspect::{random_ratio, Suspect};
use vstd::prelude::*;

verus! {

/// A strategy that ignores what it is shown and guesses at once: honest or
/// cheating with even odds, a cheating guess carrying the suspect's true bias.
pub fn random_guess(
    _permanent_state: &mut PermanentState,
    suspect: Suspect,
    _round_state: &mut RoundState,
    _made_moves: &[ValidMove],
) -> (r: ValidMove)
    ensures
        *final(_permanent_state) == *old(_permanent_state),
        *final(_round_state) == *old(_round_state),
        r == ValidMove::Guess(Suspect::Honest) || r == ValidMove::Guess(
            Suspect::Cheating { probability_of_heads: suspect.bias() as u32 },
        ),
{
    guess_for_draw(random_ratio(1, 2), suspect)
}

/// The guess that `random_guess` makes for a fair draw: honest where
/// `guess_honest` came out, else cheating with the suspect's true bias.
pub fn guess_for_draw(guess_honest: bool, suspect: Suspect) -> (r: ValidMove)
    ensures
        r == if guess_honest {
            ValidMove::Guess(Suspect::Honest)
        } else {
            ValidMove::Guess(Suspect::Cheating { probability_of_heads: suspect.bias() as u32 })
        },
{
    if guess_honest {
        ValidMove::Guess(Suspect::Honest)
    } else {
        ValidMove::Guess(Suspect::Cheating { probability_of_heads: suspect.get_probability() })
    }
}

} // verus!

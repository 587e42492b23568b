use rand::Rng;
use vstd::prelude::*;

verus! {

/// Probabilities are counted in millionths: this value stands for certainty.
pub const PROBABILITY_SCALE: u32 = 1_000_000;

/// The chance of heads of a fair coin, in millionths.
pub const HONEST_PROBABILITY: u32 = 500_000;

/// The least chance of heads of a cheating suspect's coin, in millionths.
pub const MIN_CHEATING_PROBABILITY: u32 = 500_000;

/// The greatest chance of heads of a cheating suspect's coin, in millionths.
pub const MAX_CHEATING_PROBABILITY: u32 = 1_000_000;

/// The chance that a new suspect is honest is the ratio of these two integers.
pub const HONEST_RATIO_NUMERATOR: u32 = 1;

/// The chance that a new suspect is honest is the ratio of these two integers.
pub const HONEST_RATIO_DENOMINATOR: u32 = 2;

/// The outcome of one flip of a suspect's coin.
#[derive(Debug, Clone, Copy, PartialEq, Eq, Structural)]
pub enum CoinFlip {
    Heads,
    Tails,
}

/// The hidden entity of a round: a fair coin, or one biased towards heads.
///
/// `probability_of_heads` is in millionths of certainty.
#[derive(Debug, Clone, Copy, PartialEq, Eq, Structural)]
pub enum Suspect {
    Honest,
    Cheating { probability_of_heads: u32 },
}

impl Suspect {
    /// The chance of heads of this suspect's coin, in millionths.
    pub open spec fn bias(self) -> nat {
        match self {
            Suspect::Honest => HONEST_PROBABILITY as nat,
            Suspect::Cheating { probability_of_heads } => probability_of_heads as nat,
        }
    }

    /// A suspect as the game makes them: honest, or cheating with a bias
    /// between the two bounds, both included.
    pub open spec fn wf(self) -> bool {
        match self {
            Suspect::Honest => true,
            Suspect::Cheating { probability_of_heads } => MIN_CHEATING_PROBABILITY
                <= probability_of_heads <= MAX_CHEATING_PROBABILITY,
        }
    }

    /// The chance of heads of this suspect's coin, in millionths.
    pub fn get_probability(&self) -> (r: u32)
        ensures
            r as nat == self.bias(),
    {
        match self {
            Suspect::Honest => HONEST_PROBABILITY,
            Suspect::Cheating { probability_of_heads } => *probability_of_heads,
        }
    }

    /// Flips this suspect's coin once: heads with chance `bias() / PROBABILITY_SCALE`.
    pub fn flip_coin(&self) -> (r: CoinFlip)
        requires
            self.bias() <= PROBABILITY_SCALE,
        ensures
            self.bias() == PROBABILITY_SCALE ==> r == CoinFlip::Heads,
            self.bias() == 0 ==> r == CoinFlip::Tails,
    {
        let prob = self.get_probability();
        coin_of_draw(random_ratio(prob, PROBABILITY_SCALE))
    }
}

/// The side a coin shows for a draw that came out `heads` or not.
pub fn coin_of_draw(heads: bool) -> (r: CoinFlip)
    ensures
        r == if heads {
            CoinFlip::Heads
        } else {
            CoinFlip::Tails
        },
{
    if heads {
        CoinFlip::Heads
    } else {
        CoinFlip::Tails
    }
}

/// The suspect for two draws: honest where `honest` came out, else cheating
/// with the drawn bias `p`.
pub fn suspect_for_draws(honest: bool, p: u32) -> (r: Suspect)
    requires
        !honest ==> MIN_CHEATING_PROBABILITY <= p <= MAX_CHEATING_PROBABILITY,
    ensures
        r == if honest {
            Suspect::Honest
        } else {
            Suspect::Cheating { probability_of_heads: p }
        },
        r.wf(),
{
    if honest {
        Suspect::Honest
    } else {
        Suspect::Cheating { probability_of_heads: p }
    }
}

/// Draws the suspect of a new round: honest with even odds, else cheating with
/// a bias drawn uniformly between the two bounds.
pub fn get_next_suspect() -> (r: Suspect)
    ensures
        r.wf(),
        r.bias() <= PROBABILITY_SCALE,
{
    let is_honest = random_ratio(HONEST_RATIO_NUMERATOR, HONEST_RATIO_DENOMINATOR);
    if is_honest {
        suspect_for_draws(true, MIN_CHEATING_PROBABILITY)
    } else {
        let p = random_in_range(MIN_CHEATING_PROBABILITY, MAX_CHEATING_PROBABILITY);
        suspect_for_draws(false, p)
    }
}

/// Relies on rand's `Rng::gen_ratio` on the thread-local generator: `true` with
/// chance `numerator / denominator`, always `true` when the two are equal and
/// always `false` when `numerator` is zero. It panics when `denominator` is
/// zero or below `numerator`, which `requires` leaves out.
#[verifier::external_body]
pub(crate) fn random_ratio(numerator: u32, denominator: u32) -> (r: bool)
    requires
        0 < denominator,
        numerator <= denominator,
    ensures
        numerator == denominator ==> r,
        numerator == 0 ==> !r,
{
    rand::thread_rng().gen_ratio(numerator, denominator)
}

/// Relies on rand's `Rng::gen_range` over an inclusive range on the
/// thread-local generator: a value between `low` and `high`, both included.
/// It panics on an empty range, which `requires` leaves out.
#[verifier::external_body]
pub(crate) fn random_in_range(low: u32, high: u32) -> (r: u32)
    requires
        low <= high,
    ensures
        low <= r <= high,
{
    rand::thread_rng().gen_range(low..=high)
}

} // verus!

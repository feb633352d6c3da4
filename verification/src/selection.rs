//! How the next token is chosen from the model's scores.

use crate::score::Score;
use vstd::prelude::*;

verus! {

/// How a token is chosen from the model's scores.
#[derive(Clone, Copy, Debug, PartialEq, Eq, Structural)]
pub enum Selection {
    /// The token with the highest score.
    Greedy,
    /// A token drawn with the probabilities that the scores give at the
    /// attempt's temperature.
    Sample,
}

/// Tokens are drawn at temperatures above zero and chosen greedily at every
/// other, not-a-number included.
pub fn selection(temperature: Score) -> (s: Selection)
    ensures
        s == if temperature.above(Score { bits: 0 }) {
            Selection::Sample
        } else {
            Selection::Greedy
        },
{
    if temperature.gt(Score::from_bits(0)) {
        Selection::Sample
    } else {
        Selection::Greedy
    }
}

} // verus!

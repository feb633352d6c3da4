//! Temperature fallback: a window is decoded at one temperature after
//! another until an attempt is accepted; the last attempt is taken as it is.
//!
//! `decode_with_fallback` runs the attempts, each of which is the caller's
//! to make; `settle_window` does so for one window of a pass. `Fallback` is
//! the rule one attempt at a time: it names the temperature that is due
//! and judges the outcome of the attempt.

use crate::decoder::DecodingResult;
use crate::quality::acceptable;
use crate::score::Score;
use crate::segments::Window;
use vstd::prelude::*;

verus! {

/// The temperatures of the standard ladder: 0.0, 0.2, 0.4, 0.6, 0.8, 1.0.
pub const TEMPERATURE_BITS: [u64; 6] = [
    0x0000_0000_0000_0000,
    0x3FC9_9999_9999_999A,
    0x3FD9_9999_9999_999A,
    0x3FE3_3333_3333_3333,
    0x3FE9_9999_9999_999A,
    0x3FF0_0000_0000_0000,
];

/// The standard ladder.
pub open spec fn standard_ladder() -> Seq<Score> {
    Seq::new(6, |i: int| Score { bits: TEMPERATURE_BITS[i] })
}

/// The temperatures of the standard ladder, in the order in which they are
/// tried.
pub fn standard_temperatures() -> (temperatures: Vec<Score>)
    ensures
        temperatures@ == standard_ladder(),
{
    let mut temperatures: Vec<Score> = Vec::new();
    let mut i: usize = 0;
    while i < 6
        invariant
            i <= 6,
            temperatures.len() == i,
            forall|j: int| 0 <= j < i ==> (#[trigger] temperatures[j]).bits == TEMPERATURE_BITS[j],
        decreases 6 - i,
    {
        temperatures.push(Score::from_bits(TEMPERATURE_BITS[i]));
        i = i + 1;
    }
    assert(temperatures@ =~= standard_ladder());
    temperatures
}

/// What follows an attempt.
#[derive(Debug)]
pub enum Verdict<E> {
    /// The attempt's outcome is the outcome of the window.
    Return(Result<DecodingResult, E>),
    /// The window is decoded again at the next temperature. An outcome that
    /// was an error is handed back to be logged.
    Retry(Option<E>),
}

/// Whether the outcome of the attempt at `index`, of `attempts` in all, is
/// returned: the attempt is the last, or it succeeded and is acceptable.
pub open spec fn settles<E>(index: int, attempts: int, outcome: Result<DecodingResult, E>) -> bool {
    index == attempts - 1 || (outcome matches Ok(dr) && acceptable(&dr))
}

/// The index of the attempt whose outcome is returned, where the attempts
/// from `from` on would have the given outcomes.
pub open spec fn settled_at<E>(outcomes: Seq<Result<DecodingResult, E>>, from: int) -> int
    decreases outcomes.len() - from,
{
    if from >= outcomes.len() - 1 || settles(from, outcomes.len() as int, outcomes[from]) {
        from
    } else {
        settled_at(outcomes, from + 1)
    }
}

/// The fallback over a ladder of temperatures, at one of its attempts.
#[derive(Debug)]
pub struct Fallback {
    temperatures: Vec<Score>,
    index: usize,
}

/// What a fallback is, to its callers.
pub struct FallbackView {
    pub temperatures: Seq<Score>,
    /// The attempt that is due.
    pub index: nat,
}

impl FallbackView {
    /// The attempt that is due is one of the ladder.
    pub open spec fn wf(self) -> bool {
        self.index < self.temperatures.len()
    }
}

impl View for Fallback {
    type V = FallbackView;

    closed spec fn view(&self) -> FallbackView {
        FallbackView { temperatures: self.temperatures@, index: self.index as nat }
    }
}

impl Fallback {
    /// The fallback over `temperatures`, at its first attempt.
    pub fn new(temperatures: Vec<Score>) -> (f: Fallback)
        requires
            temperatures.len() > 0,
        ensures
            f@.wf(),
            f@.temperatures == temperatures@,
            f@.index == 0,
    {
        Fallback { temperatures, index: 0 }
    }

    /// The fallback over the standard ladder, at its first attempt.
    pub fn standard() -> (f: Fallback)
        ensures
            f@.wf(),
            f@.index == 0,
            f@.temperatures == standard_ladder(),
    {
        Fallback::new(standard_temperatures())
    }

    /// The temperature of the attempt that is due.
    pub fn temperature(&self) -> (t: Score)
        requires
            self@.wf(),
        ensures
            t == self@.temperatures[self@.index as int],
    {
        self.temperatures[self.index]
    }

    /// Whether the attempt that is due is the last of the ladder.
    pub fn is_last(&self) -> (b: bool)
        requires
            self@.wf(),
        ensures
            b == (self@.index == self@.temperatures.len() - 1),
    {
        self.index == self.temperatures.len() - 1
    }

    /// Judges the outcome of the attempt that is due. The outcome of the
    /// last attempt is returned whatever it is, an error too; an earlier one
    /// is returned if it is an acceptable result. Otherwise the next attempt
    /// is due.
    pub fn judge<E>(&mut self, outcome: Result<DecodingResult, E>) -> (v: Verdict<E>)
        requires
            old(self)@.wf(),
        ensures
            final(self)@.wf(),
            final(self)@.temperatures == old(self)@.temperatures,
            settles(old(self)@.index as int, old(self)@.temperatures.len() as int, outcome) ==> v
                == Verdict::Return(outcome) && final(self)@.index == old(self)@.index,
            !settles(old(self)@.index as int, old(self)@.temperatures.len() as int, outcome) ==> {
                &&& final(self)@.index == old(self)@.index + 1
                &&& v == Verdict::Retry(
                    match outcome {
                        Ok(_) => None::<E>,
                        Err(e) => Some(e),
                    },
                )
            },
    {
        if self.index == self.temperatures.len() - 1 {
            return Verdict::Return(outcome);
        }
        match outcome {
            Ok(dr) => {
                if acceptable(&dr) {
                    Verdict::Return(Ok(dr))
                } else {
                    self.index = self.index + 1;
                    Verdict::Retry(None)
                }
            },
            Err(e) => {
                self.index = self.index + 1;
                Verdict::Retry(Some(e))
            },
        }
    }
}

/// Whatever the attempts of a ladder that is not empty would come to, one of
/// them is returned: the first that settles, which is the last at the
/// latest. Every attempt before it is tried and passed over.
pub proof fn lemma_fallback_returns<E>(outcomes: Seq<Result<DecodingResult, E>>, from: int)
    requires
        0 <= from < outcomes.len(),
    ensures
        from <= settled_at(outcomes, from) < outcomes.len(),
        settles(settled_at(outcomes, from), outcomes.len() as int, outcomes[settled_at(outcomes, from)]),
        forall|k: int|
            from <= k < settled_at(outcomes, from) ==> !settles(k, outcomes.len() as int, outcomes[k]),
    decreases outcomes.len() - from,
{
    if from >= outcomes.len() - 1 || settles(from, outcomes.len() as int, outcomes[from]) {
    } else {
        lemma_fallback_returns(outcomes, from + 1);
    }
}

/// Whether `outcomes` are what the attempts came to that were made over
/// the ladder `temperatures`, where `possible` says what an attempt at a
/// temperature can come to: one attempt at each temperature in turn, none
/// but the last settling the window.
pub open spec fn attempts_by<E>(
    possible: spec_fn(Score, Result<DecodingResult, E>) -> bool,
    temperatures: Seq<Score>,
    outcomes: Seq<Result<DecodingResult, E>>,
) -> bool {
    &&& 1 <= outcomes.len() <= temperatures.len()
    &&& forall|k: int| 0 <= k < outcomes.len() ==> possible(temperatures[k], #[trigger] outcomes[k])
    &&& forall|k: int|
        0 <= k < outcomes.len() - 1 ==> !settles(
            k,
            temperatures.len() as int,
            #[trigger] outcomes[k],
        )
    &&& settles(outcomes.len() - 1, temperatures.len() as int, outcomes.last())
}

/// Whether `outcomes` are what the attempts came to that were made over
/// the ladder `temperatures`, each an outcome of `attempt` at its
/// temperature.
pub open spec fn attempts_made<E, F: Fn(Score) -> Result<DecodingResult, E>>(
    attempt: F,
    temperatures: Seq<Score>,
    outcomes: Seq<Result<DecodingResult, E>>,
) -> bool {
    attempts_by(
        |t: Score, outcome: Result<DecodingResult, E>| call_ensures(attempt, (t,), outcome),
        temperatures,
        outcomes,
    )
}

/// Whether `outcomes` are what the attempts on `window` came to that were
/// made over the ladder `temperatures`, each an outcome of `attempt` for
/// the window at its temperature.
pub open spec fn window_attempts<E, F: Fn(Window, Score) -> Result<DecodingResult, E>>(
    attempt: F,
    window: Window,
    temperatures: Seq<Score>,
    outcomes: Seq<Result<DecodingResult, E>>,
) -> bool {
    attempts_by(
        |t: Score, outcome: Result<DecodingResult, E>| call_ensures(attempt, (window, t), outcome),
        temperatures,
        outcomes,
    )
}

/// Decodes a window by `attempt`, at one temperature of the ladder after
/// another, until an attempt settles it, and returns the outcome of that
/// attempt. Over a ladder that is not empty this always returns: the last
/// attempt settles the window whatever it comes to.
pub fn decode_with_fallback<E, F: Fn(Score) -> Result<DecodingResult, E>>(
    temperatures: Vec<Score>,
    attempt: F,
) -> (r: Result<DecodingResult, E>)
    requires
        temperatures.len() > 0,
        forall|t: Score| call_requires(attempt, (t,)),
    ensures
        exists|outcomes: Seq<Result<DecodingResult, E>>|
            #[trigger] attempts_made(attempt, temperatures@, outcomes) && r == outcomes.last(),
{
    let ghost ladder = temperatures@;
    let mut fallback = Fallback::new(temperatures);
    let ghost mut outcomes: Seq<Result<DecodingResult, E>> = Seq::empty();
    loop
        invariant
            fallback@.wf(),
            fallback@.temperatures == ladder,
            ladder == temperatures@,
            outcomes.len() == fallback@.index,
            forall|t: Score| call_requires(attempt, (t,)),
            forall|k: int|
                0 <= k < outcomes.len() ==> call_ensures(attempt, (ladder[k],), #[trigger] outcomes[k]),
            forall|k: int|
                0 <= k < outcomes.len() ==> !settles(k, ladder.len() as int, #[trigger] outcomes[k]),
        decreases ladder.len() - fallback@.index,
    {
        let t = fallback.temperature();
        let outcome = attempt(t);
        proof {
            outcomes = outcomes.push(outcome);
        }
        match fallback.judge(outcome) {
            Verdict::Return(outcome) => {
                proof {
                    assert(attempts_made(attempt, ladder, outcomes));
                }
                return outcome;
            },
            Verdict::Retry(_) => {},
        }
    }
}

/// The temperatures of `ladder`, in a vector of their own.
pub fn copied(ladder: &Vec<Score>) -> (temperatures: Vec<Score>)
    ensures
        temperatures@ == ladder@,
{
    let mut temperatures: Vec<Score> = Vec::new();
    let mut i: usize = 0;
    while i < ladder.len()
        invariant
            i <= ladder.len(),
            temperatures@ == ladder@.take(i as int),
        decreases ladder.len() - i,
    {
        temperatures.push(ladder[i]);
        assert(ladder@.take(i + 1) == ladder@.take(i as int).push(ladder@[i as int]));
        i = i + 1;
    }
    assert(ladder@.take(ladder.len() as int) == ladder@);
    temperatures
}

/// Decodes `window` by `attempt`, at one temperature of the ladder after
/// another, as `decode_with_fallback` does.
pub fn settle_window<E, F: Fn(Window, Score) -> Result<DecodingResult, E>>(
    window: Window,
    temperatures: &Vec<Score>,
    attempt: &F,
) -> (r: Result<DecodingResult, E>)
    requires
        temperatures.len() > 0,
        forall|w: Window, t: Score| call_requires(*attempt, (w, t)),
    ensures
        exists|outcomes: Seq<Result<DecodingResult, E>>|
            #[trigger] window_attempts(*attempt, window, temperatures@, outcomes) && r
                == outcomes.last(),
{
    let at = |t: Score| -> (outcome: Result<DecodingResult, E>)
        ensures
            call_ensures(*attempt, (window, t), outcome),
        { attempt(window, t) };
    let settled = decode_with_fallback(copied(temperatures), at);
    proof {
        let made = choose|outcomes: Seq<Result<DecodingResult, E>>|
            #[trigger] attempts_made(at, temperatures@, outcomes) && settled == outcomes.last();
        assert(window_attempts(*attempt, window, temperatures@, made));
    }
    settled
}

} // verus!

//! One decode attempt, token by token: what has been generated, whether
//! another token is wanted, and which tokens may not follow.
//!
//! `decode_at` runs an attempt at a temperature. The model is the caller's:
//! for each step the caller is shown the generation as it stands and has
//! the model score its tokens. At a temperature above zero the caller draws
//! the token; at every other the token is the greedy choice among the
//! scores. `Generation` is the rule one step at a time.

use crate::decoder::DecodingResult;
use crate::error::DecodeError;
use crate::score::lemma_total_order;
use crate::score::Score;
use crate::selection::selection;
use crate::selection::Selection;
use crate::vocab::SpecialTokens;
use vstd::prelude::*;

verus! {

/// A decode attempt in progress.
#[derive(Debug)]
pub struct Generation {
    tokens: Vec<u32>,
    prompt_len: usize,
    stopped: bool,
    special: SpecialTokens,
    max_target_positions: usize,
    suppressed: Vec<bool>,
}

/// What a generation is, to its callers.
pub struct GenerationView {
    /// The prompt and, after it, the tokens generated so far.
    pub tokens: Seq<u32>,
    pub prompt_len: nat,
    /// Whether the last token generated ended the attempt.
    pub stopped: bool,
    pub special: SpecialTokens,
    /// The model's limit on the length of a token sequence.
    pub max_target_positions: nat,
    /// For each entry of the vocabulary, whether it is never generated.
    pub suppressed: Seq<bool>,
}

impl GenerationView {
    /// The number of tokens that one attempt generates at most.
    pub open spec fn sample_len(self) -> nat {
        self.max_target_positions / 2
    }

    /// The number of tokens generated so far.
    pub open spec fn steps(self) -> int {
        self.tokens.len() - self.prompt_len
    }

    /// Whether the token at `index` ended the attempt: it is the end of
    /// transcript, or with it the sequence outgrew the model's limit.
    pub open spec fn ends_at(self, index: int) -> bool {
        self.tokens[index] == self.special.eot || index + 1 > self.max_target_positions
    }

    /// Whether the last token generated is a timestamp.
    pub open spec fn after_timestamp(self) -> bool {
        self.steps() >= 1 && self.special.is_timestamp(self.tokens.last())
    }

    /// Whether another token is to be generated.
    pub open spec fn wants_step(self) -> bool {
        !self.stopped && self.steps() < self.sample_len()
    }

    /// Whether entry `id` is never generated.
    pub open spec fn flagged(self, id: int) -> bool {
        0 <= id < self.suppressed.len() && self.suppressed[id]
    }

    /// Whether entry `id` is ruled out at the next step: it is never
    /// generated, or it is a timestamp and the last token was one.
    pub open spec fn masked(self, id: int) -> bool {
        self.flagged(id) || (self.after_timestamp() && id > self.special.no_timestamps)
    }

    /// Whether `token` may not be generated next.
    pub open spec fn forbids(self, token: u32) -> bool {
        self.masked(token as int)
    }

    /// The error that refuses `token`, where it may not be generated next.
    pub open spec fn refusal(self, token: u32) -> DecodeError {
        if self.flagged(token as int) {
            DecodeError::SuppressedToken(token)
        } else {
            DecodeError::TimestampAfterTimestamp(token)
        }
    }

    /// Whether `token` is the greedy choice among `scores` at the next
    /// step: it is an entry that is not ruled out, none of those comes
    /// after it in the total order, and of those that share its place it is
    /// the last.
    pub open spec fn greedy(self, scores: Seq<Score>, token: u32) -> bool {
        &&& token < scores.len()
        &&& !self.masked(token as int)
        &&& forall|j: int|
            0 <= j < scores.len() && j <= u32::MAX && !self.masked(j) ==> (
            #[trigger] scores[j]).total_rank() <= scores[token as int].total_rank()
        &&& forall|j: int|
            token < j < scores.len() && j <= u32::MAX && !self.masked(j) ==> (
            #[trigger] scores[j]).total_rank() < scores[token as int].total_rank()
    }

    /// Whether `scores` leave a token to choose at the next step.
    pub open spec fn has_choice(self, scores: Seq<Score>) -> bool {
        exists|j: int| 0 <= j < scores.len() && j <= u32::MAX && !#[trigger] self.masked(j)
    }

    /// The generation after `token` has been generated.
    pub open spec fn pushed(self, token: u32) -> GenerationView {
        GenerationView {
            tokens: self.tokens.push(token),
            stopped: token == self.special.eot || self.tokens.len() + 1
                > self.max_target_positions,
            ..self
        }
    }

    /// Whether this generation is `earlier` with tokens added: the same
    /// prompt, tokens and limit, and the tokens of `earlier` first.
    pub open spec fn extends(self, earlier: GenerationView) -> bool {
        &&& self.prompt_len == earlier.prompt_len
        &&& self.special == earlier.special
        &&& self.max_target_positions == earlier.max_target_positions
        &&& self.suppressed == earlier.suppressed
        &&& self.tokens.len() >= earlier.tokens.len()
        &&& self.tokens.take(earlier.tokens.len() as int) == earlier.tokens
    }

    /// What holds of every generation: it starts with its prompt, whose
    /// first token is the start of transcript; it generated no more tokens
    /// than one attempt may; no token but the last ended it; no timestamp
    /// follows a timestamp; and no token generated is one that is never to
    /// be.
    pub open spec fn wf(self) -> bool {
        &&& 1 <= self.prompt_len <= self.tokens.len()
        &&& self.tokens[0] == self.special.sot
        &&& self.steps() <= self.sample_len()
        &&& self.stopped == (self.steps() >= 1 && self.ends_at(self.tokens.len() - 1))
        &&& forall|i: int| self.prompt_len <= i < self.tokens.len() - 1 ==> !self.ends_at(i)
        &&& forall|i: int|
            self.prompt_len <= i < self.tokens.len() - 1 ==> !(self.special.is_timestamp(
                #[trigger] self.tokens[i],
            ) && self.special.is_timestamp(self.tokens[i + 1]))
        &&& forall|i: int|
            self.prompt_len <= i < self.tokens.len() ==> !self.flagged(#[trigger] self.tokens[i] as int)
    }
}

impl View for Generation {
    type V = GenerationView;

    closed spec fn view(&self) -> GenerationView {
        GenerationView {
            tokens: self.tokens@,
            prompt_len: self.prompt_len as nat,
            stopped: self.stopped,
            special: self.special,
            max_target_positions: self.max_target_positions as nat,
            suppressed: self.suppressed@,
        }
    }
}

impl Generation {
    /// A generation that has its prompt and nothing else, for a vocabulary
    /// of which every entry may be generated.
    pub fn from_prompt(prompt: Vec<u32>, special: SpecialTokens, max_target_positions: usize) -> (g:
        Generation)
        requires
            prompt.len() >= 1,
            prompt[0] == special.sot,
        ensures
            g@.wf(),
            g@.tokens == prompt@,
            g@.prompt_len == prompt.len(),
            !g@.stopped,
            g@.special == special,
            g@.max_target_positions == max_target_positions,
            g@.suppressed == Seq::<bool>::empty(),
    {
        Generation::with_mask(prompt, special, max_target_positions, Vec::new())
    }

    /// A generation that has its prompt and nothing else, for a vocabulary
    /// of which the entries flagged in `suppressed` are never generated.
    pub fn with_mask(
        prompt: Vec<u32>,
        special: SpecialTokens,
        max_target_positions: usize,
        suppressed: Vec<bool>,
    ) -> (g: Generation)
        requires
            prompt.len() >= 1,
            prompt[0] == special.sot,
        ensures
            g@.wf(),
            g@.tokens == prompt@,
            g@.prompt_len == prompt.len(),
            !g@.stopped,
            g@.special == special,
            g@.max_target_positions == max_target_positions,
            g@.suppressed == suppressed@,
    {
        let prompt_len = prompt.len();
        Generation {
            tokens: prompt,
            prompt_len,
            stopped: false,
            special,
            max_target_positions,
            suppressed,
        }
    }

    /// The prompt and the tokens generated so far.
    pub fn tokens(&self) -> (tokens: &Vec<u32>)
        ensures
            tokens@ == self@.tokens,
    {
        &self.tokens
    }

    /// Whether no token has been generated yet. The first step is the one
    /// that starts the model afresh and that measures the no-speech
    /// probability.
    pub fn is_first_step(&self) -> (b: bool)
        requires
            self@.wf(),
        ensures
            b == (self@.steps() == 0),
    {
        self.tokens.len() == self.prompt_len
    }

    /// Whether another token is to be generated.
    pub fn wants_step(&self) -> (b: bool)
        requires
            self@.wf(),
        ensures
            b == self@.wants_step(),
    {
        !self.stopped && self.tokens.len() - self.prompt_len < self.max_target_positions / 2
    }

    /// Whether the last token generated is a timestamp, so that the next may
    /// not be one.
    pub fn after_timestamp(&self) -> (b: bool)
        requires
            self@.wf(),
        ensures
            b == self@.after_timestamp(),
    {
        self.tokens.len() > self.prompt_len && self.tokens[self.tokens.len() - 1]
            > self.special.no_timestamps
    }

    /// Whether entry `id` is ruled out at the next step.
    pub fn is_masked(&self, id: usize) -> (b: bool)
        requires
            self@.wf(),
        ensures
            b == self@.masked(id as int),
    {
        (id < self.suppressed.len() && self.suppressed[id]) || (self.after_timestamp() && id
            > self.special.no_timestamps as usize)
    }

    /// The greedy choice among `scores` at the next step: of the entries
    /// that are not ruled out the one with the highest score, the last of
    /// them where several share it. There is none where every entry is
    /// ruled out.
    pub fn pick_greedy(&self, scores: &Vec<Score>) -> (choice: Option<u32>)
        requires
            self@.wf(),
        ensures
            choice is Some <==> self@.has_choice(scores@),
            choice matches Some(token) ==> self@.greedy(scores@, token),
    {
        let mut best: Option<u32> = None;
        let mut j: usize = 0;
        while j < scores.len() && j <= u32::MAX as usize
            invariant
                self@.wf(),
                j <= scores.len(),
                j <= u32::MAX + 1,
                best is None ==> forall|k: int| 0 <= k < j ==> #[trigger] self@.masked(k),
                best matches Some(token) ==> {
                    &&& token < j
                    &&& !self@.masked(token as int)
                    &&& forall|k: int|
                        0 <= k < j && !self@.masked(k) ==> (#[trigger] scores@[k]).total_rank()
                            <= scores@[token as int].total_rank()
                    &&& forall|k: int|
                        token < k < j && !self@.masked(k) ==> (#[trigger] scores@[k]).total_rank()
                            < scores@[token as int].total_rank()
                },
            decreases scores.len() - j,
        {
            if !self.is_masked(j) {
                let better = match best {
                    None => true,
                    Some(token) => scores[j].total_ge(scores[token as usize]),
                };
                if better {
                    best = Some(j as u32);
                }
            }
            j = j + 1;
        }
        proof {
            if best is None {
                assert forall|k: int| 0 <= k < scores@.len() && k <= u32::MAX implies self@.masked(
                    k,
                ) by {}
            } else {
                assert(!self@.masked(best->0 as int));
            }
        }
        best
    }

    /// Takes the token chosen at this step. A token that is never to be
    /// generated is refused, and so is a timestamp after a timestamp; the
    /// generation is then as it was. Any other token is appended, and ends
    /// the attempt if it is the end of transcript or the sequence has
    /// outgrown the model's limit.
    pub fn push(&mut self, token: u32) -> (r: Result<(), DecodeError>)
        requires
            old(self)@.wf(),
            old(self)@.wants_step(),
        ensures
            final(self)@.wf(),
            r is Err <==> old(self)@.forbids(token),
            r matches Err(e) ==> e == old(self)@.refusal(token) && final(self)@ == old(self)@,
            r is Ok ==> final(self)@ == old(self)@.pushed(token),
    {
        if (token as usize) < self.suppressed.len() && self.suppressed[token as usize] {
            return Err(DecodeError::SuppressedToken(token));
        }
        if self.after_timestamp() && token > self.special.no_timestamps {
            return Err(DecodeError::TimestampAfterTimestamp(token));
        }
        let ghost before = self@;
        self.tokens.push(token);
        self.stopped = token == self.special.eot || self.tokens.len() > self.max_target_positions;
        proof {
            let after = self@;
            assert(after == before.pushed(token));
            assert forall|i: int| after.prompt_len <= i < after.tokens.len() - 1 implies !after.ends_at(
                i,
            ) by {
                if i < before.tokens.len() - 1 {
                    assert(!before.ends_at(i));
                }
            }
            assert forall|i: int| after.prompt_len <= i < after.tokens.len() - 1 implies !(
            after.special.is_timestamp(#[trigger] after.tokens[i]) && after.special.is_timestamp(
                after.tokens[i + 1],
            )) by {
                if i < before.tokens.len() - 1 {
                    assert(after.tokens[i] == before.tokens[i]);
                    assert(after.tokens[i + 1] == before.tokens[i + 1]);
                }
            }
            assert forall|i: int| after.prompt_len <= i < after.tokens.len() implies !after.flagged(
                #[trigger] after.tokens[i] as int,
            ) by {
                if i < before.tokens.len() {
                    assert(after.tokens[i] == before.tokens[i]);
                    assert(!before.flagged(before.tokens[i] as int));
                }
            }
        }
        Ok(())
    }

    /// The tokens of the attempt.
    pub fn into_tokens(self) -> (tokens: Vec<u32>)
        ensures
            tokens@ == self@.tokens,
    {
        self.tokens
    }

    /// The result of the attempt: its tokens with the text and the measures
    /// that the caller took. A measure that was not taken is not-a-number:
    /// the no-speech probability of an attempt without a first step, and
    /// the compression ratio where the caller does not measure it.
    pub fn conclude(
        self,
        text: String,
        avg_logprob: Score,
        no_speech_prob: Option<Score>,
        temperature: Score,
        compression_ratio: Option<Score>,
    ) -> (dr: DecodingResult)
        ensures
            dr.tokens@ == self@.tokens,
            dr.text == text,
            dr.avg_logprob == avg_logprob,
            dr.no_speech_prob == match no_speech_prob {
                Some(p) => p,
                None => Score::not_a_number(),
            },
            dr.temperature == temperature,
            dr.compression_ratio == match compression_ratio {
                Some(c) => c,
                None => Score::not_a_number(),
            },
    {
        let no_speech_prob = match no_speech_prob {
            Some(p) => p,
            None => Score::not_a_number(),
        };
        let compression_ratio = match compression_ratio {
            Some(c) => c,
            None => Score::not_a_number(),
        };
        DecodingResult {
            tokens: self.tokens,
            text,
            avg_logprob,
            no_speech_prob,
            temperature,
            compression_ratio,
        }
    }
}

/// Why a decode attempt ended without a result.
#[derive(Debug)]
pub enum AttemptError<E> {
    /// The choice of a token failed: the model's error, or the sampler's.
    Step(E),
    /// A token was drawn that may not be generated, or the scores left no
    /// token to choose.
    Rule(DecodeError),
}

/// Whether `token` is what an attempt at `temperature` takes for the
/// generation `g`. At a temperature above zero it is a token that `draw`
/// drew for `g` and that `g` does not forbid. At every other temperature it
/// is the greedy choice among scores that `scores` gave for `g`.
pub open spec fn taken<
    E,
    S: Fn(&Generation) -> Result<Vec<Score>, E>,
    D: Fn(&Generation) -> Result<u32, E>,
>(temperature: Score, scores: S, draw: D, g: Generation, token: u32) -> bool {
    if temperature.above(Score { bits: 0 }) {
        call_ensures(draw, (&g,), Ok::<u32, E>(token)) && !g@.forbids(token)
    } else {
        exists|given: Vec<Score>| #[trigger]
            call_ensures(scores, (&g,), Ok::<Vec<Score>, E>(given)) && g@.greedy(given@, token)
    }
}

/// Whether `states` are the states that an attempt at `temperature` went
/// through, from the first on: each wanted a step, and the next state is
/// that state with the token pushed that the attempt takes for it.
pub open spec fn steps_chosen<
    E,
    S: Fn(&Generation) -> Result<Vec<Score>, E>,
    D: Fn(&Generation) -> Result<u32, E>,
>(temperature: Score, scores: S, draw: D, states: Seq<Generation>) -> bool {
    &&& states.len() >= 1
    &&& forall|i: int|
        0 <= i < states.len() - 1 ==> {
            let token = states[i + 1]@.tokens.last();
            &&& (#[trigger] states[i])@.wants_step()
            &&& taken(temperature, scores, draw, states[i], token)
            &&& states[i + 1]@ == states[i]@.pushed(token)
        }
}

/// Whether an attempt at `temperature` that stands at `g` fails there with
/// `error`. It fails with the error of the closure that it asks: `draw` at
/// a temperature above zero, `scores` at every other. It fails with a
/// refusal where `draw` drew a token that `g` forbids, and with
/// `DecodeError::NoToken` where `scores` gave scores that leave no choice.
pub open spec fn fails_at<
    E,
    S: Fn(&Generation) -> Result<Vec<Score>, E>,
    D: Fn(&Generation) -> Result<u32, E>,
>(temperature: Score, scores: S, draw: D, g: Generation, error: AttemptError<E>) -> bool {
    if temperature.above(Score { bits: 0 }) {
        match error {
            AttemptError::Step(e) => call_ensures(draw, (&g,), Err::<u32, E>(e)),
            AttemptError::Rule(e) => exists|token: u32| #[trigger]
                call_ensures(draw, (&g,), Ok::<u32, E>(token)) && g@.forbids(token) && e
                    == g@.refusal(token),
        }
    } else {
        match error {
            AttemptError::Step(e) => call_ensures(scores, (&g,), Err::<Vec<Score>, E>(e)),
            AttemptError::Rule(e) => e == DecodeError::NoToken && exists|given: Vec<Score>| #[trigger]
                call_ensures(scores, (&g,), Ok::<Vec<Score>, E>(given)) && !g@.has_choice(given@),
        }
    }
}

/// Runs a decode attempt at `temperature` from `start`. As long as a step
/// is wanted, the next token is chosen and pushed: at a temperature above
/// zero it is the token that `draw` draws, at every other the greedy choice
/// among the scores that `scores` gives, the entries left out that are
/// ruled out at that step. The attempt ends when no step is wanted any
/// more. It fails with the first error of a closure, when `draw` draws a
/// token that may not be generated, and when the scores leave no choice.
pub fn decode_at<
    E,
    S: Fn(&Generation) -> Result<Vec<Score>, E>,
    D: Fn(&Generation) -> Result<u32, E>,
>(start: Generation, temperature: Score, scores: S, draw: D) -> (r: Result<
    Generation,
    AttemptError<E>,
>)
    requires
        start@.wf(),
        forall|g: &Generation| g@.wf() && g@.wants_step() ==> call_requires(scores, (g,)),
        forall|g: &Generation| g@.wf() && g@.wants_step() ==> call_requires(draw, (g,)),
    ensures
        r matches Ok(g) ==> {
            &&& g@.wf()
            &&& !g@.wants_step()
            &&& g@.extends(start@)
            &&& exists|states: Seq<Generation>|
                #[trigger] steps_chosen(temperature, scores, draw, states) && states[0] == start
                    && states.last() == g
        },
        r matches Err(error) ==> exists|states: Seq<Generation>|
            {
                &&& #[trigger] steps_chosen(temperature, scores, draw, states)
                &&& states[0] == start
                &&& states.last()@.wf()
                &&& states.last()@.wants_step()
                &&& fails_at(temperature, scores, draw, states.last(), error)
            },
{
    let mut generation = start;
    let ghost mut states: Seq<Generation> = seq![generation];
    let sample = match selection(temperature) {
        Selection::Sample => true,
        Selection::Greedy => false,
    };
    assert(start@.tokens.take(start@.tokens.len() as int) == start@.tokens);
    loop
        invariant
            generation@.wf(),
            generation@.extends(start@),
            sample == temperature.above(Score { bits: 0 }),
            steps_chosen(temperature, scores, draw, states),
            states[0] == start,
            states.last() == generation,
            forall|g: &Generation| g@.wf() && g@.wants_step() ==> call_requires(scores, (g,)),
            forall|g: &Generation| g@.wf() && g@.wants_step() ==> call_requires(draw, (g,)),
        ensures
            generation@.wf(),
            generation@.extends(start@),
            !generation@.wants_step(),
            steps_chosen(temperature, scores, draw, states),
            states[0] == start,
            states.last() == generation,
        decreases generation@.sample_len() - generation@.steps(),
    {
        if !generation.wants_step() {
            break ;
        }
        let ghost before = generation;
        let token = if sample {
            match draw(&generation) {
                Ok(token) => token,
                Err(e) => {
                    return Err(AttemptError::Step(e));
                },
            }
        } else {
            let given = match scores(&generation) {
                Ok(given) => given,
                Err(e) => {
                    return Err(AttemptError::Step(e));
                },
            };
            match generation.pick_greedy(&given) {
                Some(token) => token,
                None => {
                    return Err(AttemptError::Rule(DecodeError::NoToken));
                },
            }
        };
        match generation.push(token) {
            Ok(()) => {},
            Err(e) => {
                return Err(AttemptError::Rule(e));
            },
        }
        proof {
            assert(taken(temperature, scores, draw, before, token));
            let grown = states.push(generation);
            assert forall|i: int| 0 <= i < grown.len() - 1 implies {
                let token = grown[i + 1]@.tokens.last();
                &&& (#[trigger] grown[i])@.wants_step()
                &&& taken(temperature, scores, draw, grown[i], token)
                &&& grown[i + 1]@ == grown[i]@.pushed(token)
            } by {
                if i < states.len() - 1 {
                    assert(grown[i] == states[i]);
                    assert(grown[i + 1] == states[i + 1]);
                } else {
                    assert(grown[i] == before);
                    assert(grown[i + 1] == generation);
                    assert(generation@.tokens.last() == token);
                }
            }
            assert(generation@.tokens.take(start@.tokens.len() as int) == before@.tokens.take(
                start@.tokens.len() as int,
            ));
            states = grown;
        }
    }
    Ok(generation)
}

/// At a step there is one greedy choice at most, and where it is a number,
/// no entry that is not ruled out is a greater number.
pub proof fn lemma_greedy_is_one(g: GenerationView, scores: Seq<Score>, a: u32, b: u32)
    requires
        g.greedy(scores, a),
    ensures
        g.greedy(scores, b) ==> a == b,
        b < scores.len() && !g.masked(b as int) ==> !scores[b as int].above(scores[a as int]),
        g.has_choice(scores),
{
    if b < scores.len() {
        lemma_total_order(scores[b as int], scores[a as int]);
    }
    assert(!g.masked(a as int));
}

/// Every token sequence of a generation begins with the start of transcript
/// and holds at most the prompt and one attempt's worth of tokens. Where the
/// model's limit leaves room for that many, the sequence stays within the
/// limit.
pub proof fn lemma_generation_bounded(g: GenerationView)
    requires
        g.wf(),
    ensures
        g.tokens.len() >= 1,
        g.tokens[0] == g.special.sot,
        g.tokens.len() <= g.prompt_len + g.sample_len(),
        g.prompt_len + g.sample_len() <= g.max_target_positions ==> g.tokens.len()
            <= g.max_target_positions,
{
}

/// Whatever the length of the prompt, only the last token of a generation
/// can lie beyond the model's limit.
pub proof fn lemma_generation_overshoot(g: GenerationView)
    requires
        g.wf(),
        g.steps() >= 2,
    ensures
        g.tokens.len() <= g.max_target_positions + 1,
{
    assert(!g.ends_at(g.tokens.len() - 2));
}

/// No two neighbours among the generated tokens are both timestamps, the
/// end of transcript occurs among them only as the last, and none of them
/// is a token that is never to be generated.
pub proof fn lemma_generation_sequence(g: GenerationView, i: int)
    requires
        g.wf(),
        g.prompt_len <= i < g.tokens.len() - 1,
    ensures
        !(g.special.is_timestamp(g.tokens[i]) && g.special.is_timestamp(g.tokens[i + 1])),
        g.tokens[i] != g.special.eot,
        !g.flagged(g.tokens[i] as int),
{
    assert(!g.ends_at(i));
}

} // verus!

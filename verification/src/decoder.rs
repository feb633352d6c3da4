//! The fixed part of a decoding engine: the special tokens, the task, and the
//! vocabulary entries that are never generated.

use crate::error::DecodeError;
use crate::generation::decode_at;
use crate::generation::fails_at;
use crate::generation::lemma_generation_bounded;
use crate::generation::steps_chosen;
use crate::generation::GenerationView;
use crate::generation::AttemptError;
use crate::generation::Generation;
use crate::score::Score;
use crate::vocab::vocabulary;
use crate::vocab::Lookups;
use crate::vocab::SpecialTokens;
use candle_transformers::models::whisper::Config;
use tokenizers::Tokenizer;
use vstd::prelude::*;

verus! {

/// The model configuration of `candle_transformers`: sizes and the list of
/// tokens that the model's authors suppress. All its fields are public.
#[verifier::external_type_specification]
pub struct ExConfig(candle_transformers::models::whisper::Config);

/// What the decoder is asked to produce.
#[derive(Clone, Copy, Debug, PartialEq, Eq, Structural)]
pub enum Task {
    Transcribe,
    Translate,
}

/// The token that asks the model for `task`; no task means transcription.
pub open spec fn task_token(special: SpecialTokens, task: Option<Task>) -> u32 {
    match task {
        Some(Task::Translate) => special.translate,
        _ => special.transcribe,
    }
}

/// The tokens that every generation starts from: start of transcript, the
/// language if one is known, the task, and the request for plain text when
/// timestamps are not wanted.
pub open spec fn prompt(
    special: SpecialTokens,
    language: Option<u32>,
    task: Option<Task>,
    timestamps: bool,
) -> Seq<u32> {
    seq![special.sot] + (match language {
        Some(token) => seq![token],
        None => Seq::<u32>::empty(),
    }) + seq![task_token(special, task)] + (if timestamps {
        Seq::<u32>::empty()
    } else {
        seq![special.no_timestamps]
    })
}

/// A prompt begins with the start of transcript and has two to four
/// tokens, so a model with room for eight tokens or more has room for the
/// prompt and all the tokens that one attempt generates.
pub proof fn lemma_prompt_fits(
    special: SpecialTokens,
    language: Option<u32>,
    task: Option<Task>,
    timestamps: bool,
    max_target_positions: nat,
)
    ensures
        2 <= prompt(special, language, task, timestamps).len() <= 4,
        prompt(special, language, task, timestamps)[0] == special.sot,
        max_target_positions >= 8 ==> prompt(special, language, task, timestamps).len()
            + max_target_positions / 2 <= max_target_positions,
{
}

/// Whether vocabulary entry `id` is never generated: the configuration
/// lists it, or timestamps are wanted and it is the request for plain text.
pub open spec fn always_suppressed(
    listed: Seq<u32>,
    timestamps: bool,
    no_timestamps: u32,
    id: int,
) -> bool {
    (exists|k: int| 0 <= k < listed.len() && #[trigger] listed[k] == id) || (timestamps && id
        == no_timestamps)
}

/// The mask of the entries that are never generated, one flag for each of
/// the `vocab_size` entries.
pub fn suppression_mask(
    vocab_size: usize,
    listed: &Vec<u32>,
    timestamps: bool,
    no_timestamps: u32,
) -> (mask: Vec<bool>)
    ensures
        mask.len() == vocab_size,
        forall|id: int|
            0 <= id < vocab_size ==> #[trigger] mask[id] == always_suppressed(
                listed@,
                timestamps,
                no_timestamps,
                id,
            ),
{
    let mut mask: Vec<bool> = Vec::new();
    let mut n: usize = 0;
    while n < vocab_size
        invariant
            n <= vocab_size,
            mask.len() == n,
            forall|id: int| 0 <= id < n ==> !#[trigger] mask[id],
        decreases vocab_size - n,
    {
        mask.push(false);
        n = n + 1;
    }
    let mut k: usize = 0;
    while k < listed.len()
        invariant
            k <= listed.len(),
            mask.len() == vocab_size,
            forall|id: int|
                0 <= id < vocab_size ==> #[trigger] mask[id] == (exists|j: int|
                    0 <= j < k && #[trigger] listed[j] == id),
        decreases listed.len() - k,
    {
        let id: usize = listed[k] as usize;
        if id < vocab_size {
            mask.set(id, true);
        }
        k = k + 1;
    }
    if timestamps && (no_timestamps as usize) < vocab_size {
        mask.set(no_timestamps as usize, true);
    }
    mask
}

/// The outcome of one decode attempt.
#[derive(Debug, Clone)]
pub struct DecodingResult {
    pub tokens: Vec<u32>,
    pub text: String,
    /// The mean of the log probabilities of the tokens.
    pub avg_logprob: Score,
    /// The probability, at the first step, of the no-speech token.
    pub no_speech_prob: Score,
    /// The temperature of the attempt.
    pub temperature: Score,
    /// How much the text repeats itself; not-a-number where not measured.
    pub compression_ratio: Score,
}

/// The fixed part of a decoding engine.
#[derive(Debug)]
pub struct Decoder {
    special: SpecialTokens,
    language_token: Option<u32>,
    task: Option<Task>,
    timestamps: bool,
    suppressed: Vec<bool>,
    max_target_positions: usize,
}

/// What a decoder is, to its callers.
pub struct DecoderView {
    pub special: SpecialTokens,
    pub language_token: Option<u32>,
    pub task: Option<Task>,
    pub timestamps: bool,
    pub suppressed: Seq<bool>,
    pub max_target_positions: nat,
}

impl DecoderView {
    /// The prompt of every generation of this decoder.
    pub open spec fn prompt(self) -> Seq<u32> {
        prompt(self.special, self.language_token, self.task, self.timestamps)
    }

    /// Whether entry `id` is never generated.
    pub open spec fn never(self, id: int) -> bool {
        0 <= id < self.suppressed.len() && self.suppressed[id]
    }

    /// Whether entry `id` is ruled out at a step: it is never generated, or
    /// it is a timestamp and the step follows a timestamp.
    pub open spec fn masked(self, after_timestamp: bool, id: int) -> bool {
        self.suppressed[id] || (after_timestamp && id > self.special.no_timestamps)
    }
}

impl View for Decoder {
    type V = DecoderView;

    closed spec fn view(&self) -> DecoderView {
        DecoderView {
            special: self.special,
            language_token: self.language_token,
            task: self.task,
            timestamps: self.timestamps,
            suppressed: self.suppressed@,
            max_target_positions: self.max_target_positions as nat,
        }
    }
}

impl Decoder {
    /// Whether `g` is a generation of this decoder at its prompt.
    pub open spec fn begins(&self, g: GenerationView) -> bool {
        &&& g.tokens == self@.prompt()
        &&& g.prompt_len == self@.prompt().len()
        &&& !g.stopped
        &&& g.special == self@.special
        &&& g.max_target_positions == self@.max_target_positions
        &&& g.suppressed == self@.suppressed
    }

    /// A decoder for a model of the given configuration, with the special
    /// tokens already looked up.
    pub fn with_tokens(
        config: &Config,
        special: SpecialTokens,
        language_token: Option<u32>,
        task: Option<Task>,
        timestamps: bool,
    ) -> (d: Decoder)
        ensures
            d@.special == special,
            d@.language_token == language_token,
            d@.task == task,
            d@.timestamps == timestamps,
            d@.max_target_positions == config.max_target_positions,
            d@.suppressed.len() == config.vocab_size,
            forall|id: int|
                0 <= id < config.vocab_size ==> #[trigger] d@.suppressed[id] == always_suppressed(
                    config.suppress_tokens@,
                    timestamps,
                    special.no_timestamps,
                    id,
                ),
    {
        let suppressed = suppression_mask(
            config.vocab_size,
            &config.suppress_tokens,
            timestamps,
            special.no_timestamps,
        );
        Decoder {
            special,
            language_token,
            task,
            timestamps,
            suppressed,
            max_target_positions: config.max_target_positions,
        }
    }

    /// A decoder for a model of the given configuration, whose special
    /// tokens are those of the tokenizer's vocabulary: the decoder that
    /// `with_tokens` makes of them. Where the vocabulary lacks one of them,
    /// the error is that of `SpecialTokens::find`.
    pub fn new(
        config: &Config,
        tokenizer: &Tokenizer,
        language_token: Option<u32>,
        task: Option<Task>,
        timestamps: bool,
    ) -> (r: Result<Decoder, DecodeError>)
        ensures
            r is Ok <==> Lookups::of(vocabulary(*tokenizer)).complete(),
            r matches Ok(d) ==> {
                &&& d@.special == Lookups::of(vocabulary(*tokenizer)).tokens()
                &&& d@.language_token == language_token
                &&& d@.task == task
                &&& d@.timestamps == timestamps
                &&& d@.max_target_positions == config.max_target_positions
                &&& d@.suppressed.len() == config.vocab_size
                &&& forall|id: int|
                    0 <= id < config.vocab_size ==> #[trigger] d@.suppressed[id]
                        == always_suppressed(
                        config.suppress_tokens@,
                        timestamps,
                        d@.special.no_timestamps,
                        id,
                    )
            },
            r matches Err(e) ==> match Lookups::of(vocabulary(*tokenizer)).first_missing() {
                Some(missing) => e matches DecodeError::UnknownToken(name) && name@ == missing,
                None => e is NoSpeechToken,
            },
    {
        match SpecialTokens::find(tokenizer) {
            Ok(special) => Ok(
                Decoder::with_tokens(config, special, language_token, task, timestamps),
            ),
            Err(e) => Err(e),
        }
    }

    /// The special tokens of this decoder.
    pub fn special(&self) -> (s: SpecialTokens)
        ensures
            s == self@.special,
    {
        self.special
    }

    /// Whether timestamps are wanted.
    pub fn timestamps(&self) -> (b: bool)
        ensures
            b == self@.timestamps,
    {
        self.timestamps
    }

    /// The entries that are ruled out at a step, one flag for each entry of
    /// the vocabulary.
    pub fn mask(&self, after_timestamp: bool) -> (mask: Vec<bool>)
        ensures
            mask.len() == self@.suppressed.len(),
            forall|id: int|
                0 <= id < mask.len() ==> #[trigger] mask[id] == self@.masked(after_timestamp, id),
    {
        let mut mask: Vec<bool> = Vec::new();
        let mut id: usize = 0;
        while id < self.suppressed.len()
            invariant
                id <= self.suppressed.len(),
                mask.len() == id,
                forall|j: int| 0 <= j < id ==> #[trigger] mask[j] == self@.masked(after_timestamp, j),
            decreases self.suppressed.len() - id,
        {
            let timestamp = after_timestamp && id > self.special.no_timestamps as usize;
            mask.push(self.suppressed[id] || timestamp);
            id = id + 1;
        }
        mask
    }

    /// One decode attempt at `temperature`: a generation from the prompt of
    /// this decoder, token by token, until no step is wanted. At a
    /// temperature above zero each token is the one that `draw` draws; at
    /// every other it is the greedy choice among the scores that `scores`
    /// gives, the entries left out that this decoder rules out at that
    /// step. No token after the prompt is one that is never to be
    /// generated, and no timestamp follows a timestamp. The attempt fails
    /// as `decode_at` does.
    pub fn decode<
        E,
        S: Fn(&Generation) -> Result<Vec<Score>, E>,
        D: Fn(&Generation) -> Result<u32, E>,
    >(&self, temperature: Score, scores: S, draw: D) -> (r: Result<Generation, AttemptError<E>>)
        requires
            forall|g: &Generation| g@.wf() && g@.wants_step() ==> call_requires(scores, (g,)),
            forall|g: &Generation| g@.wf() && g@.wants_step() ==> call_requires(draw, (g,)),
        ensures
            r matches Ok(g) ==> {
                &&& g@.wf()
                &&& !g@.wants_step()
                &&& g@.special == self@.special
                &&& g@.max_target_positions == self@.max_target_positions
                &&& g@.suppressed == self@.suppressed
                &&& g@.prompt_len == self@.prompt().len()
                &&& g@.tokens.take(g@.prompt_len as int) == self@.prompt()
                &&& g@.tokens[0] == self@.special.sot
                &&& g@.tokens.len() <= g@.prompt_len + g@.sample_len()
                &&& self@.max_target_positions >= 8 ==> g@.tokens.len()
                    <= self@.max_target_positions
                &&& forall|i: int|
                    g@.prompt_len <= i < g@.tokens.len() ==> !self@.never(#[trigger] g@.tokens[i] as int)
                &&& exists|states: Seq<Generation>|
                    {
                        &&& #[trigger] steps_chosen(temperature, scores, draw, states)
                        &&& self.begins(states[0]@)
                        &&& states.last() == g
                    }
            },
            r matches Err(error) ==> exists|states: Seq<Generation>|
                {
                    &&& #[trigger] steps_chosen(temperature, scores, draw, states)
                    &&& self.begins(states[0]@)
                    &&& states.last()@.wf()
                    &&& states.last()@.wants_step()
                    &&& fails_at(temperature, scores, draw, states.last(), error)
                },
    {
        proof {
            lemma_prompt_fits(
                self@.special,
                self@.language_token,
                self@.task,
                self@.timestamps,
                self@.max_target_positions,
            );
        }
        let start = self.begin();
        let r = decode_at(start, temperature, scores, draw);
        proof {
            if r is Ok {
                let g = r->Ok_0;
                lemma_generation_bounded(g@);
                assert forall|i: int| g@.prompt_len <= i < g@.tokens.len() implies !self@.never(
                    #[trigger] g@.tokens[i] as int,
                ) by {
                    assert(!g@.flagged(g@.tokens[i] as int));
                }
            }
        }
        r
    }

    /// A generation at its prompt.
    pub fn begin(&self) -> (g: Generation)
        ensures
            g@.wf(),
            self.begins(g@),
    {
        let mut tokens: Vec<u32> = Vec::new();
        tokens.push(self.special.sot);
        if let Some(language_token) = self.language_token {
            tokens.push(language_token);
        }
        match self.task {
            None | Some(Task::Transcribe) => tokens.push(self.special.transcribe),
            Some(Task::Translate) => tokens.push(self.special.translate),
        }
        if !self.timestamps {
            tokens.push(self.special.no_timestamps);
        }
        let suppressed = self.mask(false);
        assert(suppressed@ == self@.suppressed);
        assert(tokens@ == self@.prompt());
        Generation::with_mask(tokens, self.special, self.max_target_positions, suppressed)
    }
}

} // verus!

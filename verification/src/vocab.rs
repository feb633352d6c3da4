//! The vocabulary entries that steer decoding, looked up by name in the
//! tokenizer.

use crate::error::DecodeError;
use tokenizers::decoders::DecoderWrapper;
use tokenizers::Tokenizer;
use vstd::prelude::*;
use vstd::string::StringExecFns;

verus! {

pub const SOT_TOKEN: &'static str = "<|startoftranscript|>";

pub const TRANSCRIBE_TOKEN: &'static str = "<|transcribe|>";

pub const TRANSLATE_TOKEN: &'static str = "<|translate|>";

pub const NO_TIMESTAMPS_TOKEN: &'static str = "<|notimestamps|>";

pub const EOT_TOKEN: &'static str = "<|endoftext|>";

/// The older of the two names under which vocabularies hold the no-speech
/// token; it is tried first.
pub const NO_CAPTIONS_TOKEN: &'static str = "<|nocaptions|>";

pub const NO_SPEECH_TOKEN: &'static str = "<|nospeech|>";

/// The tokenizer of the `tokenizers` crate. Its vocabulary is not modelled.
#[verifier::external_type_specification]
#[verifier::external_body]
pub struct ExTokenizer(tokenizers::Tokenizer);

/// The vocabulary of a tokenizer: the tokens that it holds, added tokens
/// included, each with its id.
pub uninterp spec fn vocabulary(tokenizer: Tokenizer) -> Map<Seq<char>, u32>;

/// The id of `token` in a vocabulary, if the vocabulary holds the token.
pub open spec fn id_in(vocabulary: Map<Seq<char>, u32>, token: Seq<char>) -> Option<u32> {
    if vocabulary.contains_key(token) {
        Some(vocabulary[token])
    } else {
        None
    }
}

/// `Tokenizer::token_to_id`: the id that the tokenizer's vocabulary gives
/// `token`, or `None` where it does not hold the token.
#[verifier::external_body]
fn lookup(tokenizer: &Tokenizer, token: &str) -> (id: Option<u32>)
    ensures
        id == id_in(vocabulary(*tokenizer), token@),
{
    tokenizer.token_to_id(token)
}

/// How a tokenizer turns tokens into text.
#[derive(Clone, Copy, Debug, PartialEq, Eq, Structural)]
pub enum DecoderKind {
    /// Without a decoder: the tokens are joined by spaces.
    Joined,
    Bpe,
    ByteLevel,
    WordPiece,
    Metaspace,
    Ctc,
    Sequence,
    Replace,
    Fuse,
    Strip,
    ByteFallback,
}

/// The decoder that a tokenizer holds.
pub uninterp spec fn decoder_of(tokenizer: Tokenizer) -> DecoderKind;

/// Whether texts are asked of a decoder of this kind. Left out are the
/// decoders that break down on some tokens: `Strip`, which cuts tokens
/// without looking at their length; `Bpe`, which counts down from the number
/// of tokens, of which there may be none; `Sequence`, which may hold either;
/// and `Replace`, which hands the tokens to a pattern engine.
pub open spec fn spec_supported(kind: DecoderKind) -> bool {
    match kind {
        DecoderKind::Joined
        | DecoderKind::ByteLevel
        | DecoderKind::WordPiece
        | DecoderKind::Metaspace
        | DecoderKind::Ctc
        | DecoderKind::Fuse
        | DecoderKind::ByteFallback => true,
        DecoderKind::Bpe | DecoderKind::Sequence | DecoderKind::Replace | DecoderKind::Strip => false,
    }
}

/// Whether texts are asked of a decoder of this kind.
#[verifier::when_used_as_spec(spec_supported)]
pub fn supported(kind: DecoderKind) -> (b: bool)
    ensures
        b == spec_supported(kind),
{
    match kind {
        DecoderKind::Joined
        | DecoderKind::ByteLevel
        | DecoderKind::WordPiece
        | DecoderKind::Metaspace
        | DecoderKind::Ctc
        | DecoderKind::Fuse
        | DecoderKind::ByteFallback => true,
        DecoderKind::Bpe | DecoderKind::Sequence | DecoderKind::Replace | DecoderKind::Strip => false,
    }
}

/// `TokenizerImpl::get_decoder`: the decoder that the tokenizer holds, by
/// its variant, or `Joined` where it holds none.
#[verifier::external_body]
fn decoder_variant(tokenizer: &Tokenizer) -> (kind: DecoderKind)
    ensures
        kind == decoder_of(*tokenizer),
{
    match tokenizer.get_decoder() {
        None => DecoderKind::Joined,
        Some(DecoderWrapper::BPE(_)) => DecoderKind::Bpe,
        Some(DecoderWrapper::ByteLevel(_)) => DecoderKind::ByteLevel,
        Some(DecoderWrapper::WordPiece(_)) => DecoderKind::WordPiece,
        Some(DecoderWrapper::Metaspace(_)) => DecoderKind::Metaspace,
        Some(DecoderWrapper::CTC(_)) => DecoderKind::Ctc,
        Some(DecoderWrapper::Sequence(_)) => DecoderKind::Sequence,
        Some(DecoderWrapper::Replace(_)) => DecoderKind::Replace,
        Some(DecoderWrapper::Fuse(_)) => DecoderKind::Fuse,
        Some(DecoderWrapper::Strip(_)) => DecoderKind::Strip,
        Some(DecoderWrapper::ByteFallback(_)) => DecoderKind::ByteFallback,
    }
}

/// The kind of decoder that the tokenizer holds.
pub fn decoder_kind(tokenizer: &Tokenizer) -> (kind: DecoderKind)
    ensures
        kind == decoder_of(*tokenizer),
{
    decoder_variant(tokenizer)
}

/// The texts of a tokenizer: for a sequence of ids, and the choice to leave
/// special tokens out, the text that the tokenizer decodes it to. A
/// sequence that the tokenizer fails on has none.
pub uninterp spec fn texts(tokenizer: Tokenizer) -> Map<(Seq<u32>, bool), Seq<char>>;

/// The text of `ids` without special tokens, if they have one.
pub open spec fn text_in(texts: Map<(Seq<u32>, bool), Seq<char>>, ids: Seq<u32>) -> Option<
    Seq<char>,
> {
    if texts.contains_key((ids, true)) {
        Some(texts[(ids, true)])
    } else {
        None
    }
}

/// `Tokenizer::decode`: the text that the tokenizer decodes `ids` to,
/// special tokens left out when `skip_special_tokens` is set, or the words
/// of the tokenizer's error. It is asked only of tokenizers whose decoder
/// takes every sequence of tokens; none of those decoders has an error to
/// give, so there is a text.
#[verifier::external_body]
fn decode_ids(tokenizer: &Tokenizer, ids: &Vec<u32>, skip_special_tokens: bool) -> (text: Result<
    String,
    String,
>)
    requires
        supported(decoder_of(*tokenizer)),
    ensures
        text is Ok,
        match text {
            Ok(t) => texts(*tokenizer).contains_key((ids@, skip_special_tokens)) && texts(
                *tokenizer,
            )[(ids@, skip_special_tokens)] == t@,
            Err(_) => !texts(*tokenizer).contains_key((ids@, skip_special_tokens)),
        },
{
    match tokenizer.decode(ids.as_slice(), skip_special_tokens) {
        Ok(text) => Ok(text),
        Err(e) => Err(e.to_string()),
    }
}

/// What a lookup of `token` amounts to: the id found, or the error that names
/// the token.
pub fn found_or_unknown(found: Option<u32>, token: &str) -> (r: Result<u32, DecodeError>)
    ensures
        match found {
            Some(id) => r == Ok::<u32, DecodeError>(id),
            None => r matches Err(DecodeError::UnknownToken(name)) && name@ == token@,
        },
{
    match found {
        Some(id) => Ok(id),
        None => Err(DecodeError::UnknownToken(String::from_str(token))),
    }
}

/// The id of `token` in the tokenizer's vocabulary; where the vocabulary
/// does not hold the token, the error that names it.
pub fn token_id(tokenizer: &Tokenizer, token: &str) -> (r: Result<u32, DecodeError>)
    ensures
        match id_in(vocabulary(*tokenizer), token@) {
            Some(id) => r == Ok::<u32, DecodeError>(id),
            None => r matches Err(DecodeError::UnknownToken(name)) && name@ == token@,
        },
{
    found_or_unknown(lookup(tokenizer, token), token)
}

/// The text of `ids` without special tokens, as the tokenizer decodes them.
/// The tokenizer is one whose decoder is supported; such a tokenizer has a
/// text for every sequence of ids.
pub fn text_of(tokenizer: &Tokenizer, ids: &Vec<u32>) -> (r: Result<String, DecodeError>)
    requires
        supported(decoder_of(*tokenizer)),
    ensures
        r is Ok,
        match text_in(texts(*tokenizer), ids@) {
            Some(text) => r matches Ok(t) && t@ == text,
            None => r matches Err(e) && e is Tokenizer,
        },
{
    match decode_ids(tokenizer, ids, true) {
        Ok(text) => Ok(text),
        Err(words) => Err(DecodeError::Tokenizer(words)),
    }
}

/// The text of `ids` as `text_of` gives it, for a tokenizer of any kind: a
/// tokenizer whose decoder is not supported is asked for nothing and gives
/// `DecodeError::UnsupportedDecoder`.
pub fn checked_text_of(tokenizer: &Tokenizer, ids: &Vec<u32>) -> (r: Result<String, DecodeError>)
    ensures
        r is Ok <==> supported(decoder_of(*tokenizer)),
        !supported(decoder_of(*tokenizer)) ==> (r matches Err(e) && e is UnsupportedDecoder),
        supported(decoder_of(*tokenizer)) ==> match text_in(texts(*tokenizer), ids@) {
            Some(text) => r matches Ok(t) && t@ == text,
            None => r matches Err(e) && e is Tokenizer,
        },
{
    if supported(decoder_kind(tokenizer)) {
        text_of(tokenizer, ids)
    } else {
        Err(DecodeError::UnsupportedDecoder)
    }
}

/// The ids of the tokens that structure a transcript.
#[derive(Clone, Copy, Debug, PartialEq, Eq, Structural)]
pub struct SpecialTokens {
    /// Start of transcript: the first token of every prompt.
    pub sot: u32,
    pub transcribe: u32,
    pub translate: u32,
    /// End of transcript: generation stops after it.
    pub eot: u32,
    /// The entry whose probability at the first step is the no-speech
    /// probability.
    pub no_speech: u32,
    /// Asks for text without timestamps; every larger id is a timestamp.
    pub no_timestamps: u32,
}

/// What the tokenizer answered for each of the names.
#[derive(Clone, Copy, Debug, PartialEq, Eq, Structural)]
pub struct Lookups {
    pub no_timestamps: Option<u32>,
    pub sot: Option<u32>,
    pub transcribe: Option<u32>,
    pub translate: Option<u32>,
    pub eot: Option<u32>,
    pub no_captions: Option<u32>,
    pub no_speech: Option<u32>,
}

impl Lookups {
    /// What a vocabulary answers for each of the names.
    pub open spec fn of(vocabulary: Map<Seq<char>, u32>) -> Lookups {
        Lookups {
            no_timestamps: id_in(vocabulary, NO_TIMESTAMPS_TOKEN@),
            sot: id_in(vocabulary, SOT_TOKEN@),
            transcribe: id_in(vocabulary, TRANSCRIBE_TOKEN@),
            translate: id_in(vocabulary, TRANSLATE_TOKEN@),
            eot: id_in(vocabulary, EOT_TOKEN@),
            no_captions: id_in(vocabulary, NO_CAPTIONS_TOKEN@),
            no_speech: id_in(vocabulary, NO_SPEECH_TOKEN@),
        }
    }

    /// Whether every special token was found.
    pub open spec fn complete(self) -> bool {
        self.first_missing() is None && self.no_speech_id() is Some
    }

    /// The name of the first token that is required and was not found, in
    /// the order in which a decoder needs them.
    pub open spec fn first_missing(self) -> Option<Seq<char>> {
        if self.no_timestamps is None {
            Some(NO_TIMESTAMPS_TOKEN@)
        } else if self.sot is None {
            Some(SOT_TOKEN@)
        } else if self.transcribe is None {
            Some(TRANSCRIBE_TOKEN@)
        } else if self.translate is None {
            Some(TRANSLATE_TOKEN@)
        } else if self.eot is None {
            Some(EOT_TOKEN@)
        } else {
            None
        }
    }

    /// The no-speech token: the first of its two names that has an id.
    pub open spec fn no_speech_id(self) -> Option<u32> {
        if self.no_captions is Some {
            self.no_captions
        } else {
            self.no_speech
        }
    }

    /// The special tokens, where all were found.
    pub open spec fn tokens(self) -> SpecialTokens {
        SpecialTokens {
            sot: self.sot->0,
            transcribe: self.transcribe->0,
            translate: self.translate->0,
            eot: self.eot->0,
            no_speech: self.no_speech_id()->0,
            no_timestamps: self.no_timestamps->0,
        }
    }

    /// The special tokens, or what is missing: the first required token
    /// without an id, and after those the no-speech token.
    pub fn resolve(&self) -> (r: Result<SpecialTokens, DecodeError>)
        ensures
            r is Ok <==> self.complete(),
            r matches Ok(t) ==> t == self.tokens(),
            r matches Err(e) ==> match self.first_missing() {
                Some(missing) => e matches DecodeError::UnknownToken(name) && name@ == missing,
                None => e is NoSpeechToken,
            },
    {
        let no_timestamps = found_or_unknown(self.no_timestamps, NO_TIMESTAMPS_TOKEN)?;
        let sot = found_or_unknown(self.sot, SOT_TOKEN)?;
        let transcribe = found_or_unknown(self.transcribe, TRANSCRIBE_TOKEN)?;
        let translate = found_or_unknown(self.translate, TRANSLATE_TOKEN)?;
        let eot = found_or_unknown(self.eot, EOT_TOKEN)?;
        let no_speech = match self.no_captions {
            Some(id) => id,
            None => match self.no_speech {
                Some(id) => id,
                None => {
                    return Err(DecodeError::NoSpeechToken);
                },
            },
        };
        Ok(SpecialTokens { sot, transcribe, translate, eot, no_speech, no_timestamps })
    }
}

impl SpecialTokens {
    /// The special tokens of the tokenizer's vocabulary, or what is missing
    /// in it, as `Lookups::resolve` says.
    pub fn find(tokenizer: &Tokenizer) -> (r: Result<SpecialTokens, DecodeError>)
        ensures
            r is Ok <==> Lookups::of(vocabulary(*tokenizer)).complete(),
            r matches Ok(t) ==> t == Lookups::of(vocabulary(*tokenizer)).tokens(),
            r matches Err(e) ==> match Lookups::of(vocabulary(*tokenizer)).first_missing() {
                Some(missing) => e matches DecodeError::UnknownToken(name) && name@ == missing,
                None => e is NoSpeechToken,
            },
    {
        let answers = Lookups {
            no_timestamps: lookup(tokenizer, NO_TIMESTAMPS_TOKEN),
            sot: lookup(tokenizer, SOT_TOKEN),
            transcribe: lookup(tokenizer, TRANSCRIBE_TOKEN),
            translate: lookup(tokenizer, TRANSLATE_TOKEN),
            eot: lookup(tokenizer, EOT_TOKEN),
            no_captions: lookup(tokenizer, NO_CAPTIONS_TOKEN),
            no_speech: lookup(tokenizer, NO_SPEECH_TOKEN),
        };
        answers.resolve()
    }

    /// Whether `token` stands for a time offset.
    pub open spec fn is_timestamp(self, token: u32) -> bool {
        token > self.no_timestamps
    }
}

} // verus!

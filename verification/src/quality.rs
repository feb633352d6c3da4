//! The measures by which a decode attempt is judged, and their thresholds.

use crate::decoder::DecodingResult;
use crate::score::Score;
use crate::score::lemma_comparisons;
use vstd::prelude::*;

verus! {

/// 0.6: above it a window counts as probably silent.
pub const NO_SPEECH_THRESHOLD_BITS: u64 = 0x3FE3_3333_3333_3333;

/// -1.0: below it the average log probability of the tokens is too low.
pub const LOGPROB_THRESHOLD_BITS: u64 = 0xBFF0_0000_0000_0000;

/// 2.4: above it the text repeats itself too much.
pub const COMPRESSION_RATIO_THRESHOLD_BITS: u64 = 0x4003_3333_3333_3333;

pub open spec fn spec_no_speech_threshold() -> Score {
    Score { bits: NO_SPEECH_THRESHOLD_BITS }
}

pub open spec fn spec_logprob_threshold() -> Score {
    Score { bits: LOGPROB_THRESHOLD_BITS }
}

pub open spec fn spec_compression_ratio_threshold() -> Score {
    Score { bits: COMPRESSION_RATIO_THRESHOLD_BITS }
}

#[verifier::when_used_as_spec(spec_no_speech_threshold)]
pub fn no_speech_threshold() -> (t: Score)
    ensures
        t == spec_no_speech_threshold(),
{
    Score::from_bits(NO_SPEECH_THRESHOLD_BITS)
}

#[verifier::when_used_as_spec(spec_logprob_threshold)]
pub fn logprob_threshold() -> (t: Score)
    ensures
        t == spec_logprob_threshold(),
{
    Score::from_bits(LOGPROB_THRESHOLD_BITS)
}

#[verifier::when_used_as_spec(spec_compression_ratio_threshold)]
pub fn compression_ratio_threshold() -> (t: Score)
    ensures
        t == spec_compression_ratio_threshold(),
{
    Score::from_bits(COMPRESSION_RATIO_THRESHOLD_BITS)
}

/// The text of an attempt is poor: too repetitive or too unlikely. A measure
/// that is not-a-number counts for nothing here.
pub open spec fn spec_needs_fallback(dr: &DecodingResult) -> bool {
    dr.compression_ratio.above(compression_ratio_threshold()) || dr.avg_logprob.below(
        logprob_threshold(),
    )
}

/// The attempt is confident that the window holds no speech.
pub open spec fn spec_probably_silent(dr: &DecodingResult) -> bool {
    dr.no_speech_prob.above(no_speech_threshold())
}

/// An attempt is accepted when its text is good enough, or when it is
/// confident of silence, however poor the text.
pub open spec fn spec_acceptable(dr: &DecodingResult) -> bool {
    !spec_needs_fallback(dr) || spec_probably_silent(dr)
}

/// A window is silence when the result is confident of silence and its text
/// is unlikely, both at once.
pub open spec fn spec_is_silence(dr: &DecodingResult) -> bool {
    spec_probably_silent(dr) && dr.avg_logprob.below(logprob_threshold())
}

#[verifier::when_used_as_spec(spec_needs_fallback)]
pub fn needs_fallback(dr: &DecodingResult) -> (b: bool)
    ensures
        b == spec_needs_fallback(dr),
{
    dr.compression_ratio.gt(compression_ratio_threshold()) || dr.avg_logprob.lt(
        logprob_threshold(),
    )
}

#[verifier::when_used_as_spec(spec_acceptable)]
pub fn acceptable(dr: &DecodingResult) -> (b: bool)
    ensures
        b == spec_acceptable(dr),
{
    !needs_fallback(dr) || dr.no_speech_prob.gt(no_speech_threshold())
}

#[verifier::when_used_as_spec(spec_is_silence)]
pub fn is_silence(dr: &DecodingResult) -> (b: bool)
    ensures
        b == spec_is_silence(dr),
{
    dr.no_speech_prob.gt(no_speech_threshold()) && dr.avg_logprob.lt(logprob_threshold())
}

/// Where the compression ratio and the average log probability are numbers,
/// an attempt is accepted exactly when the ratio is at most its threshold
/// and the log probability at least its own, or the no-speech probability
/// is above its threshold.
pub proof fn lemma_acceptable_of_numbers(dr: &DecodingResult)
    requires
        !dr.compression_ratio.is_nan(),
        !dr.avg_logprob.is_nan(),
    ensures
        acceptable(dr) <==> (dr.compression_ratio.at_most(compression_ratio_threshold())
            && dr.avg_logprob.at_least(logprob_threshold())) || dr.no_speech_prob.above(
            no_speech_threshold(),
        ),
{
    lemma_comparisons(dr.compression_ratio, compression_ratio_threshold());
    lemma_comparisons(dr.avg_logprob, logprob_threshold());
}

} // verus!

//! What is settled about the audio of a file before it is decoded.

use crate::segments::SAMPLE_RATE;
use vstd::prelude::*;

verus! {

/// The mel filter banks that come with the engine.
#[derive(Clone, Copy, Debug, PartialEq, Eq, Structural)]
pub enum MelFilters {
    /// For models that hear 80 mel bins.
    Bins80,
    /// For models that hear 128 mel bins.
    Bins128,
}

/// The model asks for a number of mel bins for which there are no filters.
#[derive(Clone, Copy, Debug, PartialEq, Eq, Structural)]
pub struct UnexpectedMelBins(pub usize);

/// The filter bank for a model that hears `num_mel_bins` mel bins.
pub fn mel_filters_for(num_mel_bins: usize) -> (r: Result<MelFilters, UnexpectedMelBins>)
    ensures
        r == if num_mel_bins == 80 {
            Ok::<MelFilters, UnexpectedMelBins>(MelFilters::Bins80)
        } else if num_mel_bins == 128 {
            Ok(MelFilters::Bins128)
        } else {
            Err(UnexpectedMelBins(num_mel_bins))
        },
{
    if num_mel_bins == 80 {
        Ok(MelFilters::Bins80)
    } else if num_mel_bins == 128 {
        Ok(MelFilters::Bins128)
    } else {
        Err(UnexpectedMelBins(num_mel_bins))
    }
}

/// The number of filter weights in a bank of `bytes` bytes: four bytes hold
/// one.
pub fn filter_count(bytes: usize) -> (n: usize)
    ensures
        n == bytes / 4,
{
    bytes / 4
}

/// Audio is resampled unless it comes at the rate that the model hears.
pub fn needs_resampling(sample_rate: u32) -> (b: bool)
    ensures
        b == (sample_rate != SAMPLE_RATE),
{
    sample_rate as usize != SAMPLE_RATE
}

/// The number of frames of a spectrogram of `mel_len` values in
/// `num_mel_bins` bins.
pub fn content_frames(mel_len: usize, num_mel_bins: usize) -> (frames: usize)
    requires
        num_mel_bins > 0,
    ensures
        frames == mel_len / num_mel_bins,
{
    mel_len / num_mel_bins
}

} // verus!

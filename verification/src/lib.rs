//! Verified core of a continuous screen and audio recorder: the lifecycle
//! rules of the recording supervisor and the decoding policy that turns
//! spectrogram windows into timestamped transcript segments.
//!
//! The decoding engine drives a speech model that it does not look into:
//! `segments` cuts a spectrogram into windows, `fallback` decodes a window
//! at rising temperatures, `generation` grows the token sequence of one
//! attempt, `selection` and `decoder` say which token may be taken, `quality`
//! judges the result and `spans` reads the timestamps in it. Real-valued
//! measures are held as the bit patterns of doubles (`score`), so that every
//! comparison the engine makes is exact.
//!
//! The recording side is in `control`, the supervisor's account of its
//! workers under one stop flag, and `workers`, the rounds of a capture
//! worker.

pub mod audio;
pub mod control;
pub mod decoder;
pub mod error;
pub mod fallback;
pub mod generation;
pub mod model;
pub mod quality;
pub mod score;
pub mod segments;
pub mod selection;
pub mod spans;
pub mod vocab;
pub mod workers;

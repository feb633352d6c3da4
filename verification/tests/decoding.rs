use candle_transformers::models::whisper::Config;
use screenpipe_core::decoder::{suppression_mask, Decoder, DecodingResult, Task};
use screenpipe_core::error::DecodeError;
use screenpipe_core::fallback::{Fallback, Verdict};
use screenpipe_core::generation::Generation;
use screenpipe_core::quality::{acceptable, is_silence, needs_fallback};
use screenpipe_core::score::Score;
use screenpipe_core::segments::{transcript, Run, Segment, Window, HOP_LENGTH, N_FRAMES};
use screenpipe_core::vocab::SpecialTokens;

const SOT: u32 = 100;
const TRANSCRIBE: u32 = 101;
const TRANSLATE: u32 = 102;
const EOT: u32 = 103;
const NO_SPEECH: u32 = 104;
const NO_TIMESTAMPS: u32 = 105;
const LANGUAGE: u32 = 50;

fn special() -> SpecialTokens {
    SpecialTokens {
        sot: SOT,
        transcribe: TRANSCRIBE,
        translate: TRANSLATE,
        eot: EOT,
        no_speech: NO_SPEECH,
        no_timestamps: NO_TIMESTAMPS,
    }
}

fn config(vocab_size: usize, max_target_positions: usize, suppress_tokens: Vec<u32>) -> Config {
    Config {
        num_mel_bins: 80,
        max_source_positions: 1500,
        d_model: 384,
        encoder_attention_heads: 6,
        encoder_layers: 4,
        vocab_size,
        max_target_positions,
        decoder_attention_heads: 6,
        decoder_layers: 4,
        suppress_tokens,
    }
}

fn s(value: f64) -> Score {
    Score::from_bits(value.to_bits())
}

fn result(avg_logprob: f64, no_speech_prob: f64, compression_ratio: f64) -> DecodingResult {
    DecodingResult {
        tokens: vec![SOT, 7, EOT],
        text: String::from("words"),
        avg_logprob: s(avg_logprob),
        no_speech_prob: s(no_speech_prob),
        temperature: s(0.0),
        compression_ratio: s(compression_ratio),
    }
}

#[test]
fn prompt_with_language_and_timestamps() {
    let d = Decoder::with_tokens(&config(120, 448, vec![]), special(), Some(LANGUAGE), None, true);
    assert_eq!(d.begin().tokens(), &vec![SOT, LANGUAGE, TRANSCRIBE]);
}

#[test]
fn prompt_without_language_or_timestamps() {
    let d = Decoder::with_tokens(
        &config(120, 448, vec![]),
        special(),
        None,
        Some(Task::Transcribe),
        false,
    );
    assert_eq!(d.begin().tokens(), &vec![SOT, TRANSCRIBE, NO_TIMESTAMPS]);
}

#[test]
fn prompt_for_translation() {
    let d = Decoder::with_tokens(
        &config(120, 448, vec![]),
        special(),
        Some(LANGUAGE),
        Some(Task::Translate),
        false,
    );
    assert_eq!(d.begin().tokens(), &vec![SOT, LANGUAGE, TRANSLATE, NO_TIMESTAMPS]);
    assert_eq!(d.special(), special());
    assert!(!d.timestamps());
}

#[test]
fn suppression_mask_marks_listed_tokens() {
    let mask = suppression_mask(8, &vec![1, 6, 6, 9], false, 3);
    assert_eq!(mask, vec![false, true, false, false, false, false, true, false]);
}

#[test]
fn suppression_mask_marks_no_timestamps_when_timestamps_are_wanted() {
    let mask = suppression_mask(8, &vec![1], true, 3);
    assert_eq!(mask, vec![false, true, false, true, false, false, false, false]);
    let outside = suppression_mask(3, &vec![], true, 3);
    assert_eq!(outside, vec![false, false, false]);
    let empty = suppression_mask(0, &vec![1], true, 3);
    assert_eq!(empty, Vec::<bool>::new());
}

#[test]
fn step_mask_adds_timestamps_after_a_timestamp() {
    let d = Decoder::with_tokens(&config(110, 448, vec![2]), special(), None, None, true);
    let plain = d.mask(false);
    let after = d.mask(true);
    assert_eq!(plain.len(), 110);
    assert_eq!(after.len(), 110);
    for id in 0..110usize {
        let always = id == 2 || id == NO_TIMESTAMPS as usize;
        assert_eq!(plain[id], always);
        assert_eq!(after[id], always || id > NO_TIMESTAMPS as usize);
    }
}

#[test]
fn generation_stops_at_end_of_transcript() {
    let d = Decoder::with_tokens(&config(120, 448, vec![]), special(), None, None, false);
    let mut g = d.begin();
    assert!(g.is_first_step());
    assert!(g.wants_step());
    assert!(g.push(7).is_ok());
    assert!(!g.is_first_step());
    assert!(g.wants_step());
    assert!(g.push(EOT).is_ok());
    assert!(!g.wants_step());
    assert_eq!(g.into_tokens(), vec![SOT, TRANSCRIBE, NO_TIMESTAMPS, 7, EOT]);
}

#[test]
fn generation_stops_after_half_the_positions() {
    let d = Decoder::with_tokens(&config(120, 448, vec![]), special(), Some(LANGUAGE), None, false);
    let mut g = d.begin();
    let mut steps = 0;
    while g.wants_step() {
        assert!(g.push(7).is_ok());
        steps += 1;
    }
    assert_eq!(steps, 224);
    let tokens = g.into_tokens();
    assert_eq!(tokens.len(), 4 + 224);
    assert_eq!(tokens[0], SOT);
    assert!(tokens.len() <= 448);
}

#[test]
fn generation_stops_when_the_sequence_outgrows_the_limit() {
    let d = Decoder::with_tokens(&config(120, 4, vec![]), special(), Some(LANGUAGE), None, false);
    let mut g = d.begin();
    assert!(g.wants_step());
    assert!(g.push(7).is_ok());
    assert!(!g.wants_step());
    assert_eq!(g.into_tokens().len(), 5);
}

#[test]
fn generation_takes_no_step_without_positions() {
    let d = Decoder::with_tokens(&config(120, 1, vec![]), special(), None, None, true);
    let g = d.begin();
    assert!(!g.wants_step());
    assert_eq!(g.into_tokens(), vec![SOT, TRANSCRIBE]);
}

#[test]
fn timestamp_after_timestamp_is_refused() {
    let d = Decoder::with_tokens(&config(120, 448, vec![]), special(), None, None, true);
    let mut g = d.begin();
    assert!(!g.after_timestamp());
    assert!(g.push(NO_TIMESTAMPS + 1).is_ok());
    assert!(g.after_timestamp());
    let refused = g.push(NO_TIMESTAMPS + 5);
    assert!(matches!(refused, Err(DecodeError::TimestampAfterTimestamp(t)) if t == NO_TIMESTAMPS + 5));
    assert_eq!(g.tokens(), &vec![SOT, TRANSCRIBE, NO_TIMESTAMPS + 1]);
    assert!(g.wants_step());
    assert!(g.push(7).is_ok());
    assert!(!g.after_timestamp());
    assert!(g.push(NO_TIMESTAMPS + 5).is_ok());
    assert!(g.push(EOT).is_ok());
    assert!(!g.wants_step());
}

#[test]
fn prompt_is_no_timestamp_for_the_first_step() {
    let mut g = Generation::from_prompt(vec![SOT, NO_TIMESTAMPS + 9], special(), 448);
    assert!(!g.after_timestamp());
    assert!(g.push(NO_TIMESTAMPS + 1).is_ok());
}

#[test]
fn conclude_keeps_the_measures() {
    let d = Decoder::with_tokens(&config(120, 448, vec![]), special(), None, None, true);
    let mut g = d.begin();
    assert!(g.push(7).is_ok());
    assert!(g.push(EOT).is_ok());
    let dr = g.conclude(String::from("seven"), s(-0.25), Some(s(0.01)), s(0.2), None);
    assert_eq!(dr.tokens, vec![SOT, TRANSCRIBE, 7, EOT]);
    assert_eq!(dr.text, "seven");
    assert_eq!(f64::from_bits(dr.avg_logprob.to_bits()), -0.25);
    assert_eq!(f64::from_bits(dr.no_speech_prob.to_bits()), 0.01);
    assert_eq!(f64::from_bits(dr.temperature.to_bits()), 0.2);
    assert!(f64::from_bits(dr.compression_ratio.to_bits()).is_nan());
}

#[test]
fn conclude_without_a_first_step_has_no_no_speech_probability() {
    let d = Decoder::with_tokens(&config(120, 0, vec![]), special(), None, None, true);
    let dr = d.begin().conclude(String::new(), s(0.0), None, s(0.0), Some(s(1.5)));
    assert_eq!(dr.compression_ratio, s(1.5));
    assert!(dr.no_speech_prob.nan());
    assert_eq!(dr.tokens, vec![SOT, TRANSCRIBE]);
}

#[test]
fn quality_of_results() {
    assert!(!needs_fallback(&result(-0.5, 0.1, f64::NAN)));
    assert!(acceptable(&result(-0.5, 0.1, f64::NAN)));
    assert!(acceptable(&result(-1.0, 0.1, 2.4)));
    assert!(needs_fallback(&result(-1.5, 0.1, 1.0)));
    assert!(!acceptable(&result(-1.5, 0.1, 1.0)));
    assert!(needs_fallback(&result(-0.5, 0.1, 2.5)));
    assert!(!acceptable(&result(-0.5, 0.1, 2.5)));
    assert!(acceptable(&result(-1.5, 0.7, 3.0)));
    assert!(!acceptable(&result(-1.5, 0.6, 3.0)));
    assert!(acceptable(&result(f64::NAN, f64::NAN, f64::NAN)));
}

#[test]
fn silence_needs_both_measures() {
    assert!(is_silence(&result(-2.0, 0.99, f64::NAN)));
    assert!(!is_silence(&result(-0.5, 0.99, f64::NAN)));
    assert!(!is_silence(&result(-2.0, 0.5, f64::NAN)));
    assert!(!is_silence(&result(-1.0, 0.99, f64::NAN)));
    assert!(!is_silence(&result(-2.0, 0.6, f64::NAN)));
    assert!(!is_silence(&result(f64::NAN, 0.99, f64::NAN)));
    assert!(!is_silence(&result(-2.0, f64::NAN, f64::NAN)));
}

#[test]
fn fallback_returns_the_first_acceptable_attempt() {
    let mut f = Fallback::standard();
    assert_eq!(f.temperature(), s(0.0));
    assert!(!f.is_last());
    let v = f.judge::<String>(Ok(result(-1.5, 0.1, f64::NAN)));
    assert!(matches!(v, Verdict::Retry(None)));
    assert_eq!(f.temperature(), s(0.2));
    let v = f.judge::<String>(Ok(result(-0.5, 0.1, f64::NAN)));
    match v {
        Verdict::Return(Ok(dr)) => assert_eq!(dr.avg_logprob, s(-0.5)),
        _ => panic!("the acceptable attempt is returned"),
    }
}

#[test]
fn fallback_always_returns_the_last_attempt() {
    let mut f = Fallback::standard();
    let ladder = [0.0f64, 0.2, 0.4, 0.6, 0.8, 1.0];
    for i in 0..5 {
        assert_eq!(f.temperature(), s(ladder[i]));
        assert!(!f.is_last());
        let v = f.judge::<String>(Ok(result(-3.0, 0.0, 9.0)));
        assert!(matches!(v, Verdict::Retry(None)));
    }
    assert_eq!(f.temperature(), s(1.0));
    assert!(f.is_last());
    let v = f.judge::<String>(Ok(result(-3.0, 0.0, 9.0)));
    match v {
        Verdict::Return(Ok(dr)) => assert_eq!(dr.avg_logprob, s(-3.0)),
        _ => panic!("the last attempt is returned as it is"),
    }
}

#[test]
fn fallback_passes_over_errors_but_the_last() {
    let mut f = Fallback::new(vec![s(0.0), s(0.5)]);
    let v = f.judge(Err(String::from("first")));
    assert!(matches!(v, Verdict::Retry(Some(e)) if e == "first"));
    assert!(f.is_last());
    assert_eq!(f.temperature(), s(0.5));
    let v = f.judge(Err(String::from("second")));
    assert!(matches!(v, Verdict::Return(Err(e)) if e == "second"));
}

#[test]
fn fallback_over_one_temperature_returns_at_once() {
    let mut f = Fallback::new(vec![s(0.3)]);
    assert!(f.is_last());
    let v = f.judge::<String>(Ok(result(-9.0, 0.0, 9.0)));
    assert!(matches!(v, Verdict::Return(Ok(_))));
}

#[test]
fn silent_window_yields_no_segment_and_is_covered() {
    let mut run = Run::new(5000);
    assert_eq!(run.next_window(), Some(Window { seek: 0, frames: 3000 }));
    let emitted = run.record(result(-2.0, 0.99, f64::NAN));
    assert!(!emitted);
    assert_eq!(run.seek(), 3000);
    assert_eq!(run.next_window(), Some(Window { seek: 3000, frames: 2000 }));
    let emitted = run.record(result(-2.0, 0.99, f64::NAN));
    assert!(!emitted);
    assert_eq!(run.seek(), 5000);
    assert_eq!(run.next_window(), None);
    assert!(run.finish().is_empty());
}

#[test]
fn segments_start_in_order() {
    let mut run = Run::new(7000);
    let mut windows = 0;
    while let Some(w) = run.next_window() {
        assert_eq!(w.seek, windows * N_FRAMES);
        let dr = if windows == 1 {
            result(-2.0, 0.99, f64::NAN)
        } else {
            result(-0.5, 0.1, f64::NAN)
        };
        assert_eq!(run.record(dr), windows != 1);
        windows += 1;
    }
    assert_eq!(windows, 3);
    let segments = run.finish();
    assert_eq!(segments.len(), 2);
    assert_eq!(segments[0].start, 0);
    assert_eq!(segments[0].duration, 3000 * HOP_LENGTH);
    assert_eq!(segments[1].start, 6000 * HOP_LENGTH);
    assert_eq!(segments[1].duration, 1000 * HOP_LENGTH);
    assert!(segments[0].start <= segments[1].start);
    assert_eq!(segments[1].dr.text, "words");
}

#[test]
fn window_of_exactly_thirty_seconds() {
    let mut run = Run::new(N_FRAMES);
    assert_eq!(run.next_window(), Some(Window { seek: 0, frames: N_FRAMES }));
    assert!(run.record(result(-0.5, 0.1, f64::NAN)));
    assert_eq!(run.next_window(), None);
    let segments = run.finish();
    assert_eq!(segments.len(), 1);
    assert_eq!(segments[0].start, 0);
    assert_eq!(segments[0].duration, 480000);
}

#[test]
fn empty_spectrogram_has_no_window() {
    let run = Run::new(0);
    assert_eq!(run.next_window(), None);
    assert_eq!(run.seek(), 0);
    assert!(run.finish().is_empty());
}

fn segment(text: &str) -> Segment {
    let mut dr = result(-0.5, 0.1, f64::NAN);
    dr.text = String::from(text);
    Segment { start: 0, duration: 1, dr }
}

#[test]
fn transcript_has_one_line_for_each_segment() {
    assert_eq!(transcript(&vec![]), "");
    assert_eq!(transcript(&vec![segment("one")]), "one");
    assert_eq!(transcript(&vec![segment("one"), segment(""), segment("three")]), "one\n\nthree");
}

#[test]
fn suppressed_token_is_refused() {
    let d = Decoder::with_tokens(&config(120, 448, vec![7, 9]), special(), None, None, true);
    let mut g = d.begin();
    let refused = g.push(7);
    assert!(matches!(refused, Err(DecodeError::SuppressedToken(7))));
    let refused = g.push(NO_TIMESTAMPS);
    assert!(matches!(refused, Err(DecodeError::SuppressedToken(t)) if t == NO_TIMESTAMPS));
    assert_eq!(g.tokens(), &vec![SOT, TRANSCRIBE]);
    assert!(g.push(8).is_ok());
    assert!(g.push(500).is_ok());
    assert!(matches!(g.push(9), Err(DecodeError::SuppressedToken(9))));
    assert_eq!(g.tokens(), &vec![SOT, TRANSCRIBE, 8, 500]);
}

#[test]
fn request_for_plain_text_is_no_suppressed_token_without_timestamps() {
    let d = Decoder::with_tokens(&config(120, 448, vec![]), special(), None, None, false);
    let mut g = d.begin();
    assert!(g.push(NO_TIMESTAMPS).is_ok());
}

#[test]
fn masked_entries_of_a_step() {
    let d = Decoder::with_tokens(&config(110, 448, vec![2]), special(), None, None, true);
    let mut g = d.begin();
    for id in 0..120usize {
        assert_eq!(g.is_masked(id), id == 2 || id == NO_TIMESTAMPS as usize);
    }
    assert!(g.push(NO_TIMESTAMPS + 1).is_ok());
    for id in 0..120usize {
        assert_eq!(g.is_masked(id), id == 2 || id >= NO_TIMESTAMPS as usize);
    }
}

#[test]
fn greedy_pick_passes_over_masked_entries() {
    let d = Decoder::with_tokens(&config(8, 16, vec![0]), special(), None, None, false);
    let g = d.begin();
    let scores = vec![s(9.0), s(0.0), s(0.0), s(0.0), s(5.0), s(0.0), s(0.0), s(0.0)];
    assert_eq!(g.pick_greedy(&scores), Some(4));
    let level = vec![s(1.0), s(1.0), s(1.0)];
    assert_eq!(g.pick_greedy(&level), Some(2));
    let only_masked = vec![s(1.0)];
    assert_eq!(g.pick_greedy(&only_masked), None);
    assert_eq!(g.pick_greedy(&vec![]), None);
    let with_nan = vec![s(0.0), s(1.0), s(f64::NAN), s(2.0)];
    assert_eq!(g.pick_greedy(&with_nan), Some(2));
}

#[test]
fn error_messages_of_the_rules() {
    assert_eq!(DecodeError::SuppressedToken(3).message(), "a suppressed token was chosen");
    assert_eq!(DecodeError::NoToken.message(), "no token is left to choose");
    assert_eq!(
        DecodeError::UnsupportedDecoder.message(),
        "the decoder of the tokenizer is not supported"
    );
}

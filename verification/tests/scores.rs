use screenpipe_core::fallback::TEMPERATURE_BITS;
use screenpipe_core::generation::Generation;
use screenpipe_core::selection::{selection, Selection};
use screenpipe_core::vocab::SpecialTokens;
use screenpipe_core::quality::{
    compression_ratio_threshold, logprob_threshold, no_speech_threshold,
    COMPRESSION_RATIO_THRESHOLD_BITS, LOGPROB_THRESHOLD_BITS, NO_SPEECH_THRESHOLD_BITS,
};
use screenpipe_core::score::{Score, INFINITY_MAGNITUDE, NAN_BITS, SIGN_BIT};

fn score(value: f64) -> Score {
    Score::from_bits(value.to_bits())
}

fn sample_values() -> Vec<f64> {
    vec![
        0.0,
        -0.0,
        1.0,
        -1.0,
        0.6,
        0.99,
        -2.0,
        2.4,
        2.5,
        -0.999999,
        -1.000001,
        1e-300,
        -1e-300,
        5e-324,
        -5e-324,
        1e300,
        -1e300,
        f64::MAX,
        f64::MIN,
        f64::INFINITY,
        f64::NEG_INFINITY,
        f64::NAN,
        -f64::NAN,
    ]
}

#[test]
fn bits_round_trip() {
    for v in sample_values() {
        assert_eq!(score(v).to_bits(), v.to_bits());
    }
    assert_eq!(Score::from_bits(7).bits, 7);
}

#[test]
fn gt_agrees_with_doubles() {
    for a in sample_values() {
        for b in sample_values() {
            assert_eq!(score(a).gt(score(b)), a > b);
        }
    }
}

#[test]
fn lt_agrees_with_doubles() {
    for a in sample_values() {
        for b in sample_values() {
            assert_eq!(score(a).lt(score(b)), a < b);
        }
    }
}

#[test]
fn nan_agrees_with_doubles() {
    for a in sample_values() {
        assert_eq!(score(a).nan(), a.is_nan());
    }
    assert!(Score::not_a_number().nan());
    assert_eq!(Score::not_a_number().to_bits(), NAN_BITS);
    assert!(f64::from_bits(NAN_BITS).is_nan());
}

#[test]
fn the_two_zeros_are_equal_in_order() {
    assert!(!score(0.0).gt(score(-0.0)));
    assert!(!score(0.0).lt(score(-0.0)));
    assert!(!score(-0.0).gt(score(0.0)));
    assert!(!score(-0.0).lt(score(0.0)));
}

#[test]
fn nan_compares_with_nothing() {
    let nan = Score::not_a_number();
    for v in sample_values() {
        assert!(!nan.gt(score(v)));
        assert!(!nan.lt(score(v)));
        assert!(!score(v).gt(nan));
        assert!(!score(v).lt(nan));
    }
}

#[test]
fn pattern_constants() {
    assert_eq!(SIGN_BIT, (-0.0f64).to_bits());
    assert_eq!(INFINITY_MAGNITUDE, f64::INFINITY.to_bits());
    assert_eq!(NO_SPEECH_THRESHOLD_BITS, 0.6f64.to_bits());
    assert_eq!(LOGPROB_THRESHOLD_BITS, (-1.0f64).to_bits());
    assert_eq!(COMPRESSION_RATIO_THRESHOLD_BITS, 2.4f64.to_bits());
    assert_eq!(no_speech_threshold(), score(0.6));
    assert_eq!(logprob_threshold(), score(-1.0));
    assert_eq!(compression_ratio_threshold(), score(2.4));
}

#[test]
fn temperature_ladder() {
    let ladder = [0.0f64, 0.2, 0.4, 0.6, 0.8, 1.0];
    for i in 0..6 {
        assert_eq!(TEMPERATURE_BITS[i], ladder[i].to_bits());
    }
}

#[test]
fn selection_by_temperature() {
    assert_eq!(selection(score(0.0)), Selection::Greedy);
    assert_eq!(selection(score(-0.0)), Selection::Greedy);
    assert_eq!(selection(score(-0.5)), Selection::Greedy);
    assert_eq!(selection(score(f64::NAN)), Selection::Greedy);
    assert_eq!(selection(score(0.2)), Selection::Sample);
    assert_eq!(selection(score(1.0)), Selection::Sample);
    assert_eq!(selection(score(5e-324)), Selection::Sample);
}

fn greedy_of_doubles(values: &[f64]) -> Option<u32> {
    values.iter().enumerate().max_by(|(_, u), (_, v)| u.total_cmp(v)).map(|(i, _)| i as u32)
}

fn scores(values: &[f64]) -> Vec<Score> {
    let mut out = Vec::new();
    for v in values {
        out.push(score(*v));
    }
    out
}

fn unmasked() -> Generation {
    let special = SpecialTokens {
        sot: 0,
        transcribe: 0,
        translate: 0,
        eot: 0,
        no_speech: 0,
        no_timestamps: u32::MAX,
    };
    Generation::from_prompt(vec![0], special, 448)
}

#[test]
fn greedy_takes_the_highest_score() {
    let g = unmasked();
    assert_eq!(g.pick_greedy(&scores(&[0.5, 2.0, -1.0])), Some(1));
    assert_eq!(g.pick_greedy(&scores(&[-3.0])), Some(0));
    assert_eq!(g.pick_greedy(&scores(&[f64::NEG_INFINITY, -7.5, f64::NEG_INFINITY])), Some(1));
    assert_eq!(g.pick_greedy(&scores(&[])), None);
}

#[test]
fn greedy_takes_the_last_of_equal_scores() {
    let g = unmasked();
    assert_eq!(g.pick_greedy(&scores(&[1.0, 3.0, 3.0, 2.0])), Some(2));
    assert_eq!(g.pick_greedy(&scores(&[f64::NEG_INFINITY, f64::NEG_INFINITY])), Some(1));
    assert_eq!(g.pick_greedy(&scores(&[0.0, -0.0])), Some(0));
    assert_eq!(g.pick_greedy(&scores(&[-0.0, 0.0])), Some(1));
}

#[test]
fn greedy_puts_not_a_number_by_its_sign() {
    let g = unmasked();
    assert_eq!(g.pick_greedy(&scores(&[1.0, f64::NAN, f64::INFINITY])), Some(1));
    assert_eq!(g.pick_greedy(&scores(&[1.0, -f64::NAN, f64::NEG_INFINITY])), Some(0));
}

#[test]
fn greedy_agrees_with_the_total_order_of_doubles() {
    let g = unmasked();
    let values = sample_values();
    for a in &values {
        for b in &values {
            for c in &values {
                let three = [*a, *b, *c];
                assert_eq!(g.pick_greedy(&scores(&three)), greedy_of_doubles(&three));
            }
        }
    }
}

#[test]
fn total_order_agrees_with_doubles() {
    for a in sample_values() {
        for b in sample_values() {
            assert_eq!(score(a).total_ge(score(b)), a.total_cmp(&b).is_ge());
        }
    }
}

#[test]
fn widening_keeps_the_total_order() {
    let singles = [0.0f32, -0.0, 1.5, -1.5, f32::MIN_POSITIVE, f32::MAX, f32::INFINITY, f32::NEG_INFINITY, f32::NAN, -f32::NAN];
    for a in singles {
        for b in singles {
            assert_eq!(score(a as f64).total_ge(score(b as f64)), a.total_cmp(&b).is_ge());
        }
    }
}

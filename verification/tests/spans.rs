use screenpipe_core::spans::{label, timestamp_spans, Span, TICKS_PER_SECOND};
use screenpipe_core::vocab::SpecialTokens;

fn tokens_of_a_vocabulary() -> SpecialTokens {
    SpecialTokens { sot: 100, transcribe: 101, translate: 102, eot: 103, no_speech: 104, no_timestamps: 105 }
}

fn shape(spans: &Vec<Span>) -> Vec<(u64, Option<u64>, Vec<u32>)> {
    let mut out = Vec::new();
    for s in spans {
        out.push((s.start, s.end, s.tokens.clone()));
    }
    out
}

#[test]
fn spans_between_timestamps() {
    let tokens = vec![100, 106, 1, 2, 156, 156, 3, 206, 103];
    let spans = timestamp_spans(&tokens, tokens_of_a_vocabulary());
    assert_eq!(shape(&spans), vec![(2, Some(52), vec![1, 2]), (52, Some(102), vec![3])]);
}

#[test]
fn text_before_any_timestamp_starts_at_zero() {
    let tokens = vec![100, 1, 2, 110, 103];
    let spans = timestamp_spans(&tokens, tokens_of_a_vocabulary());
    assert_eq!(shape(&spans), vec![(0, Some(6), vec![1, 2])]);
}

#[test]
fn text_at_the_end_has_no_end() {
    let tokens = vec![100, 106, 1, 107, 2, 3];
    let spans = timestamp_spans(&tokens, tokens_of_a_vocabulary());
    assert_eq!(shape(&spans), vec![(2, Some(3), vec![1]), (3, None, vec![2, 3])]);
}

#[test]
fn no_text_gives_no_span() {
    let special = tokens_of_a_vocabulary();
    assert!(timestamp_spans(&vec![], special).is_empty());
    assert!(timestamp_spans(&vec![100, 103], special).is_empty());
    assert!(timestamp_spans(&vec![100, 106, 107, 103], special).is_empty());
}

#[test]
fn prompt_tokens_count_as_text() {
    let tokens = vec![100, 50, 101, 105, 7, 103];
    let spans = timestamp_spans(&tokens, tokens_of_a_vocabulary());
    assert_eq!(shape(&spans), vec![(0, None, vec![50, 101, 105, 7])]);
}

#[test]
fn largest_timestamp_fits() {
    let special = SpecialTokens { sot: 1, transcribe: 2, translate: 3, eot: 4, no_speech: 5, no_timestamps: 0 };
    let spans = timestamp_spans(&vec![0, u32::MAX, 0, u32::MAX], special);
    assert_eq!(shape(&spans), vec![(0, Some(4294967296), vec![0]), (4294967296, Some(4294967296), vec![0])]);
}

#[test]
fn fifty_ticks_make_a_second() {
    assert_eq!(TICKS_PER_SECOND, 50);
}

#[test]
fn open_span_without_text_is_not_shown() {
    let open = Span { start: 3, end: None, tokens: vec![9] };
    assert!(label(&open, String::new()).is_none());
    let shown = label(&open, String::from("x")).unwrap();
    assert_eq!((shown.start, shown.end, shown.text.as_str()), (3, None, "x"));
    let closed = Span { start: 3, end: Some(8), tokens: vec![9] };
    let shown = label(&closed, String::new()).unwrap();
    assert_eq!((shown.start, shown.end, shown.text.as_str()), (3, Some(8), ""));
}

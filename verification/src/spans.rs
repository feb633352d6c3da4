//! The spans of a timestamped transcript: the runs of text tokens between
//! the timestamp tokens of a token sequence.

use crate::error::DecodeError;
use crate::vocab::decoder_kind;
use crate::vocab::decoder_of;
use crate::vocab::supported;
use crate::vocab::text_in;
use crate::vocab::text_of;
use crate::vocab::texts;
use crate::vocab::SpecialTokens;
use tokenizers::Tokenizer;
use vstd::prelude::*;

verus! {

/// Timestamps count in fiftieths of a second.
pub const TICKS_PER_SECOND: u64 = 50;

/// A run of text tokens between two timestamps.
#[derive(Debug)]
pub struct Span {
    /// The timestamp before the run, in ticks; 0 where none came before.
    pub start: u64,
    /// The timestamp that closed the run, in ticks; none where the sequence
    /// ended first.
    pub end: Option<u64>,
    pub tokens: Vec<u32>,
}

pub struct SpanView {
    pub start: int,
    pub end: Option<int>,
    pub tokens: Seq<u32>,
}

impl View for Span {
    type V = SpanView;

    open spec fn view(&self) -> SpanView {
        SpanView {
            start: self.start as int,
            end: match self.end {
                Some(t) => Some(t as int),
                None => None,
            },
            tokens: self.tokens@,
        }
    }
}

/// The views of the spans.
pub open spec fn views(spans: Seq<Span>) -> Seq<SpanView> {
    spans.map_values(|s: Span| s@)
}

/// The time that a timestamp token stands for, in ticks.
pub open spec fn ticks(special: SpecialTokens, token: u32) -> int {
    token - special.no_timestamps + 1
}

/// Whether `token` is text: not a timestamp, and neither the start nor the
/// end of transcript.
pub open spec fn is_text(special: SpecialTokens, token: u32) -> bool {
    token != special.sot && token != special.eot && !special.is_timestamp(token)
}

/// The spans of `tokens`, where `pending` is the text read since the last
/// timestamp, which was `prev`. The start and the end of transcript are
/// passed over. A timestamp closes the pending text, if there is any, and
/// is the start of what follows. Text pending at the end is a span without
/// an end.
pub open spec fn spans_from(
    tokens: Seq<u32>,
    special: SpecialTokens,
    prev: int,
    pending: Seq<u32>,
) -> Seq<SpanView>
    decreases tokens.len(),
{
    if tokens.len() == 0 {
        if pending.len() > 0 {
            seq![SpanView { start: prev, end: None, tokens: pending }]
        } else {
            Seq::<SpanView>::empty()
        }
    } else {
        let token = tokens[0];
        let rest = tokens.drop_first();
        if token == special.sot || token == special.eot {
            spans_from(rest, special, prev, pending)
        } else if special.is_timestamp(token) {
            let now = ticks(special, token);
            let after = spans_from(rest, special, now, Seq::<u32>::empty());
            if pending.len() > 0 {
                seq![SpanView { start: prev, end: Some(now), tokens: pending }] + after
            } else {
                after
            }
        } else {
            spans_from(rest, special, prev, pending.push(token))
        }
    }
}

/// The spans of a token sequence.
pub open spec fn spans_of(tokens: Seq<u32>, special: SpecialTokens) -> Seq<SpanView> {
    spans_from(tokens, special, 0, Seq::<u32>::empty())
}

/// The spans of a token sequence.
pub fn timestamp_spans(tokens: &Vec<u32>, special: SpecialTokens) -> (spans: Vec<Span>)
    ensures
        views(spans@) == spans_of(tokens@, special),
{
    let mut spans: Vec<Span> = Vec::new();
    let mut pending: Vec<u32> = Vec::new();
    let mut prev: u64 = 0;
    let mut i: usize = 0;
    assert(tokens@.skip(0) == tokens@);
    assert(views(spans@) + spans_of(tokens@, special) == spans_of(tokens@, special));
    while i < tokens.len()
        invariant
            i <= tokens.len(),
            spans_of(tokens@, special) == views(spans@) + spans_from(
                tokens@.skip(i as int),
                special,
                prev as int,
                pending@,
            ),
        decreases tokens.len() - i,
    {
        let token = tokens[i];
        let ghost here = tokens@.skip(i as int);
        let ghost done = views(spans@);
        assert(here.len() > 0);
        assert(here.drop_first() == tokens@.skip(i + 1));
        assert(here[0] == token);
        if token == special.sot || token == special.eot {
            assert(spans_from(here, special, prev as int, pending@) == spans_from(
                tokens@.skip(i + 1),
                special,
                prev as int,
                pending@,
            ));
        } else if token > special.no_timestamps {
            let now: u64 = (token - special.no_timestamps) as u64 + 1;
            assert(now == ticks(special, token));
            if pending.len() == 0 {
                assert(pending@ == Seq::<u32>::empty());
            }
            if pending.len() > 0 {
                let ghost after = spans_from(
                    tokens@.skip(i + 1),
                    special,
                    now as int,
                    Seq::<u32>::empty(),
                );
                let span = Span { start: prev, end: Some(now), tokens: pending };
                pending = Vec::new();
                proof {
                    assert(views(spans@.push(span)) == done.push(span@));
                    assert(done + (seq![span@] + after) == done.push(span@) + after);
                }
                spans.push(span);
            }
            prev = now;
            assert(spans_of(tokens@, special) == views(spans@) + spans_from(
                tokens@.skip(i + 1),
                special,
                prev as int,
                pending@,
            ));
        } else {
            pending.push(token);
            assert(spans_of(tokens@, special) == views(spans@) + spans_from(
                tokens@.skip(i + 1),
                special,
                prev as int,
                pending@,
            ));
        }
        i = i + 1;
    }
    if pending.len() > 0 {
        let span = Span { start: prev, end: None, tokens: pending };
        proof {
            assert(views(spans@.push(span)) == views(spans@).push(span@));
            assert(views(spans@) + seq![span@] == views(spans@).push(span@));
        }
        spans.push(span);
    } else {
        assert(views(spans@) + Seq::<SpanView>::empty() == views(spans@));
    }
    spans
}

/// The text tokens of a sequence, in order.
pub open spec fn text_tokens(tokens: Seq<u32>, special: SpecialTokens) -> Seq<u32>
    decreases tokens.len(),
{
    if tokens.len() == 0 {
        Seq::<u32>::empty()
    } else if is_text(special, tokens[0]) {
        seq![tokens[0]] + text_tokens(tokens.drop_first(), special)
    } else {
        text_tokens(tokens.drop_first(), special)
    }
}

/// The tokens of the spans, one span after the other.
pub open spec fn flattened(spans: Seq<SpanView>) -> Seq<u32>
    decreases spans.len(),
{
    if spans.len() == 0 {
        Seq::<u32>::empty()
    } else {
        spans[0].tokens + flattened(spans.drop_first())
    }
}

/// The spans hold the pending text and the text tokens of the sequence, all
/// of them, once and in order; no span is empty, and only the last can be
/// without an end.
pub proof fn lemma_spans_from(
    tokens: Seq<u32>,
    special: SpecialTokens,
    prev: int,
    pending: Seq<u32>,
)
    ensures
        flattened(spans_from(tokens, special, prev, pending)) == pending + text_tokens(
            tokens,
            special,
        ),
        forall|k: int|
            0 <= k < spans_from(tokens, special, prev, pending).len() ==> (#[trigger] spans_from(
                tokens,
                special,
                prev,
                pending,
            )[k]).tokens.len() > 0,
        forall|k: int|
            0 <= k < spans_from(tokens, special, prev, pending).len() - 1 ==> (
            #[trigger] spans_from(tokens, special, prev, pending)[k]).end is Some,
    decreases tokens.len(),
{
    let spans = spans_from(tokens, special, prev, pending);
    if tokens.len() == 0 {
        if pending.len() > 0 {
            assert(spans.drop_first() == Seq::<SpanView>::empty());
            assert(flattened(spans.drop_first()) == Seq::<u32>::empty());
            assert(pending + Seq::<u32>::empty() == pending);
        } else {
            assert(pending + Seq::<u32>::empty() == Seq::<u32>::empty());
        }
    } else {
        let token = tokens[0];
        let rest = tokens.drop_first();
        if token == special.sot || token == special.eot {
            lemma_spans_from(rest, special, prev, pending);
        } else if special.is_timestamp(token) {
            let now = ticks(special, token);
            let after = spans_from(rest, special, now, Seq::<u32>::empty());
            lemma_spans_from(rest, special, now, Seq::<u32>::empty());
            assert(Seq::<u32>::empty() + text_tokens(rest, special) == text_tokens(rest, special));
            if pending.len() > 0 {
                assert(spans.drop_first() == after);
                assert forall|k: int| 0 <= k < spans.len() implies (#[trigger] spans[k]).tokens.len()
                    > 0 by {
                    if k > 0 {
                        assert(spans[k] == after[k - 1]);
                    }
                }
                assert forall|k: int| 0 <= k < spans.len() - 1 implies (#[trigger] spans[k]).end
                    is Some by {
                    if k > 0 {
                        assert(spans[k] == after[k - 1]);
                    }
                }
            } else {
                assert(pending + text_tokens(rest, special) == text_tokens(rest, special));
            }
        } else {
            lemma_spans_from(rest, special, prev, pending.push(token));
            assert(pending.push(token) + text_tokens(rest, special) == pending + (seq![token]
                + text_tokens(rest, special)));
        }
    }
}

/// The spans of a token sequence hold its text tokens, all of them, once
/// and in order.
pub proof fn lemma_spans_hold_the_text(tokens: Seq<u32>, special: SpecialTokens)
    ensures
        flattened(spans_of(tokens, special)) == text_tokens(tokens, special),
{
    lemma_spans_from(tokens, special, 0, Seq::<u32>::empty());
    assert(Seq::<u32>::empty() + text_tokens(tokens, special) == text_tokens(tokens, special));
}

/// A span with its text.
#[derive(Debug)]
pub struct SpanText {
    pub start: u64,
    pub end: Option<u64>,
    pub text: String,
}

/// Whether a span with the given end and text is shown: a span without an
/// end is shown only if its text is not empty.
pub open spec fn shown(end: Option<u64>, text: Seq<char>) -> bool {
    end is Some || text.len() > 0
}

/// The span with its text, if it is to be shown.
pub fn label(span: &Span, text: String) -> (r: Option<SpanText>)
    ensures
        r is Some <==> shown(span.end, text@),
        r matches Some(t) ==> t.start == span.start && t.end == span.end && t.text == text,
{
    if span.end.is_some() || !text.as_str().is_empty() {
        Some(SpanText { start: span.start, end: span.end, text })
    } else {
        None
    }
}

pub struct SpanTextView {
    pub start: int,
    pub end: Option<int>,
    pub text: Seq<char>,
}

impl View for SpanText {
    type V = SpanTextView;

    open spec fn view(&self) -> SpanTextView {
        SpanTextView {
            start: self.start as int,
            end: match self.end {
                Some(t) => Some(t as int),
                None => None,
            },
            text: self.text@,
        }
    }
}

/// The views of the labels.
pub open spec fn label_views(labels: Seq<SpanText>) -> Seq<SpanTextView> {
    labels.map_values(|t: SpanText| t@)
}

/// Whether the tokens of every span have a text.
pub open spec fn all_have_text(spans: Seq<SpanView>, texts: Map<(Seq<u32>, bool), Seq<char>>) -> bool {
    forall|k: int| 0 <= k < spans.len() ==> text_in(texts, (#[trigger] spans[k]).tokens) is Some
}

/// The spans that are shown, in order, each with its times and the text of
/// its tokens.
pub open spec fn shown_labels(
    spans: Seq<SpanView>,
    texts: Map<(Seq<u32>, bool), Seq<char>>,
) -> Seq<SpanTextView>
    decreases spans.len(),
{
    if spans.len() == 0 {
        Seq::<SpanTextView>::empty()
    } else {
        let before = shown_labels(spans.drop_last(), texts);
        let span = spans.last();
        let text = text_in(texts, span.tokens)->0;
        if span.end is Some || text.len() > 0 {
            before.push(SpanTextView { start: span.start, end: span.end, text })
        } else {
            before
        }
    }
}

/// The spans that are shown, each with the text that the tokenizer decodes
/// its tokens to. A tokenizer whose decoder is not supported is asked for
/// nothing and gives `DecodeError::UnsupportedDecoder`; every other has a
/// text for every span.
pub fn span_texts(tokenizer: &Tokenizer, spans: &Vec<Span>) -> (r: Result<
    Vec<SpanText>,
    DecodeError,
>)
    ensures
        r is Ok <==> supported(decoder_of(*tokenizer)),
        r is Ok ==> all_have_text(views(spans@), texts(*tokenizer)),
        r is Ok ==> label_views(r->Ok_0@) == shown_labels(views(spans@), texts(*tokenizer)),
        r matches Err(e) ==> if supported(decoder_of(*tokenizer)) {
            e is Tokenizer
        } else {
            e is UnsupportedDecoder
        },
{
    if !supported(decoder_kind(tokenizer)) {
        return Err(DecodeError::UnsupportedDecoder);
    }
    let mut labels: Vec<SpanText> = Vec::new();
    let mut i: usize = 0;
    assert(views(spans@).take(0) == Seq::<SpanView>::empty());
    assert(label_views(labels@) == Seq::<SpanTextView>::empty());
    while i < spans.len()
        invariant
            i <= spans.len(),
            supported(decoder_of(*tokenizer)),
            all_have_text(views(spans@).take(i as int), texts(*tokenizer)),
            label_views(labels@) == shown_labels(views(spans@).take(i as int), texts(*tokenizer)),
        decreases spans.len() - i,
    {
        let ghost all = views(spans@);
        let ghost before = all.take(i as int);
        let ghost now = all.take(i + 1);
        proof {
            assert(now.drop_last() == before);
            assert(now.last() == spans@[i as int]@);
        }
        let text = match text_of(tokenizer, &spans[i].tokens) {
            Ok(text) => text,
            Err(e) => {
                proof {
                    assert(text_in(texts(*tokenizer), all[i as int].tokens) is None);
                }
                return Err(e);
            },
        };
        match label(&spans[i], text) {
            Some(t) => {
                proof {
                    assert(label_views(labels@.push(t)) == label_views(labels@).push(t@));
                }
                labels.push(t);
            },
            None => {},
        }
        proof {
            assert forall|k: int| 0 <= k < now.len() implies text_in(
                texts(*tokenizer),
                (#[trigger] now[k]).tokens,
            ) is Some by {
                if k < i {
                    assert(now[k] == before[k]);
                }
            }
        }
        i = i + 1;
    }
    assert(views(spans@).take(spans.len() as int) == views(spans@));
    let r: Result<Vec<SpanText>, DecodeError> = Ok(labels);
    assert(r->Ok_0@ == labels@);
    r
}

} // verus!

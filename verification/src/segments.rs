//! One pass over the spectrogram of a chunk: window after window is decoded,
//! and every window that is not silence becomes a segment.
//!
//! `run` makes the pass; the decoding of a window is the caller's. `Run` is
//! the pass one window at a time: it names the window that is due and takes
//! the result of decoding it.

use crate::decoder::DecodingResult;
use crate::fallback::settle_window;
use crate::fallback::window_attempts;
use crate::quality::is_silence;
use crate::score::Score;
use vstd::prelude::*;
use vstd::string::StringExecFns;

verus! {

/// Samples per second of the audio that the model hears.
pub const SAMPLE_RATE: usize = 16000;

/// Samples from one frame of the spectrogram to the next.
pub const HOP_LENGTH: usize = 160;

/// Frames of the longest window that the model takes: thirty seconds.
pub const N_FRAMES: usize = 3000;

/// A run of frames of the spectrogram.
#[derive(Clone, Copy, Debug, PartialEq, Eq, Structural)]
pub struct Window {
    /// The first frame.
    pub seek: usize,
    /// The number of frames.
    pub frames: usize,
}

/// A stretch of a chunk with its transcript. Times are in samples: divided
/// by `SAMPLE_RATE` they are seconds from the start of the chunk.
#[derive(Debug, Clone)]
pub struct Segment {
    pub start: usize,
    pub duration: usize,
    pub dr: DecodingResult,
}

/// The number of frames of the window that starts at frame `seek`.
pub open spec fn window_frames(content_frames: nat, seek: nat) -> nat {
    if content_frames - seek < N_FRAMES {
        (content_frames - seek) as nat
    } else {
        N_FRAMES as nat
    }
}

/// A pass over a spectrogram, at one of its windows.
#[derive(Debug)]
pub struct Run {
    content_frames: usize,
    seek: usize,
    segments: Vec<Segment>,
}

/// What a pass is, to its callers.
pub struct RunView {
    /// The number of frames of the spectrogram.
    pub content_frames: nat,
    /// The first frame that no window has covered yet.
    pub seek: nat,
    /// The segments of the windows covered so far.
    pub segments: Seq<Segment>,
}

impl RunView {
    /// Whether a window is left to decode.
    pub open spec fn unfinished(self) -> bool {
        self.seek < self.content_frames
    }

    /// The window that is due.
    pub open spec fn window(self) -> Window {
        Window {
            seek: self.seek as usize,
            frames: window_frames(self.content_frames, self.seek) as usize,
        }
    }

    /// The segment that the window that is due gives with the result `dr`.
    pub open spec fn segment(self, dr: DecodingResult) -> Segment {
        Segment {
            start: (self.seek * HOP_LENGTH) as usize,
            duration: (window_frames(self.content_frames, self.seek) * HOP_LENGTH) as usize,
            dr,
        }
    }

    /// The pass after the window that is due was decoded to `dr`: the
    /// window is covered, and unless it is silence its segment is added.
    pub open spec fn recorded(self, dr: DecodingResult) -> RunView {
        RunView {
            seek: self.seek + window_frames(self.content_frames, self.seek),
            segments: if is_silence(&dr) {
                self.segments
            } else {
                self.segments.push(self.segment(dr))
            },
            ..self
        }
    }

    /// What holds of every pass: times fit in the machine's word; no
    /// segment is silence; every segment lies within the frames covered;
    /// and each segment ends before the next begins.
    pub open spec fn wf(self) -> bool {
        &&& self.seek <= self.content_frames
        &&& self.content_frames * HOP_LENGTH <= usize::MAX
        &&& forall|i: int|
            0 <= i < self.segments.len() ==> {
                &&& !is_silence(&(#[trigger] self.segments[i]).dr)
                &&& self.segments[i].duration > 0
                &&& self.segments[i].start + self.segments[i].duration <= self.seek * HOP_LENGTH
            }
        &&& forall|i: int, j: int|
            0 <= i < j < self.segments.len() ==> (#[trigger] self.segments[i]).start
                + self.segments[i].duration <= (#[trigger] self.segments[j]).start
    }
}

impl View for Run {
    type V = RunView;

    closed spec fn view(&self) -> RunView {
        RunView {
            content_frames: self.content_frames as nat,
            seek: self.seek as nat,
            segments: self.segments@,
        }
    }
}

impl Run {
    /// A pass over a spectrogram of `content_frames` frames, at its start.
    pub fn new(content_frames: usize) -> (run: Run)
        requires
            content_frames * HOP_LENGTH <= usize::MAX,
        ensures
            run@.wf(),
            run@.content_frames == content_frames,
            run@.seek == 0,
            run@.segments == Seq::<Segment>::empty(),
    {
        Run { content_frames, seek: 0, segments: Vec::new() }
    }

    /// The first frame that no window has covered yet.
    pub fn seek(&self) -> (seek: usize)
        ensures
            seek == self@.seek,
    {
        self.seek
    }

    /// The window to decode next: at most `N_FRAMES` frames from the first
    /// that is not covered; none when the spectrogram is covered.
    pub fn next_window(&self) -> (w: Option<Window>)
        requires
            self@.wf(),
        ensures
            w == if self@.unfinished() {
                Some(self@.window())
            } else {
                None
            },
    {
        if self.seek < self.content_frames {
            let left = self.content_frames - self.seek;
            let frames = if left < N_FRAMES {
                left
            } else {
                N_FRAMES
            };
            Some(Window { seek: self.seek, frames })
        } else {
            None
        }
    }

    /// Takes the result of decoding the window that is due. The window is
    /// covered whatever the result. A result that is silence is dropped;
    /// any other becomes the next segment. Returns whether a segment was
    /// added.
    pub fn record(&mut self, dr: DecodingResult) -> (emitted: bool)
        requires
            old(self)@.wf(),
            old(self)@.unfinished(),
        ensures
            final(self)@.wf(),
            final(self)@ == old(self)@.recorded(dr),
            emitted == !is_silence(&dr),
    {
        let left = self.content_frames - self.seek;
        let frames = if left < N_FRAMES {
            left
        } else {
            N_FRAMES
        };
        proof {
            lemma_recorded(self@, dr);
            assert(self.seek * HOP_LENGTH + frames * HOP_LENGTH <= self.content_frames
                * HOP_LENGTH) by (nonlinear_arith)
                requires
                    self.seek + frames <= self.content_frames,
            ;
        }
        let start = self.seek * HOP_LENGTH;
        let duration = frames * HOP_LENGTH;
        self.seek = self.seek + frames;
        if is_silence(&dr) {
            false
        } else {
            self.segments.push(Segment { start, duration, dr });
            true
        }
    }

    /// The segments of the pass, in the order of their windows.
    pub fn finish(self) -> (segments: Vec<Segment>)
        requires
            self@.wf(),
        ensures
            segments@ == self@.segments,
            forall|i: int, j: int|
                0 <= i <= j < segments@.len() ==> (#[trigger] segments@[i]).start <= (
                #[trigger] segments@[j]).start,
            forall|i: int| 0 <= i < segments@.len() ==> !is_silence(&(#[trigger] segments@[i]).dr),
    {
        let ghost run = self@;
        let segments = self.segments;
        proof {
            lemma_starts_ordered(run);
            assert(segments@ == run.segments);
            assert forall|i: int| 0 <= i < segments@.len() implies !is_silence(
                &(#[trigger] segments@[i]).dr,
            ) by {
                assert(!is_silence(&run.segments[i].dr));
            }
        }
        segments
    }
}

/// The segments of a pass start at times that never decrease; indeed each
/// starts later than the one before.
pub proof fn lemma_starts_ordered(run: RunView)
    requires
        run.wf(),
    ensures
        forall|i: int, j: int|
            0 <= i <= j < run.segments.len() ==> (#[trigger] run.segments[i]).start <= (
            #[trigger] run.segments[j]).start,
        forall|i: int, j: int|
            0 <= i < j < run.segments.len() ==> (#[trigger] run.segments[i]).start < (
            #[trigger] run.segments[j]).start,
{
    assert forall|i: int, j: int| 0 <= i < j < run.segments.len() implies (
    #[trigger] run.segments[i]).start < (#[trigger] run.segments[j]).start by {
        assert(run.segments[i].duration > 0);
    }
}

/// A window that is silence leaves no segment, and is covered all the same:
/// the pass moves on by the whole window.
pub proof fn lemma_silence_is_skipped(run: RunView, dr: DecodingResult)
    requires
        run.wf(),
        run.unfinished(),
        is_silence(&dr),
    ensures
        run.recorded(dr).segments == run.segments,
        run.recorded(dr).seek == run.seek + window_frames(run.content_frames, run.seek),
        run.recorded(dr).seek > run.seek,
{
}

/// Every window covers at least one frame and at most `N_FRAMES`, so a pass
/// over a spectrogram of `content_frames` frames ends after at most that
/// many windows.
pub proof fn lemma_pass_advances(run: RunView, dr: DecodingResult)
    requires
        run.wf(),
        run.unfinished(),
    ensures
        run.seek < run.recorded(dr).seek <= run.content_frames,
        run.recorded(dr).seek - run.seek <= N_FRAMES,
{
}

/// The pass over a spectrogram of `content_frames` frames, at its start.
pub open spec fn pass_start(content_frames: nat) -> RunView {
    RunView { content_frames, seek: 0, segments: Seq::<Segment>::empty() }
}

/// Whether `passes` are the states that a pass went through while its
/// first windows were decoded to `results`: each had a window due, and the
/// next is that state with the result of the window recorded.
pub open spec fn passes_of(passes: Seq<RunView>, results: Seq<DecodingResult>) -> bool {
    &&& passes.len() == results.len() + 1
    &&& forall|k: int|
        0 <= k < results.len() ==> {
            &&& (#[trigger] passes[k]).unfinished()
            &&& passes[k + 1] == passes[k].recorded(results[k])
        }
}

/// Whether, on the way through `passes`, each of `results` is a result of
/// `decode` for the window that was due.
pub open spec fn windows_decoded<E, F: Fn(Window) -> Result<DecodingResult, E>>(
    decode: F,
    passes: Seq<RunView>,
    results: Seq<DecodingResult>,
) -> bool {
    &&& passes_of(passes, results)
    &&& forall|k: int|
        0 <= k < results.len() ==> call_ensures(
            decode,
            ((#[trigger] passes[k]).window(),),
            Ok::<DecodingResult, E>(results[k]),
        )
}

/// A pass stays what a pass is when the window that is due is recorded.
pub proof fn lemma_recorded(run: RunView, dr: DecodingResult)
    requires
        run.wf(),
        run.unfinished(),
    ensures
        run.recorded(dr).wf(),
{
    let frames = window_frames(run.content_frames, run.seek);
    let after = run.recorded(dr);
    assert(run.seek * HOP_LENGTH + frames * HOP_LENGTH <= run.content_frames * HOP_LENGTH)
        by (nonlinear_arith)
        requires
            run.seek + frames <= run.content_frames,
    ;
    assert(after.seek * HOP_LENGTH == run.seek * HOP_LENGTH + frames * HOP_LENGTH)
        by (nonlinear_arith)
        requires
            after.seek == run.seek + frames,
    ;
    assert(frames * HOP_LENGTH > 0) by (nonlinear_arith)
        requires
            frames > 0,
    ;
    if !is_silence(&dr) {
        let added = run.segment(dr);
        assert(after.segments == run.segments.push(added));
        assert forall|i: int| 0 <= i < after.segments.len() implies {
            &&& !is_silence(&(#[trigger] after.segments[i]).dr)
            &&& after.segments[i].duration > 0
            &&& after.segments[i].start + after.segments[i].duration <= after.seek * HOP_LENGTH
        } by {
            if i < run.segments.len() {
                assert(after.segments[i] == run.segments[i]);
            }
        }
        assert forall|i: int, j: int| 0 <= i < j < after.segments.len() implies (
        #[trigger] after.segments[i]).start + after.segments[i].duration <= (
        #[trigger] after.segments[j]).start by {
            assert(after.segments[i] == run.segments[i]);
            if j < run.segments.len() {
                assert(after.segments[j] == run.segments[j]);
            }
        }
    } else {
        assert forall|i: int| 0 <= i < after.segments.len() implies {
            &&& !is_silence(&(#[trigger] after.segments[i]).dr)
            &&& after.segments[i].duration > 0
            &&& after.segments[i].start + after.segments[i].duration <= after.seek * HOP_LENGTH
        } by {
            assert(after.segments[i] == run.segments[i]);
        }
    }
}

/// After `k` windows a pass from the start is a pass that has covered `k`
/// whole windows, or the whole spectrogram.
pub proof fn lemma_passes(
    passes: Seq<RunView>,
    results: Seq<DecodingResult>,
    content_frames: nat,
    k: int,
)
    requires
        content_frames * HOP_LENGTH <= usize::MAX,
        passes_of(passes, results),
        passes[0] == pass_start(content_frames),
        0 <= k < passes.len(),
    ensures
        passes[k].wf(),
        passes[k].content_frames == content_frames,
        passes[k].seek == if k * N_FRAMES <= content_frames {
            k * N_FRAMES
        } else {
            content_frames as int
        },
    decreases k,
{
    if k > 0 {
        lemma_passes(passes, results, content_frames, k - 1);
        assert(passes[k - 1].unfinished());
        assert(passes[k] == passes[k - 1].recorded(results[k - 1]));
        lemma_recorded(passes[k - 1], results[k - 1]);
        assert(k * N_FRAMES == (k - 1) * N_FRAMES + N_FRAMES) by (nonlinear_arith);
    } else {
        assert(k * N_FRAMES == 0) by (nonlinear_arith)
            requires
                k == 0,
        ;
    }
}

/// Decodes a spectrogram of `content_frames` frames, window after window,
/// by `decode`. Where every window is decoded, the segments are those of
/// the pass over all of them, in the order of their windows. The first
/// window that `decode` fails on ends the pass with its error.
pub fn run<E, F: Fn(Window) -> Result<DecodingResult, E>>(content_frames: usize, decode: F) -> (r:
    Result<Vec<Segment>, E>)
    requires
        content_frames * HOP_LENGTH <= usize::MAX,
        forall|w: Window| call_requires(decode, (w,)),
    ensures
        r matches Ok(segments) ==> {
            &&& exists|passes: Seq<RunView>, results: Seq<DecodingResult>|
                {
                    &&& #[trigger] windows_decoded(decode, passes, results)
                    &&& passes[0] == pass_start(content_frames as nat)
                    &&& !passes.last().unfinished()
                    &&& segments@ == passes.last().segments
                }
            &&& forall|i: int, j: int|
                0 <= i <= j < segments@.len() ==> (#[trigger] segments@[i]).start <= (
                #[trigger] segments@[j]).start
        },
        r matches Err(e) ==> exists|passes: Seq<RunView>, results: Seq<DecodingResult>|
            {
                &&& #[trigger] windows_decoded(decode, passes, results)
                &&& passes[0] == pass_start(content_frames as nat)
                &&& passes.last().unfinished()
                &&& call_ensures(decode, (passes.last().window(),), Err::<DecodingResult, E>(e))
            },
{
    let mut pass = Run::new(content_frames);
    let ghost mut passes: Seq<RunView> = seq![pass@];
    let ghost mut results: Seq<DecodingResult> = Seq::empty();
    loop
        invariant
            pass@.wf(),
            windows_decoded(decode, passes, results),
            passes[0] == pass_start(content_frames as nat),
            passes.last() == pass@,
            forall|w: Window| call_requires(decode, (w,)),
        ensures
            pass@.wf(),
            !pass@.unfinished(),
            windows_decoded(decode, passes, results),
            passes[0] == pass_start(content_frames as nat),
            passes.last() == pass@,
        decreases pass@.content_frames - pass@.seek,
    {
        let window = match pass.next_window() {
            Some(window) => window,
            None => {
                break ;
            },
        };
        let dr = match decode(window) {
            Ok(dr) => dr,
            Err(e) => {
                return Err(e);
            },
        };
        let ghost before = pass@;
        pass.record(dr);
        proof {
            let grown = passes.push(pass@);
            let more = results.push(dr);
            assert forall|k: int| 0 <= k < more.len() implies {
                &&& (#[trigger] grown[k]).unfinished()
                &&& grown[k + 1] == grown[k].recorded(more[k])
                &&& call_ensures(
                    decode,
                    (grown[k].window(),),
                    Ok::<DecodingResult, E>(more[k]),
                )
            } by {
                if k < results.len() {
                    assert(grown[k] == passes[k]);
                    assert(grown[k + 1] == passes[k + 1]);
                    assert(more[k] == results[k]);
                } else {
                    assert(grown[k] == before);
                    assert(more[k] == dr);
                }
            }
            passes = grown;
            results = more;
        }
    }
    Ok(pass.finish())
}

/// Whether, on the way through `passes`, each of `results` is what the
/// fallback over `temperatures` settled the window on that was due: the
/// outcome of the last of the attempts made on it.
pub open spec fn windows_settled<E, F: Fn(Window, Score) -> Result<DecodingResult, E>>(
    attempt: F,
    temperatures: Seq<Score>,
    passes: Seq<RunView>,
    results: Seq<DecodingResult>,
) -> bool {
    &&& passes_of(passes, results)
    &&& forall|k: int|
        0 <= k < results.len() ==> exists|outcomes: Seq<Result<DecodingResult, E>>|
            window_attempts(attempt, (#[trigger] passes[k]).window(), temperatures, outcomes)
                && outcomes.last() == Ok::<DecodingResult, E>(results[k])
}

/// Decodes a spectrogram of `content_frames` frames, window after window,
/// each window by `attempt` at one temperature of the ladder after another
/// until an attempt settles it. Where every window is settled on a result,
/// the segments are those of the pass over all of them, in the order of
/// their windows. The first window that is settled on an error ends the
/// pass with that error.
pub fn run_with_fallback<E, F: Fn(Window, Score) -> Result<DecodingResult, E>>(
    content_frames: usize,
    temperatures: &Vec<Score>,
    attempt: F,
) -> (r: Result<Vec<Segment>, E>)
    requires
        content_frames * HOP_LENGTH <= usize::MAX,
        temperatures.len() > 0,
        forall|w: Window, t: Score| call_requires(attempt, (w, t)),
    ensures
        r matches Ok(segments) ==> {
            &&& exists|passes: Seq<RunView>, results: Seq<DecodingResult>|
                {
                    &&& #[trigger] windows_settled(attempt, temperatures@, passes, results)
                    &&& passes[0] == pass_start(content_frames as nat)
                    &&& !passes.last().unfinished()
                    &&& segments@ == passes.last().segments
                }
            &&& forall|i: int, j: int|
                0 <= i <= j < segments@.len() ==> (#[trigger] segments@[i]).start <= (
                #[trigger] segments@[j]).start
        },
        r matches Err(e) ==> exists|
            passes: Seq<RunView>,
            results: Seq<DecodingResult>,
            outcomes: Seq<Result<DecodingResult, E>>,
        |
            {
                &&& #[trigger] windows_settled(attempt, temperatures@, passes, results)
                &&& passes[0] == pass_start(content_frames as nat)
                &&& passes.last().unfinished()
                &&& #[trigger] window_attempts(
                    attempt,
                    passes.last().window(),
                    temperatures@,
                    outcomes,
                )
                &&& outcomes.last() == Err::<DecodingResult, E>(e)
            },
{
    let attempt = &attempt;
    let settle = |window: Window| -> (settled: Result<DecodingResult, E>)
        ensures
            exists|outcomes: Seq<Result<DecodingResult, E>>|
                #[trigger] window_attempts(*attempt, window, temperatures@, outcomes) && settled
                    == outcomes.last(),
        { settle_window(window, temperatures, attempt) };
    let r = run(content_frames, settle);
    proof {
        if r is Ok {
            {
                let (passes, results) = choose|passes: Seq<RunView>, results: Seq<DecodingResult>|
                    {
                        &&& #[trigger] windows_decoded(settle, passes, results)
                        &&& passes[0] == pass_start(content_frames as nat)
                        &&& !passes.last().unfinished()
                        &&& r->Ok_0@ == passes.last().segments
                    };
                assert(windows_settled(*attempt, temperatures@, passes, results));
            }
        } else {
            {
                let e = r->Err_0;
                let (passes, results) = choose|passes: Seq<RunView>, results: Seq<DecodingResult>|
                    {
                        &&& #[trigger] windows_decoded(settle, passes, results)
                        &&& passes[0] == pass_start(content_frames as nat)
                        &&& passes.last().unfinished()
                        &&& call_ensures(
                            settle,
                            (passes.last().window(),),
                            Err::<DecodingResult, E>(e),
                        )
                    };
                assert(windows_settled(*attempt, temperatures@, passes, results));
                let outcomes = choose|outcomes: Seq<Result<DecodingResult, E>>|
                    #[trigger] window_attempts(
                        *attempt,
                        passes.last().window(),
                        temperatures@,
                        outcomes,
                    ) && Err::<DecodingResult, E>(e) == outcomes.last();
                assert(window_attempts(*attempt, passes.last().window(), temperatures@, outcomes));
            }
        }
    }
    r
}

/// The texts in order, each but the first after a line break.
pub open spec fn joined(texts: Seq<Seq<char>>) -> Seq<char>
    decreases texts.len(),
{
    if texts.len() == 0 {
        Seq::<char>::empty()
    } else if texts.len() == 1 {
        texts[0]
    } else {
        joined(texts.drop_last()) + seq!['\n'] + texts.last()
    }
}

/// The texts of the segments.
pub open spec fn texts_of(segments: Seq<Segment>) -> Seq<Seq<char>> {
    Seq::new(segments.len(), |i: int| segments[i].dr.text@)
}

/// The transcript of a chunk: the texts of its segments, one to a line.
pub fn transcript(segments: &Vec<Segment>) -> (text: String)
    ensures
        text@ == joined(texts_of(segments@)),
{
    let mut text = String::new();
    let mut i: usize = 0;
    while i < segments.len()
        invariant
            i <= segments.len(),
            text@ == joined(texts_of(segments@).take(i as int)),
        decreases segments.len() - i,
    {
        proof {
            let all = texts_of(segments@);
            assert(all.take(i + 1).drop_last() == all.take(i as int));
            assert(all.take(i + 1).last() == segments[i as int].dr.text@);
            reveal_strlit("\n");
            assert("\n"@ == seq!['\n']);
        }
        if i > 0 {
            text.append("\n");
        }
        text.append(segments[i].dr.text.as_str());
        i = i + 1;
    }
    proof {
        let all = texts_of(segments@);
        assert(all.take(segments.len() as int) == all);
    }
    text
}

} // verus!

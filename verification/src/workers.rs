//! What a capture worker does next. A worker does one thing at a time; when
//! that is done it says how it went and is told what follows. Between two
//! rounds of work, and nowhere else, it polls the stop flag.

use crate::control::ControlEvent;
use crate::control::Exit;
use crate::control::RecorderControl;
use crate::control::SupervisorView;
use vstd::prelude::*;
use vstd::string::StringExecFns;

verus! {

/// How the thing that a worker was doing went.
#[derive(Clone, Copy, Debug, PartialEq, Eq, Structural)]
pub enum Reply {
    /// It was done: a chunk or a frame arrived, a file or a row was written,
    /// the pause is over.
    Done,
    /// It failed.
    Failed,
    /// There was nothing to get: the wait for a chunk timed out, or there
    /// is no new frame.
    Nothing,
    /// The capture has hung up.
    Gone,
}

/// What the worker of an audio device does.
#[derive(Clone, Copy, Debug, PartialEq, Eq, Structural)]
pub enum AudioAction {
    /// Wait for the next transcribed chunk, for a bounded time.
    Receive,
    /// Write the chunk's audio to its file.
    SaveChunk,
    /// Record the file as an audio chunk.
    StoreChunk,
    /// Record the chunk's transcript.
    StoreTranscript,
    /// Tell the capture to stop, wait for it, and end.
    Shutdown(Exit),
}

/// What the video worker does.
#[derive(Clone, Copy, Debug, PartialEq, Eq, Structural)]
pub enum VideoAction {
    /// Ask for the latest frame.
    Poll,
    /// Record the frame.
    StoreFrame,
    /// Record the frame's text.
    StoreText,
    /// Pause for one frame interval.
    Sleep,
    /// Stop the capture and end.
    Shutdown,
}

/// What an audio worker does at the start of a round: it goes on only while
/// the stop flag is set.
pub open spec fn audio_round(running: bool) -> AudioAction {
    if running {
        AudioAction::Receive
    } else {
        AudioAction::Shutdown(Exit::Stopped)
    }
}

/// What follows `doing` for an audio worker. A chunk that arrived is saved,
/// recorded, and its transcript recorded, one after the other; whatever
/// fails on that way is given up, and a new round starts. A wait that timed
/// out starts a new round. A capture that has hung up or failed ends the
/// worker.
pub open spec fn audio_after(doing: AudioAction, reply: Reply, running: bool) -> AudioAction {
    match doing {
        AudioAction::Receive => match reply {
            Reply::Done => AudioAction::SaveChunk,
            Reply::Nothing => audio_round(running),
            Reply::Failed | Reply::Gone => AudioAction::Shutdown(Exit::CaptureFailed),
        },
        AudioAction::SaveChunk => match reply {
            Reply::Done => AudioAction::StoreChunk,
            _ => audio_round(running),
        },
        AudioAction::StoreChunk => match reply {
            Reply::Done => AudioAction::StoreTranscript,
            _ => audio_round(running),
        },
        AudioAction::StoreTranscript => audio_round(running),
        AudioAction::Shutdown(exit) => AudioAction::Shutdown(exit),
    }
}

/// What a video worker does at the start of a round.
pub open spec fn video_round(running: bool) -> VideoAction {
    if running {
        VideoAction::Poll
    } else {
        VideoAction::Shutdown
    }
}

/// What follows `doing` for the video worker. A frame that arrived is
/// recorded, then its text; whatever fails on that way is given up. Every
/// round ends with a pause, and after the pause a new round starts.
pub open spec fn video_after(doing: VideoAction, reply: Reply, running: bool) -> VideoAction {
    match doing {
        VideoAction::Poll => match reply {
            Reply::Done => VideoAction::StoreFrame,
            _ => VideoAction::Sleep,
        },
        VideoAction::StoreFrame => match reply {
            Reply::Done => VideoAction::StoreText,
            _ => VideoAction::Sleep,
        },
        VideoAction::StoreText => VideoAction::Sleep,
        VideoAction::Sleep => video_round(running),
        VideoAction::Shutdown => VideoAction::Shutdown,
    }
}

/// The first action of an audio worker.
pub fn audio_begin(running: bool) -> (next: AudioAction)
    ensures
        next == audio_round(running),
{
    if running {
        AudioAction::Receive
    } else {
        AudioAction::Shutdown(Exit::Stopped)
    }
}

/// The action of an audio worker after `doing`, which went as `reply` says,
/// with the stop flag as it is now.
pub fn audio_next(doing: AudioAction, reply: Reply, running: bool) -> (next: AudioAction)
    ensures
        next == audio_after(doing, reply, running),
{
    match doing {
        AudioAction::Receive => match reply {
            Reply::Done => AudioAction::SaveChunk,
            Reply::Nothing => audio_begin(running),
            Reply::Failed | Reply::Gone => AudioAction::Shutdown(Exit::CaptureFailed),
        },
        AudioAction::SaveChunk => match reply {
            Reply::Done => AudioAction::StoreChunk,
            _ => audio_begin(running),
        },
        AudioAction::StoreChunk => match reply {
            Reply::Done => AudioAction::StoreTranscript,
            _ => audio_begin(running),
        },
        AudioAction::StoreTranscript => audio_begin(running),
        AudioAction::Shutdown(exit) => AudioAction::Shutdown(exit),
    }
}

/// The first action of the video worker.
pub fn video_begin(running: bool) -> (next: VideoAction)
    ensures
        next == video_round(running),
{
    if running {
        VideoAction::Poll
    } else {
        VideoAction::Shutdown
    }
}

/// The action of the video worker after `doing`, which went as `reply`
/// says, with the stop flag as it is now.
pub fn video_next(doing: VideoAction, reply: Reply, running: bool) -> (next: VideoAction)
    ensures
        next == video_after(doing, reply, running),
{
    match doing {
        VideoAction::Poll => match reply {
            Reply::Done => VideoAction::StoreFrame,
            _ => VideoAction::Sleep,
        },
        VideoAction::StoreFrame => match reply {
            Reply::Done => VideoAction::StoreText,
            _ => VideoAction::Sleep,
        },
        VideoAction::StoreText => VideoAction::Sleep,
        VideoAction::Sleep => video_begin(running),
        VideoAction::Shutdown => VideoAction::Shutdown,
    }
}

/// The number of actions that an audio worker has before it at most, once
/// the stop flag is cleared.
pub open spec fn audio_left(doing: AudioAction) -> nat {
    match doing {
        AudioAction::Receive => 4,
        AudioAction::SaveChunk => 3,
        AudioAction::StoreChunk => 2,
        AudioAction::StoreTranscript => 1,
        AudioAction::Shutdown(_) => 0,
    }
}

/// The number of actions that the video worker has before it at most, once
/// the stop flag is cleared.
pub open spec fn video_left(doing: VideoAction) -> nat {
    match doing {
        VideoAction::Poll => 4,
        VideoAction::StoreFrame => 3,
        VideoAction::StoreText => 2,
        VideoAction::Sleep => 1,
        VideoAction::Shutdown => 0,
    }
}

/// With the stop flag cleared an audio worker starts no new wait: each
/// action brings it nearer to its shutdown, which it reaches after the
/// chunk in hand, four actions later at most. A worker that has shut down
/// stays so.
pub proof fn lemma_audio_stops(doing: AudioAction, reply: Reply)
    ensures
        audio_after(doing, reply, false) != AudioAction::Receive,
        !(doing is Shutdown) ==> audio_left(audio_after(doing, reply, false)) < audio_left(doing),
        doing is Shutdown ==> audio_after(doing, reply, false) == doing,
        audio_round(false) is Shutdown,
{
}

/// With the stop flag cleared the video worker asks for no new frame: each
/// action brings it nearer to its shutdown, and the pause of the round in
/// hand is its last.
pub proof fn lemma_video_stops(doing: VideoAction, reply: Reply)
    ensures
        video_after(doing, reply, false) != VideoAction::Poll,
        !(doing is Shutdown) ==> video_left(video_after(doing, reply, false)) < video_left(doing),
        video_after(VideoAction::Sleep, reply, false) is Shutdown,
        doing is Shutdown ==> video_after(doing, reply, false) == doing,
        video_round(false) is Shutdown,
{
}

/// Where an audio worker stands after the things it did went as `replies`
/// say, one after the other.
pub open spec fn audio_course(doing: AudioAction, replies: Seq<Reply>, running: bool) -> AudioAction
    decreases replies.len(),
{
    if replies.len() == 0 {
        doing
    } else {
        audio_after(audio_course(doing, replies.drop_last(), running), replies.last(), running)
    }
}

/// Where the video worker stands after the things it did went as `replies`
/// say, one after the other.
pub open spec fn video_course(doing: VideoAction, replies: Seq<Reply>, running: bool) -> VideoAction
    decreases replies.len(),
{
    if replies.len() == 0 {
        doing
    } else {
        video_after(video_course(doing, replies.drop_last(), running), replies.last(), running)
    }
}

/// With the stop flag cleared an audio worker has shut down after four
/// actions, whatever it was doing and however its actions go; from a new
/// round it shuts down at once.
pub proof fn lemma_audio_shuts_down(doing: AudioAction, replies: Seq<Reply>)
    ensures
        audio_left(audio_course(doing, replies, false)) + replies.len() <= audio_left(doing)
            || audio_course(doing, replies, false) is Shutdown,
        replies.len() >= 4 ==> audio_course(doing, replies, false) is Shutdown,
    decreases replies.len(),
{
    if replies.len() > 0 {
        lemma_audio_shuts_down(doing, replies.drop_last());
        lemma_audio_stops(audio_course(doing, replies.drop_last(), false), replies.last());
    }
}

/// With the stop flag cleared the video worker has shut down after four
/// actions, whatever it was doing and however its actions go.
pub proof fn lemma_video_shuts_down(doing: VideoAction, replies: Seq<Reply>)
    ensures
        video_left(video_course(doing, replies, false)) + replies.len() <= video_left(doing)
            || video_course(doing, replies, false) is Shutdown,
        replies.len() >= 4 ==> video_course(doing, replies, false) is Shutdown,
    decreases replies.len(),
{
    if replies.len() > 0 {
        lemma_video_shuts_down(doing, replies.drop_last());
        lemma_video_stops(video_course(doing, replies.drop_last(), false), replies.last());
    }
}

/// A stop that the monitor gets reaches every worker at its next poll: from
/// then on every round of every worker starts with its shutdown.
pub proof fn lemma_stop_reaches_workers(s: SupervisorView)
    requires
        s.listening,
    ensures
        audio_round(s.after_control(ControlEvent::Command(RecorderControl::Stop)).running)
            is Shutdown,
        video_round(s.after_control(ControlEvent::Command(RecorderControl::Stop)).running)
            is Shutdown,
{
}

/// While the stop flag is set, nothing but its own capture ends an audio
/// worker: it shuts down only from a wait that found the capture gone or
/// failed. Failures of saving and recording never end it.
pub proof fn lemma_audio_keeps_going(doing: AudioAction, reply: Reply)
    requires
        !(doing is Shutdown),
        audio_after(doing, reply, true) is Shutdown,
    ensures
        doing == AudioAction::Receive,
        reply == Reply::Failed || reply == Reply::Gone,
        audio_after(doing, reply, true) == AudioAction::Shutdown(Exit::CaptureFailed),
{
}

/// While the stop flag is set, nothing ends the video worker.
pub proof fn lemma_video_keeps_going(doing: VideoAction, reply: Reply)
    requires
        !(doing is Shutdown),
    ensures
        !(video_after(doing, reply, true) is Shutdown),
{
}

/// The file that holds the audio of a chunk: in `output_path`, named by the
/// device and the time of capture.
pub fn audio_file_path(output_path: &str, device: &str, timestamp: &str) -> (path: String)
    ensures
        path@ == output_path@ + "/"@ + device@ + "_"@ + timestamp@ + ".wav"@,
{
    let mut path = String::from_str(output_path);
    path.append("/");
    path.append(device);
    path.append("_");
    path.append(timestamp);
    path.append(".wav");
    path
}

} // verus!

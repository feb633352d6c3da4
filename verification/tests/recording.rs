use screenpipe_core::audio::{
    content_frames, filter_count, mel_filters_for, needs_resampling, MelFilters, UnexpectedMelBins,
};
use screenpipe_core::control::{ControlEvent, Exit, Fatal, RecorderControl, Supervisor};
use screenpipe_core::workers::{
    audio_begin, audio_file_path, audio_next, video_begin, video_next, AudioAction, Reply,
    VideoAction,
};

fn replies() -> Vec<Reply> {
    vec![Reply::Done, Reply::Failed, Reply::Nothing, Reply::Gone]
}

fn audio_actions() -> Vec<AudioAction> {
    vec![
        AudioAction::Receive,
        AudioAction::SaveChunk,
        AudioAction::StoreChunk,
        AudioAction::StoreTranscript,
        AudioAction::Shutdown(Exit::Stopped),
        AudioAction::Shutdown(Exit::CaptureFailed),
    ]
}

fn video_actions() -> Vec<VideoAction> {
    vec![
        VideoAction::Poll,
        VideoAction::StoreFrame,
        VideoAction::StoreText,
        VideoAction::Sleep,
        VideoAction::Shutdown,
    ]
}

#[test]
fn stop_clears_the_flag() {
    let mut s = Supervisor::start(true, 2);
    assert!(s.is_running());
    assert_eq!(s.devices(), 2);
    assert!(!s.on_control(ControlEvent::Command(RecorderControl::Stop)));
    assert!(!s.is_running());
}

#[test]
fn pause_and_resume_change_nothing() {
    let mut s = Supervisor::start(true, 1);
    assert!(s.on_control(ControlEvent::Command(RecorderControl::Pause)));
    assert!(s.is_running());
    assert!(s.on_control(ControlEvent::Command(RecorderControl::Resume)));
    assert!(s.is_running());
    assert_eq!(s.outcome(), Ok(()));
}

#[test]
fn nothing_sets_the_flag_again() {
    let mut s = Supervisor::start(true, 1);
    s.on_control(ControlEvent::Command(RecorderControl::Stop));
    assert!(!s.on_control(ControlEvent::Command(RecorderControl::Resume)));
    assert!(!s.is_running());
    assert!(!s.on_control(ControlEvent::Closed));
    assert!(!s.is_running());
    s.video_ended(Exit::Stopped);
    s.audio_ended(0, Exit::Stopped);
    assert!(!s.is_running());
    assert_eq!(s.outcome(), Ok(()));
}

#[test]
fn without_audio_there_is_no_audio_worker() {
    let mut s = Supervisor::start(false, 3);
    assert_eq!(s.devices(), 0);
    assert!(!s.all_ended());
    s.video_ended(Exit::Stopped);
    assert!(s.all_ended());
    assert_eq!(s.outcome(), Ok(()));
}

#[test]
fn failed_device_leaves_the_other_running() {
    let mut s = Supervisor::start(true, 2);
    s.audio_ended(0, Exit::CaptureFailed);
    assert!(s.is_running());
    assert!(!s.all_ended());
    assert_eq!(audio_begin(s.is_running()), AudioAction::Receive);
    assert_eq!(audio_next(AudioAction::Receive, Reply::Done, s.is_running()), AudioAction::SaveChunk);
    s.on_control(ControlEvent::Command(RecorderControl::Stop));
    s.audio_ended(1, Exit::Stopped);
    s.video_ended(Exit::Stopped);
    assert!(s.all_ended());
    assert_eq!(s.outcome(), Ok(()));
}

#[test]
fn crashed_workers_are_fatal_in_order() {
    let mut s = Supervisor::start(true, 3);
    s.audio_ended(2, Exit::Crashed);
    assert_eq!(s.outcome(), Err(Fatal::Audio(2)));
    s.audio_ended(1, Exit::Crashed);
    assert_eq!(s.outcome(), Err(Fatal::Audio(1)));
    s.audio_ended(0, Exit::CaptureFailed);
    assert_eq!(s.outcome(), Err(Fatal::Audio(1)));
    s.video_ended(Exit::Crashed);
    assert_eq!(s.outcome(), Err(Fatal::Video));
}

#[test]
fn closed_control_channel_is_fatal() {
    let mut s = Supervisor::start(true, 1);
    assert!(!s.on_control(ControlEvent::Closed));
    assert!(s.is_running());
    assert_eq!(s.outcome(), Err(Fatal::ControlLost));
    assert!(!s.on_control(ControlEvent::Command(RecorderControl::Stop)));
    assert!(s.is_running());
    s.audio_ended(0, Exit::Crashed);
    assert_eq!(s.outcome(), Err(Fatal::Audio(0)));
}

#[test]
fn audio_worker_handles_a_chunk() {
    let mut doing = audio_begin(true);
    assert_eq!(doing, AudioAction::Receive);
    doing = audio_next(doing, Reply::Nothing, true);
    assert_eq!(doing, AudioAction::Receive);
    doing = audio_next(doing, Reply::Done, true);
    assert_eq!(doing, AudioAction::SaveChunk);
    doing = audio_next(doing, Reply::Done, true);
    assert_eq!(doing, AudioAction::StoreChunk);
    doing = audio_next(doing, Reply::Done, true);
    assert_eq!(doing, AudioAction::StoreTranscript);
    doing = audio_next(doing, Reply::Failed, true);
    assert_eq!(doing, AudioAction::Receive);
}

#[test]
fn audio_worker_gives_up_a_chunk_that_cannot_be_stored() {
    assert_eq!(audio_next(AudioAction::SaveChunk, Reply::Failed, true), AudioAction::Receive);
    assert_eq!(audio_next(AudioAction::StoreChunk, Reply::Failed, true), AudioAction::Receive);
    assert_eq!(audio_next(AudioAction::StoreTranscript, Reply::Done, true), AudioAction::Receive);
}

#[test]
fn audio_worker_ends_when_its_capture_is_gone() {
    assert_eq!(
        audio_next(AudioAction::Receive, Reply::Gone, true),
        AudioAction::Shutdown(Exit::CaptureFailed)
    );
    assert_eq!(
        audio_next(AudioAction::Receive, Reply::Failed, true),
        AudioAction::Shutdown(Exit::CaptureFailed)
    );
    assert_eq!(
        audio_next(AudioAction::Shutdown(Exit::CaptureFailed), Reply::Done, true),
        AudioAction::Shutdown(Exit::CaptureFailed)
    );
}

#[test]
fn stopped_audio_worker_starts_no_new_wait() {
    assert_eq!(audio_begin(false), AudioAction::Shutdown(Exit::Stopped));
    for mut doing in audio_actions() {
        for reply in replies() {
            let mut steps = 0;
            while !matches!(doing, AudioAction::Shutdown(_)) {
                doing = audio_next(doing, reply, false);
                assert_ne!(doing, AudioAction::Receive);
                steps += 1;
            }
            assert!(steps <= 4);
        }
    }
    assert_eq!(
        audio_next(AudioAction::Receive, Reply::Nothing, false),
        AudioAction::Shutdown(Exit::Stopped)
    );
}

#[test]
fn video_worker_handles_a_frame() {
    let mut doing = video_begin(true);
    assert_eq!(doing, VideoAction::Poll);
    doing = video_next(doing, Reply::Done, true);
    assert_eq!(doing, VideoAction::StoreFrame);
    doing = video_next(doing, Reply::Done, true);
    assert_eq!(doing, VideoAction::StoreText);
    doing = video_next(doing, Reply::Failed, true);
    assert_eq!(doing, VideoAction::Sleep);
    doing = video_next(doing, Reply::Done, true);
    assert_eq!(doing, VideoAction::Poll);
    doing = video_next(doing, Reply::Nothing, true);
    assert_eq!(doing, VideoAction::Sleep);
    assert_eq!(video_next(VideoAction::StoreFrame, Reply::Failed, true), VideoAction::Sleep);
}

#[test]
fn stopped_video_worker_asks_for_no_new_frame() {
    assert_eq!(video_begin(false), VideoAction::Shutdown);
    for mut doing in video_actions() {
        for reply in replies() {
            let mut steps = 0;
            while doing != VideoAction::Shutdown {
                doing = video_next(doing, reply, false);
                assert_ne!(doing, VideoAction::Poll);
                steps += 1;
            }
            assert!(steps <= 4);
        }
    }
    assert_eq!(video_next(VideoAction::Sleep, Reply::Done, false), VideoAction::Shutdown);
}

#[test]
fn running_video_worker_never_ends() {
    for doing in video_actions() {
        for reply in replies() {
            if doing != VideoAction::Shutdown {
                assert_ne!(video_next(doing, reply, true), VideoAction::Shutdown);
            }
        }
    }
}

#[test]
fn audio_file_is_named_by_device_and_time() {
    assert_eq!(
        audio_file_path("data", "MacBook Pro Microphone (input)", "2024-07-03 10:00:00 UTC"),
        "data/MacBook Pro Microphone (input)_2024-07-03 10:00:00 UTC.wav"
    );
    assert_eq!(audio_file_path("", "", ""), "/_.wav");
}

#[test]
fn mel_filters_by_number_of_bins() {
    assert_eq!(mel_filters_for(80), Ok(MelFilters::Bins80));
    assert_eq!(mel_filters_for(128), Ok(MelFilters::Bins128));
    assert_eq!(mel_filters_for(64), Err(UnexpectedMelBins(64)));
    assert_eq!(mel_filters_for(0), Err(UnexpectedMelBins(0)));
}

#[test]
fn sizes_of_the_input() {
    assert_eq!(filter_count(64320), 16080);
    assert_eq!(filter_count(7), 1);
    assert_eq!(content_frames(240000, 80), 3000);
    assert_eq!(content_frames(79, 80), 0);
    assert!(needs_resampling(44100));
    assert!(!needs_resampling(16000));
}

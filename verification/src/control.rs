//! The lifecycle of a recording: one stop flag, cleared by the control
//! monitor and polled by every worker, and the account that the supervisor
//! keeps of its workers.

use vstd::prelude::*;

verus! {

/// A lifecycle command sent to a running recording. Only `Stop` is acted
/// upon; `Pause` and `Resume` are reserved and change nothing.
#[derive(Clone, Copy, Debug, PartialEq, Eq, Structural)]
pub enum RecorderControl {
    Pause,
    Resume,
    Stop,
}

/// What the control monitor got from its channel.
#[derive(Clone, Copy, Debug, PartialEq, Eq, Structural)]
pub enum ControlEvent {
    Command(RecorderControl),
    /// The channel was closed by its sender.
    Closed,
}

/// How a worker ended.
#[derive(Clone, Copy, Debug, PartialEq, Eq, Structural)]
pub enum Exit {
    /// It saw the stop flag cleared and shut down.
    Stopped,
    /// Its device failed. This ends the worker and nothing else.
    CaptureFailed,
    /// It could not be joined. This is fatal to the recording's result.
    Crashed,
}

/// Where a worker stands.
#[derive(Clone, Copy, Debug, PartialEq, Eq, Structural)]
pub enum WorkerState {
    Running,
    Ended(Exit),
}

/// The fatal condition that a recording ended with.
#[derive(Clone, Copy, Debug, PartialEq, Eq, Structural)]
pub enum Fatal {
    /// The video worker crashed.
    Video,
    /// The audio worker of the device with this index crashed.
    Audio(usize),
    /// The control channel was closed before a stop was asked for.
    ControlLost,
}

/// The supervisor's account of a recording.
#[derive(Debug)]
pub struct Supervisor {
    running: bool,
    listening: bool,
    control_lost: bool,
    video: WorkerState,
    audio: Vec<WorkerState>,
}

/// What a supervisor is, to its callers.
pub struct SupervisorView {
    /// The stop flag: true until a stop was asked for.
    pub running: bool,
    /// Whether the control monitor still reads its channel.
    pub listening: bool,
    /// Whether the control channel was closed while the monitor read it.
    pub control_lost: bool,
    pub video: WorkerState,
    /// The audio workers, one for each device.
    pub audio: Seq<WorkerState>,
}

impl SupervisorView {
    /// The account after the monitor got `event`. A monitor that has left
    /// its channel gets nothing more. `Stop` clears the flag and ends the
    /// monitor. The reserved commands change nothing. A closed channel ends
    /// the monitor and is recorded; the flag stays as it is.
    pub open spec fn after_control(self, event: ControlEvent) -> SupervisorView {
        if !self.listening {
            self
        } else {
            match event {
                ControlEvent::Command(RecorderControl::Stop) => SupervisorView {
                    running: false,
                    listening: false,
                    ..self
                },
                ControlEvent::Command(_) => self,
                ControlEvent::Closed => SupervisorView {
                    listening: false,
                    control_lost: true,
                    ..self
                },
            }
        }
    }

    /// The index of the first audio worker that crashed, or the number of
    /// audio workers where none did.
    pub open spec fn first_crashed(self) -> int
        decreases self.audio.len(),
    {
        if self.audio.len() == 0 {
            0
        } else {
            let before = SupervisorView { audio: self.audio.drop_last(), ..self }.first_crashed();
            if before < self.audio.len() - 1 || self.audio.last() == WorkerState::Ended(
                Exit::Crashed,
            ) {
                before
            } else {
                self.audio.len() as int
            }
        }
    }

    /// The result of the recording: the first fatal condition among the
    /// video worker, the audio workers in the order of their devices, and
    /// the control channel. Failed devices are not fatal.
    pub open spec fn outcome(self) -> Result<(), Fatal> {
        if self.video == WorkerState::Ended(Exit::Crashed) {
            Err(Fatal::Video)
        } else if self.first_crashed() < self.audio.len() {
            Err(Fatal::Audio(self.first_crashed() as usize))
        } else if self.control_lost {
            Err(Fatal::ControlLost)
        } else {
            Ok(())
        }
    }

    /// Whether every worker has ended.
    pub open spec fn all_ended(self) -> bool {
        self.video != WorkerState::Running && forall|d: int|
            0 <= d < self.audio.len() ==> #[trigger] self.audio[d] != WorkerState::Running
    }
}

impl View for Supervisor {
    type V = SupervisorView;

    closed spec fn view(&self) -> SupervisorView {
        SupervisorView {
            running: self.running,
            listening: self.listening,
            control_lost: self.control_lost,
            video: self.video,
            audio: self.audio@,
        }
    }
}

/// The index that `first_crashed` gives is that of a crashed worker before
/// which none crashed, or the number of workers where none crashed.
pub proof fn lemma_first_crashed(s: SupervisorView)
    ensures
        0 <= s.first_crashed() <= s.audio.len(),
        s.first_crashed() < s.audio.len() ==> s.audio[s.first_crashed()] == WorkerState::Ended(
            Exit::Crashed,
        ),
        forall|d: int|
            0 <= d < s.first_crashed() ==> #[trigger] s.audio[d] != WorkerState::Ended(
                Exit::Crashed,
            ),
    decreases s.audio.len(),
{
    if s.audio.len() > 0 {
        let shorter = SupervisorView { audio: s.audio.drop_last(), ..s };
        lemma_first_crashed(shorter);
        assert forall|d: int| 0 <= d < s.first_crashed() implies #[trigger] s.audio[d]
            != WorkerState::Ended(Exit::Crashed) by {
            if d < s.audio.len() - 1 {
                assert(shorter.audio[d] == s.audio[d]);
            }
        }
    }
}

impl Supervisor {
    /// The account of a recording that starts: the flag is set, the monitor
    /// listens, and the video worker and one audio worker for each device
    /// run. Without audio there is no audio worker.
    pub fn start(enable_audio: bool, devices: usize) -> (s: Supervisor)
        ensures
            s@.running,
            s@.listening,
            !s@.control_lost,
            s@.video == WorkerState::Running,
            s@.audio.len() == if enable_audio {
                devices
            } else {
                0
            },
            forall|d: int| 0 <= d < s@.audio.len() ==> #[trigger] s@.audio[d] == WorkerState::Running,
    {
        let mut audio: Vec<WorkerState> = Vec::new();
        if enable_audio {
            let mut d: usize = 0;
            while d < devices
                invariant
                    d <= devices,
                    audio.len() == d,
                    forall|e: int| 0 <= e < d ==> #[trigger] audio[e] == WorkerState::Running,
                decreases devices - d,
            {
                audio.push(WorkerState::Running);
                d = d + 1;
            }
        }
        Supervisor {
            running: true,
            listening: true,
            control_lost: false,
            video: WorkerState::Running,
            audio,
        }
    }

    /// Takes what the control monitor got from its channel, and returns
    /// whether the monitor goes on reading.
    pub fn on_control(&mut self, event: ControlEvent) -> (listening: bool)
        ensures
            final(self)@ == old(self)@.after_control(event),
            listening == final(self)@.listening,
    {
        if self.listening {
            match event {
                ControlEvent::Command(RecorderControl::Stop) => {
                    self.running = false;
                    self.listening = false;
                },
                ControlEvent::Command(_) => {},
                ControlEvent::Closed => {
                    self.listening = false;
                    self.control_lost = true;
                },
            }
        }
        self.listening
    }

    /// The stop flag, as every worker polls it: true until a stop was asked
    /// for.
    pub fn is_running(&self) -> (running: bool)
        ensures
            running == self@.running,
    {
        self.running
    }

    /// The number of audio workers.
    pub fn devices(&self) -> (n: usize)
        ensures
            n == self@.audio.len(),
    {
        self.audio.len()
    }

    /// Records how the video worker ended. Nothing else changes.
    pub fn video_ended(&mut self, exit: Exit)
        ensures
            final(self)@ == (SupervisorView { video: WorkerState::Ended(exit), ..old(self)@ }),
    {
        self.video = WorkerState::Ended(exit);
    }

    /// Records how the audio worker of `device` ended. The flag, the video
    /// worker and the workers of all other devices stay as they are.
    pub fn audio_ended(&mut self, device: usize, exit: Exit)
        requires
            device < old(self)@.audio.len(),
        ensures
            final(self)@ == (SupervisorView {
                audio: old(self)@.audio.update(device as int, WorkerState::Ended(exit)),
                ..old(self)@
            }),
    {
        self.audio.set(device, WorkerState::Ended(exit));
    }

    /// Whether every worker has ended.
    pub fn all_ended(&self) -> (b: bool)
        ensures
            b == self@.all_ended(),
    {
        if self.video == WorkerState::Running {
            return false;
        }
        let mut d: usize = 0;
        while d < self.audio.len()
            invariant
                d <= self.audio.len(),
                forall|e: int| 0 <= e < d ==> #[trigger] self.audio[e] != WorkerState::Running,
            decreases self.audio.len() - d,
        {
            if self.audio[d] == WorkerState::Running {
                return false;
            }
            d = d + 1;
        }
        true
    }

    /// The result of the recording: success unless a worker crashed or the
    /// control channel was lost.
    pub fn outcome(&self) -> (r: Result<(), Fatal>)
        ensures
            r == self@.outcome(),
    {
        if self.video == WorkerState::Ended(Exit::Crashed) {
            return Err(Fatal::Video);
        }
        let mut d: usize = 0;
        while d < self.audio.len()
            invariant
                d <= self.audio.len(),
                self.video != WorkerState::Ended(Exit::Crashed),
                forall|e: int|
                    0 <= e < d ==> #[trigger] self@.audio[e] != WorkerState::Ended(Exit::Crashed),
            decreases self.audio.len() - d,
        {
            if self.audio[d] == WorkerState::Ended(Exit::Crashed) {
                proof {
                    lemma_first_crashed(self@);
                    let first = self@.first_crashed();
                    assert(self@.audio[d as int] == WorkerState::Ended(Exit::Crashed));
                    if first < d {
                        assert(self@.audio[first] != WorkerState::Ended(Exit::Crashed));
                    }
                    assert(first == d);
                }
                return Err(Fatal::Audio(d));
            }
            d = d + 1;
        }
        proof {
            lemma_first_crashed(self@);
            let first = self@.first_crashed();
            if first < self@.audio.len() {
                assert(self@.audio[first] != WorkerState::Ended(Exit::Crashed));
            }
        }
        if self.control_lost {
            Err(Fatal::ControlLost)
        } else {
            Ok(())
        }
    }
}

/// Once a stop was asked for, the flag is cleared for good: no later
/// command, closed channel or ended worker sets it again, so every poll of
/// every worker finds it cleared.
pub proof fn lemma_stop_is_final(s: SupervisorView, event: ControlEvent)
    ensures
        s.listening ==> !s.after_control(ControlEvent::Command(RecorderControl::Stop)).running,
        !s.running ==> !s.after_control(event).running,
        event != ControlEvent::Command(RecorderControl::Stop) ==> s.after_control(event).running
            == s.running,
{
}

/// The reserved commands change nothing.
pub proof fn lemma_reserved_commands(s: SupervisorView)
    ensures
        s.after_control(ControlEvent::Command(RecorderControl::Pause)) == s,
        s.after_control(ControlEvent::Command(RecorderControl::Resume)) == s,
{
}

/// A device that fails is not fatal: where the worker of `device` ends with
/// a failed capture, the result of the recording is what it would be had
/// the worker been stopped, and the flag and every other worker are as they
/// were.
pub proof fn lemma_failure_is_isolated(s: SupervisorView, device: int)
    requires
        0 <= device < s.audio.len(),
    ensures
        ({
            let failed = SupervisorView {
                audio: s.audio.update(device, WorkerState::Ended(Exit::CaptureFailed)),
                ..s
            };
            let stopped = SupervisorView {
                audio: s.audio.update(device, WorkerState::Ended(Exit::Stopped)),
                ..s
            };
            &&& failed.running == s.running
            &&& failed.video == s.video
            &&& forall|other: int|
                0 <= other < s.audio.len() && other != device ==> #[trigger] failed.audio[other]
                    == s.audio[other]
            &&& failed.outcome() == stopped.outcome()
        }),
{
    let failed = SupervisorView {
        audio: s.audio.update(device, WorkerState::Ended(Exit::CaptureFailed)),
        ..s
    };
    let stopped = SupervisorView {
        audio: s.audio.update(device, WorkerState::Ended(Exit::Stopped)),
        ..s
    };
    lemma_first_crashed(failed);
    lemma_first_crashed(stopped);
    let f = failed.first_crashed();
    let t = stopped.first_crashed();
    if f < t {
        assert(stopped.audio[f] != WorkerState::Ended(Exit::Crashed));
        assert(failed.audio[f] == WorkerState::Ended(Exit::Crashed));
    }
    if t < f {
        assert(failed.audio[t] != WorkerState::Ended(Exit::Crashed));
        assert(stopped.audio[t] == WorkerState::Ended(Exit::Crashed));
    }
}

} // verus!

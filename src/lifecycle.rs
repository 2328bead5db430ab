//! The stream lifecycle as a state machine: `Uninitialized -> Configured ->
//! Running -> Stopping -> Stopped` (or `Failed`). The machine decides; the
//! caller performs each action it returns and reports what happened as the
//! next event. Teardown stops capture before playback and frees the ring
//! buffer only once both callbacks are known to have ceased.

use vstd::prelude::*;
use crate::config::{StreamConfig, SetupError, pairing_error, capacity_needed, check_pairing, buffer_capacity};

verus! {

#[derive(PartialEq, Eq, Structural, Debug, Clone, Copy)]
pub enum Phase {
    Uninitialized,
    Configured,
    Running,
    Stopping,
    Stopped,
    Failed,
}

/// What the caller reports to the machine.
#[derive(PartialEq, Eq, Structural, Debug, Clone, Copy)]
pub enum Event {
    /// Both devices were resolved with these configurations.
    Configure { input: StreamConfig, output: StreamConfig, latency_ms: u32 },
    /// The outcome of building and starting each stream.
    Started { capture_ok: bool, playback_ok: bool },
    /// Process termination or an interrupt.
    ShutdownRequested,
    /// The capture stream is stopped and its callback will not run again.
    CaptureStopped,
    /// The playback stream is stopped and its callback will not run again.
    PlaybackStopped,
}

/// What the machine asks the caller to do next.
#[derive(PartialEq, Eq, Structural, Debug, Clone, Copy)]
pub enum Action {
    /// Allocate a ring buffer of this many samples, bind both callbacks to
    /// it, start both streams and report `Started`.
    AllocateAndStart { capacity: usize },
    /// Keep both streams alive until a shutdown is requested.
    Wait,
    StopCapture,
    StopPlayback,
    /// Release the ring buffer; no callback can touch it any more.
    FreeBuffer,
    /// Nothing is left to do: the machine is in a final phase.
    Done,
    /// The event does not apply in this phase; nothing changed.
    Ignore,
}

/// The manager's state: its phase, which resources are live, and the
/// setup error that ended it, if any.
#[derive(PartialEq, Eq, Structural, Debug, Clone, Copy)]
pub struct Lifecycle {
    pub phase: Phase,
    pub capture_live: bool,
    pub playback_live: bool,
    pub buffer_live: bool,
    pub error: Option<SetupError>,
}

impl Lifecycle {
    /// No stream runs without the buffer it writes or reads, and a final
    /// phase holds nothing live.
    pub open spec fn wf(&self) -> bool {
        &&& (self.capture_live || self.playback_live) ==> self.buffer_live
        &&& (self.phase == Phase::Uninitialized || self.phase == Phase::Stopped
            || self.phase == Phase::Failed) ==> !self.buffer_live
        &&& self.phase == Phase::Configured ==> self.buffer_live && !self.capture_live
            && !self.playback_live
        &&& self.phase == Phase::Running ==> self.capture_live && self.playback_live
    }

    pub open spec fn is_final(&self) -> bool {
        self.phase == Phase::Stopped || self.phase == Phase::Failed
    }
}

/// The next teardown step from a `Stopping` state: capture first, then
/// playback, then the buffer; then the final phase, `Failed` when an error
/// is recorded.
pub open spec fn teardown(s: Lifecycle) -> (Lifecycle, Action) {
    if s.capture_live {
        (s, Action::StopCapture)
    } else if s.playback_live {
        (s, Action::StopPlayback)
    } else {
        let phase = if s.error.is_some() {
            Phase::Failed
        } else {
            Phase::Stopped
        };
        let done = Lifecycle { phase, buffer_live: false, ..s };
        if s.buffer_live {
            (done, Action::FreeBuffer)
        } else {
            (done, Action::Done)
        }
    }
}

/// The transition function of the lifecycle.
pub open spec fn step(s: Lifecycle, e: Event) -> (Lifecycle, Action) {
    match (s.phase, e) {
        (Phase::Uninitialized, Event::Configure { input, output, latency_ms }) => {
            match pairing_error(input, output) {
                Some(err) => (Lifecycle { phase: Phase::Failed, error: Some(err), ..s }, Action::Done),
                None => if capacity_needed(input, latency_ms) <= usize::MAX {
                    (
                        Lifecycle { phase: Phase::Configured, buffer_live: true, ..s },
                        Action::AllocateAndStart {
                            capacity: capacity_needed(input, latency_ms) as usize,
                        },
                    )
                } else {
                    (
                        Lifecycle {
                            phase: Phase::Failed,
                            error: Some(SetupError::BufferTooLarge),
                            ..s
                        },
                        Action::Done,
                    )
                },
            }
        },
        (Phase::Uninitialized, Event::ShutdownRequested) => (
            Lifecycle { phase: Phase::Stopped, ..s },
            Action::Done,
        ),
        (Phase::Configured, Event::Started { capture_ok, playback_ok }) => {
            if capture_ok && playback_ok {
                (
                    Lifecycle {
                        phase: Phase::Running,
                        capture_live: true,
                        playback_live: true,
                        ..s
                    },
                    Action::Wait,
                )
            } else {
                teardown(
                    Lifecycle {
                        phase: Phase::Stopping,
                        capture_live: capture_ok,
                        playback_live: playback_ok,
                        error: Some(SetupError::StreamStartFailed),
                        ..s
                    },
                )
            }
        },
        (Phase::Configured, Event::ShutdownRequested) => teardown(
            Lifecycle { phase: Phase::Stopping, ..s },
        ),
        (Phase::Running, Event::ShutdownRequested) => teardown(
            Lifecycle { phase: Phase::Stopping, ..s },
        ),
        (Phase::Stopping, Event::CaptureStopped) => teardown(
            Lifecycle { capture_live: false, ..s },
        ),
        (Phase::Stopping, Event::PlaybackStopped) => teardown(
            Lifecycle { playback_live: false, ..s },
        ),
        _ => (s, Action::Ignore),
    }
}

impl Lifecycle {
    /// A manager with nothing resolved, allocated or started.
    pub fn new() -> (r: Lifecycle)
        ensures
            r.phase == Phase::Uninitialized,
            !r.capture_live && !r.playback_live && !r.buffer_live,
            r.error.is_none(),
            r.wf(),
    {
        Lifecycle {
            phase: Phase::Uninitialized,
            capture_live: false,
            playback_live: false,
            buffer_live: false,
            error: None,
        }
    }

    /// Whether the machine has reached `Stopped` or `Failed`.
    pub fn finished(&self) -> (r: bool)
        ensures
            r == self.is_final(),
    {
        match self.phase {
            Phase::Stopped | Phase::Failed => true,
            _ => false,
        }
    }

    fn teardown_step(&mut self) -> (a: Action)
        ensures
            (*final(self), a) == teardown(*old(self)),
    {
        if self.capture_live {
            Action::StopCapture
        } else if self.playback_live {
            Action::StopPlayback
        } else {
            self.phase = if self.error.is_some() {
                Phase::Failed
            } else {
                Phase::Stopped
            };
            if self.buffer_live {
                self.buffer_live = false;
                Action::FreeBuffer
            } else {
                Action::Done
            }
        }
    }

    /// Applies `e` and returns what the caller must do next, as `step`
    /// defines it. In particular `FreeBuffer` is only ever returned once
    /// neither stream is live.
    pub fn handle(&mut self, e: Event) -> (a: Action)
        ensures
            (*final(self), a) == step(*old(self), e),
            a == Action::FreeBuffer ==> !final(self).capture_live && !final(self).playback_live,
            old(self).wf() ==> final(self).wf(),
    {
        proof {
            lemma_step_wf(*self, e);
        }
        match (self.phase, e) {
            (Phase::Uninitialized, Event::Configure { input, output, latency_ms }) => {
                match check_pairing(&input, &output) {
                    Err(err) => {
                        self.phase = Phase::Failed;
                        self.error = Some(err);
                        Action::Done
                    },
                    Ok(()) => match buffer_capacity(&input, latency_ms) {
                        Some(capacity) => {
                            self.phase = Phase::Configured;
                            self.buffer_live = true;
                            Action::AllocateAndStart { capacity }
                        },
                        None => {
                            self.phase = Phase::Failed;
                            self.error = Some(SetupError::BufferTooLarge);
                            Action::Done
                        },
                    },
                }
            },
            (Phase::Uninitialized, Event::ShutdownRequested) => {
                self.phase = Phase::Stopped;
                Action::Done
            },
            (Phase::Configured, Event::Started { capture_ok, playback_ok }) => {
                if capture_ok && playback_ok {
                    self.phase = Phase::Running;
                    self.capture_live = true;
                    self.playback_live = true;
                    Action::Wait
                } else {
                    self.phase = Phase::Stopping;
                    self.capture_live = capture_ok;
                    self.playback_live = playback_ok;
                    self.error = Some(SetupError::StreamStartFailed);
                    self.teardown_step()
                }
            },
            (Phase::Configured, Event::ShutdownRequested) | (
                Phase::Running,
                Event::ShutdownRequested,
            ) => {
                self.phase = Phase::Stopping;
                self.teardown_step()
            },
            (Phase::Stopping, Event::CaptureStopped) => {
                self.capture_live = false;
                self.teardown_step()
            },
            (Phase::Stopping, Event::PlaybackStopped) => {
                self.playback_live = false;
                self.teardown_step()
            },
            _ => Action::Ignore,
        }
    }
}

/// Every transition keeps the lifecycle well formed, and frees the buffer
/// only when neither stream is live.
pub proof fn lemma_step_wf(s: Lifecycle, e: Event)
    ensures
        s.wf() ==> step(s, e).0.wf(),
        step(s, e).1 == Action::FreeBuffer ==> !step(s, e).0.capture_live
            && !step(s, e).0.playback_live && !step(s, e).0.buffer_live,
        step(s, e).1 == Action::StopPlayback ==> !step(s, e).0.capture_live,
{
}

/// The state after handling `es` in order from `s`.
pub open spec fn after(s: Lifecycle, es: Seq<Event>) -> Lifecycle
    decreases es.len(),
{
    if es.len() == 0 {
        s
    } else {
        step(after(s, es.drop_last()), es.last()).0
    }
}

proof fn lemma_after_wf(s: Lifecycle, es: Seq<Event>)
    requires
        s.wf(),
    ensures
        after(s, es).wf(),
    decreases es.len(),
{
    if es.len() > 0 {
        lemma_after_wf(s, es.drop_last());
        lemma_step_wf(after(s, es.drop_last()), es.last());
    }
}

/// Shutdown never races a callback: along any sequence of events from a
/// well-formed state, no stream is ever live without the ring buffer, the
/// buffer is freed only when neither stream is live, and playback is only
/// asked to stop once capture has stopped.
pub proof fn lemma_shutdown_safety(s: Lifecycle, es: Seq<Event>)
    requires
        s.wf(),
    ensures
        forall|i: int|
            0 <= i <= es.len() ==> (#[trigger] after(s, es.take(i))).wf(),
        forall|i: int|
            0 <= i < es.len() ==> {
                let (next, a) = #[trigger] step(after(s, es.take(i)), es[i]);
                &&& a == Action::FreeBuffer ==> !next.capture_live && !next.playback_live
                &&& a == Action::StopPlayback ==> !next.capture_live
            },
{
    assert forall|i: int| 0 <= i <= es.len() implies (#[trigger] after(s, es.take(i))).wf() by {
        lemma_after_wf(s, es.take(i));
    }
    assert forall|i: int| 0 <= i < es.len() implies {
        let (next, a) = #[trigger] step(after(s, es.take(i)), es[i]);
        &&& a == Action::FreeBuffer ==> !next.capture_live && !next.playback_live
        &&& a == Action::StopPlayback ==> !next.capture_live
    } by {
        lemma_step_wf(after(s, es.take(i)), es[i]);
    }
}

} // verus!

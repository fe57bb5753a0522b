use vstd::prelude::*;

use crate::controller::Event;

verus! {

/// What the Playback Engine holds: whether the process's output device
/// connection is still open, and whether a PlaybackSession is bound to it.
/// One flag for the session is the invariant that at most one is active.
#[derive(Clone, Copy, Debug, PartialEq, Eq, Structural)]
pub struct EngineState {
    pub device_open: bool,
    pub session_active: bool,
}

/// The number of active PlaybackSessions.
pub open spec fn live_sessions(s: EngineState) -> nat {
    if s.session_active {
        1
    } else {
        0
    }
}

/// A track could not be opened, decoded or started: the path and the reason.
#[derive(Debug)]
pub struct DecodeOpenError {
    pub path: String,
    pub reason: String,
}

impl View for DecodeOpenError {
    type V = (Seq<char>, Seq<char>);

    open spec fn view(&self) -> (Seq<char>, Seq<char>) {
        (self.path@, self.reason@)
    }
}

impl DecodeOpenError {
    pub fn copy(&self) -> (r: DecodeOpenError)
        ensures
            r@ == self@,
    {
        DecodeOpenError { path: self.path.clone(), reason: self.reason.clone() }
    }
}

/// What the program is to do for a play command.
#[derive(Debug)]
pub enum PlayOrder {
    /// Terminate the active session first, when `stop_previous` says so, then
    /// open, decode and start the track at `path`.
    Start { stop_previous: bool, path: String },
    /// The output device connection is gone: nothing can be played.
    DeviceReleased,
}

/// What the program is to release at shutdown.
#[derive(Clone, Copy, Debug, PartialEq, Eq, Structural)]
pub struct Teardown {
    pub stop_session: bool,
    pub release_device: bool,
}

/// Whether a play command in state `s` terminates an active session first.
pub open spec fn stops_previous(s: EngineState) -> bool {
    s.device_open && s.session_active
}

/// After a play command the previous session is gone, whether or not the new
/// one will start.
pub open spec fn after_request(s: EngineState) -> EngineState {
    EngineState { device_open: s.device_open, session_active: false }
}

/// After the outcome of opening and starting a track: a session is active
/// exactly when it started on an open device.
pub open spec fn after_outcome(s: EngineState, started: bool) -> EngineState {
    EngineState { device_open: s.device_open, session_active: s.device_open && started }
}

pub open spec fn teardown_of(s: EngineState) -> Teardown {
    Teardown { stop_session: s.session_active, release_device: s.device_open }
}

pub open spec fn after_shutdown(s: EngineState) -> EngineState {
    EngineState { device_open: false, session_active: false }
}

/// The Playback Engine's decisions. The program performs them: it owns the
/// device connection and the stream, and reports back how a start went.
#[derive(Debug)]
pub struct PlaybackEngine {
    state: EngineState,
}

impl PlaybackEngine {
    pub closed spec fn spec_state(&self) -> EngineState {
        self.state
    }

    /// An engine on a freshly acquired device connection, with no session.
    pub fn new() -> (r: PlaybackEngine)
        ensures
            r.spec_state() == (EngineState { device_open: true, session_active: false }),
    {
        PlaybackEngine { state: EngineState { device_open: true, session_active: false } }
    }

    pub fn state(&self) -> (r: EngineState)
        ensures
            r == self.spec_state(),
    {
        self.state
    }

    /// A play command: the active session, if any, is terminated before the
    /// new one is started.
    pub fn load_and_play(&mut self, path: &str) -> (r: PlayOrder)
        ensures
            match r {
                PlayOrder::Start { stop_previous, path: p } => {
                    &&& old(self).spec_state().device_open
                    &&& stop_previous == stops_previous(old(self).spec_state())
                    &&& p@ == path@
                },
                PlayOrder::DeviceReleased => !old(self).spec_state().device_open,
            },
            final(self).spec_state() == after_request(old(self).spec_state()),
    {
        let r = if self.state.device_open {
            PlayOrder::Start { stop_previous: self.state.session_active, path: path.to_owned() }
        } else {
            PlayOrder::DeviceReleased
        };
        self.state.session_active = false;
        r
    }

    /// Records how the start that `load_and_play` ordered went, and hands the
    /// controller the matching event: a failure becomes its annotation.
    pub fn play_outcome(&mut self, outcome: Result<(), DecodeOpenError>) -> (r: Event)
        ensures
            final(self).spec_state() == after_outcome(old(self).spec_state(), outcome is Ok),
            match outcome {
                Ok(()) => r is PlaybackStarted,
                Err(e) => r is PlaybackFailed && r->PlaybackFailed_0@ == e@,
            },
    {
        match outcome {
            Ok(()) => {
                self.state.session_active = self.state.device_open;
                Event::PlaybackStarted
            },
            Err(e) => {
                self.state.session_active = false;
                Event::PlaybackFailed(e)
            },
        }
    }

    /// Stops playback; says whether a session was there to release. Stopping
    /// with no active session does nothing.
    pub fn stop(&mut self) -> (released: bool)
        ensures
            released == old(self).spec_state().session_active,
            final(self).spec_state() == after_request(old(self).spec_state()),
    {
        let released = self.state.session_active;
        self.state.session_active = false;
        released
    }

    /// Shutdown: the session, then the device connection, each released only
    /// if it is still held.
    pub fn shutdown(&mut self) -> (r: Teardown)
        ensures
            r == teardown_of(old(self).spec_state()),
            final(self).spec_state() == after_shutdown(old(self).spec_state()),
    {
        let r = Teardown {
            stop_session: self.state.session_active,
            release_device: self.state.device_open,
        };
        self.state = EngineState { device_open: false, session_active: false };
        r
    }
}

/// Two consecutive play commands leave exactly one active session: the second
/// command orders the first session terminated, no session is active while
/// the second starts, and once it has started it is the only one.
pub proof fn lemma_two_plays_one_session(s: EngineState)
    requires
        s.device_open,
    ensures
        ({
            let s1 = after_outcome(after_request(s), true);
            &&& stops_previous(s1)
            &&& live_sessions(after_request(s1)) == 0
            &&& live_sessions(after_outcome(after_request(s1), true)) == 1
        }),
{
}

/// Shutting down releases the device connection exactly once: a second
/// shutdown releases nothing.
pub proof fn lemma_device_released_once(s: EngineState)
    requires
        s.device_open,
    ensures
        teardown_of(s).release_device,
        !teardown_of(after_shutdown(s)).release_device,
        !teardown_of(after_shutdown(s)).stop_session,
{
}

} // verus!

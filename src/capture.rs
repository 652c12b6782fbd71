use vstd::prelude::*;

verus! {

/// Lifecycle of the capture session.
#[derive(PartialEq, Eq, Structural, Clone, Copy, Debug)]
pub enum CaptureState {
    /// No session.
    Idle,
    /// A session is being built.
    Starting,
    /// A session is open and delivering audio.
    Active,
}

/// Requests processed by the capture thread, one at a time.
#[derive(PartialEq, Eq, Structural, Clone, Copy, Debug)]
pub enum AudioCommand {
    Start,
    Stop,
}

/// What the capture thread must do for a command.
#[derive(PartialEq, Eq, Structural, Clone, Copy, Debug)]
pub enum CaptureAction {
    /// Nothing: the command does not apply in this state.
    Ignore,
    /// Build the device stream, ring buffer and worker, then report the outcome.
    BuildSession,
    /// Close the session if `tear_down`, and send a flush marker if `flush`.
    Stop { tear_down: bool, flush: bool },
}

/// One command's effect: the next state and the action to perform.
pub open spec fn capture_step(state: CaptureState, flush_on_stop: bool, cmd: AudioCommand) -> (CaptureState, CaptureAction) {
    match cmd {
        AudioCommand::Start => match state {
            CaptureState::Idle => (CaptureState::Starting, CaptureAction::BuildSession),
            _ => (state, CaptureAction::Ignore),
        },
        AudioCommand::Stop => (
            CaptureState::Idle,
            CaptureAction::Stop { tear_down: state == CaptureState::Active, flush: flush_on_stop },
        ),
    }
}

/// The state once a build has been reported, and whether the new session is kept.
pub open spec fn build_outcome(state: CaptureState, built: bool) -> (CaptureState, bool) {
    if state == CaptureState::Starting {
        if built {
            (CaptureState::Active, true)
        } else {
            (CaptureState::Idle, false)
        }
    } else {
        (state, false)
    }
}

/// Serialises start and stop requests and tracks the session they govern.
pub struct CaptureController {
    state: CaptureState,
    flush_on_stop: bool,
}

impl CaptureController {
    pub closed spec fn state(&self) -> CaptureState {
        self.state
    }

    pub closed spec fn flush_on_stop(&self) -> bool {
        self.flush_on_stop
    }

    /// An idle controller; `flush_on_stop` says whether a stop also ends the utterance.
    pub fn new(flush_on_stop: bool) -> (r: Self)
        ensures
            r.state() == CaptureState::Idle,
            r.flush_on_stop() == flush_on_stop,
    {
        CaptureController { state: CaptureState::Idle, flush_on_stop }
    }

    pub fn current(&self) -> (r: CaptureState)
        ensures
            r == self.state(),
    {
        self.state
    }

    /// Whether a session is open.
    pub fn is_active(&self) -> (r: bool)
        ensures
            r == (self.state() == CaptureState::Active),
    {
        self.state == CaptureState::Active
    }

    /// Takes one command and says what to do for it.
    pub fn handle_command(&mut self, cmd: AudioCommand) -> (r: CaptureAction)
        ensures
            (final(self).state(), r) == capture_step(old(self).state(), old(self).flush_on_stop(), cmd),
            final(self).flush_on_stop() == old(self).flush_on_stop(),
    {
        match cmd {
            AudioCommand::Start => match self.state {
                CaptureState::Idle => {
                    self.state = CaptureState::Starting;
                    CaptureAction::BuildSession
                },
                _ => CaptureAction::Ignore,
            },
            AudioCommand::Stop => {
                let tear_down = self.state == CaptureState::Active;
                self.state = CaptureState::Idle;
                CaptureAction::Stop { tear_down, flush: self.flush_on_stop }
            },
        }
    }

    /// Reports whether the session asked for by `BuildSession` was built.
    /// Returns whether it is to be kept; one built when none was awaited is not.
    pub fn session_built(&mut self, built: bool) -> (keep: bool)
        ensures
            (final(self).state(), keep) == build_outcome(old(self).state(), built),
            final(self).flush_on_stop() == old(self).flush_on_stop(),
    {
        if self.state == CaptureState::Starting {
            if built {
                self.state = CaptureState::Active;
                true
            } else {
                self.state = CaptureState::Idle;
                false
            }
        } else {
            false
        }
    }
}

/// Two starts with no stop between them open at most one session: once the
/// first start has produced a session, the second is ignored and leaves it
/// as it is; and a start while a session is starting or open never asks for
/// another one.
pub proof fn lemma_start_idempotent(state: CaptureState, flush_on_stop: bool, built: bool)
    ensures
        ({
            let (s1, a1) = capture_step(state, flush_on_stop, AudioCommand::Start);
            let s2 = if a1 == CaptureAction::BuildSession { build_outcome(s1, built).0 } else { s1 };
            let (s3, a2) = capture_step(s2, flush_on_stop, AudioCommand::Start);
            s2 == CaptureState::Active ==> (a2 == CaptureAction::Ignore && s3 == CaptureState::Active)
        }),
        state != CaptureState::Idle ==> capture_step(state, flush_on_stop, AudioCommand::Start) == (
        state,
        CaptureAction::Ignore,
        ),
{
}

} // verus!

//! The focus session's decisions. A driver owns the audio stream, the keyword
//! spotter, the policy engine, the volume controller and the event log; it
//! reports what happened to the session, and the session answers with what
//! to do next.
use vstd::prelude::*;
use crate::decision::VolumeDecision;
use crate::event_log::TriggerEvent;
use crate::ieee::{binary32_eq, binary32_equal};
use crate::kws::KwsHit;

verus! {

/// Lifecycle state of a focus session.
#[derive(Debug, Clone, Copy, PartialEq, Eq, Structural)]
pub enum SessionState {
    /// Not capturing audio.
    Idle,
    /// Capturing and waiting for a keyword.
    Listening,
    /// A policy set the target volume.
    Triggered,
    /// The user changed the volume outside the session: automatic control is
    /// paused.
    Paused,
}

/// Why a session step was refused.
#[derive(Debug, Clone, Copy, PartialEq, Eq, Structural)]
pub enum SessionError {
    /// A tick arrived before `start`.
    NotStarted,
}

/// What the driver must do after a policy decision.
#[derive(Debug, Clone, Copy, PartialEq, Eq, Structural)]
pub enum SessionAction {
    /// Nothing.
    Keep,
    /// Set the target volume to `percent` (0–100) and log the trigger event.
    ApplyVolume { percent: u32, duration_seconds: u32 },
}

/// A single focus session: one target process, its lifecycle state and the
/// volume the session last set on it.
#[derive(Debug)]
pub struct FocusSession {
    session_id: String,
    target_pid: u32,
    state: SessionState,
    /// Bit pattern (binary32) of the volume the session last set, if any.
    expected_volume: Option<u32>,
    /// Bit pattern (binary32) of the target's volume when capture started,
    /// if it could be read.
    original_volume: Option<u32>,
}

/// How the driver restores the target's volume when a session ends.
#[derive(Debug, Clone, Copy, PartialEq, Eq, Structural)]
pub enum VolumeRestore {
    /// Set the volume back to this binary32 pattern, read when capture started.
    RestoreTo { volume_bits: u32 },
    /// The volume at start is unknown: unmute the target.
    Unmute,
}

/// How a session that recorded `original` at start restores the volume.
pub open spec fn restore_for(original: Option<u32>) -> VolumeRestore {
    match original {
        Some(b) => VolumeRestore::RestoreTo { volume_bits: b },
        None => VolumeRestore::Unmute,
    }
}

/// Whether a running session that set volume `expected` sees `observed`
/// instead (IEEE comparison of binary32 patterns).
pub open spec fn volume_changed(state: SessionState, expected: Option<u32>, observed: u32) -> bool {
    &&& state != SessionState::Idle
    &&& match expected {
        Some(e) => !binary32_eq(observed, e),
        None => false,
    }
}

/// The state a decision moves the session to: an idle or paused session
/// stays as it is.
pub open spec fn state_after_decision(state: SessionState, d: VolumeDecision) -> SessionState {
    if state == SessionState::Paused || state == SessionState::Idle {
        state
    } else if d is SetVolume {
        SessionState::Triggered
    } else {
        state
    }
}

/// The action a decision asks for: a volume change (clamped to 100) for a new
/// window, unless the session is idle or automatic control is paused.
pub open spec fn action_for(state: SessionState, d: VolumeDecision) -> SessionAction {
    match d {
        VolumeDecision::SetVolume { volume, duration_seconds } => if state == SessionState::Paused
            || state == SessionState::Idle {
            SessionAction::Keep
        } else {
            SessionAction::ApplyVolume {
                percent: if volume > 100 { 100 } else { volume },
                duration_seconds,
            }
        },
        _ => SessionAction::Keep,
    }
}

impl FocusSession {
    /// Session identifier.
    pub closed spec fn id_view(&self) -> Seq<char> {
        self.session_id@
    }

    /// Target process.
    pub closed spec fn pid_view(&self) -> u32 {
        self.target_pid
    }

    /// Lifecycle state.
    pub closed spec fn state_view(&self) -> SessionState {
        self.state
    }

    /// The volume (binary32 pattern) the session last set, if any.
    pub closed spec fn expected_view(&self) -> Option<u32> {
        self.expected_volume
    }

    /// The target's volume (binary32 pattern) when capture started, if known.
    pub closed spec fn original_view(&self) -> Option<u32> {
        self.original_volume
    }

    /// A new, idle session for `target_pid`.
    pub fn new(session_id: String, target_pid: u32) -> (r: Self)
        ensures
            r.id_view() == session_id@,
            r.pid_view() == target_pid,
            r.state_view() == SessionState::Idle,
            r.expected_view() is None,
            r.original_view() is None,
    {
        FocusSession {
            session_id,
            target_pid,
            state: SessionState::Idle,
            expected_volume: None,
            original_volume: None,
        }
    }

    pub fn session_id(&self) -> (r: &str)
        ensures
            r@ == self.id_view(),
    {
        self.session_id.as_str()
    }

    pub fn target_pid(&self) -> (r: u32)
        ensures
            r == self.pid_view(),
    {
        self.target_pid
    }

    pub fn state(&self) -> (r: SessionState)
        ensures
            r == self.state_view(),
    {
        self.state
    }

    /// Whether the session holds a capture and must restore the volume when
    /// it ends.
    pub fn is_active(&self) -> (r: bool)
        ensures
            r == (self.state_view() != SessionState::Idle),
    {
        self.state != SessionState::Idle
    }

    /// Capture has started; `original_volume` is the target's volume
    /// (binary32 pattern) read just before, if it could be read. An idle
    /// session starts listening and remembers that volume; a running one
    /// keeps its state and the volume it remembered.
    pub fn start(&mut self, original_volume: Option<u32>)
        ensures
            final(self).state_view() == if old(self).state_view() == SessionState::Idle {
                SessionState::Listening
            } else {
                old(self).state_view()
            },
            final(self).original_view() == if old(self).state_view() == SessionState::Idle {
                original_volume
            } else {
                old(self).original_view()
            },
            final(self).id_view() == old(self).id_view(),
            final(self).pid_view() == old(self).pid_view(),
            final(self).expected_view() == old(self).expected_view(),
    {
        if self.state == SessionState::Idle {
            self.state = SessionState::Listening;
            self.original_volume = original_volume;
        }
    }

    /// A tick may proceed only once the session has started.
    pub fn begin_tick(&self) -> (r: Result<(), SessionError>)
        ensures
            r is Err <==> self.state_view() == SessionState::Idle,
            r is Err ==> r == Err::<(), SessionError>(SessionError::NotStarted),
    {
        if self.state == SessionState::Idle {
            Err(SessionError::NotStarted)
        } else {
            Ok(())
        }
    }

    /// Whether the driver must read the target's volume this tick: only when
    /// the session has set one and control is not already paused.
    pub fn needs_volume_check(&self) -> (r: bool)
        ensures
            r == (self.expected_view() is Some && self.state_view() != SessionState::Paused
                && self.state_view() != SessionState::Idle),
    {
        self.expected_volume.is_some() && self.state != SessionState::Paused && self.state
            != SessionState::Idle
    }

    /// The driver read volume `observed` (binary32 pattern) from the target.
    /// If it differs from what the session last set, the user changed it and
    /// automatic control pauses. Returns whether the session is now paused.
    pub fn observe_volume(&mut self, observed: u32) -> (r: bool)
        ensures
            final(self).state_view() == if volume_changed(
                old(self).state_view(),
                old(self).expected_view(),
                observed,
            ) {
                SessionState::Paused
            } else {
                old(self).state_view()
            },
            r == (final(self).state_view() == SessionState::Paused),
            final(self).id_view() == old(self).id_view(),
            final(self).pid_view() == old(self).pid_view(),
            final(self).expected_view() == old(self).expected_view(),
            final(self).original_view() == old(self).original_view(),
    {
        if self.state != SessionState::Idle {
            match self.expected_volume {
                Some(e) => {
                    if !binary32_equal(observed, e) {
                        self.state = SessionState::Paused;
                    }
                },
                None => {},
            }
        }
        self.state == SessionState::Paused
    }

    /// The user hands control back after a pause: the session listens again
    /// and, since the volume now on the target is the user's, checks it only
    /// after it next sets one. Returns whether the session was paused; any
    /// other session is left as it is.
    pub fn resume(&mut self) -> (r: bool)
        ensures
            r == (old(self).state_view() == SessionState::Paused),
            final(self).state_view() == if r {
                SessionState::Listening
            } else {
                old(self).state_view()
            },
            final(self).expected_view() == if r {
                None
            } else {
                old(self).expected_view()
            },
            final(self).original_view() == old(self).original_view(),
            final(self).id_view() == old(self).id_view(),
            final(self).pid_view() == old(self).pid_view(),
    {
        if self.state == SessionState::Paused {
            self.state = SessionState::Listening;
            self.expected_volume = None;
            true
        } else {
            false
        }
    }

    /// Applies a policy decision for a keyword hit. A new window sets the
    /// volume (clamped to 100) and marks the session triggered; renewals and
    /// default decisions change nothing; while idle or paused nothing is
    /// applied.
    pub fn on_decision(&mut self, d: VolumeDecision) -> (r: SessionAction)
        ensures
            r == action_for(old(self).state_view(), d),
            final(self).state_view() == state_after_decision(old(self).state_view(), d),
            final(self).id_view() == old(self).id_view(),
            final(self).pid_view() == old(self).pid_view(),
            final(self).original_view() == old(self).original_view(),
            final(self).expected_view() == old(self).expected_view(),
    {
        if self.state == SessionState::Paused || self.state == SessionState::Idle {
            return SessionAction::Keep;
        }
        match d {
            VolumeDecision::SetVolume { volume, duration_seconds } => {
                self.state = SessionState::Triggered;
                let percent = if volume > 100 { 100 } else { volume };
                SessionAction::ApplyVolume { percent, duration_seconds }
            },
            _ => SessionAction::Keep,
        }
    }

    /// The driver set the target volume to `applied` (binary32 pattern).
    pub fn volume_applied(&mut self, applied: u32)
        ensures
            final(self).expected_view() == Some(applied),
            final(self).state_view() == old(self).state_view(),
            final(self).id_view() == old(self).id_view(),
            final(self).pid_view() == old(self).pid_view(),
            final(self).original_view() == old(self).original_view(),
    {
        self.expected_volume = Some(applied);
    }

    /// The trigger event logged for a hit that changed the volume, naming
    /// the policy that decided.
    pub fn trigger_event(&self, hit: &KwsHit, policy_name: Option<String>) -> (r: TriggerEvent)
        ensures
            r.timestamp_ms == hit.timestamp_ms,
            r.session_id@ == self.id_view(),
            r.policy_name == policy_name,
            r.keyword == hit.keyword,
            r.confidence_bits == hit.confidence_bits,
    {
        TriggerEvent {
            timestamp_ms: hit.timestamp_ms,
            session_id: self.session_id.clone(),
            policy_name,
            keyword: hit.keyword.clone(),
            confidence_bits: hit.confidence_bits,
        }
    }

    /// Capture has stopped: the session is idle and forgets the volumes it
    /// knew. Returns how the driver restores the target's volume: back to the
    /// volume read when capture started, or unmuted when that is unknown.
    pub fn stop(&mut self) -> (r: VolumeRestore)
        ensures
            r == restore_for(old(self).original_view()),
            final(self).state_view() == SessionState::Idle,
            final(self).expected_view() is None,
            final(self).original_view() is None,
            final(self).id_view() == old(self).id_view(),
            final(self).pid_view() == old(self).pid_view(),
    {
        let r = match self.original_volume {
            Some(b) => VolumeRestore::RestoreTo { volume_bits: b },
            None => VolumeRestore::Unmute,
        };
        self.state = SessionState::Idle;
        self.expected_volume = None;
        self.original_volume = None;
        r
    }
}

} // verus!

verus! {

/// While automatic control is paused, no decision changes the volume or
/// leaves the paused state.
pub proof fn law_paused_never_applies(d: VolumeDecision)
    ensures
        action_for(SessionState::Paused, d) == SessionAction::Keep,
        state_after_decision(SessionState::Paused, d) == SessionState::Paused,
{
}

/// A session that has not started, or has stopped, ignores every decision.
pub proof fn law_idle_never_applies(d: VolumeDecision)
    ensures
        action_for(SessionState::Idle, d) == SessionAction::Keep,
        state_after_decision(SessionState::Idle, d) == SessionState::Idle,
{
}

/// A volume the session asks for never exceeds 100, and it is asked for
/// exactly when a new window opens on a running session that is not paused.
pub proof fn law_applied_volume_is_clamped(state: SessionState, d: VolumeDecision)
    ensures
        action_for(state, d) matches SessionAction::ApplyVolume { percent, .. } ==> percent <= 100,
        action_for(state, d) is ApplyVolume <==> (d is SetVolume && state != SessionState::Paused
            && state != SessionState::Idle),
{
}

/// What a decision does on a running session that is not paused: a new
/// window asks for its volume, lowered to 100 if above, for its duration, and
/// marks the session triggered; a renewal or a default decision asks for
/// nothing and leaves the state as it is.
pub proof fn law_decision_on_running_session(state: SessionState, d: VolumeDecision)
    requires
        state != SessionState::Idle,
        state != SessionState::Paused,
    ensures
        d matches VolumeDecision::SetVolume { volume, duration_seconds } ==> {
            &&& action_for(state, d) == SessionAction::ApplyVolume {
                percent: if volume <= 100 {
                    volume
                } else {
                    100
                },
                duration_seconds,
            }
            &&& state_after_decision(state, d) == SessionState::Triggered
        },
        !(d is SetVolume) ==> action_for(state, d) == SessionAction::Keep && state_after_decision(
            state,
            d,
        ) == state,
{
}

/// A volume check pauses a running session exactly when the session has set
/// a volume and the volume read differs from it (as binary32 values); a
/// session that has set none, or is idle, is never paused by a check.
pub proof fn law_volume_check_pauses_on_change(
    state: SessionState,
    expected: Option<u32>,
    observed: u32,
)
    ensures
        state != SessionState::Idle ==> (expected matches Some(e) ==> (volume_changed(
            state,
            expected,
            observed,
        ) <==> !binary32_eq(observed, e))),
        expected is None ==> !volume_changed(state, expected, observed),
        state == SessionState::Idle ==> !volume_changed(state, expected, observed),
{
}

/// Stopping gives back the volume read at start when it was read, and asks
/// to unmute when it was not.
pub proof fn law_stop_restores_what_start_read(original: Option<u32>)
    ensures
        original matches Some(b) ==> restore_for(original) == (VolumeRestore::RestoreTo {
            volume_bits: b,
        }),
        original is None ==> restore_for(original) == VolumeRestore::Unmute,
{
}

} // verus!

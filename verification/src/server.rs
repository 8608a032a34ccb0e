//! Replies of the local control service.
use vstd::prelude::*;
use crate::policy::{error_text, PolicySet};
use crate::event_log::TriggerEvent;

verus! {

/// An audio-producing process as the service lists it.
#[derive(Debug, Clone)]
pub struct AudioProcess {
    pub pid: u32,
    pub name: String,
    pub window_title: String,
    /// Current volume, as the bit pattern of a binary32 value.
    pub current_volume_bits: u32,
    pub is_meeting_app: bool,
}

/// The list of audio-producing processes.
#[derive(Debug, Clone)]
pub struct ProcessList {
    pub processes: Vec<AudioProcess>,
}

/// A started session.
#[derive(Debug, Clone)]
pub struct Session {
    pub session_id: String,
    pub pid: u32,
    pub state: String,
}

/// The status of a session.
#[derive(Debug, Clone)]
pub struct SessionStatus {
    pub session_id: String,
    pub state: String,
    pub current_volume: u32,
    pub target_pid: u32,
    pub latency_ms: u32,
}

/// The verdict on a policy file.
#[derive(Debug, Clone)]
pub struct ValidationResult {
    pub ok: bool,
    pub error: String,
}

/// The empty reply.
#[derive(Debug, Clone, Copy, PartialEq, Eq, Structural)]
pub struct Empty {}

/// Bit pattern of binary32 `0.5`.
pub const BINARY32_HALF: u32 = 0x3F00_0000u32;

/// The local control service. Its answers are placeholders until sessions are
/// managed through it.
#[derive(Debug, Default)]
pub struct MybServerService;

impl MybServerService {
    /// Lists one placeholder process: pid 0, `stub-process`, window `Stub`,
    /// volume 0.5, not a meeting app.
    pub fn list_audio_processes(&self) -> (r: ProcessList)
        ensures
            r.processes@.len() == 1,
            r.processes@[0].pid == 0,
            r.processes@[0].name@ == "stub-process"@,
            r.processes@[0].window_title@ == "Stub"@,
            r.processes@[0].current_volume_bits == BINARY32_HALF,
            !r.processes@[0].is_meeting_app,
    {
        let mut processes: Vec<AudioProcess> = Vec::new();
        processes.push(
            AudioProcess {
                pid: 0,
                name: String::from_str("stub-process"),
                window_title: String::from_str("Stub"),
                current_volume_bits: BINARY32_HALF,
                is_meeting_app: false,
            },
        );
        ProcessList { processes }
    }

    /// Starts a session for `pid`: always `session-001`, listening.
    pub fn start_session(&self, pid: u32) -> (r: Session)
        ensures
            r.session_id@ == "session-001"@,
            r.pid == pid,
            r.state@ == "listening"@,
    {
        Session {
            session_id: String::from_str("session-001"),
            pid,
            state: String::from_str("listening"),
        }
    }

    /// Stops the session: acknowledged with an empty reply.
    pub fn stop_session(&self) -> (r: Empty)
        ensures
            r == (Empty {}),
    {
        Empty {}
    }

    /// Sets the volume of the session's target: acknowledged with an empty
    /// reply.
    pub fn set_volume(&self) -> (r: Empty)
        ensures
            r == (Empty {}),
    {
        Empty {}
    }

    /// The session's trigger events as the service streams them: the stream
    /// ends before any event.
    pub fn get_event_stream(&self) -> (r: Vec<TriggerEvent>)
        ensures
            r@.len() == 0,
    {
        Vec::new()
    }

    /// Reports the status of the session: always `session-001`, idle, with
    /// every number 0.
    pub fn get_status(&self) -> (r: SessionStatus)
        ensures
            r.session_id@ == "session-001"@,
            r.state@ == "idle"@,
            r.current_volume == 0,
            r.target_pid == 0,
            r.latency_ms == 0,
    {
        SessionStatus {
            session_id: String::from_str("session-001"),
            state: String::from_str("idle"),
            current_volume: 0,
            target_pid: 0,
            latency_ms: 0,
        }
    }

    /// Validates a parsed policy set: `ok` exactly when it passes
    /// `PolicySet::validate`; otherwise the message of the first refusal.
    pub fn validate_policy(&self, set: &PolicySet) -> (r: ValidationResult)
        ensures
            r.ok == set.validate_spec() is Ok,
            r.error@ == match set.validate_spec() {
                Ok(()) => Seq::<char>::empty(),
                Err(e) => error_text(e),
            },
            r.ok <==> r.error@.len() == 0,
    {
        match set.validate() {
            Ok(()) => ValidationResult { ok: true, error: String::new() },
            Err(e) => ValidationResult { ok: false, error: e.message() },
        }
    }
}

} // verus!

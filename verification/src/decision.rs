//! What the policy engine tells the session to do after a keyword hit.
use vstd::prelude::*;

verus! {

/// Volume decision produced by the policy engine.
#[derive(Debug, Clone, Copy, PartialEq, Eq, Structural)]
pub enum VolumeDecision {
    /// Set volume to this level (0–100) and keep it for `duration_seconds`.
    SetVolume { volume: u32, duration_seconds: u32 },
    /// A repeated hit inside the active window: keep the volume and restart
    /// the duration.
    Renew,
    /// No policy produced an action; apply the default action (usually mute).
    Default,
}

} // verus!

//! Platform back ends for audio capture and per-process volume control.
use vstd::prelude::*;

verus! {

/// Windows WASAPI per-process loopback capture implementation.
///
/// Capture itself is not implemented yet: it lists no process and refuses to
/// start.
#[derive(Debug, Default)]
pub struct WindowsAudioCapture;

impl WindowsAudioCapture {
    pub fn new() -> (r: Self) {
        WindowsAudioCapture
    }
}

/// Windows `ISimpleAudioVolume` per-session volume control implementation.
///
/// Volume control itself is not implemented yet: every call fails.
#[derive(Debug, Default)]
pub struct WindowsVolumeController;

impl WindowsVolumeController {
    pub fn new() -> (r: Self) {
        WindowsVolumeController
    }
}

} // verus!

use myb::devices::{WindowsAudioCapture, WindowsVolumeController};
use myb::policy::{KeywordMatch, Policy, PolicyAction, PolicySet};
use myb::server::{Empty, MybServerService};

fn set_with_volume(volume: u32) -> PolicySet {
    PolicySet {
        policies: vec![Policy {
            name: "p".to_string(),
            match_: KeywordMatch { keywords: vec!["X".to_string()], threshold_bits: 0.5f64.to_bits() },
            action: PolicyAction { volume, duration_seconds: 1, then_action: "mute".to_string() },
        }],
    }
}

#[test]
fn service_replies_are_placeholders() {
    let svc = MybServerService;
    let list = svc.list_audio_processes();
    assert_eq!(list.processes.len(), 1);
    assert_eq!(list.processes[0].name, "stub-process");
    assert_eq!(list.processes[0].window_title, "Stub");
    assert_eq!(f32::from_bits(list.processes[0].current_volume_bits), 0.5);
    let s = svc.start_session(4321);
    assert_eq!(s.session_id, "session-001");
    assert_eq!(s.pid, 4321);
    assert_eq!(s.state, "listening");
    let st = svc.get_status();
    assert_eq!(st.state, "idle");
    assert_eq!(st.target_pid, 0);
    let v = svc.validate_policy(&set_with_volume(80));
    assert!(v.ok);
    assert_eq!(v.error, "");
    let bad = svc.validate_policy(&set_with_volume(150));
    assert!(!bad.ok);
    assert_eq!(bad.error, "policy 'p' volume must be in [0, 100], got 150");
    let _ = WindowsAudioCapture::new();
    let _ = WindowsVolumeController::new();
}

#[test]
fn stop_set_volume_and_event_stream_replies() {
    let svc = MybServerService;
    assert_eq!(svc.stop_session(), Empty {});
    assert_eq!(svc.set_volume(), Empty {});
    assert!(svc.get_event_stream().is_empty());
}

use myb::decision::VolumeDecision;
use myb::engine::PolicyEngine;
use myb::policy::{
    default_then, default_threshold, keyword_display, KeywordMatch, Policy, PolicyAction,
    PolicyError, PolicySet,
};
use serde_yaml::Value;

/// Builds a policy set from policy-file text, filling in the documented
/// defaults (threshold 0.25, follow-up action "mute").
fn policy_set_from_yaml(text: &str) -> PolicySet {
    let doc: Value = serde_yaml::from_str(text).expect("yaml");
    let mut policies = Vec::new();
    for p in doc["policies"].as_sequence().expect("policies") {
        let m = &p["match"];
        let a = &p["action"];
        let keywords = m["keywords"]
            .as_sequence()
            .expect("keywords")
            .iter()
            .map(|k| k.as_str().expect("keyword").to_string())
            .collect();
        let threshold_bits = match m.get("threshold") {
            Some(t) => t.as_f64().expect("threshold").to_bits(),
            None => default_threshold(),
        };
        let then_action = match a.get("then") {
            Some(t) => t.as_str().expect("then").to_string(),
            None => default_then(),
        };
        policies.push(Policy {
            name: p["name"].as_str().expect("name").to_string(),
            match_: KeywordMatch { keywords, threshold_bits },
            action: PolicyAction {
                volume: a["volume"].as_u64().expect("volume") as u32,
                duration_seconds: a["duration_seconds"].as_u64().expect("duration") as u32,
                then_action,
            },
        });
    }
    PolicySet { policies }
}

fn engine_from_yaml(text: &str) -> Result<PolicyEngine, PolicyError> {
    PolicyEngine::from_policy_set(policy_set_from_yaml(text))
}

fn sample_yaml() -> &'static str {
    r#"
policies:
  - name: unmute-on-light-up
    match:
      keywords:
        - "LIGHT_UP=L AY1 T AH1 P"
        - "演员=y ǎn y uán"
      threshold: 0.25
    action:
      volume: 100
      duration_seconds: 5
      then: mute
  - name: quiet-on-lovely-child
    match:
      keywords:
        - "LOVELY_CHILD=L AH1 V L IY0 CH AY1 L D"
      threshold: 0.5
    action:
      volume: 20
      duration_seconds: 3
      then: auto
"#
}

#[test]
fn parse_yaml() {
    let engine = engine_from_yaml(sample_yaml()).unwrap();
    assert_eq!(engine.policies().len(), 2);
    assert_eq!(engine.policies()[0].name, "unmute-on-light-up");
    assert_eq!(engine.policies()[0].match_.keywords.len(), 2);
    assert_eq!(engine.policies()[1].action.volume, 20);
}

#[test]
fn evaluate_respects_threshold() {
    let mut engine = engine_from_yaml(sample_yaml()).unwrap();
    assert!(
        matches!(
            engine.evaluate("LIGHT_UP", 0.3f64.to_bits(), 0),
            VolumeDecision::SetVolume { volume: 100, .. }
        ),
        "confidence above threshold should match"
    );
    assert!(
        matches!(
            engine.evaluate("LIGHT_UP", 0.1f64.to_bits(), 1000),
            VolumeDecision::Default
        ),
        "confidence below threshold should not match"
    );
}

#[test]
fn evaluate_first_match_wins() {
    let yaml = r#"
policies:
  - name: a
    match:
      keywords: ["X"]
      threshold: 0.0
    action:
      volume: 10
      duration_seconds: 1
      then: mute
  - name: b
    match:
      keywords: ["X"]
      threshold: 0.0
    action:
      volume: 90
      duration_seconds: 1
      then: mute
"#;
    let mut engine = engine_from_yaml(yaml).unwrap();
    match engine.evaluate("X", 1.0f64.to_bits(), 0) {
        VolumeDecision::SetVolume { volume: 10, .. } => {}
        other => panic!("expected first policy to win, got {:?}", other),
    }
}

#[test]
fn evaluate_debounce_and_renew() {
    let yaml = r#"
policies:
  - name: active
    match:
      keywords: ["X"]
      threshold: 0.0
    action:
      volume: 50
      duration_seconds: 1
      then: mute
"#;
    let mut engine = engine_from_yaml(yaml).unwrap();

    // First hit starts the active window.
    assert!(matches!(
        engine.evaluate("X", 1.0f64.to_bits(), 0),
        VolumeDecision::SetVolume { volume: 50, .. }
    ));

    // Hit within the 200ms debounce window is suppressed.
    assert_eq!(engine.evaluate("X", 1.0f64.to_bits(), 100), VolumeDecision::Default);

    // Hit after debounce but within duration renews the window.
    assert_eq!(engine.evaluate("X", 1.0f64.to_bits(), 300), VolumeDecision::Renew);

    // Hit after the full duration starts a new active window.
    assert!(matches!(
        engine.evaluate("X", 1.0f64.to_bits(), 1500),
        VolumeDecision::SetVolume { volume: 50, .. }
    ));
}

#[test]
fn rejects_invalid_volume() {
    let yaml = r#"
policies:
  - name: bad
    match:
      keywords: ["X"]
      threshold: 0.0
    action:
      volume: 101
      duration_seconds: 1
      then: mute
"#;
    assert!(engine_from_yaml(yaml).is_err());
}

#[test]
fn rejects_duplicate_names() {
    let yaml = r#"
policies:
  - name: dup
    match:
      keywords: ["X"]
      threshold: 0.0
    action:
      volume: 10
      duration_seconds: 1
      then: mute
  - name: dup
    match:
      keywords: ["Y"]
      threshold: 0.0
    action:
      volume: 20
      duration_seconds: 1
      then: mute
"#;
    assert!(engine_from_yaml(yaml).is_err());
}

fn policy(name: &str, keywords: &[&str], threshold: f64, volume: u32, duration: u32, then: &str) -> Policy {
    Policy {
        name: name.to_string(),
        match_: KeywordMatch {
            keywords: keywords.iter().map(|k| k.to_string()).collect(),
            threshold_bits: threshold.to_bits(),
        },
        action: PolicyAction { volume, duration_seconds: duration, then_action: then.to_string() },
    }
}

fn validate(policies: Vec<Policy>) -> Result<(), PolicyError> {
    PolicySet { policies }.validate()
}

#[test]
fn validate_accepts_well_formed_set() {
    assert!(validate(vec![
        policy("a", &["X"], 0.0, 0, 1, "mute"),
        policy("b", &["Y=Y"], 1.0, 100, 30, "auto"),
    ])
    .is_ok());
    assert!(validate(vec![]).is_ok());
}

#[test]
fn validate_reports_each_fault() {
    assert!(matches!(validate(vec![policy("", &["X"], 0.5, 1, 1, "mute")]), Err(PolicyError::EmptyName)));
    match validate(vec![policy("a", &["X"], 0.5, 1, 1, "mute"), policy("a", &["Y"], 0.5, 1, 1, "mute")]) {
        Err(PolicyError::DuplicateName { name }) => assert_eq!(name, "a"),
        other => panic!("unexpected {:?}", other),
    }
    match validate(vec![policy("p", &[], 0.5, 1, 1, "mute")]) {
        Err(PolicyError::NoKeywords { policy }) => assert_eq!(policy, "p"),
        other => panic!("unexpected {:?}", other),
    }
    match validate(vec![policy("p", &["X", ""], 0.5, 1, 1, "mute")]) {
        Err(PolicyError::EmptyKeyword { policy }) => assert_eq!(policy, "p"),
        other => panic!("unexpected {:?}", other),
    }
    for bad in [-0.1f64, 1.5, f64::NAN, f64::INFINITY, f64::NEG_INFINITY] {
        match validate(vec![policy("p", &["X"], bad, 1, 1, "mute")]) {
            Err(PolicyError::ThresholdOutOfRange { policy, threshold_bits }) => {
                assert_eq!(policy, "p");
                assert_eq!(threshold_bits, bad.to_bits());
            }
            other => panic!("unexpected {:?}", other),
        }
    }
    assert!(validate(vec![policy("p", &["X"], -0.0, 1, 1, "mute")]).is_ok());
    match validate(vec![policy("p", &["X"], 0.5, 101, 1, "mute")]) {
        Err(PolicyError::VolumeOutOfRange { policy, volume }) => {
            assert_eq!(policy, "p");
            assert_eq!(volume, 101);
        }
        other => panic!("unexpected {:?}", other),
    }
    match validate(vec![policy("p", &["X"], 0.5, 1, 0, "mute")]) {
        Err(PolicyError::ZeroDuration { policy }) => assert_eq!(policy, "p"),
        other => panic!("unexpected {:?}", other),
    }
    match validate(vec![policy("p", &["X"], 0.5, 1, 1, "later")]) {
        Err(PolicyError::InvalidThen { policy, follow_up }) => {
            assert_eq!(policy, "p");
            assert_eq!(follow_up, "later");
        }
        other => panic!("unexpected {:?}", other),
    }
}

#[test]
fn validate_reports_first_fault_in_order() {
    // The first policy's volume fault comes before the second policy's name fault.
    assert!(matches!(
        validate(vec![policy("a", &["X"], 0.5, 200, 0, "x"), policy("", &["Y"], 0.5, 1, 1, "mute")]),
        Err(PolicyError::VolumeOutOfRange { .. })
    ));
}

#[test]
fn defaults_are_quarter_and_mute() {
    assert_eq!(f64::from_bits(default_threshold()), 0.25);
    assert_eq!(default_then(), "mute");
}

#[test]
fn keyword_display_extracts_label() {
    assert_eq!(keyword_display("LIGHT_UP=L AY1 T AH1 P"), "LIGHT_UP");
    assert_eq!(keyword_display("演员=y ǎn y uán"), "演员");
    assert_eq!(keyword_display("  UNMUTE  "), "UNMUTE");
    assert_eq!(keyword_display(" A B = C = D"), "A B");
    assert_eq!(keyword_display("=phonemes"), "");
    assert_eq!(keyword_display(""), "");
    assert_eq!(keyword_display("\u{3000}名字\u{00A0}=x"), "名字");
}

#[test]
fn evaluate_matches_display_part_only() {
    let mut engine = PolicyEngine::new(vec![policy("u", &["UNMUTE=AH0 N M Y UW1 T"], 0.25, 100, 5, "mute")]);
    assert_eq!(engine.evaluate("AH0 N M Y UW1 T", 1.0f64.to_bits(), 0), VolumeDecision::Default);
    assert_eq!(
        engine.evaluate("UNMUTE", 1.0f64.to_bits(), 0),
        VolumeDecision::SetVolume { volume: 100, duration_seconds: 5 }
    );
}

#[test]
fn evaluate_unknown_keyword_is_default() {
    let mut engine = PolicyEngine::new(vec![policy("u", &["X"], 0.0, 100, 5, "mute")]);
    assert_eq!(engine.evaluate("Y", 1.0f64.to_bits(), 0), VolumeDecision::Default);
    // Nothing was recorded: the first real hit still opens a window.
    assert!(matches!(engine.evaluate("X", 1.0f64.to_bits(), 10), VolumeDecision::SetVolume { .. }));
}

#[test]
fn evaluate_nan_never_passes_threshold() {
    let mut engine = PolicyEngine::new(vec![policy("u", &["X"], 0.9, 40, 5, "mute")]);
    assert_eq!(engine.evaluate("X", f64::NAN.to_bits(), 0), VolumeDecision::Default);
    let mut unchecked = PolicyEngine::new(vec![policy("n", &["X"], f64::NAN, 40, 5, "mute")]);
    assert_eq!(unchecked.evaluate("X", 1.0f64.to_bits(), 0), VolumeDecision::Default);
    // A score equal to the threshold passes.
    assert!(matches!(engine.evaluate("X", 0.9f64.to_bits(), 0), VolumeDecision::SetVolume { volume: 40, .. }));
}

#[test]
fn evaluate_with_policy_names_the_deciding_policy() {
    let mut engine = PolicyEngine::new(vec![
        policy("low", &["X"], 0.8, 10, 1, "mute"),
        policy("any", &["X"], 0.0, 20, 1, "mute"),
    ]);
    let (d, name) = engine.evaluate_with_policy("X", 0.5f64.to_bits(), 0);
    assert_eq!(d, VolumeDecision::SetVolume { volume: 20, duration_seconds: 1 });
    assert_eq!(name.as_deref(), Some("any"));
    let (d, name) = engine.evaluate_with_policy("X", 0.5f64.to_bits(), 50);
    assert_eq!(d, VolumeDecision::Default);
    assert_eq!(name.as_deref(), Some("any"));
    let (d, name) = engine.evaluate_with_policy("Y", 0.5f64.to_bits(), 60);
    assert_eq!(d, VolumeDecision::Default);
    assert_eq!(name, None);
}

#[test]
fn refusal_messages() {
    let msg = |ps: Vec<Policy>| validate(ps).unwrap_err().message();
    assert_eq!(msg(vec![policy("", &["X"], 0.5, 1, 1, "mute")]), "policy name must not be empty");
    assert_eq!(
        msg(vec![policy("a", &["X"], 0.5, 1, 1, "mute"), policy("a", &["X"], 0.5, 1, 1, "mute")]),
        "duplicate policy name: a"
    );
    assert_eq!(msg(vec![policy("p", &[], 0.5, 1, 1, "mute")]), "policy 'p' must have at least one keyword");
    assert_eq!(msg(vec![policy("p", &[""], 0.5, 1, 1, "mute")]), "policy 'p' contains an empty keyword");
    assert_eq!(msg(vec![policy("p", &["X"], 2.0, 1, 1, "mute")]), "policy 'p' threshold must be in [0, 1]");
    assert_eq!(
        msg(vec![policy("p", &["X"], 0.5, 4294967295, 1, "mute")]),
        "policy 'p' volume must be in [0, 100], got 4294967295"
    );
    assert_eq!(msg(vec![policy("p", &["X"], 0.5, 101, 1, "mute")]), "policy 'p' volume must be in [0, 100], got 101");
    assert_eq!(msg(vec![policy("p", &["X"], 0.5, 1, 0, "mute")]), "policy 'p' duration_seconds must be > 0");
    assert_eq!(msg(vec![policy("p", &["X"], 0.5, 1, 1, "x")]), "policy 'p' then must be 'auto' or 'mute', got x");
}

#[test]
fn evaluate_windows_are_per_policy_name() {
    let mut engine = PolicyEngine::new(vec![
        policy("a", &["X"], 0.0, 10, 1, "mute"),
        policy("b", &["Y"], 0.0, 20, 1, "mute"),
    ]);
    assert!(matches!(engine.evaluate("X", 0, 0), VolumeDecision::SetVolume { volume: 10, .. }));
    assert!(matches!(engine.evaluate("Y", 0, 50), VolumeDecision::SetVolume { volume: 20, .. }));
    assert_eq!(engine.evaluate("X", 0, 100), VolumeDecision::Default);
    assert_eq!(engine.evaluate("X", 0, 1000), VolumeDecision::Renew);
    // The renewal moved the window: 1999 is within 1000 ms of 1000.
    assert_eq!(engine.evaluate("X", 0, 1999), VolumeDecision::Renew);
    assert!(matches!(engine.evaluate("X", 0, 3000), VolumeDecision::SetVolume { .. }));
}

#[test]
fn evaluate_boundaries_of_debounce_and_window() {
    let mut engine = PolicyEngine::new(vec![policy("a", &["X"], 0.0, 10, 1, "mute")]);
    assert!(matches!(engine.evaluate("X", 0, 0), VolumeDecision::SetVolume { .. }));
    assert_eq!(engine.evaluate("X", 0, 199), VolumeDecision::Default);
    assert_eq!(engine.evaluate("X", 0, 200), VolumeDecision::Renew);
    // Exactly the duration after the last decision is still inside the window.
    assert_eq!(engine.evaluate("X", 0, 1200), VolumeDecision::Renew);
    assert!(matches!(engine.evaluate("X", 0, 2201), VolumeDecision::SetVolume { .. }));
}

#[test]
fn evaluate_extreme_timestamps_do_not_overflow() {
    let mut engine = PolicyEngine::new(vec![policy("a", &["X"], 0.0, 10, 1, "mute")]);
    assert!(matches!(engine.evaluate("X", 0, i64::MIN), VolumeDecision::SetVolume { .. }));
    assert!(matches!(engine.evaluate("X", 0, i64::MAX), VolumeDecision::SetVolume { .. }));
    assert_eq!(engine.evaluate("X", 0, i64::MIN), VolumeDecision::Default);
}

#[test]
fn selections_and_reorderings_of_a_valid_set_stay_valid() {
    let a = policy("a", &["X"], 0.5, 10, 1, "mute");
    let b = policy("b", &["Y"], 0.5, 20, 2, "auto");
    let c = policy("c", &["Z"], 0.5, 30, 3, "mute");
    assert!(validate(vec![a.clone(), b.clone(), c.clone()]).is_ok());
    assert!(validate(vec![c.clone(), a.clone()]).is_ok());
    assert!(validate(vec![b.clone()]).is_ok());
    assert!(validate(vec![]).is_ok());
    assert!(validate(vec![c.clone(), b.clone(), a.clone()]).is_ok());
    let bad = policy("d", &["W"], 0.5, 101, 1, "mute");
    let e1 = validate(vec![a.clone(), bad.clone()]);
    let e2 = validate(vec![bad.clone(), a.clone()]);
    assert!(e1.is_err() && e2.is_err());
}

#[test]
fn keyword_display_is_a_trimmed_label_and_idempotent() {
    for spec in ["LIGHT_UP=L AY1 T AH1 P", "  UNMUTE  ", " A B = C = D", "=x", "", "  ", "演员=y ǎn"] {
        let r = keyword_display(spec);
        assert!(spec.contains(r));
        assert!(!r.contains('='));
        assert_eq!(r, r.trim());
        assert_eq!(keyword_display(r), r);
        if !spec.contains('=') {
            assert_eq!(r, spec.trim());
        }
    }
}

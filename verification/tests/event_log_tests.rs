use chrono::{DateTime, Utc};
use myb::event_log::{EventLog, TriggerEvent, CHRONO_MAX_MILLIS, CHRONO_MIN_MILLIS};

const NOW_MS: i64 = 1_000;

fn event(ts: i64, session: &str, policy: Option<&str>, keyword: &str) -> TriggerEvent {
    TriggerEvent {
        timestamp_ms: ts,
        session_id: session.to_string(),
        policy_name: policy.map(|p| p.to_string()),
        keyword: keyword.to_string(),
        confidence_bits: 0.75f64.to_bits(),
    }
}

#[test]
fn append_then_recent_reads_back() {
    let mut log = EventLog::new();
    assert_eq!(log.count(), 0);
    log.append_at(event(1_700_000_000_123, "s1", Some("p"), "LIGHT_UP"), NOW_MS);
    assert_eq!(log.count(), 1);
    let got = log.recent(1);
    assert_eq!(got.len(), 1);
    assert_eq!(got[0].timestamp_ms, 1_700_000_000_123);
    assert_eq!(got[0].session_id, "s1");
    assert_eq!(got[0].policy_name.as_deref(), Some("p"));
    assert_eq!(got[0].keyword, "LIGHT_UP");
    assert_eq!(f64::from_bits(got[0].confidence_bits), 0.75);
}

#[test]
fn missing_policy_name_reads_back_empty() {
    let mut log = EventLog::new();
    log.append_at(event(5, "s", None, "K"), NOW_MS);
    assert_eq!(log.recent(10)[0].policy_name.as_deref(), Some(""));
    assert_eq!(log.entries(10)[0].policy_name, "");
}

#[test]
fn unrepresentable_time_is_replaced() {
    let mut log = EventLog::new();
    log.append_at(event(i64::MAX, "s", None, "K"), 42);
    assert_eq!(log.entries(1)[0].timestamp_ms, 42);
    log.append_at(event(-1, "s", None, "K"), 42);
    assert_eq!(log.entries(1)[0].timestamp_ms, -1);
}

#[test]
fn recent_and_entries_keep_chronological_order() {
    let mut log = EventLog::new();
    for i in 0..5 {
        log.append_at(event(i, "s", None, &format!("k{}", i)), NOW_MS);
    }
    let last_two: Vec<String> = log.recent(2).into_iter().map(|e| e.keyword).collect();
    assert_eq!(last_two, vec!["k3", "k4"]);
    assert_eq!(log.recent(10).len(), 5);
    assert_eq!(log.recent(0).len(), 0);
    let entries: Vec<i64> = log.entries(3).into_iter().map(|e| e.timestamp_ms).collect();
    assert_eq!(entries, vec![2, 3, 4]);
}

#[test]
fn query_filters_by_session_and_time() {
    let mut log = EventLog::new();
    log.append_at(event(10, "a", None, "k1"), NOW_MS);
    log.append_at(event(20, "b", None, "k2"), NOW_MS);
    log.append_at(event(30, "a", None, "k3"), NOW_MS);
    log.append_at(event(40, "a", None, "k4"), NOW_MS);
    let kw = |v: Vec<TriggerEvent>| v.into_iter().map(|e| e.keyword).collect::<Vec<_>>();
    assert_eq!(kw(log.query(Some("a"), None, 10)), vec!["k1", "k3", "k4"]);
    assert_eq!(kw(log.query(Some("a"), Some(30), 10)), vec!["k3", "k4"]);
    assert_eq!(kw(log.query(None, Some(20), 2)), vec!["k3", "k4"]);
    assert_eq!(kw(log.query(Some("c"), None, 10)), Vec::<String>::new());
    assert_eq!(kw(log.query(None, None, 3)), kw(log.recent(3)));
}

#[test]
fn clear_empties_the_log() {
    let mut log = EventLog::new();
    log.append_at(event(1, "s", None, "K"), NOW_MS);
    log.append_at(event(2, "s", None, "K"), NOW_MS);
    log.clear();
    assert_eq!(log.count(), 0);
    assert!(log.recent(10).is_empty());
}

#[test]
fn representable_range_matches_chrono() {
    assert!(DateTime::<Utc>::from_timestamp_millis(CHRONO_MIN_MILLIS).is_some());
    assert!(DateTime::<Utc>::from_timestamp_millis(CHRONO_MIN_MILLIS - 1).is_none());
    assert!(DateTime::<Utc>::from_timestamp_millis(CHRONO_MAX_MILLIS).is_some());
    assert!(DateTime::<Utc>::from_timestamp_millis(CHRONO_MAX_MILLIS + 1).is_none());
    assert_eq!(DateTime::<Utc>::MIN_UTC.timestamp_millis(), CHRONO_MIN_MILLIS);
    let mut log = EventLog::new();
    log.append_at(event(CHRONO_MAX_MILLIS, "s", None, "K"), NOW_MS);
    assert_eq!(log.entries(1)[0].timestamp_ms, CHRONO_MAX_MILLIS);
    log.append_at(event(CHRONO_MIN_MILLIS, "s", None, "K"), NOW_MS);
    assert_eq!(log.entries(1)[0].timestamp_ms, CHRONO_MIN_MILLIS);
    log.append_at(event(CHRONO_MIN_MILLIS - 1, "s", None, "K"), 7);
    assert_eq!(log.entries(1)[0].timestamp_ms, 7);
    log.append_at(event(CHRONO_MAX_MILLIS + 1, "s", None, "K"), 8);
    assert_eq!(log.entries(1)[0].timestamp_ms, 8);
}

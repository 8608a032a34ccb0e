use myb::ieee::BINARY64_ONE;
use myb::kws::{file_label, result_to_hit, KwsError, KwsFile, SpotterResult, StreamState, StubKwsEngine};
use myb::model::{KwsConfig, KwsModelPaths};
use std::path::{Path, PathBuf};

#[test]
fn stream_state_tracks_base_time_and_repeats() {
    let mut st = StreamState::new();
    assert_eq!(st.base_timestamp_ms(), 0);
    st.accept_chunk(160, 1_000);
    assert_eq!(st.base_timestamp_ms(), 1_000);
    st.accept_chunk(160, 1_010);
    assert_eq!(st.base_timestamp_ms(), 1_000);
    assert_eq!(st.buffered_samples(), 320);
    assert!(!st.accept_result(""));
    assert!(st.accept_result("LIGHT_UP"));
    assert!(!st.accept_result("LIGHT_UP"));
    assert!(!st.accept_result(""));
    assert!(!st.accept_result("LIGHT_UP"));
    assert!(st.accept_result("演员"));
    assert!(st.accept_result("LIGHT_UP"));
}

#[test]
fn result_to_hit_offsets_by_base() {
    assert!(result_to_hit("", 5, 100).is_none());
    let h = result_to_hit("LIGHT_UP", 250, 1_000).unwrap();
    assert_eq!(h.keyword, "LIGHT_UP");
    assert_eq!(h.timestamp_ms, 1_250);
    assert_eq!(h.confidence_bits, BINARY64_ONE);
    assert_eq!(f64::from_bits(h.confidence_bits), 1.0);
}

#[test]
fn validate_asks_in_order_and_stops_at_first_missing() {
    let paths = KwsModelPaths {
        encoder: PathBuf::from("e"),
        decoder: PathBuf::from("d"),
        joiner: PathBuf::from("j"),
        tokens: PathBuf::from("t"),
        keywords_file: PathBuf::from("k"),
    };
    let asked = std::cell::RefCell::new(Vec::new());
    let r = paths.validate(|p: &PathBuf| {
        asked.borrow_mut().push(p.clone());
        p != &PathBuf::from("j")
    });
    assert_eq!(r, Err(KwsError::FileNotFound { file: KwsFile::Joiner }));
    assert_eq!(*asked.borrow(), vec![PathBuf::from("e"), PathBuf::from("d"), PathBuf::from("j")]);
    assert_eq!(paths.validate(|p: &PathBuf| p != &PathBuf::from("k")), Err(KwsError::FileNotFound { file: KwsFile::KeywordsFile }));
    assert_eq!(paths.validate(|_: &PathBuf| true), Ok(()));
    assert_eq!(file_label(KwsFile::KeywordsFile), "keywords_file");
    assert_eq!(file_label(KwsFile::Encoder), "encoder");
}

#[test]
fn config_from_model_dir_uses_layout() {
    let dir = Path::new("/models/kws");
    let c = KwsConfig::from_model_dir(dir);
    assert_eq!(c.model_paths.encoder, dir.join("encoder-epoch-13-avg-2-chunk-16-left-64.onnx"));
    assert_eq!(c.model_paths.decoder, dir.join("decoder-epoch-13-avg-2-chunk-16-left-64.onnx"));
    assert_eq!(c.model_paths.joiner, dir.join("joiner-epoch-13-avg-2-chunk-16-left-64.onnx"));
    assert_eq!(c.model_paths.tokens, dir.join("tokens.txt"));
    assert_eq!(c.model_paths.keywords_file, dir.join("keywords.txt"));
    assert_eq!(c.provider, "cpu");
    assert_eq!(c.num_threads, 1);
    assert!(!c.debug);
}

#[test]
fn validate_checks_files_on_disk() {
    let existing = PathBuf::from("/");
    let missing = PathBuf::from("/definitely/not/here/model.onnx");
    let paths = KwsModelPaths {
        encoder: existing.clone(),
        decoder: existing.clone(),
        joiner: missing.clone(),
        tokens: missing,
        keywords_file: existing.clone(),
    };
    assert_eq!(paths.validate(|p: &PathBuf| p.exists()), Err(KwsError::FileNotFound { file: KwsFile::Joiner }));
    let all = KwsModelPaths {
        encoder: existing.clone(),
        decoder: existing.clone(),
        joiner: existing.clone(),
        tokens: existing.clone(),
        keywords_file: existing,
    };
    assert_eq!(all.validate(|p: &PathBuf| p.exists()), Ok(()));
    let _ = StubKwsEngine::new();
}

#[test]
fn repeated_results_are_reported_once_across_calls() {
    let mut st = StreamState::new();
    let results = ["A", "A", "", "A", "B", "B", "", "A", "A"];
    let hits: Vec<&str> = results.iter().copied().filter(|k| st.accept_result(k)).collect();
    assert_eq!(hits, vec!["A", "B", "A"]);
    assert!(hits.iter().all(|k| !k.is_empty()));
    assert!(hits.windows(2).all(|w| w[0] != w[1]));
}

fn results(items: &[(&str, i64)]) -> Vec<SpotterResult> {
    items.iter().map(|(k, o)| SpotterResult { keyword: k.to_string(), start_offset_ms: *o }).collect()
}

#[test]
fn hits_for_results_skip_repeats_across_passes() {
    let mut st = StreamState::new();
    st.accept_chunk(160, 5_000);
    let first = st.hits_for_results(&results(&[("A", 100), ("", 150), ("A", 200), ("B", 300)]));
    let kw: Vec<&str> = first.iter().map(|h| h.keyword.as_str()).collect();
    assert_eq!(kw, vec!["A", "B"]);
    assert_eq!(first[0].timestamp_ms, 5_100);
    assert_eq!(first[1].timestamp_ms, 5_300);
    assert!(first.iter().all(|h| h.confidence_bits == BINARY64_ONE));
    st.accept_chunk(160, 6_000);
    let second = st.hits_for_results(&results(&[("B", 400), ("A", 500), ("A", 600)]));
    let kw: Vec<&str> = second.iter().map(|h| h.keyword.as_str()).collect();
    assert_eq!(kw, vec!["A"]);
    assert_eq!(second[0].timestamp_ms, 5_500);
    let all: Vec<String> = first.iter().chain(second.iter()).map(|h| h.keyword.clone()).collect();
    assert!(all.windows(2).all(|w| w[0] != w[1]));
    assert!(st.hits_for_results(&Vec::new()).is_empty());
}

use kotone::history::{newest_first, plan_append, AppendPlan};
use kotone::history::{
    audio_file_name, audio_ms_of, custom_history_dir, plan_delete, plan_trim, HistoryConfig,
    HistoryMode, HistoryOutcome, HistoryRecord,
};

fn rec(session_id: &str, ts: &str, audio: Option<&str>) -> HistoryRecord {
    HistoryRecord {
        session_id: session_id.to_string(),
        ts: ts.to_string(),
        engine_id: "mock-stream".to_string(),
        profile_id: Some("lol".to_string()),
        final_text: format!("文本-{session_id}"),
        audio_ms: 1500,
        first_partial_ms: Some(300),
        finalize_latency_ms: Some(120),
        outcome: HistoryOutcome::Sent,
        error: None,
        audio_file: audio.map(|a| a.to_string()),
    }
}

#[test]
fn default_history_config() {
    let c = HistoryConfig::default();
    assert_eq!(c.mode, HistoryMode::Capped);
    assert_eq!(c.max_records, 1000);
    assert!(!c.include_audio);
    assert!(c.dir.is_empty());
}

#[test]
fn trim_within_limit_removes_nothing() {
    let lines = vec![Some(rec("s1", "t1", Some("s1.wav"))), None];
    let plan = plan_trim(&lines, 2);
    assert_eq!(plan.dropped, 0);
    assert!(plan.delete_audio.is_empty());
}

#[test]
fn trim_drops_oldest_and_their_audio() {
    let lines = vec![
        Some(rec("s1", "t1", Some("s1.wav"))),
        Some(rec("s2", "t2", None)),
        None,
        Some(rec("s3", "t3", Some("s3.wav"))),
    ];
    let plan = plan_trim(&lines, 1);
    assert_eq!(plan.dropped, 3);
    assert_eq!(plan.delete_audio, vec!["s1.wav".to_string()]);
}

#[test]
fn trim_keeps_audio_still_referenced_by_retry_record() {
    let lines = vec![
        Some(rec("s1", "t1", Some("s1.wav"))),
        Some(rec("s1", "t2", Some("s1.wav"))),
    ];
    let plan = plan_trim(&lines, 1);
    assert_eq!(plan.dropped, 1);
    assert!(plan.delete_audio.is_empty());
}

#[test]
fn delete_removes_record_and_its_audio_only() {
    let lines = vec![
        Some(rec("s1", "t1", Some("s1.wav"))),
        Some(rec("s2", "t2", Some("s2.wav"))),
        None,
    ];
    let plan = plan_delete(&lines, "s1", "t1");
    assert_eq!(plan.keep, vec![false, true, true]);
    assert_eq!(plan.removed, 1);
    assert_eq!(plan.delete_audio.as_deref(), Some("s1.wav"));
}

#[test]
fn delete_keeps_audio_still_referenced() {
    let lines = vec![
        Some(rec("s1", "t1", Some("s1.wav"))),
        Some(rec("s1", "t2", Some("s1.wav"))),
    ];
    let plan = plan_delete(&lines, "s1", "t1");
    assert_eq!(plan.keep, vec![false, true]);
    assert_eq!(plan.removed, 1);
    assert!(plan.delete_audio.is_none());
}

#[test]
fn delete_missing_record_changes_nothing() {
    let lines = vec![Some(rec("s1", "t1", Some("s1.wav")))];
    let plan = plan_delete(&lines, "s9", "t1");
    assert_eq!(plan.keep, vec![true]);
    assert_eq!(plan.removed, 0);
    assert!(plan.delete_audio.is_none());
}

#[test]
fn audio_names_and_lengths() {
    assert_eq!(audio_file_name("20260101-000000-001").as_deref(), Some("20260101-000000-001.wav"));
    assert!(audio_file_name("").is_none());
    assert!(audio_file_name("a/b").is_none());
    assert!(audio_file_name("a\\b").is_none());
    assert!(audio_file_name("..x").is_none());
    assert_eq!(audio_ms_of(24_000), 1500);
    assert_eq!(custom_history_dir("  D:\\hist  ").as_deref(), Some("D:\\hist"));
    assert!(custom_history_dir("   ").is_none());
}

#[test]
fn append_plan_follows_the_mode() {
    let mut cfg = HistoryConfig::default();
    cfg.max_records = 7;
    cfg.mode = HistoryMode::Off;
    assert_eq!(plan_append(&cfg), AppendPlan::Skip);
    cfg.mode = HistoryMode::KeepAll;
    assert_eq!(plan_append(&cfg), AppendPlan::Append);
    cfg.mode = HistoryMode::Capped;
    assert_eq!(plan_append(&cfg), AppendPlan::AppendAndTrim(7));
}

#[test]
fn listing_is_newest_first_and_skips_bad_lines() {
    let lines = vec![Some(rec("a", "1", None)), None, Some(rec("b", "2", None)), Some(rec("c", "3", None))];
    let ids: Vec<String> = newest_first(lines).into_iter().map(|r| r.session_id).collect();
    assert_eq!(ids, ["c", "b", "a"]);
    assert!(newest_first(vec![None, None]).is_empty());
}

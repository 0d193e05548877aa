use kotone::process_log::{app_session_id_from, csv_escape, to_pm4py_csv, ProcessEvent};

#[test]
fn csv_escapes_dynamic_values() {
    assert_eq!(csv_escape("a,b"), "\"a,b\"");
    assert_eq!(csv_escape("a\"b"), "\"a\"\"b\"");
    assert_eq!(csv_escape("plain"), "plain");
}

// ---------- beyond the original suite ----------

#[test]
fn csv_escapes_line_breaks() {
    assert_eq!(csv_escape("a\nb"), "\"a\nb\"");
    assert_eq!(csv_escape("a\rb"), "\"a\rb\"");
    assert_eq!(csv_escape(""), "");
}

#[test]
fn pm4py_columns_and_rows() {
    let mut event = ProcessEvent::new("session-1", "capture_started", "app-x", 3);
    event.timestamp = "2026-07-28T12:00:00Z".into();
    event.context.engine_id = Some("x-asr".into());
    event.context.elevated = Some(true);
    event.data.text_chars = Some(12);
    event.data.outcome = Some("ok,fine".into());
    let csv = to_pm4py_csv(&[event], "0.1.1");
    let mut lines = csv.lines();
    assert!(lines
        .next()
        .unwrap()
        .starts_with("case:concept:name,concept:name,time:timestamp"));
    assert_eq!(
        lines.next().unwrap(),
        "session-1,capture_started,2026-07-28T12:00:00Z,3,app-x,0.1.1,x-asr,,,,true,\"ok,fine\",,,,12"
    );
    assert!(lines.next().is_none());
    assert_eq!(to_pm4py_csv(&[], "v").lines().count(), 1);
}

#[test]
fn new_events_are_stamped() {
    let e = ProcessEvent::new("c", "a", "app-1", 9);
    assert_eq!(e.schema_version, 1);
    assert_eq!(e.event_index, 9);
    assert_eq!(e.app_session_id, "app-1");
    assert_eq!(e.timestamp.len(), 24);
    assert!(e.context.engine_id.is_none());
    assert_eq!(app_session_id_from("20260101-000000-000"), "app-20260101-000000-000");
}

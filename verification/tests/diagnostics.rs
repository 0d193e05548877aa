use kotone::diagnostics::{
    classify_error, log_epoch_secs, package_readme, redact_home_with, redact_log_line,
    redact_log_line_with, report_id_from, sanitized_log_text, sanitized_log_with,
    DiagnosticWindow,
};
use kotone::diagnostics::{history_metadata, HistoryMetadata};
use kotone::diagnostics::{history_metadata_list, package_manifest, with_zip_extension};
use kotone::history::{HistoryOutcome, HistoryRecord};

#[test]
fn old_state_payload_is_redacted() {
    let line = r#"[1.000] state -> sending {"payload":{"text":"秘密文本"},"state":"sending"}"#;
    let redacted = redact_log_line(line);
    assert_eq!(redacted, "[1.000] state -> sending [payload redacted]");
    assert!(!redacted.contains("秘密文本"));
}

#[test]
fn vad_native_details_are_redacted_but_failure_stage_remains() {
    let line =
        r#"[1.000] VAD 初始化失败，本次会话降级为热键结束: 模型路径 D:\\Private\\silero.onnx"#;
    let redacted = redact_log_line(line);
    assert_eq!(
        redacted,
        "[1.000] VAD 初始化失败，本次会话降级为热键结束: [details redacted]"
    );
    assert!(!redacted.contains("Private"));
    assert_eq!(classify_error("VAD 初始化失败"), "VAD_FAILED");
}

#[test]
fn classify_error_maps_blocked_sendinput() {
    assert_eq!(
        classify_error("SendInput 被系统拦截（0/10 成功）: 操作成功完成。"),
        "INJECTION_BLOCKED"
    );
    assert_eq!(
        classify_error("发送失败：目标窗口已关闭"),
        "INJECTION_FAILED"
    );
    assert_eq!(classify_error("未知异常"), "UNKNOWN_ERROR");
}

#[test]
fn log_epoch_is_parsed_from_bracket_prefix() {
    assert_eq!(
        log_epoch_secs("[1757230000.123] overlay show"),
        Some(1757230000)
    );
    assert_eq!(log_epoch_secs("not a log line"), None);
}

// ---------- beyond the original suite ----------

#[test]
fn log_epoch_edge_cases() {
    assert_eq!(log_epoch_secs("[42] x"), Some(42));
    assert_eq!(log_epoch_secs("[+7.5] x"), Some(7));
    assert_eq!(log_epoch_secs("[] x"), None);
    assert_eq!(log_epoch_secs("[abc] x"), None);
    assert_eq!(log_epoch_secs("[99999999999999999999] x"), None, "overflows u64");
    assert_eq!(log_epoch_secs("[12"), Some(12), "no closing bracket: rest of line");
}

#[test]
fn every_error_code_has_a_keyword() {
    assert_eq!(classify_error("需要管理员权限"), "ELEVATION_REQUIRED");
    assert_eq!(classify_error("Elevation denied"), "ELEVATION_REQUIRED");
    assert_eq!(classify_error("热键注册失败"), "HOTKEY_FAILED");
    assert_eq!(classify_error("HOTKEY busy"), "HOTKEY_FAILED");
    assert_eq!(classify_error("麦克风不可用"), "AUDIO_FAILED");
    assert_eq!(classify_error("Audio device lost"), "AUDIO_FAILED");
    assert_eq!(classify_error("静音检测异常"), "VAD_FAILED");
    assert_eq!(classify_error("模型缺失"), "MODEL_OR_ENGINE_FAILED");
    assert_eq!(classify_error("inject timeout"), "INJECTION_FAILED");
    assert_eq!(classify_error("Blocked by UIPI"), "INJECTION_BLOCKED");
}

#[test]
fn home_directory_is_replaced_and_lines_are_capped() {
    let out: String = redact_home_with(r"C:\Users\alice\models\x", Some(r"C:\Users\alice"))
        .into_iter()
        .collect();
    assert_eq!(out, "%USERPROFILE%/models/x");
    let out: String = redact_home_with("abc", None).into_iter().collect();
    assert_eq!(out, "abc");
    let long = "x".repeat(2500);
    assert_eq!(redact_home_with(&long, None).len(), 2000);
    let out: String = redact_home_with("ab", Some("")).into_iter().collect();
    assert_eq!(out, "%USERPROFILE%a%USERPROFILE%b%USERPROFILE%");
}

#[test]
fn state_line_without_name_reports_unknown() {
    assert_eq!(
        redact_log_line_with("[2.0] state ->   ", None),
        "[2.0] state -> unknown [payload redacted]"
    );
    assert_eq!(redact_log_line_with("plain line", None), "plain line");
    assert_eq!(
        redact_log_line_with("[3] VAD 推理失败: onnx error", None),
        "[3] VAD 推理失败: [details redacted]"
    );
}

#[test]
fn windows_parse_and_cut_off() {
    assert_eq!(DiagnosticWindow::parse("24h"), DiagnosticWindow::Hours24);
    assert_eq!(DiagnosticWindow::parse("7d"), DiagnosticWindow::Days7);
    assert_eq!(DiagnosticWindow::parse("whatever"), DiagnosticWindow::All);
    assert_eq!(DiagnosticWindow::Days7.as_str(), "7d");
    assert_eq!(DiagnosticWindow::Hours24.cutoff_from(100_000), Some(13_600));
    assert_eq!(DiagnosticWindow::Days7.cutoff_from(10), Some(0));
    assert_eq!(DiagnosticWindow::All.cutoff_from(10), None);
    assert!(DiagnosticWindow::Hours24.cutoff_unix_secs().is_some());
}

#[test]
fn readme_names_the_report() {
    let id = report_id_from("20260101-000000-000");
    assert_eq!(id, "KT-20260101-000000-000");
    let readme = package_readme(&id);
    assert!(readme.starts_with("Kotone 脱敏诊断包\n报告编号：KT-20260101-000000-000\n\n"));
    assert!(readme.ends_with("不含识别文本。\n"));
}

#[test]
fn package_log_keeps_the_window_and_redacts_each_line() {
    let raw = "[100.5] start\r\nno time here\n[200] state -> Listening {\"x\":1}\n[50] old\n";
    assert_eq!(
        sanitized_log_with(raw, Some(100), None),
        "[100.5] start\nno time here\n[200] state -> Listening [payload redacted]"
    );
    assert_eq!(
        sanitized_log_with(raw, None, None),
        "[100.5] start\nno time here\n[200] state -> Listening [payload redacted]\n[50] old"
    );
    assert_eq!(sanitized_log_with("", None, None), "");
    assert_eq!(sanitized_log_with("\n\n", None, None), "\n");
    assert_eq!(sanitized_log_with("a\r", None, None), "a\r");
    assert_eq!(
        sanitized_log_with(r"[300] open C:\Users\bob\x", Some(1), Some(r"C:\Users\bob")),
        "[300] open %USERPROFILE%/x"
    );
    assert_eq!(sanitized_log_text("[1] a\n[2] b", Some(2)), "[2] b");
}

#[test]
fn history_metadata_keeps_no_text() {
    let record = HistoryRecord {
        session_id: "s1".into(),
        ts: "2026-01-02T03:04:05Z".into(),
        engine_id: "mock-stream".into(),
        profile_id: Some("lol".into()),
        final_text: " 打野来 ".into(),
        audio_ms: 1500,
        first_partial_ms: Some(300),
        finalize_latency_ms: None,
        outcome: HistoryOutcome::Error,
        error: Some("SendInput 被拦截".into()),
        audio_file: Some("s1.wav".into()),
    };
    assert_eq!(
        history_metadata(&record),
        HistoryMetadata {
            session_id: "s1".into(),
            ts: "2026-01-02T03:04:05Z".into(),
            engine_id: "mock-stream".into(),
            profile_id: Some("lol".into()),
            audio_ms: 1500,
            first_partial_ms: Some(300),
            finalize_latency_ms: None,
            outcome: HistoryOutcome::Error,
            error_code: Some("INJECTION_BLOCKED".into()),
            had_text: true,
            text_chars: 5,
            had_audio: true,
        }
    );
    let blank = HistoryRecord { final_text: "  ".into(), error: None, audio_file: None, ..record };
    let m = history_metadata(&blank);
    assert!(!m.had_text);
    assert_eq!(m.text_chars, 2);
    assert_eq!(m.error_code, None);
    assert!(!m.had_audio);
}

#[test]
fn package_manifest_promises_no_private_content() {
    let m = package_manifest("KT-1", "2026-01-01T00:00:00Z", "0.2.0");
    assert_eq!(m.schema_version, 3);
    assert_eq!(m.report_id, "KT-1");
    assert!(!m.contains_recognition_text && !m.contains_audio && !m.contains_hotwords);
}

#[test]
fn package_path_gets_a_zip_extension() {
    assert_eq!(with_zip_extension("out/diag.zip"), "out/diag.zip");
    assert_eq!(with_zip_extension("out/diag"), "out/diag.zip");
    assert_eq!(with_zip_extension("out/diag.txt"), "out/diag.zip");
}

#[test]
fn package_history_is_capped() {
    let rec = |i: usize| HistoryRecord {
        session_id: format!("s{i}"),
        ts: "t".into(),
        engine_id: "e".into(),
        profile_id: None,
        final_text: "x".into(),
        audio_ms: 0,
        first_partial_ms: None,
        finalize_latency_ms: None,
        outcome: HistoryOutcome::Sent,
        error: None,
        audio_file: None,
    };
    let many: Vec<HistoryRecord> = (0..60).map(rec).collect();
    let list = history_metadata_list(&many);
    assert_eq!(list.len(), 50);
    assert_eq!(list[49].session_id, "s49");
    assert_eq!(history_metadata_list(&many[..3]).len(), 3);
}

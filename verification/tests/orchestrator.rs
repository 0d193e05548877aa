use kotone::history::{HistoryMode, HistoryOutcome};
use kotone::interaction::{InteractionMode, InteractionPolicy};
use kotone::orchestrator::{
    finalize_failure_message, history_step, on_hotkey_hold, on_hotkey_toggle, plan_begin,
    AfterFinalize, Command, EngineStatus, FinalizeFailure, Machine, OrchestratorState,
};
use kotone::orchestrator::build_session_config;
use kotone::json::JsonValue;
use kotone::profile::GameProfile;

fn policy(mode: InteractionMode) -> InteractionPolicy {
    InteractionPolicy::from_preset(mode)
}

#[test]
fn preview_flow_full_transitions() {
    let mut m = Machine::new();
    let g = m.begin().unwrap();
    assert_eq!(m.state, OrchestratorState::Listening);
    let g2 = m.end().unwrap();
    assert_ne!(g, g2);
    assert_eq!(m.state, OrchestratorState::Transcribing);
    let post = policy(InteractionMode::Dictation).post;
    assert_eq!(m.finalized(g2, "对面打野", post), AfterFinalize::Preview);
    assert_eq!(m.state, OrchestratorState::Preview);
    let (gen, text) = m.confirm_send().unwrap();
    assert_eq!(text, "对面打野");
    assert!(m.start_send(gen));
    assert_eq!(m.state, OrchestratorState::Sending);
    assert!(m.send_finished(gen, true, &text));
    assert_eq!(m.state, OrchestratorState::Success);
    assert_eq!(m.dwell_elapsed(gen), Some(true));
    assert_eq!(m.state, OrchestratorState::Idle);
}

#[test]
fn error_state_retains_text_and_confirm_send_retries() {
    let mut m = Machine::new();
    m.begin().unwrap();
    let g = m.end().unwrap();
    let post = policy(InteractionMode::PushToTalk).post;
    assert_eq!(m.finalized(g, "推塔", post), AfterFinalize::Send);
    assert!(m.start_send(g));
    assert!(m.send_finished(g, false, "推塔"));
    assert_eq!(m.state, OrchestratorState::Error);
    assert_eq!(m.dwell_elapsed(g), None, "text kept: waits for retry");
    let (g2, t) = m.confirm_send().unwrap();
    assert_eq!((g2, t.as_str()), (g, "推塔"));
}

#[test]
fn cancel_from_any_state_returns_to_idle() {
    let mut m = Machine::new();
    assert!(!m.cancel());
    m.begin().unwrap();
    let g = m.end().unwrap();
    assert!(m.cancel());
    assert_eq!(m.state, OrchestratorState::Idle);
    let post = policy(InteractionMode::Dictation).post;
    assert_eq!(m.finalized(g, "late", post), AfterFinalize::Stale);
    assert_eq!(m.state, OrchestratorState::Idle);
    assert!(!m.send_finished(g, true, "late"));
}

#[test]
fn empty_finalize_returns_idle_silently() {
    let mut m = Machine::new();
    m.begin().unwrap();
    let g = m.end().unwrap();
    let post = policy(InteractionMode::Dictation).post;
    assert_eq!(m.finalized(g, "  \n", post), AfterFinalize::Empty);
    assert_eq!(m.state, OrchestratorState::Idle);
}

#[test]
fn double_begin_rejected() {
    let mut m = Machine::new();
    m.begin().unwrap();
    assert_eq!(m.begin().unwrap_err(), "当前状态 Listening 不能开始新会话");
    let mut idle = Machine::new();
    assert_eq!(idle.end().unwrap_err(), "当前状态 Idle 不能结束会话");
    assert_eq!(idle.confirm_send().unwrap_err(), "当前状态 Idle 不能确认发送");
}

#[test]
fn begin_failure_toasts_and_idles() {
    let mut m = Machine::new();
    let g = m.begin_failed();
    assert_eq!(m.state, OrchestratorState::Error);
    assert_eq!(m.confirm_send().unwrap_err(), "无待发送文本");
    assert_eq!(m.dwell_elapsed(g), Some(false));
    assert_eq!(m.state, OrchestratorState::Idle);
}

#[test]
fn hotkey_routing() {
    let dict = policy(InteractionMode::Dictation);
    let solo = policy(InteractionMode::Solo);
    let ptt = policy(InteractionMode::PushToTalk);
    assert_eq!(on_hotkey_toggle(OrchestratorState::Idle, false, dict), Command::Begin);
    assert_eq!(on_hotkey_toggle(OrchestratorState::Listening, false, dict), Command::End);
    assert_eq!(on_hotkey_toggle(OrchestratorState::Listening, false, solo), Command::Cancel);
    assert_eq!(on_hotkey_toggle(OrchestratorState::Listening, false, ptt), Command::Ignore);
    assert_eq!(on_hotkey_toggle(OrchestratorState::Preview, true, dict), Command::ConfirmSend);
    assert_eq!(on_hotkey_toggle(OrchestratorState::Success, false, dict), Command::CancelThenBegin);
    assert_eq!(on_hotkey_toggle(OrchestratorState::Error, false, dict), Command::CancelThenBegin);
    assert_eq!(on_hotkey_toggle(OrchestratorState::Error, true, dict), Command::Cancel);
    assert_eq!(on_hotkey_toggle(OrchestratorState::Sending, false, dict), Command::Cancel);
    assert_eq!(on_hotkey_hold(true, OrchestratorState::Preview, true, ptt), Command::Ignore);
    assert_eq!(on_hotkey_hold(true, OrchestratorState::Success, false, ptt), Command::CancelThenBegin);
    assert_eq!(on_hotkey_hold(false, OrchestratorState::Listening, false, ptt), Command::End);
    assert_eq!(on_hotkey_hold(false, OrchestratorState::Listening, false, dict), Command::Ignore);
}

#[test]
fn history_error_then_cancel_does_not_double_record() {
    let s = history_step(HistoryOutcome::Error, false);
    assert!(s.write && s.reported && s.keep_draft);
    let s2 = history_step(HistoryOutcome::Cancelled, s.reported);
    assert!(!s2.write);
    let s3 = history_step(HistoryOutcome::Sent, true);
    assert!(s3.write && !s3.keep_draft);
    let s4 = history_step(HistoryOutcome::Cancelled, false);
    assert!(s4.write && !s4.reported && !s4.keep_draft);
}

#[test]
fn state_labels() {
    assert_eq!(OrchestratorState::Transcribing.label(), "transcribing");
    assert_eq!(OrchestratorState::Error.debug_name(), "Error");
}

#[test]
fn begin_with_unready_engine_toasts_error() {
    let ptt = policy(InteractionMode::PushToTalk);
    let one_shot = policy(InteractionMode::OneShot);
    assert_eq!(
        plan_begin("x", &EngineStatus::Unregistered, ptt, true, 700, HistoryMode::Capped, false)
            .unwrap_err(),
        "未注册的 STT 引擎: x"
    );
    let not_ready = EngineStatus::Registered {
        display_name: "X-ASR".into(),
        ready: false,
    };
    assert_eq!(
        plan_begin("x", &not_ready, ptt, true, 700, HistoryMode::Capped, false).unwrap_err(),
        "引擎「X-ASR」未就绪（模型未下载），请到「设置 → 高级」下载模型"
    );
    let ready = EngineStatus::Registered {
        display_name: "X-ASR".into(),
        ready: true,
    };
    assert!(plan_begin("x", &ready, one_shot, false, 700, HistoryMode::Capped, false).is_err());
    let plan = plan_begin("x", &ready, one_shot, true, 60_000, HistoryMode::Off, true).unwrap();
    assert_eq!(plan.vad_silence_ms, Some(5000));
    assert!(!plan.history_on);
    assert!(plan.record_eval);
    let plan = plan_begin("x", &ready, ptt, false, 700, HistoryMode::KeepAll, false).unwrap();
    assert_eq!(plan.vad_silence_ms, None);
    assert!(plan.history_on);
}

#[test]
fn finalize_failures_have_messages() {
    assert_eq!(finalize_failure_message(FinalizeFailure::Crashed), "转写线程异常");
    assert_eq!(finalize_failure_message(FinalizeFailure::TimedOut(10)), "转写超时（10s）");
}

#[test]
fn session_config_carries_profile_hotwords() {
    let profile = GameProfile::builtin_lol();
    let cfg = build_session_config("zh", &JsonValue::Object(vec![]), "sherpa-onnx-x-asr-zh-en", &profile);
    assert_eq!(cfg.hotwords, profile.hotwords);
    assert!(cfg.hotwords.contains(&"打野".to_string()));
    assert_eq!(cfg.language, "zh");
}

#[test]
fn session_config_options_fallback_null() {
    let options = JsonValue::Object(vec![(
        "sherpa-onnx-x-asr-zh-en".to_string(),
        JsonValue::Object(vec![("provider".to_string(), JsonValue::Text("cpu".to_string()))]),
    )]);
    let generic = GameProfile::builtin_generic();
    let cfg = build_session_config("zh", &options, "sherpa-onnx-x-asr-zh-en", &generic);
    assert_eq!(
        cfg.options,
        JsonValue::Object(vec![("provider".to_string(), JsonValue::Text("cpu".to_string()))])
    );
    assert!(cfg.hotwords.is_empty(), "generic 无热词");
    let cfg2 = build_session_config("zh", &options, "mock-stream", &generic);
    assert_eq!(cfg2.options, JsonValue::Null);
}

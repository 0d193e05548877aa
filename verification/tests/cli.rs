use kotone::audio::AudioDevice;
use kotone::cli::{
    config_get_value, config_set_patch, describe_device, doctor_report, looks_virtual,
    looks_virtual_lowered, truncate_chars, live_wait_ms, session_outcome, session_wait_step,
    still_finalizing, DoctorFacts, SessionWait, ElevationCheck, EngineCheck, ProfileCheck,
};
use kotone::history::HistoryMode;
use kotone::orchestrator::OrchestratorState::{
    Error, Idle, Listening, Preview, Sending, Success, Transcribing,
};
use kotone::settings::DownloadSource;
use kotone::json::JsonValue;

fn text(s: &str) -> JsonValue {
    JsonValue::Text(s.to_string())
}

fn obj(entries: Vec<(&str, JsonValue)>) -> JsonValue {
    JsonValue::Object(entries.into_iter().map(|(k, v)| (k.to_string(), v)).collect())
}

#[test]
fn virtual_device_keyword_detection() {
    assert!(looks_virtual("CABLE Output (VB-Audio Virtual Cable)"));
    assert!(looks_virtual("CABLE Input (VB-Audio Virtual Cable)"));
    assert!(looks_virtual("VoiceMeeter Virtual Output"));
    assert!(looks_virtual("虚拟声卡驱动"));
    assert!(!looks_virtual("麦克风 (Realtek(R) Audio)"));
    assert!(!looks_virtual("Microphone (USB Audio Device)"));
}

#[test]
fn keyword_test_uses_the_lowered_name() {
    assert!(looks_virtual_lowered("X", "my cable"));
    assert!(!looks_virtual_lowered("CABLE", "CABLE"), "only the lowered form is searched");
}

#[test]
fn device_lines_describe_default_and_virtual_cards() {
    assert_eq!(describe_device("default", "Mic"), "Mic [默认]");
    assert_eq!(describe_device("{id-1}", "Mic"), "Mic");
    assert_eq!(describe_device("Mic", "Mic"), "");
    assert_eq!(
        describe_device("{id-2}", "Virtual Cable"),
        "Virtual Cable [虚拟声卡]"
    );
}

#[test]
fn truncation_marks_cut_text() {
    assert_eq!(truncate_chars("对面打野在下路", 4), "对面打野…");
    assert_eq!(truncate_chars("abc", 3), "abc");
    assert_eq!(truncate_chars("", 0), "");
}

#[test]
fn config_set_dotted_key_nests_the_value() {
    let p = config_set_patch("hotkey.key", "F9").unwrap();
    assert_eq!(p, obj(vec![("hotkey", obj(vec![("key", text("F9"))]))]));
    let p = config_set_patch("sttEngine", "mock-stream").unwrap();
    assert_eq!(p, obj(vec![("sttEngine", text("mock-stream"))]));
}

#[test]
fn config_set_bool_keys_take_only_true_or_false() {
    assert_eq!(
        config_set_patch("autoSend", "true").unwrap(),
        obj(vec![("autoSend", JsonValue::Bool(true))])
    );
    assert_eq!(
        config_set_patch("overlay.draggable", "false").unwrap(),
        obj(vec![("overlay", obj(vec![("draggable", JsonValue::Bool(false))]))])
    );
    assert_eq!(
        config_set_patch("autoSend", "yes").unwrap_err(),
        "autoSend 只接受 true/false（收到「yes」）"
    );
    assert!(config_set_patch("autoSend", "1").is_err());
    assert!(config_set_patch("history.includeAudio", "yes").is_err());
}

#[test]
fn config_set_numeric_keys_check_their_range() {
    assert_eq!(
        config_set_patch("vadSilenceMs", "900").unwrap(),
        obj(vec![("vadSilenceMs", JsonValue::Number("900".to_string()))])
    );
    assert_eq!(
        config_set_patch("vadSilenceMs", "+0900").unwrap(),
        obj(vec![("vadSilenceMs", JsonValue::Number("900".to_string()))])
    );
    assert_eq!(
        config_set_patch("vadSilenceMs", "50").unwrap_err(),
        "vadSilenceMs 只接受 200-5000 的整数毫秒（收到「50」）"
    );
    assert!(config_set_patch("vadSilenceMs", "abc").is_err());
    assert!(config_set_patch("vadSilenceMs", "99999").is_err());
    assert_eq!(
        config_set_patch("history.maxRecords", "500").unwrap(),
        obj(vec![("history", obj(vec![("maxRecords", JsonValue::Number("500".to_string()))]))])
    );
    assert_eq!(
        config_set_patch("history.maxRecords", "0").unwrap_err(),
        "history.maxRecords 只接受 1-100000 的整数条数（收到「0」）"
    );
    assert!(config_set_patch("history.maxRecords", "100001").is_err());
    assert!(config_set_patch("history.maxRecords", "abc").is_err());
}

#[test]
fn config_set_rejects_unsettable_keys() {
    let e = config_set_patch("no.such.key", "x").unwrap_err();
    assert!(e.starts_with("不支持的配置键「no.such.key」（支持：hotkey.key, "), "{e}");
    assert!(e.ends_with("overlay.clickThrough）"), "{e}");
    assert!(config_set_patch("auto_send", "true").is_err());
}

#[test]
fn config_set_enumerated_keys_take_their_names() {
    assert_eq!(
        config_set_patch("overlay.position", "bottom_right").unwrap(),
        obj(vec![("overlay", obj(vec![("position", text("bottom_right"))]))])
    );
    assert_eq!(
        config_set_patch("overlay.position", "outside").unwrap_err(),
        "值「outside」对 overlay.position 不合法: unknown variant `outside`, expected one of \
         `auto`, `top_left`, `top_center`, `top_right`, `center`, `bottom_left`, \
         `bottom_center`, `bottom_right`, `custom`"
    );
    assert_eq!(
        config_set_patch("hotkey.mode", "press").unwrap_err(),
        "值「press」对 hotkey.mode 不合法: unknown variant `press`, expected `hold` or `toggle`"
    );
    assert!(config_set_patch("hotkey.mode", "hold").is_ok());
    assert!(config_set_patch("hotkey.mode", "press").is_err());
    for raw in ["auto", "llhook", "register"] {
        assert!(config_set_patch("hotkeyBackend", raw).is_ok());
    }
    assert!(config_set_patch("hotkeyBackend", "magic").is_err());
    for raw in ["push-to-talk", "dictation", "one-shot", "solo"] {
        assert!(config_set_patch("interactionMode", raw).is_ok());
    }
    assert!(config_set_patch("interactionMode", "magic").is_err());
    for raw in ["keep-all", "off", "capped"] {
        assert!(config_set_patch("history.mode", raw).is_ok());
    }
    assert!(config_set_patch("history.mode", "magic").is_err());
    assert!(config_set_patch("activeProfileId", "lol").is_ok());
    assert!(config_set_patch("audioDeviceId", "CABLE Output").is_ok());
}

fn sample_config() -> JsonValue {
    obj(vec![
        ("hotkey", obj(vec![("key", text("CapsLock")), ("mode", text("toggle"))])),
        ("autoSend", JsonValue::Bool(false)),
    ])
}

#[test]
fn config_get_walks_dotted_paths() {
    let root = sample_config();
    assert_eq!(config_get_value(&root, "hotkey.key").unwrap(), text("CapsLock"));
    assert_eq!(config_get_value(&root, "autoSend").unwrap(), JsonValue::Bool(false));
    assert_eq!(config_get_value(&root, "hotkey.mode").unwrap(), text("toggle"));
    assert_eq!(
        config_get_value(&root, "hotkey").unwrap(),
        obj(vec![("key", text("CapsLock")), ("mode", text("toggle"))])
    );
    assert_eq!(
        config_get_value(&root, "hotkey.nosuch").unwrap_err(),
        "配置项「hotkey.nosuch」不存在"
    );
    assert!(config_get_value(&root, "nosuch").is_err());
    assert!(config_get_value(&root, "autoSend.deeper").is_err());
    assert!(config_get_value(&root, "").is_err());
}

#[test]
fn enumerated_key_message_lists_three_names() {
    assert_eq!(
        config_set_patch("hotkeyBackend", "magic").unwrap_err(),
        "值「magic」对 hotkeyBackend 不合法: unknown variant `magic`, expected one of `auto`, `llhook`, `register`"
    );
}

fn healthy_facts() -> DoctorFacts {
    DoctorFacts {
        devices: vec![
            AudioDevice { id: "default".into(), name: "麦克风".into() },
            AudioDevice { id: "2".into(), name: "CABLE Output (VB-Audio Virtual Cable)".into() },
        ],
        engine_id: "sensevoice".into(),
        engine: EngineCheck::Ready,
        profile: ProfileCheck::Found {
            id: "lol".into(),
            display_name: "英雄联盟".into(),
            process_names: vec!["League of Legends.exe".into()],
        },
        elevation: ElevationCheck::NotNeeded(42),
        vad_ready: true,
        eval_recording: false,
        download_source: DownloadSource::Official,
        gh_proxy: "https://gh-proxy.com/".into(),
        history_mode: HistoryMode::Capped,
        max_records: 500,
        include_audio: true,
    }
}

#[test]
fn doctor_report_passes_a_healthy_environment() {
    let r = doctor_report(&healthy_facts());
    assert_eq!(r.failures, 0);
    assert_eq!(r.exit_code, 0);
    let expected = [
        "✓ 音频输入设备：2 个（默认：麦克风）\n",
        "  ⚠ 虚拟声卡：CABLE Output (VB-Audio Virtual Cable)（自动化测试路径二可用，日常采集别选它）\n",
        "✓ STT 引擎「sensevoice」就绪\n",
        "✓ 激活 profile「lol」：英雄联盟（processNames: League of Legends.exe）\n",
        "✓ 提权链路：目标进程（pid 42）未提权，无需 elevate\n",
        "✓ VAD 模型就绪（one-shot 静音判停可用）\n",
        "⚠ evalRecording：关（评测录档 → kotone-cli eval list）\n",
        "✓ 下载源：official（huggingface.co / github.com 直连）（kotone-cli config set download.source <auto|official|mirror>）\n",
        "✓ history：capped（上限 500 条），含音频（kotone-cli log list 查看）\n",
        "\n全部关键项通过\n",
    ]
    .concat();
    assert_eq!(r.text, expected);
}

#[test]
fn doctor_report_counts_each_failed_check() {
    let mut f = healthy_facts();
    f.devices = Vec::new();
    f.engine = EngineCheck::Unregistered(vec!["sensevoice".into(), "whisper".into()]);
    f.engine_id = "sensevoce".into();
    f.profile = ProfileCheck::Missing("ghost".into());
    f.elevation = ElevationCheck::Blocked(7);
    f.download_source = DownloadSource::Auto;
    f.history_mode = HistoryMode::Off;
    let r = doctor_report(&f);
    assert_eq!(r.failures, 4);
    assert_eq!(r.exit_code, 1);
    assert!(r.text.starts_with("✗ 音频输入设备：未枚举到任何采集设备（检查麦克风/驱动）\n✗ STT 引擎「sensevoce」未注册（检查 sttEngine 拼写；已注册：sensevoice, whisper）\n✗ 激活 profile「ghost」不存在 → kotone-cli profile use <id>\n✗ 目标游戏进程（pid 7）已提权而 Kotone 未提权"));
    assert!(r.text.contains("✓ 下载源：auto（镜像优先 hf-mirror.com + https://gh-proxy.com/，失败回退官方）"));
    assert!(r.text.contains("✓ history：off（不记录），含音频"));
    assert!(r.text.ends_with("\n4 项未通过，按上方建议修复后复查\n"));
}

#[test]
fn doctor_report_warnings_do_not_fail() {
    let mut f = healthy_facts();
    f.devices = vec![AudioDevice { id: "1".into(), name: "USB Mic".into() }];
    f.profile = ProfileCheck::NotSet;
    f.elevation = ElevationCheck::TargetNotRunning;
    f.vad_ready = false;
    f.engine = EngineCheck::NotReady("SenseVoice Small".into());
    let r = doctor_report(&f);
    assert_eq!(r.failures, 1);
    assert_eq!(r.exit_code, 1);
    assert!(r.text.starts_with("✓ 音频输入设备：1 个（默认：未知）\n✗ STT 引擎「sensevoice」（SenseVoice Small）未就绪：模型/二进制未下载 → kotone-cli download <模型>\n⚠ 未设置 activeProfileId"));
    assert!(r.text.ends_with("\n1 项未通过，按上方建议修复后复查\n"));
}

#[test]
fn headless_session_waits_then_ends_and_reports() {
    assert!(matches!(session_wait_step(Listening, 100, 200, 300), SessionWait::Poll));
    assert!(matches!(session_wait_step(Listening, 200, 200, 300), SessionWait::EndNow));
    assert!(matches!(session_wait_step(Transcribing, 250, 200, 300), SessionWait::Poll));
    assert!(matches!(session_wait_step(Sending, 300, 200, 300), SessionWait::Settled));
    assert!(matches!(session_wait_step(Preview, 0, 200, 300), SessionWait::Settled));
    assert!(matches!(session_wait_step(Idle, 0, 200, 300), SessionWait::Settled));
    assert!(still_finalizing(Transcribing, 10, 20));
    assert!(!still_finalizing(Transcribing, 20, 20));
    assert!(!still_finalizing(Success, 10, 20));
    assert_eq!(session_outcome(Preview), ("ok", 0));
    assert_eq!(session_outcome(Success), ("ok", 0));
    assert_eq!(session_outcome(Error), ("error", 1));
    assert_eq!(session_outcome(Listening), ("error", 1));
    assert_eq!(live_wait_ms(Some(3)), Ok(3000));
    assert_eq!(
        live_wait_ms(None),
        Err(("--no-hotkey 需配合 --duration <秒>（或使用 --wav <file>）".to_string(), 2))
    );
}

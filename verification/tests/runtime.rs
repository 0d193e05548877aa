use kotone::runtime::{
    begin_start, begin_stop, can_start, can_stop, fail_start, finish_start, finish_stop,
    is_transitioning, restart_needed, RuntimePhase,
};

#[test]
fn happy_path_full_cycle() {
    let p = RuntimePhase::Stopped;
    let p = begin_start(p).unwrap();
    assert_eq!(p, RuntimePhase::Starting);
    let p = finish_start(p).unwrap();
    assert_eq!(p, RuntimePhase::Running);
    let p = begin_stop(p).unwrap();
    assert_eq!(p, RuntimePhase::Stopping);
    let p = finish_stop(p).unwrap();
    assert_eq!(p, RuntimePhase::Stopped);
}

#[test]
fn start_failure_rolls_back_to_stopped() {
    let p = begin_start(RuntimePhase::Stopped).unwrap();
    let p = fail_start(p).unwrap();
    assert_eq!(p, RuntimePhase::Stopped);
}

#[test]
fn illegal_transitions_error() {
    assert!(begin_start(RuntimePhase::Running).is_err());
    assert!(begin_start(RuntimePhase::Starting).is_err());
    assert!(begin_stop(RuntimePhase::Stopped).is_err());
    assert!(finish_start(RuntimePhase::Stopped).is_err());
    assert!(finish_stop(RuntimePhase::Running).is_err());
    assert!(fail_start(RuntimePhase::Running).is_err());
}

#[test]
fn guards_match_phases() {
    assert!(can_start(RuntimePhase::Stopped));
    assert!(!can_start(RuntimePhase::Running));
    assert!(can_stop(RuntimePhase::Running));
    assert!(!can_stop(RuntimePhase::Stopped));
    assert!(is_transitioning(RuntimePhase::Starting));
    assert!(is_transitioning(RuntimePhase::Stopping));
    assert!(!is_transitioning(RuntimePhase::Running));
}

#[test]
fn restart_needed_matrix() {
    let started = Some((
        "sherpa-onnx-x-asr-zh-en",
        "x-asr-480ms-streaming-zh-en-punct-int8-2026-06-05",
    ));
    assert!(!restart_needed(
        RuntimePhase::Running,
        started,
        (
            "sherpa-onnx-x-asr-zh-en",
            "x-asr-480ms-streaming-zh-en-punct-int8-2026-06-05"
        )
    ));
    assert!(restart_needed(
        RuntimePhase::Running,
        started,
        ("sherpa-onnx-x-asr-zh-en", "other-model")
    ));
    assert!(restart_needed(
        RuntimePhase::Running,
        started,
        (
            "sherpa-onnx-sensevoice-zh",
            "x-asr-480ms-streaming-zh-en-punct-int8-2026-06-05"
        )
    ));
    assert!(!restart_needed(RuntimePhase::Stopped, started, ("a", "b")));
    assert!(!restart_needed(RuntimePhase::Starting, started, ("a", "b")));
    assert!(!restart_needed(RuntimePhase::Running, None, ("a", "b")));
}

#[test]
fn illegal_transition_message_names_the_phase() {
    let e = begin_start(RuntimePhase::Running).unwrap_err();
    assert_eq!(e, "当前状态（running）不能启动");
    assert_eq!(RuntimePhase::Stopping.as_str(), "stopping");
}

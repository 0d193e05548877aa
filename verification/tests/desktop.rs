use kotone::desktop::{
    cycle_key_plan, detect_conflicts, fullscreen_step, on_demand_overlay_action,
    overlay_visibility_action, parse_onboarding_launch_mode, ActiveBackend, CycleKeyPlan,
    FullscreenAction, OnDemandOverlayAction, OnboardingLaunchMode,
};
use kotone::desktop::{start_request, startup_overlay, stop_request, RuntimeRequest, StartupOverlay};
use kotone::desktop::{overlay_layout, overlay_probe_point, OverlayRect, WorkArea};
use kotone::settings::{OverlayConfig, OverlayPosition, OverlayStyle};
use kotone::runtime::RuntimePhase;
use kotone::desktop::{readiness_step, ReadinessStep};
use kotone::desktop::{start_stage_done, StartStage, StartStep};
use kotone::settings::OverlayVisibility;

fn args(list: &[&str]) -> Vec<String> {
    list.iter().map(|s| s.to_string()).collect()
}

#[test]
fn onboarding_mode_defaults_to_auto() {
    assert_eq!(
        parse_onboarding_launch_mode(&args(&["kotone.exe"])),
        OnboardingLaunchMode::Auto
    );
}

#[test]
fn onboarding_mode_accepts_equals_and_split_forms() {
    assert_eq!(
        parse_onboarding_launch_mode(&args(&["kotone.exe", "--onboarding=always"])),
        OnboardingLaunchMode::Always
    );
    assert_eq!(
        parse_onboarding_launch_mode(&args(&["kotone.exe", "--onboarding", "never"])),
        OnboardingLaunchMode::Never
    );
}

#[test]
fn invalid_onboarding_mode_keeps_last_valid_value() {
    assert_eq!(
        parse_onboarding_launch_mode(&args(&[
            "kotone.exe",
            "--onboarding=always",
            "--onboarding=invalid",
        ])),
        OnboardingLaunchMode::Always
    );
}

#[test]
fn on_demand_error_is_always_shown() {
    assert_eq!(
        on_demand_overlay_action("error", false),
        OnDemandOverlayAction::Show
    );
    assert_eq!(
        on_demand_overlay_action("error", true),
        OnDemandOverlayAction::Show
    );
}

// ---------- beyond the original suite ----------

#[test]
fn onboarding_value_after_flag_is_consumed() {
    assert_eq!(
        parse_onboarding_launch_mode(&args(&["--onboarding", "--onboarding=never"])),
        OnboardingLaunchMode::Auto,
        "the next argument is the value, even when it looks like a flag"
    );
    assert_eq!(
        parse_onboarding_launch_mode(&args(&["--onboarding=always", "--onboarding=auto"])),
        OnboardingLaunchMode::Auto
    );
    assert_eq!(parse_onboarding_launch_mode(&[]), OnboardingLaunchMode::Auto);
}

#[test]
fn overlay_actions_follow_states() {
    assert_eq!(on_demand_overlay_action("listening", false), OnDemandOverlayAction::Show);
    assert_eq!(
        on_demand_overlay_action("success", false),
        OnDemandOverlayAction::HideSuccessAfterDwell
    );
    assert_eq!(on_demand_overlay_action("success", true), OnDemandOverlayAction::Keep);
    assert_eq!(on_demand_overlay_action("idle", true), OnDemandOverlayAction::Hide);
    assert_eq!(on_demand_overlay_action("other", false), OnDemandOverlayAction::Keep);
}

#[test]
fn backend_labels() {
    assert_eq!(ActiveBackend::Off.label(), "none");
    assert_eq!(ActiveBackend::LlHook.label(), "llhook");
    assert_eq!(ActiveBackend::Plugin.label(), "register");
}

#[test]
fn common_keys_raise_a_conflict_hint() {
    assert_eq!(
        detect_conflicts("tab"),
        vec!["「tab」是常见游戏/系统键位，可能与游戏内操作冲突".to_string()]
    );
    assert_eq!(detect_conflicts("F12").len(), 1);
    assert!(detect_conflicts("F8").is_empty());
    assert!(detect_conflicts("Ctrl+F7").is_empty());
}

#[test]
fn overlay_visibility_settings() {
    assert_eq!(
        overlay_visibility_action(OverlayVisibility::Always, "idle", false, false),
        OnDemandOverlayAction::Hide
    );
    assert_eq!(
        overlay_visibility_action(OverlayVisibility::Always, "idle", false, true),
        OnDemandOverlayAction::Keep
    );
    assert_eq!(
        overlay_visibility_action(OverlayVisibility::Always, "success", false, true),
        OnDemandOverlayAction::Show
    );
    assert_eq!(
        overlay_visibility_action(OverlayVisibility::OnDemand, "success", false, true),
        OnDemandOverlayAction::HideSuccessAfterDwell
    );
    assert_eq!(
        overlay_visibility_action(OverlayVisibility::Never, "listening", false, true),
        OnDemandOverlayAction::Hide
    );
}

#[test]
fn fullscreen_watch_hides_once_and_restores_always() {
    assert_eq!(fullscreen_step(false, true, true, true), (FullscreenAction::HideAndWarn, true));
    assert_eq!(fullscreen_step(true, true, true, true), (FullscreenAction::Nothing, true));
    assert_eq!(fullscreen_step(true, false, true, true), (FullscreenAction::Restore, false));
    assert_eq!(fullscreen_step(true, false, false, true), (FullscreenAction::Nothing, false));
    assert_eq!(fullscreen_step(false, false, true, true), (FullscreenAction::Nothing, false));
}

#[test]
fn channel_key_plans() {
    assert!(matches!(cycle_key_plan("  ", "F8"), CycleKeyPlan::Skip));
    match cycle_key_plan("shift + capslock", "Shift+CapsLock") {
        CycleKeyPlan::Conflict(m) => {
            assert_eq!(m, "频道切换热键「shift + capslock」与录制热键冲突，未注册")
        }
        _ => panic!("expected a conflict"),
    }
    match cycle_key_plan("Shift+CapsLock", "CapsLock") {
        CycleKeyPlan::Register(k) => assert_eq!(k, "Shift+CapsLock"),
        _ => panic!("expected registration"),
    }
}

#[test]
fn start_and_stop_requests_follow_the_phase() {
    assert_eq!(start_request(RuntimePhase::Stopped, false), RuntimeRequest::Proceed);
    assert_eq!(start_request(RuntimePhase::Running, true), RuntimeRequest::Restart);
    assert_eq!(start_request(RuntimePhase::Running, false), RuntimeRequest::Report);
    assert_eq!(
        start_request(RuntimePhase::Starting, false),
        RuntimeRequest::Busy("运行时正在启动，请稍候".into())
    );
    assert_eq!(
        start_request(RuntimePhase::Stopping, true),
        RuntimeRequest::Busy("运行时正在停止，请稍候".into())
    );
    assert_eq!(stop_request(RuntimePhase::Running), RuntimeRequest::Proceed);
    assert_eq!(stop_request(RuntimePhase::Stopped), RuntimeRequest::Report);
    assert_eq!(
        stop_request(RuntimePhase::Starting),
        RuntimeRequest::Busy("运行时正在启动，请稍候".into())
    );
}

#[test]
fn overlay_at_start_respects_exclusive_full_screen() {
    assert_eq!(startup_overlay(OverlayVisibility::Always, Some(true)), StartupOverlay::HideAndWarn);
    assert_eq!(startup_overlay(OverlayVisibility::Always, Some(false)), StartupOverlay::Show);
    assert_eq!(startup_overlay(OverlayVisibility::Always, None), StartupOverlay::Show);
    assert_eq!(startup_overlay(OverlayVisibility::OnDemand, Some(true)), StartupOverlay::Hide);
    assert_eq!(startup_overlay(OverlayVisibility::Never, None), StartupOverlay::Hide);
}

fn overlay(style: OverlayStyle, position: OverlayPosition, custom: Option<(i32, i32)>) -> OverlayConfig {
    OverlayConfig {
        style,
        position,
        custom_x: custom.map(|c| c.0),
        custom_y: custom.map(|c| c.1),
        ..OverlayConfig::default()
    }
}

const SCREEN: WorkArea = WorkArea { left: 0, top: 0, right: 1920, bottom: 1040 };

#[test]
fn overlay_layout_places_styles_and_presets() {
    let capsule = overlay(OverlayStyle::Capsule, OverlayPosition::Auto, None);
    assert_eq!(overlay_layout(&capsule, 96, SCREEN), OverlayRect { x: 700, y: 928, w: 520, h: 64 });
    assert_eq!(overlay_layout(&capsule, 0, SCREEN), OverlayRect { x: 700, y: 928, w: 520, h: 64 });
    let card = overlay(OverlayStyle::Card, OverlayPosition::Auto, None);
    assert_eq!(overlay_layout(&card, 96, SCREEN), OverlayRect { x: 720, y: 460, w: 480, h: 120 });
    let tl = overlay(OverlayStyle::Capsule, OverlayPosition::TopLeft, None);
    assert_eq!(overlay_layout(&tl, 96, SCREEN), OverlayRect { x: 24, y: 24, w: 520, h: 64 });
    let br = overlay(OverlayStyle::Capsule, OverlayPosition::BottomRight, None);
    assert_eq!(overlay_layout(&br, 96, SCREEN), OverlayRect { x: 1376, y: 952, w: 520, h: 64 });
    let big = overlay(OverlayStyle::Capsule, OverlayPosition::Auto, None);
    assert_eq!(overlay_layout(&big, 144, SCREEN).w, 780);
    assert_eq!(overlay_layout(&big, 144, SCREEN).h, 96);
    assert_eq!(overlay_layout(&big, 97, SCREEN).w, 526, "sizes round up");
    let narrow = overlay(OverlayStyle::Capsule, OverlayPosition::Center, None);
    let area = WorkArea { left: 0, top: 0, right: 101, bottom: 64 };
    assert_eq!(overlay_layout(&narrow, 96, area).x, -209, "centering truncates toward zero");
}

#[test]
fn dragged_overlay_is_clamped_into_the_work_area() {
    let far = overlay(OverlayStyle::Capsule, OverlayPosition::Custom, Some((5000, -10)));
    assert_eq!(overlay_layout(&far, 96, SCREEN), OverlayRect { x: 1400, y: 0, w: 520, h: 64 });
    let inside = overlay(OverlayStyle::Capsule, OverlayPosition::Custom, Some((100, 200)));
    assert_eq!(overlay_layout(&inside, 96, SCREEN), OverlayRect { x: 100, y: 200, w: 520, h: 64 });
    let unknown = overlay(OverlayStyle::Capsule, OverlayPosition::Custom, None);
    assert_eq!(overlay_layout(&unknown, 96, SCREEN), OverlayRect { x: 700, y: 488, w: 520, h: 64 });
    assert_eq!(overlay_probe_point(&inside, 96), Some((360, 232)));
    assert_eq!(overlay_probe_point(&unknown, 96), None);
    let preset = overlay(OverlayStyle::Capsule, OverlayPosition::TopLeft, Some((1, 2)));
    assert_eq!(overlay_probe_point(&preset, 96), None);
}

#[test]
fn readiness_is_retried_three_times_then_fails() {
    let missing: Vec<String> = vec!["model.onnx".into(), "tokens.txt".into()];
    assert_eq!(readiness_step(true, 0, "m", &missing), ReadinessStep::Ready);
    for k in 0..3 {
        assert_eq!(readiness_step(false, k, "m", &missing), ReadinessStep::Retry);
    }
    assert_eq!(readiness_step(true, 3, "m", &missing), ReadinessStep::Ready);
    assert_eq!(
        readiness_step(false, 3, "m", &missing),
        ReadinessStep::Fail("模型「m」文件不齐备：model.onnx、tokens.txt。请在「设置 → 高级」重新下载".into())
    );
}

#[test]
fn start_stages_follow_in_order_and_only_hotkey_failure_rolls_back() {
    assert_eq!(start_stage_done(StartStage::Readiness, Ok(())), StartStep::Next(StartStage::Warmup));
    assert_eq!(start_stage_done(StartStage::Warmup, Ok(())), StartStep::Next(StartStage::Hotkey));
    assert_eq!(start_stage_done(StartStage::Hotkey, Ok(())), StartStep::Next(StartStage::Overlay));
    assert_eq!(start_stage_done(StartStage::Overlay, Ok(())), StartStep::Started);
    assert_eq!(
        start_stage_done(StartStage::Hotkey, Err("热键被占用".to_string())),
        StartStep::Fail { error: "热键被占用".to_string(), roll_back: true }
    );
    assert_eq!(
        start_stage_done(StartStage::Warmup, Err("warmup 失败".to_string())),
        StartStep::Fail { error: "warmup 失败".to_string(), roll_back: false }
    );
}

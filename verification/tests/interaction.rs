use kotone::hotkey::HotkeyMode;
use kotone::interaction::{
    effective_hotkey_mode, BeginTrigger, EndTrigger, InteractionConfig, InteractionMode,
    InteractionPolicy, PostFinalize,
};

fn settings_with(mode: HotkeyMode, auto_send: bool) -> InteractionConfig {
    InteractionConfig {
        interaction_mode: None,
        hotkey_mode: mode,
        auto_send,
    }
}

#[test]
fn legacy_hold_autosend_is_push_to_talk() {
    let p = InteractionPolicy::from_settings(&settings_with(HotkeyMode::Hold, true));
    assert_eq!(p.begin, BeginTrigger::HotkeyHold);
    assert_eq!(p.end, EndTrigger::HotkeyRelease);
    assert_eq!(p.post, PostFinalize::SendDirect);
    assert_eq!(p.preset(), Some(InteractionMode::PushToTalk));
}

#[test]
fn legacy_toggle_preview_is_dictation() {
    let p = InteractionPolicy::from_settings(&settings_with(HotkeyMode::Toggle, false));
    assert_eq!(p.begin, BeginTrigger::HotkeyToggle);
    assert_eq!(p.end, EndTrigger::HotkeyPress);
    assert_eq!(p.post, PostFinalize::PreviewConfirm);
    assert_eq!(p.preset(), Some(InteractionMode::Dictation));
}

#[test]
fn legacy_mixed_combo_has_no_preset() {
    let p = InteractionPolicy::from_settings(&settings_with(HotkeyMode::Toggle, true));
    assert_eq!(p.begin, BeginTrigger::HotkeyToggle);
    assert_eq!(p.post, PostFinalize::SendDirect);
    assert_eq!(p.preset(), None);
    let p = InteractionPolicy::from_settings(&settings_with(HotkeyMode::Hold, false));
    assert_eq!(p.preset(), None);
}

#[test]
fn explicit_preset_overrides_legacy_fields() {
    let mut s = settings_with(HotkeyMode::Toggle, false);
    s.interaction_mode = Some(InteractionMode::PushToTalk);
    let p = InteractionPolicy::from_settings(&s);
    assert_eq!(
        p,
        InteractionPolicy::from_preset(InteractionMode::PushToTalk)
    );
}

#[test]
fn one_shot_preset_is_a2_b3_c1() {
    let p = InteractionPolicy::from_preset(InteractionMode::OneShot);
    assert_eq!(p.begin, BeginTrigger::HotkeyToggle);
    assert_eq!(p.end, EndTrigger::VadSilence);
    assert_eq!(p.post, PostFinalize::SendDirect);
    assert!(!p.continuous);
    assert_eq!(p.preset(), Some(InteractionMode::OneShot));
    let mut s = settings_with(HotkeyMode::Hold, false);
    s.interaction_mode = Some(InteractionMode::OneShot);
    assert_eq!(InteractionPolicy::from_settings(&s), p);
}

#[test]
fn solo_preset_is_one_shot_plus_continuous() {
    let p = InteractionPolicy::from_preset(InteractionMode::Solo);
    assert_eq!(p.begin, BeginTrigger::HotkeyToggle);
    assert_eq!(p.end, EndTrigger::VadSilence);
    assert_eq!(p.post, PostFinalize::SendDirect);
    assert!(p.continuous);
    assert_eq!(p.preset(), Some(InteractionMode::Solo));
    assert_eq!(
        InteractionPolicy::from_preset(InteractionMode::OneShot).preset(),
        Some(InteractionMode::OneShot)
    );
    let mut s = settings_with(HotkeyMode::Hold, true);
    s.interaction_mode = Some(InteractionMode::Solo);
    assert_eq!(InteractionPolicy::from_settings(&s), p);
}

#[test]
fn explicit_null_interaction_mode_uses_legacy_fields() {
    let s = settings_with(HotkeyMode::Toggle, false);
    assert_eq!(
        InteractionPolicy::from_settings(&s).preset(),
        Some(InteractionMode::Dictation)
    );
}

#[test]
fn effective_mode_falls_back_to_legacy_hotkey_mode() {
    let s = settings_with(HotkeyMode::Hold, false);
    assert_eq!(effective_hotkey_mode(&s), HotkeyMode::Hold);
    let s = settings_with(HotkeyMode::Toggle, false);
    assert_eq!(effective_hotkey_mode(&s), HotkeyMode::Toggle);
}

#[test]
fn effective_mode_push_to_talk_is_hold() {
    let mut s = settings_with(HotkeyMode::Toggle, false);
    s.interaction_mode = Some(InteractionMode::PushToTalk);
    assert_eq!(effective_hotkey_mode(&s), HotkeyMode::Hold);
}

#[test]
fn effective_mode_dictation_one_shot_solo_are_toggle() {
    for mode in [
        InteractionMode::Dictation,
        InteractionMode::OneShot,
        InteractionMode::Solo,
    ] {
        let mut s = settings_with(HotkeyMode::Hold, false);
        s.interaction_mode = Some(mode);
        assert_eq!(effective_hotkey_mode(&s), HotkeyMode::Toggle);
    }
}

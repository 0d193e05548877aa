use kotone::hotkey::{
    combos_conflict, parse_hotkey, HookEvent, HookMatcher, HotkeyMode, HotkeySpec, KeyAction,
    MatchOutcome, VK_CAPITAL, VK_ESCAPE, VK_F1, VK_LCONTROL, VK_LMENU, VK_LSHIFT, VK_RETURN,
    VK_SPACE, VK_TAB,
};

// ---------- 键名解析 ----------

#[test]
fn parse_function_key() {
    let s = parse_hotkey("F8").unwrap();
    assert_eq!(
        s,
        HotkeySpec {
            vk: 0x77,
            ctrl: false,
            alt: false,
            shift: false
        }
    );
    assert_eq!(parse_hotkey("f1").unwrap().vk, VK_F1);
    assert_eq!(parse_hotkey("F12").unwrap().vk, VK_F1 + 11);
    assert_eq!(parse_hotkey("F24").unwrap().vk, VK_F1 + 23);
    assert!(parse_hotkey("F25").is_none());
    assert!(parse_hotkey("F0").is_none());
}

#[test]
fn parse_letter_and_digit() {
    assert_eq!(parse_hotkey("V").unwrap().vk, u32::from(b'V'));
    assert_eq!(parse_hotkey("v").unwrap().vk, u32::from(b'V'));
    assert_eq!(parse_hotkey("7").unwrap().vk, u32::from(b'7'));
}

#[test]
fn parse_modifier_combos() {
    let s = parse_hotkey("Alt+V").unwrap();
    assert!(s.alt && !s.ctrl && !s.shift && s.vk == u32::from(b'V'));

    let s = parse_hotkey("ctrl + shift + f7").unwrap();
    assert!(s.ctrl && s.shift && !s.alt && s.vk == VK_F1 + 6);

    // 修饰键顺序无关、重复无害
    let s = parse_hotkey("Shift+Ctrl+F7").unwrap();
    assert!(s.ctrl && s.shift);
    let s = parse_hotkey("Ctrl+Ctrl+F7").unwrap();
    assert!(s.ctrl);
}

#[test]
fn parse_named_keys() {
    assert_eq!(parse_hotkey("Escape").unwrap().vk, VK_ESCAPE);
    assert_eq!(parse_hotkey("esc").unwrap().vk, VK_ESCAPE);
    assert_eq!(parse_hotkey("Space").unwrap().vk, VK_SPACE);
    assert_eq!(parse_hotkey("Enter").unwrap().vk, VK_RETURN);
    assert_eq!(parse_hotkey("Tab").unwrap().vk, VK_TAB);
}

#[test]
fn parse_rejects_invalid() {
    assert!(parse_hotkey("").is_none());
    assert!(parse_hotkey("NotAKey").is_none());
    assert!(parse_hotkey("Alt").is_none(), "修饰键不能单独作主键");
    assert!(parse_hotkey("Ctrl+Shift").is_none());
    assert!(parse_hotkey("Win+F8").is_none(), "不支持的修饰键名");
    assert!(parse_hotkey("Alt+NotAKey").is_none());
}

// ---------- 匹配状态机 ----------

fn matcher(key: &str, mode: HotkeyMode) -> HookMatcher {
    HookMatcher::new(parse_hotkey(key).unwrap(), mode)
}

fn down(m: &mut HookMatcher, vk: u32) -> MatchOutcome {
    m.on_key(vk, KeyAction::Down)
}
fn up(m: &mut HookMatcher, vk: u32) -> MatchOutcome {
    m.on_key(vk, KeyAction::Up)
}

#[test]
fn toggle_plain_key_fires_once_and_swallows() {
    let mut m = matcher("F8", HotkeyMode::Toggle);
    let r = down(&mut m, 0x77);
    assert_eq!(r.event, Some(HookEvent::Toggle));
    assert!(r.swallow);
    // 按住不放的重复 down：吞但不重复发事件
    let r = down(&mut m, 0x77);
    assert_eq!(r.event, None);
    assert!(r.swallow);
    // up：吞（对应被吞的 down），无事件
    let r = up(&mut m, 0x77);
    assert_eq!(r.event, None);
    assert!(r.swallow);
    // 松开后再按：再次触发
    let r = down(&mut m, 0x77);
    assert_eq!(r.event, Some(HookEvent::Toggle));
}

#[test]
fn modifier_must_match_strictly() {
    let mut m = matcher("F8", HotkeyMode::Toggle);
    // 配置无修饰键：Ctrl+F8 不命中、不吞；上报 MainKeyMissed 诊断事件
    down(&mut m, VK_LCONTROL);
    let r = down(&mut m, 0x77);
    assert!(!r.swallow);
    assert_eq!(
        r.event,
        Some(HookEvent::MainKeyMissed {
            ctrl: true,
            alt: false,
            shift: false
        })
    );
    up(&mut m, 0x77);
    up(&mut m, VK_LCONTROL);

    // 配置 Alt+V：先按 Alt 再按 V 才命中；未按 Alt 不命中、不吞 + 诊断事件
    let mut m = matcher("Alt+V", HotkeyMode::Toggle);
    let r = down(&mut m, u32::from(b'V'));
    assert!(!r.swallow, "未按 Alt 时不命中");
    assert_eq!(
        r.event,
        Some(HookEvent::MainKeyMissed {
            ctrl: false,
            alt: false,
            shift: false
        })
    );
    up(&mut m, u32::from(b'V'));
    down(&mut m, VK_LMENU);
    let r = down(&mut m, u32::from(b'V'));
    assert_eq!(r.event, Some(HookEvent::Toggle));
    assert!(r.swallow);
    // Alt 本身永不吞（放行给系统/游戏）
    let r = up(&mut m, VK_LMENU);
    assert_eq!(r, MatchOutcome::pass());
}

#[test]
fn hold_mode_press_release_pair() {
    let mut m = matcher("F8", HotkeyMode::Hold);
    assert_eq!(down(&mut m, 0x77).event, Some(HookEvent::HoldPressed));
    // 重复 down 不产生第二个 pressed
    assert_eq!(down(&mut m, 0x77).event, None);
    assert_eq!(up(&mut m, 0x77).event, Some(HookEvent::HoldReleased));
    // 第二轮
    assert_eq!(down(&mut m, 0x77).event, Some(HookEvent::HoldPressed));
    assert_eq!(up(&mut m, 0x77).event, Some(HookEvent::HoldReleased));
}

#[test]
fn hold_survives_modifier_released_mid_hold() {
    // Alt+V hold：按住 Alt → 按 V（开始）→ 松开 Alt → 松开 V（仍必须结束会话）
    let mut m = matcher("Alt+V", HotkeyMode::Hold);
    down(&mut m, VK_LMENU);
    assert_eq!(
        down(&mut m, u32::from(b'V')).event,
        Some(HookEvent::HoldPressed)
    );
    up(&mut m, VK_LMENU); // Alt 中途松开
    let r = up(&mut m, u32::from(b'V'));
    assert_eq!(
        r.event,
        Some(HookEvent::HoldReleased),
        "hold 已开始就必须补释放"
    );
    assert!(r.swallow);
}

#[test]
fn esc_cancel_only_when_session_active() {
    let mut m = matcher("F8", HotkeyMode::Toggle);
    // 会话未激活：Esc 放行、无事件
    assert_eq!(down(&mut m, VK_ESCAPE), MatchOutcome::pass());
    up(&mut m, VK_ESCAPE);

    m.set_session_active(true);
    let r = down(&mut m, VK_ESCAPE);
    assert_eq!(r.event, Some(HookEvent::Cancel));
    assert!(r.swallow, "会话期间吞 Esc，避免触发游戏内菜单");
    // 重复 down 不重复 Cancel
    assert_eq!(down(&mut m, VK_ESCAPE).event, None);
    // up 同样吞掉
    assert!(up(&mut m, VK_ESCAPE).swallow);

    // 会话结束：Esc 恢复放行
    m.set_session_active(false);
    assert_eq!(down(&mut m, VK_ESCAPE), MatchOutcome::pass());
}

#[test]
fn disabled_matcher_passes_everything() {
    let mut m = matcher("F8", HotkeyMode::Toggle);
    m.set_enabled(false);
    assert_eq!(down(&mut m, 0x77), MatchOutcome::pass());
    m.set_enabled(true);
    // 重新启用后可正常触发（按下态已重置）
    assert_eq!(down(&mut m, 0x77).event, Some(HookEvent::Toggle));
}

#[test]
fn unmatched_keys_pass_through() {
    let mut m = matcher("F8", HotkeyMode::Toggle);
    assert_eq!(down(&mut m, u32::from(b'A')), MatchOutcome::pass());
    assert_eq!(down(&mut m, VK_RETURN), MatchOutcome::pass());
    assert_eq!(up(&mut m, VK_SPACE), MatchOutcome::pass());
}

// ---------- 捕获模式（热键录入） ----------

#[test]
fn combo_name_roundtrip() {
    for s in [
        "F7",
        "F24",
        "Alt+V",
        "Ctrl+Shift+F7",
        "Ctrl+Alt+Shift+A",
        "Space",
        "Up",
        "PrintScreen",
    ] {
        let spec = parse_hotkey(s).unwrap();
        assert_eq!(
            parse_hotkey(&spec.combo_name()).unwrap(),
            spec,
            "roundtrip: {s}"
        );
    }
    // 未知 VK 码兜底 VK0x..（不可 parse 但不丢信息）
    assert_eq!(
        HotkeySpec {
            vk: 0xFF,
            ctrl: false,
            alt: false,
            shift: false
        }
        .combo_name(),
        "VK0xFF"
    );
}

#[test]
fn capture_reports_combo_with_modifiers() {
    let mut m = matcher("F8", HotkeyMode::Toggle);
    m.set_capture_active(true);
    // 修饰键照常跟踪、不吞
    assert_eq!(down(&mut m, VK_LCONTROL), MatchOutcome::pass());
    assert_eq!(down(&mut m, VK_LMENU), MatchOutcome::pass());
    let r = down(&mut m, u32::from(b'V'));
    assert_eq!(
        r.captured,
        Some(HotkeySpec {
            vk: u32::from(b'V'),
            ctrl: true,
            alt: true,
            shift: false,
        })
    );
    assert_eq!(r.captured.unwrap().combo_name(), "Ctrl+Alt+V");
    // 松开修饰键后再按：组合态更新
    up(&mut m, VK_LCONTROL);
    up(&mut m, VK_LMENU);
    let r = down(&mut m, 0x77);
    assert_eq!(r.captured.unwrap().combo_name(), "F8");
}

#[test]
fn capture_esc_is_not_captured() {
    let mut m = matcher("F8", HotkeyMode::Toggle);
    m.set_capture_active(true);
    // Esc down 不捕获（调用层当取消信号）、不吞键
    let r = down(&mut m, VK_ESCAPE);
    assert_eq!(r, MatchOutcome::pass());
    assert_eq!(r.captured, None);
}

#[test]
fn capture_swallows_main_key_and_fires_no_events() {
    let mut m = matcher("F8", HotkeyMode::Toggle);
    m.set_capture_active(true);
    m.set_session_active(true);
    // 即使按下已注册的主键：报告 captured 而非 HookEvent，并吞键
    let r = down(&mut m, 0x77);
    assert!(r.swallow);
    assert_eq!(r.event, None);
    assert!(r.captured.is_some());
    // 捕获层通常会在 down 后立即结束；对应的重复 down / up 仍必须吞掉。
    m.set_capture_active(false);
    assert!(down(&mut m, 0x77).swallow);
    let r = up(&mut m, 0x77);
    assert!(r.swallow);
    assert_eq!(r.event, None);
    // Esc 在捕获期也不发 Cancel（录入优先于会话取消）
    m.set_capture_active(true);
    assert_eq!(down(&mut m, VK_ESCAPE), MatchOutcome::pass());
    // 结束捕获后恢复正常匹配
    m.set_capture_active(false);
    assert_eq!(down(&mut m, 0x77).event, Some(HookEvent::Toggle));
}

#[test]
fn capture_works_when_disabled() {
    // 未注册热键（matcher disabled）时也能录入（CLI / 首次设置场景）
    let mut m = matcher("F24", HotkeyMode::Toggle);
    m.set_enabled(false);
    m.set_capture_active(true);
    let r = down(&mut m, u32::from(b'G'));
    assert_eq!(r.captured.unwrap().combo_name(), "G");
}

// ---------- 频道切换键（ADR-008） ----------

#[test]
fn cycle_key_fires_with_strict_modifiers() {
    let mut m = matcher("CapsLock", HotkeyMode::Toggle);
    m.set_cycle_spec(parse_hotkey("Shift+CapsLock"));
    // 无 Shift：命中主键而非切换键
    let r = down(&mut m, VK_CAPITAL);
    assert_eq!(r.event, Some(HookEvent::Toggle));
    assert!(r.swallow);
    up(&mut m, VK_CAPITAL);
    // Shift+CapsLock：命中切换键，不触发录制
    down(&mut m, VK_LSHIFT);
    let r = down(&mut m, VK_CAPITAL);
    assert_eq!(r.event, Some(HookEvent::CycleChannel));
    assert!(r.swallow);
    // 重复 down 不重复触发
    assert_eq!(down(&mut m, VK_CAPITAL).event, None);
    // up 吞键、无事件
    let r = up(&mut m, VK_CAPITAL);
    assert!(r.swallow);
    assert_eq!(r.event, None);
    up(&mut m, VK_LSHIFT);
    // Shift 本身永不吞（放行给游戏）
}

#[test]
fn cycle_key_rejects_extra_modifiers() {
    let mut m = matcher("F8", HotkeyMode::Toggle);
    m.set_cycle_spec(parse_hotkey("Shift+F9"));
    // Ctrl+Shift+F9：修饰键不严格相等，不命中
    down(&mut m, VK_LCONTROL);
    down(&mut m, VK_LSHIFT);
    let r = down(&mut m, VK_F1 + 8);
    assert_eq!(r, MatchOutcome::pass());
    up(&mut m, VK_F1 + 8);
    up(&mut m, VK_LSHIFT);
    up(&mut m, VK_LCONTROL);
}

#[test]
fn cycle_spec_survives_main_rekey_and_clears_on_none() {
    let mut m = matcher("CapsLock", HotkeyMode::Toggle);
    m.set_cycle_spec(parse_hotkey("Shift+CapsLock"));
    // 主键改键不清掉切换键
    m.set_config(parse_hotkey("F8").unwrap(), HotkeyMode::Toggle);
    down(&mut m, VK_LSHIFT);
    assert_eq!(
        down(&mut m, VK_CAPITAL).event,
        Some(HookEvent::CycleChannel)
    );
    up(&mut m, VK_CAPITAL);
    up(&mut m, VK_LSHIFT);
    // 清除后不再触发
    m.set_cycle_spec(None);
    down(&mut m, VK_LSHIFT);
    assert_eq!(down(&mut m, VK_CAPITAL), MatchOutcome::pass());
    up(&mut m, VK_CAPITAL);
    up(&mut m, VK_LSHIFT);
}

#[test]
fn cycle_key_disabled_with_matcher() {
    let mut m = matcher("CapsLock", HotkeyMode::Toggle);
    m.set_cycle_spec(parse_hotkey("Shift+CapsLock"));
    m.set_enabled(false);
    down(&mut m, VK_LSHIFT);
    assert_eq!(down(&mut m, VK_CAPITAL), MatchOutcome::pass(), "运行时停止后切换键也放行");
    up(&mut m, VK_CAPITAL);
    up(&mut m, VK_LSHIFT);
}

#[test]
fn combos_conflict_detects_same_spec() {
    assert!(combos_conflict("Shift+CapsLock", "shift + capslock"));
    assert!(combos_conflict("Ctrl+Shift+F7", "Shift+Ctrl+F7"));
    assert!(!combos_conflict("CapsLock", "Shift+CapsLock"));
    assert!(!combos_conflict("F8", "F9"));
    // 解析失败不视为冲突（注册路径会单独报错）
    assert!(!combos_conflict("NotAKey", "F8"));
}

// ---------- 重发最近一条热键 ----------

#[test]
fn resend_key_fires_with_strict_modifiers() {
    let mut m = matcher("F8", HotkeyMode::Toggle);
    m.set_resend_spec(parse_hotkey("Alt+F9"));
    // 无 Alt：不命中、不吞（F9 非主键 → 整体放行）
    let r = down(&mut m, VK_F1 + 8);
    assert_eq!(r, MatchOutcome::pass());
    up(&mut m, VK_F1 + 8);
    // Alt+F9：命中重发键
    down(&mut m, VK_LMENU);
    let r = down(&mut m, VK_F1 + 8);
    assert_eq!(r.event, Some(HookEvent::ResendLast));
    assert!(r.swallow);
    // 重复 down 不重复触发
    assert_eq!(down(&mut m, VK_F1 + 8).event, None);
    // up 吞键、无事件
    let r = up(&mut m, VK_F1 + 8);
    assert!(r.swallow);
    assert_eq!(r.event, None);
    up(&mut m, VK_LMENU);
    // 松开后再次按：再次触发
    down(&mut m, VK_LMENU);
    assert_eq!(down(&mut m, VK_F1 + 8).event, Some(HookEvent::ResendLast));
    up(&mut m, VK_F1 + 8);
    up(&mut m, VK_LMENU);
}

#[test]
fn resend_key_rejects_extra_modifiers() {
    let mut m = matcher("F8", HotkeyMode::Toggle);
    m.set_resend_spec(parse_hotkey("Alt+F9"));
    // Ctrl+Alt+F9：修饰键不严格相等，不命中
    down(&mut m, VK_LCONTROL);
    down(&mut m, VK_LMENU);
    let r = down(&mut m, VK_F1 + 8);
    assert_eq!(r, MatchOutcome::pass());
    up(&mut m, VK_F1 + 8);
    up(&mut m, VK_LMENU);
    up(&mut m, VK_LCONTROL);
}

#[test]
fn resend_and_cycle_same_vk_different_modifiers() {
    // 主键 CapsLock、切换 Shift+CapsLock、重发 Alt+CapsLock：三者互不干扰
    let mut m = matcher("CapsLock", HotkeyMode::Toggle);
    m.set_cycle_spec(parse_hotkey("Shift+CapsLock"));
    m.set_resend_spec(parse_hotkey("Alt+CapsLock"));
    // 裸 CapsLock：主键
    let r = down(&mut m, VK_CAPITAL);
    assert_eq!(r.event, Some(HookEvent::Toggle));
    up(&mut m, VK_CAPITAL);
    // Shift+CapsLock：切换键
    down(&mut m, VK_LSHIFT);
    let r = down(&mut m, VK_CAPITAL);
    assert_eq!(r.event, Some(HookEvent::CycleChannel));
    up(&mut m, VK_CAPITAL);
    up(&mut m, VK_LSHIFT);
    // Alt+CapsLock：重发键
    down(&mut m, VK_LMENU);
    let r = down(&mut m, VK_CAPITAL);
    assert_eq!(r.event, Some(HookEvent::ResendLast));
    up(&mut m, VK_CAPITAL);
    up(&mut m, VK_LMENU);
}

#[test]
fn resend_spec_survives_main_rekey_and_clears_on_none() {
    let mut m = matcher("CapsLock", HotkeyMode::Toggle);
    m.set_resend_spec(parse_hotkey("Alt+F9"));
    // 主键改键不清掉重发键
    m.set_config(parse_hotkey("F8").unwrap(), HotkeyMode::Toggle);
    down(&mut m, VK_LMENU);
    assert_eq!(down(&mut m, VK_F1 + 8).event, Some(HookEvent::ResendLast));
    up(&mut m, VK_F1 + 8);
    up(&mut m, VK_LMENU);
    // 清除后不再触发
    m.set_resend_spec(None);
    down(&mut m, VK_LMENU);
    assert_eq!(down(&mut m, VK_F1 + 8), MatchOutcome::pass());
    up(&mut m, VK_F1 + 8);
    up(&mut m, VK_LMENU);
}

#[test]
fn resend_key_disabled_with_matcher() {
    let mut m = matcher("F8", HotkeyMode::Toggle);
    m.set_resend_spec(parse_hotkey("Alt+F9"));
    m.set_enabled(false);
    down(&mut m, VK_LMENU);
    assert_eq!(down(&mut m, VK_F1 + 8), MatchOutcome::pass(), "运行时停止后重发键也放行");
    up(&mut m, VK_F1 + 8);
    up(&mut m, VK_LMENU);
}

#[test]
fn swallowed_down_gets_its_up_swallowed_across_other_events() {
    let f8 = parse_hotkey("F8").unwrap();
    let mut m = HookMatcher::new(f8, HotkeyMode::Toggle);
    assert!(m.on_key(f8.vk, KeyAction::Down).swallow);
    // other keys, a repeat, modifiers and the session switch in between
    assert!(!m.on_key(VK_SPACE, KeyAction::Down).swallow);
    assert!(m.on_key(f8.vk, KeyAction::Down).swallow);
    m.sync_modifiers(true, false, false);
    assert!(!m.on_key(VK_LCONTROL, KeyAction::Down).swallow);
    m.set_session_active(true);
    assert!(!m.on_key(VK_SPACE, KeyAction::Up).swallow);
    assert!(m.on_key(f8.vk, KeyAction::Up).swallow);
}

#[test]
fn modifier_order_case_repeats_and_blanks_do_not_matter() {
    let a = parse_hotkey("ctrl + shift + f7");
    assert_eq!(a, parse_hotkey("Shift+Ctrl+F7"));
    assert_eq!(a, parse_hotkey(" SHIFT ++ control+shift+ F7 "));
    assert_eq!(
        a,
        Some(HotkeySpec { vk: VK_F1 + 6, ctrl: true, alt: false, shift: true })
    );
    assert!(parse_hotkey("Ctrl+Ctrl+F7").unwrap().ctrl);
}

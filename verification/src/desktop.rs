//! Decisions of the desktop shell: start-up options, overlay visibility,
//! hotkey back-end labels and conflict hints, start and stop requests of the
//! runtime, and the status records it sends to its user interface.

use vstd::prelude::*;
use crate::text;
use crate::text::{chars_of, eq_ignore_case_chars, owned, push_str, str_eq};
use crate::runtime::RuntimePhase;
use crate::settings::{OverlayConfig, OverlayPosition, OverlayStyle, OverlayVisibility};

verus! {

// ---------- start-up options ----------

/// How the first-run guide is handled at start-up: `Auto` shows it until it
/// has been completed once, `Always` shows it this time without resetting the
/// stored mark, `Never` skips it this time.
#[derive(Debug, Clone, Copy, PartialEq, Eq, Structural)]
pub enum OnboardingLaunchMode {
    Auto,
    Always,
    Never,
}

/// `s` without the prefix `p`, when it starts with it.
pub open spec fn strip_prefix(s: Seq<char>, p: Seq<char>) -> Option<Seq<char>> {
    if text::starts_with_seq(s, p) {
        Some(s.skip(p.len() as int))
    } else {
        None
    }
}

/// One argument read: a value is taken from `--onboarding=<v>` or from the
/// argument after `--onboarding`; "always", "never" and "auto" set the mode,
/// any other value leaves it.
pub open spec fn onboarding_step(st: (OnboardingLaunchMode, bool), arg: Seq<char>) -> (OnboardingLaunchMode, bool) {
    let (mode, expect_value) = st;
    let (value, expect_next) = if expect_value {
        (Some(arg), false)
    } else if arg == "--onboarding"@ {
        (None, true)
    } else {
        (strip_prefix(arg, "--onboarding="@), false)
    };
    let next_mode = match value {
        Some(v) => if v == "always"@ {
            OnboardingLaunchMode::Always
        } else if v == "never"@ {
            OnboardingLaunchMode::Never
        } else if v == "auto"@ {
            OnboardingLaunchMode::Auto
        } else {
            mode
        },
        None => mode,
    };
    (next_mode, expect_next)
}

pub open spec fn onboarding_scan(args: Seq<Seq<char>>) -> (OnboardingLaunchMode, bool)
    decreases args.len(),
{
    if args.len() == 0 {
        (OnboardingLaunchMode::Auto, false)
    } else {
        onboarding_step(onboarding_scan(args.drop_last()), args.last())
    }
}

fn strip_prefix_exec(s: &str, p: &str) -> (r: Option<Vec<char>>)
    ensures
        match r {
            Some(v) => strip_prefix(s@, p@) == Some(v@),
            None => strip_prefix(s@, p@).is_none(),
        },
{
    let cs = chars_of(s);
    let ps = chars_of(p);
    if text::starts_with_chars(cs.as_slice(), ps.as_slice()) {
        let rest = text::slice_to_vec(cs.as_slice(), ps.len(), cs.len());
        assert(rest@ =~= s@.skip(p@.len() as int));
        Some(rest)
    } else {
        None
    }
}

fn mode_for(v: &[char], mode: OnboardingLaunchMode) -> (r: OnboardingLaunchMode)
    ensures
        r == (if v@ == "always"@ {
            OnboardingLaunchMode::Always
        } else if v@ == "never"@ {
            OnboardingLaunchMode::Never
        } else if v@ == "auto"@ {
            OnboardingLaunchMode::Auto
        } else {
            mode
        }),
{
    if text::eq_lit(v, "always") {
        OnboardingLaunchMode::Always
    } else if text::eq_lit(v, "never") {
        OnboardingLaunchMode::Never
    } else if text::eq_lit(v, "auto") {
        OnboardingLaunchMode::Auto
    } else {
        mode
    }
}

/// The first-run guide mode named on the command line (the last valid value
/// wins; `Auto` by default).
pub fn parse_onboarding_launch_mode(args: &[String]) -> (r: OnboardingLaunchMode)
    ensures
        r == onboarding_scan(text::views(args@)).0,
{
    let mut mode = OnboardingLaunchMode::Auto;
    let mut expect_value = false;
    let mut i: usize = 0;
    assert(text::views(args@.take(0)) =~= Seq::<Seq<char>>::empty());
    while i < args.len()
        invariant
            i <= args@.len(),
            (mode, expect_value) == onboarding_scan(text::views(args@.take(i as int))),
        decreases args.len() - i,
    {
        proof {
            let a = text::views(args@.take(i + 1));
            assert(a.drop_last() =~= text::views(args@.take(i as int)));
            assert(a.last() == args@[i as int]@);
        }
        let arg = args[i].as_str();
        if expect_value {
            expect_value = false;
            let v = chars_of(arg);
            mode = mode_for(v.as_slice(), mode);
        } else if str_eq(arg, "--onboarding") {
            expect_value = true;
        } else {
            match strip_prefix_exec(arg, "--onboarding=") {
                Some(v) => {
                    mode = mode_for(v.as_slice(), mode);
                },
                None => {},
            }
        }
        i += 1;
    }
    assert(args@.take(args@.len() as int) =~= args@);
    mode
}

// ---------- overlay ----------

/// What the on-demand overlay does on a state change.
#[derive(Debug, Clone, Copy, PartialEq, Eq, Structural)]
pub enum OnDemandOverlayAction {
    Show,
    Hide,
    HideSuccessAfterDwell,
    Keep,
}

/// Session states show the overlay (an error always: it stays until the user
/// dismisses or retries); success hides it after a short dwell unless a
/// continuous session goes on; idle hides it; anything else keeps it.
pub open spec fn overlay_action(state: Seq<char>, continuous: bool) -> OnDemandOverlayAction {
    if state == "listening"@ || state == "transcribing"@ || state == "preview"@ || state
        == "sending"@ || state == "error"@ {
        OnDemandOverlayAction::Show
    } else if state == "success"@ && !continuous {
        OnDemandOverlayAction::HideSuccessAfterDwell
    } else if state == "idle"@ {
        OnDemandOverlayAction::Hide
    } else {
        OnDemandOverlayAction::Keep
    }
}

pub fn on_demand_overlay_action(state: &str, continuous: bool) -> (r: OnDemandOverlayAction)
    ensures
        r == overlay_action(state@, continuous),
{
    let shown = str_eq(state, "listening") || str_eq(state, "transcribing") || str_eq(
        state,
        "preview",
    ) || str_eq(state, "sending") || str_eq(state, "error");
    if shown {
        OnDemandOverlayAction::Show
    } else if str_eq(state, "success") && !continuous {
        OnDemandOverlayAction::HideSuccessAfterDwell
    } else if str_eq(state, "idle") {
        OnDemandOverlayAction::Hide
    } else {
        OnDemandOverlayAction::Keep
    }
}

/// What the overlay window does on a state change, for each visibility
/// setting: `Always` shows it during sessions and hides it at idle only when
/// the runtime is not running (while running it doubles as a run indicator);
/// `OnDemand` follows [`overlay_action`]; `Never` keeps it hidden.
pub open spec fn overlay_step(visibility: crate::settings::OverlayVisibility, state: Seq<char>, continuous: bool, running: bool) -> OnDemandOverlayAction {
    match visibility {
        crate::settings::OverlayVisibility::Always => if state == "idle"@ && !running {
            OnDemandOverlayAction::Hide
        } else if state != "idle"@ {
            OnDemandOverlayAction::Show
        } else {
            OnDemandOverlayAction::Keep
        },
        crate::settings::OverlayVisibility::OnDemand => overlay_action(state, continuous),
        crate::settings::OverlayVisibility::Never => OnDemandOverlayAction::Hide,
    }
}

pub fn overlay_visibility_action(
    visibility: crate::settings::OverlayVisibility,
    state: &str,
    continuous: bool,
    running: bool,
) -> (r: OnDemandOverlayAction)
    ensures
        r == overlay_step(visibility, state@, continuous, running),
{
    match visibility {
        crate::settings::OverlayVisibility::Always => {
            let idle = str_eq(state, "idle");
            if idle && !running {
                OnDemandOverlayAction::Hide
            } else if !idle {
                OnDemandOverlayAction::Show
            } else {
                OnDemandOverlayAction::Keep
            }
        },
        crate::settings::OverlayVisibility::OnDemand => on_demand_overlay_action(state, continuous),
        crate::settings::OverlayVisibility::Never => OnDemandOverlayAction::Hide,
    }
}

/// What the exclusive-fullscreen watch does each second.
#[derive(Debug, Clone, Copy, PartialEq, Eq, Structural)]
pub enum FullscreenAction {
    /// The game went fullscreen: hide the overlay and warn once.
    HideAndWarn,
    /// The game left fullscreen: show the overlay again.
    Restore,
    Nothing,
}

/// One tick of the fullscreen watch, from whether it has warned and whether
/// the game is fullscreen now: hide and warn on entering fullscreen; on
/// leaving it, show the overlay again only for the `Always` setting while
/// the runtime runs. Gives the action and the new warned flag.
pub open spec fn fullscreen_tick(warned: bool, fullscreen: bool, always: bool, running: bool) -> (FullscreenAction, bool) {
    if fullscreen && !warned {
        (FullscreenAction::HideAndWarn, true)
    } else if !fullscreen && warned {
        (if always && running {
            FullscreenAction::Restore
        } else {
            FullscreenAction::Nothing
        }, false)
    } else {
        (FullscreenAction::Nothing, warned)
    }
}

pub fn fullscreen_step(warned: bool, fullscreen: bool, always: bool, running: bool) -> (r: (FullscreenAction, bool))
    ensures
        r == fullscreen_tick(warned, fullscreen, always, running),
{
    if fullscreen && !warned {
        (FullscreenAction::HideAndWarn, true)
    } else if !fullscreen && warned {
        let action = if always && running {
            FullscreenAction::Restore
        } else {
            FullscreenAction::Nothing
        };
        (action, false)
    } else {
        (FullscreenAction::Nothing, warned)
    }
}

// ---------- hotkey back-ends ----------

/// The hotkey back-end in use.
#[derive(Debug, Clone, Copy, PartialEq, Eq, Structural)]
pub enum ActiveBackend {
    /// No back-end registered.
    Off,
    /// Low-level keyboard hook.
    LlHook,
    /// `RegisterHotKey` through the global-shortcut plugin.
    Plugin,
}

impl ActiveBackend {
    pub fn label(&self) -> (r: &'static str)
        ensures
            r@ == match *self {
                ActiveBackend::Off => "none"@,
                ActiveBackend::LlHook => "llhook"@,
                ActiveBackend::Plugin => "register"@,
            },
    {
        match self {
            ActiveBackend::Off => "none",
            ActiveBackend::LlHook => "llhook",
            ActiveBackend::Plugin => "register",
        }
    }
}

/// What to do with the channel key setting when the main key is (re)applied.
pub enum CycleKeyPlan {
    /// No channel key configured.
    Skip,
    /// It parses to the same combo as the main key: not registered, with
    /// this message.
    Conflict(String),
    /// Register this key.
    Register(String),
}

/// A blank setting registers nothing; a key that clashes with the main key
/// is refused with a message; any other key is registered.
pub fn cycle_key_plan(cycle: &str, main_key: &str) -> (r: CycleKeyPlan)
    ensures
        text::trim(cycle@).len() == 0 ==> r is Skip,
        text::trim(cycle@).len() > 0 && crate::hotkey::combos_conflict_spec(cycle@, main_key@)
            ==> r is Conflict && r->Conflict_0@ == "频道切换热键「"@ + cycle@ + "」与录制热键冲突，未注册"@,
        text::trim(cycle@).len() > 0 && !crate::hotkey::combos_conflict_spec(cycle@, main_key@)
            ==> r is Register && r->Register_0@ == cycle@,
{
    if text::is_blank(cycle) {
        proof {
            text::lemma_trim_empty_iff(cycle@);
        }
        return CycleKeyPlan::Skip;
    }
    proof {
        text::lemma_trim_empty_iff(cycle@);
    }
    if crate::hotkey::combos_conflict(cycle, main_key) {
        let mut m = owned("频道切换热键「");
        push_str(&mut m, cycle);
        push_str(&mut m, "」与录制热键冲突，未注册");
        CycleKeyPlan::Conflict(m)
    } else {
        CycleKeyPlan::Register(owned(cycle))
    }
}

/// Hotkey registration as the settings page shows it.
#[derive(Debug, Clone)]
pub struct HotkeyStatus {
    pub registered: bool,
    pub key: Option<String>,
    /// Last registration failure (cleared on success).
    pub error: Option<String>,
    /// "llhook", "register" or "none".
    pub backend: String,
    /// Channel key in effect.
    pub cycle_key: Option<String>,
    /// Last failure of the channel key.
    pub cycle_error: Option<String>,
}

/// The input self-check before hotkey capture: `available` when the system
/// accepted the probe input; `hook_verified` false only means the synthetic
/// events were not seen back (a real key press still confirms the hook).
#[derive(Debug, Clone)]
pub struct InputEnvironmentCheck {
    pub available: bool,
    pub hook_verified: bool,
    pub observed: usize,
    pub expected: usize,
    pub detail: Option<String>,
}

/// Keys that games and the system commonly use.
pub open spec fn common_game_keys() -> Seq<Seq<char>> {
    seq![
        "F1"@, "F2"@, "F3"@, "F4"@, "F5"@, "F6"@, "F7"@, "F9"@, "F10"@, "F11"@, "F12"@, "Tab"@,
        "Space"@, "Enter"@, "Shift"@, "Control"@, "Alt"@,
    ]
}

pub open spec fn is_common_key(key: Seq<char>) -> bool {
    exists|i: int|
        0 <= i < common_game_keys().len() && text::eq_ignore_case(#[trigger] common_game_keys()[i], key)
}

/// A hint when the key is a common game or system key (ASCII case ignored).
pub fn detect_conflicts(key: &str) -> (r: Vec<String>)
    ensures
        is_common_key(key@) ==> r@.len() == 1 && r@[0]@ == "「"@ + key@ + "」是常见游戏/系统键位，可能与游戏内操作冲突"@,
        !is_common_key(key@) ==> r@.len() == 0,
{
    let keys: [&str; 17] = [
        "F1",
        "F2",
        "F3",
        "F4",
        "F5",
        "F6",
        "F7",
        "F9",
        "F10",
        "F11",
        "F12",
        "Tab",
        "Space",
        "Enter",
        "Shift",
        "Control",
        "Alt",
    ];
    let target = chars_of(key);
    let mut hit = false;
    let mut i: usize = 0;
    while i < 17
        invariant
            i <= 17,
            target@ == key@,
            keys@.len() == 17,
            forall|k: int| 0 <= k < 17 ==> (#[trigger] keys@[k])@ == common_game_keys()[k],
            hit ==> is_common_key(key@),
            !hit ==> forall|k: int|
                0 <= k < i ==> !text::eq_ignore_case(#[trigger] common_game_keys()[k], key@),
        decreases 17 - i,
    {
        let c = chars_of(keys[i]);
        if eq_ignore_case_chars(c.as_slice(), target.as_slice()) {
            hit = true;
        }
        i += 1;
    }
    let mut out: Vec<String> = Vec::new();
    if hit {
        let mut m = owned("「");
        push_str(&mut m, key);
        push_str(&mut m, "」是常见游戏/系统键位，可能与游戏内操作冲突");
        out.push(m);
    }
    out
}

// ---------- status records ----------

/// Elevation of the application and of the active game's process (`None`
/// when unknown); `supported` is false where elevation means nothing.
#[derive(Debug, Clone)]
pub struct ElevationStatus {
    pub elevated: bool,
    pub active_game_elevated: Option<bool>,
    pub supported: bool,
}

/// The models directory in effect.
#[derive(Debug, Clone)]
pub struct ModelsDirInfo {
    pub dir: String,
    pub is_default: bool,
}

/// The result of moving the models directory: entries moved and entries that
/// failed (to be downloaded again).
#[derive(Debug, Clone)]
pub struct ModelsDirMigration {
    pub dir: String,
    pub moved: Vec<String>,
    pub failed: Vec<String>,
}

/// The runtime as the user interface sees it.
#[derive(Debug, Clone)]
pub struct RuntimeStatus {
    /// "stopped", "starting", "running" or "stopping".
    pub phase: String,
    pub restart_needed: bool,
    pub engine_id: Option<String>,
    pub engine_name: Option<String>,
    pub model_id: Option<String>,
    pub interaction_mode: Option<String>,
    /// Step of a transition ("warmup", "hotkey", "overlay", "unload").
    pub stage: Option<String>,
}

// ---------- start and stop requests ----------

/// What the shell does with a start or stop request in the current phase.
#[derive(Debug, Clone, PartialEq, Eq)]
pub enum RuntimeRequest {
    /// go through with the request
    Proceed,
    /// running with a changed engine, model or session: stop, then start
    Restart,
    /// already where the request leads: report the current status
    Report,
    /// a start or stop is under way: refuse with this message
    Busy(String),
}

/// The refusal during a transition: "运行时正在启动，请稍候" while starting,
/// "运行时正在停止，请稍候" otherwise.
pub open spec fn busy_message(p: RuntimePhase) -> Seq<char> {
    if p == RuntimePhase::Starting {
        "运行时正在启动，请稍候"@
    } else {
        "运行时正在停止，请稍候"@
    }
}

fn busy(p: RuntimePhase) -> (r: RuntimeRequest)
    ensures
        r matches RuntimeRequest::Busy(m) && m@ == busy_message(p),
{
    if p == RuntimePhase::Starting {
        RuntimeRequest::Busy(owned("运行时正在启动，请稍候"))
    } else {
        RuntimeRequest::Busy(owned("运行时正在停止，请稍候"))
    }
}

/// A start request: from Stopped it proceeds; while running it restarts when
/// something changed and otherwise reports; during a transition it is refused.
pub fn start_request(phase: RuntimePhase, restart_needed: bool) -> (r: RuntimeRequest)
    ensures
        phase == RuntimePhase::Stopped ==> r == RuntimeRequest::Proceed,
        phase == RuntimePhase::Running && restart_needed ==> r == RuntimeRequest::Restart,
        phase == RuntimePhase::Running && !restart_needed ==> r == RuntimeRequest::Report,
        (phase == RuntimePhase::Starting || phase == RuntimePhase::Stopping) ==> (r matches RuntimeRequest::Busy(m)
            && m@ == busy_message(phase)),
{
    match phase {
        RuntimePhase::Running => if restart_needed {
            RuntimeRequest::Restart
        } else {
            RuntimeRequest::Report
        },
        RuntimePhase::Stopped => RuntimeRequest::Proceed,
        _ => busy(phase),
    }
}

/// A stop request: from Running it proceeds; when stopped it reports; during
/// a transition it is refused.
pub fn stop_request(phase: RuntimePhase) -> (r: RuntimeRequest)
    ensures
        phase == RuntimePhase::Running ==> r == RuntimeRequest::Proceed,
        phase == RuntimePhase::Stopped ==> r == RuntimeRequest::Report,
        (phase == RuntimePhase::Starting || phase == RuntimePhase::Stopping) ==> (r matches RuntimeRequest::Busy(m)
            && m@ == busy_message(phase)),
{
    match phase {
        RuntimePhase::Stopped => RuntimeRequest::Report,
        RuntimePhase::Running => RuntimeRequest::Proceed,
        _ => busy(phase),
    }
}

/// The overlay when the runtime has started.
#[derive(Debug, Clone, Copy, PartialEq, Eq, Structural)]
pub enum StartupOverlay {
    /// show it without taking the focus
    Show,
    Hide,
    /// keep it hidden and warn that a game holds exclusive full screen
    HideAndWarn,
}

/// The overlay at start: shown for `Always` unless a game is known to hold
/// exclusive full screen (then hidden with a warning); hidden otherwise.
pub fn startup_overlay(visibility: OverlayVisibility, exclusive_fullscreen: Option<bool>) -> (r:
    StartupOverlay)
    ensures
        r == (match visibility {
            OverlayVisibility::Always => if exclusive_fullscreen == Some(true) {
                StartupOverlay::HideAndWarn
            } else {
                StartupOverlay::Show
            },
            _ => StartupOverlay::Hide,
        }),
{
    match visibility {
        OverlayVisibility::Always => match exclusive_fullscreen {
            Some(true) => StartupOverlay::HideAndWarn,
            _ => StartupOverlay::Show,
        },
        _ => StartupOverlay::Hide,
    }
}

// ---------- overlay geometry ----------

/// The screen area windows may use on a monitor (physical pixels).
#[derive(Debug, Clone, Copy, PartialEq, Eq, Structural)]
pub struct WorkArea {
    pub left: i32,
    pub top: i32,
    pub right: i32,
    pub bottom: i32,
}

/// Where the overlay window goes and how large it is (physical pixels).
#[derive(Debug, Clone, Copy, PartialEq, Eq, Structural)]
pub struct OverlayRect {
    pub x: i32,
    pub y: i32,
    pub w: i32,
    pub h: i32,
}

/// The largest DPI whose scaled sizes fit the 32-bit arithmetic of the
/// geometry.
pub const MAX_DPI: u32 = 8259552;
/// The largest distance of a coordinate from the origin for which the
/// geometry's 32-bit arithmetic cannot overflow.
pub const MAX_COORD: i32 = 536870912;

/// The monitor's DPI, 96 when it is unknown (0).
pub open spec fn effective_dpi(dpi: u32) -> int {
    if dpi == 0 {
        96
    } else {
        dpi as int
    }
}

/// Logical pixels in physical pixels at `dpi`, rounded up.
pub open spec fn scaled(logical: int, dpi: int) -> int {
    (logical * dpi + 95) / 96
}

/// The window size of a style: card 480×120, capsule 520×64 logical pixels.
pub open spec fn overlay_size(style: OverlayStyle, dpi: int) -> (int, int) {
    match style {
        OverlayStyle::Card => (scaled(480, dpi), scaled(120, dpi)),
        OverlayStyle::Capsule => (scaled(520, dpi), scaled(64, dpi)),
    }
}

/// The dragged position, when the overlay is placed by one.
pub open spec fn custom_point(o: OverlayConfig) -> Option<(i32, i32)> {
    match (o.position, o.custom_x, o.custom_y) {
        (OverlayPosition::Custom, Some(x), Some(y)) => Some((x, y)),
        _ => None,
    }
}

pub open spec fn clamped(v: int, lo: int, hi: int) -> int {
    if v < lo {
        lo
    } else if v > hi {
        hi
    } else {
        v
    }
}

/// Division truncating toward zero, as Rust's `/` on integers does.
pub open spec fn trunc_div(a: int, b: int) -> int {
    if a >= 0 {
        a / b
    } else {
        -((-a) / b)
    }
}

/// Where the window's top-left corner goes: `Auto` centres a card and puts
/// a capsule bottom centre 48 logical pixels above the work area's bottom;
/// the fixed places keep 24 logical pixels from the edges; a dragged place is
/// clamped into the work area (the centre when none was recorded).
pub open spec fn overlay_origin(o: OverlayConfig, dpi: int, wa: WorkArea) -> (int, int) {
    let (w, h) = overlay_size(o.style, dpi);
    let gap = scaled(24, dpi);
    let left = wa.left + gap;
    let center_x = wa.left + trunc_div(wa.right - wa.left - w, 2);
    let right = wa.right - w - gap;
    let top = wa.top + gap;
    let center_y = wa.top + trunc_div(wa.bottom - wa.top - h, 2);
    let bottom = wa.bottom - h - gap;
    match o.position {
        OverlayPosition::Auto => match o.style {
            OverlayStyle::Card => (center_x, center_y),
            OverlayStyle::Capsule => (center_x, wa.bottom - h - scaled(48, dpi)),
        },
        OverlayPosition::TopLeft => (left, top),
        OverlayPosition::TopCenter => (center_x, top),
        OverlayPosition::TopRight => (right, top),
        OverlayPosition::Center => (center_x, center_y),
        OverlayPosition::BottomLeft => (left, bottom),
        OverlayPosition::BottomCenter => (center_x, bottom),
        OverlayPosition::BottomRight => (right, bottom),
        OverlayPosition::Custom => {
            let (x, y) = match custom_point(o) {
                Some(p) => (p.0 as int, p.1 as int),
                None => (center_x, center_y),
            };
            (clamped(x, wa.left as int, wa.right - w), clamped(y, wa.top as int, wa.bottom - h))
        },
    }
}

fn scale(logical: u32, dpi: u32) -> (r: i32)
    requires
        logical <= 520,
        1 <= dpi <= MAX_DPI,
    ensures
        r == scaled(logical as int, dpi as int),
        0 <= r <= 44739240,
{
    assert(logical * dpi <= 520 * 8259552) by (nonlinear_arith)
        requires
            logical <= 520,
            dpi <= 8259552,
    ;
    let v: u32 = logical * dpi;
    ((v + 95) / 96) as i32
}

fn half(v: i32) -> (r: i32)
    ensures
        r == trunc_div(v as int, 2),
{
    v / 2
}

/// The overlay's window rectangle on a monitor with `dpi` and work area `wa`.
pub fn overlay_layout(o: &OverlayConfig, dpi: u32, wa: WorkArea) -> (r: OverlayRect)
    requires
        dpi <= MAX_DPI,
        -MAX_COORD <= wa.left <= MAX_COORD,
        -MAX_COORD <= wa.top <= MAX_COORD,
        -MAX_COORD <= wa.right <= MAX_COORD,
        -MAX_COORD <= wa.bottom <= MAX_COORD,
        o.position == OverlayPosition::Custom ==> wa.left <= wa.right - overlay_size(
            o.style,
            effective_dpi(dpi),
        ).0 && wa.top <= wa.bottom - overlay_size(o.style, effective_dpi(dpi)).1,
    ensures
        (r.w as int, r.h as int) == overlay_size(o.style, effective_dpi(dpi)),
        r.x == overlay_origin(*o, effective_dpi(dpi), wa).0,
        r.y == overlay_origin(*o, effective_dpi(dpi), wa).1,
{
    let d: u32 = if dpi == 0 {
        96
    } else {
        dpi
    };
    let (w, h) = match o.style {
        OverlayStyle::Card => (scale(480, d), scale(120, d)),
        OverlayStyle::Capsule => (scale(520, d), scale(64, d)),
    };
    let gap = scale(24, d);
    let left = wa.left + gap;
    let center_x = wa.left + half(wa.right - wa.left - w);
    let right = wa.right - w - gap;
    let top = wa.top + gap;
    let center_y = wa.top + half(wa.bottom - wa.top - h);
    let bottom = wa.bottom - h - gap;
    let (x, y) = match o.position {
        OverlayPosition::Auto => match o.style {
            OverlayStyle::Card => (center_x, center_y),
            OverlayStyle::Capsule => (center_x, wa.bottom - h - scale(48, d)),
        },
        OverlayPosition::TopLeft => (left, top),
        OverlayPosition::TopCenter => (center_x, top),
        OverlayPosition::TopRight => (right, top),
        OverlayPosition::Center => (center_x, center_y),
        OverlayPosition::BottomLeft => (left, bottom),
        OverlayPosition::BottomCenter => (center_x, bottom),
        OverlayPosition::BottomRight => (right, bottom),
        OverlayPosition::Custom => {
            let (cx, cy) = match (o.custom_x, o.custom_y) {
                (Some(x), Some(y)) => (x, y),
                _ => (center_x, center_y),
            };
            let x = if cx < wa.left {
                wa.left
            } else if cx > wa.right - w {
                wa.right - w
            } else {
                cx
            };
            let y = if cy < wa.top {
                wa.top
            } else if cy > wa.bottom - h {
                wa.bottom - h
            } else {
                cy
            };
            (x, y)
        },
    };
    OverlayRect { x, y, w, h }
}

/// The point whose monitor holds a dragged overlay: the centre of the window
/// at its recorded place; `None` when the overlay is not placed by a drag.
pub fn overlay_probe_point(o: &OverlayConfig, dpi: u32) -> (r: Option<(i32, i32)>)
    requires
        dpi <= MAX_DPI,
        o.custom_x is Some ==> -MAX_COORD <= o.custom_x->0 <= MAX_COORD,
        o.custom_y is Some ==> -MAX_COORD <= o.custom_y->0 <= MAX_COORD,
    ensures
        match custom_point(*o) {
            Some(p) => r == Some((
                (p.0 + trunc_div(overlay_size(o.style, effective_dpi(dpi)).0, 2)) as i32,
                (p.1 + trunc_div(overlay_size(o.style, effective_dpi(dpi)).1, 2)) as i32,
            )),
            None => r is None,
        },
{
    let d: u32 = if dpi == 0 {
        96
    } else {
        dpi
    };
    let (w, h) = match o.style {
        OverlayStyle::Card => (scale(480, d), scale(120, d)),
        OverlayStyle::Capsule => (scale(520, d), scale(64, d)),
    };
    match (o.position, o.custom_x, o.custom_y) {
        (OverlayPosition::Custom, Some(x), Some(y)) => Some((x + half(w), y + half(h))),
        _ => None,
    }
}

// ---------- model readiness at start ----------

/// Pause before checking a model's readiness again (ms).
pub const READY_RETRY_DELAY_MS: u64 = 300;
/// Checks after the first failed one before giving up.
pub const READY_RETRIES: u32 = 3;

/// What the start does after a readiness check of the model.
#[derive(Debug, Clone, PartialEq, Eq)]
pub enum ReadinessStep {
    /// go on with the warm-up
    Ready,
    /// wait `READY_RETRY_DELAY_MS` and check again (a virus scan or a file
    /// lock can make a check fail for a moment)
    Retry,
    /// give up with this message
    Fail(String),
}

/// The message when the model's files stay incomplete.
pub open spec fn incomplete_model_message(model_id: Seq<char>, missing: Seq<Seq<char>>) -> Seq<char> {
    "模型「"@ + model_id + "」文件不齐备："@ + text::joined_by(missing, "、"@)
        + "。请在「设置 → 高级」重新下载"@
}

/// After a readiness check: ready goes on; a failed check is retried until
/// `READY_RETRIES` retries have failed too (`failed_before` counts the failed
/// checks before this one), then the start fails naming the missing files.
pub fn readiness_step(ready: bool, failed_before: u32, model_id: &str, missing: &[String]) -> (r:
    ReadinessStep)
    ensures
        ready ==> r == ReadinessStep::Ready,
        !ready && failed_before < READY_RETRIES ==> r == ReadinessStep::Retry,
        !ready && failed_before >= READY_RETRIES ==> (r matches ReadinessStep::Fail(m) && m@
            == incomplete_model_message(model_id@, text::views(missing@))),
{
    if ready {
        return ReadinessStep::Ready;
    }
    if failed_before < READY_RETRIES {
        return ReadinessStep::Retry;
    }
    let mut msg = owned("模型「");
    push_str(&mut msg, model_id);
    push_str(&mut msg, "」文件不齐备：");
    text::push_joined(&mut msg, missing, "、");
    push_str(&mut msg, "。请在「设置 → 高级」重新下载");
    ReadinessStep::Fail(msg)
}

// ---------- the stages of a start ----------

/// The stages a start goes through, in this order: the model's readiness,
/// its warm-up, the hotkey's registration, the overlay.
#[derive(Debug, Clone, Copy, PartialEq, Eq, Structural)]
pub enum StartStage {
    Readiness,
    Warmup,
    Hotkey,
    Overlay,
}

/// What the start does once a stage is over.
#[derive(Debug, Clone, PartialEq, Eq)]
pub enum StartStep {
    /// go on with this stage
    Next(StartStage),
    /// every stage went through: the runtime runs
    Started,
    /// the start fails with `error`; with `roll_back` the runtime settings
    /// are deactivated and the engine unloaded first, so that nothing is
    /// left half started
    Fail { error: String, roll_back: bool },
}

/// The stage after `s`, if any.
pub open spec fn stage_after(s: StartStage) -> Option<StartStage> {
    match s {
        StartStage::Readiness => Some(StartStage::Warmup),
        StartStage::Warmup => Some(StartStage::Hotkey),
        StartStage::Hotkey => Some(StartStage::Overlay),
        StartStage::Overlay => None,
    }
}

/// After a stage: on success the next stage follows, and after the overlay
/// the runtime runs; a failure ends the start with its error, and only a
/// failed hotkey registration rolls back (the engine is warm by then).
pub fn start_stage_done(stage: StartStage, outcome: Result<(), String>) -> (r: StartStep)
    ensures
        outcome is Ok ==> match stage_after(stage) {
            Some(n) => r matches StartStep::Next(m) && m == n,
            None => r is Started,
        },
        outcome matches Err(e) ==> (r matches StartStep::Fail { error, roll_back } && error@ == e@
            && roll_back == (stage == StartStage::Hotkey)),
{
    match outcome {
        Ok(()) => match stage {
            StartStage::Readiness => StartStep::Next(StartStage::Warmup),
            StartStage::Warmup => StartStep::Next(StartStage::Hotkey),
            StartStage::Hotkey => StartStep::Next(StartStage::Overlay),
            StartStage::Overlay => StartStep::Started,
        },
        Err(error) => {
            let roll_back = match stage {
                StartStage::Hotkey => true,
                _ => false,
            };
            StartStep::Fail { error, roll_back }
        },
    }
}

} // verus!

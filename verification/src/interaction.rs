//! Session interaction policy: begin trigger × end trigger × post-finalize
//! action, assembled from the configuration instead of hard-coded branches.
//!
//! The `interactionMode` preset wins; without one (explicit null) the policy is
//! derived from the legacy `hotkey.mode` and `autoSend` fields. Solo is one-shot
//! plus the continuous flag: after sending, it goes back to listening.

use vstd::prelude::*;

use crate::hotkey::HotkeyMode;

verus! {

/// How a session begins.
#[derive(Debug, Clone, Copy, PartialEq, Eq, Structural)]
pub enum BeginTrigger {
    /// hold the hotkey
    HotkeyHold,
    /// tap the hotkey
    HotkeyToggle,
}

/// How a session ends (Esc cancel is always available and not listed).
#[derive(Debug, Clone, Copy, PartialEq, Eq, Structural)]
pub enum EndTrigger {
    /// release the hotkey
    HotkeyRelease,
    /// tap the hotkey again
    HotkeyPress,
    /// voice activity detection hears silence (a hotkey press still forces the end)
    VadSilence,
}

/// What happens to the transcript.
#[derive(Debug, Clone, Copy, PartialEq, Eq, Structural)]
pub enum PostFinalize {
    /// send directly
    SendDirect,
    /// preview, then the trigger key confirms the send
    PreviewConfirm,
}

/// Interaction presets (`interactionMode`).
#[derive(Debug, Clone, Copy, PartialEq, Eq, Structural)]
pub enum InteractionMode {
    /// walkie-talkie: hold, release, send
    PushToTalk,
    /// recorder: tap, tap, preview
    Dictation,
    /// say one sentence: tap, silence, send
    OneShot,
    /// solo: one-shot that keeps listening after each send
    Solo,
}

/// The configuration fields the policy is derived from.
#[derive(Debug, Clone, Copy, PartialEq, Eq, Structural)]
pub struct InteractionConfig {
    /// preset (`interactionMode`); `None` is the custom legacy path
    pub interaction_mode: Option<InteractionMode>,
    /// legacy `hotkey.mode`
    pub hotkey_mode: HotkeyMode,
    /// legacy `autoSend`
    pub auto_send: bool,
}

/// Assembled policy read by the orchestrator's hotkey routing.
#[derive(Debug, Clone, Copy, PartialEq, Eq, Structural)]
pub struct InteractionPolicy {
    pub begin: BeginTrigger,
    pub end: EndTrigger,
    pub post: PostFinalize,
    /// continuous mode (solo): after sending, go back to listening; a tap while
    /// listening stops the session
    pub continuous: bool,
}

pub open spec fn preset_policy(mode: InteractionMode) -> InteractionPolicy {
    match mode {
        InteractionMode::PushToTalk => InteractionPolicy {
            begin: BeginTrigger::HotkeyHold,
            end: EndTrigger::HotkeyRelease,
            post: PostFinalize::SendDirect,
            continuous: false,
        },
        InteractionMode::Dictation => InteractionPolicy {
            begin: BeginTrigger::HotkeyToggle,
            end: EndTrigger::HotkeyPress,
            post: PostFinalize::PreviewConfirm,
            continuous: false,
        },
        InteractionMode::OneShot => InteractionPolicy {
            begin: BeginTrigger::HotkeyToggle,
            end: EndTrigger::VadSilence,
            post: PostFinalize::SendDirect,
            continuous: false,
        },
        InteractionMode::Solo => InteractionPolicy {
            begin: BeginTrigger::HotkeyToggle,
            end: EndTrigger::VadSilence,
            post: PostFinalize::SendDirect,
            continuous: true,
        },
    }
}

pub open spec fn policy_of(c: InteractionConfig) -> InteractionPolicy {
    match c.interaction_mode {
        Some(m) => preset_policy(m),
        None => InteractionPolicy {
            begin: match c.hotkey_mode {
                HotkeyMode::Hold => BeginTrigger::HotkeyHold,
                HotkeyMode::Toggle => BeginTrigger::HotkeyToggle,
            },
            end: match c.hotkey_mode {
                HotkeyMode::Hold => EndTrigger::HotkeyRelease,
                HotkeyMode::Toggle => EndTrigger::HotkeyPress,
            },
            post: if c.auto_send {
                PostFinalize::SendDirect
            } else {
                PostFinalize::PreviewConfirm
            },
            continuous: false,
        },
    }
}

pub open spec fn effective_mode(c: InteractionConfig) -> HotkeyMode {
    match c.interaction_mode {
        Some(InteractionMode::PushToTalk) => HotkeyMode::Hold,
        Some(_) => HotkeyMode::Toggle,
        None => c.hotkey_mode,
    }
}

pub open spec fn preset_of(p: InteractionPolicy) -> Option<InteractionMode> {
    if p == preset_policy(InteractionMode::PushToTalk) {
        Some(InteractionMode::PushToTalk)
    } else if p == preset_policy(InteractionMode::Dictation) {
        Some(InteractionMode::Dictation)
    } else if p == preset_policy(InteractionMode::Solo) {
        Some(InteractionMode::Solo)
    } else if p == preset_policy(InteractionMode::OneShot) {
        Some(InteractionMode::OneShot)
    } else {
        None
    }
}

/// The hotkey mode the hook must match with: the preset wins, otherwise the
/// legacy `hotkey.mode`. Push-to-talk is Hold; dictation, one-shot and solo are
/// Toggle. Registering the hook with this mode keeps it on the same source as
/// the policy (a push-to-talk release would otherwise never arrive).
pub fn effective_hotkey_mode(settings: &InteractionConfig) -> (r: HotkeyMode)
    ensures
        r == effective_mode(*settings),
{
    match settings.interaction_mode {
        Some(InteractionMode::PushToTalk) => HotkeyMode::Hold,
        Some(InteractionMode::Dictation) | Some(InteractionMode::OneShot) | Some(
            InteractionMode::Solo,
        ) => HotkeyMode::Toggle,
        None => settings.hotkey_mode,
    }
}

impl InteractionPolicy {
    /// Policy of a preset.
    pub fn from_preset(mode: InteractionMode) -> (r: InteractionPolicy)
        ensures
            r == preset_policy(mode),
    {
        match mode {
            InteractionMode::PushToTalk => InteractionPolicy {
                begin: BeginTrigger::HotkeyHold,
                end: EndTrigger::HotkeyRelease,
                post: PostFinalize::SendDirect,
                continuous: false,
            },
            InteractionMode::Dictation => InteractionPolicy {
                begin: BeginTrigger::HotkeyToggle,
                end: EndTrigger::HotkeyPress,
                post: PostFinalize::PreviewConfirm,
                continuous: false,
            },
            InteractionMode::OneShot => InteractionPolicy {
                begin: BeginTrigger::HotkeyToggle,
                end: EndTrigger::VadSilence,
                post: PostFinalize::SendDirect,
                continuous: false,
            },
            InteractionMode::Solo => InteractionPolicy {
                begin: BeginTrigger::HotkeyToggle,
                end: EndTrigger::VadSilence,
                post: PostFinalize::SendDirect,
                continuous: true,
            },
        }
    }

    /// Policy of a configuration: the preset wins; an explicit null derives it
    /// from `hotkey.mode` and `autoSend` (mixed combinations keep their behaviour).
    pub fn from_settings(settings: &InteractionConfig) -> (r: InteractionPolicy)
        ensures
            r == policy_of(*settings),
    {
        if let Some(mode) = settings.interaction_mode {
            return Self::from_preset(mode);
        }
        let (begin, end) = match settings.hotkey_mode {
            HotkeyMode::Hold => (BeginTrigger::HotkeyHold, EndTrigger::HotkeyRelease),
            HotkeyMode::Toggle => (BeginTrigger::HotkeyToggle, EndTrigger::HotkeyPress),
        };
        let post = if settings.auto_send {
            PostFinalize::SendDirect
        } else {
            PostFinalize::PreviewConfirm
        };
        InteractionPolicy { begin, end, post, continuous: false }
    }

    /// The preset this policy is (a mixed combination is `None`, shown as "custom").
    pub fn preset(&self) -> (r: Option<InteractionMode>)
        ensures
            r == preset_of(*self),
    {
        if *self == Self::from_preset(InteractionMode::PushToTalk) {
            Some(InteractionMode::PushToTalk)
        } else if *self == Self::from_preset(InteractionMode::Dictation) {
            Some(InteractionMode::Dictation)
        } else if *self == Self::from_preset(InteractionMode::Solo) {
            Some(InteractionMode::Solo)
        } else if *self == Self::from_preset(InteractionMode::OneShot) {
            Some(InteractionMode::OneShot)
        } else {
            None
        }
    }
}

/// Every preset is recognised from its policy (solo and one-shot differ only
/// in the continuous flag and are never confused).
pub proof fn law_preset_roundtrip(mode: InteractionMode)
    ensures
        preset_of(preset_policy(mode)) == Some(mode),
{
}

/// An explicit preset overrides the legacy fields.
pub proof fn law_preset_overrides_legacy(c: InteractionConfig)
    ensures
        c.interaction_mode matches Some(m) ==> policy_of(c) == preset_policy(m),
{
}

/// The hook's hotkey mode and the policy come from one source: the hook matches
/// in Hold mode exactly when the policy begins on a hold (and so ends on release).
pub proof fn law_hook_mode_agrees_with_policy(c: InteractionConfig)
    ensures
        (effective_mode(c) == HotkeyMode::Hold) == (policy_of(c).begin == BeginTrigger::HotkeyHold),
        (policy_of(c).begin == BeginTrigger::HotkeyHold) == (policy_of(c).end == EndTrigger::HotkeyRelease),
{
}

/// The legacy path has a preset exactly for hold+send (push-to-talk) and
/// toggle+preview (dictation); the mixed combinations have none.
pub proof fn law_legacy_presets(c: InteractionConfig)
    requires
        c.interaction_mode is None,
    ensures
        preset_of(policy_of(c)) == if c.hotkey_mode == HotkeyMode::Hold && c.auto_send {
            Some(InteractionMode::PushToTalk)
        } else if c.hotkey_mode == HotkeyMode::Toggle && !c.auto_send {
            Some(InteractionMode::Dictation)
        } else {
            None
        },
{
}

} // verus!

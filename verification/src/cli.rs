//! Decisions of the command-line tool: how audio devices are described and
//! how `config set` / `config get` read a dotted key.

use vstd::prelude::*;
use crate::text;
use crate::text::{chars_of, contains_lit, owned, push_str, str_eq, string_of};
use crate::json::{Json, JsonValue, child};
use crate::audio::AudioDevice;
use crate::history::HistoryMode;
use crate::settings::{DownloadSource, HotkeyBackend, OverlayPosition, OverlayStyle, OverlayVisibility};
use crate::hotkey::HotkeyMode;
use crate::interaction::InteractionMode;
use crate::orchestrator::OrchestratorState;

verus! {

/// What `str::to_lowercase` gives (Unicode lower case).
pub uninterp spec fn str_lowercase(s: Seq<char>) -> Seq<char>;

/// `str::to_lowercase`.
#[verifier::external_body]
fn to_lowercase(s: &str) -> (r: String)
    ensures
        r@ == str_lowercase(s@),
{
    s.to_lowercase()
}

/// A virtual sound card by its name: the lower-cased name mentions "cable" or
/// "virtual", or the name mentions "虚拟".
pub open spec fn virtual_name(name: Seq<char>, lowered: Seq<char>) -> bool {
    text::contains_seq(lowered, "cable"@) || text::contains_seq(lowered, "virtual"@)
        || text::contains_seq(name, "虚拟"@)
}

/// The keyword test on a name and its lower-cased form.
pub fn looks_virtual_lowered(name: &str, lowered: &str) -> (r: bool)
    ensures
        r == virtual_name(name@, lowered@),
{
    let n = chars_of(name);
    let l = chars_of(lowered);
    let a = contains_lit(l.as_slice(), "cable");
    let b = contains_lit(l.as_slice(), "virtual");
    let c = contains_lit(n.as_slice(), "虚拟");
    a || b || c
}

/// Whether a device name looks like a virtual sound card (VB-CABLE, virtual
/// audio, 虚拟).
pub fn looks_virtual(name: &str) -> (r: bool)
    ensures
        r == virtual_name(name@, str_lowercase(name@)),
{
    let lowered = to_lowercase(name);
    looks_virtual_lowered(name, lowered.as_str())
}

/// The description column of a device line: the name with "[默认]" for the
/// default device, the name when it differs from the id, then "[虚拟声卡]"
/// for a virtual card.
pub open spec fn device_description(id: Seq<char>, name: Seq<char>, is_virtual: bool) -> Seq<char> {
    let head = if id == "default"@ {
        name + " [默认]"@
    } else if id != name {
        name
    } else {
        Seq::empty()
    };
    if is_virtual {
        head + " [虚拟声卡]"@
    } else {
        head
    }
}

pub fn describe_device(id: &str, name: &str) -> (r: String)
    ensures
        r@ == device_description(id@, name@, virtual_name(name@, str_lowercase(name@))),
{
    let mut desc = String::new();
    if str_eq(id, "default") {
        push_str(&mut desc, name);
        push_str(&mut desc, " [默认]");
    } else if !str_eq(id, name) {
        push_str(&mut desc, name);
    }
    if looks_virtual(name) {
        push_str(&mut desc, " [虚拟声卡]");
    }
    desc
}

/// At most `max` characters, with "…" appended when some were cut.
pub open spec fn truncated(s: Seq<char>, max: nat) -> Seq<char> {
    if s.len() <= max {
        s
    } else {
        s.take(max as int) + "…"@
    }
}

pub fn truncate_chars(s: &str, max: usize) -> (r: String)
    ensures
        r@ == truncated(s@, max as nat),
{
    let cs = chars_of(s);
    if cs.len() <= max {
        return owned(s);
    }
    let head = text::slice_to_vec(cs.as_slice(), 0, max);
    assert(s@.subrange(0, max as int) =~= s@.take(max as int));
    let mut r = string_of(head.as_slice());
    push_str(&mut r, "…");
    r
}

// ---------- config set / config get ----------

/// The keys `config set` writes (dotted paths of the configuration file).
pub open spec fn is_settable_key(k: Seq<char>) -> bool {
    ||| k == "hotkey.key"@
    ||| k == "hotkey.mode"@
    ||| k == "hotkeyBackend"@
    ||| k == "sttEngine"@
    ||| k == "activeProfileId"@
    ||| k == "autoSend"@
    ||| k == "audioDeviceId"@
    ||| k == "language"@
    ||| k == "evalRecording"@
    ||| k == "runAsAdminOnStart"@
    ||| k == "interactionMode"@
    ||| k == "vadSilenceMs"@
    ||| k == "history.mode"@
    ||| k == "history.maxRecords"@
    ||| k == "history.includeAudio"@
    ||| k == "download.source"@
    ||| k == "download.ghProxy"@
    ||| k == "overlay.visibility"@
    ||| k == "overlay.style"@
    ||| k == "overlay.position"@
    ||| k == "overlay.draggable"@
    ||| k == "overlay.clickThrough"@
}

/// The settable keys whose value is `true` or `false`.
pub open spec fn is_bool_key(k: Seq<char>) -> bool {
    ||| k == "autoSend"@
    ||| k == "evalRecording"@
    ||| k == "runAsAdminOnStart"@
    ||| k == "history.includeAudio"@
    ||| k == "overlay.draggable"@
    ||| k == "overlay.clickThrough"@
}

/// The names an enumerated key takes, as the configuration file spells them;
/// true for every text of a key that is not enumerated.
pub open spec fn enum_accepts(key: Seq<char>, raw: Seq<char>) -> bool {
    if key == "hotkey.mode"@ {
        raw == "toggle"@ || raw == "hold"@
    } else if key == "hotkeyBackend"@ {
        raw == "auto"@ || raw == "llhook"@ || raw == "register"@
    } else if key == "interactionMode"@ {
        raw == "push-to-talk"@ || raw == "dictation"@ || raw == "one-shot"@ || raw == "solo"@
    } else if key == "history.mode"@ {
        raw == "capped"@ || raw == "keep-all"@ || raw == "off"@
    } else if key == "download.source"@ {
        raw == "auto"@ || raw == "official"@ || raw == "mirror"@
    } else if key == "overlay.visibility"@ {
        raw == "always"@ || raw == "on_demand"@ || raw == "never"@
    } else if key == "overlay.style"@ {
        raw == "card"@ || raw == "capsule"@
    } else if key == "overlay.position"@ {
        ||| raw == "auto"@
        ||| raw == "top_left"@
        ||| raw == "top_center"@
        ||| raw == "top_right"@
        ||| raw == "center"@
        ||| raw == "bottom_left"@
        ||| raw == "bottom_center"@
        ||| raw == "bottom_right"@
        ||| raw == "custom"@
    } else {
        true
    }
}

// ---------- the names of the enumerated settings ----------

/// How the configuration file spells each `HotkeyMode`.
pub open spec fn hotkey_mode_name(v: HotkeyMode) -> Seq<char> {
    match v {
        HotkeyMode::Hold => "hold"@,
        HotkeyMode::Toggle => "toggle"@,
    }
}

/// How the configuration file spells each `HotkeyBackend`.
pub open spec fn hotkey_backend_name(v: HotkeyBackend) -> Seq<char> {
    match v {
        HotkeyBackend::Auto => "auto"@,
        HotkeyBackend::Llhook => "llhook"@,
        HotkeyBackend::Register => "register"@,
    }
}

/// How the configuration file spells each `InteractionMode`.
pub open spec fn interaction_mode_name(v: InteractionMode) -> Seq<char> {
    match v {
        InteractionMode::PushToTalk => "push-to-talk"@,
        InteractionMode::Dictation => "dictation"@,
        InteractionMode::OneShot => "one-shot"@,
        InteractionMode::Solo => "solo"@,
    }
}

/// How the configuration file spells each `HistoryMode`.
pub open spec fn history_mode_name(v: HistoryMode) -> Seq<char> {
    match v {
        HistoryMode::Capped => "capped"@,
        HistoryMode::KeepAll => "keep-all"@,
        HistoryMode::Off => "off"@,
    }
}

/// How the configuration file spells each `DownloadSource`.
pub open spec fn download_source_name(v: DownloadSource) -> Seq<char> {
    match v {
        DownloadSource::Auto => "auto"@,
        DownloadSource::Official => "official"@,
        DownloadSource::Mirror => "mirror"@,
    }
}

/// How the configuration file spells each `OverlayVisibility`.
pub open spec fn overlay_visibility_name(v: OverlayVisibility) -> Seq<char> {
    match v {
        OverlayVisibility::Always => "always"@,
        OverlayVisibility::OnDemand => "on_demand"@,
        OverlayVisibility::Never => "never"@,
    }
}

/// How the configuration file spells each `OverlayStyle`.
pub open spec fn overlay_style_name(v: OverlayStyle) -> Seq<char> {
    match v {
        OverlayStyle::Card => "card"@,
        OverlayStyle::Capsule => "capsule"@,
    }
}

/// How the configuration file spells each `OverlayPosition`.
pub open spec fn overlay_position_name(v: OverlayPosition) -> Seq<char> {
    match v {
        OverlayPosition::Auto => "auto"@,
        OverlayPosition::TopLeft => "top_left"@,
        OverlayPosition::TopCenter => "top_center"@,
        OverlayPosition::TopRight => "top_right"@,
        OverlayPosition::Center => "center"@,
        OverlayPosition::BottomLeft => "bottom_left"@,
        OverlayPosition::BottomCenter => "bottom_center"@,
        OverlayPosition::BottomRight => "bottom_right"@,
        OverlayPosition::Custom => "custom"@,
    }
}

/// The enumerated keys' spellings, enough to tell them apart.
proof fn lemma_enum_key_spellings()
    ensures
        "hotkey.mode"@.len() == 11 && "hotkey.mode"@[1] == 'o',
        "hotkeyBackend"@.len() == 13 && "hotkeyBackend"@[1] == 'o',
        "interactionMode"@.len() == 15 && "interactionMode"@[1] == 'n',
        "history.mode"@.len() == 12 && "history.mode"@[1] == 'i',
        "download.source"@.len() == 15 && "download.source"@[1] == 'o',
        "overlay.visibility"@.len() == 18 && "overlay.visibility"@[1] == 'v',
        "overlay.style"@.len() == 13 && "overlay.style"@[1] == 'v',
        "overlay.position"@.len() == 16 && "overlay.position"@[1] == 'v',
{
    reveal_strlit("hotkey.mode");
    reveal_strlit("hotkeyBackend");
    reveal_strlit("interactionMode");
    reveal_strlit("history.mode");
    reveal_strlit("download.source");
    reveal_strlit("overlay.visibility");
    reveal_strlit("overlay.style");
    reveal_strlit("overlay.position");
}

/// `hotkey.mode` accepts exactly the names of the `HotkeyMode` variants, one name per
/// variant, and its error message lists exactly those names.
pub proof fn law_hotkey_mode_names_accepted(raw: Seq<char>, a: HotkeyMode, b: HotkeyMode)
    ensures
        enum_accepts("hotkey.mode"@, hotkey_mode_name(a)),
        enum_accepts("hotkey.mode"@, raw) ==> exists|v: HotkeyMode| #[trigger] hotkey_mode_name(v) == raw,
        hotkey_mode_name(a) == hotkey_mode_name(b) ==> a == b,
        enum_names("hotkey.mode"@).contains(raw) <==> enum_accepts("hotkey.mode"@, raw),
{
    lemma_enum_key_spellings();
    reveal_strlit("hold");
    assert("hold"@.len() == 4 && "hold"@[1] == 'o');
    reveal_strlit("toggle");
    assert("toggle"@.len() == 6 && "toggle"@[1] == 'o');
    let k = "hotkey.mode"@;
    if enum_accepts(k, raw) {
        if raw == "hold"@ {
            assert(hotkey_mode_name(HotkeyMode::Hold) == raw);
            assert(enum_names(k)[0] == raw);
        } else if raw == "toggle"@ {
            assert(hotkey_mode_name(HotkeyMode::Toggle) == raw);
            assert(enum_names(k)[1] == raw);
        }
    }
    if enum_names(k).contains(raw) {
        let i = choose|i: int| 0 <= i < enum_names(k).len() && enum_names(k)[i] == raw;
        assert(enum_accepts(k, enum_names(k)[i]));
    }
}

/// `hotkeyBackend` accepts exactly the names of the `HotkeyBackend` variants, one name per
/// variant, and its error message lists exactly those names.
pub proof fn law_hotkey_backend_names_accepted(raw: Seq<char>, a: HotkeyBackend, b: HotkeyBackend)
    ensures
        enum_accepts("hotkeyBackend"@, hotkey_backend_name(a)),
        enum_accepts("hotkeyBackend"@, raw) ==> exists|v: HotkeyBackend| #[trigger] hotkey_backend_name(v) == raw,
        hotkey_backend_name(a) == hotkey_backend_name(b) ==> a == b,
        enum_names("hotkeyBackend"@).contains(raw) <==> enum_accepts("hotkeyBackend"@, raw),
{
    lemma_enum_key_spellings();
    reveal_strlit("auto");
    assert("auto"@.len() == 4 && "auto"@[1] == 'u');
    reveal_strlit("llhook");
    assert("llhook"@.len() == 6 && "llhook"@[1] == 'l');
    reveal_strlit("register");
    assert("register"@.len() == 8 && "register"@[1] == 'e');
    let k = "hotkeyBackend"@;
    if enum_accepts(k, raw) {
        if raw == "auto"@ {
            assert(hotkey_backend_name(HotkeyBackend::Auto) == raw);
            assert(enum_names(k)[0] == raw);
        } else if raw == "llhook"@ {
            assert(hotkey_backend_name(HotkeyBackend::Llhook) == raw);
            assert(enum_names(k)[1] == raw);
        } else if raw == "register"@ {
            assert(hotkey_backend_name(HotkeyBackend::Register) == raw);
            assert(enum_names(k)[2] == raw);
        }
    }
    if enum_names(k).contains(raw) {
        let i = choose|i: int| 0 <= i < enum_names(k).len() && enum_names(k)[i] == raw;
        assert(enum_accepts(k, enum_names(k)[i]));
    }
}

/// `interactionMode` accepts exactly the names of the `InteractionMode` variants, one name per
/// variant, and its error message lists exactly those names.
pub proof fn law_interaction_mode_names_accepted(raw: Seq<char>, a: InteractionMode, b: InteractionMode)
    ensures
        enum_accepts("interactionMode"@, interaction_mode_name(a)),
        enum_accepts("interactionMode"@, raw) ==> exists|v: InteractionMode| #[trigger] interaction_mode_name(v) == raw,
        interaction_mode_name(a) == interaction_mode_name(b) ==> a == b,
        enum_names("interactionMode"@).contains(raw) <==> enum_accepts("interactionMode"@, raw),
{
    lemma_enum_key_spellings();
    reveal_strlit("push-to-talk");
    assert("push-to-talk"@.len() == 12 && "push-to-talk"@[1] == 'u');
    reveal_strlit("dictation");
    assert("dictation"@.len() == 9 && "dictation"@[1] == 'i');
    reveal_strlit("one-shot");
    assert("one-shot"@.len() == 8 && "one-shot"@[1] == 'n');
    reveal_strlit("solo");
    assert("solo"@.len() == 4 && "solo"@[1] == 'o');
    let k = "interactionMode"@;
    if enum_accepts(k, raw) {
        if raw == "push-to-talk"@ {
            assert(interaction_mode_name(InteractionMode::PushToTalk) == raw);
            assert(enum_names(k)[0] == raw);
        } else if raw == "dictation"@ {
            assert(interaction_mode_name(InteractionMode::Dictation) == raw);
            assert(enum_names(k)[1] == raw);
        } else if raw == "one-shot"@ {
            assert(interaction_mode_name(InteractionMode::OneShot) == raw);
            assert(enum_names(k)[2] == raw);
        } else if raw == "solo"@ {
            assert(interaction_mode_name(InteractionMode::Solo) == raw);
            assert(enum_names(k)[3] == raw);
        }
    }
    if enum_names(k).contains(raw) {
        let i = choose|i: int| 0 <= i < enum_names(k).len() && enum_names(k)[i] == raw;
        assert(enum_accepts(k, enum_names(k)[i]));
    }
}

/// `history.mode` accepts exactly the names of the `HistoryMode` variants, one name per
/// variant, and its error message lists exactly those names.
pub proof fn law_history_mode_names_accepted(raw: Seq<char>, a: HistoryMode, b: HistoryMode)
    ensures
        enum_accepts("history.mode"@, history_mode_name(a)),
        enum_accepts("history.mode"@, raw) ==> exists|v: HistoryMode| #[trigger] history_mode_name(v) == raw,
        history_mode_name(a) == history_mode_name(b) ==> a == b,
        enum_names("history.mode"@).contains(raw) <==> enum_accepts("history.mode"@, raw),
{
    lemma_enum_key_spellings();
    reveal_strlit("capped");
    assert("capped"@.len() == 6 && "capped"@[1] == 'a');
    reveal_strlit("keep-all");
    assert("keep-all"@.len() == 8 && "keep-all"@[1] == 'e');
    reveal_strlit("off");
    assert("off"@.len() == 3 && "off"@[1] == 'f');
    let k = "history.mode"@;
    if enum_accepts(k, raw) {
        if raw == "capped"@ {
            assert(history_mode_name(HistoryMode::Capped) == raw);
            assert(enum_names(k)[0] == raw);
        } else if raw == "keep-all"@ {
            assert(history_mode_name(HistoryMode::KeepAll) == raw);
            assert(enum_names(k)[1] == raw);
        } else if raw == "off"@ {
            assert(history_mode_name(HistoryMode::Off) == raw);
            assert(enum_names(k)[2] == raw);
        }
    }
    if enum_names(k).contains(raw) {
        let i = choose|i: int| 0 <= i < enum_names(k).len() && enum_names(k)[i] == raw;
        assert(enum_accepts(k, enum_names(k)[i]));
    }
}

/// `download.source` accepts exactly the names of the `DownloadSource` variants, one name per
/// variant, and its error message lists exactly those names.
pub proof fn law_download_source_names_accepted(raw: Seq<char>, a: DownloadSource, b: DownloadSource)
    ensures
        enum_accepts("download.source"@, download_source_name(a)),
        enum_accepts("download.source"@, raw) ==> exists|v: DownloadSource| #[trigger] download_source_name(v) == raw,
        download_source_name(a) == download_source_name(b) ==> a == b,
        enum_names("download.source"@).contains(raw) <==> enum_accepts("download.source"@, raw),
{
    lemma_enum_key_spellings();
    reveal_strlit("auto");
    assert("auto"@.len() == 4 && "auto"@[1] == 'u');
    reveal_strlit("official");
    assert("official"@.len() == 8 && "official"@[1] == 'f');
    reveal_strlit("mirror");
    assert("mirror"@.len() == 6 && "mirror"@[1] == 'i');
    let k = "download.source"@;
    if enum_accepts(k, raw) {
        if raw == "auto"@ {
            assert(download_source_name(DownloadSource::Auto) == raw);
            assert(enum_names(k)[0] == raw);
        } else if raw == "official"@ {
            assert(download_source_name(DownloadSource::Official) == raw);
            assert(enum_names(k)[1] == raw);
        } else if raw == "mirror"@ {
            assert(download_source_name(DownloadSource::Mirror) == raw);
            assert(enum_names(k)[2] == raw);
        }
    }
    if enum_names(k).contains(raw) {
        let i = choose|i: int| 0 <= i < enum_names(k).len() && enum_names(k)[i] == raw;
        assert(enum_accepts(k, enum_names(k)[i]));
    }
}

/// `overlay.visibility` accepts exactly the names of the `OverlayVisibility` variants, one name per
/// variant, and its error message lists exactly those names.
pub proof fn law_overlay_visibility_names_accepted(raw: Seq<char>, a: OverlayVisibility, b: OverlayVisibility)
    ensures
        enum_accepts("overlay.visibility"@, overlay_visibility_name(a)),
        enum_accepts("overlay.visibility"@, raw) ==> exists|v: OverlayVisibility| #[trigger] overlay_visibility_name(v) == raw,
        overlay_visibility_name(a) == overlay_visibility_name(b) ==> a == b,
        enum_names("overlay.visibility"@).contains(raw) <==> enum_accepts("overlay.visibility"@, raw),
{
    lemma_enum_key_spellings();
    reveal_strlit("always");
    assert("always"@.len() == 6 && "always"@[1] == 'l');
    reveal_strlit("on_demand");
    assert("on_demand"@.len() == 9 && "on_demand"@[1] == 'n');
    reveal_strlit("never");
    assert("never"@.len() == 5 && "never"@[1] == 'e');
    let k = "overlay.visibility"@;
    if enum_accepts(k, raw) {
        if raw == "always"@ {
            assert(overlay_visibility_name(OverlayVisibility::Always) == raw);
            assert(enum_names(k)[0] == raw);
        } else if raw == "on_demand"@ {
            assert(overlay_visibility_name(OverlayVisibility::OnDemand) == raw);
            assert(enum_names(k)[1] == raw);
        } else if raw == "never"@ {
            assert(overlay_visibility_name(OverlayVisibility::Never) == raw);
            assert(enum_names(k)[2] == raw);
        }
    }
    if enum_names(k).contains(raw) {
        let i = choose|i: int| 0 <= i < enum_names(k).len() && enum_names(k)[i] == raw;
        assert(enum_accepts(k, enum_names(k)[i]));
    }
}

/// `overlay.style` accepts exactly the names of the `OverlayStyle` variants, one name per
/// variant, and its error message lists exactly those names.
pub proof fn law_overlay_style_names_accepted(raw: Seq<char>, a: OverlayStyle, b: OverlayStyle)
    ensures
        enum_accepts("overlay.style"@, overlay_style_name(a)),
        enum_accepts("overlay.style"@, raw) ==> exists|v: OverlayStyle| #[trigger] overlay_style_name(v) == raw,
        overlay_style_name(a) == overlay_style_name(b) ==> a == b,
        enum_names("overlay.style"@).contains(raw) <==> enum_accepts("overlay.style"@, raw),
{
    lemma_enum_key_spellings();
    reveal_strlit("card");
    assert("card"@.len() == 4 && "card"@[1] == 'a');
    reveal_strlit("capsule");
    assert("capsule"@.len() == 7 && "capsule"@[1] == 'a');
    let k = "overlay.style"@;
    if enum_accepts(k, raw) {
        if raw == "card"@ {
            assert(overlay_style_name(OverlayStyle::Card) == raw);
            assert(enum_names(k)[0] == raw);
        } else if raw == "capsule"@ {
            assert(overlay_style_name(OverlayStyle::Capsule) == raw);
            assert(enum_names(k)[1] == raw);
        }
    }
    if enum_names(k).contains(raw) {
        let i = choose|i: int| 0 <= i < enum_names(k).len() && enum_names(k)[i] == raw;
        assert(enum_accepts(k, enum_names(k)[i]));
    }
}

/// `overlay.position` accepts exactly the names of the `OverlayPosition` variants, one name per
/// variant, and its error message lists exactly those names.
pub proof fn law_overlay_position_names_accepted(raw: Seq<char>, a: OverlayPosition, b: OverlayPosition)
    ensures
        enum_accepts("overlay.position"@, overlay_position_name(a)),
        enum_accepts("overlay.position"@, raw) ==> exists|v: OverlayPosition| #[trigger] overlay_position_name(v) == raw,
        overlay_position_name(a) == overlay_position_name(b) ==> a == b,
        enum_names("overlay.position"@).contains(raw) <==> enum_accepts("overlay.position"@, raw),
{
    lemma_enum_key_spellings();
    reveal_strlit("auto");
    assert("auto"@.len() == 4 && "auto"@[1] == 'u');
    reveal_strlit("top_left");
    assert("top_left"@.len() == 8 && "top_left"@[1] == 'o');
    reveal_strlit("top_center");
    assert("top_center"@.len() == 10 && "top_center"@[1] == 'o');
    reveal_strlit("top_right");
    assert("top_right"@.len() == 9 && "top_right"@[1] == 'o');
    reveal_strlit("center");
    assert("center"@.len() == 6 && "center"@[1] == 'e');
    reveal_strlit("bottom_left");
    assert("bottom_left"@.len() == 11 && "bottom_left"@[1] == 'o');
    reveal_strlit("bottom_center");
    assert("bottom_center"@.len() == 13 && "bottom_center"@[1] == 'o');
    reveal_strlit("bottom_right");
    assert("bottom_right"@.len() == 12 && "bottom_right"@[1] == 'o');
    reveal_strlit("custom");
    assert("custom"@.len() == 6 && "custom"@[1] == 'u');
    let k = "overlay.position"@;
    if enum_accepts(k, raw) {
        if raw == "auto"@ {
            assert(overlay_position_name(OverlayPosition::Auto) == raw);
            assert(enum_names(k)[0] == raw);
        } else if raw == "top_left"@ {
            assert(overlay_position_name(OverlayPosition::TopLeft) == raw);
            assert(enum_names(k)[1] == raw);
        } else if raw == "top_center"@ {
            assert(overlay_position_name(OverlayPosition::TopCenter) == raw);
            assert(enum_names(k)[2] == raw);
        } else if raw == "top_right"@ {
            assert(overlay_position_name(OverlayPosition::TopRight) == raw);
            assert(enum_names(k)[3] == raw);
        } else if raw == "center"@ {
            assert(overlay_position_name(OverlayPosition::Center) == raw);
            assert(enum_names(k)[4] == raw);
        } else if raw == "bottom_left"@ {
            assert(overlay_position_name(OverlayPosition::BottomLeft) == raw);
            assert(enum_names(k)[5] == raw);
        } else if raw == "bottom_center"@ {
            assert(overlay_position_name(OverlayPosition::BottomCenter) == raw);
            assert(enum_names(k)[6] == raw);
        } else if raw == "bottom_right"@ {
            assert(overlay_position_name(OverlayPosition::BottomRight) == raw);
            assert(enum_names(k)[7] == raw);
        } else if raw == "custom"@ {
            assert(overlay_position_name(OverlayPosition::Custom) == raw);
            assert(enum_names(k)[8] == raw);
        }
    }
    if enum_names(k).contains(raw) {
        let i = choose|i: int| 0 <= i < enum_names(k).len() && enum_names(k)[i] == raw;
        assert(enum_accepts(k, enum_names(k)[i]));
    }
}

/// The value written for a settable key: a boolean for the boolean keys, a
/// whole number of milliseconds in 200..=5000 for `vadSilenceMs`, a count in
/// 1..=100000 for `history.maxRecords`, one of its names for an enumerated
/// key, the raw text for every other key.
pub open spec fn config_value(key: Seq<char>, raw: Seq<char>) -> Option<Json> {
    if is_bool_key(key) {
        if raw == "true"@ {
            Some(Json::Bool(true))
        } else if raw == "false"@ {
            Some(Json::Bool(false))
        } else {
            None
        }
    } else if key == "vadSilenceMs"@ {
        match text::parse_unsigned(raw, u32::MAX as nat) {
            Some(v) => if 200 <= v <= 5000 {
                Some(Json::Number(text::dec(v)))
            } else {
                None
            },
            None => None,
        }
    } else if key == "history.maxRecords"@ {
        match text::parse_unsigned(raw, u32::MAX as nat) {
            Some(v) => if 1 <= v <= 100000 {
                Some(Json::Number(text::dec(v)))
            } else {
                None
            },
            None => None,
        }
    } else if enum_accepts(key, raw) {
        Some(Json::Text(raw))
    } else {
        None
    }
}

/// The patch that writes `v` under a key: `{key: v}`, or `{top: {sub: v}}`
/// for a key `top.sub` (split at its first dot).
pub open spec fn config_patch(key: Seq<char>, v: Json) -> Json {
    let d = text::first_match(key, text::is_char('.'));
    if d < 0 {
        Json::Object(seq![(key, v)])
    } else {
        Json::Object(seq![(key.take(d), Json::Object(seq![(key.skip(d + 1), v)]))])
    }
}

/// The message for an unknown key.
pub open spec fn unknown_key_message(key: Seq<char>) -> Seq<char> {
    "不支持的配置键「"@ + key + "」（支持：hotkey.key, hotkey.mode, hotkeyBackend, sttEngine, activeProfileId, autoSend, audioDeviceId, language, evalRecording, runAsAdminOnStart, interactionMode, vadSilenceMs, history.mode, history.maxRecords, history.includeAudio, download.source, download.ghProxy, overlay.visibility, overlay.style, overlay.position, overlay.draggable, overlay.clickThrough）"@
}

/// The names an enumerated key takes, in the order its type declares them.
pub open spec fn enum_names(key: Seq<char>) -> Seq<Seq<char>> {
    if key == "hotkey.mode"@ {
        seq!["hold"@, "toggle"@]
    } else if key == "hotkeyBackend"@ {
        seq!["auto"@, "llhook"@, "register"@]
    } else if key == "interactionMode"@ {
        seq!["push-to-talk"@, "dictation"@, "one-shot"@, "solo"@]
    } else if key == "history.mode"@ {
        seq!["capped"@, "keep-all"@, "off"@]
    } else if key == "download.source"@ {
        seq!["auto"@, "official"@, "mirror"@]
    } else if key == "overlay.visibility"@ {
        seq!["always"@, "on_demand"@, "never"@]
    } else if key == "overlay.style"@ {
        seq!["card"@, "capsule"@]
    } else {
        seq![
            "auto"@,
            "top_left"@,
            "top_center"@,
            "top_right"@,
            "center"@,
            "bottom_left"@,
            "bottom_center"@,
            "bottom_right"@,
            "custom"@,
        ]
    }
}

/// A name between backquotes.
pub open spec fn ticked(name: Seq<char>) -> Seq<char> {
    "`"@ + name + "`"@
}

/// Names between backquotes, separated by ", ".
pub open spec fn ticked_list(names: Seq<Seq<char>>) -> Seq<char>
    decreases names.len(),
{
    if names.len() == 0 {
        Seq::empty()
    } else if names.len() == 1 {
        ticked(names[0])
    } else {
        ticked_list(names.drop_last()) + ", "@ + ticked(names.last())
    }
}

/// The expected names as serde lists them: one name, two joined by "or",
/// more after "one of".
pub open spec fn one_of(names: Seq<Seq<char>>) -> Seq<char> {
    if names.len() == 1 {
        ticked(names[0])
    } else if names.len() == 2 {
        ticked(names[0]) + " or "@ + ticked(names[1])
    } else {
        "one of "@ + ticked_list(names)
    }
}

/// What `serde_json` reports for an enum name it does not know
/// (`serde::de::Error::unknown_variant`), given the names it expected.
pub open spec fn unknown_variant_message(variant: Seq<char>, expected: Seq<Seq<char>>) -> Seq<char> {
    if expected.len() == 0 {
        "unknown variant `"@ + variant + "`, there are no variants"@
    } else {
        "unknown variant `"@ + variant + "`, expected "@ + one_of(expected)
    }
}

/// The views of a list of string slices.
pub open spec fn str_views(v: Seq<&str>) -> Seq<Seq<char>> {
    Seq::new(v.len(), |i: int| v[i]@)
}

/// `<serde_json::Error as serde::de::Error>::unknown_variant`, as its
/// message. serde formats it as `unknown_variant_message` states; serde_json
/// keeps it as it is, since it ends in a backquote or in "variants" and so
/// carries no trailing line and column for it to take off.
#[verifier::external_body]
fn unknown_variant_text(variant: &str, expected: &'static [&'static str]) -> (r: String)
    ensures
        r@ == unknown_variant_message(variant@, str_views(expected@)),
{
    <serde_json::Error as serde::de::Error>::unknown_variant(variant, expected).to_string()
}

/// The message for a value a settable key does not take; for an enumerated
/// key it ends with what the configuration's reader reports.
pub open spec fn bad_value_message(key: Seq<char>, raw: Seq<char>) -> Seq<char> {
    if is_bool_key(key) {
        key + " 只接受 true/false（收到「"@ + raw + "」）"@
    } else if key == "vadSilenceMs"@ {
        key + " 只接受 200-5000 的整数毫秒（收到「"@ + raw + "」）"@
    } else if key == "history.maxRecords"@ {
        key + " 只接受 1-100000 的整数条数（收到「"@ + raw + "」）"@
    } else {
        "值「"@ + raw + "」对 "@ + key + " 不合法: "@ + unknown_variant_message(raw, enum_names(key))
    }
}

/// What `config set key raw` writes over the configuration, or why it is
/// refused.
pub open spec fn config_set(key: Seq<char>, raw: Seq<char>) -> Result<Json, Seq<char>> {
    if !is_settable_key(key) {
        Err(unknown_key_message(key))
    } else {
        match config_value(key, raw) {
            Some(v) => Ok(config_patch(key, v)),
            None => Err(bad_value_message(key, raw)),
        }
    }
}

fn settable_key(k: &str) -> (r: bool)
    ensures
        r == is_settable_key(k@),
{
    str_eq(k, "hotkey.key") || str_eq(k, "hotkey.mode") || str_eq(k, "hotkeyBackend") || str_eq(
        k,
        "sttEngine",
    ) || str_eq(k, "activeProfileId") || str_eq(k, "autoSend") || str_eq(k, "audioDeviceId")
        || str_eq(k, "language") || str_eq(k, "evalRecording") || str_eq(k, "runAsAdminOnStart")
        || str_eq(k, "interactionMode") || str_eq(k, "vadSilenceMs") || str_eq(k, "history.mode")
        || str_eq(k, "history.maxRecords") || str_eq(k, "history.includeAudio") || str_eq(
        k,
        "download.source",
    ) || str_eq(k, "download.ghProxy") || str_eq(k, "overlay.visibility") || str_eq(
        k,
        "overlay.style",
    ) || str_eq(k, "overlay.position") || str_eq(k, "overlay.draggable") || str_eq(
        k,
        "overlay.clickThrough",
    )
}

fn bool_key(k: &str) -> (r: bool)
    ensures
        r == is_bool_key(k@),
{
    str_eq(k, "autoSend") || str_eq(k, "evalRecording") || str_eq(k, "runAsAdminOnStart")
        || str_eq(k, "history.includeAudio") || str_eq(k, "overlay.draggable") || str_eq(
        k,
        "overlay.clickThrough",
    )
}

/// The names of an enumerated key (`enum_names`).
fn enum_names_of(key: &str) -> (r: &'static [&'static str])
    ensures
        str_views(r@) == enum_names(key@),
{
    let r: &'static [&'static str] = if str_eq(key, "hotkey.mode") {
        &["hold", "toggle"]
    } else if str_eq(key, "hotkeyBackend") {
        &["auto", "llhook", "register"]
    } else if str_eq(key, "interactionMode") {
        &["push-to-talk", "dictation", "one-shot", "solo"]
    } else if str_eq(key, "history.mode") {
        &["capped", "keep-all", "off"]
    } else if str_eq(key, "download.source") {
        &["auto", "official", "mirror"]
    } else if str_eq(key, "overlay.visibility") {
        &["always", "on_demand", "never"]
    } else if str_eq(key, "overlay.style") {
        &["card", "capsule"]
    } else {
        &[
            "auto",
            "top_left",
            "top_center",
            "top_right",
            "center",
            "bottom_left",
            "bottom_center",
            "bottom_right",
            "custom",
        ]
    };
    assert(str_views(r@) =~= enum_names(key@));
    r
}

fn enum_name_ok(key: &str, raw: &str) -> (r: bool)
    ensures
        r == enum_accepts(key@, raw@),
{
    if str_eq(key, "hotkey.mode") {
        str_eq(raw, "toggle") || str_eq(raw, "hold")
    } else if str_eq(key, "hotkeyBackend") {
        str_eq(raw, "auto") || str_eq(raw, "llhook") || str_eq(raw, "register")
    } else if str_eq(key, "interactionMode") {
        str_eq(raw, "push-to-talk") || str_eq(raw, "dictation") || str_eq(raw, "one-shot")
            || str_eq(raw, "solo")
    } else if str_eq(key, "history.mode") {
        str_eq(raw, "capped") || str_eq(raw, "keep-all") || str_eq(raw, "off")
    } else if str_eq(key, "download.source") {
        str_eq(raw, "auto") || str_eq(raw, "official") || str_eq(raw, "mirror")
    } else if str_eq(key, "overlay.visibility") {
        str_eq(raw, "always") || str_eq(raw, "on_demand") || str_eq(raw, "never")
    } else if str_eq(key, "overlay.style") {
        str_eq(raw, "card") || str_eq(raw, "capsule")
    } else if str_eq(key, "overlay.position") {
        str_eq(raw, "auto") || str_eq(raw, "top_left") || str_eq(raw, "top_center") || str_eq(
            raw,
            "top_right",
        ) || str_eq(raw, "center") || str_eq(raw, "bottom_left") || str_eq(raw, "bottom_center")
            || str_eq(raw, "bottom_right") || str_eq(raw, "custom")
    } else {
        true
    }
}

/// A whole number of `raw` within `lo..=hi`, as its decimal text.
fn bounded_number(raw: &str, lo: u64, hi: u64) -> (r: Option<JsonValue>)
    ensures
        match r {
            Some(v) => exists|n: nat|
                text::parse_unsigned(raw@, u32::MAX as nat) == Some(n) && lo <= n <= hi && v@
                    == Json::Number(text::dec(n)),
            None => match text::parse_unsigned(raw@, u32::MAX as nat) {
                Some(n) => !(lo <= n <= hi),
                None => true,
            },
        },
{
    let cs = chars_of(raw);
    match text::parse_unsigned_chars(cs.as_slice(), 0xFFFF_FFFF) {
        Some(n) => {
            if lo <= n && n <= hi {
                let digits = text::dec_chars(n);
                let v = JsonValue::Number(string_of(digits.as_slice()));
                proof {
                    assert(text::parse_unsigned(raw@, u32::MAX as nat) == Some(n as nat));
                }
                Some(v)
            } else {
                None
            }
        },
        None => None,
    }
}

/// The value `config set` writes for a settable key.
fn value_for(key: &str, raw: &str) -> (r: Option<JsonValue>)
    requires
        is_settable_key(key@),
    ensures
        match r {
            Some(v) => config_value(key@, raw@) == Some(v@),
            None => config_value(key@, raw@) is None,
        },
{
    if bool_key(key) {
        if str_eq(raw, "true") {
            Some(JsonValue::Bool(true))
        } else if str_eq(raw, "false") {
            Some(JsonValue::Bool(false))
        } else {
            None
        }
    } else if str_eq(key, "vadSilenceMs") {
        bounded_number(raw, 200, 5000)
    } else if str_eq(key, "history.maxRecords") {
        bounded_number(raw, 1, 100000)
    } else if enum_name_ok(key, raw) {
        Some(JsonValue::Text(owned(raw)))
    } else {
        None
    }
}

/// `{key: v}`, or `{top: {sub: v}}` for a dotted key.
fn patch_for(key: &str, v: JsonValue) -> (r: JsonValue)
    ensures
        r@ == config_patch(key@, v@),
{
    let cs = chars_of(key);
    match text::char_pos(cs.as_slice(), '.') {
        None => {
            let mut entries: Vec<(String, JsonValue)> = Vec::new();
            entries.push((owned(key), v));
            proof {
                crate::json::lemma_object_view(entries);
                assert(crate::json::entries_view(entries@) =~= seq![(key@, v@)]);
            }
            JsonValue::Object(entries)
        },
        Some(d) => {
            proof {
                text::lemma_first_match(cs@, text::is_char('.'));
            }
            let top = string_of(text::slice_to_vec(cs.as_slice(), 0, d).as_slice());
            let sub = string_of(text::slice_to_vec(cs.as_slice(), d + 1, cs.len()).as_slice());
            let ghost vv = v@;
            let mut inner: Vec<(String, JsonValue)> = Vec::new();
            inner.push((sub, v));
            proof {
                crate::json::lemma_object_view(inner);
                assert(crate::json::entries_view(inner@) =~= seq![(key@.skip(d + 1), vv)]);
            }
            let inner_v = JsonValue::Object(inner);
            let ghost iv = inner_v@;
            let mut outer: Vec<(String, JsonValue)> = Vec::new();
            outer.push((top, inner_v));
            proof {
                crate::json::lemma_object_view(outer);
                assert(key@.subrange(0, d as int) =~= key@.take(d as int));
                assert(key@.subrange(d + 1, key@.len() as int) =~= key@.skip(d + 1));
                assert(crate::json::entries_view(outer@) =~= seq![(key@.take(d as int), iv)]);
            }
            JsonValue::Object(outer)
        },
    }
}

/// `config set key raw`: the patch to lay over the configuration, or the
/// message that refuses the key or the value.
pub fn config_set_patch(key: &str, raw: &str) -> (r: Result<JsonValue, String>)
    ensures
        match (r, config_set(key@, raw@)) {
            (Ok(v), Ok(j)) => v@ == j,
            (Err(e), Err(m)) => e@ == m,
            _ => false,
        },
{
    if !settable_key(key) {
        let mut msg = owned("不支持的配置键「");
        push_str(&mut msg, key);
        push_str(
            &mut msg,
            "」（支持：hotkey.key, hotkey.mode, hotkeyBackend, sttEngine, activeProfileId, autoSend, audioDeviceId, language, evalRecording, runAsAdminOnStart, interactionMode, vadSilenceMs, history.mode, history.maxRecords, history.includeAudio, download.source, download.ghProxy, overlay.visibility, overlay.style, overlay.position, overlay.draggable, overlay.clickThrough）",
        );
        return Err(msg);
    }
    match value_for(key, raw) {
        Some(v) => Ok(patch_for(key, v)),
        None => {
            let numeric = str_eq(key, "vadSilenceMs") || str_eq(key, "history.maxRecords");
            if bool_key(key) || numeric {
                let mut msg = owned(key);
                if bool_key(key) {
                    push_str(&mut msg, " 只接受 true/false（收到「");
                } else if str_eq(key, "vadSilenceMs") {
                    push_str(&mut msg, " 只接受 200-5000 的整数毫秒（收到「");
                } else {
                    push_str(&mut msg, " 只接受 1-100000 的整数条数（收到「");
                }
                push_str(&mut msg, raw);
                push_str(&mut msg, "」）");
                Err(msg)
            } else {
                let mut msg = owned("值「");
                push_str(&mut msg, raw);
                push_str(&mut msg, "」对 ");
                push_str(&mut msg, key);
                push_str(&mut msg, " 不合法: ");
                let detail = unknown_variant_text(raw, enum_names_of(key));
                push_str(&mut msg, detail.as_str());
                Err(msg)
            }
        },
    }
}

/// The value reached from `v` by the keys `parts`, one level each.
pub open spec fn walk(v: Json, parts: Seq<Seq<char>>) -> Option<Json>
    decreases parts.len(),
{
    if parts.len() == 0 {
        Some(v)
    } else {
        match walk(v, parts.drop_last()) {
            Some(c) => child(c, parts.last()),
            None => None,
        }
    }
}

/// What `config get key` shows: the value at the dotted path, or the message
/// for a path that does not exist.
pub open spec fn config_get(root: Json, key: Seq<char>) -> Result<Json, Seq<char>> {
    match walk(root, text::split_char(key, '.')) {
        Some(v) => Ok(v),
        None => Err("配置项「"@ + key + "」不存在"@),
    }
}

/// `config get key`: the value at the dotted path `key` of the configuration
/// document `root`.
pub fn config_get_value(root: &JsonValue, key: &str) -> (r: Result<JsonValue, String>)
    ensures
        match (r, config_get(root@, key@)) {
            (Ok(v), Ok(j)) => v@ == j,
            (Err(e), Err(m)) => e@ == m,
            _ => false,
        },
{
    let cs = chars_of(key);
    let mut cur: &JsonValue = root;
    let mut failed = false;
    let mut part: Vec<char> = Vec::new();
    let ghost mut done: Seq<Seq<char>> = Seq::empty();
    let mut i: usize = 0;
    assert(cs@.take(0) =~= Seq::<char>::empty());
    assert(part@ =~= Seq::<char>::empty());
    while i < cs.len()
        invariant
            i <= cs.len(),
            cs@ == key@,
            text::split_char(cs@.take(i as int), '.') == done.push(part@),
            failed ==> walk(root@, done) is None,
            !failed ==> walk(root@, done) == Some(cur@),
        decreases cs.len() - i,
    {
        let c = cs[i];
        assert(cs@.take(i + 1).drop_last() =~= cs@.take(i as int));
        assert(cs@.take(i + 1).last() == c);
        if c == '.' {
            if !failed {
                match crate::json::child_of(cur, &string_of(part.as_slice())) {
                    Some(n) => {
                        cur = n;
                    },
                    None => {
                        failed = true;
                    },
                }
            }
            proof {
                assert(done.push(part@).drop_last() =~= done);
                done = done.push(part@);
            }
            part = Vec::new();
            assert(part@ =~= Seq::<char>::empty());
        } else {
            proof {
                let prev = done.push(part@);
                assert(prev.update(prev.len() - 1, prev.last().push(c)) =~= done.push(
                    part@.push(c),
                ));
            }
            part.push(c);
        }
        i += 1;
    }
    assert(cs@.take(cs.len() as int) =~= cs@);
    assert(done.push(part@).drop_last() =~= done);
    if !failed {
        match crate::json::child_of(cur, &string_of(part.as_slice())) {
            Some(n) => {
                return Ok(n.deep_copy());
            },
            None => {},
        }
    }
    let mut msg = owned("配置项「");
    push_str(&mut msg, key);
    push_str(&mut msg, "」不存在");
    Err(msg)
}

// ---------- doctor ----------

/// The speech engine as the environment check finds it.
pub enum EngineCheck {
    Ready,
    /// registered but its model or binary is missing (its display name)
    NotReady(String),
    /// not registered (the ids that are)
    Unregistered(Vec<String>),
}

/// The active profile as the environment check finds it.
pub enum ProfileCheck {
    NotSet,
    Missing(String),
    Found { id: String, display_name: String, process_names: Vec<String> },
}

/// The elevation chain between the target game and this process.
#[derive(Debug, Clone, Copy, PartialEq, Eq, Structural)]
pub enum ElevationCheck {
    /// the active profile's game is not running
    TargetNotRunning,
    /// the game runs elevated and this process does not: input is dropped
    Blocked(u32),
    /// both run elevated
    BothElevated(u32),
    /// the game does not run elevated
    NotNeeded(u32),
}

/// What the environment check gathered (devices, engine, profile,
/// elevation, models and settings).
pub struct DoctorFacts {
    pub devices: Vec<AudioDevice>,
    pub engine_id: String,
    pub engine: EngineCheck,
    pub profile: ProfileCheck,
    pub elevation: ElevationCheck,
    pub vad_ready: bool,
    pub eval_recording: bool,
    pub download_source: DownloadSource,
    pub gh_proxy: String,
    pub history_mode: HistoryMode,
    pub max_records: u32,
    pub include_audio: bool,
}

/// The printed report, the number of failed checks and the exit code.
pub struct DoctorReport {
    pub text: String,
    pub failures: u32,
    pub exit_code: i32,
}

/// The name of the first device with id `default`, or "未知".
pub open spec fn default_device_name(devs: Seq<AudioDevice>) -> Seq<char>
    decreases devs.len(),
{
    if devs.len() == 0 {
        "未知"@
    } else if devs[0].id@ == "default"@ {
        devs[0].name@
    } else {
        default_device_name(devs.drop_first())
    }
}

/// A warning line for each device that looks like a virtual sound card.
pub open spec fn virtual_lines(devs: Seq<AudioDevice>) -> Seq<char>
    decreases devs.len(),
{
    if devs.len() == 0 {
        Seq::empty()
    } else {
        let name = devs.last().name@;
        virtual_lines(devs.drop_last()) + if virtual_name(name, str_lowercase(name)) {
            "  ⚠ 虚拟声卡："@ + name + "（自动化测试路径二可用，日常采集别选它）\n"@
        } else {
            Seq::empty()
        }
    }
}

pub open spec fn devices_text(devs: Seq<AudioDevice>) -> Seq<char> {
    (if devs.len() == 0 {
        "✗ 音频输入设备：未枚举到任何采集设备（检查麦克风/驱动）\n"@
    } else {
        "✓ 音频输入设备："@ + text::dec(devs.len()) + " 个（默认："@ + default_device_name(devs)
            + "）\n"@
    }) + virtual_lines(devs)
}

pub open spec fn engine_text(id: Seq<char>, e: EngineCheck) -> Seq<char> {
    match e {
        EngineCheck::Ready => "✓ STT 引擎「"@ + id + "」就绪\n"@,
        EngineCheck::NotReady(d) => "✗ STT 引擎「"@ + id + "」（"@ + d@
            + "）未就绪：模型/二进制未下载 → kotone-cli download <模型>\n"@,
        EngineCheck::Unregistered(ids) => "✗ STT 引擎「"@ + id + "」未注册（检查 sttEngine 拼写；已注册："@
            + text::joined_by(text::views(ids@), ", "@) + "）\n"@,
    }
}

pub open spec fn profile_text(p: ProfileCheck) -> Seq<char> {
    match p {
        ProfileCheck::NotSet => "⚠ 未设置 activeProfileId（按内置 generic 通配；profile use <id> 激活）\n"@,
        ProfileCheck::Missing(id) => "✗ 激活 profile「"@ + id@ + "」不存在 → kotone-cli profile use <id>\n"@,
        ProfileCheck::Found { id, display_name, process_names } => "✓ 激活 profile「"@ + id@ + "」："@
            + display_name@ + "（"@ + (if process_names@.len() == 0 {
            "通配任意前台窗口"@
        } else {
            "processNames: "@ + text::joined_by(text::views(process_names@), ", "@)
        }) + "）\n"@,
    }
}

pub open spec fn elevation_text(e: ElevationCheck) -> Seq<char> {
    match e {
        ElevationCheck::TargetNotRunning => "⚠ 提权链路：激活 profile 的目标进程未运行，无法判断（游戏启动后用 doctor 复查）\n"@,
        ElevationCheck::Blocked(pid) => "✗ 目标游戏进程（pid "@ + text::dec(pid as nat)
            + "）已提权而 Kotone 未提权：注入将被 UIPI 丢弃 → kotone-cli elevate listen（或以管理员身份重开终端）\n"@,
        ElevationCheck::BothElevated(pid) => "✓ 提权链路：目标进程（pid "@ + text::dec(pid as nat)
            + "）已提权，Kotone 同为管理员\n"@,
        ElevationCheck::NotNeeded(pid) => "✓ 提权链路：目标进程（pid "@ + text::dec(pid as nat)
            + "）未提权，无需 elevate\n"@,
    }
}

pub open spec fn vad_text(ready: bool) -> Seq<char> {
    if ready {
        "✓ VAD 模型就绪（one-shot 静音判停可用）\n"@
    } else {
        "⚠ VAD 模型未就绪：one-shot / solo 模式不可用（push-to-talk / dictation 不受影响）\n"@
    }
}

pub open spec fn eval_recording_text(on: bool) -> Seq<char> {
    (if on {
        "✓"@
    } else {
        "⚠"@
    }) + " evalRecording："@ + (if on {
        "开"@
    } else {
        "关"@
    }) + "（评测录档 → kotone-cli eval list）\n"@
}

pub open spec fn download_text(source: DownloadSource, gh_proxy: Seq<char>) -> Seq<char> {
    "✓ 下载源："@ + match source {
        DownloadSource::Auto => "auto（镜像优先 hf-mirror.com + "@ + gh_proxy + "，失败回退官方）"@,
        DownloadSource::Official => "official（huggingface.co / github.com 直连）"@,
        DownloadSource::Mirror => "mirror（仅镜像 hf-mirror.com + "@ + gh_proxy + "，不回退）"@,
    } + "（kotone-cli config set download.source <auto|official|mirror>）\n"@
}

pub open spec fn history_text(mode: HistoryMode, max_records: u32, include_audio: bool) -> Seq<char> {
    "✓ history："@ + match mode {
        HistoryMode::Capped => "capped（上限 "@ + text::dec(max_records as nat) + " 条）"@,
        HistoryMode::KeepAll => "keep-all（不裁剪）"@,
        HistoryMode::Off => "off（不记录）"@,
    } + "，"@ + (if include_audio {
        "含"@
    } else {
        "不含"@
    }) + "音频（kotone-cli log list 查看）\n"@
}

pub open spec fn settings_text(f: DoctorFacts) -> Seq<char> {
    vad_text(f.vad_ready) + eval_recording_text(f.eval_recording) + download_text(
        f.download_source,
        f.gh_proxy@,
    ) + history_text(f.history_mode, f.max_records, f.include_audio)
}

/// The checks that fail: no input device, an engine that is not ready, a
/// missing active profile, and a blocked elevation chain.
pub open spec fn doctor_failures(f: DoctorFacts) -> nat {
    (if f.devices@.len() == 0 { 1nat } else { 0nat }) + (if f.engine is Ready { 0nat } else { 1nat })
        + (if f.profile is Missing { 1nat } else { 0nat }) + (if f.elevation is Blocked { 1nat } else { 0nat })
}

/// The whole report: the sections in order, then the verdict.
pub open spec fn doctor_text(f: DoctorFacts) -> Seq<char> {
    devices_text(f.devices@) + engine_text(f.engine_id@, f.engine) + profile_text(f.profile)
        + elevation_text(f.elevation) + settings_text(f) + if doctor_failures(f) > 0 {
        "\n"@ + text::dec(doctor_failures(f)) + " 项未通过，按上方建议修复后复查\n"@
    } else {
        "\n全部关键项通过\n"@
    }
}

fn push_devices(out: &mut String, devs: &Vec<AudioDevice>)
    ensures
        final(out)@ == old(out)@ + devices_text(devs@),
{
    if devs.len() == 0 {
        push_str(out, "✗ 音频输入设备：未枚举到任何采集设备（检查麦克风/驱动）\n");
    } else {
        push_str(out, "✓ 音频输入设备：");
        text::push_dec(out, devs.len() as u64);
        push_str(out, " 个（默认：");
        let mut k: usize = 0;
        assert(devs@.skip(0) =~= devs@);
        while k < devs.len()
            invariant
                k <= devs@.len(),
                default_device_name(devs@) == default_device_name(devs@.skip(k as int)),
            ensures
                k < devs@.len() ==> devs@[k as int].id@ == "default"@ && default_device_name(devs@)
                    == devs@[k as int].name@,
                k == devs@.len() ==> default_device_name(devs@) == "未知"@,
            decreases devs.len() - k,
        {
            assert(devs@.skip(k as int)[0] == devs@[k as int]);
            assert(devs@.skip(k as int).drop_first() =~= devs@.skip(k + 1));
            if str_eq(devs[k].id.as_str(), "default") {
                break;
            }
            k += 1;
        }
        if k == devs.len() {
            assert(devs@.skip(k as int) =~= Seq::<AudioDevice>::empty());
            push_str(out, "未知");
        } else {
            push_str(out, devs[k].name.as_str());
        }
        push_str(out, "）\n");
    }
    let ghost head = out@;
    let mut i: usize = 0;
    assert(devs@.take(0) =~= Seq::<AudioDevice>::empty());
    while i < devs.len()
        invariant
            i <= devs@.len(),
            out@ == head + virtual_lines(devs@.take(i as int)),
        decreases devs.len() - i,
    {
        assert(devs@.take(i + 1).drop_last() =~= devs@.take(i as int));
        assert(devs@.take(i + 1).last() == devs@[i as int]);
        if looks_virtual(devs[i].name.as_str()) {
            push_str(out, "  ⚠ 虚拟声卡：");
            push_str(out, devs[i].name.as_str());
            push_str(out, "（自动化测试路径二可用，日常采集别选它）\n");
        }
        i += 1;
    }
    assert(devs@.take(devs@.len() as int) =~= devs@);
}

fn push_engine(out: &mut String, id: &str, e: &EngineCheck)
    ensures
        final(out)@ == old(out)@ + engine_text(id@, *e),
{
    let ghost start = out@;
    match e {
        EngineCheck::Ready => {
            push_str(out, "✓ STT 引擎「");
            push_str(out, id);
            push_str(out, "」就绪\n");
        },
        EngineCheck::NotReady(d) => {
            push_str(out, "✗ STT 引擎「");
            push_str(out, id);
            push_str(out, "」（");
            push_str(out, d.as_str());
            push_str(out, "）未就绪：模型/二进制未下载 → kotone-cli download <模型>\n");
        },
        EngineCheck::Unregistered(ids) => {
            push_str(out, "✗ STT 引擎「");
            push_str(out, id);
            push_str(out, "」未注册（检查 sttEngine 拼写；已注册：");
            text::push_joined(out, ids.as_slice(), ", ");
            push_str(out, "）\n");
        },
    }
    assert(out@ =~= start + engine_text(id@, *e));
}

fn push_profile(out: &mut String, p: &ProfileCheck)
    ensures
        final(out)@ == old(out)@ + profile_text(*p),
{
    let ghost start = out@;
    match p {
        ProfileCheck::NotSet => {
            push_str(out, "⚠ 未设置 activeProfileId（按内置 generic 通配；profile use <id> 激活）\n");
        },
        ProfileCheck::Missing(id) => {
            push_str(out, "✗ 激活 profile「");
            push_str(out, id.as_str());
            push_str(out, "」不存在 → kotone-cli profile use <id>\n");
        },
        ProfileCheck::Found { id, display_name, process_names } => {
            push_str(out, "✓ 激活 profile「");
            push_str(out, id.as_str());
            push_str(out, "」：");
            push_str(out, display_name.as_str());
            push_str(out, "（");
            if process_names.len() == 0 {
                push_str(out, "通配任意前台窗口");
            } else {
                push_str(out, "processNames: ");
                text::push_joined(out, process_names.as_slice(), ", ");
            }
            push_str(out, "）\n");
        },
    }
    assert(out@ =~= start + profile_text(*p));
}

fn push_elevation(out: &mut String, e: ElevationCheck)
    ensures
        final(out)@ == old(out)@ + elevation_text(e),
{
    let ghost start = out@;
    match e {
        ElevationCheck::TargetNotRunning => {
            push_str(out, "⚠ 提权链路：激活 profile 的目标进程未运行，无法判断（游戏启动后用 doctor 复查）\n");
        },
        ElevationCheck::Blocked(pid) => {
            push_str(out, "✗ 目标游戏进程（pid ");
            text::push_dec(out, pid as u64);
            push_str(
                out,
                "）已提权而 Kotone 未提权：注入将被 UIPI 丢弃 → kotone-cli elevate listen（或以管理员身份重开终端）\n",
            );
        },
        ElevationCheck::BothElevated(pid) => {
            push_str(out, "✓ 提权链路：目标进程（pid ");
            text::push_dec(out, pid as u64);
            push_str(out, "）已提权，Kotone 同为管理员\n");
        },
        ElevationCheck::NotNeeded(pid) => {
            push_str(out, "✓ 提权链路：目标进程（pid ");
            text::push_dec(out, pid as u64);
            push_str(out, "）未提权，无需 elevate\n");
        },
    }
    assert(out@ =~= start + elevation_text(e));
}

fn push_eval_recording(out: &mut String, on: bool)
    ensures
        final(out)@ == old(out)@ + eval_recording_text(on),
{
    let ghost start = out@;
    if on {
        push_str(out, "✓");
    } else {
        push_str(out, "⚠");
    }
    push_str(out, " evalRecording：");
    if on {
        push_str(out, "开");
    } else {
        push_str(out, "关");
    }
    push_str(out, "（评测录档 → kotone-cli eval list）\n");
    assert(out@ =~= start + eval_recording_text(on));
}

fn push_download(out: &mut String, source: DownloadSource, gh_proxy: &str)
    ensures
        final(out)@ == old(out)@ + download_text(source, gh_proxy@),
{
    let ghost start = out@;
    push_str(out, "✓ 下载源：");
    match source {
        DownloadSource::Auto => {
            push_str(out, "auto（镜像优先 hf-mirror.com + ");
            push_str(out, gh_proxy);
            push_str(out, "，失败回退官方）");
        },
        DownloadSource::Official => {
            push_str(out, "official（huggingface.co / github.com 直连）");
        },
        DownloadSource::Mirror => {
            push_str(out, "mirror（仅镜像 hf-mirror.com + ");
            push_str(out, gh_proxy);
            push_str(out, "，不回退）");
        },
    }
    push_str(out, "（kotone-cli config set download.source <auto|official|mirror>）\n");
    assert(out@ =~= start + download_text(source, gh_proxy@));
}

fn push_history(out: &mut String, mode: HistoryMode, max_records: u32, include_audio: bool)
    ensures
        final(out)@ == old(out)@ + history_text(mode, max_records, include_audio),
{
    let ghost start = out@;
    push_str(out, "✓ history：");
    match mode {
        HistoryMode::Capped => {
            push_str(out, "capped（上限 ");
            text::push_dec(out, max_records as u64);
            push_str(out, " 条）");
        },
        HistoryMode::KeepAll => {
            push_str(out, "keep-all（不裁剪）");
        },
        HistoryMode::Off => {
            push_str(out, "off（不记录）");
        },
    }
    push_str(out, "，");
    if include_audio {
        push_str(out, "含");
    } else {
        push_str(out, "不含");
    }
    push_str(out, "音频（kotone-cli log list 查看）\n");
    assert(out@ =~= start + history_text(mode, max_records, include_audio));
}

fn push_settings(out: &mut String, f: &DoctorFacts)
    ensures
        final(out)@ == old(out)@ + settings_text(*f),
{
    let ghost start = out@;
    if f.vad_ready {
        push_str(out, "✓ VAD 模型就绪（one-shot 静音判停可用）\n");
    } else {
        push_str(out, "⚠ VAD 模型未就绪：one-shot / solo 模式不可用（push-to-talk / dictation 不受影响）\n");
    }
    push_eval_recording(out, f.eval_recording);
    push_download(out, f.download_source, f.gh_proxy.as_str());
    push_history(out, f.history_mode, f.max_records, f.include_audio);
    assert(out@ =~= start + settings_text(*f));
}

/// The environment report (`doctor`): a line per check, the failures and
/// the exit code (1 when a check failed, else 0).
pub fn doctor_report(f: &DoctorFacts) -> (r: DoctorReport)
    ensures
        r.text@ == doctor_text(*f),
        r.failures as nat == doctor_failures(*f),
        r.exit_code == if doctor_failures(*f) > 0 {
            1i32
        } else {
            0i32
        },
{
    let mut out = String::new();
    push_devices(&mut out, &f.devices);
    push_engine(&mut out, f.engine_id.as_str(), &f.engine);
    push_profile(&mut out, &f.profile);
    push_elevation(&mut out, f.elevation);
    push_settings(&mut out, f);
    let mut failures: u32 = 0;
    if f.devices.len() == 0 {
        failures = failures + 1;
    }
    match &f.engine {
        EngineCheck::Ready => {},
        _ => {
            failures = failures + 1;
        },
    }
    match &f.profile {
        ProfileCheck::Missing(_) => {
            failures = failures + 1;
        },
        _ => {},
    }
    match f.elevation {
        ElevationCheck::Blocked(_) => {
            failures = failures + 1;
        },
        _ => {},
    }
    if failures > 0 {
        push_str(&mut out, "\n");
        text::push_dec(&mut out, failures as u64);
        push_str(&mut out, " 项未通过，按上方建议修复后复查\n");
    } else {
        push_str(&mut out, "\n全部关键项通过\n");
    }
    assert(out@ =~= doctor_text(*f));
    DoctorReport {
        text: out,
        failures,
        exit_code: if failures > 0 {
            1
        } else {
            0
        },
    }
}

// ---------- headless listen session ----------

/// What the wait for a headless session does at one poll.
pub enum SessionWait {
    /// Poll again after a short sleep.
    Poll,
    /// Still listening when the wait ran out: end the session by hand.
    EndNow,
    /// Stop waiting (a final state, or finalising ran past its margin).
    Settled,
}

/// One poll of the wait for a headless session: while listening, wait
/// until `wait_deadline_ms` and then end by hand; while transcribing or
/// sending, wait until `final_deadline_ms`; any other state is final.
pub fn session_wait_step(
    state: OrchestratorState,
    now_ms: u64,
    wait_deadline_ms: u64,
    final_deadline_ms: u64,
) -> (r: SessionWait)
    ensures
        state == OrchestratorState::Listening ==> if now_ms >= wait_deadline_ms {
            r is EndNow
        } else {
            r is Poll
        },
        (state == OrchestratorState::Transcribing || state == OrchestratorState::Sending) ==> if now_ms
            >= final_deadline_ms {
            r is Settled
        } else {
            r is Poll
        },
        !(state == OrchestratorState::Listening || state == OrchestratorState::Transcribing || state
            == OrchestratorState::Sending) ==> r is Settled,
{
    match state {
        OrchestratorState::Listening => {
            if now_ms >= wait_deadline_ms {
                SessionWait::EndNow
            } else {
                SessionWait::Poll
            }
        },
        OrchestratorState::Transcribing | OrchestratorState::Sending => {
            if now_ms >= final_deadline_ms {
                SessionWait::Settled
            } else {
                SessionWait::Poll
            }
        },
        _ => SessionWait::Settled,
    }
}

/// After the session was ended by hand: keep waiting while it transcribes
/// or sends, until `deadline_ms`.
pub fn still_finalizing(state: OrchestratorState, now_ms: u64, deadline_ms: u64) -> (r: bool)
    ensures
        r == ((state == OrchestratorState::Transcribing || state == OrchestratorState::Sending)
            && now_ms < deadline_ms),
{
    match state {
        OrchestratorState::Transcribing | OrchestratorState::Sending => now_ms < deadline_ms,
        _ => false,
    }
}

/// The session's verdict from its last state: a preview or a success is
/// "ok" (exit code 0), anything else "error" (exit code 1).
pub fn session_outcome(state: OrchestratorState) -> (r: (&'static str, i32))
    ensures
        (state == OrchestratorState::Preview || state == OrchestratorState::Success) ==> r.0@
            == "ok"@ && r.1 == 0,
        !(state == OrchestratorState::Preview || state == OrchestratorState::Success) ==> r.0@
            == "error"@ && r.1 == 1,
{
    match state {
        OrchestratorState::Preview | OrchestratorState::Success => ("ok", 0),
        _ => ("error", 1),
    }
}

/// How long a session from the live device runs: the `--duration` in
/// seconds, as milliseconds; without one the command is refused (exit 2).
pub fn live_wait_ms(duration_secs: Option<u64>) -> (r: Result<u64, (String, i32)>)
    requires
        duration_secs matches Some(d) ==> d <= u64::MAX / 1000,
    ensures
        match duration_secs {
            Some(d) => r == Ok::<u64, (String, i32)>((d * 1000) as u64),
            None => r matches Err(e) && e.0@ == "--no-hotkey 需配合 --duration <秒>（或使用 --wav <file>）"@
                && e.1 == 2,
        },
{
    match duration_secs {
        Some(d) => Ok(d * 1000),
        None => Err((owned("--no-hotkey 需配合 --duration <秒>（或使用 --wav <file>）"), 2)),
    }
}

} // verus!

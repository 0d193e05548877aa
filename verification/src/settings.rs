//! Configuration schema pieces that the rest of the library reads: hotkey
//! backend, UI state, model storage, overlay and download settings.

use vstd::prelude::*;

use crate::hotkey::HotkeyMode;
use crate::text::owned;
use crate::json::{JsonValue, Json, child, child_of, entries_view, find_key, key_pos, lemma_object_view, shallow_merged, text_or_empty};
use crate::text;
use crate::text::str_eq;

verus! {

/// Hotkey backend choice.
#[derive(Debug, Clone, Copy, PartialEq, Eq, Structural)]
pub enum HotkeyBackend {
    /// low-level hook first, RegisterHotKey as fallback
    Auto,
    /// force the low-level keyboard/mouse hook
    Llhook,
    /// force RegisterHotKey
    Register,
}

impl Default for HotkeyBackend {
    fn default() -> (r: HotkeyBackend)
        ensures
            r == HotkeyBackend::Auto,
    {
        HotkeyBackend::Auto
    }
}

/// Desktop UI state (`ui`).
#[derive(Debug, Clone, Copy, PartialEq, Eq, Structural)]
pub struct UiConfig {
    /// the first-run wizard was completed (or skipped)
    pub first_run_completed: bool,
    /// enter Running automatically after launch
    pub auto_start: bool,
}

impl Default for UiConfig {
    fn default() -> (r: UiConfig)
        ensures
            !r.first_run_completed && !r.auto_start,
    {
        UiConfig { first_run_completed: false, auto_start: false }
    }
}

/// Model storage (`models`).
#[derive(Debug, Clone, PartialEq, Eq)]
pub struct ModelsConfig {
    /// custom model directory; empty = the default directory
    pub dir: String,
}

impl Default for ModelsConfig {
    fn default() -> (r: ModelsConfig)
        ensures
            r.dir@.len() == 0,
    {
        ModelsConfig { dir: String::new() }
    }
}

/// Overlay visibility (`overlay.visibility`).
#[derive(Debug, Clone, Copy, PartialEq, Eq, Structural)]
pub enum OverlayVisibility {
    /// always shown while running
    Always,
    /// shown while a session is in progress (default)
    OnDemand,
    /// never shown
    Never,
}

/// Overlay style (`overlay.style`).
#[derive(Debug, Clone, Copy, PartialEq, Eq, Structural)]
pub enum OverlayStyle {
    /// card in the screen centre
    Card,
    /// capsule at the bottom centre (default)
    Capsule,
}

/// Overlay position (`overlay.position`).
#[derive(Debug, Clone, Copy, PartialEq, Eq, Structural)]
pub enum OverlayPosition {
    /// follow the style: card centred, capsule bottom centre
    Auto,
    TopLeft,
    TopCenter,
    TopRight,
    Center,
    BottomLeft,
    BottomCenter,
    BottomRight,
    /// physical screen coordinates recorded after a drag
    Custom,
}

/// Overlay configuration (`overlay`).
#[derive(Debug, Clone, Copy, PartialEq, Eq, Structural)]
pub struct OverlayConfig {
    pub visibility: OverlayVisibility,
    pub style: OverlayStyle,
    pub position: OverlayPosition,
    /// the overlay can be dragged
    pub draggable: bool,
    /// mouse clicks pass through to the game
    pub click_through: bool,
    pub custom_x: Option<i32>,
    pub custom_y: Option<i32>,
}

impl Default for OverlayConfig {
    fn default() -> (r: OverlayConfig)
        ensures
            r == (OverlayConfig {
                visibility: OverlayVisibility::OnDemand,
                style: OverlayStyle::Capsule,
                position: OverlayPosition::Auto,
                draggable: true,
                click_through: false,
                custom_x: None,
                custom_y: None,
            }),
    {
        OverlayConfig {
            visibility: OverlayVisibility::OnDemand,
            style: OverlayStyle::Capsule,
            position: OverlayPosition::Auto,
            draggable: true,
            click_through: false,
            custom_x: None,
            custom_y: None,
        }
    }
}

impl OverlayConfig {

    /// The UI has one switch: draggable means not click-through, and not
    /// draggable means click-through. Old files may set both; click-through
    /// wins so that an upgrade never starts catching the game's mouse.
    pub fn normalize_interaction(&mut self)
        ensures
            old(self).click_through ==> final(self).click_through && !final(self).draggable,
            !old(self).click_through ==> final(self).draggable == old(self).draggable
                && final(self).click_through == !old(self).draggable,
            final(self).visibility == old(self).visibility,
            final(self).style == old(self).style,
            final(self).position == old(self).position,
            final(self).custom_x == old(self).custom_x,
            final(self).custom_y == old(self).custom_y,
    {
        if self.click_through {
            self.draggable = false;
        } else {
            self.click_through = !self.draggable;
        }
    }
}

/// After normalisation the two switches are exact opposites, and normalising
/// again changes nothing.
pub proof fn law_overlay_normalized(c: OverlayConfig)
    ensures
        normalized(c).draggable == !normalized(c).click_through,
        normalized(normalized(c)) == normalized(c),
{
}

pub open spec fn normalized(c: OverlayConfig) -> OverlayConfig {
    if c.click_through {
        OverlayConfig { draggable: false, ..c }
    } else {
        OverlayConfig { click_through: !c.draggable, ..c }
    }
}

/// Download source (`download.source`).
#[derive(Debug, Clone, Copy, PartialEq, Eq, Structural)]
pub enum DownloadSource {
    /// mirrors first, falling back to the official source (default)
    Auto,
    /// official sources only
    Official,
    /// mirrors only
    Mirror,
}

/// Model download configuration (`download`).
#[derive(Debug, Clone, PartialEq, Eq)]
pub struct DownloadConfig {
    pub source: DownloadSource,
    /// GitHub acceleration proxy prefix
    pub gh_proxy: String,
}

impl Default for DownloadConfig {
    fn default() -> (r: DownloadConfig)
        ensures
            r.source == DownloadSource::Auto,
            r.gh_proxy@ == "https://ghfast.top/"@,
    {
        DownloadConfig { source: DownloadSource::Auto, gh_proxy: owned("https://ghfast.top/") }
    }
}

/// Recording hotkey (`hotkey`).
#[derive(Debug, Clone, PartialEq, Eq)]
pub struct HotkeyConfig {
    pub key: String,
    pub mode: HotkeyMode,
}

impl Default for HotkeyConfig {
    fn default() -> (r: HotkeyConfig)
        ensures
            r.key@ == "CapsLock"@,
            r.mode == HotkeyMode::Toggle,
    {
        HotkeyConfig { key: owned("CapsLock"), mode: HotkeyMode::Toggle }
    }
}

/// Default channel-cycle hotkey.
pub fn default_channel_cycle_hotkey() -> (r: String)
    ensures
        r@ == "Shift+CapsLock"@,
{
    owned("Shift+CapsLock")
}

/// Lays `patch` over `base` in place: where both are objects each key of
/// the patch is merged into the base's value under that key (or appended
/// when the base lacks it); any other patch replaces the base outright.
pub fn merge_json(base: &mut JsonValue, patch: &JsonValue)
    ensures
        final(base)@ == crate::json::merged(old(base)@, patch@),
    decreases patch,
{
    match patch {
        JsonValue::Object(p) => {
            let mut cur = JsonValue::Null;
            std::mem::swap(&mut cur, base);
            match cur {
                JsonValue::Object(b0) => {
                    let ghost bs = entries_view(b0@);
                    let ghost ps = entries_view(p@);
                    let mut b = b0;
                    let mut i: usize = 0;
                    while i < p.len()
                        invariant
                            i <= p.len(),
                            *patch == JsonValue::Object(*p),
                            ps == entries_view(p@),
                            entries_view(b@) == crate::json::merged_entries(bs, ps, i as nat),
                        decreases p.len() - i,
                    {
                        let ghost acc = entries_view(b@);
                        match find_key(&b, &p[i].0) {
                            Some(j) => {
                                proof {
                                    crate::json::lemma_key_pos(acc, p@[i as int].0@);
                                    vstd::std_specs::vec::axiom_vec_index_decreases(*p, i as int);
                                    assert(decreases_to!(*patch => patch->Object_0));
                                    assert(decreases_to!(p@[i as int] => p@[i as int].1));
                                }
                                let (k0, mut slot) = b.remove(j);
                                merge_json(&mut slot, &p[i].1);
                                b.insert(j, (k0, slot));
                                proof {
                                    assert(entries_view(b@) =~= acc.update(
                                        j as int,
                                        (ps[i as int].0, crate::json::merged(acc[j as int].1, ps[i as int].1)),
                                    ));
                                }
                            },
                            None => {
                                let k = p[i].0.clone();
                                let v = p[i].1.deep_copy();
                                b.push((k, v));
                                proof {
                                    assert(entries_view(b@) =~= acc.push(ps[i as int]));
                                }
                            },
                        }
                        i += 1;
                    }
                    proof {
                        lemma_object_view(b);
                        lemma_object_view(b0);
                        lemma_object_view(*p);
                    }
                    *base = JsonValue::Object(b);
                },
                _ => {
                    *base = patch.deep_copy();
                },
            }
        },
        _ => {
            *base = patch.deep_copy();
        },
    }
}

/// A patch that is not an object, or a base that is not one, replaces the
/// base outright.
pub proof fn law_merge_non_object_replaces(base: Json, patch: Json)
    requires
        !(base is Object && patch is Object),
    ensures
        crate::json::merged(base, patch) == patch,
{
}

/// Merging an object patch into an object leaves every key the patch does
/// not mention as it was.
pub proof fn law_merge_keeps_unpatched_keys(
    b: Seq<(Seq<char>, Json)>,
    p: Seq<(Seq<char>, Json)>,
    k: Seq<char>,
)
    requires
        crate::json::lookup(p, k) is None,
    ensures
        crate::json::lookup(crate::json::merged(Json::Object(b), Json::Object(p))->Object_0, k)
            == crate::json::lookup(b, k),
{
    crate::json::lemma_key_pos(p, k);
    crate::json::lemma_merged_entries_lookup(b, p, p.len(), k);
}

/// Merging an object patch into an object: under each key of the patch the
/// result holds the base's value with the patch's value merged over it, or
/// the patch's value where the base had none.
pub proof fn law_merge_patched_keys(
    b: Seq<(Seq<char>, Json)>,
    p: Seq<(Seq<char>, Json)>,
    k: Seq<char>,
)
    requires
        crate::json::distinct_keys(p),
        crate::json::lookup(p, k) is Some,
    ensures
        crate::json::lookup(crate::json::merged(Json::Object(b), Json::Object(p))->Object_0, k)
            == Some(
            crate::json::combined(crate::json::lookup(b, k), crate::json::lookup(p, k)->0),
        ),
{
    crate::json::lemma_key_pos(p, k);
    let j = key_pos(p, k);
    assert(p[j].0 == k);
    crate::json::lemma_merged_entries_lookup(b, p, p.len(), k);
}

/// Laying the same patch a second time changes nothing more, when the
/// patch's objects have distinct keys at every depth.
pub proof fn law_merge_idempotent(base: Json, patch: Json)
    requires
        crate::json::wf_json(patch),
    ensures
        crate::json::merged(crate::json::merged(base, patch), patch) == crate::json::merged(
            base,
            patch,
        ),
{
    crate::json::lemma_merge_idempotent(base, patch);
}

/// Merging documents whose objects have distinct keys at every depth gives
/// such a document.
pub proof fn law_merge_well_formed(base: Json, patch: Json)
    requires
        crate::json::wf_json(base),
        crate::json::wf_json(patch),
    ensures
        crate::json::wf_json(crate::json::merged(base, patch)),
{
    crate::json::lemma_merge_wf(base, patch);
}

/// A document laid over itself is unchanged.
pub proof fn law_merge_self(doc: Json)
    requires
        crate::json::wf_json(doc),
    ensures
        crate::json::merged(doc, doc) == doc,
{
    crate::json::lemma_self_merge(doc);
}

/// Merging into an object whose keys are distinct gives an object whose keys
/// are distinct.
pub proof fn law_merge_keeps_keys_distinct(b: Seq<(Seq<char>, Json)>, p: Seq<(Seq<char>, Json)>)
    requires
        crate::json::distinct_keys(b),
    ensures
        crate::json::distinct_keys(
            crate::json::merged(Json::Object(b), Json::Object(p))->Object_0,
        ),
{
    crate::json::lemma_merged_entries_distinct(b, p, p.len());
}

/// One level of merging in place (see `shallow_merged`).
pub fn merge_json_objects(base: &mut JsonValue, extra: &JsonValue)
    ensures
        final(base)@ == shallow_merged(old(base)@, extra@),
{
    match extra {
        JsonValue::Object(p) => {
            let mut cur = JsonValue::Null;
            std::mem::swap(&mut cur, base);
            match cur {
                JsonValue::Object(b0) => {
                    let ghost bs = entries_view(b0@);
                    let ghost ps = entries_view(p@);
                    let mut b = b0;
                    let mut i: usize = 0;
                    while i < p.len()
                        invariant
                            i <= p.len(),
                            ps == entries_view(p@),
                            entries_view(b@) == crate::json::inserted_entries(bs, ps, i as nat),
                        decreases p.len() - i,
                    {
                        let ghost acc = entries_view(b@);
                        let k = p[i].0.clone();
                        let v = p[i].1.deep_copy();
                        match find_key(&b, &p[i].0) {
                            Some(j) => {
                                proof {
                                    crate::json::lemma_key_pos(acc, ps[i as int].0);
                                }
                                b.set(j, (k, v));
                                proof {
                                    assert(entries_view(b@) =~= acc.update(j as int, ps[i as int]));
                                }
                            },
                            None => {
                                b.push((k, v));
                                proof {
                                    assert(entries_view(b@) =~= acc.push(ps[i as int]));
                                }
                            },
                        }
                        i += 1;
                    }
                    proof {
                        lemma_object_view(b);
                        lemma_object_view(b0);
                        lemma_object_view(*p);
                    }
                    *base = JsonValue::Object(b);
                },
                _ => {
                    *base = extra.deep_copy();
                },
            }
        },
        _ => {},
    }
}

/// `opts` with the options under `from` merged (one level) into those under
/// `to`, created empty when missing; unchanged when `from` has no options or
/// the two names are the same.
pub open spec fn with_key_copied(opts: Json, from: Seq<char>, to: Seq<char>) -> Json {
    match child(opts, from) {
        None => opts,
        Some(src) => if from == to {
            opts
        } else {
            match opts {
                Json::Object(e) => {
                    let i = key_pos(e, to);
                    if i >= 0 {
                        Json::Object(e.update(i, (to, shallow_merged(e[i].1, src))))
                    } else {
                        Json::Object(e.push((to, shallow_merged(Json::Object(Seq::empty()), src))))
                    }
                },
                _ => opts,
            }
        },
    }
}

/// Copies the engine options stored under `from` into those under `to`.
pub fn copy_engine_options_key(opts: &mut JsonValue, from: &str, to: &str)
    ensures
        final(opts)@ == with_key_copied(old(opts)@, from@, to@),
{
    let fk = owned(from);
    let src = match child_of(opts, &fk) {
        Some(s) => s.deep_copy(),
        None => {
            return ;
        },
    };
    if str_eq(from, to) {
        return ;
    }
    let mut cur = JsonValue::Null;
    std::mem::swap(&mut cur, opts);
    match cur {
        JsonValue::Object(e0) => {
            let ghost es = entries_view(e0@);
            proof {
                lemma_object_view(e0);
            }
            let mut e = e0;
            let tk = owned(to);
            match find_key(&e, &tk) {
                Some(j) => {
                    proof {
                        crate::json::lemma_key_pos(es, to@);
                    }
                    let (k0, mut d) = e.remove(j);
                    merge_json_objects(&mut d, &src);
                    e.insert(j, (k0, d));
                    proof {
                        assert(entries_view(e@) =~= es.update(
                            j as int,
                            (to@, shallow_merged(es[j as int].1, src@)),
                        ));
                    }
                },
                None => {
                    let empty: Vec<(String, JsonValue)> = Vec::new();
                    proof {
                        lemma_object_view(empty);
                        assert(entries_view(empty@) =~= Seq::empty());
                    }
                    let mut d = JsonValue::Object(empty);
                    merge_json_objects(&mut d, &src);
                    e.push((tk, d));
                    proof {
                        assert(entries_view(e@) =~= es.push(
                            (to@, shallow_merged(Json::Object(Seq::empty()), src@)),
                        ));
                    }
                },
            }
            proof {
                lemma_object_view(e);
            }
            *opts = JsonValue::Object(e);
        },
        other => {
            *opts = other;
        },
    }
}

/// The `model` text stored in the options of `engine`, or empty.
pub open spec fn engine_model(opts: Json, engine: Seq<char>) -> Seq<char> {
    match child(opts, engine) {
        Some(o) => text_or_empty(child(o, "model"@)),
        None => Seq::empty(),
    }
}

/// The engine id that replaces a retired one: the sherpa family ids map to
/// the streaming and offline engines, the `online-asr` umbrella to the
/// provider its model names (Volcano by default); `None` for a current id.
pub open spec fn legacy_engine_target(
    from: Seq<char>,
    active_model: Seq<char>,
    hinted: Seq<char>,
) -> Option<Seq<char>> {
    if from == "sherpa-onnx-x-asr-zh-en"@ {
        Some("sherpa-streaming"@)
    } else if from == "sherpa-onnx-sensevoice"@ || from == "sherpa-onnx-funasr-nano"@ {
        Some("sherpa-offline"@)
    } else if from == "online-asr"@ {
        if active_model == "volcano-asr"@ || hinted == "volcano-asr"@ {
            Some("volcano-asr"@)
        } else if active_model == "iflytek-asr"@ || hinted == "iflytek-asr"@ {
            Some("iflytek-asr"@)
        } else {
            Some("volcano-asr"@)
        }
    } else {
        None
    }
}

/// The `model` text of an engine's options.
fn engine_model_of(opts: &JsonValue, engine: &str) -> (r: String)
    ensures
        r@ == engine_model(opts@, engine@),
{
    let ek = owned(engine);
    match child_of(opts, &ek) {
        Some(o) => {
            let mk = owned("model");
            match child_of(o, &mk) {
                Some(JsonValue::Text(t)) => t.clone(),
                _ => String::new(),
            }
        },
        None => String::new(),
    }
}

/// Rewrites a retired engine id (stored in `stt_engine`) to the engine that
/// replaced it, copies its options to the new id, and takes the active model
/// from those options when none is set.
pub fn migrate_legacy_engine_ids(
    stt_engine: &mut String,
    active_model_id: &mut String,
    engine_options: &mut JsonValue,
)
    ensures
        match legacy_engine_target(
            old(stt_engine)@,
            old(active_model_id)@,
            engine_model(old(engine_options)@, "online-asr"@),
        ) {
            None => {
                &&& final(stt_engine)@ == old(stt_engine)@
                &&& final(active_model_id)@ == old(active_model_id)@
                &&& final(engine_options)@ == old(engine_options)@
            },
            Some(to) => {
                let opts = with_key_copied(old(engine_options)@, old(stt_engine)@, to);
                let model = text::trim(engine_model(opts, old(stt_engine)@));
                &&& final(stt_engine)@ == to
                &&& final(engine_options)@ == opts
                &&& final(active_model_id)@ == if text::trim(old(active_model_id)@).len() == 0
                    && model.len() > 0 {
                    model
                } else {
                    old(active_model_id)@
                }
            },
        },
{
    let from = stt_engine.clone();
    let to: &str = if str_eq(from.as_str(), "sherpa-onnx-x-asr-zh-en") {
        "sherpa-streaming"
    } else if str_eq(from.as_str(), "sherpa-onnx-sensevoice") || str_eq(
        from.as_str(),
        "sherpa-onnx-funasr-nano",
    ) {
        "sherpa-offline"
    } else if str_eq(from.as_str(), "online-asr") {
        let hinted = engine_model_of(engine_options, "online-asr");
        if str_eq(active_model_id.as_str(), "volcano-asr") || str_eq(hinted.as_str(), "volcano-asr") {
            "volcano-asr"
        } else if str_eq(active_model_id.as_str(), "iflytek-asr") || str_eq(
            hinted.as_str(),
            "iflytek-asr",
        ) {
            "iflytek-asr"
        } else {
            "volcano-asr"
        }
    } else {
        return ;
    };
    copy_engine_options_key(engine_options, from.as_str(), to);
    if text::is_blank(active_model_id.as_str()) {
        let model = engine_model_of(engine_options, from.as_str());
        let trimmed = text::trim_str(model.as_str());
        if trimmed.len() > 0 {
            *active_model_id = text::string_of(trimmed.as_slice());
        }
    }
    *stt_engine = owned(to);
}

} // verus!

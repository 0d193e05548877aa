//! Game profiles: chat channels, foreground-process matching and hotword
//! import/export.
//!
//! A profile tells the injector how to talk to one game: which keys open and
//! send the chat box, the delays between the steps, the hotwords handed to the
//! recogniser and the chat channels that the channel key cycles through.
//! Reading and writing the profile files is done by the application; this
//! module holds the decisions.

use vstd::prelude::*;
use crate::text;
use crate::text::{
    chars_of, contains_string, copy_strings, eq_ignore_case_chars, owned, push_char, push_str,
    str_eq, trim_chars, string_of,
};

verus! {

/// A chat channel of a game (a game may have several, each with its own way to
/// send). The channel key cycles through them in declaration order; `default`
/// marks the channel used when none is chosen (the first marked one, else the
/// first of the list).
#[derive(Debug, Clone, PartialEq, Eq)]
pub struct ProfileChannel {
    /// Semantic id ("team", "all"), shared between games.
    pub id: String,
    /// Name shown in the overlay.
    pub display_name: String,
    /// Key that opens the chat box for this channel; `None` keeps the profile's.
    pub open_chat_key: Option<String>,
    /// Text put in front of the message (such as "/all ").
    pub text_prefix: Option<String>,
    /// Default-channel mark.
    pub default: bool,
}

/// How to send on one channel, with every choice resolved.
#[derive(Debug, Clone, PartialEq, Eq)]
pub struct ChannelStrategy {
    pub id: String,
    pub display_name: String,
    pub open_chat_key: String,
    pub text_prefix: String,
    pub is_default: bool,
}

/// The characters of a [`ChannelStrategy`].
pub struct ChannelView {
    pub id: Seq<char>,
    pub display_name: Seq<char>,
    pub open_chat_key: Seq<char>,
    pub text_prefix: Seq<char>,
    pub is_default: bool,
}

impl View for ChannelStrategy {
    type V = ChannelView;

    open spec fn view(&self) -> ChannelView {
        ChannelView {
            id: self.id@,
            display_name: self.display_name@,
            open_chat_key: self.open_chat_key@,
            text_prefix: self.text_prefix@,
            is_default: self.is_default,
        }
    }
}

impl ChannelStrategy {
    /// A copy with the same characters.
    pub fn copy(&self) -> (r: ChannelStrategy)
        ensures
            r@ == self@,
    {
        ChannelStrategy {
            id: self.id.clone(),
            display_name: self.display_name.clone(),
            open_chat_key: self.open_chat_key.clone(),
            text_prefix: self.text_prefix.clone(),
            is_default: self.is_default,
        }
    }
}

/// A game profile.
#[derive(Debug, Clone, PartialEq, Eq)]
pub struct GameProfile {
    pub id: String,
    pub display_name: String,
    pub process_names: Vec<String>,
    pub window_title_patterns: Vec<String>,
    pub open_chat_key: String,
    pub send_key: String,
    pub pre_open_delay_ms: u32,
    pub pre_paste_delay_ms: u32,
    pub pre_send_delay_ms: u32,
    /// false: type the text character by character; true: paste it.
    pub prefer_clipboard_paste: bool,
    /// Icon file name under the icons directory.
    pub icon: Option<String>,
    pub hotwords: Vec<String>,
    /// Chat channels; empty means one channel made from `open_chat_key`.
    pub channels: Vec<ProfileChannel>,
    /// Built-in hotwords that the user deleted: never merged back.
    pub removed_builtin_hotwords: Vec<String>,
}

// ---------- channels ----------

/// The characters of an optional string, `fallback` when absent.
pub open spec fn opt_chars(o: Option<String>, fallback: Seq<char>) -> Seq<char> {
    match o {
        Some(s) => s@,
        None => fallback,
    }
}

pub open spec fn is_marked_default() -> spec_fn(ProfileChannel) -> bool {
    |c: ProfileChannel| c.default
}

/// Index of the default channel: the first marked one, else 0.
pub open spec fn default_index(chs: Seq<ProfileChannel>) -> int {
    let r = text::first_match(chs, is_marked_default());
    if r < 0 {
        0
    } else {
        r
    }
}

/// The resolved strategy of a declared channel.
pub open spec fn channel_view(c: ProfileChannel, profile_key: Seq<char>, is_default: bool) -> ChannelView {
    ChannelView {
        id: c.id@,
        display_name: c.display_name@,
        open_chat_key: opt_chars(c.open_chat_key, profile_key),
        text_prefix: opt_chars(c.text_prefix, Seq::empty()),
        is_default,
    }
}

/// The effective channels of a profile, in declaration order: with no channel
/// declared, one default channel made from the profile's own chat key.
pub open spec fn effective_channels(p: GameProfile) -> Seq<ChannelView> {
    if p.channels@.len() == 0 {
        seq![
            ChannelView {
                id: "default"@,
                display_name: p.display_name@,
                open_chat_key: p.open_chat_key@,
                text_prefix: Seq::empty(),
                is_default: true,
            },
        ]
    } else {
        Seq::new(
            p.channels@.len(),
            |i: int| channel_view(p.channels@[i], p.open_chat_key@, i == default_index(p.channels@)),
        )
    }
}

pub open spec fn has_id(id: Seq<char>) -> spec_fn(ChannelView) -> bool {
    |c: ChannelView| c.id == id
}

pub open spec fn is_default_channel() -> spec_fn(ChannelView) -> bool {
    |c: ChannelView| c.is_default
}

/// Index of the channel with the given id, -1 when there is none (or no id).
pub open spec fn channel_index(chs: Seq<ChannelView>, id: Option<Seq<char>>) -> int {
    match id {
        Some(x) => text::first_match(chs, has_id(x)),
        None => -1,
    }
}

/// The strategy for a channel id: that channel, else the default one.
pub open spec fn strategy_for(p: GameProfile, id: Option<Seq<char>>) -> ChannelView {
    let chs = effective_channels(p);
    let hit = channel_index(chs, id);
    if hit >= 0 {
        chs[hit]
    } else {
        chs[text::first_match(chs, is_default_channel())]
    }
}

/// The id the channel key moves to: the channel after the current one (after
/// the default one when the current id is absent or unknown), cyclically;
/// none for a game with a single channel.
pub open spec fn next_channel(p: GameProfile, current: Option<Seq<char>>) -> Option<Seq<char>> {
    let chs = effective_channels(p);
    if chs.len() < 2 {
        None
    } else {
        let hit = channel_index(chs, current);
        let d = text::first_match(chs, is_default_channel());
        let base = if hit >= 0 {
            hit
        } else if d >= 0 {
            d
        } else {
            0
        };
        Some(chs[(base + 1) % (chs.len() as int)].id)
    }
}

pub open spec fn opt_str_chars(o: Option<&str>) -> Option<Seq<char>> {
    match o {
        Some(s) => Some(s@),
        None => None,
    }
}

/// Exactly one effective channel is the default one.
pub proof fn lemma_effective_default(p: GameProfile)
    ensures
        effective_channels(p).len() >= 1,
        0 <= text::first_match(effective_channels(p), is_default_channel()) < effective_channels(
            p,
        ).len(),
        forall|i: int|
            0 <= i < effective_channels(p).len() ==> (#[trigger] effective_channels(p)[i]).is_default
                == (i == text::first_match(effective_channels(p), is_default_channel())),
{
    let chs = effective_channels(p);
    if p.channels@.len() == 0 {
        text::lemma_first_match_at(chs, is_default_channel(), 0);
    } else {
        text::lemma_first_match(p.channels@, is_marked_default());
        let d = default_index(p.channels@);
        assert(chs[d].is_default);
        assert forall|j: int| 0 <= j < d implies !is_default_channel()(#[trigger] chs[j]) by {}
        text::lemma_first_match_at(chs, is_default_channel(), d);
    }
}

fn default_channel_index(chs: &Vec<ProfileChannel>) -> (d: usize)
    ensures
        d == default_index(chs@),
{
    let mut i: usize = 0;
    while i < chs.len()
        invariant
            i <= chs.len(),
            forall|j: int| 0 <= j < i ==> !is_marked_default()(#[trigger] chs@[j]),
        decreases chs.len() - i,
    {
        if chs[i].default {
            proof {
                text::lemma_first_match_at(chs@, is_marked_default(), i as int);
            }
            return i;
        }
        i += 1;
    }
    proof {
        text::lemma_first_match_none(chs@, is_marked_default());
    }
    0
}

fn opt_or(o: &Option<String>, fallback: &String) -> (r: String)
    ensures
        r@ == opt_chars(*o, fallback@),
{
    match o {
        Some(s) => s.clone(),
        None => fallback.clone(),
    }
}

fn index_of_id(chs: &Vec<ChannelStrategy>, id: Option<&str>) -> (r: Option<usize>)
    ensures
        match r {
            Some(i) => i < chs@.len() && i as int == channel_index(
                Seq::new(chs@.len(), |k: int| chs@[k]@),
                opt_str_chars(id),
            ),
            None => channel_index(Seq::new(chs@.len(), |k: int| chs@[k]@), opt_str_chars(id)) < 0,
        },
{
    let ghost vs = Seq::new(chs@.len(), |k: int| chs@[k]@);
    match id {
        None => None,
        Some(x) => {
            let mut i: usize = 0;
            while i < chs.len()
                invariant
                    i <= chs.len(),
                    id == Some(x),
                    vs == Seq::new(chs@.len(), |k: int| chs@[k]@),
                    forall|j: int| 0 <= j < i ==> !has_id(x@)(#[trigger] vs[j]),
                decreases chs.len() - i,
            {
                if str_eq(chs[i].id.as_str(), x) {
                    proof {
                        text::lemma_first_match_at(vs, has_id(x@), i as int);
                    }
                    return Some(i);
                }
                i += 1;
            }
            proof {
                text::lemma_first_match_none(vs, has_id(x@));
            }
            None
        },
    }
}

fn index_of_default(chs: &Vec<ChannelStrategy>) -> (r: usize)
    requires
        exists|j: int| 0 <= j < chs@.len() && chs@[j].is_default,
    ensures
        r < chs@.len(),
        r as int == text::first_match(Seq::new(chs@.len(), |k: int| chs@[k]@), is_default_channel()),
{
    let ghost vs = Seq::new(chs@.len(), |k: int| chs@[k]@);
    let mut i: usize = 0;
    while i < chs.len()
        invariant
            i <= chs.len(),
            vs == Seq::new(chs@.len(), |k: int| chs@[k]@),
            forall|j: int| 0 <= j < i ==> !is_default_channel()(#[trigger] vs[j]),
            exists|j: int| 0 <= j < chs@.len() && chs@[j].is_default,
        decreases chs.len() - i,
    {
        if chs[i].is_default {
            proof {
                text::lemma_first_match_at(vs, is_default_channel(), i as int);
            }
            return i;
        }
        i += 1;
    }
    proof {
        let j = choose|j: int| 0 <= j < chs@.len() && chs@[j].is_default;
        assert(!is_default_channel()(vs[j]));
    }
    0
}

impl GameProfile {
    /// The effective channels, in declaration order (the order the channel key
    /// cycles through). A profile without channels gets one default channel
    /// made from its own chat key, so single-channel games behave as before.
    pub fn channels_effective(&self) -> (r: Vec<ChannelStrategy>)
        ensures
            r@.len() == effective_channels(*self).len(),
            forall|i: int| 0 <= i < r@.len() ==> (#[trigger] r@[i])@ == effective_channels(*self)[i],
    {
        let mut out: Vec<ChannelStrategy> = Vec::new();
        if self.channels.len() == 0 {
            out.push(
                ChannelStrategy {
                    id: owned("default"),
                    display_name: self.display_name.clone(),
                    open_chat_key: self.open_chat_key.clone(),
                    text_prefix: String::new(),
                    is_default: true,
                },
            );
            return out;
        }
        let d = default_channel_index(&self.channels);
        let mut i: usize = 0;
        while i < self.channels.len()
            invariant
                i <= self.channels@.len(),
                self.channels@.len() > 0,
                d == default_index(self.channels@),
                out@.len() == i,
                forall|k: int|
                    0 <= k < i ==> (#[trigger] out@[k])@ == effective_channels(*self)[k],
            decreases self.channels.len() - i,
        {
            let c = &self.channels[i];
            let strategy = ChannelStrategy {
                id: c.id.clone(),
                display_name: c.display_name.clone(),
                open_chat_key: opt_or(&c.open_chat_key, &self.open_chat_key),
                text_prefix: opt_or(&c.text_prefix, &String::new()),
                is_default: i == d,
            };
            out.push(strategy);
            i += 1;
        }
        out
    }

    /// The strategy for a channel id; no id or an unknown one gives the
    /// default channel (the fallback of the send path).
    pub fn channel_strategy(&self, id: Option<&str>) -> (r: ChannelStrategy)
        ensures
            r@ == strategy_for(*self, opt_str_chars(id)),
    {
        let channels = self.channels_effective();
        let ghost chs = effective_channels(*self);
        proof {
            lemma_effective_default(*self);
            assert(Seq::new(channels@.len(), |k: int| channels@[k]@) =~= chs);
        }
        match index_of_id(&channels, id) {
            Some(i) => channels[i].copy(),
            None => {
                proof {
                    let d = text::first_match(chs, is_default_channel());
                    assert(channels@[d].is_default);
                }
                let d = index_of_default(&channels);
                channels[d].copy()
            },
        }
    }

    /// The channel after the current one, cyclically from the default channel
    /// when the current id is absent or unknown; `None` for a single channel.
    pub fn next_channel_id(&self, current: Option<&str>) -> (r: Option<String>)
        ensures
            match r {
                Some(s) => next_channel(*self, opt_str_chars(current)) == Some(s@),
                None => next_channel(*self, opt_str_chars(current)).is_none(),
            },
    {
        let channels = self.channels_effective();
        let ghost chs = effective_channels(*self);
        proof {
            lemma_effective_default(*self);
            assert(Seq::new(channels@.len(), |k: int| channels@[k]@) =~= chs);
        }
        if channels.len() < 2 {
            return None;
        }
        let base = match index_of_id(&channels, current) {
            Some(i) => i,
            None => {
                proof {
                    let d = text::first_match(chs, is_default_channel());
                    assert(channels@[d].is_default);
                }
                index_of_default(&channels)
            },
        };
        let next = (base + 1) % channels.len();
        Some(channels[next].id.clone())
    }
}

// ---------- copies ----------

impl ProfileChannel {
    /// A copy equal to this channel.
    pub fn copy(&self) -> (r: ProfileChannel)
        ensures
            r == *self,
    {
        let open_chat_key = match &self.open_chat_key {
            Some(k) => Some(k.clone()),
            None => None,
        };
        let text_prefix = match &self.text_prefix {
            Some(t) => Some(t.clone()),
            None => None,
        };
        ProfileChannel {
            id: self.id.clone(),
            display_name: self.display_name.clone(),
            open_chat_key,
            text_prefix,
            default: self.default,
        }
    }
}

fn copy_channels(v: &Vec<ProfileChannel>) -> (r: Vec<ProfileChannel>)
    ensures
        r@ == v@,
{
    let mut r: Vec<ProfileChannel> = Vec::new();
    let mut i: usize = 0;
    while i < v.len()
        invariant
            i <= v.len(),
            r@ == v@.take(i as int),
        decreases v.len() - i,
    {
        r.push(v[i].copy());
        assert(v@.take(i as int).push(v@[i as int]) =~= v@.take(i + 1));
        i += 1;
    }
    assert(v@.take(v.len() as int) =~= v@);
    r
}

/// Two profiles with the same contents.
pub open spec fn same_profile(a: GameProfile, b: GameProfile) -> bool {
    &&& a.id == b.id
    &&& a.display_name == b.display_name
    &&& a.process_names@ == b.process_names@
    &&& a.window_title_patterns@ == b.window_title_patterns@
    &&& a.open_chat_key == b.open_chat_key
    &&& a.send_key == b.send_key
    &&& a.pre_open_delay_ms == b.pre_open_delay_ms
    &&& a.pre_paste_delay_ms == b.pre_paste_delay_ms
    &&& a.pre_send_delay_ms == b.pre_send_delay_ms
    &&& a.prefer_clipboard_paste == b.prefer_clipboard_paste
    &&& a.icon == b.icon
    &&& a.hotwords@ == b.hotwords@
    &&& a.channels@ == b.channels@
    &&& a.removed_builtin_hotwords@ == b.removed_builtin_hotwords@
}

impl GameProfile {
    /// A copy with the same contents.
    pub fn copy(&self) -> (r: GameProfile)
        ensures
            same_profile(r, *self),
    {
        let icon = match &self.icon {
            Some(i) => Some(i.clone()),
            None => None,
        };
        GameProfile {
            id: self.id.clone(),
            display_name: self.display_name.clone(),
            process_names: copy_strings(&self.process_names),
            window_title_patterns: copy_strings(&self.window_title_patterns),
            open_chat_key: self.open_chat_key.clone(),
            send_key: self.send_key.clone(),
            pre_open_delay_ms: self.pre_open_delay_ms,
            pre_paste_delay_ms: self.pre_paste_delay_ms,
            pre_send_delay_ms: self.pre_send_delay_ms,
            prefer_clipboard_paste: self.prefer_clipboard_paste,
            icon,
            hotwords: copy_strings(&self.hotwords),
            channels: copy_channels(&self.channels),
            removed_builtin_hotwords: copy_strings(&self.removed_builtin_hotwords),
        }
    }
}

// ---------- matching the foreground process ----------

/// Some listed process name equals `name`, ASCII case ignored.
pub open spec fn names_match(names: Seq<String>, name: Seq<char>) -> bool {
    exists|i: int| 0 <= i < names.len() && text::eq_ignore_case(#[trigger] names[i]@, name)
}

/// A profile without process names matches every process; otherwise one of
/// its names must equal the process name, ASCII case ignored.
pub open spec fn process_matches(p: GameProfile, name: Seq<char>) -> bool {
    p.process_names@.len() == 0 || names_match(p.process_names@, name)
}

pub open spec fn specific_match(name: Seq<char>) -> spec_fn(GameProfile) -> bool {
    |p: GameProfile| p.process_names@.len() > 0 && process_matches(p, name)
}

pub open spec fn generic_match(name: Seq<char>) -> spec_fn(GameProfile) -> bool {
    |p: GameProfile| p.process_names@.len() == 0 && process_matches(p, name)
}

/// The profile chosen for a process: the first specific profile that matches,
/// else the first catch-all one; -1 when neither exists.
pub open spec fn chosen_profile(ps: Seq<GameProfile>, name: Seq<char>) -> int {
    let a = text::first_match(ps, specific_match(name));
    if a >= 0 {
        a
    } else {
        text::first_match(ps, generic_match(name))
    }
}

/// Whether the process name selects this profile.
pub fn matches_process(profile: &GameProfile, process_name: &str) -> (r: bool)
    ensures
        r == process_matches(*profile, process_name@),
{
    if profile.process_names.len() == 0 {
        return true;
    }
    let target = chars_of(process_name);
    let mut i: usize = 0;
    while i < profile.process_names.len()
        invariant
            i <= profile.process_names@.len(),
            target@ == process_name@,
            forall|k: int|
                0 <= k < i ==> !text::eq_ignore_case(
                    (#[trigger] profile.process_names@[k])@,
                    process_name@,
                ),
        decreases profile.process_names.len() - i,
    {
        let candidate = chars_of(profile.process_names[i].as_str());
        if eq_ignore_case_chars(candidate.as_slice(), target.as_slice()) {
            return true;
        }
        i += 1;
    }
    false
}

/// The profile for a foreground process: a specific profile (one with process
/// names) before the catch-all one.
pub fn find_by_process(profiles: &[GameProfile], process_name: &str) -> (r: Option<GameProfile>)
    ensures
        match r {
            Some(p) => 0 <= chosen_profile(profiles@, process_name@) && same_profile(
                p,
                profiles@[chosen_profile(profiles@, process_name@)],
            ),
            None => chosen_profile(profiles@, process_name@) < 0,
        },
{
    let ghost name = process_name@;
    let mut i: usize = 0;
    while i < profiles.len()
        invariant
            i <= profiles@.len(),
            name == process_name@,
            forall|k: int| 0 <= k < i ==> !specific_match(name)(#[trigger] profiles@[k]),
        decreases profiles.len() - i,
    {
        let p = &profiles[i];
        if p.process_names.len() > 0 && matches_process(p, process_name) {
            proof {
                text::lemma_first_match_at(profiles@, specific_match(name), i as int);
            }
            return Some(p.copy());
        }
        i += 1;
    }
    proof {
        text::lemma_first_match_none(profiles@, specific_match(name));
    }
    let mut j: usize = 0;
    while j < profiles.len()
        invariant
            j <= profiles@.len(),
            name == process_name@,
            text::first_match(profiles@, specific_match(name)) == -1,
            forall|k: int| 0 <= k < j ==> !generic_match(name)(#[trigger] profiles@[k]),
        decreases profiles.len() - j,
    {
        let p = &profiles[j];
        if p.process_names.len() == 0 {
            proof {
                text::lemma_first_match_at(profiles@, generic_match(name), j as int);
            }
            return Some(p.copy());
        }
        j += 1;
    }
    proof {
        text::lemma_first_match_none(profiles@, generic_match(name));
    }
    None
}

// ---------- built-in profiles ----------

fn strings_of(lits: &[&str]) -> (r: Vec<String>)
    ensures
        r@.len() == lits@.len(),
        forall|i: int| 0 <= i < lits@.len() ==> (#[trigger] r@[i])@ == lits@[i]@,
{
    let mut r: Vec<String> = Vec::new();
    let mut i: usize = 0;
    while i < lits.len()
        invariant
            i <= lits@.len(),
            r@.len() == i,
            forall|k: int| 0 <= k < i ==> (#[trigger] r@[k])@ == lits@[k]@,
        decreases lits.len() - i,
    {
        r.push(owned(lits[i]));
        i += 1;
    }
    r
}

/// The built-in League of Legends hotwords.
pub open spec fn lol_hotwords() -> Seq<Seq<char>> {
    seq![
        "打野"@, "上单"@, "中单"@, "ADC"@, "辅助"@, "大龙"@, "小龙"@, "峡谷先锋"@, "提莫"@,
        "悠米"@, "亚索"@, "盲僧"@, "插眼"@, "集合"@,
    ]
}

/// What the built-in League of Legends profile holds.
pub open spec fn is_builtin_lol(r: GameProfile) -> bool {
    &&& r.id@ == "lol"@
    &&& r.display_name@ == "英雄联盟"@
    &&& r.process_names@.len() == 1
    &&& r.process_names@[0]@ == "League of Legends.exe"@
    &&& r.window_title_patterns@.len() == 1
    &&& r.window_title_patterns@[0]@ == "League of Legends (TM) Client"@
    &&& r.open_chat_key@ == "Enter"@
    &&& r.send_key@ == "Enter"@
    &&& r.pre_open_delay_ms == 20
    &&& r.pre_paste_delay_ms == 20
    &&& r.pre_send_delay_ms == 20
    &&& !r.prefer_clipboard_paste
    &&& r.icon matches Some(i) && i@ == "lol-kotone.webp"@
    &&& text::views(r.hotwords@) == lol_hotwords()
    &&& r.channels@.len() == 2
    &&& r.channels@[0].id@ == "team"@
    &&& r.channels@[0].display_name@ == "队伍"@
    &&& r.channels@[0].open_chat_key.is_none()
    &&& r.channels@[0].text_prefix.is_none()
    &&& r.channels@[0].default
    &&& r.channels@[1].id@ == "all"@
    &&& r.channels@[1].display_name@ == "所有人"@
    &&& r.channels@[1].open_chat_key matches Some(k) && k@ == "Shift+Enter"@
    &&& r.channels@[1].text_prefix.is_none()
    &&& !r.channels@[1].default
    &&& r.removed_builtin_hotwords@.len() == 0
}

/// What the built-in catch-all profile holds.
pub open spec fn is_builtin_generic(r: GameProfile) -> bool {
    &&& r.id@ == "generic"@
    &&& r.display_name@ == "通用"@
    &&& r.process_names@.len() == 0
    &&& r.window_title_patterns@.len() == 0
    &&& r.open_chat_key@ == "Enter"@
    &&& r.send_key@ == "Enter"@
    &&& r.pre_open_delay_ms == 20
    &&& r.pre_paste_delay_ms == 20
    &&& r.pre_send_delay_ms == 20
    &&& !r.prefer_clipboard_paste
    &&& r.icon.is_none()
    &&& r.hotwords@.len() == 0
    &&& r.channels@.len() == 0
    &&& r.removed_builtin_hotwords@.len() == 0
}

impl GameProfile {
    /// The built-in League of Legends profile: its client process, Enter to
    /// open and to send, 20 ms before each step, typed (not pasted) text, a
    /// team channel (the default) and an all-players channel on Shift+Enter.
    pub fn builtin_lol() -> (r: GameProfile)
        ensures
            is_builtin_lol(r),
    {
        let words: [&str; 14] = [
            "打野",
            "上单",
            "中单",
            "ADC",
            "辅助",
            "大龙",
            "小龙",
            "峡谷先锋",
            "提莫",
            "悠米",
            "亚索",
            "盲僧",
            "插眼",
            "集合",
        ];
        let hotwords = strings_of(&words);
        proof {
            assert(text::views(hotwords@) =~= lol_hotwords());
        }
        let mut process_names: Vec<String> = Vec::new();
        process_names.push(owned("League of Legends.exe"));
        let mut window_title_patterns: Vec<String> = Vec::new();
        window_title_patterns.push(owned("League of Legends (TM) Client"));
        let mut channels: Vec<ProfileChannel> = Vec::new();
        channels.push(
            ProfileChannel {
                id: owned("team"),
                display_name: owned("队伍"),
                open_chat_key: None,
                text_prefix: None,
                default: true,
            },
        );
        channels.push(
            ProfileChannel {
                id: owned("all"),
                display_name: owned("所有人"),
                open_chat_key: Some(owned("Shift+Enter")),
                text_prefix: None,
                default: false,
            },
        );
        GameProfile {
            id: owned("lol"),
            display_name: owned("英雄联盟"),
            process_names,
            window_title_patterns,
            open_chat_key: owned("Enter"),
            send_key: owned("Enter"),
            pre_open_delay_ms: 20,
            pre_paste_delay_ms: 20,
            pre_send_delay_ms: 20,
            prefer_clipboard_paste: false,
            icon: Some(owned("lol-kotone.webp")),
            hotwords,
            channels,
            removed_builtin_hotwords: Vec::new(),
        }
    }

    /// The built-in catch-all profile: no process names (it matches any
    /// foreground window), Enter to open and to send, no hotwords, no icon
    /// and no declared channels.
    pub fn builtin_generic() -> (r: GameProfile)
        ensures
            is_builtin_generic(r),
    {
        GameProfile {
            id: owned("generic"),
            display_name: owned("通用"),
            process_names: Vec::new(),
            window_title_patterns: Vec::new(),
            open_chat_key: owned("Enter"),
            send_key: owned("Enter"),
            pre_open_delay_ms: 20,
            pre_paste_delay_ms: 20,
            pre_send_delay_ms: 20,
            prefer_clipboard_paste: false,
            icon: None,
            hotwords: Vec::new(),
            channels: Vec::new(),
            removed_builtin_hotwords: Vec::new(),
        }
    }
}

// ---------- hotword import and export ----------

/// The export text: each hotword followed by a newline.
pub open spec fn export_text(ws: Seq<Seq<char>>) -> Seq<char>
    decreases ws.len(),
{
    if ws.len() == 0 {
        Seq::empty()
    } else {
        export_text(ws.drop_last()) + ws.last() + seq!['\n']
    }
}

/// The pieces of `s` between newlines (at least one, possibly empty).
pub open spec fn split_lines(s: Seq<char>) -> Seq<Seq<char>>
    decreases s.len(),
{
    if s.len() == 0 {
        seq![Seq::empty()]
    } else {
        let prev = split_lines(s.drop_last());
        if s.last() == '\n' {
            prev.push(Seq::empty())
        } else {
            prev.update(prev.len() - 1, prev.last().push(s.last()))
        }
    }
}

/// One imported line: trimmed, kept unless blank or already present.
pub open spec fn import_line(acc: Seq<Seq<char>>, line: Seq<char>) -> Seq<Seq<char>> {
    let w = text::trim(line);
    if w.len() == 0 || acc.contains(w) {
        acc
    } else {
        acc.push(w)
    }
}

pub open spec fn import_lines(lines: Seq<Seq<char>>) -> Seq<Seq<char>>
    decreases lines.len(),
{
    if lines.len() == 0 {
        Seq::empty()
    } else {
        import_line(import_lines(lines.drop_last()), lines.last())
    }
}

/// The hotwords of an import file: one per line, trimmed, blank lines
/// skipped, repeats within the file dropped (first occurrence kept, order
/// kept). A carriage return before a newline is whitespace, so trimming
/// removes it as `str::lines` does.
pub open spec fn import_text(s: Seq<char>) -> Seq<Seq<char>> {
    import_lines(split_lines(s))
}

/// The export format: UTF-8 text, one hotword per line, each line ended by a
/// newline (an empty list gives an empty text).
pub fn format_hotwords_export(hotwords: &[String]) -> (r: String)
    ensures
        r@ == export_text(text::views(hotwords@)),
{
    let mut out = String::new();
    let mut i: usize = 0;
    while i < hotwords.len()
        invariant
            i <= hotwords@.len(),
            out@ == export_text(text::views(hotwords@.take(i as int))),
        decreases hotwords.len() - i,
    {
        proof {
            let a = text::views(hotwords@.take(i + 1));
            assert(a.drop_last() =~= text::views(hotwords@.take(i as int)));
            assert(a.last() == hotwords@[i as int]@);
        }
        push_str(&mut out, hotwords[i].as_str());
        push_char(&mut out, '\n');
        i += 1;
    }
    assert(hotwords@.take(hotwords@.len() as int) =~= hotwords@);
    out
}

fn push_import_line(acc: &mut Vec<String>, line: &Vec<char>)
    ensures
        text::views(final(acc)@) == import_line(text::views(old(acc)@), line@),
{
    let w = trim_chars(line.as_slice());
    if w.len() == 0 {
        return;
    }
    let word = string_of(w.as_slice());
    if contains_string(acc, &word) {
        return;
    }
    acc.push(word);
    assert(text::views(acc@) =~= text::views(old(acc)@).push(word@));
}

/// Parses an import file (see [`import_text`]).
pub fn parse_hotwords_import(text: &str) -> (r: Vec<String>)
    ensures
        text::views(r@) == import_text(text@),
{
    let chars = chars_of(text);
    let mut acc: Vec<String> = Vec::new();
    let mut line: Vec<char> = Vec::new();
    let ghost mut done: Seq<Seq<char>> = Seq::empty();
    let mut i: usize = 0;
    assert(chars@.take(0) =~= Seq::<char>::empty());
    while i < chars.len()
        invariant
            i <= chars@.len(),
            chars@ == text@,
            split_lines(chars@.take(i as int)) == done.push(line@),
            text::views(acc@) == import_lines(done),
        decreases chars.len() - i,
    {
        let c = chars[i];
        proof {
            assert(chars@.take(i + 1).drop_last() =~= chars@.take(i as int));
        }
        if c == '\n' {
            push_import_line(&mut acc, &line);
            proof {
                assert(done.push(line@).drop_last() =~= done);
                done = done.push(line@);
            }
            line = Vec::new();
        } else {
            line.push(c);
            proof {
                assert(done.push(line@.drop_last()).update(done.len() as int, line@) =~= done.push(
                    line@,
                ));
            }
        }
        i += 1;
    }
    push_import_line(&mut acc, &line);
    proof {
        assert(chars@.take(chars@.len() as int) =~= chars@);
        assert(done.push(line@).drop_last() =~= done);
    }
    acc
}

/// Counts of a hotword merge.
#[derive(Debug, Clone, Copy, Default, PartialEq, Eq)]
pub struct HotwordMergeReport {
    /// Hotwords actually added.
    pub added: usize,
    /// Incoming hotwords skipped as already present.
    pub duplicates: usize,
    /// Hotwords after the merge.
    pub total: usize,
}

/// Merging incoming hotwords one by one: one already present is counted as a
/// duplicate, a new one is appended. Gives the list and the two counts.
pub open spec fn merge_words(existing: Seq<Seq<char>>, incoming: Seq<Seq<char>>) -> (Seq<Seq<char>>, nat, nat)
    decreases incoming.len(),
{
    if incoming.len() == 0 {
        (existing, 0, 0)
    } else {
        let (m, a, d) = merge_words(existing, incoming.drop_last());
        let w = incoming.last();
        if m.contains(w) {
            (m, a, d + 1)
        } else {
            (m.push(w), a + 1, d)
        }
    }
}

/// Merges imported hotwords: those equal to an existing one are skipped, the
/// others are appended in order; the existing order is kept.
pub fn merge_hotwords(existing: &[String], incoming: &[String]) -> (r: (Vec<String>, HotwordMergeReport))
    ensures
        text::views(r.0@) == merge_words(text::views(existing@), text::views(incoming@)).0,
        r.1.added == merge_words(text::views(existing@), text::views(incoming@)).1,
        r.1.duplicates == merge_words(text::views(existing@), text::views(incoming@)).2,
        r.1.total == r.0@.len(),
{
    let mut merged: Vec<String> = Vec::new();
    let mut k: usize = 0;
    while k < existing.len()
        invariant
            k <= existing@.len(),
            merged@ == existing@.take(k as int),
        decreases existing.len() - k,
    {
        merged.push(existing[k].clone());
        assert(existing@.take(k as int).push(existing@[k as int]) =~= existing@.take(k + 1));
        k += 1;
    }
    assert(existing@.take(existing@.len() as int) =~= existing@);
    let mut added: usize = 0;
    let mut duplicates: usize = 0;
    let mut i: usize = 0;
    assert(incoming@.take(0) =~= Seq::<String>::empty());
    assert(text::views(incoming@.take(0)) =~= Seq::<Seq<char>>::empty());
    while i < incoming.len()
        invariant
            i <= incoming@.len(),
            added + duplicates == i,
            (text::views(merged@), added as nat, duplicates as nat) == merge_words(
                text::views(existing@),
                text::views(incoming@.take(i as int)),
            ),
        decreases incoming.len() - i,
    {
        proof {
            let a = text::views(incoming@.take(i + 1));
            assert(a.drop_last() =~= text::views(incoming@.take(i as int)));
            assert(a.last() == incoming@[i as int]@);
        }
        let w = &incoming[i];
        if contains_string(&merged, w) {
            duplicates += 1;
        } else {
            let ghost before = merged@;
            merged.push(w.clone());
            assert(text::views(merged@) =~= text::views(before).push(w@));
            added += 1;
        }
        i += 1;
    }
    assert(incoming@.take(incoming@.len() as int) =~= incoming@);
    let total = merged.len();
    (merged, HotwordMergeReport { added, duplicates, total })
}

// ---------- laws ----------

/// Exactly one effective channel is the default one, and a profile always has
/// at least one effective channel.
pub proof fn law_one_default_channel(p: GameProfile) -> (d: int)
    ensures
        effective_channels(p).len() >= 1,
        0 <= d < effective_channels(p).len(),
        forall|i: int|
            0 <= i < effective_channels(p).len() ==> (#[trigger] effective_channels(p)[i]).is_default
                == (i == d),
{
    lemma_effective_default(p);
    text::first_match(effective_channels(p), is_default_channel())
}

/// The channel key always lands on an effective channel, and it can move only
/// when there are at least two channels.
pub proof fn law_next_channel_is_effective(p: GameProfile, current: Option<Seq<char>>)
    ensures
        next_channel(p, current) is Some <==> effective_channels(p).len() >= 2,
        next_channel(p, current) matches Some(id) ==> exists|i: int|
            0 <= i < effective_channels(p).len() && (#[trigger] effective_channels(p)[i]).id == id,
{
    let chs = effective_channels(p);
    lemma_effective_default(p);
    if chs.len() >= 2 {
        match current {
            Some(x) => text::lemma_first_match(chs, has_id(x)),
            None => {},
        }
        let hit = channel_index(chs, current);
        let d = text::first_match(chs, is_default_channel());
        let base = if hit >= 0 {
            hit
        } else if d >= 0 {
            d
        } else {
            0
        };
        let n = (base + 1) % (chs.len() as int);
        assert(0 <= n < chs.len());
        assert(chs[n].id == next_channel(p, current).unwrap());
    }
}

/// The channel key moves forward in declaration order: from the channel at
/// position `i` (the first one with the current id, or the default one when
/// the current id is absent or unknown) to the one declared right after it,
/// and from the last one back to the first.
pub proof fn law_next_channel_cycles_forward(p: GameProfile, current: Option<Seq<char>>, i: int)
    requires
        effective_channels(p).len() >= 2,
        0 <= i < effective_channels(p).len(),
        match current {
            Some(c) => (effective_channels(p)[i].id == c && forall|j: int|
                0 <= j < i ==> (#[trigger] effective_channels(p)[j]).id != c) || (effective_channels(
                p,
            )[i].is_default && forall|j: int|
                0 <= j < effective_channels(p).len() ==> (#[trigger] effective_channels(p)[j]).id != c),
            None => effective_channels(p)[i].is_default,
        },
    ensures
        i + 1 < effective_channels(p).len() ==> next_channel(p, current) == Some(
            effective_channels(p)[i + 1].id,
        ),
        i + 1 == effective_channels(p).len() ==> next_channel(p, current) == Some(
            effective_channels(p)[0].id,
        ),
{
    let chs = effective_channels(p);
    lemma_effective_default(p);
    let d = text::first_match(chs, is_default_channel());
    match current {
        Some(c) => {
            if chs[i].id == c && forall|j: int| 0 <= j < i ==> (#[trigger] chs[j]).id != c {
                assert forall|j: int| 0 <= j < i implies !has_id(c)(#[trigger] chs[j]) by {}
                text::lemma_first_match_at(chs, has_id(c), i);
            } else {
                assert forall|j: int| 0 <= j < chs.len() implies !has_id(c)(#[trigger] chs[j]) by {}
                text::lemma_first_match_none(chs, has_id(c));
                assert(chs[i].is_default == (i == d));
            }
        },
        None => {
            assert(chs[i].is_default == (i == d));
        },
    }
    if i + 1 == chs.len() {
        assert((i + 1) % (chs.len() as int) == 0) by (nonlinear_arith)
            requires
                i + 1 == chs.len(),
                chs.len() >= 2,
        ;
    } else {
        assert((i + 1) % (chs.len() as int) == i + 1) by (nonlinear_arith)
            requires
                0 <= i,
                i + 1 < chs.len(),
        ;
    }
}

/// A specific profile that matches the process wins over the catch-all one.
pub proof fn law_specific_profile_preferred(ps: Seq<GameProfile>, name: Seq<char>, i: int)
    requires
        0 <= i < ps.len(),
        ps[i].process_names@.len() > 0,
        process_matches(ps[i], name),
    ensures
        0 <= chosen_profile(ps, name) <= i,
        ps[chosen_profile(ps, name)].process_names@.len() > 0,
        process_matches(ps[chosen_profile(ps, name)], name),
{
    text::lemma_first_match(ps, specific_match(name));
    assert(specific_match(name)(ps[i]));
}

/// Without any matching specific profile, the catch-all profile is chosen when
/// there is one.
pub proof fn law_catch_all_fallback(ps: Seq<GameProfile>, name: Seq<char>, i: int)
    requires
        0 <= i < ps.len(),
        ps[i].process_names@.len() == 0,
        forall|j: int| 0 <= j < ps.len() ==> !(#[trigger] specific_match(name)(ps[j])),
    ensures
        0 <= chosen_profile(ps, name) <= i,
        ps[chosen_profile(ps, name)].process_names@.len() == 0,
{
    text::lemma_first_match(ps, specific_match(name));
    text::lemma_first_match(ps, generic_match(name));
    assert(generic_match(name)(ps[i]));
}

/// A merge adds each incoming hotword or counts it as a duplicate, never
/// reorders or drops an existing hotword, and leaves every incoming hotword
/// present.
pub proof fn law_merge_counts(existing: Seq<Seq<char>>, incoming: Seq<Seq<char>>)
    ensures
        merge_words(existing, incoming).1 + merge_words(existing, incoming).2 == incoming.len(),
        merge_words(existing, incoming).0.len() == existing.len() + merge_words(existing, incoming).1,
        merge_words(existing, incoming).0.take(existing.len() as int) == existing,
        forall|k: int|
            0 <= k < incoming.len() ==> merge_words(existing, incoming).0.contains(
                #[trigger] incoming[k],
            ),
    decreases incoming.len(),
{
    if incoming.len() > 0 {
        let prev = incoming.drop_last();
        law_merge_counts(existing, prev);
        let (m, a, d) = merge_words(existing, prev);
        let w = incoming.last();
        let m2 = merge_words(existing, incoming).0;
        assert forall|k: int| 0 <= k < incoming.len() implies m2.contains(#[trigger] incoming[k]) by {
            if k < incoming.len() - 1 {
                assert(prev[k] == incoming[k]);
                assert(m.contains(prev[k]));
                if !m.contains(w) {
                    let j = choose|j: int| 0 <= j < m.len() && m[j] == prev[k];
                    assert(m.push(w)[j] == prev[k]);
                }
            } else if !m.contains(w) {
                assert(m.push(w)[m.len() as int] == w);
            }
        }
        if !m.contains(w) {
            assert(m.push(w).take(existing.len() as int) =~= m.take(existing.len() as int));
        }
    }
}

proof fn lemma_split_append_plain(s: Seq<char>, t: Seq<char>)
    requires
        !t.contains('\n'),
    ensures
        split_lines(s + t) == split_lines(s).update(
            split_lines(s).len() - 1,
            split_lines(s).last() + t,
        ),
        split_lines(s + t).len() == split_lines(s).len(),
    decreases t.len(),
{
    lemma_split_lines_nonempty(s);
    if t.len() == 0 {
        assert(s + t =~= s);
        assert(split_lines(s).last() + t =~= split_lines(s).last());
        assert(split_lines(s).update(split_lines(s).len() - 1, split_lines(s).last())
            =~= split_lines(s));
    } else {
        let t0 = t.drop_last();
        assert(!t0.contains('\n')) by {
            if t0.contains('\n') {
                let j = choose|j: int| 0 <= j < t0.len() && t0[j] == '\n';
                assert(t[j] == '\n');
            }
        }
        lemma_split_append_plain(s, t0);
        assert((s + t).drop_last() =~= s + t0);
        assert(t.last() != '\n') by {
            assert(t[t.len() - 1] == t.last());
        }
        assert(t0.push(t.last()) =~= t);
        assert((split_lines(s).last() + t0).push(t.last()) =~= split_lines(s).last() + t);
        let n = split_lines(s).len();
        assert(split_lines(s + t) =~= split_lines(s).update(n - 1, split_lines(s).last() + t));
    }
}

proof fn lemma_split_lines_nonempty(s: Seq<char>)
    ensures
        split_lines(s).len() >= 1,
    decreases s.len(),
{
    if s.len() > 0 {
        lemma_split_lines_nonempty(s.drop_last());
    }
}

proof fn lemma_split_export(ws: Seq<Seq<char>>)
    requires
        forall|k: int| 0 <= k < ws.len() ==> !(#[trigger] ws[k]).contains('\n'),
    ensures
        split_lines(export_text(ws)) == ws.push(Seq::empty()),
    decreases ws.len(),
{
    if ws.len() == 0 {
        assert(split_lines(Seq::<char>::empty()) =~= seq![Seq::<char>::empty()]);
        assert(ws.push(Seq::empty()) =~= seq![Seq::<char>::empty()]);
    } else {
        let prev = ws.drop_last();
        assert forall|k: int| 0 <= k < prev.len() implies !(#[trigger] prev[k]).contains('\n') by {
            assert(prev[k] == ws[k]);
        }
        lemma_split_export(prev);
        let w = ws.last();
        assert(!w.contains('\n')) by {
            assert(ws[ws.len() - 1] == w);
        }
        let e = export_text(prev);
        lemma_split_append_plain(e, w);
        let body = e + w;
        assert(export_text(ws) =~= body.push('\n'));
        assert(body.push('\n').drop_last() =~= body);
        assert(split_lines(body) =~= prev.push(w));
        assert(split_lines(body.push('\n')) =~= prev.push(w).push(Seq::empty()));
        assert(prev.push(w) =~= ws);
    }
}

proof fn lemma_import_words(ws: Seq<Seq<char>>)
    requires
        forall|k: int| 0 <= k < ws.len() ==> (#[trigger] ws[k]).len() > 0,
        forall|k: int| 0 <= k < ws.len() ==> text::trim(#[trigger] ws[k]) == ws[k],
        forall|j: int, k: int| 0 <= j < k < ws.len() ==> ws[j] != ws[k],
    ensures
        import_lines(ws) == ws,
    decreases ws.len(),
{
    if ws.len() > 0 {
        let prev = ws.drop_last();
        assert forall|k: int| 0 <= k < prev.len() implies (#[trigger] prev[k]).len() > 0 by {
            assert(prev[k] == ws[k]);
        }
        assert forall|k: int| 0 <= k < prev.len() implies text::trim(#[trigger] prev[k])
            == prev[k] by {
            assert(prev[k] == ws[k]);
        }
        assert forall|j: int, k: int| 0 <= j < k < prev.len() implies prev[j] != prev[k] by {
            assert(prev[j] == ws[j]);
            assert(prev[k] == ws[k]);
        }
        lemma_import_words(prev);
        let w = ws.last();
        assert(w == ws[ws.len() - 1]);
        assert(!prev.contains(w)) by {
            if prev.contains(w) {
                let j = choose|j: int| 0 <= j < prev.len() && prev[j] == w;
                assert(ws[j] == prev[j]);
            }
        }
        assert(prev.push(w) =~= ws);
    }
}

/// Exporting hotwords and importing the text gives them back, when each is
/// non-empty, already trimmed, free of newlines and listed once.
pub proof fn law_export_import_roundtrip(ws: Seq<Seq<char>>)
    requires
        forall|k: int| 0 <= k < ws.len() ==> (#[trigger] ws[k]).len() > 0,
        forall|k: int| 0 <= k < ws.len() ==> text::trim(#[trigger] ws[k]) == ws[k],
        forall|k: int| 0 <= k < ws.len() ==> !(#[trigger] ws[k]).contains('\n'),
        forall|j: int, k: int| 0 <= j < k < ws.len() ==> ws[j] != ws[k],
    ensures
        import_text(export_text(ws)) == ws,
{
    lemma_split_export(ws);
    lemma_import_words(ws);
    let lines = ws.push(Seq::empty());
    assert(lines.drop_last() =~= ws);
    assert(text::trim(Seq::<char>::empty()) =~= Seq::<char>::empty());
}

/// Imported hotwords are non-empty, trimmed and listed once.
pub proof fn law_import_clean(s: Seq<char>)
    ensures
        forall|k: int|
            0 <= k < import_text(s).len() ==> (#[trigger] import_text(s)[k]).len() > 0
                && text::trim(import_text(s)[k]) == import_text(s)[k],
        forall|j: int, k: int|
            0 <= j < k < import_text(s).len() ==> import_text(s)[j] != import_text(s)[k],
{
    lemma_import_clean(split_lines(s));
}

proof fn lemma_import_clean(lines: Seq<Seq<char>>)
    ensures
        forall|k: int|
            0 <= k < import_lines(lines).len() ==> (#[trigger] import_lines(lines)[k]).len() > 0
                && text::trim(import_lines(lines)[k]) == import_lines(lines)[k],
        forall|j: int, k: int|
            0 <= j < k < import_lines(lines).len() ==> import_lines(lines)[j] != import_lines(
                lines,
            )[k],
    decreases lines.len(),
{
    if lines.len() > 0 {
        lemma_import_clean(lines.drop_last());
        let acc = import_lines(lines.drop_last());
        let w = text::trim(lines.last());
        text::lemma_trim_idempotent(lines.last());
        if !(w.len() == 0 || acc.contains(w)) {
            let r = acc.push(w);
            assert forall|j: int, k: int| 0 <= j < k < r.len() implies r[j] != r[k] by {
                if k == acc.len() {
                    assert(r[j] == acc[j]);
                    assert(!acc.contains(w));
                }
            }
        }
    }
}

// ---------- built-in updates ----------

/// Built-in hotwords that a stored profile lacks and that the user did not
/// delete, in built-in order.
pub open spec fn missing_words(builtin: Seq<Seq<char>>, have: Seq<Seq<char>>, removed: Seq<Seq<char>>) -> Seq<Seq<char>>
    decreases builtin.len(),
{
    if builtin.len() == 0 {
        Seq::empty()
    } else {
        let prev = missing_words(builtin.drop_last(), have, removed);
        let w = builtin.last();
        if have.contains(w) || removed.contains(w) {
            prev
        } else {
            prev.push(w)
        }
    }
}

pub open spec fn builtin_missing(stored: GameProfile, builtin: GameProfile) -> Seq<Seq<char>> {
    missing_words(
        text::views(builtin.hotwords@),
        text::views(stored.hotwords@),
        text::views(stored.removed_builtin_hotwords@),
    )
}

/// The stored profile declares no channel while the built-in one does.
pub open spec fn needs_channels(stored: GameProfile, builtin: GameProfile) -> bool {
    stored.channels@.len() == 0 && builtin.channels@.len() > 0
}

/// The stored profile has no icon while the built-in one has.
pub open spec fn needs_icon(stored: GameProfile, builtin: GameProfile) -> bool {
    stored.icon.is_none() && builtin.icon.is_some()
}

/// A stored built-in profile needs an update after a new version.
pub open spec fn update_needed(stored: GameProfile, builtin: GameProfile) -> bool {
    builtin_missing(stored, builtin).len() > 0 || needs_channels(stored, builtin) || needs_icon(
        stored,
        builtin,
    )
}

/// The stored profile after the update: new built-in hotwords appended,
/// channels and icon filled in when missing, everything else kept.
pub open spec fn updated_from(q: GameProfile, stored: GameProfile, builtin: GameProfile) -> bool {
    &&& text::views(q.hotwords@) == text::views(stored.hotwords@) + builtin_missing(stored, builtin)
    &&& q.channels@ == (if needs_channels(stored, builtin) {
        builtin.channels@
    } else {
        stored.channels@
    })
    &&& q.icon == (if needs_icon(stored, builtin) {
        builtin.icon
    } else {
        stored.icon
    })
    &&& q.id == stored.id
    &&& q.display_name == stored.display_name
    &&& q.process_names@ == stored.process_names@
    &&& q.window_title_patterns@ == stored.window_title_patterns@
    &&& q.open_chat_key == stored.open_chat_key
    &&& q.send_key == stored.send_key
    &&& q.pre_open_delay_ms == stored.pre_open_delay_ms
    &&& q.pre_paste_delay_ms == stored.pre_paste_delay_ms
    &&& q.pre_send_delay_ms == stored.pre_send_delay_ms
    &&& q.prefer_clipboard_paste == stored.prefer_clipboard_paste
    &&& q.removed_builtin_hotwords@ == stored.removed_builtin_hotwords@
}

/// The version-update merge of a built-in profile already on disk: built-in
/// hotwords that the file lacks are appended (unless the user deleted them),
/// channels and icon are filled in only when the file has none; the user's
/// own hotwords and other fields stay. `None` when nothing changes.
pub fn merge_builtin(stored: &GameProfile, builtin: &GameProfile) -> (r: Option<GameProfile>)
    ensures
        r is Some <==> update_needed(*stored, *builtin),
        r matches Some(q) ==> updated_from(q, *stored, *builtin),
{
    let mut missing: Vec<String> = Vec::new();
    let mut i: usize = 0;
    let ghost b = text::views(builtin.hotwords@);
    let ghost have = text::views(stored.hotwords@);
    let ghost removed = text::views(stored.removed_builtin_hotwords@);
    assert(text::views(builtin.hotwords@.take(0)) =~= Seq::<Seq<char>>::empty());
    while i < builtin.hotwords.len()
        invariant
            i <= builtin.hotwords@.len(),
            b == text::views(builtin.hotwords@),
            have == text::views(stored.hotwords@),
            removed == text::views(stored.removed_builtin_hotwords@),
            text::views(missing@) == missing_words(
                text::views(builtin.hotwords@.take(i as int)),
                have,
                removed,
            ),
        decreases builtin.hotwords.len() - i,
    {
        proof {
            let a = text::views(builtin.hotwords@.take(i + 1));
            assert(a.drop_last() =~= text::views(builtin.hotwords@.take(i as int)));
            assert(a.last() == builtin.hotwords@[i as int]@);
        }
        let w = &builtin.hotwords[i];
        if !contains_string(&stored.hotwords, w) && !contains_string(
            &stored.removed_builtin_hotwords,
            w,
        ) {
            let ghost before = missing@;
            missing.push(w.clone());
            assert(text::views(missing@) =~= text::views(before).push(w@));
        }
        i += 1;
    }
    assert(builtin.hotwords@.take(builtin.hotwords@.len() as int) =~= builtin.hotwords@);
    let new_channels = stored.channels.len() == 0 && builtin.channels.len() > 0;
    let new_icon = stored.icon.is_none() && builtin.icon.is_some();
    if missing.len() == 0 && !new_channels && !new_icon {
        return None;
    }
    let mut hotwords = copy_strings(&stored.hotwords);
    let mut k: usize = 0;
    while k < missing.len()
        invariant
            k <= missing@.len(),
            hotwords@ == stored.hotwords@ + missing@.take(k as int),
        decreases missing.len() - k,
    {
        hotwords.push(missing[k].clone());
        assert(stored.hotwords@ + missing@.take(k + 1) =~= (stored.hotwords@ + missing@.take(
            k as int,
        )).push(missing@[k as int]));
        k += 1;
    }
    assert(missing@.take(missing@.len() as int) =~= missing@);
    assert(text::views(hotwords@) =~= text::views(stored.hotwords@) + text::views(missing@));
    let base = stored.copy();
    let channels = if new_channels {
        copy_channels(&builtin.channels)
    } else {
        base.channels
    };
    let icon = if new_icon {
        match &builtin.icon {
            Some(i) => Some(i.clone()),
            None => None,
        }
    } else {
        base.icon
    };
    Some(
        GameProfile {
            id: base.id,
            display_name: base.display_name,
            process_names: base.process_names,
            window_title_patterns: base.window_title_patterns,
            open_chat_key: base.open_chat_key,
            send_key: base.send_key,
            pre_open_delay_ms: base.pre_open_delay_ms,
            pre_paste_delay_ms: base.pre_paste_delay_ms,
            pre_send_delay_ms: base.pre_send_delay_ms,
            prefer_clipboard_paste: base.prefer_clipboard_paste,
            icon,
            hotwords,
            channels,
            removed_builtin_hotwords: base.removed_builtin_hotwords,
        },
    )
}

// ---------- files and names ----------

/// The file name of a profile: characters of the id that are alphanumeric,
/// '-' or '_' are kept, every other one becomes '_' (no path traversal), then
/// ".json".
pub open spec fn safe_char(c: char) -> char {
    if text::char_is_alphanumeric(c) || c == '-' || c == '_' {
        c
    } else {
        '_'
    }
}

pub open spec fn profile_file_name_spec(id: Seq<char>) -> Seq<char> {
    Seq::new(id.len(), |i: int| safe_char(id[i])) + ".json"@
}

pub fn profile_file_name(id: &str) -> (r: String)
    ensures
        r@ == profile_file_name_spec(id@),
{
    let cs = chars_of(id);
    let mut out: Vec<char> = Vec::new();
    let mut i: usize = 0;
    while i < cs.len()
        invariant
            i <= cs@.len(),
            cs@ == id@,
            out@ == Seq::new(i as nat, |k: int| safe_char(id@[k])),
        decreases cs.len() - i,
    {
        let c = cs[i];
        let keep = text::is_alphanumeric(c) || c == '-' || c == '_';
        out.push(if keep { c } else { '_' });
        assert(out@ =~= Seq::new((i + 1) as nat, |k: int| safe_char(id@[k])));
        i += 1;
    }
    let mut r = string_of(out.as_slice());
    push_str(&mut r, ".json");
    r
}

/// An icon file name is accepted when it is non-empty, at most 64 bytes of
/// UTF-8, holds no '/', '\' or "..", and only alphanumeric characters, '.',
/// '-' and '_'.
pub open spec fn icon_name_ok(name: Seq<char>) -> bool {
    &&& name.len() > 0
    &&& text::utf8_len(name) <= 64
    &&& !name.contains('/')
    &&& !name.contains('\\')
    &&& !text::contains_seq(name, ".."@)
    &&& forall|i: int|
        0 <= i < name.len() ==> (text::char_is_alphanumeric(#[trigger] name[i]) || name[i] == '.'
            || name[i] == '-' || name[i] == '_')
}

/// The icon file name when it is safe to join to the icons directory.
pub fn sanitize_icon_name(name: &str) -> (r: Option<String>)
    ensures
        r is Some <==> icon_name_ok(name@),
        r matches Some(s) ==> s@ == name@,
{
    let cs = chars_of(name);
    if cs.len() == 0 {
        return None;
    }
    let bytes = text::utf8_len_capped(cs.as_slice(), 64);
    if bytes > 64 {
        return None;
    }
    if text::has_char(cs.as_slice(), '/') || text::has_char(cs.as_slice(), '\\') {
        return None;
    }
    if text::contains_lit(cs.as_slice(), "..") {
        return None;
    }
    let mut i: usize = 0;
    while i < cs.len()
        invariant
            i <= cs@.len(),
            cs@ == name@,
            forall|k: int|
                0 <= k < i ==> (text::char_is_alphanumeric(#[trigger] name@[k]) || name@[k] == '.'
                    || name@[k] == '-' || name@[k] == '_'),
        decreases cs.len() - i,
    {
        let c = cs[i];
        if !(text::is_alphanumeric(c) || c == '.' || c == '-' || c == '_') {
            return None;
        }
        i += 1;
    }
    Some(string_of(cs.as_slice()))
}

/// Saving needs an id that is not blank.
pub fn validate_for_save(profile: &GameProfile) -> (r: Result<(), String>)
    ensures
        r is Ok <==> text::trim(profile.id@).len() > 0,
        r matches Err(m) ==> m@ == "profile id 不能为空"@,
{
    let t = trim_chars(chars_of(profile.id.as_str()).as_slice());
    if t.len() == 0 {
        Err(owned("profile id 不能为空"))
    } else {
        Ok(())
    }
}

/// The icon file that ships with a built-in profile (the bytes are bundled
/// with the application).
pub fn builtin_icon_name(id: &str) -> (r: Option<&'static str>)
    ensures
        r is Some <==> id@ == "lol"@,
        r matches Some(n) ==> n@ == "lol-kotone.webp"@,
{
    if str_eq(id, "lol") {
        Some("lol-kotone.webp")
    } else {
        None
    }
}

pub open spec fn has_profile_id(ps: Seq<GameProfile>, id: Seq<char>) -> bool {
    exists|k: int| 0 <= k < ps.len() && (#[trigger] ps[k]).id@ == id
}

/// The profiles to choose from: those on disk, then each built-in profile
/// that no disk profile overrides (same id).
pub fn with_builtins(stored: Vec<GameProfile>) -> (r: Vec<GameProfile>)
    ensures
        r@.len() == stored@.len() + (if has_profile_id(stored@, "lol"@) {
            0int
        } else {
            1int
        }) + (if has_profile_id(stored@, "generic"@) {
            0int
        } else {
            1int
        }),
        r@.take(stored@.len() as int) == stored@,
        forall|i: int| stored@.len() <= i < r@.len() ==> (#[trigger] r@[i]).id@ == "lol"@ || r@[i].id@ == "generic"@,
        exists|i: int| 0 <= i < r@.len() && (#[trigger] r@[i]).id@ == "lol"@,
        exists|i: int| 0 <= i < r@.len() && (#[trigger] r@[i]).id@ == "generic"@,
{
    let mut out = stored;
    let ghost start = out@;
    let lol = GameProfile::builtin_lol();
    let generic = GameProfile::builtin_generic();
    let mut has_lol = false;
    let mut has_generic = false;
    let mut i: usize = 0;
    while i < out.len()
        invariant
            out@ == start,
            i <= out@.len(),
            lol.id@ == "lol"@,
            generic.id@ == "generic"@,
            has_lol <==> exists|k: int| 0 <= k < i && (#[trigger] out@[k]).id@ == "lol"@,
            has_generic <==> exists|k: int| 0 <= k < i && (#[trigger] out@[k]).id@ == "generic"@,
        decreases out.len() - i,
    {
        if out[i].id == lol.id {
            has_lol = true;
        }
        if out[i].id == generic.id {
            has_generic = true;
        }
        i += 1;
    }
    if !has_lol {
        out.push(lol);
        assert(out@[out@.len() - 1].id@ == "lol"@);
    }
    let ghost mid = out@;
    if !has_generic {
        out.push(generic);
        assert(out@[out@.len() - 1].id@ == "generic"@);
    }
    proof {
        if has_lol {
            let k = choose|k: int| 0 <= k < start.len() && (#[trigger] start[k]).id@ == "lol"@;
            assert(out@[k] == start[k]);
        }
        if !has_lol {
            assert(out@[start.len() as int] == mid[start.len() as int]);
        }
        if has_generic {
            let k = choose|k: int| 0 <= k < start.len() && (#[trigger] start[k]).id@ == "generic"@;
            assert(out@[k] == start[k]);
        }
        assert(out@.take(start.len() as int) =~= start);
    }
    out
}

/// What deleting a profile does.
#[derive(Debug, Clone, Copy, PartialEq, Eq)]
pub enum ProfileDeleteOutcome {
    /// A built-in profile is reset to its factory contents.
    Reset,
    /// An imported profile is removed for good.
    Deleted,
}

/// The built-in profile with this id, if it is one.
pub fn builtin_profile(id: &str) -> (r: Option<GameProfile>)
    ensures
        r is Some <==> (id@ == "lol"@ || id@ == "generic"@),
        r matches Some(p) ==> p.id@ == id@,
        id@ == "lol"@ ==> (r matches Some(p) && is_builtin_lol(p)),
        id@ == "generic"@ ==> (r matches Some(p) && is_builtin_generic(p)),
{
    proof {
        reveal_strlit("lol");
        reveal_strlit("generic");
        assert("lol"@.len() != "generic"@.len());
    }
    if str_eq(id, "lol") {
        Some(GameProfile::builtin_lol())
    } else if str_eq(id, "generic") {
        Some(GameProfile::builtin_generic())
    } else {
        None
    }
}

/// Deleting a built-in profile resets it; any other one is deleted.
pub fn delete_outcome(id: &str) -> (r: ProfileDeleteOutcome)
    ensures
        r == (if id@ == "lol"@ || id@ == "generic"@ {
            ProfileDeleteOutcome::Reset
        } else {
            ProfileDeleteOutcome::Deleted
        }),
{
    match builtin_profile(id) {
        Some(_) => ProfileDeleteOutcome::Reset,
        None => ProfileDeleteOutcome::Deleted,
    }
}

/// The id given to an imported profile: "p", a session-style time stamp, "-"
/// and a counter of the process (a time stamp alone may repeat within one
/// millisecond).
pub fn imported_profile_id(stamp: &str, counter: u64) -> (r: String)
    ensures
        r@ == "p"@ + stamp@ + "-"@ + text::dec(counter as nat),
{
    let mut r = owned("p");
    push_str(&mut r, stamp);
    push_str(&mut r, "-");
    let digits = text::dec_chars(counter);
    text::push_chars(&mut r, digits.as_slice());
    r
}

proof fn lemma_missing_words(b: Seq<Seq<char>>, have: Seq<Seq<char>>, removed: Seq<Seq<char>>)
    ensures
        forall|w: Seq<char>|
            #[trigger] missing_words(b, have, removed).contains(w) <==> (b.contains(w)
                && !have.contains(w) && !removed.contains(w)),
    decreases b.len(),
{
    if b.len() > 0 {
        let prev = b.drop_last();
        lemma_missing_words(prev, have, removed);
        let m = missing_words(prev, have, removed);
        let x = b.last();
        assert forall|w: Seq<char>|
            #[trigger] missing_words(b, have, removed).contains(w) <==> (b.contains(w)
                && !have.contains(w) && !removed.contains(w)) by {
            if b.contains(w) && w != x {
                let j = choose|j: int| 0 <= j < b.len() && b[j] == w;
                assert(j < b.len() - 1);
                assert(prev[j] == w);
            }
            if prev.contains(w) {
                let j = choose|j: int| 0 <= j < prev.len() && prev[j] == w;
                assert(b[j] == w);
            }
            if w == x {
                assert(b[b.len() - 1] == w);
            }
            if !(have.contains(x) || removed.contains(x)) {
                if m.push(x).contains(w) && w != x {
                    let j = choose|j: int| 0 <= j < m.push(x).len() && m.push(x)[j] == w;
                    assert(m[j] == w);
                }
                if m.contains(w) {
                    let j = choose|j: int| 0 <= j < m.len() && m[j] == w;
                    assert(m.push(x)[j] == w);
                }
                if w == x {
                    assert(m.push(x)[m.len() as int] == w);
                }
            }
        }
    }
}

proof fn lemma_missing_none(b: Seq<Seq<char>>, have: Seq<Seq<char>>, removed: Seq<Seq<char>>)
    requires
        forall|w: Seq<char>| b.contains(w) ==> have.contains(w) || removed.contains(w),
    ensures
        missing_words(b, have, removed).len() == 0,
    decreases b.len(),
{
    if b.len() > 0 {
        let prev = b.drop_last();
        assert forall|w: Seq<char>| prev.contains(w) implies have.contains(w) || removed.contains(
            w,
        ) by {
            let j = choose|j: int| 0 <= j < prev.len() && prev[j] == w;
            assert(b[j] == w);
        }
        lemma_missing_none(prev, have, removed);
        assert(b[b.len() - 1] == b.last());
    }
}

/// The built-in update keeps the user's hotwords first and in order, brings
/// in every built-in hotword that the user did not delete, never brings back
/// a deleted one, and running it again changes nothing.
pub proof fn law_builtin_update(q: GameProfile, stored: GameProfile, builtin: GameProfile)
    requires
        updated_from(q, stored, builtin),
    ensures
        text::views(q.hotwords@).take(stored.hotwords@.len() as int) == text::views(
            stored.hotwords@,
        ),
        forall|w: Seq<char>|
            text::views(builtin.hotwords@).contains(w) && !text::views(
                stored.removed_builtin_hotwords@,
            ).contains(w) ==> #[trigger] text::views(q.hotwords@).contains(w),
        forall|w: Seq<char>|
            text::views(stored.removed_builtin_hotwords@).contains(w) && !text::views(
                stored.hotwords@,
            ).contains(w) ==> !#[trigger] text::views(q.hotwords@).contains(w),
        !update_needed(q, builtin),
{
    let b = text::views(builtin.hotwords@);
    let have = text::views(stored.hotwords@);
    let removed = text::views(stored.removed_builtin_hotwords@);
    let m = builtin_missing(stored, builtin);
    let qh = text::views(q.hotwords@);
    lemma_missing_words(b, have, removed);
    assert(qh == have + m);
    assert(qh.take(have.len() as int) =~= have);
    assert forall|w: Seq<char>| #[trigger] qh.contains(w) <==> (have.contains(w) || m.contains(w)) by {
        if qh.contains(w) {
            let j = choose|j: int| 0 <= j < qh.len() && qh[j] == w;
            if j < have.len() {
                assert(have[j] == w);
            } else {
                assert(m[j - have.len()] == w);
            }
        }
        if have.contains(w) {
            let j = choose|j: int| 0 <= j < have.len() && have[j] == w;
            assert(qh[j] == w);
        }
        if m.contains(w) {
            let j = choose|j: int| 0 <= j < m.len() && m[j] == w;
            assert(qh[have.len() + j] == w);
        }
    }
    assert(text::views(q.removed_builtin_hotwords@) == removed);
    assert forall|w: Seq<char>| b.contains(w) implies qh.contains(w) || removed.contains(w) by {}
    lemma_missing_none(b, qh, removed);
    assert(builtin_missing(q, builtin).len() == 0);
}

// ---------- profile packages ----------

/// A profile as it goes into a package: the user's local deletions of
/// built-in hotwords stay behind.
pub fn for_export(profile: GameProfile) -> (r: GameProfile)
    ensures
        r == (GameProfile { removed_builtin_hotwords: r.removed_builtin_hotwords, ..profile }),
        r.removed_builtin_hotwords@.len() == 0,
{
    let mut p = profile;
    p.removed_builtin_hotwords = Vec::new();
    p
}

/// A profile read from a package: it takes the fresh id and carries no local
/// deletions of built-in hotwords.
pub fn prepare_imported(profile: GameProfile, id: String) -> (r: GameProfile)
    ensures
        r == (GameProfile { id, removed_builtin_hotwords: r.removed_builtin_hotwords, ..profile }),
        r.removed_builtin_hotwords@.len() == 0,
{
    let mut p = profile;
    p.id = id;
    p.removed_builtin_hotwords = Vec::new();
    p
}

/// The extension of an icon file name, `png` when it has none.
pub open spec fn icon_ext(name: Seq<char>) -> Seq<char> {
    match crate::diagnostics::path_extension(name) {
        Some(e) => e,
        None => "png"@,
    }
}

fn icon_ext_of(name: &str) -> (r: String)
    ensures
        r@ == icon_ext(name@),
{
    match crate::diagnostics::extension_of(name) {
        Some(e) => e,
        None => owned("png"),
    }
}

/// The package entry of a profile's icon: `icon.<ext>`.
pub fn package_icon_entry(icon: &str) -> (r: String)
    ensures
        r@ == "icon."@ + icon_ext(icon@),
{
    let mut r = owned("icon.");
    let ext = icon_ext_of(icon);
    text::push_str(&mut r, ext.as_str());
    r
}

/// The icon file of an imported profile: `<id>.<ext>` of the package entry.
pub fn imported_icon_name(profile_id: &str, entry: &str) -> (r: String)
    ensures
        r@ == profile_id@ + "."@ + icon_ext(entry@),
{
    let mut r = owned(profile_id);
    text::push_str(&mut r, ".");
    let ext = icon_ext_of(entry);
    text::push_str(&mut r, ext.as_str());
    r
}

/// The first package entry that holds an icon (its name starts `icon.`).
pub fn first_icon_entry(names: &[String]) -> (r: Option<usize>)
    ensures
        match r {
            Some(i) => i < names@.len() && text::starts_with_seq(names@[i as int]@, "icon."@)
                && forall|j: int| 0 <= j < i ==> !text::starts_with_seq(
                    (#[trigger] names@[j])@,
                    "icon."@,
                ),
            None => forall|j: int| 0 <= j < names@.len() ==> !text::starts_with_seq(
                (#[trigger] names@[j])@,
                "icon."@,
            ),
        },
{
    let prefix = chars_of("icon.");
    let mut i: usize = 0;
    while i < names.len()
        invariant
            i <= names@.len(),
            prefix@ == "icon."@,
            forall|j: int| 0 <= j < i ==> !text::starts_with_seq((#[trigger] names@[j])@, "icon."@),
        decreases names.len() - i,
    {
        let n = chars_of(names[i].as_str());
        if text::starts_with_chars(n.as_slice(), prefix.as_slice()) {
            return Some(i);
        }
        i += 1;
    }
    None
}

} // verus!

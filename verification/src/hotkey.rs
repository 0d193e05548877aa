//! Hotkey port and its pure logic: key-name parsing, combo names and the key
//! matching state machine that decides, for every low-level key event, whether
//! a hotkey fired and whether the key is swallowed.
//!
//! Design points:
//! - modifier state (Ctrl/Alt/Shift) is tracked by the machine itself and must
//!   match the configured combo exactly (F8 configured: Ctrl+F8 does not fire);
//! - auto-repeat downs are filtered by tracking the pressed state;
//! - a key is swallowed only on a full match (its down and the matching up);
//! - while a session is active, Esc down cancels and is swallowed.

use vstd::prelude::*;

use crate::text;
use crate::text::{chars_of, dec_chars, eq_lit, hex_chars, lower_chars, pad_zeros, parse_unsigned_chars, push_chars, push_str, slice_to_vec, to_ascii_upper, trim_chars};

verus! {

/// Hotkey trigger mode chosen in the settings.
#[derive(Debug, Clone, Copy, PartialEq, Eq, Structural)]
pub enum HotkeyMode {
    /// hold to talk, release to finish
    Hold,
    /// press once to start, press again to finish
    Toggle,
}

/// Hotkey event source port (low-level hook or RegisterHotKey).
///
/// Implementations own the platform thread and the key capture; events leave
/// through a sink given at construction. `register` failures are handled by
/// the caller (fallback to another backend).
pub trait HotkeySource {
    /// register or re-key (idempotent: an existing registration is dropped first)
    fn register(&self, key: &str, mode: HotkeyMode) -> Result<(), String>;

    /// unregister (an implementation may keep its thread for a fast re-register)
    fn unregister(&self);

    /// session-active switch: while active, Esc cancels
    fn set_cancel_active(&self, active: bool);

    /// channel-cycle key (optional): `None` or an unparsable key turns it off;
    /// a source without the feature ignores the call and succeeds
    fn set_cycle_key(&self, key: Option<&str>) -> (r: Result<(), String>)
        default_ensures
            r == Ok::<(), String>(()),
    {
        Ok(())
    }

    /// resend-last key (optional): `None` or an unparsable key turns it off;
    /// a source without the feature ignores the call and succeeds
    fn set_resend_key(&self, key: Option<&str>) -> (r: Result<(), String>)
        default_ensures
            r == Ok::<(), String>(()),
    {
        Ok(())
    }
}

// ---------- virtual-key codes (Win32 values) ----------

pub const VK_BACK: u32 = 0x08;
pub const VK_TAB: u32 = 0x09;
pub const VK_RETURN: u32 = 0x0D;
pub const VK_SHIFT: u32 = 0x10;
pub const VK_CONTROL: u32 = 0x11;
pub const VK_MENU: u32 = 0x12;
pub const VK_PAUSE: u32 = 0x13;
pub const VK_CAPITAL: u32 = 0x14;
pub const VK_ESCAPE: u32 = 0x1B;
pub const VK_SPACE: u32 = 0x20;
pub const VK_PRIOR: u32 = 0x21;
pub const VK_NEXT: u32 = 0x22;
pub const VK_END: u32 = 0x23;
pub const VK_HOME: u32 = 0x24;
pub const VK_LEFT: u32 = 0x25;
pub const VK_UP: u32 = 0x26;
pub const VK_RIGHT: u32 = 0x27;
pub const VK_DOWN: u32 = 0x28;
pub const VK_SNAPSHOT: u32 = 0x2C;
pub const VK_INSERT: u32 = 0x2D;
pub const VK_DELETE: u32 = 0x2E;
pub const VK_LSHIFT: u32 = 0xA0;
pub const VK_RSHIFT: u32 = 0xA1;
pub const VK_LCONTROL: u32 = 0xA2;
pub const VK_RCONTROL: u32 = 0xA3;
pub const VK_LMENU: u32 = 0xA4;
pub const VK_RMENU: u32 = 0xA5;
/// F1..F24 are consecutive: `VK_F1 + (n - 1)`
pub const VK_F1: u32 = 0x70;

/// A hotkey: main key code plus the exact modifier state it requires.
#[derive(Debug, Clone, Copy, PartialEq, Eq, Structural)]
pub struct HotkeySpec {
    pub vk: u32,
    pub ctrl: bool,
    pub alt: bool,
    pub shift: bool,
}

// ---------- key names ----------

/// Key name of a named (non letter/digit/function) key code.
pub open spec fn named_key_name(vk: u32) -> Option<Seq<char>> {
    if vk == VK_SPACE {
        Some("Space"@)
    } else if vk == VK_TAB {
        Some("Tab"@)
    } else if vk == VK_RETURN {
        Some("Enter"@)
    } else if vk == VK_BACK {
        Some("Backspace"@)
    } else if vk == VK_DELETE {
        Some("Delete"@)
    } else if vk == VK_INSERT {
        Some("Insert"@)
    } else if vk == VK_HOME {
        Some("Home"@)
    } else if vk == VK_END {
        Some("End"@)
    } else if vk == VK_PRIOR {
        Some("PageUp"@)
    } else if vk == VK_NEXT {
        Some("PageDown"@)
    } else if vk == VK_UP {
        Some("Up"@)
    } else if vk == VK_DOWN {
        Some("Down"@)
    } else if vk == VK_LEFT {
        Some("Left"@)
    } else if vk == VK_RIGHT {
        Some("Right"@)
    } else if vk == VK_SNAPSHOT {
        Some("PrintScreen"@)
    } else if vk == VK_PAUSE {
        Some("Pause"@)
    } else if vk == VK_CAPITAL {
        Some("CapsLock"@)
    } else if vk == VK_ESCAPE {
        Some("Escape"@)
    } else {
        None
    }
}

/// Codes of the letters A-Z and digits 0-9 (their ASCII codes).
pub open spec fn is_alnum_vk(vk: u32) -> bool {
    (48 <= vk && vk <= 57) || (65 <= vk && vk <= 90)
}

/// Codes of F1..F24.
pub open spec fn is_function_vk(vk: u32) -> bool {
    VK_F1 <= vk && vk < VK_F1 + 24
}

/// Name of a key code; unknown codes become `VK0x..` (two or more upper-case hex digits).
pub open spec fn vk_name_spec(vk: u32) -> Seq<char> {
    if is_alnum_vk(vk) {
        seq![vk as char]
    } else if is_function_vk(vk) {
        seq!['F'] + text::dec((vk - VK_F1 + 1) as nat)
    } else {
        match named_key_name(vk) {
            Some(n) => n,
            None => "VK0x"@ + text::zero_pad(text::hex(vk as nat), 2),
        }
    }
}

/// Key code named by a lower-case key name (aliases included).
pub open spec fn named_key_vk(lower: Seq<char>) -> Option<u32> {
    if lower == "space"@ {
        Some(VK_SPACE)
    } else if lower == "tab"@ {
        Some(VK_TAB)
    } else if lower == "enter"@ || lower == "return"@ {
        Some(VK_RETURN)
    } else if lower == "esc"@ || lower == "escape"@ {
        Some(VK_ESCAPE)
    } else if lower == "backspace"@ || lower == "back"@ {
        Some(VK_BACK)
    } else if lower == "delete"@ || lower == "del"@ {
        Some(VK_DELETE)
    } else if lower == "insert"@ || lower == "ins"@ {
        Some(VK_INSERT)
    } else if lower == "home"@ {
        Some(VK_HOME)
    } else if lower == "end"@ {
        Some(VK_END)
    } else if lower == "pageup"@ || lower == "pgup"@ {
        Some(VK_PRIOR)
    } else if lower == "pagedown"@ || lower == "pgdn"@ {
        Some(VK_NEXT)
    } else if lower == "up"@ {
        Some(VK_UP)
    } else if lower == "down"@ {
        Some(VK_DOWN)
    } else if lower == "left"@ {
        Some(VK_LEFT)
    } else if lower == "right"@ {
        Some(VK_RIGHT)
    } else if lower == "printscreen"@ || lower == "print"@ {
        Some(VK_SNAPSHOT)
    } else if lower == "pause"@ {
        Some(VK_PAUSE)
    } else if lower == "capslock"@ || lower == "caps"@ {
        Some(VK_CAPITAL)
    } else {
        None
    }
}

/// Function-key number written after an `f` (as `u32` parsing reads it).
pub open spec fn function_number(lower: Seq<char>) -> Option<nat> {
    if lower.len() > 0 && lower[0] == 'f' {
        match text::parse_unsigned(lower.drop_first(), u32::MAX as nat) {
            Some(k) => if 1 <= k && k <= 24 {
                Some(k)
            } else {
                None
            },
            None => None,
        }
    } else {
        None
    }
}

/// Key name to key code (case-insensitive, surrounding whitespace ignored).
pub open spec fn vk_from_name_spec(name: Seq<char>) -> Option<u32> {
    let n = text::trim(name);
    if n.len() == 1 && is_alnum_vk(text::upper_char(n[0]) as u32) {
        Some(text::upper_char(n[0]) as u32)
    } else {
        let lower = text::lower_seq(n);
        match function_number(lower) {
            Some(k) => Some((VK_F1 + k - 1) as u32),
            None => named_key_vk(lower),
        }
    }
}

/// Each documented alias names the same key as its full name, whatever its
/// case and surrounding whitespace: "return" is Enter, "escape" is Esc,
/// "back" is Backspace, "del" is Delete, "ins" is Insert, "pgup" and "pgdn"
/// are Page Up and Page Down, "print" is Print Screen, "caps" is Caps Lock.
pub proof fn law_key_aliases(name: Seq<char>)
    ensures
        (text::lower_seq(text::trim(name)) == "enter"@ || text::lower_seq(text::trim(name)) == "return"@) ==> vk_from_name_spec(name) == Some(VK_RETURN),
        (text::lower_seq(text::trim(name)) == "esc"@ || text::lower_seq(text::trim(name)) == "escape"@) ==> vk_from_name_spec(name) == Some(VK_ESCAPE),
        (text::lower_seq(text::trim(name)) == "backspace"@ || text::lower_seq(text::trim(name)) == "back"@) ==> vk_from_name_spec(name) == Some(VK_BACK),
        (text::lower_seq(text::trim(name)) == "delete"@ || text::lower_seq(text::trim(name)) == "del"@) ==> vk_from_name_spec(name) == Some(VK_DELETE),
        (text::lower_seq(text::trim(name)) == "insert"@ || text::lower_seq(text::trim(name)) == "ins"@) ==> vk_from_name_spec(name) == Some(VK_INSERT),
        (text::lower_seq(text::trim(name)) == "pageup"@ || text::lower_seq(text::trim(name)) == "pgup"@) ==> vk_from_name_spec(name) == Some(VK_PRIOR),
        (text::lower_seq(text::trim(name)) == "pagedown"@ || text::lower_seq(text::trim(name)) == "pgdn"@) ==> vk_from_name_spec(name) == Some(VK_NEXT),
        (text::lower_seq(text::trim(name)) == "printscreen"@ || text::lower_seq(text::trim(name)) == "print"@) ==> vk_from_name_spec(name) == Some(VK_SNAPSHOT),
        (text::lower_seq(text::trim(name)) == "capslock"@ || text::lower_seq(text::trim(name)) == "caps"@) ==> vk_from_name_spec(name) == Some(VK_CAPITAL),
{
    let n = text::trim(name);
    let l = text::lower_seq(n);
    assert(l.len() == n.len());
    reveal_strlit("space");
    assert("space"@.len() == 5 && "space"@[0] == 's' && "space"@[1] == 'p' && "space"@[2] == 'a');
    reveal_strlit("tab");
    assert("tab"@.len() == 3 && "tab"@[0] == 't' && "tab"@[1] == 'a' && "tab"@[2] == 'b');
    reveal_strlit("enter");
    assert("enter"@.len() == 5 && "enter"@[0] == 'e' && "enter"@[1] == 'n' && "enter"@[2] == 't');
    reveal_strlit("return");
    assert("return"@.len() == 6 && "return"@[0] == 'r' && "return"@[1] == 'e' && "return"@[2] == 't');
    reveal_strlit("esc");
    assert("esc"@.len() == 3 && "esc"@[0] == 'e' && "esc"@[1] == 's' && "esc"@[2] == 'c');
    reveal_strlit("escape");
    assert("escape"@.len() == 6 && "escape"@[0] == 'e' && "escape"@[1] == 's' && "escape"@[2] == 'c');
    reveal_strlit("backspace");
    assert("backspace"@.len() == 9 && "backspace"@[0] == 'b' && "backspace"@[1] == 'a' && "backspace"@[2] == 'c');
    reveal_strlit("back");
    assert("back"@.len() == 4 && "back"@[0] == 'b' && "back"@[1] == 'a' && "back"@[2] == 'c');
    reveal_strlit("delete");
    assert("delete"@.len() == 6 && "delete"@[0] == 'd' && "delete"@[1] == 'e' && "delete"@[2] == 'l');
    reveal_strlit("del");
    assert("del"@.len() == 3 && "del"@[0] == 'd' && "del"@[1] == 'e' && "del"@[2] == 'l');
    reveal_strlit("insert");
    assert("insert"@.len() == 6 && "insert"@[0] == 'i' && "insert"@[1] == 'n' && "insert"@[2] == 's');
    reveal_strlit("ins");
    assert("ins"@.len() == 3 && "ins"@[0] == 'i' && "ins"@[1] == 'n' && "ins"@[2] == 's');
    reveal_strlit("home");
    assert("home"@.len() == 4 && "home"@[0] == 'h' && "home"@[1] == 'o' && "home"@[2] == 'm');
    reveal_strlit("end");
    assert("end"@.len() == 3 && "end"@[0] == 'e' && "end"@[1] == 'n' && "end"@[2] == 'd');
    reveal_strlit("pageup");
    assert("pageup"@.len() == 6 && "pageup"@[0] == 'p' && "pageup"@[1] == 'a' && "pageup"@[2] == 'g');
    reveal_strlit("pgup");
    assert("pgup"@.len() == 4 && "pgup"@[0] == 'p' && "pgup"@[1] == 'g' && "pgup"@[2] == 'u');
    reveal_strlit("pagedown");
    assert("pagedown"@.len() == 8 && "pagedown"@[0] == 'p' && "pagedown"@[1] == 'a' && "pagedown"@[2] == 'g');
    reveal_strlit("pgdn");
    assert("pgdn"@.len() == 4 && "pgdn"@[0] == 'p' && "pgdn"@[1] == 'g' && "pgdn"@[2] == 'd');
    reveal_strlit("up");
    assert("up"@.len() == 2 && "up"@[0] == 'u' && "up"@[1] == 'p');
    reveal_strlit("down");
    assert("down"@.len() == 4 && "down"@[0] == 'd' && "down"@[1] == 'o' && "down"@[2] == 'w');
    reveal_strlit("left");
    assert("left"@.len() == 4 && "left"@[0] == 'l' && "left"@[1] == 'e' && "left"@[2] == 'f');
    reveal_strlit("right");
    assert("right"@.len() == 5 && "right"@[0] == 'r' && "right"@[1] == 'i' && "right"@[2] == 'g');
    reveal_strlit("printscreen");
    assert("printscreen"@.len() == 11 && "printscreen"@[0] == 'p' && "printscreen"@[1] == 'r' && "printscreen"@[2] == 'i');
    reveal_strlit("print");
    assert("print"@.len() == 5 && "print"@[0] == 'p' && "print"@[1] == 'r' && "print"@[2] == 'i');
    reveal_strlit("pause");
    assert("pause"@.len() == 5 && "pause"@[0] == 'p' && "pause"@[1] == 'a' && "pause"@[2] == 'u');
    reveal_strlit("capslock");
    assert("capslock"@.len() == 8 && "capslock"@[0] == 'c' && "capslock"@[1] == 'a' && "capslock"@[2] == 'p');
    reveal_strlit("caps");
    assert("caps"@.len() == 4 && "caps"@[0] == 'c' && "caps"@[1] == 'a' && "caps"@[2] == 'p');
}

/// Modifier keys by name.
#[derive(Debug, Clone, Copy, PartialEq, Eq, Structural)]
pub enum Modifier {
    Ctrl,
    Alt,
    Shift,
}

/// Modifier named by `name` (case-insensitive, surrounding whitespace ignored).
pub open spec fn modifier_spec(name: Seq<char>) -> Option<Modifier> {
    let l = text::lower_seq(text::trim(name));
    if l == "ctrl"@ || l == "control"@ {
        Some(Modifier::Ctrl)
    } else if l == "alt"@ || l == "menu"@ {
        Some(Modifier::Alt)
    } else if l == "shift"@ {
        Some(Modifier::Shift)
    } else {
        None
    }
}

/// `s.split('+')`, as sequences.
pub open spec fn split_plus(s: Seq<char>) -> Seq<Seq<char>>
    decreases s.len(),
{
    if s.len() == 0 {
        seq![Seq::empty()]
    } else {
        let prev = split_plus(s.drop_last());
        if s.last() == '+' {
            prev.push(Seq::empty())
        } else {
            prev.update(prev.len() - 1, prev.last().push(s.last()))
        }
    }
}

/// The trimmed pieces that are not empty, in order.
pub open spec fn nonempty_trimmed(parts: Seq<Seq<char>>) -> Seq<Seq<char>>
    decreases parts.len(),
{
    if parts.len() == 0 {
        Seq::empty()
    } else {
        let rest = nonempty_trimmed(parts.drop_last());
        let t = text::trim(parts.last());
        if t.len() > 0 {
            rest.push(t)
        } else {
            rest
        }
    }
}

/// The components of a hotkey string: split on `+`, trimmed, empty ones dropped.
pub open spec fn key_parts(s: Seq<char>) -> Seq<Seq<char>> {
    nonempty_trimmed(split_plus(s))
}

/// Applies the modifier names left to right; `None` on an unknown name.
pub open spec fn apply_modifiers(mods: Seq<Seq<char>>, spec: HotkeySpec) -> Option<HotkeySpec>
    decreases mods.len(),
{
    if mods.len() == 0 {
        Some(spec)
    } else {
        match apply_modifiers(mods.drop_last(), spec) {
            None => None,
            Some(sp) => match modifier_spec(mods.last()) {
                None => None,
                Some(Modifier::Ctrl) => Some(HotkeySpec { ctrl: true, ..sp }),
                Some(Modifier::Alt) => Some(HotkeySpec { alt: true, ..sp }),
                Some(Modifier::Shift) => Some(HotkeySpec { shift: true, ..sp }),
            },
        }
    }
}

/// What `parse_hotkey` returns: the last component is the main key (a known key
/// that is not a modifier name), every earlier component must be a modifier.
pub open spec fn parse_hotkey_spec(s: Seq<char>) -> Option<HotkeySpec> {
    let parts = key_parts(s);
    if parts.len() == 0 {
        None
    } else {
        let main = parts.last();
        match vk_from_name_spec(main) {
            None => None,
            Some(vk) => if modifier_spec(main) is Some {
                None
            } else {
                apply_modifiers(
                    parts.drop_last(),
                    HotkeySpec { vk, ctrl: false, alt: false, shift: false },
                )
            },
        }
    }
}

/// Every component names a modifier.
pub open spec fn all_modifiers(mods: Seq<Seq<char>>) -> bool {
    forall|i: int| 0 <= i < mods.len() ==> (#[trigger] modifier_spec(mods[i])) is Some
}

/// The modifiers the components name, as a set.
pub open spec fn modifiers_named(mods: Seq<Seq<char>>) -> Set<Modifier>
    decreases mods.len(),
{
    if mods.len() == 0 {
        Set::empty()
    } else {
        match modifier_spec(mods.last()) {
            Some(m) => modifiers_named(mods.drop_last()).insert(m),
            None => modifiers_named(mods.drop_last()),
        }
    }
}

/// Applying modifier names sets exactly the modifiers named, in any order
/// and however often each is named.
pub proof fn lemma_apply_modifiers_set(mods: Seq<Seq<char>>, spec: HotkeySpec)
    requires
        all_modifiers(mods),
    ensures
        apply_modifiers(mods, spec) == Some(
            HotkeySpec {
                ctrl: spec.ctrl || modifiers_named(mods).contains(Modifier::Ctrl),
                alt: spec.alt || modifiers_named(mods).contains(Modifier::Alt),
                shift: spec.shift || modifiers_named(mods).contains(Modifier::Shift),
                ..spec
            },
        ),
    decreases mods.len(),
{
    if mods.len() > 0 {
        let prev = mods.drop_last();
        assert forall|i: int| 0 <= i < prev.len() implies (#[trigger] modifier_spec(prev[i])) is Some by {
            assert(prev[i] == mods[i]);
        }
        lemma_apply_modifiers_set(prev, spec);
        assert(modifier_spec(mods[mods.len() - 1]) is Some);
    }
}

/// A hotkey string is read the same whatever the order, letter case,
/// repetition and surrounding blanks of its modifier names: two strings whose
/// main keys name the same (non-modifier) key and whose other components name
/// the same set of modifiers parse to the same combo.
pub proof fn law_parse_ignores_modifier_order(s1: Seq<char>, s2: Seq<char>)
    requires
        key_parts(s1).len() > 0,
        key_parts(s2).len() > 0,
        vk_from_name_spec(key_parts(s1).last()) is Some,
        vk_from_name_spec(key_parts(s1).last()) == vk_from_name_spec(key_parts(s2).last()),
        modifier_spec(key_parts(s1).last()) is None,
        modifier_spec(key_parts(s2).last()) is None,
        all_modifiers(key_parts(s1).drop_last()),
        all_modifiers(key_parts(s2).drop_last()),
        modifiers_named(key_parts(s1).drop_last()) == modifiers_named(key_parts(s2).drop_last()),
    ensures
        parse_hotkey_spec(s1) == parse_hotkey_spec(s2),
        parse_hotkey_spec(s1) == Some(
            HotkeySpec {
                vk: vk_from_name_spec(key_parts(s1).last())->0,
                ctrl: modifiers_named(key_parts(s1).drop_last()).contains(Modifier::Ctrl),
                alt: modifiers_named(key_parts(s1).drop_last()).contains(Modifier::Alt),
                shift: modifiers_named(key_parts(s1).drop_last()).contains(Modifier::Shift),
            },
        ),
{
    let vk = vk_from_name_spec(key_parts(s1).last())->0;
    let base = HotkeySpec { vk, ctrl: false, alt: false, shift: false };
    lemma_apply_modifiers_set(key_parts(s1).drop_last(), base);
    lemma_apply_modifiers_set(key_parts(s2).drop_last(), base);
}

/// Display name `Ctrl+Alt+Shift+Key` of a combo (modifiers in this fixed order).
pub open spec fn combo_name_spec(spec: HotkeySpec) -> Seq<char> {
    (if spec.ctrl {
        "Ctrl+"@
    } else {
        Seq::empty()
    }) + (if spec.alt {
        "Alt+"@
    } else {
        Seq::empty()
    }) + (if spec.shift {
        "Shift+"@
    } else {
        Seq::empty()
    }) + vk_name_spec(spec.vk)
}

impl HotkeySpec {
    /// Combo display name such as "Ctrl+Alt+V", readable by `parse_hotkey`
    /// (it can be written back to the configuration).
    pub fn combo_name(&self) -> (r: String)
        ensures
            r@ == combo_name_spec(*self),
    {
        let mut s = String::new();
        if self.ctrl {
            push_str(&mut s, "Ctrl+");
        }
        if self.alt {
            push_str(&mut s, "Alt+");
        }
        if self.shift {
            push_str(&mut s, "Shift+");
        }
        let name = vk_name(self.vk);
        push_chars(&mut s, name.as_slice());
        proof {
            let e = Seq::<char>::empty();
            assert(combo_name_spec(*self) =~= (if self.ctrl {
                "Ctrl+"@
            } else {
                e
            }) + (if self.alt {
                "Alt+"@
            } else {
                e
            }) + (if self.shift {
                "Shift+"@
            } else {
                e
            }) + vk_name_spec(self.vk));
        }
        s
    }
}

/// Key code to name (inverse of `vk_from_name`; unknown codes become `VK0x..`).
pub fn vk_name(vk: u32) -> (r: Vec<char>)
    ensures
        r@ == vk_name_spec(vk),
{
    if (48 <= vk && vk <= 57) || (65 <= vk && vk <= 90) {
        let c = (vk as u8) as char;
        let mut v: Vec<char> = Vec::new();
        v.push(c);
        assert(v@ =~= seq![vk as char]);
        return v;
    }
    if VK_F1 <= vk && vk < VK_F1 + 24 {
        let mut v: Vec<char> = Vec::new();
        v.push('F');
        let d = dec_chars((vk - VK_F1 + 1) as u64);
        let mut i: usize = 0;
        while i < d.len()
            invariant
                i <= d.len(),
                v@ == seq!['F'] + d@.take(i as int),
            decreases d.len() - i,
        {
            v.push(d[i]);
            assert(seq!['F'] + d@.take(i + 1) =~= (seq!['F'] + d@.take(i as int)).push(d@[i as int]));
            i += 1;
        }
        assert(d@.take(d.len() as int) =~= d@);
        return v;
    }
    let name: &str = if vk == VK_SPACE {
        "Space"
    } else if vk == VK_TAB {
        "Tab"
    } else if vk == VK_RETURN {
        "Enter"
    } else if vk == VK_BACK {
        "Backspace"
    } else if vk == VK_DELETE {
        "Delete"
    } else if vk == VK_INSERT {
        "Insert"
    } else if vk == VK_HOME {
        "Home"
    } else if vk == VK_END {
        "End"
    } else if vk == VK_PRIOR {
        "PageUp"
    } else if vk == VK_NEXT {
        "PageDown"
    } else if vk == VK_UP {
        "Up"
    } else if vk == VK_DOWN {
        "Down"
    } else if vk == VK_LEFT {
        "Left"
    } else if vk == VK_RIGHT {
        "Right"
    } else if vk == VK_SNAPSHOT {
        "PrintScreen"
    } else if vk == VK_PAUSE {
        "Pause"
    } else if vk == VK_CAPITAL {
        "CapsLock"
    } else if vk == VK_ESCAPE {
        "Escape"
    } else {
        let mut v = chars_of("VK0x");
        let h = pad_zeros(hex_chars(vk as u64), 2);
        let mut i: usize = 0;
        let ghost base = v@;
        while i < h.len()
            invariant
                i <= h.len(),
                base == "VK0x"@,
                v@ == base + h@.take(i as int),
            decreases h.len() - i,
        {
            v.push(h[i]);
            assert(base + h@.take(i + 1) =~= (base + h@.take(i as int)).push(h@[i as int]));
            i += 1;
        }
        assert(h@.take(h.len() as int) =~= h@);
        return v;
    };
    chars_of(name)
}

/// Key name to key code (case-insensitive); `None` when not recognised.
pub fn vk_from_name(name: &[char]) -> (r: Option<u32>)
    ensures
        r == vk_from_name_spec(name@),
{
    let n = trim_chars(name);
    if n.len() == 1 {
        let c = to_ascii_upper(n[0]);
        if ('A' <= c && c <= 'Z') || ('0' <= c && c <= '9') {
            return Some(c as u32);
        }
    }
    let lower = lower_chars(n.as_slice());
    if lower.len() > 0 && lower[0] == 'f' {
        let num = slice_to_vec(lower.as_slice(), 1, lower.len());
        assert(num@ =~= lower@.drop_first());
        match parse_unsigned_chars(num.as_slice(), 0xFFFF_FFFF) {
            Some(k) => {
                if 1 <= k && k <= 24 {
                    return Some(VK_F1 + (k as u32 - 1));
                }
            },
            None => {},
        }
    }
    let l = lower.as_slice();
    if eq_lit(l, "space") {
        Some(VK_SPACE)
    } else if eq_lit(l, "tab") {
        Some(VK_TAB)
    } else if eq_lit(l, "enter") || eq_lit(l, "return") {
        Some(VK_RETURN)
    } else if eq_lit(l, "esc") || eq_lit(l, "escape") {
        Some(VK_ESCAPE)
    } else if eq_lit(l, "backspace") || eq_lit(l, "back") {
        Some(VK_BACK)
    } else if eq_lit(l, "delete") || eq_lit(l, "del") {
        Some(VK_DELETE)
    } else if eq_lit(l, "insert") || eq_lit(l, "ins") {
        Some(VK_INSERT)
    } else if eq_lit(l, "home") {
        Some(VK_HOME)
    } else if eq_lit(l, "end") {
        Some(VK_END)
    } else if eq_lit(l, "pageup") || eq_lit(l, "pgup") {
        Some(VK_PRIOR)
    } else if eq_lit(l, "pagedown") || eq_lit(l, "pgdn") {
        Some(VK_NEXT)
    } else if eq_lit(l, "up") {
        Some(VK_UP)
    } else if eq_lit(l, "down") {
        Some(VK_DOWN)
    } else if eq_lit(l, "left") {
        Some(VK_LEFT)
    } else if eq_lit(l, "right") {
        Some(VK_RIGHT)
    } else if eq_lit(l, "printscreen") || eq_lit(l, "print") {
        Some(VK_SNAPSHOT)
    } else if eq_lit(l, "pause") {
        Some(VK_PAUSE)
    } else if eq_lit(l, "capslock") || eq_lit(l, "caps") {
        Some(VK_CAPITAL)
    } else {
        None
    }
}

/// Modifier by name (modifiers cannot be the main key).
pub fn modifier_from_name(name: &[char]) -> (r: Option<Modifier>)
    ensures
        r == modifier_spec(name@),
{
    let t = trim_chars(name);
    let l = lower_chars(t.as_slice());
    let l = l.as_slice();
    if eq_lit(l, "ctrl") || eq_lit(l, "control") {
        Some(Modifier::Ctrl)
    } else if eq_lit(l, "alt") || eq_lit(l, "menu") {
        Some(Modifier::Alt)
    } else if eq_lit(l, "shift") {
        Some(Modifier::Shift)
    } else {
        None
    }
}

pub open spec fn views(v: Seq<Vec<char>>) -> Seq<Seq<char>> {
    v.map_values(|x: Vec<char>| x@)
}

/// `split('+')` on characters.
fn split_on_plus(s: &[char]) -> (r: Vec<Vec<char>>)
    ensures
        views(r@) == split_plus(s@),
{
    let mut done: Vec<Vec<char>> = Vec::new();
    let mut cur: Vec<char> = Vec::new();
    let mut i: usize = 0;
    assert(s@.take(0) =~= Seq::<char>::empty());
    assert(views(done@).push(cur@) =~= split_plus(s@.take(0)));
    while i < s.len()
        invariant
            i <= s.len(),
            views(done@).push(cur@) == split_plus(s@.take(i as int)),
        decreases s.len() - i,
    {
        let c = s[i];
        assert(s@.take(i + 1).drop_last() =~= s@.take(i as int));
        assert(s@.take(i + 1).last() == c);
        if c == '+' {
            let piece = cur;
            done.push(piece);
            cur = Vec::new();
            assert(views(done@).push(cur@) =~= split_plus(s@.take(i as int)).push(Seq::empty()));
        } else {
            let ghost prev = split_plus(s@.take(i as int));
            cur.push(c);
            assert(views(done@).push(cur@) =~= prev.update(prev.len() - 1, prev.last().push(c)));
        }
        i += 1;
    }
    assert(s@.take(s.len() as int) =~= s@);
    done.push(cur);
    assert(views(done@) =~= split_plus(s@));
    done
}

/// The components of a hotkey string (see `key_parts`).
fn hotkey_parts(s: &[char]) -> (r: Vec<Vec<char>>)
    ensures
        views(r@) == key_parts(s@),
{
    let pieces = split_on_plus(s);
    let mut out: Vec<Vec<char>> = Vec::new();
    let mut k: usize = 0;
    while k < pieces.len()
        invariant
            k <= pieces.len(),
            views(pieces@) == split_plus(s@),
            views(out@) == nonempty_trimmed(views(pieces@).take(k as int)),
        decreases pieces.len() - k,
    {
        let t = trim_chars(pieces[k].as_slice());
        assert(views(pieces@).take(k + 1).drop_last() =~= views(pieces@).take(k as int));
        assert(views(pieces@).take(k + 1).last() == pieces@[k as int]@);
        if t.len() > 0 {
            out.push(t);
            assert(views(out@) =~= nonempty_trimmed(views(pieces@).take(k as int)).push(t@));
        }
        k += 1;
    }
    assert(views(pieces@).take(pieces.len() as int) =~= views(pieces@));
    out
}

/// Parses a hotkey string such as "F8", "Alt+V", "Ctrl+Shift+F7" or "Escape".
/// The main key is the last component and cannot be a modifier; modifier order
/// does not matter and repeats are harmless.
pub fn parse_hotkey(key: &str) -> (r: Option<HotkeySpec>)
    ensures
        r == parse_hotkey_spec(key@),
{
    let chars = chars_of(key);
    let parts = hotkey_parts(chars.as_slice());
    let n = parts.len();
    if n == 0 {
        return None;
    }
    let main = &parts[n - 1];
    assert(views(parts@).last() == main@);
    let vk = match vk_from_name(main.as_slice()) {
        Some(vk) => vk,
        None => return None,
    };
    if modifier_from_name(main.as_slice()).is_some() {
        return None;
    }
    let mut spec = HotkeySpec { vk, ctrl: false, alt: false, shift: false };
    let ghost start = spec;
    let ghost mods = views(parts@).drop_last();
    assert(parse_hotkey_spec(key@) == apply_modifiers(mods, start));
    assert(mods.take(0) =~= Seq::<Seq<char>>::empty());
    let mut i: usize = 0;
    while i < n - 1
        invariant
            parse_hotkey_spec(key@) == apply_modifiers(mods, start),
            n == parts.len(),
            n > 0,
            i <= n - 1,
            mods == views(parts@).drop_last(),
            apply_modifiers(mods.take(i as int), start) == Some(spec),
        decreases n - 1 - i,
    {
        assert(mods.take(i + 1).drop_last() =~= mods.take(i as int));
        assert(mods.take(i + 1).last() == parts@[i as int]@);
        match modifier_from_name(parts[i].as_slice()) {
            Some(Modifier::Ctrl) => spec.ctrl = true,
            Some(Modifier::Alt) => spec.alt = true,
            Some(Modifier::Shift) => spec.shift = true,
            None => {
                proof {
                    assert(modifier_spec(mods.take(i + 1).last()) is None);
                    assert(apply_modifiers(mods.take(i + 1), start) is None);
                    lemma_apply_modifiers_none_extends(mods, i as int + 1, start);
                    assert(parse_hotkey_spec(key@) == apply_modifiers(mods, start));
                }
                return None;
            },
        }
        i += 1;
    }
    assert(mods.take((n - 1) as int) =~= mods);
    Some(spec)
}

/// Once a prefix of the modifier list fails, the whole list fails.
proof fn lemma_apply_modifiers_none_extends(mods: Seq<Seq<char>>, k: int, start: HotkeySpec)
    requires
        0 <= k <= mods.len(),
        apply_modifiers(mods.take(k), start) is None,
    ensures
        apply_modifiers(mods, start) is None,
    decreases mods.len() - k,
{
    if k < mods.len() {
        assert(mods.take(k + 1).drop_last() =~= mods.take(k));
        lemma_apply_modifiers_none_extends(mods, k + 1, start);
    } else {
        assert(mods.take(k) =~= mods);
    }
}

/// Two hotkey strings conflict when both parse to the same combo
/// (a string that does not parse never conflicts; registration reports it).
pub open spec fn combos_conflict_spec(a: Seq<char>, b: Seq<char>) -> bool {
    match (parse_hotkey_spec(a), parse_hotkey_spec(b)) {
        (Some(x), Some(y)) => x == y,
        _ => false,
    }
}

pub fn combos_conflict(a: &str, b: &str) -> (r: bool)
    ensures
        r == combos_conflict_spec(a@, b@),
{
    match (parse_hotkey(a), parse_hotkey(b)) {
        (Some(x), Some(y)) => x == y,
        _ => false,
    }
}

// ---------- matching state machine ----------

/// Key action of a low-level key event.
#[derive(Debug, Clone, Copy, PartialEq, Eq, Structural)]
pub enum KeyAction {
    Down,
    Up,
}

/// Event produced by a match (sent to the orchestrator).
#[derive(Debug, Clone, Copy, PartialEq, Eq, Structural)]
pub enum HookEvent {
    /// hold mode: main key pressed
    HoldPressed,
    /// hold mode: main key released
    HoldReleased,
    /// toggle mode: main key pressed (repeats filtered)
    Toggle,
    /// Esc while a session is active
    Cancel,
    /// channel-cycle key pressed (tap semantics)
    CycleChannel,
    /// resend-last key pressed (tap semantics)
    ResendLast,
    /// diagnostic: the main key went down but the modifier state did not match
    /// (not swallowed, no business event)
    MainKeyMissed { ctrl: bool, alt: bool, shift: bool },
}

/// Verdict on one key event.
#[derive(Debug, Clone, Copy, PartialEq, Eq, Structural)]
pub struct MatchOutcome {
    /// true: swallow the key (the game does not receive it)
    pub swallow: bool,
    pub event: Option<HookEvent>,
    /// combo recorded in capture mode; always `None` outside capture mode
    pub captured: Option<HotkeySpec>,
}

impl MatchOutcome {
    /// The outcome that lets a key through untouched.
    pub fn pass() -> (r: MatchOutcome)
        ensures
            r == pass_outcome(),
    {
        MatchOutcome { swallow: false, event: None, captured: None }
    }
}

pub open spec fn pass_outcome() -> MatchOutcome {
    MatchOutcome { swallow: false, event: None, captured: None }
}

pub open spec fn swallow_outcome(event: Option<HookEvent>) -> MatchOutcome {
    MatchOutcome { swallow: true, event, captured: None }
}

/// Full state of the matcher.
#[derive(Debug, Clone, Copy, PartialEq, Eq, Structural)]
pub struct MatcherState {
    pub spec: HotkeySpec,
    pub mode: HotkeyMode,
    pub enabled: bool,
    /// channel-cycle key (optional; strict modifier match, tap semantics)
    pub cycle_spec: Option<HotkeySpec>,
    /// resend-last key (optional; same shape as the cycle key)
    pub resend_spec: Option<HotkeySpec>,
    /// live modifier state
    pub ctrl: bool,
    pub alt: bool,
    pub shift: bool,
    /// main key physically down (repeat filter)
    pub main_down: bool,
    /// the current main down matched and was swallowed (its up is swallowed too)
    pub main_matched: bool,
    /// hold mode emitted `HoldPressed` (a release must follow)
    pub hold_fired: bool,
    pub cycle_down: bool,
    pub resend_down: bool,
    pub esc_down: bool,
    pub esc_matched: bool,
    /// a session is active: Esc cancels
    pub session_active: bool,
    /// capture mode (recording a new hotkey)
    pub capture_active: bool,
    /// key recorded by capture mode, swallowed until its key up
    pub capture_swallow_vk: Option<u32>,
}

/// State right after construction (or a re-key, before the auxiliary keys are restored).
pub open spec fn initial_state(spec: HotkeySpec, mode: HotkeyMode) -> MatcherState {
    MatcherState {
        spec,
        mode,
        enabled: true,
        cycle_spec: None,
        resend_spec: None,
        ctrl: false,
        alt: false,
        shift: false,
        main_down: false,
        main_matched: false,
        hold_fired: false,
        cycle_down: false,
        resend_down: false,
        esc_down: false,
        esc_matched: false,
        session_active: false,
        capture_active: false,
        capture_swallow_vk: None,
    }
}

pub open spec fn is_shift_vk(vk: u32) -> bool {
    vk == VK_SHIFT || vk == VK_LSHIFT || vk == VK_RSHIFT
}

pub open spec fn is_ctrl_vk(vk: u32) -> bool {
    vk == VK_CONTROL || vk == VK_LCONTROL || vk == VK_RCONTROL
}

pub open spec fn is_alt_vk(vk: u32) -> bool {
    vk == VK_MENU || vk == VK_LMENU || vk == VK_RMENU
}

pub open spec fn is_modifier_vk(vk: u32) -> bool {
    is_shift_vk(vk) || is_ctrl_vk(vk) || is_alt_vk(vk)
}

/// The live modifier state equals the one `k` requires.
pub open spec fn mods_equal(s: MatcherState, k: HotkeySpec) -> bool {
    s.ctrl == k.ctrl && s.alt == k.alt && s.shift == k.shift
}

#[verifier::opaque]
/// Channel-cycle key handling; `None` means the event falls through.
pub open spec fn cycle_step(s: MatcherState, vk: u32, down: bool) -> Option<(MatcherState, MatchOutcome)> {
    match s.cycle_spec {
        Some(cs) => if vk != cs.vk {
            None
        } else if down {
            if s.cycle_down {
                Some((s, swallow_outcome(None)))
            } else if mods_equal(s, cs) {
                Some((MatcherState { cycle_down: true, ..s }, swallow_outcome(Some(HookEvent::CycleChannel))))
            } else {
                None
            }
        } else if s.cycle_down {
            Some((MatcherState { cycle_down: false, ..s }, swallow_outcome(None)))
        } else {
            None
        },
        None => None,
    }
}

#[verifier::opaque]
/// Resend-last key handling; `None` means the event falls through.
pub open spec fn resend_step(s: MatcherState, vk: u32, down: bool) -> Option<(MatcherState, MatchOutcome)> {
    match s.resend_spec {
        Some(rs) => if vk != rs.vk {
            None
        } else if down {
            if s.resend_down {
                Some((s, swallow_outcome(None)))
            } else if mods_equal(s, rs) {
                Some((MatcherState { resend_down: true, ..s }, swallow_outcome(Some(HookEvent::ResendLast))))
            } else {
                None
            }
        } else if s.resend_down {
            Some((MatcherState { resend_down: false, ..s }, swallow_outcome(None)))
        } else {
            None
        },
        None => None,
    }
}

#[verifier::opaque]
/// Main key handling (the event's code is the main key's).
pub open spec fn main_step(s: MatcherState, down: bool) -> (MatcherState, MatchOutcome) {
    if down {
        if s.main_down {
            (s, MatchOutcome { swallow: s.main_matched, event: None, captured: None })
        } else if mods_equal(s, s.spec) {
            match s.mode {
                HotkeyMode::Hold => (
                    MatcherState { main_down: true, main_matched: true, hold_fired: true, ..s },
                    swallow_outcome(Some(HookEvent::HoldPressed)),
                ),
                HotkeyMode::Toggle => (
                    MatcherState { main_down: true, main_matched: true, ..s },
                    swallow_outcome(Some(HookEvent::Toggle)),
                ),
            }
        } else {
            (
                MatcherState { main_down: true, main_matched: false, ..s },
                MatchOutcome {
                    swallow: false,
                    event: Some(HookEvent::MainKeyMissed { ctrl: s.ctrl, alt: s.alt, shift: s.shift }),
                    captured: None,
                },
            )
        }
    } else if !s.main_down {
        (s, pass_outcome())
    } else if s.mode == HotkeyMode::Hold && s.hold_fired {
        (
            MatcherState { main_down: false, main_matched: false, hold_fired: false, ..s },
            swallow_outcome(Some(HookEvent::HoldReleased)),
        )
    } else {
        (
            MatcherState { main_down: false, main_matched: false, ..s },
            MatchOutcome { swallow: s.main_matched, event: None, captured: None },
        )
    }
}

#[verifier::opaque]
/// Esc handling (the event's code is Esc and Esc is not the main key).
pub open spec fn esc_step(s: MatcherState, down: bool) -> (MatcherState, MatchOutcome) {
    if down {
        if s.esc_down {
            (s, MatchOutcome { swallow: s.esc_matched, event: None, captured: None })
        } else if s.session_active {
            (MatcherState { esc_down: true, esc_matched: true, ..s }, swallow_outcome(Some(HookEvent::Cancel)))
        } else {
            (MatcherState { esc_down: true, esc_matched: false, ..s }, pass_outcome())
        }
    } else if !s.esc_down {
        (s, pass_outcome())
    } else {
        (
            MatcherState { esc_down: false, esc_matched: false, ..s },
            MatchOutcome { swallow: s.esc_matched, event: None, captured: None },
        )
    }
}

#[verifier::opaque]
/// The recorded key of capture mode stays swallowed until its key up.
pub open spec fn captured_tail_step(s: MatcherState, vk: u32, down: bool) -> Option<(MatcherState, MatchOutcome)> {
    if s.capture_swallow_vk == Some(vk) {
        if down {
            Some((s, swallow_outcome(None)))
        } else {
            Some((MatcherState { capture_swallow_vk: None, ..s }, swallow_outcome(None)))
        }
    } else {
        None
    }
}

#[verifier::opaque]
/// Modifier keys only update the tracked state and are never swallowed.
pub open spec fn modifier_step(s: MatcherState, vk: u32, down: bool) -> Option<(MatcherState, MatchOutcome)> {
    if is_shift_vk(vk) {
        Some((MatcherState { shift: down, ..s }, pass_outcome()))
    } else if is_ctrl_vk(vk) {
        Some((MatcherState { ctrl: down, ..s }, pass_outcome()))
    } else if is_alt_vk(vk) {
        Some((MatcherState { alt: down, ..s }, pass_outcome()))
    } else {
        None
    }
}

#[verifier::opaque]
/// Capture mode records the combo of a non-Esc key down; the disabled state
/// lets everything through.
pub open spec fn capture_step(s: MatcherState, vk: u32, down: bool) -> Option<(MatcherState, MatchOutcome)> {
    if s.capture_active {
        if down && vk != VK_ESCAPE {
            Some(
                (
                    MatcherState { capture_swallow_vk: Some(vk), ..s },
                    MatchOutcome {
                        swallow: true,
                        event: None,
                        captured: Some(HotkeySpec { vk, ctrl: s.ctrl, alt: s.alt, shift: s.shift }),
                    },
                ),
            )
        } else {
            Some((s, pass_outcome()))
        }
    } else if !s.enabled {
        Some((s, pass_outcome()))
    } else {
        None
    }
}

/// Handling that precedes matching proper; `None` falls through.
pub open spec fn pre_step(s: MatcherState, vk: u32, down: bool) -> Option<(MatcherState, MatchOutcome)> {
    match captured_tail_step(s, vk, down) {
        Some(r) => Some(r),
        None => match modifier_step(s, vk, down) {
            Some(r) => Some(r),
            None => capture_step(s, vk, down),
        },
    }
}

/// One key event: the new state and the verdict.
pub open spec fn key_step(s: MatcherState, vk: u32, down: bool) -> (MatcherState, MatchOutcome) {
    match pre_step(s, vk, down) {
        Some(r) => r,
        None => enabled_step(s, vk, down),
    }
}

/// Matching proper (enabled, not capturing, not a modifier): auxiliary keys
/// first, falling through to the main key and then to Esc.
pub open spec fn enabled_step(s: MatcherState, vk: u32, down: bool) -> (MatcherState, MatchOutcome) {
    match cycle_step(s, vk, down) {
        Some(r) => r,
        None => match resend_step(s, vk, down) {
            Some(r) => r,
            None => if vk == s.spec.vk {
                main_step(s, down)
            } else if vk == VK_ESCAPE {
                esc_step(s, down)
            } else {
                (s, pass_outcome())
            },
        },
    }
}

/// Hotkey matching state machine: tracks the live modifiers and the pressed
/// state of the main and auxiliary keys, filtering auto-repeat downs.
pub struct HookMatcher {
    st: MatcherState,
}

impl View for HookMatcher {
    type V = MatcherState;

    closed spec fn view(&self) -> MatcherState {
        self.st
    }
}

impl HookMatcher {
    /// The key awaiting its key up after a capture is never a modifier.
    #[verifier::type_invariant]
    spec fn wf(self) -> bool {
        matcher_wf(self.st)
    }

    pub fn new(spec: HotkeySpec, mode: HotkeyMode) -> (r: HookMatcher)
        ensures
            r@ == initial_state(spec, mode),
    {
        HookMatcher {
            st: MatcherState {
                spec,
                mode,
                enabled: true,
                cycle_spec: None,
                resend_spec: None,
                ctrl: false,
                alt: false,
                shift: false,
                main_down: false,
                main_matched: false,
                hold_fired: false,
                cycle_down: false,
                resend_down: false,
                esc_down: false,
                esc_matched: false,
                session_active: false,
                capture_active: false,
                capture_swallow_vk: None,
            },
        }
    }

    /// Re-key or change mode at run time: every pressed state is reset; the
    /// cycle and resend keys (driven by their own settings) are kept.
    pub fn set_config(&mut self, spec: HotkeySpec, mode: HotkeyMode)
        ensures
            final(self)@ == (MatcherState {
                cycle_spec: old(self)@.cycle_spec,
                resend_spec: old(self)@.resend_spec,
                ..initial_state(spec, mode)
            }),
    {
        let cycle_spec = self.st.cycle_spec;
        let resend_spec = self.st.resend_spec;
        *self = Self::new(spec, mode);
        self.st.cycle_spec = cycle_spec;
        self.st.resend_spec = resend_spec;
    }

    /// Sets or clears the channel-cycle key.
    pub fn set_cycle_spec(&mut self, spec: Option<HotkeySpec>)
        ensures
            final(self)@ == (MatcherState { cycle_spec: spec, cycle_down: false, ..old(self)@ }),
    {
        proof {
            use_type_invariant(&*self);
        }
        self.st.cycle_spec = spec;
        self.st.cycle_down = false;
    }

    /// Sets or clears the resend-last key.
    pub fn set_resend_spec(&mut self, spec: Option<HotkeySpec>)
        ensures
            final(self)@ == (MatcherState { resend_spec: spec, resend_down: false, ..old(self)@ }),
    {
        proof {
            use_type_invariant(&*self);
        }
        self.st.resend_spec = spec;
        self.st.resend_down = false;
    }

    /// Enables or disables matching; disabling forgets every pressed state.
    pub fn set_enabled(&mut self, enabled: bool)
        ensures
            enabled ==> final(self)@ == (MatcherState { enabled: true, ..old(self)@ }),
            !enabled ==> final(self)@ == (MatcherState {
                enabled: false,
                main_down: false,
                main_matched: false,
                hold_fired: false,
                cycle_down: false,
                resend_down: false,
                esc_down: false,
                esc_matched: false,
                ..old(self)@
            }),
    {
        proof {
            use_type_invariant(&*self);
        }
        let mut st = self.st;
        st.enabled = enabled;
        if !enabled {
            st.main_down = false;
            st.main_matched = false;
            st.hold_fired = false;
            st.cycle_down = false;
            st.resend_down = false;
            st.esc_down = false;
            st.esc_matched = false;
        }
        self.st = st;
    }

    pub fn set_session_active(&mut self, active: bool)
        ensures
            final(self)@ == (MatcherState { session_active: active, ..old(self)@ }),
    {
        proof {
            use_type_invariant(&*self);
        }
        self.st.session_active = active;
    }

    /// Capture mode (recording a hotkey): the recorded key is swallowed and no
    /// event fires; Esc down is not recorded (the caller treats it as cancel).
    /// Capture works even while matching is disabled.
    pub fn set_capture_active(&mut self, active: bool)
        ensures
            final(self)@ == (MatcherState { capture_active: active, ..old(self)@ }),
    {
        proof {
            use_type_invariant(&*self);
        }
        self.st.capture_active = active;
    }

    /// Synchronises the modifiers with their physical state (called before every
    /// hook event); modifiers are never swallowed, so the physical state is exact.
    pub fn sync_modifiers(&mut self, ctrl: bool, alt: bool, shift: bool)
        ensures
            final(self)@ == (MatcherState { ctrl, alt, shift, ..old(self)@ }),
    {
        proof {
            use_type_invariant(&*self);
        }
        self.st.ctrl = ctrl;
        self.st.alt = alt;
        self.st.shift = shift;
    }

    fn mods_match(&self) -> (r: bool)
        ensures
            r == mods_equal(self@, self@.spec),
    {
        self.st.ctrl == self.st.spec.ctrl && self.st.alt == self.st.spec.alt && self.st.shift
            == self.st.spec.shift
    }

    /// One key event in, the swallow and event verdict out (the hook's only entry).
    pub fn on_key(&mut self, vk: u32, action: KeyAction) -> (r: MatchOutcome)
        ensures
            (final(self)@, r) == key_step(old(self)@, vk, action == KeyAction::Down),
            matcher_wf(old(self)@),
            is_modifier_vk(vk) ==> r == pass_outcome(),
    {
        proof {
            use_type_invariant(&*self);
        }
        let down = match action {
            KeyAction::Down => true,
            KeyAction::Up => false,
        };
        let mut st = self.st;
        let r = key_event(&mut st, vk, down);
        proof {
            law_matcher_wf_preserved(self.st, vk, down, self.st.spec, self.st.mode);
            if is_modifier_vk(vk) {
                law_modifiers_pass_through(self.st, vk, down);
            }
        }
        self.st = st;
        r
    }
}

fn key_event(st: &mut MatcherState, vk: u32, down: bool) -> (r: MatchOutcome)
    ensures
        (*final(st), r) == key_step(*old(st), vk, down),
{
    match pre_key(st, vk, down) {
        Some(r) => r,
        None => enabled_key(st, vk, down),
    }
}

fn pre_key(st: &mut MatcherState, vk: u32, down: bool) -> (r: Option<MatchOutcome>)
    ensures
        match pre_step(*old(st), vk, down) {
            Some(p) => r == Some(p.1) && *final(st) == p.0,
            None => r.is_none() && *final(st) == *old(st),
        },
{
    match captured_tail_key(st, vk, down) {
        Some(r) => return Some(r),
        None => {},
    }
    match modifier_key(st, vk, down) {
        Some(r) => return Some(r),
        None => {},
    }
    capture_key(st, vk, down)
}

fn captured_tail_key(st: &mut MatcherState, vk: u32, down: bool) -> (r: Option<MatchOutcome>)
    ensures
        match captured_tail_step(*old(st), vk, down) {
            Some(p) => r == Some(p.1) && *final(st) == p.0,
            None => r.is_none() && *final(st) == *old(st),
        },
{
    reveal(captured_tail_step);
    let pending = match st.capture_swallow_vk {
        Some(p) => p == vk,
        None => false,
    };
    if pending {
        if !down {
            st.capture_swallow_vk = None;
        }
        return Some(MatchOutcome { swallow: true, event: None, captured: None });
    }
    None
}

fn modifier_key(st: &mut MatcherState, vk: u32, down: bool) -> (r: Option<MatchOutcome>)
    ensures
        match modifier_step(*old(st), vk, down) {
            Some(p) => r == Some(p.1) && *final(st) == p.0,
            None => r.is_none() && *final(st) == *old(st),
        },
{
    reveal(modifier_step);
    let shift = vk == VK_SHIFT || vk == VK_LSHIFT || vk == VK_RSHIFT;
    let ctrl = vk == VK_CONTROL || vk == VK_LCONTROL || vk == VK_RCONTROL;
    let alt = vk == VK_MENU || vk == VK_LMENU || vk == VK_RMENU;
    assert(shift == is_shift_vk(vk));
    assert(ctrl == is_ctrl_vk(vk));
    assert(alt == is_alt_vk(vk));
    if shift {
        st.shift = down;
        Some(MatchOutcome::pass())
    } else if ctrl {
        st.ctrl = down;
        Some(MatchOutcome::pass())
    } else if alt {
        st.alt = down;
        Some(MatchOutcome::pass())
    } else {
        None
    }
}

fn capture_key(st: &mut MatcherState, vk: u32, down: bool) -> (r: Option<MatchOutcome>)
    ensures
        match capture_step(*old(st), vk, down) {
            Some(p) => r == Some(p.1) && *final(st) == p.0,
            None => r.is_none() && *final(st) == *old(st),
        },
{
    reveal(capture_step);
    if st.capture_active {
        if down && vk != VK_ESCAPE {
            st.capture_swallow_vk = Some(vk);
            return Some(
                MatchOutcome {
                    swallow: true,
                    event: None,
                    captured: Some(HotkeySpec { vk, ctrl: st.ctrl, alt: st.alt, shift: st.shift }),
                },
            );
        }
        return Some(MatchOutcome::pass());
    }
    if !st.enabled {
        return Some(MatchOutcome::pass());
    }
    None
}

fn enabled_key(st: &mut MatcherState, vk: u32, down: bool) -> (r: MatchOutcome)
    ensures
        (*final(st), r) == enabled_step(*old(st), vk, down),
{
    match cycle_key(st, vk, down) {
        Some(r) => return r,
        None => {},
    }
    match resend_key(st, vk, down) {
        Some(r) => return r,
        None => {},
    }
    if vk == st.spec.vk {
        return main_key(st, down);
    }
    if vk == VK_ESCAPE {
        return esc_key(st, down);
    }
    MatchOutcome::pass()
}

fn cycle_key(st: &mut MatcherState, vk: u32, down: bool) -> (r: Option<MatchOutcome>)
    ensures
        match cycle_step(*old(st), vk, down) {
            Some(p) => r == Some(p.1) && *final(st) == p.0,
            None => r.is_none() && *final(st) == *old(st),
        },
{
    reveal(cycle_step);
    if let Some(cs) = st.cycle_spec {
        if vk == cs.vk {
            if down {
                if st.cycle_down {
                    return Some(MatchOutcome { swallow: true, event: None, captured: None });
                }
                if st.ctrl == cs.ctrl && st.alt == cs.alt && st.shift == cs.shift {
                    st.cycle_down = true;
                    return Some(
                        MatchOutcome { swallow: true, event: Some(HookEvent::CycleChannel), captured: None },
                    );
                }
            } else if st.cycle_down {
                st.cycle_down = false;
                return Some(MatchOutcome { swallow: true, event: None, captured: None });
            }
        }
    }
    None
}

fn resend_key(st: &mut MatcherState, vk: u32, down: bool) -> (r: Option<MatchOutcome>)
    ensures
        match resend_step(*old(st), vk, down) {
            Some(p) => r == Some(p.1) && *final(st) == p.0,
            None => r.is_none() && *final(st) == *old(st),
        },
{
    reveal(resend_step);
    if let Some(rs) = st.resend_spec {
        if vk == rs.vk {
            if down {
                if st.resend_down {
                    return Some(MatchOutcome { swallow: true, event: None, captured: None });
                }
                if st.ctrl == rs.ctrl && st.alt == rs.alt && st.shift == rs.shift {
                    st.resend_down = true;
                    return Some(
                        MatchOutcome { swallow: true, event: Some(HookEvent::ResendLast), captured: None },
                    );
                }
            } else if st.resend_down {
                st.resend_down = false;
                return Some(MatchOutcome { swallow: true, event: None, captured: None });
            }
        }
    }
    None
}

fn main_key(st: &mut MatcherState, down: bool) -> (r: MatchOutcome)
    ensures
        (*final(st), r) == main_step(*old(st), down),
{
    reveal(main_step);
    if down {
        if st.main_down {
            return MatchOutcome { swallow: st.main_matched, event: None, captured: None };
        }
        st.main_down = true;
        let matched = st.ctrl == st.spec.ctrl && st.alt == st.spec.alt && st.shift == st.spec.shift;
        st.main_matched = matched;
        if matched {
            let event = match st.mode {
                HotkeyMode::Hold => {
                    st.hold_fired = true;
                    HookEvent::HoldPressed
                },
                HotkeyMode::Toggle => HookEvent::Toggle,
            };
            return MatchOutcome { swallow: true, event: Some(event), captured: None };
        }
        return MatchOutcome {
            swallow: false,
            event: Some(HookEvent::MainKeyMissed { ctrl: st.ctrl, alt: st.alt, shift: st.shift }),
            captured: None,
        };
    }
    if !st.main_down {
        return MatchOutcome::pass();
    }
    st.main_down = false;
    let swallow = st.main_matched;
    st.main_matched = false;
    if st.mode == HotkeyMode::Hold && st.hold_fired {
        st.hold_fired = false;
        return MatchOutcome { swallow: true, event: Some(HookEvent::HoldReleased), captured: None };
    }
    MatchOutcome { swallow, event: None, captured: None }
}

fn esc_key(st: &mut MatcherState, down: bool) -> (r: MatchOutcome)
    ensures
        (*final(st), r) == esc_step(*old(st), down),
{
    reveal(esc_step);
    if down {
        if st.esc_down {
            return MatchOutcome { swallow: st.esc_matched, event: None, captured: None };
        }
        st.esc_down = true;
        let matched = st.session_active;
        st.esc_matched = matched;
        if matched {
            return MatchOutcome { swallow: true, event: Some(HookEvent::Cancel), captured: None };
        }
        return MatchOutcome::pass();
    }
    if !st.esc_down {
        return MatchOutcome::pass();
    }
    st.esc_down = false;
    let swallow = st.esc_matched;
    st.esc_matched = false;
    MatchOutcome { swallow, event: None, captured: None }
}

} // verus!

verus! {

// ---------- laws of the matcher ----------

/// The captured key awaiting its key up is never a modifier (capture mode only
/// records non-modifier keys).
pub open spec fn matcher_wf(s: MatcherState) -> bool {
    match s.capture_swallow_vk {
        Some(v) => !is_modifier_vk(v),
        None => true,
    }
}

proof fn lemma_cycle_keeps_capture(s: MatcherState, vk: u32, down: bool)
    ensures
        match cycle_step(s, vk, down) {
            Some(p) => p.0.capture_swallow_vk == s.capture_swallow_vk && p.1.captured is None,
            None => true,
        },
{
    reveal(cycle_step);
}

proof fn lemma_resend_keeps_capture(s: MatcherState, vk: u32, down: bool)
    ensures
        match resend_step(s, vk, down) {
            Some(p) => p.0.capture_swallow_vk == s.capture_swallow_vk && p.1.captured is None,
            None => true,
        },
{
    reveal(resend_step);
}

proof fn lemma_main_keeps_capture(s: MatcherState, down: bool)
    ensures
        main_step(s, down).0.capture_swallow_vk == s.capture_swallow_vk,
        main_step(s, down).1.captured is None,
{
    reveal(main_step);
}

proof fn lemma_esc_keeps_capture(s: MatcherState, down: bool)
    ensures
        esc_step(s, down).0.capture_swallow_vk == s.capture_swallow_vk,
        esc_step(s, down).1.captured is None,
{
    reveal(esc_step);
}

/// Matching proper never touches the capture state.
proof fn lemma_enabled_step_keeps_capture(s: MatcherState, vk: u32, down: bool)
    ensures
        enabled_step(s, vk, down).0.capture_swallow_vk == s.capture_swallow_vk,
        enabled_step(s, vk, down).1.captured is None,
{
    lemma_cycle_keeps_capture(s, vk, down);
    lemma_resend_keeps_capture(s, vk, down);
    lemma_main_keeps_capture(s, down);
    lemma_esc_keeps_capture(s, down);
}

proof fn lemma_tail_facts(s: MatcherState, vk: u32, down: bool)
    ensures
        match captured_tail_step(s, vk, down) {
            Some(p) => (p.0.capture_swallow_vk is None || p.0.capture_swallow_vk == s.capture_swallow_vk)
                && p.1.event is None && p.1.captured is None,
            None => s.capture_swallow_vk != Some(vk),
        },
{
    reveal(captured_tail_step);
}

proof fn lemma_modifier_facts(s: MatcherState, vk: u32, down: bool)
    ensures
        match modifier_step(s, vk, down) {
            Some(p) => p.0.capture_swallow_vk == s.capture_swallow_vk && p.1 == pass_outcome(),
            None => !is_modifier_vk(vk),
        },
{
    reveal(modifier_step);
}

proof fn lemma_capture_facts(s: MatcherState, vk: u32, down: bool)
    ensures
        match capture_step(s, vk, down) {
            Some(p) => p.1.event is None && (p.1.captured is Some ==> s.capture_active && down && vk
                != VK_ESCAPE) && (p.0.capture_swallow_vk == s.capture_swallow_vk
                || p.0.capture_swallow_vk == Some(vk)),
            None => s.enabled && !s.capture_active,
        },
{
    reveal(capture_step);
}

/// A fresh matcher is well formed, and every key event keeps it so.
pub proof fn law_matcher_wf_preserved(s: MatcherState, vk: u32, down: bool, spec: HotkeySpec, mode: HotkeyMode)
    ensures
        matcher_wf(initial_state(spec, mode)),
        matcher_wf(s) ==> matcher_wf(key_step(s, vk, down).0),
{
    lemma_tail_facts(s, vk, down);
    lemma_modifier_facts(s, vk, down);
    lemma_capture_facts(s, vk, down);
    lemma_enabled_step_keeps_capture(s, vk, down);
}

/// Modifier keys are never swallowed and never produce an event; they only
/// update the tracked modifier state.
pub proof fn law_modifiers_pass_through(s: MatcherState, vk: u32, down: bool)
    requires
        matcher_wf(s),
        is_modifier_vk(vk),
    ensures
        key_step(s, vk, down).1 == pass_outcome(),
        key_step(s, vk, down).0 == (MatcherState {
            shift: if is_shift_vk(vk) { down } else { s.shift },
            ctrl: if is_ctrl_vk(vk) { down } else { s.ctrl },
            alt: if is_alt_vk(vk) { down } else { s.alt },
            ..s
        }),
{
    reveal(captured_tail_step);
    reveal(modifier_step);
}

/// A disabled matcher outside capture mode lets every key through untouched.
pub proof fn law_disabled_passes_everything(s: MatcherState, vk: u32, down: bool)
    requires
        !s.enabled,
        !s.capture_active,
        s.capture_swallow_vk != Some(vk),
        !is_modifier_vk(vk),
    ensures
        key_step(s, vk, down) == (s, pass_outcome()),
{
    reveal(captured_tail_step);
    reveal(modifier_step);
    reveal(capture_step);
}

/// Capture mode never produces a hotkey event, and only capture mode reports a combo.
pub proof fn law_capture_fires_no_events(s: MatcherState, vk: u32, down: bool)
    ensures
        s.capture_active ==> key_step(s, vk, down).1.event is None,
        key_step(s, vk, down).1.captured is Some ==> s.capture_active && down && vk != VK_ESCAPE,
{
    lemma_tail_facts(s, vk, down);
    lemma_modifier_facts(s, vk, down);
    lemma_capture_facts(s, vk, down);
    lemma_enabled_step_keeps_capture(s, vk, down);
}

/// Holding the main key down fires once: the auto-repeat down that follows a
/// firing down of the main key is swallowed and produces no event.
pub proof fn law_repeat_down_fires_once(s: MatcherState)
    requires
        s.enabled,
        !s.capture_active,
        s.capture_swallow_vk != Some(s.spec.vk),
        !is_modifier_vk(s.spec.vk),
        key_step(s, s.spec.vk, true).1.event == Some(HookEvent::Toggle)
            || key_step(s, s.spec.vk, true).1.event == Some(HookEvent::HoldPressed),
    ensures
        key_step(key_step(s, s.spec.vk, true).0, s.spec.vk, true) == (
            key_step(s, s.spec.vk, true).0,
            swallow_outcome(None),
        ),
{
    reveal(captured_tail_step);
    reveal(modifier_step);
    reveal(capture_step);
    reveal(cycle_step);
    reveal(resend_step);
    reveal(main_step);
}

/// In hold mode a started hold always ends: the main key up after `HoldPressed`
/// yields `HoldReleased` and is swallowed, whatever the modifiers did meanwhile
/// (unless an auxiliary key on the same code is held and takes the key up).
pub proof fn law_hold_release_completes(s: MatcherState)
    requires
        s.mode == HotkeyMode::Hold,
        s.hold_fired,
        s.main_down,
        s.enabled,
        !s.capture_active,
        s.capture_swallow_vk != Some(s.spec.vk),
        !is_modifier_vk(s.spec.vk),
        !(s.cycle_spec is Some && s.cycle_spec->0.vk == s.spec.vk && s.cycle_down),
        !(s.resend_spec is Some && s.resend_spec->0.vk == s.spec.vk && s.resend_down),
    ensures
        key_step(s, s.spec.vk, false) == (
            MatcherState { main_down: false, main_matched: false, hold_fired: false, ..s },
            swallow_outcome(Some(HookEvent::HoldReleased)),
        ),
{
    reveal(captured_tail_step);
    reveal(modifier_step);
    reveal(capture_step);
    reveal(cycle_step);
    reveal(resend_step);
    reveal(main_step);
}

/// A fresh main key down is swallowed exactly when the modifiers match, and
/// a matching down always fires.
pub proof fn law_swallow_only_on_match(s: MatcherState)
    requires
        s.enabled,
        !s.capture_active,
        s.capture_swallow_vk != Some(s.spec.vk),
        !is_modifier_vk(s.spec.vk),
        s.cycle_spec is None,
        s.resend_spec is None,
        !s.main_down,
    ensures
        key_step(s, s.spec.vk, true).1.swallow == mods_equal(s, s.spec),
        mods_equal(s, s.spec) ==> key_step(s, s.spec.vk, true).1.event is Some,
{
    reveal(captured_tail_step);
    reveal(modifier_step);
    reveal(capture_step);
    reveal(cycle_step);
    reveal(resend_step);
    reveal(main_step);
}

/// A matcher call that leaves the configured keys alone: a key event, the
/// session switch, a modifier sync, leaving capture mode, or enabling.
pub enum MatcherCall {
    Key(u32, bool),
    SetSessionActive(bool),
    SyncModifiers(bool, bool, bool),
    StopCapture,
    Enable,
}

/// The matcher state after a call (as the matcher's methods state it).
pub open spec fn apply_call(s: MatcherState, c: MatcherCall) -> MatcherState {
    match c {
        MatcherCall::Key(v, down) => key_step(s, v, down).0,
        MatcherCall::SetSessionActive(a) => MatcherState { session_active: a, ..s },
        MatcherCall::SyncModifiers(ctrl, alt, shift) => MatcherState { ctrl, alt, shift, ..s },
        MatcherCall::StopCapture => MatcherState { capture_active: false, ..s },
        MatcherCall::Enable => MatcherState { enabled: true, ..s },
    }
}

/// The matcher state after calls in order.
pub open spec fn apply_calls(s: MatcherState, calls: Seq<MatcherCall>) -> MatcherState
    decreases calls.len(),
{
    if calls.len() == 0 {
        s
    } else {
        apply_call(apply_calls(s, calls.drop_last()), calls.last())
    }
}

/// The key up of `vk` is owed a swallow: the key is the captured one, or
/// matching is on and an auxiliary key, the main key or Esc holds a
/// swallowed down of it.
pub open spec fn up_owed_swallow(s: MatcherState, vk: u32) -> bool {
    &&& !is_modifier_vk(vk)
    &&& !s.capture_active
    &&& (s.capture_swallow_vk == Some(vk) || (s.enabled && ({
        ||| (s.cycle_spec is Some && s.cycle_spec->0.vk == vk && s.cycle_down)
        ||| (s.resend_spec is Some && s.resend_spec->0.vk == vk && s.resend_down)
        ||| (vk == s.spec.vk && s.main_down && s.main_matched)
        ||| (vk == VK_ESCAPE && vk != s.spec.vk && s.esc_down && s.esc_matched)
    })))
}

proof fn lemma_swallowed_down_owes_up(s: MatcherState, vk: u32)
    requires
        !is_modifier_vk(vk),
        !s.capture_active,
        key_step(s, vk, true).1.swallow,
    ensures
        up_owed_swallow(key_step(s, vk, true).0, vk),
{
    reveal(captured_tail_step);
    reveal(modifier_step);
    reveal(capture_step);
    reveal(cycle_step);
    reveal(resend_step);
    reveal(main_step);
    reveal(esc_step);
}

#[verifier::rlimit(40)]
proof fn lemma_owed_up_kept_by_other_key(s: MatcherState, vk: u32, v: u32, down: bool)
    requires
        up_owed_swallow(s, vk),
        v != vk,
    ensures
        up_owed_swallow(key_step(s, v, down).0, vk),
{
    reveal(captured_tail_step);
    reveal(modifier_step);
    reveal(capture_step);
    let t = key_step(s, v, down).0;
    if pre_step(s, v, down) is None {
        lemma_enabled_other_key(s, vk, v, down);
    }
}

proof fn lemma_enabled_other_key(s: MatcherState, vk: u32, v: u32, down: bool)
    requires
        up_owed_swallow(s, vk),
        v != vk,
    ensures
        up_owed_swallow(enabled_step(s, v, down).0, vk),
{
    reveal(cycle_step);
    reveal(resend_step);
    if cycle_step(s, v, down) is None && resend_step(s, v, down) is None {
        if v == s.spec.vk {
            reveal(main_step);
        } else if v == VK_ESCAPE {
            reveal(esc_step);
        }
    }
}

proof fn lemma_owed_up_kept_by_repeat(s: MatcherState, vk: u32)
    requires
        up_owed_swallow(s, vk),
    ensures
        up_owed_swallow(key_step(s, vk, true).0, vk),
{
    reveal(captured_tail_step);
    reveal(modifier_step);
    reveal(capture_step);
    if pre_step(s, vk, true) is None {
        reveal(cycle_step);
        reveal(resend_step);
        if cycle_step(s, vk, true) is None && resend_step(s, vk, true) is None {
            if vk == s.spec.vk {
                reveal(main_step);
            } else if vk == VK_ESCAPE {
                reveal(esc_step);
            }
        }
    }
}

proof fn lemma_owed_up_kept_by_key(s: MatcherState, vk: u32, v: u32, down: bool)
    requires
        up_owed_swallow(s, vk),
        v != vk || down,
    ensures
        up_owed_swallow(key_step(s, v, down).0, vk),
{
    if v != vk {
        lemma_owed_up_kept_by_other_key(s, vk, v, down);
    } else {
        lemma_owed_up_kept_by_repeat(s, vk);
    }
}

proof fn lemma_owed_up_is_swallowed(s: MatcherState, vk: u32)
    requires
        up_owed_swallow(s, vk),
    ensures
        key_step(s, vk, false).1.swallow,
{
    reveal(captured_tail_step);
    reveal(modifier_step);
    reveal(capture_step);
    reveal(cycle_step);
    reveal(resend_step);
    reveal(main_step);
    reveal(esc_step);
}

proof fn lemma_owed_up_kept_by_calls(s: MatcherState, vk: u32, calls: Seq<MatcherCall>)
    requires
        up_owed_swallow(s, vk),
        forall|i: int| 0 <= i < calls.len() ==> !(#[trigger] calls[i] matches MatcherCall::Key(v, false) && v == vk),
    ensures
        up_owed_swallow(apply_calls(s, calls), vk),
    decreases calls.len(),
{
    if calls.len() > 0 {
        let prev = calls.drop_last();
        assert forall|i: int| 0 <= i < prev.len() implies !(#[trigger] prev[i] matches MatcherCall::Key(v, false) && v == vk) by {
            assert(prev[i] == calls[i]);
        }
        lemma_owed_up_kept_by_calls(s, vk, prev);
        let t = apply_calls(s, prev);
        let c = calls.last();
        assert(!(calls[calls.len() - 1] matches MatcherCall::Key(v, false) && v == vk));
        if let MatcherCall::Key(v, down) = c {
            lemma_owed_up_kept_by_key(t, vk, v, down);
        }
    }
}

/// A swallowed key down always has its key up swallowed too, so the target
/// never sees an unpaired key up: after a swallowed down of a non-modifier
/// key outside capture mode, any calls that leave the configured keys alone
/// and include no key up of that key are followed by a swallowed key up.
pub proof fn law_swallowed_down_swallows_up(s: MatcherState, vk: u32, calls: Seq<MatcherCall>)
    requires
        !is_modifier_vk(vk),
        !s.capture_active,
        key_step(s, vk, true).1.swallow,
        forall|i: int| 0 <= i < calls.len() ==> !(#[trigger] calls[i] matches MatcherCall::Key(v, false) && v == vk),
    ensures
        key_step(apply_calls(key_step(s, vk, true).0, calls), vk, false).1.swallow,
{
    lemma_swallowed_down_owes_up(s, vk);
    lemma_owed_up_kept_by_calls(key_step(s, vk, true).0, vk, calls);
    lemma_owed_up_is_swallowed(apply_calls(key_step(s, vk, true).0, calls), vk);
}

/// Conflict between two hotkey strings is symmetric.
pub proof fn law_conflict_symmetric(a: Seq<char>, b: Seq<char>)
    ensures
        combos_conflict_spec(a, b) == combos_conflict_spec(b, a),
{
}

} // verus!

verus! {

// ---------- combo names read back ----------

pub open spec fn no_plus(s: Seq<char>) -> bool {
    forall|i: int| 0 <= i < s.len() ==> s[i] != '+'
}

proof fn lemma_split_len(s: Seq<char>)
    ensures
        split_plus(s).len() >= 1,
    decreases s.len(),
{
    if s.len() > 0 {
        lemma_split_len(s.drop_last());
    }
}

/// Appending characters without `+` extends the last piece.
proof fn lemma_split_append(a: Seq<char>, b: Seq<char>)
    requires
        no_plus(b),
    ensures
        split_plus(a + b) == split_plus(a).update(
            split_plus(a).len() - 1,
            split_plus(a).last() + b,
        ),
    decreases b.len(),
{
    lemma_split_len(a);
    if b.len() == 0 {
        assert(a + b =~= a);
        assert(split_plus(a).last() + b =~= split_plus(a).last());
        assert(split_plus(a).update(split_plus(a).len() - 1, split_plus(a).last() + b) =~= split_plus(a));
    } else {
        lemma_split_append(a, b.drop_last());
        assert((a + b).drop_last() =~= a + b.drop_last());
        assert((a + b).last() == b.last());
        lemma_split_len(a + b.drop_last());
        let sa = split_plus(a);
        let prev = split_plus(a + b.drop_last());
        assert(prev.last() == sa.last() + b.drop_last());
        assert(prev.last().push(b.last()) =~= sa.last() + b);
        assert(prev.update(prev.len() - 1, prev.last().push(b.last())) =~= sa.update(
            sa.len() - 1,
            sa.last() + b,
        ));
    }
}

/// `m1+m2+...+` followed by a piece: the pieces joined by `+`.
pub open spec fn join_plus(ms: Seq<Seq<char>>) -> Seq<char>
    decreases ms.len(),
{
    if ms.len() == 0 {
        Seq::empty()
    } else {
        join_plus(ms.drop_last()) + ms.last() + seq!['+']
    }
}

proof fn lemma_split_join(ms: Seq<Seq<char>>, last: Seq<char>)
    requires
        forall|i: int| 0 <= i < ms.len() ==> no_plus(#[trigger] ms[i]),
        no_plus(last),
    ensures
        split_plus(join_plus(ms) + last) == ms.push(last),
    decreases ms.len(),
{
    if ms.len() == 0 {
        lemma_split_append(Seq::empty(), last);
        assert(join_plus(ms) + last =~= Seq::<char>::empty() + last);
        assert(Seq::<Seq<char>>::empty().push(Seq::<char>::empty()) =~= split_plus(Seq::<char>::empty()));
        assert(Seq::<char>::empty() + last =~= last);
        assert(ms.push(last) =~= seq![last]);
    } else {
        let init = ms.drop_last();
        assert forall|i: int| 0 <= i < init.len() implies no_plus(#[trigger] init[i]) by {
            assert(init[i] == ms[i]);
        }
        assert(no_plus(ms.last()));
        lemma_split_join(init, ms.last());
        let j = join_plus(init) + ms.last();
        // split(j + '+') = split(j).push(empty)
        assert((j.push('+')).drop_last() =~= j);
        assert(split_plus(j.push('+')) == split_plus(j).push(Seq::empty()));
        assert(join_plus(ms) =~= j.push('+'));
        lemma_split_append(j.push('+'), last);
        let sj = split_plus(j.push('+'));
        assert(sj =~= ms.push(Seq::empty()));
        assert(sj.last() + last =~= last);
        assert(sj.update(sj.len() - 1, sj.last() + last) =~= ms.push(last));
    }
}

} // verus!

verus! {

proof fn lemma_dec_digits(n: nat)
    ensures
        text::dec(n).len() >= 1,
        text::all_digits(text::dec(n)),
        text::digits_value(text::dec(n)) == n,
    decreases n,
{
    if n < 10 {
        let s = seq![text::digit_char(n)];
        assert(s.drop_last() =~= Seq::<char>::empty());
        assert((text::digit_char(n) as u32) == n + 48);
        assert(text::digits_value(s.drop_last()) == 0);
        assert(text::dec(n) == s);
        assert(text::digits_value(s) == text::digits_value(s.drop_last()) * 10 + ((s.last() as u32) - 48) as nat);
        assert(text::is_digit(s[0]));
    } else {
        lemma_dec_digits(n / 10);
        let d = text::dec(n / 10);
        let s = d.push(text::digit_char(n % 10));
        assert(s.drop_last() =~= d);
        assert((text::digit_char(n % 10) as u32) == n % 10 + 48);
        assert((n / 10) * 10 + n % 10 == n) by (nonlinear_arith);
        assert forall|i: int| 0 <= i < s.len() implies text::is_digit(#[trigger] s[i]) by {
            if i < d.len() {
                assert(s[i] == d[i]);
            }
        }
    }
}

proof fn lemma_trim_plain(s: Seq<char>)
    requires
        s.len() > 0,
        !text::is_ws(s[0]),
        !text::is_ws(s.last()),
    ensures
        text::trim(s) == s,
{
}

pub open spec fn known_vk(vk: u32) -> bool {
    is_alnum_vk(vk) || is_function_vk(vk) || named_key_name(vk) is Some
}

pub open spec fn mod_names(spec: HotkeySpec) -> Seq<Seq<char>> {
    (if spec.ctrl {
        seq!["Ctrl"@]
    } else {
        Seq::empty()
    }) + (if spec.alt {
        seq!["Alt"@]
    } else {
        Seq::empty()
    }) + (if spec.shift {
        seq!["Shift"@]
    } else {
        Seq::empty()
    })
}

proof fn lemma_modifier_literals()
    ensures
        modifier_spec("Ctrl"@) == Some(Modifier::Ctrl),
        modifier_spec("Alt"@) == Some(Modifier::Alt),
        modifier_spec("Shift"@) == Some(Modifier::Shift),
        no_plus("Ctrl"@),
        no_plus("Alt"@),
        no_plus("Shift"@),
        text::trim("Ctrl"@) == "Ctrl"@,
        text::trim("Alt"@) == "Alt"@,
        text::trim("Shift"@) == "Shift"@,
        "Ctrl+"@ == "Ctrl"@ + seq!['+'],
        "Alt+"@ == "Alt"@ + seq!['+'],
        "Shift+"@ == "Shift"@ + seq!['+'],
{
    reveal_strlit("Ctrl");
    reveal_strlit("Alt");
    reveal_strlit("Shift");
    reveal_strlit("Ctrl+");
    reveal_strlit("Alt+");
    reveal_strlit("Shift+");
    reveal_strlit("ctrl");
    reveal_strlit("alt");
    reveal_strlit("shift");
    reveal_strlit("control");
    reveal_strlit("menu");
    lemma_trim_plain("Ctrl"@);
    lemma_trim_plain("Alt"@);
    lemma_trim_plain("Shift"@);
    assert(text::lower_seq("Ctrl"@) =~= "ctrl"@);
    assert(text::lower_seq("Alt"@) =~= "alt"@);
    assert(text::lower_seq("Shift"@) =~= "shift"@);
    assert("Ctrl+"@ =~= "Ctrl"@ + seq!['+']);
    assert("Alt+"@ =~= "Alt"@ + seq!['+']);
    assert("Shift+"@ =~= "Shift"@ + seq!['+']);
}

} // verus!

verus! {

/// `name` is the name of `vk`, and reading it back gives `vk`.
pub open spec fn name_reads_back(vk: u32, name: Seq<char>) -> bool {
    &&& name.len() > 0
    &&& no_plus(name)
    &&& text::trim(name) == name
    &&& vk_from_name_spec(name) == Some(vk)
    &&& modifier_spec(name) is None
}

proof fn lemma_name_space()
    ensures
        name_reads_back(VK_SPACE, "Space"@),
{
    reveal_strlit("Space");
    reveal_strlit("space");
    reveal_strlit("ctrl");
    assert("space"@ != "ctrl"@);
    reveal_strlit("control");
    assert("space"@ != "control"@);
    reveal_strlit("alt");
    assert("space"@ != "alt"@);
    reveal_strlit("menu");
    assert("space"@ != "menu"@);
    reveal_strlit("shift");
    assert("space"@[1] != "shift"@[1]);
    assert("space"@ != "shift"@);
    lemma_trim_plain("Space"@);
    assert(text::lower_seq("Space"@) =~= "space"@);
    assert(text::lower_seq(text::trim("Space"@)) == "space"@);
    assert(named_key_vk("space"@) == Some(VK_SPACE));
    assert(function_number("space"@) is None);
    assert(modifier_spec("Space"@) is None);
}

proof fn lemma_name_tab()
    ensures
        name_reads_back(VK_TAB, "Tab"@),
{
    reveal_strlit("Tab");
    reveal_strlit("tab");
    reveal_strlit("space");
    assert("tab"@ != "space"@);
    reveal_strlit("ctrl");
    assert("tab"@ != "ctrl"@);
    reveal_strlit("control");
    assert("tab"@ != "control"@);
    reveal_strlit("alt");
    assert("tab"@[0] != "alt"@[0]);
    assert("tab"@ != "alt"@);
    reveal_strlit("menu");
    assert("tab"@ != "menu"@);
    reveal_strlit("shift");
    assert("tab"@ != "shift"@);
    lemma_trim_plain("Tab"@);
    assert(text::lower_seq("Tab"@) =~= "tab"@);
    assert(text::lower_seq(text::trim("Tab"@)) == "tab"@);
    assert(named_key_vk("tab"@) == Some(VK_TAB));
    assert(function_number("tab"@) is None);
    assert(modifier_spec("Tab"@) is None);
}

proof fn lemma_name_enter()
    ensures
        name_reads_back(VK_RETURN, "Enter"@),
{
    reveal_strlit("Enter");
    reveal_strlit("enter");
    reveal_strlit("space");
    assert("enter"@[0] != "space"@[0]);
    assert("enter"@ != "space"@);
    reveal_strlit("tab");
    assert("enter"@ != "tab"@);
    reveal_strlit("ctrl");
    assert("enter"@ != "ctrl"@);
    reveal_strlit("control");
    assert("enter"@ != "control"@);
    reveal_strlit("alt");
    assert("enter"@ != "alt"@);
    reveal_strlit("menu");
    assert("enter"@ != "menu"@);
    reveal_strlit("shift");
    assert("enter"@[0] != "shift"@[0]);
    assert("enter"@ != "shift"@);
    lemma_trim_plain("Enter"@);
    assert(text::lower_seq("Enter"@) =~= "enter"@);
    assert(text::lower_seq(text::trim("Enter"@)) == "enter"@);
    assert(named_key_vk("enter"@) == Some(VK_RETURN));
    assert(function_number("enter"@) is None);
    assert(modifier_spec("Enter"@) is None);
}

proof fn lemma_name_backspace()
    ensures
        name_reads_back(VK_BACK, "Backspace"@),
{
    reveal_strlit("Backspace");
    reveal_strlit("backspace");
    reveal_strlit("space");
    assert("backspace"@ != "space"@);
    reveal_strlit("tab");
    assert("backspace"@ != "tab"@);
    reveal_strlit("enter");
    assert("backspace"@ != "enter"@);
    reveal_strlit("return");
    assert("backspace"@ != "return"@);
    reveal_strlit("esc");
    assert("backspace"@ != "esc"@);
    reveal_strlit("escape");
    assert("backspace"@ != "escape"@);
    reveal_strlit("ctrl");
    assert("backspace"@ != "ctrl"@);
    reveal_strlit("control");
    assert("backspace"@ != "control"@);
    reveal_strlit("alt");
    assert("backspace"@ != "alt"@);
    reveal_strlit("menu");
    assert("backspace"@ != "menu"@);
    reveal_strlit("shift");
    assert("backspace"@ != "shift"@);
    lemma_trim_plain("Backspace"@);
    assert(text::lower_seq("Backspace"@) =~= "backspace"@);
    assert(text::lower_seq(text::trim("Backspace"@)) == "backspace"@);
    assert(named_key_vk("backspace"@) == Some(VK_BACK));
    assert(function_number("backspace"@) is None);
    assert(modifier_spec("Backspace"@) is None);
}

proof fn lemma_name_delete()
    ensures
        name_reads_back(VK_DELETE, "Delete"@),
{
    reveal_strlit("Delete");
    reveal_strlit("delete");
    reveal_strlit("space");
    assert("delete"@ != "space"@);
    reveal_strlit("tab");
    assert("delete"@ != "tab"@);
    reveal_strlit("enter");
    assert("delete"@ != "enter"@);
    reveal_strlit("return");
    assert("delete"@[0] != "return"@[0]);
    assert("delete"@ != "return"@);
    reveal_strlit("esc");
    assert("delete"@ != "esc"@);
    reveal_strlit("escape");
    assert("delete"@[0] != "escape"@[0]);
    assert("delete"@ != "escape"@);
    reveal_strlit("backspace");
    assert("delete"@ != "backspace"@);
    reveal_strlit("back");
    assert("delete"@ != "back"@);
    reveal_strlit("ctrl");
    assert("delete"@ != "ctrl"@);
    reveal_strlit("control");
    assert("delete"@ != "control"@);
    reveal_strlit("alt");
    assert("delete"@ != "alt"@);
    reveal_strlit("menu");
    assert("delete"@ != "menu"@);
    reveal_strlit("shift");
    assert("delete"@ != "shift"@);
    lemma_trim_plain("Delete"@);
    assert(text::lower_seq("Delete"@) =~= "delete"@);
    assert(text::lower_seq(text::trim("Delete"@)) == "delete"@);
    assert(named_key_vk("delete"@) == Some(VK_DELETE));
    assert(function_number("delete"@) is None);
    assert(modifier_spec("Delete"@) is None);
}

proof fn lemma_name_insert()
    ensures
        name_reads_back(VK_INSERT, "Insert"@),
{
    reveal_strlit("Insert");
    reveal_strlit("insert");
    reveal_strlit("space");
    assert("insert"@ != "space"@);
    reveal_strlit("tab");
    assert("insert"@ != "tab"@);
    reveal_strlit("enter");
    assert("insert"@ != "enter"@);
    reveal_strlit("return");
    assert("insert"@[0] != "return"@[0]);
    assert("insert"@ != "return"@);
    reveal_strlit("esc");
    assert("insert"@ != "esc"@);
    reveal_strlit("escape");
    assert("insert"@[0] != "escape"@[0]);
    assert("insert"@ != "escape"@);
    reveal_strlit("backspace");
    assert("insert"@ != "backspace"@);
    reveal_strlit("back");
    assert("insert"@ != "back"@);
    reveal_strlit("delete");
    assert("insert"@[0] != "delete"@[0]);
    assert("insert"@ != "delete"@);
    reveal_strlit("del");
    assert("insert"@ != "del"@);
    reveal_strlit("ctrl");
    assert("insert"@ != "ctrl"@);
    reveal_strlit("control");
    assert("insert"@ != "control"@);
    reveal_strlit("alt");
    assert("insert"@ != "alt"@);
    reveal_strlit("menu");
    assert("insert"@ != "menu"@);
    reveal_strlit("shift");
    assert("insert"@ != "shift"@);
    lemma_trim_plain("Insert"@);
    assert(text::lower_seq("Insert"@) =~= "insert"@);
    assert(text::lower_seq(text::trim("Insert"@)) == "insert"@);
    assert(named_key_vk("insert"@) == Some(VK_INSERT));
    assert(function_number("insert"@) is None);
    assert(modifier_spec("Insert"@) is None);
}

proof fn lemma_name_home()
    ensures
        name_reads_back(VK_HOME, "Home"@),
{
    reveal_strlit("Home");
    reveal_strlit("home");
    reveal_strlit("space");
    assert("home"@ != "space"@);
    reveal_strlit("tab");
    assert("home"@ != "tab"@);
    reveal_strlit("enter");
    assert("home"@ != "enter"@);
    reveal_strlit("return");
    assert("home"@ != "return"@);
    reveal_strlit("esc");
    assert("home"@ != "esc"@);
    reveal_strlit("escape");
    assert("home"@ != "escape"@);
    reveal_strlit("backspace");
    assert("home"@ != "backspace"@);
    reveal_strlit("back");
    assert("home"@[0] != "back"@[0]);
    assert("home"@ != "back"@);
    reveal_strlit("delete");
    assert("home"@ != "delete"@);
    reveal_strlit("del");
    assert("home"@ != "del"@);
    reveal_strlit("insert");
    assert("home"@ != "insert"@);
    reveal_strlit("ins");
    assert("home"@ != "ins"@);
    reveal_strlit("ctrl");
    assert("home"@[0] != "ctrl"@[0]);
    assert("home"@ != "ctrl"@);
    reveal_strlit("control");
    assert("home"@ != "control"@);
    reveal_strlit("alt");
    assert("home"@ != "alt"@);
    reveal_strlit("menu");
    assert("home"@[0] != "menu"@[0]);
    assert("home"@ != "menu"@);
    reveal_strlit("shift");
    assert("home"@ != "shift"@);
    lemma_trim_plain("Home"@);
    assert(text::lower_seq("Home"@) =~= "home"@);
    assert(text::lower_seq(text::trim("Home"@)) == "home"@);
    assert(named_key_vk("home"@) == Some(VK_HOME));
    assert(function_number("home"@) is None);
    assert(modifier_spec("Home"@) is None);
}

proof fn lemma_name_end()
    ensures
        name_reads_back(VK_END, "End"@),
{
    reveal_strlit("End");
    reveal_strlit("end");
    reveal_strlit("space");
    assert("end"@ != "space"@);
    reveal_strlit("tab");
    assert("end"@[0] != "tab"@[0]);
    assert("end"@ != "tab"@);
    reveal_strlit("enter");
    assert("end"@ != "enter"@);
    reveal_strlit("return");
    assert("end"@ != "return"@);
    reveal_strlit("esc");
    assert("end"@[1] != "esc"@[1]);
    assert("end"@ != "esc"@);
    reveal_strlit("escape");
    assert("end"@ != "escape"@);
    reveal_strlit("backspace");
    assert("end"@ != "backspace"@);
    reveal_strlit("back");
    assert("end"@ != "back"@);
    reveal_strlit("delete");
    assert("end"@ != "delete"@);
    reveal_strlit("del");
    assert("end"@[0] != "del"@[0]);
    assert("end"@ != "del"@);
    reveal_strlit("insert");
    assert("end"@ != "insert"@);
    reveal_strlit("ins");
    assert("end"@[0] != "ins"@[0]);
    assert("end"@ != "ins"@);
    reveal_strlit("home");
    assert("end"@ != "home"@);
    reveal_strlit("ctrl");
    assert("end"@ != "ctrl"@);
    reveal_strlit("control");
    assert("end"@ != "control"@);
    reveal_strlit("alt");
    assert("end"@[0] != "alt"@[0]);
    assert("end"@ != "alt"@);
    reveal_strlit("menu");
    assert("end"@ != "menu"@);
    reveal_strlit("shift");
    assert("end"@ != "shift"@);
    lemma_trim_plain("End"@);
    assert(text::lower_seq("End"@) =~= "end"@);
    assert(text::lower_seq(text::trim("End"@)) == "end"@);
    assert(named_key_vk("end"@) == Some(VK_END));
    assert(function_number("end"@) is None);
    assert(modifier_spec("End"@) is None);
}

proof fn lemma_name_pageup()
    ensures
        name_reads_back(VK_PRIOR, "PageUp"@),
{
    reveal_strlit("PageUp");
    reveal_strlit("pageup");
    reveal_strlit("space");
    assert("pageup"@ != "space"@);
    reveal_strlit("tab");
    assert("pageup"@ != "tab"@);
    reveal_strlit("enter");
    assert("pageup"@ != "enter"@);
    reveal_strlit("return");
    assert("pageup"@[0] != "return"@[0]);
    assert("pageup"@ != "return"@);
    reveal_strlit("esc");
    assert("pageup"@ != "esc"@);
    reveal_strlit("escape");
    assert("pageup"@[0] != "escape"@[0]);
    assert("pageup"@ != "escape"@);
    reveal_strlit("backspace");
    assert("pageup"@ != "backspace"@);
    reveal_strlit("back");
    assert("pageup"@ != "back"@);
    reveal_strlit("delete");
    assert("pageup"@[0] != "delete"@[0]);
    assert("pageup"@ != "delete"@);
    reveal_strlit("del");
    assert("pageup"@ != "del"@);
    reveal_strlit("insert");
    assert("pageup"@[0] != "insert"@[0]);
    assert("pageup"@ != "insert"@);
    reveal_strlit("ins");
    assert("pageup"@ != "ins"@);
    reveal_strlit("home");
    assert("pageup"@ != "home"@);
    reveal_strlit("end");
    assert("pageup"@ != "end"@);
    reveal_strlit("ctrl");
    assert("pageup"@ != "ctrl"@);
    reveal_strlit("control");
    assert("pageup"@ != "control"@);
    reveal_strlit("alt");
    assert("pageup"@ != "alt"@);
    reveal_strlit("menu");
    assert("pageup"@ != "menu"@);
    reveal_strlit("shift");
    assert("pageup"@ != "shift"@);
    lemma_trim_plain("PageUp"@);
    assert(text::lower_seq("PageUp"@) =~= "pageup"@);
    assert(text::lower_seq(text::trim("PageUp"@)) == "pageup"@);
    assert(named_key_vk("pageup"@) == Some(VK_PRIOR));
    assert(function_number("pageup"@) is None);
    assert(modifier_spec("PageUp"@) is None);
}

proof fn lemma_name_pagedown()
    ensures
        name_reads_back(VK_NEXT, "PageDown"@),
{
    reveal_strlit("PageDown");
    reveal_strlit("pagedown");
    reveal_strlit("space");
    assert("pagedown"@ != "space"@);
    reveal_strlit("tab");
    assert("pagedown"@ != "tab"@);
    reveal_strlit("enter");
    assert("pagedown"@ != "enter"@);
    reveal_strlit("return");
    assert("pagedown"@ != "return"@);
    reveal_strlit("esc");
    assert("pagedown"@ != "esc"@);
    reveal_strlit("escape");
    assert("pagedown"@ != "escape"@);
    reveal_strlit("backspace");
    assert("pagedown"@ != "backspace"@);
    reveal_strlit("back");
    assert("pagedown"@ != "back"@);
    reveal_strlit("delete");
    assert("pagedown"@ != "delete"@);
    reveal_strlit("del");
    assert("pagedown"@ != "del"@);
    reveal_strlit("insert");
    assert("pagedown"@ != "insert"@);
    reveal_strlit("ins");
    assert("pagedown"@ != "ins"@);
    reveal_strlit("home");
    assert("pagedown"@ != "home"@);
    reveal_strlit("end");
    assert("pagedown"@ != "end"@);
    reveal_strlit("pageup");
    assert("pagedown"@ != "pageup"@);
    reveal_strlit("pgup");
    assert("pagedown"@ != "pgup"@);
    reveal_strlit("ctrl");
    assert("pagedown"@ != "ctrl"@);
    reveal_strlit("control");
    assert("pagedown"@ != "control"@);
    reveal_strlit("alt");
    assert("pagedown"@ != "alt"@);
    reveal_strlit("menu");
    assert("pagedown"@ != "menu"@);
    reveal_strlit("shift");
    assert("pagedown"@ != "shift"@);
    lemma_trim_plain("PageDown"@);
    assert(text::lower_seq("PageDown"@) =~= "pagedown"@);
    assert(text::lower_seq(text::trim("PageDown"@)) == "pagedown"@);
    assert(named_key_vk("pagedown"@) == Some(VK_NEXT));
    assert(function_number("pagedown"@) is None);
    assert(modifier_spec("PageDown"@) is None);
}

proof fn lemma_name_up()
    ensures
        name_reads_back(VK_UP, "Up"@),
{
    reveal_strlit("Up");
    reveal_strlit("up");
    reveal_strlit("space");
    assert("up"@ != "space"@);
    reveal_strlit("tab");
    assert("up"@ != "tab"@);
    reveal_strlit("enter");
    assert("up"@ != "enter"@);
    reveal_strlit("return");
    assert("up"@ != "return"@);
    reveal_strlit("esc");
    assert("up"@ != "esc"@);
    reveal_strlit("escape");
    assert("up"@ != "escape"@);
    reveal_strlit("backspace");
    assert("up"@ != "backspace"@);
    reveal_strlit("back");
    assert("up"@ != "back"@);
    reveal_strlit("delete");
    assert("up"@ != "delete"@);
    reveal_strlit("del");
    assert("up"@ != "del"@);
    reveal_strlit("insert");
    assert("up"@ != "insert"@);
    reveal_strlit("ins");
    assert("up"@ != "ins"@);
    reveal_strlit("home");
    assert("up"@ != "home"@);
    reveal_strlit("end");
    assert("up"@ != "end"@);
    reveal_strlit("pageup");
    assert("up"@ != "pageup"@);
    reveal_strlit("pgup");
    assert("up"@ != "pgup"@);
    reveal_strlit("pagedown");
    assert("up"@ != "pagedown"@);
    reveal_strlit("pgdn");
    assert("up"@ != "pgdn"@);
    reveal_strlit("ctrl");
    assert("up"@ != "ctrl"@);
    reveal_strlit("control");
    assert("up"@ != "control"@);
    reveal_strlit("alt");
    assert("up"@ != "alt"@);
    reveal_strlit("menu");
    assert("up"@ != "menu"@);
    reveal_strlit("shift");
    assert("up"@ != "shift"@);
    lemma_trim_plain("Up"@);
    assert(text::lower_seq("Up"@) =~= "up"@);
    assert(text::lower_seq(text::trim("Up"@)) == "up"@);
    assert(named_key_vk("up"@) == Some(VK_UP));
    assert(function_number("up"@) is None);
    assert(modifier_spec("Up"@) is None);
}

proof fn lemma_name_down()
    ensures
        name_reads_back(VK_DOWN, "Down"@),
{
    reveal_strlit("Down");
    reveal_strlit("down");
    reveal_strlit("space");
    assert("down"@ != "space"@);
    reveal_strlit("tab");
    assert("down"@ != "tab"@);
    reveal_strlit("enter");
    assert("down"@ != "enter"@);
    reveal_strlit("return");
    assert("down"@ != "return"@);
    reveal_strlit("esc");
    assert("down"@ != "esc"@);
    reveal_strlit("escape");
    assert("down"@ != "escape"@);
    reveal_strlit("backspace");
    assert("down"@ != "backspace"@);
    reveal_strlit("back");
    assert("down"@[0] != "back"@[0]);
    assert("down"@ != "back"@);
    reveal_strlit("delete");
    assert("down"@ != "delete"@);
    reveal_strlit("del");
    assert("down"@ != "del"@);
    reveal_strlit("insert");
    assert("down"@ != "insert"@);
    reveal_strlit("ins");
    assert("down"@ != "ins"@);
    reveal_strlit("home");
    assert("down"@[0] != "home"@[0]);
    assert("down"@ != "home"@);
    reveal_strlit("end");
    assert("down"@ != "end"@);
    reveal_strlit("pageup");
    assert("down"@ != "pageup"@);
    reveal_strlit("pgup");
    assert("down"@[0] != "pgup"@[0]);
    assert("down"@ != "pgup"@);
    reveal_strlit("pagedown");
    assert("down"@ != "pagedown"@);
    reveal_strlit("pgdn");
    assert("down"@[0] != "pgdn"@[0]);
    assert("down"@ != "pgdn"@);
    reveal_strlit("up");
    assert("down"@ != "up"@);
    reveal_strlit("ctrl");
    assert("down"@[0] != "ctrl"@[0]);
    assert("down"@ != "ctrl"@);
    reveal_strlit("control");
    assert("down"@ != "control"@);
    reveal_strlit("alt");
    assert("down"@ != "alt"@);
    reveal_strlit("menu");
    assert("down"@[0] != "menu"@[0]);
    assert("down"@ != "menu"@);
    reveal_strlit("shift");
    assert("down"@ != "shift"@);
    lemma_trim_plain("Down"@);
    assert(text::lower_seq("Down"@) =~= "down"@);
    assert(text::lower_seq(text::trim("Down"@)) == "down"@);
    assert(named_key_vk("down"@) == Some(VK_DOWN));
    assert(function_number("down"@) is None);
    assert(modifier_spec("Down"@) is None);
}

proof fn lemma_name_left()
    ensures
        name_reads_back(VK_LEFT, "Left"@),
{
    reveal_strlit("Left");
    reveal_strlit("left");
    reveal_strlit("space");
    assert("left"@ != "space"@);
    reveal_strlit("tab");
    assert("left"@ != "tab"@);
    reveal_strlit("enter");
    assert("left"@ != "enter"@);
    reveal_strlit("return");
    assert("left"@ != "return"@);
    reveal_strlit("esc");
    assert("left"@ != "esc"@);
    reveal_strlit("escape");
    assert("left"@ != "escape"@);
    reveal_strlit("backspace");
    assert("left"@ != "backspace"@);
    reveal_strlit("back");
    assert("left"@[0] != "back"@[0]);
    assert("left"@ != "back"@);
    reveal_strlit("delete");
    assert("left"@ != "delete"@);
    reveal_strlit("del");
    assert("left"@ != "del"@);
    reveal_strlit("insert");
    assert("left"@ != "insert"@);
    reveal_strlit("ins");
    assert("left"@ != "ins"@);
    reveal_strlit("home");
    assert("left"@[0] != "home"@[0]);
    assert("left"@ != "home"@);
    reveal_strlit("end");
    assert("left"@ != "end"@);
    reveal_strlit("pageup");
    assert("left"@ != "pageup"@);
    reveal_strlit("pgup");
    assert("left"@[0] != "pgup"@[0]);
    assert("left"@ != "pgup"@);
    reveal_strlit("pagedown");
    assert("left"@ != "pagedown"@);
    reveal_strlit("pgdn");
    assert("left"@[0] != "pgdn"@[0]);
    assert("left"@ != "pgdn"@);
    reveal_strlit("up");
    assert("left"@ != "up"@);
    reveal_strlit("down");
    assert("left"@[0] != "down"@[0]);
    assert("left"@ != "down"@);
    reveal_strlit("ctrl");
    assert("left"@[0] != "ctrl"@[0]);
    assert("left"@ != "ctrl"@);
    reveal_strlit("control");
    assert("left"@ != "control"@);
    reveal_strlit("alt");
    assert("left"@ != "alt"@);
    reveal_strlit("menu");
    assert("left"@[0] != "menu"@[0]);
    assert("left"@ != "menu"@);
    reveal_strlit("shift");
    assert("left"@ != "shift"@);
    lemma_trim_plain("Left"@);
    assert(text::lower_seq("Left"@) =~= "left"@);
    assert(text::lower_seq(text::trim("Left"@)) == "left"@);
    assert(named_key_vk("left"@) == Some(VK_LEFT));
    assert(function_number("left"@) is None);
    assert(modifier_spec("Left"@) is None);
}

proof fn lemma_name_right()
    ensures
        name_reads_back(VK_RIGHT, "Right"@),
{
    reveal_strlit("Right");
    reveal_strlit("right");
    reveal_strlit("space");
    assert("right"@[0] != "space"@[0]);
    assert("right"@ != "space"@);
    reveal_strlit("tab");
    assert("right"@ != "tab"@);
    reveal_strlit("enter");
    assert("right"@[0] != "enter"@[0]);
    assert("right"@ != "enter"@);
    reveal_strlit("return");
    assert("right"@ != "return"@);
    reveal_strlit("esc");
    assert("right"@ != "esc"@);
    reveal_strlit("escape");
    assert("right"@ != "escape"@);
    reveal_strlit("backspace");
    assert("right"@ != "backspace"@);
    reveal_strlit("back");
    assert("right"@ != "back"@);
    reveal_strlit("delete");
    assert("right"@ != "delete"@);
    reveal_strlit("del");
    assert("right"@ != "del"@);
    reveal_strlit("insert");
    assert("right"@ != "insert"@);
    reveal_strlit("ins");
    assert("right"@ != "ins"@);
    reveal_strlit("home");
    assert("right"@ != "home"@);
    reveal_strlit("end");
    assert("right"@ != "end"@);
    reveal_strlit("pageup");
    assert("right"@ != "pageup"@);
    reveal_strlit("pgup");
    assert("right"@ != "pgup"@);
    reveal_strlit("pagedown");
    assert("right"@ != "pagedown"@);
    reveal_strlit("pgdn");
    assert("right"@ != "pgdn"@);
    reveal_strlit("up");
    assert("right"@ != "up"@);
    reveal_strlit("down");
    assert("right"@ != "down"@);
    reveal_strlit("left");
    assert("right"@ != "left"@);
    reveal_strlit("ctrl");
    assert("right"@ != "ctrl"@);
    reveal_strlit("control");
    assert("right"@ != "control"@);
    reveal_strlit("alt");
    assert("right"@ != "alt"@);
    reveal_strlit("menu");
    assert("right"@ != "menu"@);
    reveal_strlit("shift");
    assert("right"@[0] != "shift"@[0]);
    assert("right"@ != "shift"@);
    lemma_trim_plain("Right"@);
    assert(text::lower_seq("Right"@) =~= "right"@);
    assert(text::lower_seq(text::trim("Right"@)) == "right"@);
    assert(named_key_vk("right"@) == Some(VK_RIGHT));
    assert(function_number("right"@) is None);
    assert(modifier_spec("Right"@) is None);
}

proof fn lemma_name_printscreen()
    ensures
        name_reads_back(VK_SNAPSHOT, "PrintScreen"@),
{
    reveal_strlit("PrintScreen");
    reveal_strlit("printscreen");
    reveal_strlit("space");
    assert("printscreen"@ != "space"@);
    reveal_strlit("tab");
    assert("printscreen"@ != "tab"@);
    reveal_strlit("enter");
    assert("printscreen"@ != "enter"@);
    reveal_strlit("return");
    assert("printscreen"@ != "return"@);
    reveal_strlit("esc");
    assert("printscreen"@ != "esc"@);
    reveal_strlit("escape");
    assert("printscreen"@ != "escape"@);
    reveal_strlit("backspace");
    assert("printscreen"@ != "backspace"@);
    reveal_strlit("back");
    assert("printscreen"@ != "back"@);
    reveal_strlit("delete");
    assert("printscreen"@ != "delete"@);
    reveal_strlit("del");
    assert("printscreen"@ != "del"@);
    reveal_strlit("insert");
    assert("printscreen"@ != "insert"@);
    reveal_strlit("ins");
    assert("printscreen"@ != "ins"@);
    reveal_strlit("home");
    assert("printscreen"@ != "home"@);
    reveal_strlit("end");
    assert("printscreen"@ != "end"@);
    reveal_strlit("pageup");
    assert("printscreen"@ != "pageup"@);
    reveal_strlit("pgup");
    assert("printscreen"@ != "pgup"@);
    reveal_strlit("pagedown");
    assert("printscreen"@ != "pagedown"@);
    reveal_strlit("pgdn");
    assert("printscreen"@ != "pgdn"@);
    reveal_strlit("up");
    assert("printscreen"@ != "up"@);
    reveal_strlit("down");
    assert("printscreen"@ != "down"@);
    reveal_strlit("left");
    assert("printscreen"@ != "left"@);
    reveal_strlit("right");
    assert("printscreen"@ != "right"@);
    reveal_strlit("ctrl");
    assert("printscreen"@ != "ctrl"@);
    reveal_strlit("control");
    assert("printscreen"@ != "control"@);
    reveal_strlit("alt");
    assert("printscreen"@ != "alt"@);
    reveal_strlit("menu");
    assert("printscreen"@ != "menu"@);
    reveal_strlit("shift");
    assert("printscreen"@ != "shift"@);
    lemma_trim_plain("PrintScreen"@);
    assert(text::lower_seq("PrintScreen"@) =~= "printscreen"@);
    assert(text::lower_seq(text::trim("PrintScreen"@)) == "printscreen"@);
    assert(named_key_vk("printscreen"@) == Some(VK_SNAPSHOT));
    assert(function_number("printscreen"@) is None);
    assert(modifier_spec("PrintScreen"@) is None);
}

proof fn lemma_name_pause()
    ensures
        name_reads_back(VK_PAUSE, "Pause"@),
{
    reveal_strlit("Pause");
    reveal_strlit("pause");
    reveal_strlit("space");
    assert("pause"@[0] != "space"@[0]);
    assert("pause"@ != "space"@);
    reveal_strlit("tab");
    assert("pause"@ != "tab"@);
    reveal_strlit("enter");
    assert("pause"@[0] != "enter"@[0]);
    assert("pause"@ != "enter"@);
    reveal_strlit("return");
    assert("pause"@ != "return"@);
    reveal_strlit("esc");
    assert("pause"@ != "esc"@);
    reveal_strlit("escape");
    assert("pause"@ != "escape"@);
    reveal_strlit("backspace");
    assert("pause"@ != "backspace"@);
    reveal_strlit("back");
    assert("pause"@ != "back"@);
    reveal_strlit("delete");
    assert("pause"@ != "delete"@);
    reveal_strlit("del");
    assert("pause"@ != "del"@);
    reveal_strlit("insert");
    assert("pause"@ != "insert"@);
    reveal_strlit("ins");
    assert("pause"@ != "ins"@);
    reveal_strlit("home");
    assert("pause"@ != "home"@);
    reveal_strlit("end");
    assert("pause"@ != "end"@);
    reveal_strlit("pageup");
    assert("pause"@ != "pageup"@);
    reveal_strlit("pgup");
    assert("pause"@ != "pgup"@);
    reveal_strlit("pagedown");
    assert("pause"@ != "pagedown"@);
    reveal_strlit("pgdn");
    assert("pause"@ != "pgdn"@);
    reveal_strlit("up");
    assert("pause"@ != "up"@);
    reveal_strlit("down");
    assert("pause"@ != "down"@);
    reveal_strlit("left");
    assert("pause"@ != "left"@);
    reveal_strlit("right");
    assert("pause"@[0] != "right"@[0]);
    assert("pause"@ != "right"@);
    reveal_strlit("printscreen");
    assert("pause"@ != "printscreen"@);
    reveal_strlit("print");
    assert("pause"@[1] != "print"@[1]);
    assert("pause"@ != "print"@);
    reveal_strlit("ctrl");
    assert("pause"@ != "ctrl"@);
    reveal_strlit("control");
    assert("pause"@ != "control"@);
    reveal_strlit("alt");
    assert("pause"@ != "alt"@);
    reveal_strlit("menu");
    assert("pause"@ != "menu"@);
    reveal_strlit("shift");
    assert("pause"@[0] != "shift"@[0]);
    assert("pause"@ != "shift"@);
    lemma_trim_plain("Pause"@);
    assert(text::lower_seq("Pause"@) =~= "pause"@);
    assert(text::lower_seq(text::trim("Pause"@)) == "pause"@);
    assert(named_key_vk("pause"@) == Some(VK_PAUSE));
    assert(function_number("pause"@) is None);
    assert(modifier_spec("Pause"@) is None);
}

proof fn lemma_name_capslock()
    ensures
        name_reads_back(VK_CAPITAL, "CapsLock"@),
{
    reveal_strlit("CapsLock");
    reveal_strlit("capslock");
    reveal_strlit("space");
    assert("capslock"@ != "space"@);
    reveal_strlit("tab");
    assert("capslock"@ != "tab"@);
    reveal_strlit("enter");
    assert("capslock"@ != "enter"@);
    reveal_strlit("return");
    assert("capslock"@ != "return"@);
    reveal_strlit("esc");
    assert("capslock"@ != "esc"@);
    reveal_strlit("escape");
    assert("capslock"@ != "escape"@);
    reveal_strlit("backspace");
    assert("capslock"@ != "backspace"@);
    reveal_strlit("back");
    assert("capslock"@ != "back"@);
    reveal_strlit("delete");
    assert("capslock"@ != "delete"@);
    reveal_strlit("del");
    assert("capslock"@ != "del"@);
    reveal_strlit("insert");
    assert("capslock"@ != "insert"@);
    reveal_strlit("ins");
    assert("capslock"@ != "ins"@);
    reveal_strlit("home");
    assert("capslock"@ != "home"@);
    reveal_strlit("end");
    assert("capslock"@ != "end"@);
    reveal_strlit("pageup");
    assert("capslock"@ != "pageup"@);
    reveal_strlit("pgup");
    assert("capslock"@ != "pgup"@);
    reveal_strlit("pagedown");
    assert("capslock"@[0] != "pagedown"@[0]);
    assert("capslock"@ != "pagedown"@);
    reveal_strlit("pgdn");
    assert("capslock"@ != "pgdn"@);
    reveal_strlit("up");
    assert("capslock"@ != "up"@);
    reveal_strlit("down");
    assert("capslock"@ != "down"@);
    reveal_strlit("left");
    assert("capslock"@ != "left"@);
    reveal_strlit("right");
    assert("capslock"@ != "right"@);
    reveal_strlit("printscreen");
    assert("capslock"@ != "printscreen"@);
    reveal_strlit("print");
    assert("capslock"@ != "print"@);
    reveal_strlit("pause");
    assert("capslock"@ != "pause"@);
    reveal_strlit("ctrl");
    assert("capslock"@ != "ctrl"@);
    reveal_strlit("control");
    assert("capslock"@ != "control"@);
    reveal_strlit("alt");
    assert("capslock"@ != "alt"@);
    reveal_strlit("menu");
    assert("capslock"@ != "menu"@);
    reveal_strlit("shift");
    assert("capslock"@ != "shift"@);
    lemma_trim_plain("CapsLock"@);
    assert(text::lower_seq("CapsLock"@) =~= "capslock"@);
    assert(text::lower_seq(text::trim("CapsLock"@)) == "capslock"@);
    assert(named_key_vk("capslock"@) == Some(VK_CAPITAL));
    assert(function_number("capslock"@) is None);
    assert(modifier_spec("CapsLock"@) is None);
}

proof fn lemma_name_escape()
    ensures
        name_reads_back(VK_ESCAPE, "Escape"@),
{
    reveal_strlit("Escape");
    reveal_strlit("escape");
    reveal_strlit("space");
    assert("escape"@ != "space"@);
    reveal_strlit("tab");
    assert("escape"@ != "tab"@);
    reveal_strlit("enter");
    assert("escape"@ != "enter"@);
    reveal_strlit("return");
    assert("escape"@[0] != "return"@[0]);
    assert("escape"@ != "return"@);
    reveal_strlit("esc");
    assert("escape"@ != "esc"@);
    reveal_strlit("ctrl");
    assert("escape"@ != "ctrl"@);
    reveal_strlit("control");
    assert("escape"@ != "control"@);
    reveal_strlit("alt");
    assert("escape"@ != "alt"@);
    reveal_strlit("menu");
    assert("escape"@ != "menu"@);
    reveal_strlit("shift");
    assert("escape"@ != "shift"@);
    lemma_trim_plain("Escape"@);
    assert(text::lower_seq("Escape"@) =~= "escape"@);
    assert(text::lower_seq(text::trim("Escape"@)) == "escape"@);
    assert(named_key_vk("escape"@) == Some(VK_ESCAPE));
    assert(function_number("escape"@) is None);
    assert(modifier_spec("Escape"@) is None);
}

proof fn lemma_named_key_reads_back(vk: u32)
    requires
        named_key_name(vk) is Some,
    ensures
        name_reads_back(vk, named_key_name(vk)->0),
{
    if vk == VK_SPACE { lemma_name_space(); }
    if vk == VK_TAB { lemma_name_tab(); }
    if vk == VK_RETURN { lemma_name_enter(); }
    if vk == VK_BACK { lemma_name_backspace(); }
    if vk == VK_DELETE { lemma_name_delete(); }
    if vk == VK_INSERT { lemma_name_insert(); }
    if vk == VK_HOME { lemma_name_home(); }
    if vk == VK_END { lemma_name_end(); }
    if vk == VK_PRIOR { lemma_name_pageup(); }
    if vk == VK_NEXT { lemma_name_pagedown(); }
    if vk == VK_UP { lemma_name_up(); }
    if vk == VK_DOWN { lemma_name_down(); }
    if vk == VK_LEFT { lemma_name_left(); }
    if vk == VK_RIGHT { lemma_name_right(); }
    if vk == VK_SNAPSHOT { lemma_name_printscreen(); }
    if vk == VK_PAUSE { lemma_name_pause(); }
    if vk == VK_CAPITAL { lemma_name_capslock(); }
    if vk == VK_ESCAPE { lemma_name_escape(); }
}

} // verus!

verus! {

proof fn lemma_modifier_literal_heads()
    ensures
        "ctrl"@.len() == 4 && "ctrl"@[0] == 'c',
        "control"@.len() == 7 && "control"@[0] == 'c',
        "alt"@.len() == 3 && "alt"@[0] == 'a',
        "menu"@.len() == 4 && "menu"@[0] == 'm',
        "shift"@.len() == 5 && "shift"@[0] == 's',
{
    reveal_strlit("ctrl");
    reveal_strlit("control");
    reveal_strlit("alt");
    reveal_strlit("menu");
    reveal_strlit("shift");
}

proof fn lemma_alnum_reads_back(vk: u32)
    requires
        is_alnum_vk(vk),
    ensures
        name_reads_back(vk, vk_name_spec(vk)),
{
    let n = seq![vk as char];
    assert(vk_name_spec(vk) == n);
    lemma_trim_plain(n);
    assert(text::trim(n) == n);
    assert(text::upper_char(n[0]) == n[0]);
    assert((n[0] as u32) == vk);
    lemma_modifier_literal_heads();
    assert(text::lower_seq(n).len() == 1);
}

proof fn lemma_function_reads_back(vk: u32)
    requires
        is_function_vk(vk),
    ensures
        name_reads_back(vk, vk_name_spec(vk)),
{
    let k: nat = (vk - VK_F1 + 1) as nat;
    lemma_dec_digits(k);
    let d = text::dec(k);
    let n = seq!['F'] + d;
    assert(vk_name_spec(vk) == n);
    assert(text::is_digit(d[d.len() - 1]));
    assert(n.last() == d[d.len() - 1]);
    lemma_trim_plain(n);
    assert forall|i: int| 0 <= i < n.len() implies n[i] != '+' by {
        if i > 0 {
            assert(n[i] == d[i - 1]);
            assert(text::is_digit(d[i - 1]));
        }
    }
    let lower = text::lower_seq(n);
    assert forall|i: int| 0 <= i < d.len() implies text::lower_char(#[trigger] d[i]) == d[i] by {
        assert(text::is_digit(d[i]));
    }
    assert(lower =~= seq!['f'] + d);
    assert(lower.drop_first() =~= d);
    assert(d[0] != '+') by {
        assert(text::is_digit(d[0]));
    }
    assert(text::parse_unsigned(d, u32::MAX as nat) == Some(k));
    assert(function_number(lower) == Some(k));
    lemma_modifier_literal_heads();
    assert(lower[0] == 'f');
    assert(lower != "ctrl"@ && lower != "control"@ && lower != "alt"@ && lower != "menu"@ && lower
        != "shift"@) by {
        assert(lower[0] != "ctrl"@[0]);
        assert(lower[0] != "control"@[0]);
        assert(lower[0] != "alt"@[0]);
        assert(lower[0] != "menu"@[0]);
        assert(lower[0] != "shift"@[0]);
    }
}

proof fn lemma_vk_name_reads_back(vk: u32)
    requires
        known_vk(vk),
    ensures
        name_reads_back(vk, vk_name_spec(vk)),
{
    if is_alnum_vk(vk) {
        lemma_alnum_reads_back(vk);
    } else if is_function_vk(vk) {
        lemma_function_reads_back(vk);
    } else {
        lemma_named_key_reads_back(vk);
    }
}

proof fn lemma_nonempty_trimmed_identity(ps: Seq<Seq<char>>)
    requires
        forall|i: int| 0 <= i < ps.len() ==> #[trigger] text::trim(ps[i]) == ps[i] && ps[i].len() > 0,
    ensures
        nonempty_trimmed(ps) == ps,
    decreases ps.len(),
{
    if ps.len() > 0 {
        let init = ps.drop_last();
        assert forall|i: int| 0 <= i < init.len() implies #[trigger] text::trim(init[i]) == init[i]
            && init[i].len() > 0 by {
            assert(init[i] == ps[i]);
        }
        lemma_nonempty_trimmed_identity(init);
        assert(text::trim(ps[ps.len() - 1]) == ps[ps.len() - 1]);
        assert(init.push(ps.last()) =~= ps);
    }
}

/// A combo name reads back as the same combo: for every combo whose key has a
/// name (letters, digits, F1-F24 and the named keys), `parse_hotkey` applied to
/// `combo_name` gives the combo back, so a recorded combo can be written to the
/// configuration and read again.
pub proof fn law_combo_name_roundtrip(spec: HotkeySpec)
    requires
        known_vk(spec.vk),
    ensures
        parse_hotkey_spec(combo_name_spec(spec)) == Some(spec),
{
    lemma_modifier_literals();
    lemma_vk_name_reads_back(spec.vk);
    let name = vk_name_spec(spec.vk);
    let ms = mod_names(spec);
    let e = Seq::<char>::empty();
    let c_part = if spec.ctrl { seq!["Ctrl"@] } else { Seq::<Seq<char>>::empty() };
    let a_part = if spec.alt { seq!["Alt"@] } else { Seq::<Seq<char>>::empty() };
    let s_part = if spec.shift { seq!["Shift"@] } else { Seq::<Seq<char>>::empty() };
    // the modifier prefix is the modifier names joined with '+'
    assert(join_plus(Seq::<Seq<char>>::empty()) =~= e);
    assert(join_plus(c_part) =~= if spec.ctrl { "Ctrl+"@ } else { e }) by {
        if spec.ctrl {
            assert(c_part.drop_last() =~= Seq::<Seq<char>>::empty());
            assert(c_part.last() == "Ctrl"@);
            assert(e + "Ctrl"@ + seq!['+'] =~= "Ctrl"@ + seq!['+']);
        }
    }
    assert(join_plus(c_part + a_part) =~= join_plus(c_part) + if spec.alt { "Alt+"@ } else { e }) by {
        if spec.alt {
            assert((c_part + a_part).drop_last() =~= c_part);
            assert((c_part + a_part).last() == "Alt"@);
        } else {
            assert(c_part + a_part =~= c_part);
        }
    }
    assert(join_plus(ms) =~= join_plus(c_part + a_part) + if spec.shift { "Shift+"@ } else { e }) by {
        if spec.shift {
            assert(ms.drop_last() =~= c_part + a_part);
            assert(ms.last() == "Shift"@);
        } else {
            assert(ms =~= c_part + a_part);
        }
    }
    assert(combo_name_spec(spec) =~= join_plus(ms) + name);
    assert forall|i: int| 0 <= i < ms.len() implies no_plus(#[trigger] ms[i]) && text::trim(ms[i]) == ms[i]
        && ms[i].len() > 0 by {
        reveal_strlit("Ctrl");
        reveal_strlit("Alt");
        reveal_strlit("Shift");
    }
    lemma_split_join(ms, name);
    let parts = ms.push(name);
    assert forall|i: int| 0 <= i < parts.len() implies #[trigger] text::trim(parts[i]) == parts[i]
        && parts[i].len() > 0 by {
        if i < ms.len() {
            assert(parts[i] == ms[i]);
        }
    }
    lemma_nonempty_trimmed_identity(parts);
    assert(key_parts(combo_name_spec(spec)) == parts);
    assert(parts.drop_last() =~= ms);
    let base = HotkeySpec { vk: spec.vk, ctrl: false, alt: false, shift: false };
    // apply the modifiers one prefix at a time
    assert(apply_modifiers(Seq::<Seq<char>>::empty(), base) == Some(base));
    assert(apply_modifiers(c_part, base) == Some(HotkeySpec { ctrl: spec.ctrl, ..base })) by {
        if spec.ctrl {
            assert(c_part.drop_last() =~= Seq::<Seq<char>>::empty());
            assert(c_part.last() == "Ctrl"@);
        } else {
            assert(c_part =~= Seq::<Seq<char>>::empty());
        }
    }
    assert(apply_modifiers(c_part + a_part, base) == Some(
        HotkeySpec { ctrl: spec.ctrl, alt: spec.alt, ..base },
    )) by {
        if spec.alt {
            assert((c_part + a_part).drop_last() =~= c_part);
            assert((c_part + a_part).last() == "Alt"@);
        } else {
            assert(c_part + a_part =~= c_part);
        }
    }
    assert(apply_modifiers(ms, base) == Some(spec)) by {
        if spec.shift {
            assert(ms.drop_last() =~= c_part + a_part);
            assert(ms.last() == "Shift"@);
        } else {
            assert(ms =~= c_part + a_part);
        }
    }
}

} // verus!

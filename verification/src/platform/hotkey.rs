//! Hotkey text: key names and virtual-key codes, the `Ctrl+Alt+Shift+Key`
//! form, how it maps to a hotkey registration, and which hotkey a key or
//! mouse press stands for.

use vstd::prelude::*;
use crate::utils::text::{chars_of, push_char, str_eq, string_of, text};

verus! {

/// Registration flag: no auto-repeat.
pub const MOD_NOREPEAT: u32 = 0x4000;
/// Registration flag: Alt held.
pub const MOD_ALT: u32 = 0x1;
/// Registration flag: Ctrl held.
pub const MOD_CONTROL: u32 = 0x2;
/// Registration flag: Shift held.
pub const MOD_SHIFT: u32 = 0x4;
/// Virtual-key code of F1; F2 to F12 follow it.
pub const VK_F1: i32 = 0x70;

/// A capital ASCII letter.
pub open spec fn is_upper(c: char) -> bool {
    'A' <= c <= 'Z'
}

/// An ASCII decimal digit.
pub open spec fn is_ascii_digit(c: char) -> bool {
    '0' <= c <= '9'
}

/// The virtual-key code of a named key.
pub open spec fn named_key_code(name: Seq<char>) -> Option<i32> {
    if name == "F1"@ { Some(0x70i32) }
    else if name == "F2"@ { Some(0x71i32) }
    else if name == "F3"@ { Some(0x72i32) }
    else if name == "F4"@ { Some(0x73i32) }
    else if name == "F5"@ { Some(0x74i32) }
    else if name == "F6"@ { Some(0x75i32) }
    else if name == "F7"@ { Some(0x76i32) }
    else if name == "F8"@ { Some(0x77i32) }
    else if name == "F9"@ { Some(0x78i32) }
    else if name == "F10"@ { Some(0x79i32) }
    else if name == "F11"@ { Some(0x7Ai32) }
    else if name == "F12"@ { Some(0x7Bi32) }
    else if name == "Space"@ { Some(0x20i32) }
    else if name == "Enter"@ { Some(0x0Di32) }
    else if name == "Esc"@ { Some(0x1Bi32) }
    else if name == "Backspace"@ { Some(0x08i32) }
    else if name == "Tab"@ { Some(0x09i32) }
    else if name == "Left"@ { Some(0x25i32) }
    else if name == "Right"@ { Some(0x27i32) }
    else if name == "Up"@ { Some(0x26i32) }
    else if name == "Down"@ { Some(0x28i32) }
    else if name == "Insert"@ { Some(0x2Di32) }
    else if name == "Delete"@ { Some(0x2Ei32) }
    else if name == "Home"@ { Some(0x24i32) }
    else if name == "End"@ { Some(0x23i32) }
    else if name == "PageUp"@ { Some(0x21i32) }
    else if name == "PageDown"@ { Some(0x22i32) }
    else { None }
}

/// The virtual-key code of a key name: a capital letter or a digit stands
/// for itself; the other keys go by name.
pub open spec fn key_code(name: Seq<char>) -> Option<i32> {
    if name.len() == 1 && (is_upper(name[0]) || is_ascii_digit(name[0])) {
        Some(name[0] as i32)
    } else {
        named_key_code(name)
    }
}

/// The name of a named key's virtual-key code.
pub open spec fn named_key_name(vk: i32) -> Option<Seq<char>> {
    if vk == 0x70 { Some("F1"@) }
    else if vk == 0x71 { Some("F2"@) }
    else if vk == 0x72 { Some("F3"@) }
    else if vk == 0x73 { Some("F4"@) }
    else if vk == 0x74 { Some("F5"@) }
    else if vk == 0x75 { Some("F6"@) }
    else if vk == 0x76 { Some("F7"@) }
    else if vk == 0x77 { Some("F8"@) }
    else if vk == 0x78 { Some("F9"@) }
    else if vk == 0x79 { Some("F10"@) }
    else if vk == 0x7A { Some("F11"@) }
    else if vk == 0x7B { Some("F12"@) }
    else if vk == 0x20 { Some("Space"@) }
    else if vk == 0x0D { Some("Enter"@) }
    else if vk == 0x1B { Some("Esc"@) }
    else if vk == 0x08 { Some("Backspace"@) }
    else if vk == 0x09 { Some("Tab"@) }
    else if vk == 0x25 { Some("Left"@) }
    else if vk == 0x27 { Some("Right"@) }
    else if vk == 0x26 { Some("Up"@) }
    else if vk == 0x28 { Some("Down"@) }
    else if vk == 0x2D { Some("Insert"@) }
    else if vk == 0x2E { Some("Delete"@) }
    else if vk == 0x24 { Some("Home"@) }
    else if vk == 0x23 { Some("End"@) }
    else if vk == 0x21 { Some("PageUp"@) }
    else if vk == 0x22 { Some("PageDown"@) }
    else { None }
}

/// The key name of a virtual-key code: letters and digits as themselves,
/// the other keys by name.
pub open spec fn key_name(vk: i32) -> Option<Seq<char>> {
    if 0x41 <= vk <= 0x5A || 0x30 <= vk <= 0x39 {
        Some(seq![vk as char])
    } else {
        named_key_name(vk)
    }
}

/// The virtual-key code of a key name.
pub fn key_to_vk(key: &str) -> (r: Option<i32>)
    ensures
        r == key_code(key@),
{
    if key.unicode_len() == 1 {
        let c = key.get_char(0);
        if ('A' <= c && c <= 'Z') || ('0' <= c && c <= '9') {
            return Some(c as i32);
        }
    }
    if str_eq(key, "F1") { Some(0x70) }
    else if str_eq(key, "F2") { Some(0x71) }
    else if str_eq(key, "F3") { Some(0x72) }
    else if str_eq(key, "F4") { Some(0x73) }
    else if str_eq(key, "F5") { Some(0x74) }
    else if str_eq(key, "F6") { Some(0x75) }
    else if str_eq(key, "F7") { Some(0x76) }
    else if str_eq(key, "F8") { Some(0x77) }
    else if str_eq(key, "F9") { Some(0x78) }
    else if str_eq(key, "F10") { Some(0x79) }
    else if str_eq(key, "F11") { Some(0x7A) }
    else if str_eq(key, "F12") { Some(0x7B) }
    else if str_eq(key, "Space") { Some(0x20) }
    else if str_eq(key, "Enter") { Some(0x0D) }
    else if str_eq(key, "Esc") { Some(0x1B) }
    else if str_eq(key, "Backspace") { Some(0x08) }
    else if str_eq(key, "Tab") { Some(0x09) }
    else if str_eq(key, "Left") { Some(0x25) }
    else if str_eq(key, "Right") { Some(0x27) }
    else if str_eq(key, "Up") { Some(0x26) }
    else if str_eq(key, "Down") { Some(0x28) }
    else if str_eq(key, "Insert") { Some(0x2D) }
    else if str_eq(key, "Delete") { Some(0x2E) }
    else if str_eq(key, "Home") { Some(0x24) }
    else if str_eq(key, "End") { Some(0x23) }
    else if str_eq(key, "PageUp") { Some(0x21) }
    else if str_eq(key, "PageDown") { Some(0x22) }
    else { None }
}

/// The key name of a virtual-key code.
pub fn vk_to_string(vk: i32) -> (r: Option<String>)
    ensures
        match r {
            Some(s) => key_name(vk) == Some(s@),
            None => key_name(vk) is None,
        },
{
    if (0x41 <= vk && vk <= 0x5A) || (0x30 <= vk && vk <= 0x39) {
        let mut s = String::new();
        let c: char = (vk as u8) as char;
        push_char(&mut s, c);
        assert(s@ =~= seq![vk as char]);
        return Some(s);
    }
    if vk == 0x70 { Some(text("F1")) }
    else if vk == 0x71 { Some(text("F2")) }
    else if vk == 0x72 { Some(text("F3")) }
    else if vk == 0x73 { Some(text("F4")) }
    else if vk == 0x74 { Some(text("F5")) }
    else if vk == 0x75 { Some(text("F6")) }
    else if vk == 0x76 { Some(text("F7")) }
    else if vk == 0x77 { Some(text("F8")) }
    else if vk == 0x78 { Some(text("F9")) }
    else if vk == 0x79 { Some(text("F10")) }
    else if vk == 0x7A { Some(text("F11")) }
    else if vk == 0x7B { Some(text("F12")) }
    else if vk == 0x20 { Some(text("Space")) }
    else if vk == 0x0D { Some(text("Enter")) }
    else if vk == 0x1B { Some(text("Esc")) }
    else if vk == 0x08 { Some(text("Backspace")) }
    else if vk == 0x09 { Some(text("Tab")) }
    else if vk == 0x25 { Some(text("Left")) }
    else if vk == 0x27 { Some(text("Right")) }
    else if vk == 0x26 { Some(text("Up")) }
    else if vk == 0x28 { Some(text("Down")) }
    else if vk == 0x2D { Some(text("Insert")) }
    else if vk == 0x2E { Some(text("Delete")) }
    else if vk == 0x24 { Some(text("Home")) }
    else if vk == 0x23 { Some(text("End")) }
    else if vk == 0x21 { Some(text("PageUp")) }
    else if vk == 0x22 { Some(text("PageDown")) }
    else { None }
}

} // verus!

verus! {


/// Key names and virtual-key codes map to each other: the name of
/// a code maps back to that code, and a name that has a code is the name
/// of that code.
pub proof fn lemma_key_name_roundtrip(vk: i32, name: Seq<char>)
    ensures
        key_name(vk) == Some(name) ==> key_code(name) == Some(vk),
        key_code(name) == Some(vk) ==> key_name(vk) == Some(name),
{
    reveal_strlit("F1");
    reveal_strlit("F2");
    reveal_strlit("F3");
    reveal_strlit("F4");
    reveal_strlit("F5");
    reveal_strlit("F6");
    reveal_strlit("F7");
    reveal_strlit("F8");
    reveal_strlit("F9");
    reveal_strlit("F10");
    reveal_strlit("F11");
    reveal_strlit("F12");
    reveal_strlit("Space");
    reveal_strlit("Enter");
    reveal_strlit("Esc");
    reveal_strlit("Backspace");
    reveal_strlit("Tab");
    reveal_strlit("Left");
    reveal_strlit("Right");
    reveal_strlit("Up");
    reveal_strlit("Down");
    reveal_strlit("Insert");
    reveal_strlit("Delete");
    reveal_strlit("Home");
    reveal_strlit("End");
    reveal_strlit("PageUp");
    reveal_strlit("PageDown");
    if key_name(vk) == Some(name) && (0x41 <= vk <= 0x5A || 0x30 <= vk <= 0x39) {
        assert(name =~= seq![vk as char]);
        assert(name[0] as i32 == vk);
        assert(is_upper(name[0]) || is_ascii_digit(name[0]));
        assert(key_code(name) == Some(vk));
    }
    if key_name(vk) == Some(name) && !(0x41 <= vk <= 0x5A || 0x30 <= vk <= 0x39) {
        if vk == 0x70 {
            assert(name =~= seq!['F', '1']);
        }
        if vk == 0x71 {
            assert(name =~= seq!['F', '2']);
        }
        if vk == 0x72 {
            assert(name =~= seq!['F', '3']);
        }
        if vk == 0x73 {
            assert(name =~= seq!['F', '4']);
        }
        if vk == 0x74 {
            assert(name =~= seq!['F', '5']);
        }
        if vk == 0x75 {
            assert(name =~= seq!['F', '6']);
        }
        if vk == 0x76 {
            assert(name =~= seq!['F', '7']);
        }
        if vk == 0x77 {
            assert(name =~= seq!['F', '8']);
        }
        if vk == 0x78 {
            assert(name =~= seq!['F', '9']);
        }
        if vk == 0x79 {
            assert(name =~= seq!['F', '1', '0']);
        }
        if vk == 0x7A {
            assert(name =~= seq!['F', '1', '1']);
        }
        if vk == 0x7B {
            assert(name =~= seq!['F', '1', '2']);
        }
        if vk == 0x20 {
            assert(name =~= seq!['S', 'p', 'a', 'c', 'e']);
        }
        if vk == 0x0D {
            assert(name =~= seq!['E', 'n', 't', 'e', 'r']);
        }
        if vk == 0x1B {
            assert(name =~= seq!['E', 's', 'c']);
        }
        if vk == 0x08 {
            assert(name =~= seq!['B', 'a', 'c', 'k', 's', 'p', 'a', 'c', 'e']);
        }
        if vk == 0x09 {
            assert(name =~= seq!['T', 'a', 'b']);
        }
        if vk == 0x25 {
            assert(name =~= seq!['L', 'e', 'f', 't']);
        }
        if vk == 0x27 {
            assert(name =~= seq!['R', 'i', 'g', 'h', 't']);
        }
        if vk == 0x26 {
            assert(name =~= seq!['U', 'p']);
        }
        if vk == 0x28 {
            assert(name =~= seq!['D', 'o', 'w', 'n']);
        }
        if vk == 0x2D {
            assert(name =~= seq!['I', 'n', 's', 'e', 'r', 't']);
        }
        if vk == 0x2E {
            assert(name =~= seq!['D', 'e', 'l', 'e', 't', 'e']);
        }
        if vk == 0x24 {
            assert(name =~= seq!['H', 'o', 'm', 'e']);
        }
        if vk == 0x23 {
            assert(name =~= seq!['E', 'n', 'd']);
        }
        if vk == 0x21 {
            assert(name =~= seq!['P', 'a', 'g', 'e', 'U', 'p']);
        }
        if vk == 0x22 {
            assert(name =~= seq!['P', 'a', 'g', 'e', 'D', 'o', 'w', 'n']);
        }
    }
    if key_code(name) == Some(vk) {
        if name.len() == 1 && (is_upper(name[0]) || is_ascii_digit(name[0])) {
            assert(name =~= seq![vk as char]);
        }
    }
}

} // verus!

verus! {

use crate::models::character::string_views;
use crate::utils::text::{chars_eq, push_str};

/// Each modifier followed by `+`, in order.
pub open spec fn modifier_prefix(ms: Seq<Seq<char>>) -> Seq<char>
    decreases ms.len(),
{
    if ms.len() == 0 {
        Seq::empty()
    } else {
        modifier_prefix(ms.drop_last()) + ms.last() + seq!['+']
    }
}

/// The text of a hotkey: the held modifiers joined by `+`, then `+` and
/// the key; just the key when no modifier is held.
pub open spec fn hotkey_text(ms: Seq<Seq<char>>, key: Seq<char>) -> Seq<char> {
    modifier_prefix(ms) + key
}

/// Writes a hotkey as text, such as `Ctrl+Shift+F1`.
pub fn format_hotkey(modifiers: &Vec<String>, key: &str) -> (s: String)
    ensures
        s@ == hotkey_text(string_views(modifiers@), key@),
{
    let mut s = String::new();
    let n = modifiers.len();
    let mut i: usize = 0;
    while i < n
        invariant
            n == modifiers@.len(),
            i <= n,
            s@ == modifier_prefix(string_views(modifiers@.take(i as int))),
        decreases n - i,
    {
        assert(string_views(modifiers@.take(i + 1)).drop_last() =~= string_views(
            modifiers@.take(i as int),
        ));
        push_str(&mut s, modifiers[i].as_str());
        push_char(&mut s, '+');
        i = i + 1;
    }
    assert(modifiers@.take(n as int) =~= modifiers@);
    push_str(&mut s, key);
    s
}

/// The names of the held modifiers, in the order Ctrl, Alt, Shift.
pub open spec fn held_modifiers(ctrl: bool, alt: bool, shift: bool) -> Seq<Seq<char>> {
    (if ctrl { seq!["Ctrl"@] } else { Seq::empty() }) + (if alt { seq!["Alt"@] } else { Seq::empty() })
        + (if shift { seq!["Shift"@] } else { Seq::empty() })
}

/// The names of the held modifiers, given which of Ctrl, Alt and Shift are down.
pub fn current_modifiers(ctrl: bool, alt: bool, shift: bool) -> (r: Vec<String>)
    ensures
        string_views(r@) == held_modifiers(ctrl, alt, shift),
{
    let mut r: Vec<String> = Vec::new();
    if ctrl {
        r.push(text("Ctrl"));
    }
    if alt {
        r.push(text("Alt"));
    }
    if shift {
        r.push(text("Shift"));
    }
    assert(string_views(r@) =~= held_modifiers(ctrl, alt, shift));
    r
}

/// The hotkey text of a key press, if the key has a name.
pub fn keyboard_hotkey(vk: i32, ctrl: bool, alt: bool, shift: bool) -> (r: Option<String>)
    ensures
        match key_name(vk) {
            Some(k) => r matches Some(s) && s@ == hotkey_text(held_modifiers(ctrl, alt, shift), k),
            None => r is None,
        },
{
    match vk_to_string(vk) {
        Some(k) => {
            let mods = current_modifiers(ctrl, alt, shift);
            Some(format_hotkey(&mods, k.as_str()))
        },
        None => None,
    }
}

/// Mouse messages that report a button going down.
pub const WM_LBUTTONDOWN: u32 = 0x201;
pub const WM_RBUTTONDOWN: u32 = 0x204;
pub const WM_MBUTTONDOWN: u32 = 0x207;
pub const WM_XBUTTONDOWN: u32 = 0x20B;

/// The key name of a mouse press: the middle button, or the first or
/// second extra button (its number is the high word of the mouse data).
pub open spec fn mouse_key_name(msg: u32, mouse_data: u32) -> Option<Seq<char>> {
    if msg == WM_MBUTTONDOWN {
        Some("Middle"@)
    } else if msg == WM_XBUTTONDOWN {
        if mouse_data / 0x10000 == 1 {
            Some("XButton1"@)
        } else if mouse_data / 0x10000 == 2 {
            Some("XButton2"@)
        } else {
            None
        }
    } else {
        None
    }
}

/// The hotkey text of a mouse press, if the button can be bound.
pub fn mouse_hotkey(msg: u32, mouse_data: u32, ctrl: bool, alt: bool, shift: bool) -> (r: Option<String>)
    ensures
        match mouse_key_name(msg, mouse_data) {
            Some(k) => r matches Some(s) && s@ == hotkey_text(held_modifiers(ctrl, alt, shift), k),
            None => r is None,
        },
{
    let is_button_down = msg == WM_LBUTTONDOWN || msg == WM_RBUTTONDOWN || msg == WM_MBUTTONDOWN
        || msg == WM_XBUTTONDOWN;
    if !is_button_down {
        return None;
    }
    let key: Option<&str> = if msg == WM_MBUTTONDOWN {
        Some("Middle")
    } else if msg == WM_XBUTTONDOWN {
        let btn: u32 = mouse_data >> 16;
        assert(btn == mouse_data / 0x10000) by (bit_vector)
            requires
                btn == mouse_data >> 16,
        ;
        if btn == 1 {
            Some("XButton1")
        } else if btn == 2 {
            Some("XButton2")
        } else {
            None
        }
    } else {
        None
    };
    match key {
        Some(k) => {
            let mods = current_modifiers(ctrl, alt, shift);
            Some(format_hotkey(&mods, k))
        },
        None => None,
    }
}

/// Whether a key press fires its hotkey from the keyboard hook: the key was
/// not already down, the hotkey is bound, and it is not registered with
/// the system (which fires it itself).
pub fn keyboard_hook_fires(newly_pressed: bool, bound: bool, registered: bool) -> (b: bool)
    ensures
        b == (newly_pressed && bound && !registered),
{
    newly_pressed && bound && !registered
}

/// Whether a key press fires from the keyboard hook, given the keys held
/// down before it: the key was not already down (an auto-repeat is not a
/// new press), the hotkey is bound, and the system does not fire it itself.
pub open spec fn hook_fires(pressed: Set<i32>, vk: i32, bound: bool, registered: bool) -> bool {
    !pressed.contains(vk) && bound && !registered
}

/// The keys the keyboard hook sees held down.
pub struct KeyboardHook {
    pub pressed: Vec<i32>,
}

impl KeyboardHook {
    /// The set of keys held down.
    pub open spec fn pressed_keys(self) -> Set<i32> {
        Set::new(|k: i32| self.pressed@.contains(k))
    }

    /// No key held down.
    pub fn new() -> (h: Self)
        ensures
            h.pressed_keys() == Set::<i32>::empty(),
    {
        let h = KeyboardHook { pressed: Vec::new() };
        assert(h.pressed_keys() =~= Set::<i32>::empty());
        h
    }

    /// Whether `vk` is held down.
    fn holds(&self, vk: i32) -> (b: bool)
        ensures
            b == self.pressed_keys().contains(vk),
    {
        let n = self.pressed.len();
        let mut i: usize = 0;
        while i < n
            invariant
                n == self.pressed@.len(),
                i <= n,
                forall|j: int| 0 <= j < i ==> self.pressed@[j] != vk,
            decreases n - i,
        {
            if self.pressed[i] == vk {
                return true;
            }
            i = i + 1;
        }
        false
    }

    /// A key with a hotkey name goes down; says whether its hotkey fires.
    /// The key then counts as held until it goes up.
    pub fn key_down(&mut self, vk: i32, bound: bool, registered: bool) -> (fire: bool)
        ensures
            fire == hook_fires(old(self).pressed_keys(), vk, bound, registered),
            final(self).pressed_keys() == old(self).pressed_keys().insert(vk),
    {
        broadcast use vstd::seq_lib::group_seq_properties;
        let newly_pressed = !self.holds(vk);
        if newly_pressed {
            self.pressed.push(vk);
        }
        proof {
            assert(self.pressed_keys() =~= old(self).pressed_keys().insert(vk));
        }
        keyboard_hook_fires(newly_pressed, bound, registered)
    }

    /// A key goes up and no longer counts as held.
    pub fn key_up(&mut self, vk: i32)
        ensures
            final(self).pressed_keys() == old(self).pressed_keys().remove(vk),
    {
        broadcast use vstd::seq_lib::group_seq_properties;
        let mut kept: Vec<i32> = Vec::new();
        let n = self.pressed.len();
        let mut i: usize = 0;
        while i < n
            invariant
                n == self.pressed@.len(),
                i <= n,
                forall|k: i32| kept@.contains(k) <==> (k != vk && self.pressed@.take(i as int).contains(k)),
            decreases n - i,
        {
            let k = self.pressed[i];
            let ghost old_kept = kept@;
            if k != vk {
                kept.push(k);
            }
            proof {
                assert(self.pressed@.take(i + 1) =~= self.pressed@.take(i as int).push(k));
                assert forall|x: i32|
                    kept@.contains(x) <==> (x != vk && self.pressed@.take(i + 1).contains(x)) by {
                    vstd::seq_lib::lemma_seq_contains_after_push(self.pressed@.take(i as int), k, x);
                    vstd::seq_lib::lemma_seq_contains_after_push(old_kept, k, x);
                }
            }
            i = i + 1;
        }
        proof {
            assert(self.pressed@.take(n as int) =~= self.pressed@);
        }
        let ghost before = self.pressed_keys();
        self.pressed = kept;
        proof {
            assert(self.pressed_keys() =~= before.remove(vk));
        }
    }
}

/// A hotkey fires once per press: while its key stays down, the repeated
/// key-down events do not fire it again; after the key goes up the next
/// press fires it again when it is bound and not registered.
pub proof fn lemma_hook_fires_once_per_press(
    pressed: Set<i32>,
    vk: i32,
    bound: bool,
    registered: bool,
)
    ensures
        !hook_fires(pressed.insert(vk), vk, bound, registered),
        hook_fires(pressed.insert(vk).remove(vk), vk, bound, registered) == (bound && !registered),
{
}

} // verus!

verus! {

/// The pieces of `s` between `+` signs (`str::split('+')`).
pub open spec fn split_plus(s: Seq<char>) -> Seq<Seq<char>>
    decreases s.len(),
{
    if s.len() == 0 {
        seq![Seq::empty()]
    } else {
        let p = split_plus(s.drop_last());
        if s.last() == '+' {
            p.push(Seq::empty())
        } else {
            p.drop_last().push(p.last().push(s.last()))
        }
    }
}

/// A modifier's name.
pub open spec fn is_modifier_name(p: Seq<char>) -> bool {
    p == "Ctrl"@ || p == "Alt"@ || p == "Shift"@
}

/// One of the pieces is `name`.
pub open spec fn has_piece(parts: Seq<Seq<char>>, name: Seq<char>) -> bool
    decreases parts.len(),
{
    parts.len() > 0 && (parts.last() == name || has_piece(parts.drop_last(), name))
}

/// The last piece that is not a modifier's name.
pub open spec fn last_key(parts: Seq<Seq<char>>) -> Option<Seq<char>>
    decreases parts.len(),
{
    if parts.len() == 0 {
        None
    } else if !is_modifier_name(parts.last()) {
        Some(parts.last())
    } else {
        last_key(parts.drop_last())
    }
}

/// The registration flags of the pieces: no repeat, plus each named modifier.
pub open spec fn hotkey_flags(parts: Seq<Seq<char>>) -> u32 {
    (MOD_NOREPEAT + (if has_piece(parts, "Ctrl"@) { MOD_CONTROL } else { 0 }) + (if has_piece(
        parts,
        "Alt"@,
    ) {
        MOD_ALT
    } else {
        0
    }) + (if has_piece(parts, "Shift"@) { MOD_SHIFT } else { 0 })) as u32
}

/// The registration of a hotkey text: its flags and the key's virtual-key
/// code, when the last non-modifier piece names a key.
pub open spec fn hotkey_registration(s: Seq<char>) -> Option<(u32, u32)> {
    let parts = split_plus(s);
    match last_key(parts) {
        Some(k) => match key_code(k) {
            Some(vk) => Some((hotkey_flags(parts), vk as u32)),
            None => None,
        },
        None => None,
    }
}

proof fn lemma_split_plus_nonempty(s: Seq<char>)
    ensures
        split_plus(s).len() >= 1,
    decreases s.len(),
{
    if s.len() > 0 {
        lemma_split_plus_nonempty(s.drop_last());
    }
}

/// The registration flags and key of a hotkey text such as `Ctrl+F1`.
pub fn parse_keyboard_hotkey(hotkey: &str) -> (r: Option<(u32, u32)>)
    ensures
        r == hotkey_registration(hotkey@),
{
    let v = chars_of(hotkey);
    let n = v.len();
    let mut ctrl = false;
    let mut alt = false;
    let mut shift = false;
    let mut key: Option<Vec<char>> = None;
    let mut cur: Vec<char> = Vec::new();
    let ghost mut done: Seq<Seq<char>> = Seq::empty();
    let mut i: usize = 0;
    assert(v@.take(0) =~= Seq::<char>::empty());
    assert(split_plus(Seq::<char>::empty()) =~= done.push(cur@));
    while i < n
        invariant
            n == v@.len(),
            v@ == hotkey@,
            i <= n,
            split_plus(v@.take(i as int)) == done.push(cur@),
            ctrl == has_piece(done, "Ctrl"@),
            alt == has_piece(done, "Alt"@),
            shift == has_piece(done, "Shift"@),
            match key {
                Some(k) => last_key(done) == Some(k@),
                None => last_key(done) is None,
            },
        decreases n - i,
    {
        let c = v[i];
        proof {
            reveal_strlit("Ctrl");
            reveal_strlit("Alt");
            reveal_strlit("Shift");
        }
        assert(v@.take(i + 1).drop_last() =~= v@.take(i as int));
        if c == '+' {
            if chars_eq(&cur, "Ctrl") {
                ctrl = true;
            } else if chars_eq(&cur, "Alt") {
                alt = true;
            } else if chars_eq(&cur, "Shift") {
                shift = true;
            } else {
                key = Some(cur);
            }
            proof {
                let d2 = done.push(cur@);
                assert(d2.drop_last() =~= done);
                assert(d2.last() == cur@);
                assert(has_piece(d2, "Ctrl"@) == (cur@ == "Ctrl"@ || has_piece(done, "Ctrl"@)));
                assert(has_piece(d2, "Alt"@) == (cur@ == "Alt"@ || has_piece(done, "Alt"@)));
                assert(has_piece(d2, "Shift"@) == (cur@ == "Shift"@ || has_piece(done, "Shift"@)));
                done = d2;
            }
            cur = Vec::new();
            assert(split_plus(v@.take(i + 1)) =~= done.push(cur@));
        } else {
            let ghost old_cur = cur@;
            cur.push(c);
            assert(done.push(old_cur).drop_last() =~= done);
            assert(split_plus(v@.take(i + 1)) =~= done.push(cur@));
        }
        i = i + 1;
    }
    assert(v@.take(n as int) =~= v@);
    let ghost parts = done.push(cur@);
    assert(parts.drop_last() =~= done);
    assert(parts.last() == cur@);
    assert(has_piece(parts, "Ctrl"@) == (cur@ == "Ctrl"@ || has_piece(done, "Ctrl"@)));
    assert(has_piece(parts, "Alt"@) == (cur@ == "Alt"@ || has_piece(done, "Alt"@)));
    assert(has_piece(parts, "Shift"@) == (cur@ == "Shift"@ || has_piece(done, "Shift"@)));
    proof {
        reveal_strlit("Ctrl");
        reveal_strlit("Alt");
        reveal_strlit("Shift");
    }
    if chars_eq(&cur, "Ctrl") {
        ctrl = true;
    } else if chars_eq(&cur, "Alt") {
        alt = true;
    } else if chars_eq(&cur, "Shift") {
        shift = true;
    } else {
        key = Some(cur);
    }
    match key {
        None => None,
        Some(k) => {
            let ks = string_of(&k);
            match key_to_vk(ks.as_str()) {
                None => None,
                Some(vk) => {
                    let flags: u32 = MOD_NOREPEAT + (if ctrl { MOD_CONTROL } else { 0 }) + (if alt {
                        MOD_ALT
                    } else {
                        0
                    }) + (if shift { MOD_SHIFT } else { 0 });
                    assert(vk >= 0);
                    Some((flags, vk as u32))
                },
            }
        },
    }
}

} // verus!

verus! {

/// No `+` in the text.
pub open spec fn plus_free(s: Seq<char>) -> bool {
    forall|i: int| 0 <= i < s.len() ==> s[i] != '+'
}

proof fn lemma_split_append_plain(t: Seq<char>, b: Seq<char>)
    requires
        plus_free(b),
    ensures
        split_plus(t + b) == split_plus(t).drop_last().push(split_plus(t).last() + b),
    decreases b.len(),
{
    lemma_split_plus_nonempty(t);
    if b.len() == 0 {
        assert(t + b =~= t);
        assert(split_plus(t).last() + b =~= split_plus(t).last());
        assert(split_plus(t).drop_last().push(split_plus(t).last()) =~= split_plus(t));
    } else {
        let b0 = b.drop_last();
        lemma_split_append_plain(t, b0);
        assert((t + b).drop_last() =~= t + b0);
        assert((t + b).last() == b.last());
        let p = split_plus(t + b0);
        assert(p.last() == split_plus(t).last() + b0);
        assert(p.last().push(b.last()) =~= split_plus(t).last() + b);
        assert(p.drop_last() =~= split_plus(t).drop_last());
    }
}

proof fn lemma_split_modifier_prefix(ms: Seq<Seq<char>>)
    requires
        forall|i: int| 0 <= i < ms.len() ==> plus_free(#[trigger] ms[i]),
    ensures
        split_plus(modifier_prefix(ms)) == ms.push(Seq::empty()),
    decreases ms.len(),
{
    if ms.len() == 0 {
        assert(split_plus(Seq::<char>::empty()) =~= ms.push(Seq::empty()));
    } else {
        let m0 = ms.drop_last();
        assert forall|i: int| 0 <= i < m0.len() implies plus_free(#[trigger] m0[i]) by {
            assert(m0[i] == ms[i]);
        }
        lemma_split_modifier_prefix(m0);
        let p = modifier_prefix(m0);
        assert(plus_free(ms.last()));
        lemma_split_append_plain(p, ms.last());
        let q = p + ms.last();
        assert(split_plus(p).last() == Seq::<char>::empty());
        assert(Seq::<char>::empty() + ms.last() =~= ms.last());
        assert(split_plus(p).drop_last() =~= m0);
        assert(split_plus(q) =~= ms);
        assert(modifier_prefix(ms) =~= q.push('+'));
        assert(q.push('+').drop_last() =~= q);
    }
}

/// The pieces of a hotkey text are its modifiers and its key, when none
/// of them holds a `+`.
pub proof fn lemma_split_hotkey_text(ms: Seq<Seq<char>>, key: Seq<char>)
    requires
        forall|i: int| 0 <= i < ms.len() ==> plus_free(#[trigger] ms[i]),
        plus_free(key),
    ensures
        split_plus(hotkey_text(ms, key)) == ms.push(key),
{
    lemma_split_modifier_prefix(ms);
    lemma_split_append_plain(modifier_prefix(ms), key);
    assert(ms.push(Seq::empty()).drop_last() =~= ms);
    assert(Seq::<char>::empty() + key =~= key);
}

/// The hook and the registration agree: the text that the keyboard hook
/// writes for a named key with some modifiers held registers that key's
/// code with exactly those modifiers.
pub proof fn lemma_hook_text_registers_same_key(vk: i32, ctrl: bool, alt: bool, shift: bool)
    requires
        key_name(vk) is Some,
    ensures
        hotkey_registration(hotkey_text(held_modifiers(ctrl, alt, shift), key_name(vk).unwrap()))
            == Some(
            (
                (MOD_NOREPEAT + (if ctrl { MOD_CONTROL } else { 0 }) + (if alt { MOD_ALT } else { 0 })
                    + (if shift { MOD_SHIFT } else { 0 })) as u32,
                vk as u32,
            ),
        ),
{
    lemma_name_literals();
    let k = key_name(vk).unwrap();
    let ms = held_modifiers(ctrl, alt, shift);
    assert(plus_free(k));
    assert(!is_modifier_name(k));
    assert forall|i: int| 0 <= i < ms.len() implies plus_free(#[trigger] ms[i]) by {
        assert(ms[i] == "Ctrl"@ || ms[i] == "Alt"@ || ms[i] == "Shift"@);
    }
    lemma_split_hotkey_text(ms, k);
    lemma_key_name_roundtrip(vk, k);
    let parts = ms.push(k);
    assert(parts.drop_last() =~= ms);
    assert(last_key(parts) == Some(k));
    let e: Seq<Seq<char>> = Seq::empty();
    let sc: Seq<Seq<char>> = if ctrl { seq!["Ctrl"@] } else { e };
    let sa: Seq<Seq<char>> = if alt { seq!["Alt"@] } else { e };
    let ss: Seq<Seq<char>> = if shift { seq!["Shift"@] } else { e };
    assert(ms == sc + sa + ss);
    lemma_has_piece_held(ctrl, alt, shift);
}

/// A piece is among the pieces exactly when the sequence contains it.
proof fn lemma_has_piece_contains(parts: Seq<Seq<char>>, name: Seq<char>)
    ensures
        has_piece(parts, name) == parts.contains(name),
    decreases parts.len(),
{
    if parts.len() > 0 {
        lemma_has_piece_contains(parts.drop_last(), name);
        assert(parts =~= parts.drop_last().push(parts.last()));
        vstd::seq_lib::lemma_seq_contains_after_push(parts.drop_last(), parts.last(), name);
    } else {
        assert(!parts.contains(name));
    }
}

/// Writing a hotkey and parsing it back agree for any modifiers in any
/// order: the text that `format_hotkey` writes for modifier names and a
/// named key is registered by `parse_keyboard_hotkey` with no-repeat plus
/// the flag of each modifier named, and the key's code.
pub proof fn lemma_hotkey_text_registers(ms: Seq<Seq<char>>, key: Seq<char>)
    requires
        forall|i: int| 0 <= i < ms.len() ==> is_modifier_name(#[trigger] ms[i]),
        plus_free(key),
        !is_modifier_name(key),
        key_code(key) is Some,
    ensures
        hotkey_registration(hotkey_text(ms, key)) == Some(
            (
                (MOD_NOREPEAT + (if ms.contains("Ctrl"@) { MOD_CONTROL } else { 0 }) + (if ms.contains(
                    "Alt"@,
                ) {
                    MOD_ALT
                } else {
                    0
                }) + (if ms.contains("Shift"@) { MOD_SHIFT } else { 0 })) as u32,
                key_code(key).unwrap() as u32,
            ),
        ),
{
    lemma_name_literals();
    assert forall|i: int| 0 <= i < ms.len() implies plus_free(#[trigger] ms[i]) by {
        assert(is_modifier_name(ms[i]));
    }
    lemma_split_hotkey_text(ms, key);
    let parts = ms.push(key);
    assert(parts.drop_last() =~= ms);
    assert(last_key(parts) == Some(key));
    lemma_has_piece_contains(parts, "Ctrl"@);
    lemma_has_piece_contains(parts, "Alt"@);
    lemma_has_piece_contains(parts, "Shift"@);
    vstd::seq_lib::lemma_seq_contains_after_push(ms, key, "Ctrl"@);
    vstd::seq_lib::lemma_seq_contains_after_push(ms, key, "Alt"@);
    vstd::seq_lib::lemma_seq_contains_after_push(ms, key, "Shift"@);
}

proof fn lemma_has_piece_held(ctrl: bool, alt: bool, shift: bool)
    ensures
        has_piece(held_modifiers(ctrl, alt, shift), "Ctrl"@) == ctrl,
        has_piece(held_modifiers(ctrl, alt, shift), "Alt"@) == alt,
        has_piece(held_modifiers(ctrl, alt, shift), "Shift"@) == shift,
{
    lemma_name_literals();
    reveal_with_fuel(has_piece, 4);
    let ms = held_modifiers(ctrl, alt, shift);
    let e: Seq<Seq<char>> = Seq::empty();
    let sc: Seq<Seq<char>> = if ctrl { seq!["Ctrl"@] } else { e };
    let sa: Seq<Seq<char>> = if alt { seq!["Alt"@] } else { e };
    let ss: Seq<Seq<char>> = if shift { seq!["Shift"@] } else { e };
    assert(ms == sc + sa + ss);
    if ctrl && alt && shift {
        assert(ms =~= seq!["Ctrl"@, "Alt"@, "Shift"@]);
        assert(ms.drop_last() =~= seq!["Ctrl"@, "Alt"@]);
        assert(ms.drop_last().drop_last() =~= seq!["Ctrl"@]);
        assert(ms.drop_last().drop_last().drop_last() =~= e);
    } else if ctrl && alt {
        assert(ms =~= seq!["Ctrl"@, "Alt"@]);
        assert(ms.drop_last() =~= seq!["Ctrl"@]);
        assert(ms.drop_last().drop_last() =~= e);
    } else if ctrl && shift {
        assert(ms =~= seq!["Ctrl"@, "Shift"@]);
        assert(ms.drop_last() =~= seq!["Ctrl"@]);
        assert(ms.drop_last().drop_last() =~= e);
    } else if alt && shift {
        assert(ms =~= seq!["Alt"@, "Shift"@]);
        assert(ms.drop_last() =~= seq!["Alt"@]);
        assert(ms.drop_last().drop_last() =~= e);
    } else if ctrl {
        assert(ms =~= seq!["Ctrl"@]);
        assert(ms.drop_last() =~= e);
    } else if alt {
        assert(ms =~= seq!["Alt"@]);
        assert(ms.drop_last() =~= e);
    } else if shift {
        assert(ms =~= seq!["Shift"@]);
        assert(ms.drop_last() =~= e);
    } else {
        assert(ms =~= e);
    }
}

} // verus!

verus! {

/// The characters of the key and modifier names.
pub proof fn lemma_name_literals()
    ensures
        "Ctrl"@ == seq!['C', 't', 'r', 'l'],
        "Alt"@ == seq!['A', 'l', 't'],
        "Shift"@ == seq!['S', 'h', 'i', 'f', 't'],
        "F1"@ == seq!['F', '1'],
        "F2"@ == seq!['F', '2'],
        "F3"@ == seq!['F', '3'],
        "F4"@ == seq!['F', '4'],
        "F5"@ == seq!['F', '5'],
        "F6"@ == seq!['F', '6'],
        "F7"@ == seq!['F', '7'],
        "F8"@ == seq!['F', '8'],
        "F9"@ == seq!['F', '9'],
        "F10"@ == seq!['F', '1', '0'],
        "F11"@ == seq!['F', '1', '1'],
        "F12"@ == seq!['F', '1', '2'],
        "Space"@ == seq!['S', 'p', 'a', 'c', 'e'],
        "Enter"@ == seq!['E', 'n', 't', 'e', 'r'],
        "Esc"@ == seq!['E', 's', 'c'],
        "Backspace"@ == seq!['B', 'a', 'c', 'k', 's', 'p', 'a', 'c', 'e'],
        "Tab"@ == seq!['T', 'a', 'b'],
        "Left"@ == seq!['L', 'e', 'f', 't'],
        "Right"@ == seq!['R', 'i', 'g', 'h', 't'],
        "Up"@ == seq!['U', 'p'],
        "Down"@ == seq!['D', 'o', 'w', 'n'],
        "Insert"@ == seq!['I', 'n', 's', 'e', 'r', 't'],
        "Delete"@ == seq!['D', 'e', 'l', 'e', 't', 'e'],
        "Home"@ == seq!['H', 'o', 'm', 'e'],
        "End"@ == seq!['E', 'n', 'd'],
        "PageUp"@ == seq!['P', 'a', 'g', 'e', 'U', 'p'],
        "PageDown"@ == seq!['P', 'a', 'g', 'e', 'D', 'o', 'w', 'n'],
        "Middle"@ == seq!['M', 'i', 'd', 'd', 'l', 'e'],
        "XButton1"@ == seq!['X', 'B', 'u', 't', 't', 'o', 'n', '1'],
        "XButton2"@ == seq!['X', 'B', 'u', 't', 't', 'o', 'n', '2'],
{
    reveal_strlit("Ctrl");
    reveal_strlit("Alt");
    reveal_strlit("Shift");
    reveal_strlit("F1");
    reveal_strlit("F2");
    reveal_strlit("F3");
    reveal_strlit("F4");
    reveal_strlit("F5");
    reveal_strlit("F6");
    reveal_strlit("F7");
    reveal_strlit("F8");
    reveal_strlit("F9");
    reveal_strlit("F10");
    reveal_strlit("F11");
    reveal_strlit("F12");
    reveal_strlit("Space");
    reveal_strlit("Enter");
    reveal_strlit("Esc");
    reveal_strlit("Backspace");
    reveal_strlit("Tab");
    reveal_strlit("Left");
    reveal_strlit("Right");
    reveal_strlit("Up");
    reveal_strlit("Down");
    reveal_strlit("Insert");
    reveal_strlit("Delete");
    reveal_strlit("Home");
    reveal_strlit("End");
    reveal_strlit("PageUp");
    reveal_strlit("PageDown");
    reveal_strlit("Middle");
    reveal_strlit("XButton1");
    reveal_strlit("XButton2");
    assert("Ctrl"@ =~= seq!['C', 't', 'r', 'l']);
    assert("Alt"@ =~= seq!['A', 'l', 't']);
    assert("Shift"@ =~= seq!['S', 'h', 'i', 'f', 't']);
    assert("F1"@ =~= seq!['F', '1']);
    assert("F2"@ =~= seq!['F', '2']);
    assert("F3"@ =~= seq!['F', '3']);
    assert("F4"@ =~= seq!['F', '4']);
    assert("F5"@ =~= seq!['F', '5']);
    assert("F6"@ =~= seq!['F', '6']);
    assert("F7"@ =~= seq!['F', '7']);
    assert("F8"@ =~= seq!['F', '8']);
    assert("F9"@ =~= seq!['F', '9']);
    assert("F10"@ =~= seq!['F', '1', '0']);
    assert("F11"@ =~= seq!['F', '1', '1']);
    assert("F12"@ =~= seq!['F', '1', '2']);
    assert("Space"@ =~= seq!['S', 'p', 'a', 'c', 'e']);
    assert("Enter"@ =~= seq!['E', 'n', 't', 'e', 'r']);
    assert("Esc"@ =~= seq!['E', 's', 'c']);
    assert("Backspace"@ =~= seq!['B', 'a', 'c', 'k', 's', 'p', 'a', 'c', 'e']);
    assert("Tab"@ =~= seq!['T', 'a', 'b']);
    assert("Left"@ =~= seq!['L', 'e', 'f', 't']);
    assert("Right"@ =~= seq!['R', 'i', 'g', 'h', 't']);
    assert("Up"@ =~= seq!['U', 'p']);
    assert("Down"@ =~= seq!['D', 'o', 'w', 'n']);
    assert("Insert"@ =~= seq!['I', 'n', 's', 'e', 'r', 't']);
    assert("Delete"@ =~= seq!['D', 'e', 'l', 'e', 't', 'e']);
    assert("Home"@ =~= seq!['H', 'o', 'm', 'e']);
    assert("End"@ =~= seq!['E', 'n', 'd']);
    assert("PageUp"@ =~= seq!['P', 'a', 'g', 'e', 'U', 'p']);
    assert("PageDown"@ =~= seq!['P', 'a', 'g', 'e', 'D', 'o', 'w', 'n']);
    assert("Middle"@ =~= seq!['M', 'i', 'd', 'd', 'l', 'e']);
    assert("XButton1"@ =~= seq!['X', 'B', 'u', 't', 't', 'o', 'n', '1']);
    assert("XButton2"@ =~= seq!['X', 'B', 'u', 't', 't', 'o', 'n', '2']);
}

} // verus!

verus! {

/// The hotkeys registered with the system, each under the id it was
/// registered with, and the next id to hand out.
pub struct RegisteredHotkeys {
    pub entries: Vec<(i32, String)>,
    pub next_id: i32,
}

/// `key` is one of the listed strings.
pub open spec fn listed(keys: Seq<String>, key: Seq<char>) -> bool {
    exists|j: int| 0 <= j < keys.len() && (#[trigger] keys[j])@ == key
}

/// The entries whose key is listed, in order.
pub open spec fn kept_entries(es: Seq<(i32, String)>, keys: Seq<String>) -> Seq<(i32, String)>
    decreases es.len(),
{
    if es.len() == 0 {
        Seq::empty()
    } else {
        kept_entries(es.drop_last(), keys) + if listed(keys, es.last().1@) {
            seq![es.last()]
        } else {
            Seq::empty()
        }
    }
}

/// The ids of the entries whose key is not listed, in order.
pub open spec fn dropped_ids(es: Seq<(i32, String)>, keys: Seq<String>) -> Seq<i32>
    decreases es.len(),
{
    if es.len() == 0 {
        Seq::empty()
    } else {
        dropped_ids(es.drop_last(), keys) + if listed(keys, es.last().1@) {
            Seq::empty()
        } else {
            seq![es.last().0]
        }
    }
}

proof fn lemma_kept_entries_subset(es: Seq<(i32, String)>, keys: Seq<String>)
    ensures
        forall|k: int|
            0 <= k < kept_entries(es, keys).len() ==> es.contains(#[trigger] kept_entries(es, keys)[k])
                && listed(keys, kept_entries(es, keys)[k].1@),
        forall|j: int|
            0 <= j < es.len() && listed(keys, (#[trigger] es[j]).1@) ==> kept_entries(es, keys).contains(es[j]),
        forall|a: int, b: int|
            #![trigger kept_entries(es, keys)[a], kept_entries(es, keys)[b]]
            0 <= a < b < kept_entries(es, keys).len() ==> exists|x: int, y: int|
                #![trigger es[x], es[y]]
                0 <= x < y < es.len() && es[x] == kept_entries(es, keys)[a] && es[y]
                    == kept_entries(es, keys)[b],
    decreases es.len(),
{
    if es.len() > 0 {
        let p = es.drop_last();
        lemma_kept_entries_subset(p, keys);
        let kp = kept_entries(p, keys);
        let k = kept_entries(es, keys);
        assert forall|i: int| 0 <= i < k.len() implies es.contains(#[trigger] k[i]) && listed(
            keys,
            k[i].1@,
        ) by {
            if i < kp.len() {
                assert(k[i] == kp[i]);
                let x = choose|x: int| 0 <= x < p.len() && p[x] == kp[i];
                assert(es[x] == p[x]);
            } else {
                assert(es[es.len() - 1] == k[i]);
            }
        }
        assert forall|j: int| 0 <= j < es.len() && listed(keys, (#[trigger] es[j]).1@) implies k.contains(
            es[j],
        ) by {
            if j < p.len() {
                assert(p[j] == es[j]);
                let i = choose|i: int| 0 <= i < kp.len() && kp[i] == p[j];
                assert(k[i] == kp[i]);
            } else {
                assert(k[k.len() - 1] == es[j]);
            }
        }
        assert forall|a: int, b: int| #![trigger k[a], k[b]] 0 <= a < b < k.len() implies exists|x: int, y: int|
            #![trigger es[x], es[y]]
            0 <= x < y < es.len() && es[x] == k[a] && es[y] == k[b] by {
            if b < kp.len() {
                assert(k[a] == kp[a] && k[b] == kp[b]);
                let (x, y) = choose|x: int, y: int|
                    #![trigger p[x], p[y]]
                    0 <= x < y < p.len() && p[x] == kp[a] && p[y] == kp[b];
                assert(es[x] == p[x] && es[y] == p[y]);
            } else {
                assert(k[a] == kp[a]);
                let x = choose|x: int| 0 <= x < p.len() && p[x] == kp[a];
                assert(es[x] == p[x]);
                assert(es[es.len() - 1] == k[b]);
            }
        }
    }
}

impl RegisteredHotkeys {
    /// Ids are positive, below the next id, and used once; keys are used once.
    pub open spec fn wf(self) -> bool {
        &&& self.next_id >= 1
        &&& forall|j: int|
            0 <= j < self.entries@.len() ==> 1 <= (#[trigger] self.entries@[j]).0 < self.next_id
        &&& forall|a: int, b: int|
            0 <= a < b < self.entries@.len() ==> self.entries@[a].0 != self.entries@[b].0
                && self.entries@[a].1@ != self.entries@[b].1@
    }

    /// `key` is registered.
    pub open spec fn has_key(self, key: Seq<char>) -> bool {
        exists|j: int| 0 <= j < self.entries@.len() && (#[trigger] self.entries@[j]).1@ == key
    }

    /// Nothing registered; the first id is 1.
    pub fn new() -> (r: Self)
        ensures
            r.wf(),
            r.entries@.len() == 0,
            r.next_id == 1,
    {
        RegisteredHotkeys { entries: Vec::new(), next_id: 1 }
    }

    /// The hotkey registered under `id`.
    pub fn get(&self, id: i32) -> (r: Option<String>)
        requires
            self.wf(),
        ensures
            match r {
                Some(k) => exists|j: int|
                    0 <= j < self.entries@.len() && #[trigger] self.entries@[j] == (id, k),
                None => forall|j: int|
                    0 <= j < self.entries@.len() ==> (#[trigger] self.entries@[j]).0 != id,
            },
    {
        let n = self.entries.len();
        let mut i: usize = 0;
        while i < n
            invariant
                n == self.entries@.len(),
                i <= n,
                forall|j: int| 0 <= j < i ==> (#[trigger] self.entries@[j]).0 != id,
            decreases n - i,
        {
            if self.entries[i].0 == id {
                let k = self.entries[i].1.clone();
                assert(self.entries@[i as int] == (id, k));
                return Some(k);
            }
            i = i + 1;
        }
        None
    }

    /// Whether `key` is registered.
    pub fn is_registered(&self, key: &str) -> (b: bool)
        ensures
            b == self.has_key(key@),
    {
        let n = self.entries.len();
        let mut i: usize = 0;
        while i < n
            invariant
                n == self.entries@.len(),
                i <= n,
                forall|j: int| 0 <= j < i ==> (#[trigger] self.entries@[j]).1@ != key@,
            decreases n - i,
        {
            if str_eq(self.entries[i].1.as_str(), key) {
                return true;
            }
            i = i + 1;
        }
        false
    }

    /// The registered hotkeys, in registration order.
    pub fn registered_keys(&self) -> (r: Vec<String>)
        ensures
            r@.len() == self.entries@.len(),
            forall|j: int| 0 <= j < r@.len() ==> (#[trigger] r@[j]) == self.entries@[j].1,
    {
        let mut r: Vec<String> = Vec::new();
        let n = self.entries.len();
        let mut i: usize = 0;
        while i < n
            invariant
                n == self.entries@.len(),
                i <= n,
                r@.len() == i,
                forall|j: int| 0 <= j < i ==> (#[trigger] r@[j]) == self.entries@[j].1,
            decreases n - i,
        {
            r.push(self.entries[i].1.clone());
            i = i + 1;
        }
        r
    }

    /// Forgets the hotkeys that are no longer wanted and returns their ids,
    /// to be unregistered.
    pub fn remove_missing(&mut self, wanted: &Vec<String>) -> (ids: Vec<i32>)
        requires
            old(self).wf(),
        ensures
            final(self).wf(),
            final(self).next_id == old(self).next_id,
            final(self).entries@ == kept_entries(old(self).entries@, wanted@),
            ids@ == dropped_ids(old(self).entries@, wanted@),
    {
        let ghost e0 = self.entries@;
        let mut kept: Vec<(i32, String)> = Vec::new();
        let mut ids: Vec<i32> = Vec::new();
        let n = self.entries.len();
        let mut i: usize = 0;
        while i < n
            invariant
                n == e0.len(),
                self.entries@ == e0,
                i <= n,
                kept@ == kept_entries(e0.take(i as int), wanted@),
                ids@ == dropped_ids(e0.take(i as int), wanted@),
            decreases n - i,
        {
            assert(e0.take(i + 1).drop_last() =~= e0.take(i as int));
            assert(e0.take(i + 1).last() == e0[i as int]);
            let mut found = false;
            let m = wanted.len();
            let mut k: usize = 0;
            while k < m
                invariant
                    m == wanted@.len(),
                    k <= m,
                    self.entries@ == e0,
                    i < n == e0.len(),
                    found == exists|j: int| 0 <= j < k && (#[trigger] wanted@[j])@ == e0[i as int].1@,
                decreases m - k,
            {
                if wanted[k] == self.entries[i].1 {
                    found = true;
                }
                k = k + 1;
            }
            if found {
                let id = self.entries[i].0;
                let key = self.entries[i].1.clone();
                kept.push((id, key));
            } else {
                ids.push(self.entries[i].0);
            }
            assert(kept@ =~= kept_entries(e0.take(i + 1), wanted@));
            assert(ids@ =~= dropped_ids(e0.take(i + 1), wanted@));
            i = i + 1;
        }
        assert(e0.take(n as int) =~= e0);
        proof {
            lemma_kept_entries_subset(e0, wanted@);
        }
        self.entries = kept;
        ids
    }

    /// Whether another id can be handed out.
    pub fn can_allocate(&self) -> (b: bool)
        ensures
            b == (self.next_id < i32::MAX),
    {
        self.next_id < i32::MAX
    }

    /// Hands out the next id.
    pub fn allocate_id(&mut self) -> (id: i32)
        requires
            old(self).wf(),
            old(self).next_id < i32::MAX,
        ensures
            final(self).wf(),
            id == old(self).next_id,
            final(self).next_id == old(self).next_id + 1,
            final(self).entries@ == old(self).entries@,
    {
        let id = self.next_id;
        self.next_id = self.next_id + 1;
        id
    }

    /// A key that still has to be registered: not registered yet, and
    /// text that names a key the system can register.
    pub open spec fn registrable(self, key: Seq<char>) -> bool {
        !self.has_key(key) && hotkey_registration(key) is Some
    }

    /// The position of the first wanted key from `from` on that still has
    /// to be registered.
    pub open spec fn next_registrable(self, wanted: Seq<String>, from: int) -> Option<int>
        decreases wanted.len() - from,
    {
        if from < 0 || from >= wanted.len() {
            None
        } else if self.registrable(wanted[from]@) {
            Some(from)
        } else {
            self.next_registrable(wanted, from + 1)
        }
    }

    /// The next registration of a sync: the first wanted key from `from`
    /// on that still has to be registered, with the id handed out for it
    /// and its flags and key code. Nothing when no such key remains or no
    /// id is left. The caller registers it, records it on success, and asks
    /// again from the next position.
    pub fn claim_next(&mut self, wanted: &Vec<String>, from: usize) -> (r: Option<(usize, i32, u32, u32)>)
        requires
            old(self).wf(),
        ensures
            final(self).wf(),
            final(self).entries@ == old(self).entries@,
            r is None <==> (old(self).next_registrable(wanted@, from as int) is None
                || old(self).next_id == i32::MAX),
            r is None ==> final(self).next_id == old(self).next_id,
            r matches Some((k, id, mods, vk)) ==> {
                &&& old(self).next_registrable(wanted@, from as int) == Some(k as int)
                &&& k < wanted@.len()
                &&& hotkey_registration(wanted@[k as int]@) == Some((mods, vk))
                &&& id == old(self).next_id
                &&& final(self).next_id == old(self).next_id + 1
            },
            forall|ok: Seq<bool>|
                #![trigger sync_from(old(self).entries@, old(self).next_id, wanted@, from as int, ok)]
                sync_from(old(self).entries@, old(self).next_id, wanted@, from as int, ok) == match r {
                    None => (old(self).entries@, old(self).next_id),
                    Some((k, id, _, _)) => sync_from(
                        if ok[k as int] {
                            old(self).entries@.push((id, wanted@[k as int]))
                        } else {
                            old(self).entries@
                        },
                        (id + 1) as i32,
                        wanted@,
                        k + 1,
                        ok,
                    ),
                },
        decreases wanted@.len() - from,
    {
        let ghost es = self.entries@;
        let ghost next = self.next_id;
        if from >= wanted.len() {
            return None;
        }
        let key = &wanted[from];
        if !self.is_registered(key.as_str()) {
            match parse_keyboard_hotkey(key.as_str()) {
                Some((mods, vk)) => {
                    if !self.can_allocate() {
                        return None;
                    }
                    let id = self.allocate_id();
                    proof {
                        assert(!entries_have(es, wanted@[from as int]@));
                    }
                    return Some((from, id, mods, vk));
                },
                None => {},
            }
        }
        proof {
            assert forall|ok: Seq<bool>|
                #![trigger sync_from(es, next, wanted@, from as int, ok)]
                sync_from(es, next, wanted@, from as int, ok) == sync_from(
                    es,
                    next,
                    wanted@,
                    from + 1,
                    ok,
                ) by {
                if self.has_key(wanted@[from as int]@) {
                    assert(entries_have(es, wanted@[from as int]@));
                }
            }
        }
        self.claim_next(wanted, from + 1)
    }

    /// Records that `key` was registered under `id`.
    pub fn record(&mut self, id: i32, key: String)
        requires
            old(self).wf(),
            1 <= id < old(self).next_id,
            forall|j: int| 0 <= j < old(self).entries@.len() ==> (#[trigger] old(self).entries@[j]).0 != id,
            !old(self).has_key(key@),
        ensures
            final(self).wf(),
            final(self).next_id == old(self).next_id,
            final(self).entries@ == old(self).entries@.push((id, key)),
    {
        self.entries.push((id, key));
    }
}

/// What a registration records can be read back: after recording `key`
/// under `id`, looking up `id` finds `key`, and `key` counts as registered.
pub proof fn lemma_record_then_get(r: RegisteredHotkeys, id: i32, key: String)
    requires
        r.wf(),
        1 <= id < r.next_id,
        forall|j: int| 0 <= j < r.entries@.len() ==> (#[trigger] r.entries@[j]).0 != id,
        !r.has_key(key@),
    ensures
        ({
            let es = r.entries@.push((id, key));
            &&& exists|j: int| 0 <= j < es.len() && #[trigger] es[j] == (id, key)
            &&& forall|j: int| 0 <= j < es.len() && (#[trigger] es[j]).0 == id ==> es[j].1 == key
            &&& exists|j: int| 0 <= j < es.len() && (#[trigger] es[j]).1@ == key@
        }),
{
    let es = r.entries@.push((id, key));
    assert(es[es.len() - 1] == (id, key));
}

/// After forgetting the unwanted hotkeys, every remaining hotkey is wanted,
/// and every wanted hotkey that was registered still is.
pub proof fn lemma_remove_missing_keeps_wanted(es: Seq<(i32, String)>, wanted: Seq<String>)
    ensures
        forall|k: int|
            0 <= k < kept_entries(es, wanted).len() ==> listed(wanted, (#[trigger] kept_entries(es, wanted)[k]).1@),
        forall|j: int|
            0 <= j < es.len() && listed(wanted, (#[trigger] es[j]).1@) ==> kept_entries(es, wanted).contains(es[j]),
{
    lemma_kept_entries_subset(es, wanted);
}

/// Some entry holds `key`.
pub open spec fn entries_have(es: Seq<(i32, String)>, key: Seq<char>) -> bool {
    exists|j: int| 0 <= j < es.len() && (#[trigger] es[j]).1@ == key
}

/// A table of registrations is sound: ids from 1 up to below `next`, no id
/// and no key twice.
pub open spec fn table_wf(es: Seq<(i32, String)>, next: i32) -> bool {
    &&& next >= 1
    &&& forall|j: int| 0 <= j < es.len() ==> 1 <= (#[trigger] es[j]).0 < next
    &&& forall|a: int, b: int|
        0 <= a < b < es.len() ==> es[a].0 != es[b].0 && es[a].1@ != es[b].1@
}

/// The registrations after the rest of a sync, from position `from` of the
/// wanted keys on: each key that is not registered and names a key gets the
/// next id, and is recorded when the system accepted it (`ok`); the sync
/// stops when no id is left.
pub open spec fn sync_from(
    es: Seq<(i32, String)>,
    next: i32,
    wanted: Seq<String>,
    from: int,
    ok: Seq<bool>,
) -> (Seq<(i32, String)>, i32)
    decreases wanted.len() - from,
{
    if from < 0 || from >= wanted.len() {
        (es, next)
    } else if !entries_have(es, wanted[from]@) && hotkey_registration(wanted[from]@) is Some {
        if next == i32::MAX {
            (es, next)
        } else {
            sync_from(
                if ok[from] { es.push((next, wanted[from])) } else { es },
                (next + 1) as i32,
                wanted,
                from + 1,
                ok,
            )
        }
    } else {
        sync_from(es, next, wanted, from + 1, ok)
    }
}

/// The registrations after a whole sync: `remove_missing` drops the keys
/// no longer wanted, then `claim_next` and `record` take the wanted keys
/// in order, `ok[k]` saying whether the system accepted the `k`-th.
pub open spec fn synced(r: RegisteredHotkeys, wanted: Seq<String>, ok: Seq<bool>) -> (Seq<(i32, String)>, i32) {
    sync_from(kept_entries(r.entries@, wanted), r.next_id, wanted, 0, ok)
}

proof fn lemma_sync_from(es: Seq<(i32, String)>, next: i32, wanted: Seq<String>, from: int, ok: Seq<bool>)
    requires
        table_wf(es, next),
        0 <= from <= wanted.len(),
        ok.len() == wanted.len(),
        next + (wanted.len() - from) < i32::MAX,
        forall|a: int, b: int| 0 <= a < b < wanted.len() ==> wanted[a]@ != wanted[b]@,
    ensures
        ({
            let (es2, n2) = sync_from(es, next, wanted, from, ok);
            &&& table_wf(es2, n2)
            &&& n2 >= next
            &&& forall|e: (i32, String)| es.contains(e) ==> es2.contains(e)
            &&& forall|e: (i32, String)|
                es2.contains(e) && !es.contains(e) ==> e.0 >= next && exists|k: int|
                    from <= k < wanted.len() && (#[trigger] wanted[k])@ == e.1@
            &&& forall|k: int|
                from <= k < wanted.len() ==> (entries_have(es2, (#[trigger] wanted[k])@) <==> (
                entries_have(es, wanted[k]@) || (hotkey_registration(wanted[k]@) is Some && ok[k])))
        }),
    decreases wanted.len() - from,
{
    if from < wanted.len() {
        let w = wanted[from];
        if !entries_have(es, w@) && hotkey_registration(w@) is Some {
            let es1 = if ok[from] { es.push((next, w)) } else { es };
            let n1 = (next + 1) as i32;
            assert(table_wf(es1, n1)) by {
                if ok[from] {
                    assert forall|a: int, b: int| 0 <= a < b < es1.len() implies es1[a].0 != es1[b].0
                        && es1[a].1@ != es1[b].1@ by {
                        if b == es.len() {
                            assert(es1[a] == es[a]);
                            assert(es[a].1@ != w@);
                        }
                    }
                }
            }
            lemma_sync_from(es1, n1, wanted, from + 1, ok);
            let (es2, n2) = sync_from(es1, n1, wanted, from + 1, ok);
            assert forall|e: (i32, String)| es.contains(e) implies es2.contains(e) by {
                if ok[from] {
                    let j = choose|j: int| 0 <= j < es.len() && es[j] == e;
                    assert(es1[j] == e);
                }
            }
            assert forall|e: (i32, String)| es2.contains(e) && !es.contains(e) implies e.0 >= next
                && exists|k: int| from <= k < wanted.len() && (#[trigger] wanted[k])@ == e.1@ by {
                if es1.contains(e) {
                    let j = choose|j: int| 0 <= j < es1.len() && es1[j] == e;
                    if j < es.len() {
                        assert(es[j] == e);
                    }
                    assert(e == (next, w));
                    assert(wanted[from]@ == e.1@);
                }
            }
            assert forall|k: int| from <= k < wanted.len() implies (entries_have(es2, (#[trigger] wanted[k])@)
                <==> (entries_have(es, wanted[k]@) || (hotkey_registration(wanted[k]@) is Some && ok[k]))) by {
                if k == from {
                    // later additions hold later keys, which differ from this one
                    if entries_have(es2, w@) && !entries_have(es1, w@) {
                        let j = choose|j: int| 0 <= j < es2.len() && (#[trigger] es2[j]).1@ == w@;
                        let e = es2[j];
                        assert(es2.contains(e));
                        if es1.contains(e) {
                            let i = choose|i: int| 0 <= i < es1.len() && es1[i] == e;
                            assert(es1[i].1@ == w@);
                        }
                        let kk = choose|kk: int| from + 1 <= kk < wanted.len() && (#[trigger] wanted[kk])@ == e.1@;
                        assert(wanted[from]@ != wanted[kk]@);
                    }
                    if entries_have(es1, w@) {
                        let j = choose|j: int| 0 <= j < es1.len() && (#[trigger] es1[j]).1@ == w@;
                        assert(es1.contains(es1[j]));
                        assert(es2.contains(es1[j]));
                        let i = choose|i: int| 0 <= i < es2.len() && es2[i] == es1[j];
                        assert(es2[i].1@ == w@);
                        if j < es.len() {
                            assert(es[j] == es1[j]);
                        }
                    }
                    if ok[from] {
                        assert(es1[es.len() as int] == (next, w));
                    }
                } else {
                    if ok[from] {
                        if entries_have(es1, wanted[k]@) {
                            let j = choose|j: int| 0 <= j < es1.len() && (#[trigger] es1[j]).1@ == wanted[k]@;
                            if j == es.len() {
                                assert(wanted[from]@ != wanted[k]@);
                            } else {
                                assert(es[j] == es1[j]);
                            }
                        }
                        if entries_have(es, wanted[k]@) {
                            let j = choose|j: int| 0 <= j < es.len() && (#[trigger] es[j]).1@ == wanted[k]@;
                            assert(es1[j] == es[j]);
                        }
                    }
                }
            }
        } else {
            lemma_sync_from(es, next, wanted, from + 1, ok);
            let (es2, n2) = sync_from(es, next, wanted, from + 1, ok);
            assert forall|k: int| from <= k < wanted.len() implies (entries_have(es2, (#[trigger] wanted[k])@)
                <==> (entries_have(es, wanted[k]@) || (hotkey_registration(wanted[k]@) is Some && ok[k]))) by {
                if k == from {
                    if entries_have(es2, w@) && !entries_have(es, w@) {
                        let j = choose|j: int| 0 <= j < es2.len() && (#[trigger] es2[j]).1@ == w@;
                        let e = es2[j];
                        assert(es2.contains(e));
                        if es.contains(e) {
                            let i = choose|i: int| 0 <= i < es.len() && es[i] == e;
                            assert(es[i].1@ == w@);
                        }
                        let kk = choose|kk: int| from + 1 <= kk < wanted.len() && (#[trigger] wanted[kk])@ == e.1@;
                        assert(wanted[from]@ != wanted[kk]@);
                    }
                    if entries_have(es, w@) {
                        let j = choose|j: int| 0 <= j < es.len() && (#[trigger] es[j]).1@ == w@;
                        assert(es.contains(es[j]));
                        let i = choose|i: int| 0 <= i < es2.len() && es2[i] == es[j];
                        assert(es2[i].1@ == w@);
                    }
                }
            }
            assert forall|e: (i32, String)| es2.contains(e) && !es.contains(e) implies e.0 >= next
                && exists|k: int| from <= k < wanted.len() && (#[trigger] wanted[k])@ == e.1@ by {
                let kk = choose|kk: int| from + 1 <= kk < wanted.len() && (#[trigger] wanted[kk])@ == e.1@;
                assert(from <= kk < wanted.len() && wanted[kk]@ == e.1@);
            }
        }
    }
}

/// A whole sync of the system hotkeys, for distinct wanted keys while ids
/// last: the table stays sound; the registered keys that are still wanted
/// keep their ids, and the others (exactly those whose ids `remove_missing`
/// returns to be unregistered) are gone; every key left is wanted; and a
/// wanted key is registered afterwards exactly when it was before, or it
/// names a key and the system accepted it, in which case it got a fresh id
/// at or above the old next id.
pub proof fn lemma_sync_registers_wanted_keys(r: RegisteredHotkeys, wanted: Seq<String>, ok: Seq<bool>)
    requires
        r.wf(),
        ok.len() == wanted.len(),
        r.next_id + wanted.len() < i32::MAX,
        forall|a: int, b: int| 0 <= a < b < wanted.len() ==> wanted[a]@ != wanted[b]@,
    ensures
        ({
            let (es, n) = synced(r, wanted, ok);
            &&& table_wf(es, n)
            &&& n >= r.next_id
            &&& forall|j: int|
                0 <= j < r.entries@.len() ==> (es.contains(#[trigger] r.entries@[j]) <==> listed(
                    wanted,
                    r.entries@[j].1@,
                ))
            &&& forall|e: (i32, String)| #[trigger] es.contains(e) ==> listed(wanted, e.1@)
            &&& forall|e: (i32, String)| es.contains(e) && !r.entries@.contains(e) ==> e.0 >= r.next_id
            &&& forall|k: int|
                0 <= k < wanted.len() ==> (entries_have(es, (#[trigger] wanted[k])@) <==> (r.has_key(
                    wanted[k]@,
                ) || (hotkey_registration(wanted[k]@) is Some && ok[k])))
        }),
{
    let old_es = r.entries@;
    let kept = kept_entries(old_es, wanted);
    lemma_kept_entries_subset(old_es, wanted);
    assert(table_wf(kept, r.next_id)) by {
        assert forall|j: int| 0 <= j < kept.len() implies 1 <= (#[trigger] kept[j]).0 < r.next_id by {
            assert(old_es.contains(kept[j]));
        }
        assert forall|a: int, b: int| 0 <= a < b < kept.len() implies kept[a].0 != kept[b].0
            && kept[a].1@ != kept[b].1@ by {
            let (x, y) = choose|x: int, y: int|
                #![trigger old_es[x], old_es[y]]
                0 <= x < y < old_es.len() && old_es[x] == kept[a] && old_es[y] == kept[b];
        }
    }
    lemma_sync_from(kept, r.next_id, wanted, 0, ok);
    let (es, n) = synced(r, wanted, ok);
    assert forall|e: (i32, String)| #[trigger] es.contains(e) implies listed(wanted, e.1@) by {
        if kept.contains(e) {
            let k = choose|k: int| 0 <= k < kept.len() && kept[k] == e;
            assert(listed(wanted, kept[k].1@));
        } else {
            let k = choose|k: int| 0 <= k < wanted.len() && (#[trigger] wanted[k])@ == e.1@;
        }
    }
    assert forall|j: int| 0 <= j < old_es.len() implies (es.contains(#[trigger] old_es[j]) <==> listed(
        wanted,
        old_es[j].1@,
    )) by {
        if listed(wanted, old_es[j].1@) {
            assert(kept.contains(old_es[j]));
        }
    }
    assert forall|e: (i32, String)| es.contains(e) && !old_es.contains(e) implies e.0 >= r.next_id by {
        if kept.contains(e) {
            let k = choose|k: int| 0 <= k < kept.len() && kept[k] == e;
            assert(old_es.contains(kept[k]));
        }
    }
    assert forall|k: int| 0 <= k < wanted.len() implies (entries_have(kept, (#[trigger] wanted[k])@)
        <==> r.has_key(wanted[k]@)) by {
        if entries_have(kept, wanted[k]@) {
            let j = choose|j: int| 0 <= j < kept.len() && (#[trigger] kept[j]).1@ == wanted[k]@;
            assert(old_es.contains(kept[j]));
            let i = choose|i: int| 0 <= i < old_es.len() && old_es[i] == kept[j];
            assert(old_es[i].1@ == wanted[k]@);
        }
        if r.has_key(wanted[k]@) {
            let j = choose|j: int| 0 <= j < old_es.len() && (#[trigger] old_es[j]).1@ == wanted[k]@;
            assert(listed(wanted, old_es[j].1@));
            assert(kept.contains(old_es[j]));
            let i = choose|i: int| 0 <= i < kept.len() && kept[i] == old_es[j];
            assert(kept[i].1@ == wanted[k]@);
        }
    }
}

/// Each key name stands for its Windows virtual-key code (`VK_F1` to
/// `VK_F12`, `VK_SPACE`, `VK_RETURN`, `VK_ESCAPE`, `VK_BACK`, `VK_TAB`, the
/// arrows `VK_LEFT`, `VK_RIGHT`, `VK_UP`, `VK_DOWN`, `VK_INSERT`,
/// `VK_DELETE`, `VK_HOME`, `VK_END`, `VK_PRIOR` and `VK_NEXT`), and each of
/// these codes is written back as that name; a capital letter or a digit
/// stands for its own character code, and those codes are written as the
/// character. Modifier names and mouse buttons have no key code.
pub proof fn lemma_key_codes(c: char)
    ensures
        key_code("F1"@) == Some(0x70i32),
        key_name(0x70i32) == Some("F1"@),
        key_code("F2"@) == Some(0x71i32),
        key_name(0x71i32) == Some("F2"@),
        key_code("F3"@) == Some(0x72i32),
        key_name(0x72i32) == Some("F3"@),
        key_code("F4"@) == Some(0x73i32),
        key_name(0x73i32) == Some("F4"@),
        key_code("F5"@) == Some(0x74i32),
        key_name(0x74i32) == Some("F5"@),
        key_code("F6"@) == Some(0x75i32),
        key_name(0x75i32) == Some("F6"@),
        key_code("F7"@) == Some(0x76i32),
        key_name(0x76i32) == Some("F7"@),
        key_code("F8"@) == Some(0x77i32),
        key_name(0x77i32) == Some("F8"@),
        key_code("F9"@) == Some(0x78i32),
        key_name(0x78i32) == Some("F9"@),
        key_code("F10"@) == Some(0x79i32),
        key_name(0x79i32) == Some("F10"@),
        key_code("F11"@) == Some(0x7Ai32),
        key_name(0x7Ai32) == Some("F11"@),
        key_code("F12"@) == Some(0x7Bi32),
        key_name(0x7Bi32) == Some("F12"@),
        key_code("Space"@) == Some(0x20i32),
        key_name(0x20i32) == Some("Space"@),
        key_code("Enter"@) == Some(0x0Di32),
        key_name(0x0Di32) == Some("Enter"@),
        key_code("Esc"@) == Some(0x1Bi32),
        key_name(0x1Bi32) == Some("Esc"@),
        key_code("Backspace"@) == Some(0x08i32),
        key_name(0x08i32) == Some("Backspace"@),
        key_code("Tab"@) == Some(0x09i32),
        key_name(0x09i32) == Some("Tab"@),
        key_code("Left"@) == Some(0x25i32),
        key_name(0x25i32) == Some("Left"@),
        key_code("Right"@) == Some(0x27i32),
        key_name(0x27i32) == Some("Right"@),
        key_code("Up"@) == Some(0x26i32),
        key_name(0x26i32) == Some("Up"@),
        key_code("Down"@) == Some(0x28i32),
        key_name(0x28i32) == Some("Down"@),
        key_code("Insert"@) == Some(0x2Di32),
        key_name(0x2Di32) == Some("Insert"@),
        key_code("Delete"@) == Some(0x2Ei32),
        key_name(0x2Ei32) == Some("Delete"@),
        key_code("Home"@) == Some(0x24i32),
        key_name(0x24i32) == Some("Home"@),
        key_code("End"@) == Some(0x23i32),
        key_name(0x23i32) == Some("End"@),
        key_code("PageUp"@) == Some(0x21i32),
        key_name(0x21i32) == Some("PageUp"@),
        key_code("PageDown"@) == Some(0x22i32),
        key_name(0x22i32) == Some("PageDown"@),
        (is_upper(c) || is_ascii_digit(c)) ==> key_code(seq![c]) == Some(c as i32)
            && key_name(c as i32) == Some(seq![c]),
        key_code("Ctrl"@) is None,
        key_code("Alt"@) is None,
        key_code("Shift"@) is None,
        key_code("Middle"@) is None,
        key_code("XButton1"@) is None,
        key_code("XButton2"@) is None,
{
    lemma_name_literals();
    if is_upper(c) || is_ascii_digit(c) {
        assert(seq![c].len() == 1 && seq![c][0] == c);
        assert(seq![(c as i32) as char] =~= seq![c]);
    }
}

} // verus!

//! The hotkey that shows and hides the window: how it is stored, shown and taken down. It is a
//! key combination, or a mouse button other than the left and the right one.

use vstd::prelude::*;

use crate::hotkey_mouse_win::MouseWatch;
use crate::numbers::{parse_i32, written_i32};
use crate::text::{
    after, concat, join, joined, opt_text, part_if, push_part, same_text, starts_with, strip_prefix,
    to_chars,
};

verus! {

// ---------------------------------------------------------------------------------------------
// Bindings
// ---------------------------------------------------------------------------------------------

/// The modifier keys that are held down.
#[derive(Debug, Clone, Copy, PartialEq, Eq, Structural)]
pub struct ModifierKeys {
    pub shift: bool,
    pub control: bool,
    pub alt: bool,
    /// The key with the system's logo.
    pub logo: bool,
}

/// A key, named as in the UI Events code values, and the modifier keys held with it.
#[derive(Debug)]
pub struct KeyCombo {
    pub mods: ModifierKeys,
    pub key: String,
}

impl View for KeyCombo {
    type V = (ModifierKeys, Seq<char>);

    open spec fn view(&self) -> (ModifierKeys, Seq<char>) {
        (self.mods, self.key@)
    }
}

impl Clone for KeyCombo {
    fn clone(&self) -> (r: Self)
        ensures
            r == *self,
    {
        KeyCombo { mods: self.mods, key: self.key.clone() }
    }
}

/// The mouse buttons that can be a hotkey.
#[derive(Debug, Clone, Copy, PartialEq, Eq, Structural)]
pub enum MouseButton {
    Middle,
    X1,
    X2,
}

/// What the hotkey is bound to.
#[derive(Debug)]
pub enum HotkeyBinding {
    Keyboard(KeyCombo),
    Mouse(MouseButton),
}

/// What a hotkey is bound to, with the key as its name.
pub enum Binding {
    Keyboard(ModifierKeys, Seq<char>),
    Mouse(MouseButton),
}

impl View for HotkeyBinding {
    type V = Binding;

    open spec fn view(&self) -> Binding {
        match self {
            HotkeyBinding::Keyboard(c) => Binding::Keyboard(c.mods, c.key@),
            HotkeyBinding::Mouse(b) => Binding::Mouse(*b),
        }
    }
}

impl Clone for HotkeyBinding {
    fn clone(&self) -> (r: Self)
        ensures
            r == *self,
    {
        match self {
            HotkeyBinding::Keyboard(c) => HotkeyBinding::Keyboard(c.clone()),
            HotkeyBinding::Mouse(b) => HotkeyBinding::Mouse(*b),
        }
    }
}

// ---------------------------------------------------------------------------------------------
// Keys
// ---------------------------------------------------------------------------------------------

/// Whether `name` is `prefix` and one more character from `lo` to `hi`.
pub open spec fn one_more(name: Seq<char>, prefix: Seq<char>, lo: char, hi: char) -> bool {
    &&& name.len() == prefix.len() + 1
    &&& starts_with(name, prefix)
    &&& lo <= name.last() <= hi
}

fn is_one_more(name: &Vec<char>, prefix: &str, lo: char, hi: char) -> (r: bool)
    ensures
        r == one_more(name@, prefix@, lo, hi),
{
    let p = to_chars(prefix);
    if p.len() >= name.len() || name.len() - p.len() != 1 {
        return false;
    }
    crate::text::stands_at(name, &p, 0) && lies_between(name[name.len() - 1], lo, hi)
}

fn lies_between(c: char, lo: char, hi: char) -> (r: bool)
    ensures
        r == (lo <= c <= hi),
{
    lo <= c && c <= hi
}

/// Whether the key is one of the first twelve function keys.
pub open spec fn function_key(name: Seq<char>) -> bool {
    one_more(name, "F"@, '1', '9') || one_more(name, "F1"@, '0', '2')
}

/// Whether the key is a key of the main block, the arrows, the number pad or the function row
/// that can be recorded as a hotkey.
pub open spec fn capturable(name: Seq<char>) -> bool {
    ||| one_more(name, "Key"@, 'A', 'Z')
    ||| one_more(name, "Digit"@, '0', '9')
    ||| one_more(name, "Numpad"@, '0', '9')
    ||| function_key(name)
    ||| punctuation_key(name)
    ||| editing_key(name)
    ||| number_pad_key(name)
}

/// The keys of punctuation marks.
pub open spec fn punctuation_key(name: Seq<char>) -> bool {
    name == "Backquote"@ || name == "Backslash"@ || name == "BracketLeft"@ || name
        == "BracketRight"@ || name == "Comma"@ || name == "Equal"@ || name == "Minus"@ || name
        == "Period"@ || name == "Quote"@ || name == "Semicolon"@ || name == "Slash"@
}

/// The keys that move, edit or control.
pub open spec fn editing_key(name: Seq<char>) -> bool {
    name == "Backspace"@ || name == "CapsLock"@ || name == "Enter"@ || name == "Space"@ || name
        == "Tab"@ || name == "Delete"@ || name == "End"@ || name == "Home"@ || name == "Insert"@
        || name == "PageDown"@ || name == "PageUp"@ || name == "PrintScreen"@ || name
        == "ScrollLock"@ || name == "ArrowDown"@ || name == "ArrowLeft"@ || name == "ArrowRight"@
        || name == "ArrowUp"@ || name == "Escape"@ || name == "Pause"@
}

/// The keys of the number pad other than the digits.
pub open spec fn number_pad_key(name: Seq<char>) -> bool {
    name == "NumLock"@ || name == "NumpadAdd"@ || name == "NumpadDecimal"@ || name
        == "NumpadDivide"@ || name == "NumpadMultiply"@ || name == "NumpadSubtract"@ || name
        == "NumpadEnter"@
}

fn is_function_key(name: &Vec<char>) -> (r: bool)
    ensures
        r == function_key(name@),
{
    is_one_more(name, "F", '1', '9') || is_one_more(name, "F1", '0', '2')
}

fn is_punctuation_key(name: &str) -> (r: bool)
    ensures
        r == punctuation_key(name@),
{
    same_text(name, "Backquote") || same_text(name, "Backslash") || same_text(name, "BracketLeft")
        || same_text(name, "BracketRight") || same_text(name, "Comma") || same_text(name, "Equal")
        || same_text(name, "Minus") || same_text(name, "Period") || same_text(name, "Quote")
        || same_text(name, "Semicolon") || same_text(name, "Slash")
}

fn is_editing_key(name: &str) -> (r: bool)
    ensures
        r == editing_key(name@),
{
    same_text(name, "Backspace") || same_text(name, "CapsLock") || same_text(name, "Enter")
        || same_text(name, "Space") || same_text(name, "Tab") || same_text(name, "Delete")
        || same_text(name, "End") || same_text(name, "Home") || same_text(name, "Insert")
        || same_text(name, "PageDown") || same_text(name, "PageUp") || same_text(
        name,
        "PrintScreen",
    ) || same_text(name, "ScrollLock") || same_text(name, "ArrowDown") || same_text(
        name,
        "ArrowLeft",
    ) || same_text(name, "ArrowRight") || same_text(name, "ArrowUp") || same_text(name, "Escape")
        || same_text(name, "Pause")
}

fn is_number_pad_key(name: &str) -> (r: bool)
    ensures
        r == number_pad_key(name@),
{
    same_text(name, "NumLock") || same_text(name, "NumpadAdd") || same_text(name, "NumpadDecimal")
        || same_text(name, "NumpadDivide") || same_text(name, "NumpadMultiply") || same_text(
        name,
        "NumpadSubtract",
    ) || same_text(name, "NumpadEnter")
}

/// The name of the key that was pressed, where it is known and can be recorded as a hotkey.
pub fn winit_physical_key_to_code(key: Option<&str>) -> (r: Option<String>)
    ensures
        match key {
            Some(name) => opt_text(r) == (if capturable(name@) {
                Some(name@)
            } else {
                None
            }),
            None => r is None,
        },
{
    match key {
        Some(name) => {
            let chars = to_chars(name);
            if is_one_more(&chars, "Key", 'A', 'Z') || is_one_more(&chars, "Digit", '0', '9')
                || is_one_more(&chars, "Numpad", '0', '9') || is_function_key(&chars)
                || is_punctuation_key(name) || is_editing_key(name) || is_number_pad_key(name) {
                Some(name.to_owned())
            } else {
                None
            }
        },
        None => None,
    }
}

/// The modifier keys that are held down.
pub fn winit_modifiers(shift: bool, control: bool, alt: bool, logo: bool) -> (r: ModifierKeys)
    ensures
        r == (ModifierKeys { shift, control, alt, logo }),
{
    ModifierKeys { shift, control, alt, logo }
}

/// Whether the key only modifies others, and so makes no hotkey by itself.
pub open spec fn modifier_key(name: Seq<char>) -> bool {
    name == "ShiftLeft"@ || name == "ShiftRight"@ || name == "ControlLeft"@ || name
        == "ControlRight"@ || name == "AltLeft"@ || name == "AltRight"@ || name == "MetaLeft"@
        || name == "MetaRight"@
}

/// Whether the key only modifies others.
pub fn is_modifier_code(code: &str) -> (r: bool)
    ensures
        r == modifier_key(code@),
{
    same_text(code, "ShiftLeft") || same_text(code, "ShiftRight") || same_text(code, "ControlLeft")
        || same_text(code, "ControlRight") || same_text(code, "AltLeft") || same_text(
        code,
        "AltRight",
    ) || same_text(code, "MetaLeft") || same_text(code, "MetaRight")
}

/// A key that can be recorded as a hotkey is none that only modifies others.
pub proof fn capturable_key_stands_by_itself(name: Seq<char>)
    requires
        capturable(name),
    ensures
        !modifier_key(name),
{
    reveal_strlit("ShiftLeft");
    reveal_strlit("ShiftRight");
    reveal_strlit("ControlLeft");
    reveal_strlit("ControlRight");
    reveal_strlit("AltLeft");
    reveal_strlit("AltRight");
    reveal_strlit("MetaLeft");
    reveal_strlit("MetaRight");
    if modifier_key(name) {
        assert(name.last() == 't');
        assert(name.len() >= 7);
        modifier_is_no_row_key(name);
        modifier_is_no_named_key(name);
    }
}

proof fn modifier_is_no_row_key(name: Seq<char>)
    requires
        name.last() == 't',
        name.len() >= 7,
    ensures
        !one_more(name, "Key"@, 'A', 'Z'),
        !one_more(name, "Digit"@, '0', '9'),
        !one_more(name, "Numpad"@, '0', '9'),
        !function_key(name),
{
    reveal_strlit("Key");
}

proof fn modifier_is_no_named_key(name: Seq<char>)
    requires
        modifier_key(name),
    ensures
        !punctuation_key(name),
        !editing_key(name),
        !number_pad_key(name),
{
    reveal_strlit("ShiftLeft");
    reveal_strlit("ShiftRight");
    reveal_strlit("ControlLeft");
    reveal_strlit("ControlRight");
    reveal_strlit("AltLeft");
    reveal_strlit("AltRight");
    reveal_strlit("MetaLeft");
    reveal_strlit("MetaRight");
    // No named key begins with the letters with which a modifier begins.
    assert(name[0] == 'S' && name[1] == 'h' || name[0] == 'C' && name[1] == 'o' && name[2] == 'n'
        || name[0] == 'A' && name[1] == 'l' || name[0] == 'M' && name[1] == 'e');
    reveal_strlit("Backquote");
    reveal_strlit("Backslash");
    reveal_strlit("BracketLeft");
    reveal_strlit("BracketRight");
    reveal_strlit("Comma");
    reveal_strlit("Equal");
    reveal_strlit("Minus");
    reveal_strlit("Period");
    reveal_strlit("Quote");
    reveal_strlit("Semicolon");
    reveal_strlit("Slash");
    reveal_strlit("Backspace");
    reveal_strlit("CapsLock");
    reveal_strlit("Enter");
    reveal_strlit("Space");
    reveal_strlit("Tab");
    reveal_strlit("Delete");
    reveal_strlit("End");
    reveal_strlit("Home");
    reveal_strlit("Insert");
    reveal_strlit("PageDown");
    reveal_strlit("PageUp");
    reveal_strlit("PrintScreen");
    reveal_strlit("ScrollLock");
    reveal_strlit("ArrowDown");
    reveal_strlit("ArrowLeft");
    reveal_strlit("ArrowRight");
    reveal_strlit("ArrowUp");
    reveal_strlit("Escape");
    reveal_strlit("Pause");
    reveal_strlit("NumLock");
    reveal_strlit("NumpadAdd");
    reveal_strlit("NumpadDecimal");
    reveal_strlit("NumpadDivide");
    reveal_strlit("NumpadMultiply");
    reveal_strlit("NumpadSubtract");
    reveal_strlit("NumpadEnter");
}

// ---------------------------------------------------------------------------------------------
// Stored form
// ---------------------------------------------------------------------------------------------

/// The modifier keys as written before a key.
pub open spec fn modifiers_text(m: ModifierKeys) -> Seq<char> {
    (if m.shift {
        "shift+"@
    } else {
        Seq::empty()
    }) + (if m.control {
        "control+"@
    } else {
        Seq::empty()
    }) + (if m.alt {
        "alt+"@
    } else {
        Seq::empty()
    }) + (if m.logo {
        "super+"@
    } else {
        Seq::empty()
    })
}

/// A key combination as written: the modifier keys, each followed by a plus sign, and the key.
pub open spec fn combo_text(m: ModifierKeys, key: Seq<char>) -> Seq<char> {
    modifiers_text(m) + key
}

fn push_if(s: &mut String, on: bool, t: &str)
    ensures
        final(s)@ == old(s)@ + (if on {
            t@
        } else {
            Seq::empty()
        }),
{
    if on {
        s.append(t);
    }
}

fn write_combo(c: &KeyCombo) -> (r: String)
    ensures
        r@ == combo_text(c.mods, c.key@),
{
    let mut s = String::new();
    push_if(&mut s, c.mods.shift, "shift+");
    push_if(&mut s, c.mods.control, "control+");
    push_if(&mut s, c.mods.alt, "alt+");
    push_if(&mut s, c.mods.logo, "super+");
    s.append(c.key.as_str());
    assert(s@ =~= combo_text(c.mods, c.key@));
    s
}

/// The combination that a text is read as: whether shift, control, alt and the logo key are
/// held, and the name of the key. The modifier that is written as command or control is read by
/// the custom of the system that the crate is built for.
pub uninterp spec fn parsed_hotkey(text: Seq<char>) -> Option<(bool, bool, bool, bool, Seq<char>)>;

/// Whether shift, control, alt and the logo key are held, and the name of the key.
pub open spec fn combo_parts(c: Option<KeyCombo>) -> Option<(bool, bool, bool, bool, Seq<char>)> {
    match c {
        Some(c) => Some((c.mods.shift, c.mods.control, c.mods.alt, c.mods.logo, c.key@)),
        None => None,
    }
}

/// `HotKey::from_str` reads modifier names and a key name, separated by plus signs, without
/// regard to case and with some other names for keys. The modifiers are read through
/// `Modifiers::contains`, the key's name through the text form of `Code`. What is written for a
/// capturable key, each modifier at most once and in the order of its own text form, is read back
/// as it was.
#[verifier::external_body]
fn read_combo(text: &str) -> (r: Option<KeyCombo>)
    ensures
        combo_parts(r) == parsed_hotkey(text@),
        forall|m: ModifierKeys, key: Seq<char>|
            (capturable(key) && text@ == #[trigger] combo_text(m, key)) ==> combo_parts(r) == Some(
                (m.shift, m.control, m.alt, m.logo, key),
            ),
{
    let hk = <global_hotkey::hotkey::HotKey as std::str::FromStr>::from_str(text).ok()?;
    let mods = ModifierKeys {
        shift: hk.mods.contains(global_hotkey::hotkey::Modifiers::SHIFT),
        control: hk.mods.contains(global_hotkey::hotkey::Modifiers::CONTROL),
        alt: hk.mods.contains(global_hotkey::hotkey::Modifiers::ALT),
        logo: hk.mods.contains(global_hotkey::hotkey::Modifiers::SUPER),
    };
    Some(KeyCombo { mods, key: hk.key.to_string() })
}

/// The name under which a mouse button is stored.
pub open spec fn button_name(b: MouseButton) -> Seq<char> {
    match b {
        MouseButton::Middle => "middle"@,
        MouseButton::X1 => "x1"@,
        MouseButton::X2 => "x2"@,
    }
}

/// A binding as stored: what it is bound to, behind a prefix that tells keys from buttons.
pub open spec fn binding_text(b: Binding) -> Seq<char> {
    match b {
        Binding::Keyboard(m, key) => "kb:"@ + combo_text(m, key),
        Binding::Mouse(b) => "mouse:"@ + button_name(b),
    }
}

/// The binding that a stored text stands for, if any.
pub open spec fn stored_binding(s: Seq<char>) -> Option<Binding> {
    if starts_with(s, "kb:"@) {
        match parsed_hotkey(after(s, "kb:"@.len() as int)) {
            Some((shift, control, alt, logo, key)) => Some(
                Binding::Keyboard(ModifierKeys { shift, control, alt, logo }, key),
            ),
            None => None,
        }
    } else if starts_with(s, "mouse:"@) {
        let rest = after(s, "mouse:"@.len() as int);
        if rest == "middle"@ {
            Some(Binding::Mouse(MouseButton::Middle))
        } else if rest == "x1"@ {
            Some(Binding::Mouse(MouseButton::X1))
        } else if rest == "x2"@ {
            Some(Binding::Mouse(MouseButton::X2))
        } else {
            None
        }
    } else {
        None
    }
}

/// Whether the binding is one that can be recorded: any mouse button, and any capturable key.
pub open spec fn recordable(b: Binding) -> bool {
    b matches Binding::Keyboard(m, key) ==> capturable(key)
}

proof fn buttons_are_told_apart()
    ensures
        "middle"@ != "x1"@,
        "middle"@ != "x2"@,
        "x1"@ != "x2"@,
        forall|rest: Seq<char>| !starts_with(#[trigger] ("mouse:"@ + rest), "kb:"@),
        forall|rest: Seq<char>| starts_with(#[trigger] ("mouse:"@ + rest), "mouse:"@),
        forall|rest: Seq<char>| after(#[trigger] ("mouse:"@ + rest), "mouse:"@.len() as int) == rest,
        forall|rest: Seq<char>| starts_with(#[trigger] ("kb:"@ + rest), "kb:"@),
        forall|rest: Seq<char>| after(#[trigger] ("kb:"@ + rest), "kb:"@.len() as int) == rest,
{
    reveal_strlit("middle");
    reveal_strlit("x1");
    reveal_strlit("x2");
    reveal_strlit("mouse:");
    reveal_strlit("kb:");
    assert("middle"@.len() != "x1"@.len());
    assert("x1"@[1] != "x2"@[1]);
    assert forall|rest: Seq<char>| true implies !starts_with(
        #[trigger] ("mouse:"@ + rest),
        "kb:"@,
    ) && starts_with(("mouse:"@ + rest), "mouse:"@) && after(
        ("mouse:"@ + rest),
        "mouse:"@.len() as int,
    ) == rest by {
        crate::text::prefix_then_rest("mouse:"@, rest);
        assert(("mouse:"@ + rest)[0] == 'm');
        assert("kb:"@[0] == 'k');
    }
    assert forall|rest: Seq<char>| true implies starts_with(#[trigger] ("kb:"@ + rest), "kb:"@)
        && after(("kb:"@ + rest), "kb:"@.len() as int) == rest by {
        crate::text::prefix_then_rest("kb:"@, rest);
    }
}

/// The binding that the stored text stands for; none where nothing is stored or the text is not
/// understood. What was stored for a binding that can be recorded is read back as that binding.
pub fn binding_from_storage(raw: &Option<String>) -> (r: Option<HotkeyBinding>)
    ensures
        raw is None ==> r is None,
        raw matches Some(s) ==> match r {
            Some(b) => stored_binding(s@) == Some(b@),
            None => stored_binding(s@) is None,
        },
        forall|x: Binding|
            recordable(x) && raw is Some && raw->0@ == #[trigger] binding_text(x) ==> r is Some
                && r->0@ == x,
{
    proof {
        buttons_are_told_apart();
    }
    match raw {
        None => None,
        Some(s) => {
            if let Some(rest) = strip_prefix(s.as_str(), "kb:") {
                proof {
                    assert forall|b: Binding| s@ == #[trigger] binding_text(b) implies b
                        is Keyboard by {}
                }
                return match read_combo(rest.as_str()) {
                    Some(c) => Some(HotkeyBinding::Keyboard(c)),
                    None => None,
                };
            }
            if let Some(rest) = strip_prefix(s.as_str(), "mouse:") {
                if same_text(rest.as_str(), "middle") {
                    return Some(HotkeyBinding::Mouse(MouseButton::Middle));
                }
                if same_text(rest.as_str(), "x1") {
                    return Some(HotkeyBinding::Mouse(MouseButton::X1));
                }
                if same_text(rest.as_str(), "x2") {
                    return Some(HotkeyBinding::Mouse(MouseButton::X2));
                }
            }
            None
        },
    }
}

/// The binding as it is stored.
pub fn binding_to_storage(b: &HotkeyBinding) -> (r: String)
    ensures
        r@ == binding_text(b@),
{
    match b {
        HotkeyBinding::Keyboard(c) => {
            let text = write_combo(c);
            concat("kb:", text.as_str())
        },
        HotkeyBinding::Mouse(MouseButton::Middle) => concat("mouse:", "middle"),
        HotkeyBinding::Mouse(MouseButton::X1) => concat("mouse:", "x1"),
        HotkeyBinding::Mouse(MouseButton::X2) => concat("mouse:", "x2"),
    }
}

/// The stored text that a choice of an earlier version stands for: those were numbered.
pub open spec fn migrated(s: Seq<char>) -> Seq<char> {
    if starts_with(s, "preset:"@) {
        match written_i32(after(s, "preset:"@.len() as int)) {
            Some(n) => if n == 1 {
                "kb:alt+Space"@
            } else if n == 2 {
                "kb:alt+Digit1"@
            } else {
                "kb:alt+Backquote"@
            },
            None => s,
        }
    } else {
        s
    }
}

/// Rewrites the stored text of an earlier version.
pub fn migrate_legacy_hotkey(hotkey: &mut Option<String>)
    ensures
        match *old(hotkey) {
            Some(s) => opt_text(*final(hotkey)) == Some(migrated(s@)),
            None => *final(hotkey) is None,
        },
{
    let mut next: Option<String> = None;
    if let Some(s) = hotkey.as_ref() {
        if let Some(rest) = strip_prefix(s.as_str(), "preset:") {
            if let Some(n) = parse_i32(rest.as_str()) {
                next = Some(
                    match n {
                        1 => "kb:alt+Space".to_owned(),
                        2 => "kb:alt+Digit1".to_owned(),
                        _ => "kb:alt+Backquote".to_owned(),
                    },
                );
            }
        }
    }
    if next.is_some() {
        *hotkey = next;
    }
}

/// A text that was rewritten is rewritten no further.
pub proof fn migrated_text_stays(s: Seq<char>)
    ensures
        migrated(migrated(s)) == migrated(s),
{
    reveal_strlit("preset:");
    reveal_strlit("kb:alt+Space");
    reveal_strlit("kb:alt+Digit1");
    reveal_strlit("kb:alt+Backquote");
    assert("preset:"@[0] == 'p');
    assert("kb:alt+Space"@[0] == 'k');
    assert("kb:alt+Digit1"@[0] == 'k');
    assert("kb:alt+Backquote"@[0] == 'k');
}

// ---------------------------------------------------------------------------------------------
// Shown form
// ---------------------------------------------------------------------------------------------

/// The keys that are shown by their own names.
pub open spec fn named_as_is(name: Seq<char>) -> bool {
    function_key(name) || name == "Space"@ || name == "Tab"@ || name == "Enter"@ || name
        == "Backspace"@ || name == "Delete"@ || name == "Insert"@ || name == "Home"@ || name
        == "End"@ || name == "PageUp"@ || name == "PageDown"@
}

/// What a key is called.
pub open spec fn key_label(name: Seq<char>) -> Seq<char> {
    if one_more(name, "Key"@, 'A', 'Z') || one_more(name, "Digit"@, '0', '9') {
        seq![name.last()]
    } else if named_as_is(name) {
        name
    } else if name == "Backquote"@ {
        "~"@
    } else if name == "Escape"@ {
        "Esc"@
    } else if name == "ArrowUp"@ {
        "↑"@
    } else if name == "ArrowDown"@ {
        "↓"@
    } else if name == "ArrowLeft"@ {
        "←"@
    } else if name == "ArrowRight"@ {
        "→"@
    } else {
        "键"@
    }
}

/// What the key is called.
pub fn code_display_name(code: &str) -> (r: String)
    ensures
        r@ == key_label(code@),
{
    let chars = to_chars(code);
    if is_one_more(&chars, "Key", 'A', 'Z') || is_one_more(&chars, "Digit", '0', '9') {
        let mut r = String::new();
        r.push(chars[chars.len() - 1]);
        assert(r@ =~= seq![code@.last()]);
        return r;
    }
    if is_function_key(&chars) || same_text(code, "Space") || same_text(code, "Tab") || same_text(
        code,
        "Enter",
    ) || same_text(code, "Backspace") || same_text(code, "Delete") || same_text(code, "Insert")
        || same_text(code, "Home") || same_text(code, "End") || same_text(code, "PageUp")
        || same_text(code, "PageDown") {
        return code.to_owned();
    }
    if same_text(code, "Backquote") {
        "~".to_owned()
    } else if same_text(code, "Escape") {
        "Esc".to_owned()
    } else if same_text(code, "ArrowUp") {
        "↑".to_owned()
    } else if same_text(code, "ArrowDown") {
        "↓".to_owned()
    } else if same_text(code, "ArrowLeft") {
        "←".to_owned()
    } else if same_text(code, "ArrowRight") {
        "→".to_owned()
    } else {
        "键".to_owned()
    }
}

/// The parts of which the label of a combination is made.
pub open spec fn label_parts(m: ModifierKeys, key: Seq<char>) -> Seq<Seq<char>> {
    part_if(m.control, "Ctrl"@) + part_if(m.alt, "Alt"@) + part_if(m.shift, "Shift"@) + part_if(
        m.logo,
        "Win"@,
    ) + seq![key_label(key)]
}

/// What a button is called.
pub open spec fn button_label(b: MouseButton) -> Seq<char> {
    match b {
        MouseButton::Middle => "鼠标中键"@,
        MouseButton::X1 => "鼠标侧键 1"@,
        MouseButton::X2 => "鼠标侧键 2"@,
    }
}

/// The label of a binding.
pub open spec fn binding_name(b: Binding) -> Seq<char> {
    match b {
        Binding::Keyboard(m, key) => joined(label_parts(m, key), " + "@),
        Binding::Mouse(b) => button_label(b),
    }
}

/// The label of a key combination.
pub fn keyboard_label(c: &KeyCombo) -> (r: String)
    ensures
        r@ == binding_name(Binding::Keyboard(c.mods, c.key@)),
{
    let mut parts: Vec<String> = Vec::new();
    assert(crate::text::texts(parts@) =~= Seq::empty());
    push_part(&mut parts, c.mods.control, "Ctrl");
    push_part(&mut parts, c.mods.alt, "Alt");
    push_part(&mut parts, c.mods.shift, "Shift");
    push_part(&mut parts, c.mods.logo, "Win");
    let key = code_display_name(c.key.as_str());
    push_part(&mut parts, true, key.as_str());
    assert(crate::text::texts(parts@) =~= label_parts(c.mods, c.key@));
    join(&parts, " + ")
}

/// What the button is called.
pub fn mouse_label(b: MouseButton) -> (r: String)
    ensures
        r@ == button_label(b),
{
    match b {
        MouseButton::Middle => "鼠标中键".to_owned(),
        MouseButton::X1 => "鼠标侧键 1".to_owned(),
        MouseButton::X2 => "鼠标侧键 2".to_owned(),
    }
}

/// The label of the binding.
pub fn binding_label(b: &HotkeyBinding) -> (r: String)
    ensures
        r@ == binding_name(b@),
{
    match b {
        HotkeyBinding::Keyboard(c) => keyboard_label(c),
        HotkeyBinding::Mouse(b) => mouse_label(*b),
    }
}

/// What is shown while a hotkey is recorded.
pub fn default_capture_hint() -> (r: &'static str)
    ensures
        r@ == "点击此处，按下键盘组合键，或鼠标中键/侧键"@,
{
    "点击此处，按下键盘组合键，或鼠标中键/侧键"
}

/// The button with the number that the interface gives it.
pub fn slint_mouse_button(btn: i32) -> (r: Option<MouseButton>)
    ensures
        r == (if btn == 0 {
            Some(MouseButton::Middle)
        } else if btn == 1 {
            Some(MouseButton::X1)
        } else if btn == 2 {
            Some(MouseButton::X2)
        } else {
            None
        }),
{
    match btn {
        0 => Some(MouseButton::Middle),
        1 => Some(MouseButton::X1),
        2 => Some(MouseButton::X2),
        _ => None,
    }
}

// ---------------------------------------------------------------------------------------------
// Taking the hotkey up and down
// ---------------------------------------------------------------------------------------------

/// What is to be done to take up a hotkey.
#[derive(Debug)]
pub enum HotkeyStep {
    /// Nothing: no hotkey is wanted.
    Rest,
    /// Register the key combination with the system.
    RegisterKey(KeyCombo),
    /// Watch the mouse for the button.
    WatchButton(MouseButton),
}

/// What is to be done to change the hotkey: release the key combination held so far, stop
/// watching the mouse, and then take the step.
#[derive(Debug)]
pub struct HotkeyPlan {
    pub release: Option<KeyCombo>,
    pub step: HotkeyStep,
}

/// Gives up the key combination that is held; the mouse is then no longer watched either.
pub fn unregister_active(held: &mut Option<KeyCombo>) -> (r: Option<KeyCombo>)
    ensures
        r == *old(held),
        *final(held) is None,
{
    held.take()
}

/// What is to be done to have the hotkey that the settings ask for. What was held before is
/// given up in any case.
pub fn register_active(
    held: &mut Option<KeyCombo>,
    enabled: bool,
    binding: Option<&HotkeyBinding>,
) -> (r: HotkeyPlan)
    ensures
        r.release == *old(held),
        *final(held) is None,
        r.step == match binding {
            Some(b) if enabled => match *b {
                HotkeyBinding::Keyboard(c) => HotkeyStep::RegisterKey(c),
                HotkeyBinding::Mouse(b) => HotkeyStep::WatchButton(b),
            },
            _ => HotkeyStep::Rest,
        },
{
    let release = unregister_active(held);
    if !enabled {
        return HotkeyPlan { release, step: HotkeyStep::Rest };
    }
    let step = match binding {
        None => HotkeyStep::Rest,
        Some(HotkeyBinding::Keyboard(c)) => HotkeyStep::RegisterKey(c.clone()),
        Some(HotkeyBinding::Mouse(b)) => HotkeyStep::WatchButton(*b),
    };
    HotkeyPlan { release, step }
}

/// Takes note of how the registration of a key combination ended: it is held if the system
/// accepted it.
pub fn key_registered(held: &mut Option<KeyCombo>, combo: KeyCombo, outcome: Result<(), String>) -> (r:
    Result<(), String>)
    ensures
        r == outcome,
        *final(held) == (if outcome is Ok {
            Some(combo)
        } else {
            *old(held)
        }),
{
    if outcome.is_ok() {
        *held = Some(combo);
    }
    outcome
}

/// Lets the mouse trigger nothing while a hotkey is recorded, or lets it again.
pub fn set_capture_suppress_mouse(watch: &mut MouseWatch, suppress: bool)
    ensures
        *final(watch) == (MouseWatch { suppressed: suppress, ..*old(watch) }),
{
    watch.set_suppress(suppress);
}

} // verus!

//! What holds of hotkeys, whatever they are bound to: which keys can be bound, how a binding is
//! stored, shown and read back, and when one is held.

use vstd::prelude::*;

use crate::custom_hotkey::{
    binding_from_storage, binding_label, binding_to_storage, capturable, code_display_name,
    combo_text, is_modifier_code, key_label, key_registered, keyboard_label, label_parts, migrate_legacy_hotkey,
    mouse_label, register_active, slint_mouse_button, unregister_active, winit_modifiers,
    winit_physical_key_to_code, HotkeyBinding, HotkeyPlan, KeyCombo, ModifierKeys, MouseButton,
};
use crate::hotkey_mouse_win::{msg_to_button, MouseWatch};
use crate::numbers::int_text;
use crate::text::joined;

verus! {

// ---------------------------------------------------------------------------------------------
// Keys
// ---------------------------------------------------------------------------------------------

/// The keys of letters.
pub open spec fn letter_key(name: Seq<char>, c: char) -> bool {
    'A' <= c <= 'Z' && name == seq!['K', 'e', 'y', c]
}

/// The keys of digits, above the letters.
pub open spec fn digit_key(name: Seq<char>, c: char) -> bool {
    '0' <= c <= '9' && name == seq!['D', 'i', 'g', 'i', 't', c]
}

/// The keys of digits on the number pad.
pub open spec fn pad_digit_key(name: Seq<char>, c: char) -> bool {
    '0' <= c <= '9' && name == seq!['N', 'u', 'm', 'p', 'a', 'd', c]
}

/// The function keys, one to twelve.
pub open spec fn function_key_name(name: Seq<char>, c: char) -> bool {
    ||| '1' <= c <= '9' && name == seq!['F', c]
    ||| '0' <= c <= '2' && name == seq!['F', '1', c]
}

/// The keys that have names of their own and can be bound.
pub open spec fn named_keys() -> Seq<Seq<char>> {
    seq![
        "Backquote"@,
        "Backslash"@,
        "BracketLeft"@,
        "BracketRight"@,
        "Comma"@,
        "Equal"@,
        "Minus"@,
        "Period"@,
        "Quote"@,
        "Semicolon"@,
        "Slash"@,
        "Backspace"@,
        "CapsLock"@,
        "Enter"@,
        "Space"@,
        "Tab"@,
        "Delete"@,
        "End"@,
        "Home"@,
        "Insert"@,
        "PageDown"@,
        "PageUp"@,
        "PrintScreen"@,
        "ScrollLock"@,
        "ArrowDown"@,
        "ArrowLeft"@,
        "ArrowRight"@,
        "ArrowUp"@,
        "Escape"@,
        "Pause"@,
        "NumLock"@,
        "NumpadAdd"@,
        "NumpadDecimal"@,
        "NumpadDivide"@,
        "NumpadMultiply"@,
        "NumpadSubtract"@,
        "NumpadEnter"@,
    ]
}

/// Whether the key can be bound: a letter, a digit, a function key, or a key with a name of its
/// own that is no modifier.
pub open spec fn can_be_bound(name: Seq<char>) -> bool {
    ||| exists|c: char| #[trigger] letter_key(name, c)
    ||| exists|c: char| #[trigger] digit_key(name, c)
    ||| exists|c: char| #[trigger] pad_digit_key(name, c)
    ||| exists|c: char| #[trigger] function_key_name(name, c)
    ||| named_keys().contains(name)
}

proof fn row_keys_are_capturable(name: Seq<char>)
    ensures
        crate::custom_hotkey::one_more(name, "Key"@, 'A', 'Z') <==> exists|c: char| #[trigger]
            letter_key(name, c),
        crate::custom_hotkey::one_more(name, "Digit"@, '0', '9') <==> exists|c: char| #[trigger]
            digit_key(name, c),
        crate::custom_hotkey::one_more(name, "Numpad"@, '0', '9') <==> exists|c: char| #[trigger]
            pad_digit_key(name, c),
        crate::custom_hotkey::function_key(name) <==> exists|c: char| #[trigger]
            function_key_name(name, c),
{
    reveal_strlit("Key");
    reveal_strlit("Digit");
    reveal_strlit("Numpad");
    reveal_strlit("F");
    reveal_strlit("F1");
    prefix_and_one(name, "Key"@);
    prefix_and_one(name, "Digit"@);
    prefix_and_one(name, "Numpad"@);
    prefix_and_one(name, "F"@);
    prefix_and_one(name, "F1"@);
    if name.len() > 0 {
        let c = name.last();
        assert("Key"@.push(c) =~= seq!['K', 'e', 'y', c]);
        assert("Digit"@.push(c) =~= seq!['D', 'i', 'g', 'i', 't', c]);
        assert("Numpad"@.push(c) =~= seq!['N', 'u', 'm', 'p', 'a', 'd', c]);
        assert("F"@.push(c) =~= seq!['F', c]);
        assert("F1"@.push(c) =~= seq!['F', '1', c]);
        if crate::custom_hotkey::one_more(name, "Key"@, 'A', 'Z') {
            assert(letter_key(name, c));
        }
        if crate::custom_hotkey::one_more(name, "Digit"@, '0', '9') {
            assert(digit_key(name, c));
        }
        if crate::custom_hotkey::one_more(name, "Numpad"@, '0', '9') {
            assert(pad_digit_key(name, c));
        }
        if crate::custom_hotkey::function_key(name) {
            assert(function_key_name(name, c));
        }
    }
    assert forall|c: char| #[trigger] letter_key(name, c) implies
        crate::custom_hotkey::one_more(name, "Key"@, 'A', 'Z') by {
        assert(name.last() == c);
    }
    assert forall|c: char| #[trigger] digit_key(name, c) implies
        crate::custom_hotkey::one_more(name, "Digit"@, '0', '9') by {
        assert(name.last() == c);
    }
    assert forall|c: char| #[trigger] pad_digit_key(name, c) implies
        crate::custom_hotkey::one_more(name, "Numpad"@, '0', '9') by {
        assert(name.last() == c);
    }
    assert forall|c: char| #[trigger] function_key_name(name, c) implies
        crate::custom_hotkey::function_key(name) by {
        assert(name.last() == c);
    }
}

proof fn prefix_and_one(name: Seq<char>, p: Seq<char>)
    ensures
        name.len() == p.len() + 1 && crate::text::starts_with(name, p) <==> name.len() > 0 && name
            == p.push(name.last()),
{
    if name.len() == p.len() + 1 && crate::text::starts_with(name, p) {
        assert forall|i: int| 0 <= i < name.len() implies name[i] == p.push(name.last())[i] by {
            if i < p.len() {
                assert(name.subrange(0, p.len() as int)[i] == name[i]);
            }
        }
        assert(name =~= p.push(name.last()));
    }
    if name.len() > 0 && name == p.push(name.last()) {
        assert(name.subrange(0, p.len() as int) =~= p);
    }
}

/// The keys that can be bound are those that can be recorded.
pub proof fn bindable_is_capturable(n: Seq<char>)
    ensures
        can_be_bound(n) <==> capturable(n),
{
    row_keys_are_capturable(n);
    let all = named_keys();
    if crate::custom_hotkey::punctuation_key(n) {
        assert(all[0] == n || all[1] == n || all[2] == n || all[3] == n || all[4] == n || all[5] == n
            || all[6] == n || all[7] == n || all[8] == n || all[9] == n || all[10] == n);
    }
    if crate::custom_hotkey::editing_key(n) {
        assert(all[11] == n || all[12] == n || all[13] == n || all[14] == n || all[15] == n
            || all[16] == n || all[17] == n || all[18] == n || all[19] == n || all[20] == n
            || all[21] == n || all[22] == n || all[23] == n || all[24] == n || all[25] == n
            || all[26] == n || all[27] == n || all[28] == n || all[29] == n);
    }
    if crate::custom_hotkey::number_pad_key(n) {
        assert(all[30] == n || all[31] == n || all[32] == n || all[33] == n || all[34] == n
            || all[35] == n || all[36] == n);
    }
    if named_keys().contains(n) {
        let k = choose|k: int| 0 <= k < named_keys().len() && named_keys()[k] == n;
        assert(named_keys().len() == 37);
        assert(capturable(n));
    }
}

/// Just the keys that can be bound are recorded, each under its own name.
pub proof fn bindable_keys_are_recorded(key: Option<&str>, r: Option<String>)
    requires
        call_ensures(winit_physical_key_to_code, (key,), r),
    ensures
        r is Some <==> key is Some && can_be_bound(key->0@),
        r is Some ==> r->0@ == key->0@,
{
    if let Some(name) = key {
        bindable_is_capturable(name@);
    }
}

/// The keys that only modify others are those of shift, control, alt and the logo, left and right.
pub proof fn modifiers_stand_left_and_right(code: &str, r: bool)
    requires
        call_ensures(is_modifier_code, (code,), r),
    ensures
        r <==> seq![
            "ShiftLeft"@,
            "ShiftRight"@,
            "ControlLeft"@,
            "ControlRight"@,
            "AltLeft"@,
            "AltRight"@,
            "MetaLeft"@,
            "MetaRight"@,
        ].contains(code@),
{
    let all = seq![
        "ShiftLeft"@,
        "ShiftRight"@,
        "ControlLeft"@,
        "ControlRight"@,
        "AltLeft"@,
        "AltRight"@,
        "MetaLeft"@,
        "MetaRight"@,
    ];
    let n = code@;
    if r {
        assert(all[0] == n || all[1] == n || all[2] == n || all[3] == n || all[4] == n || all[5]
            == n || all[6] == n || all[7] == n);
    }
}

/// The modifiers that are held are taken as they are told.
pub proof fn modifiers_are_taken_as_told(
    shift: bool,
    control: bool,
    alt: bool,
    logo: bool,
    r: ModifierKeys,
)
    requires
        call_ensures(winit_modifiers, (shift, control, alt, logo), r),
    ensures
        r.shift == shift && r.control == control && r.alt == alt && r.logo == logo,
{
}

// ---------------------------------------------------------------------------------------------
// Stored and shown forms
// ---------------------------------------------------------------------------------------------

/// A binding that can be recorded is read back from how it is stored.
pub proof fn stored_binding_is_read_back(
    b: &HotkeyBinding,
    text: String,
    stored: &Option<String>,
    r: Option<HotkeyBinding>,
)
    requires
        call_ensures(binding_to_storage, (b,), text),
        call_ensures(binding_from_storage, (stored,), r),
        *stored is Some && stored->0@ == text@,
        b is Mouse || can_be_bound(b->Keyboard_0.key@),
    ensures
        r is Some,
        b is Mouse ==> r->0 is Mouse && r->0->Mouse_0 == b->Mouse_0,
        b is Keyboard ==> r->0 is Keyboard && r->0->Keyboard_0.mods == b->Keyboard_0.mods
            && r->0->Keyboard_0.key@ == b->Keyboard_0.key@,
{
    if let HotkeyBinding::Keyboard(c) = *b {
        bindable_is_capturable(c.key@);
    }
    assert(crate::custom_hotkey::recordable(b@));
    assert(stored->0@ == crate::custom_hotkey::binding_text(b@));
}

/// A binding is stored behind `kb:` or `mouse:`. A key combination is written as its modifiers,
/// each with a plus sign behind it, in the order shift, control, alt and logo, and then the key.
pub proof fn binding_is_stored_in_order(b: &HotkeyBinding, text: String)
    requires
        call_ensures(binding_to_storage, (b,), text),
    ensures
        b is Mouse && b->Mouse_0 == MouseButton::Middle ==> text@ == "mouse:"@ + "middle"@,
        b is Mouse && b->Mouse_0 == MouseButton::X1 ==> text@ == "mouse:"@ + "x1"@,
        b is Mouse && b->Mouse_0 == MouseButton::X2 ==> text@ == "mouse:"@ + "x2"@,
        b is Keyboard ==> text@ == "kb:"@ + combo_text(b->Keyboard_0.mods, b->Keyboard_0.key@),
{
}

/// How a key combination is written, modifier by modifier.
pub proof fn combination_is_written_in_order(m: ModifierKeys, key: Seq<char>)
    ensures
        m.shift ==> combo_text(m, key) == "shift+"@ + combo_text(
            ModifierKeys { shift: false, ..m },
            key,
        ),
        !m.shift && m.control ==> combo_text(m, key) == "control+"@ + combo_text(
            ModifierKeys { control: false, ..m },
            key,
        ),
        !m.shift && !m.control && m.alt ==> combo_text(m, key) == "alt+"@ + combo_text(
            ModifierKeys { alt: false, ..m },
            key,
        ),
        !m.shift && !m.control && !m.alt && m.logo ==> combo_text(m, key) == "super+"@ + key,
        !m.shift && !m.control && !m.alt && !m.logo ==> combo_text(m, key) == key,
{
    assert(m.shift ==> combo_text(m, key) =~= "shift+"@ + combo_text(
        ModifierKeys { shift: false, ..m },
        key,
    ));
    assert(!m.shift && m.control ==> combo_text(m, key) =~= "control+"@ + combo_text(
        ModifierKeys { control: false, ..m },
        key,
    ));
    assert(!m.shift && !m.control && m.alt ==> combo_text(m, key) =~= "alt+"@ + combo_text(
        ModifierKeys { alt: false, ..m },
        key,
    ));
    assert(!m.shift && !m.control && !m.alt && m.logo ==> combo_text(m, key) =~= "super+"@ + key);
    assert(!m.shift && !m.control && !m.alt && !m.logo ==> combo_text(m, key) =~= key);
}

proof fn joined_from_front(x: Seq<char>, rest: Seq<Seq<char>>, sep: Seq<char>)
    requires
        rest.len() > 0,
    ensures
        joined(seq![x] + rest, sep) == x + sep + joined(rest, sep),
    decreases rest.len(),
{
    let all = seq![x] + rest;
    assert(all.drop_last() =~= seq![x] + rest.drop_last());
    assert(all.last() == rest.last());
    if rest.len() == 1 {
        assert(all.drop_last() =~= seq![x]);
        assert(joined(seq![x], sep) == x);
        assert(joined(all, sep) =~= x + sep + joined(rest, sep));
    } else {
        joined_from_front(x, rest.drop_last(), sep);
        assert(joined(all, sep) =~= x + sep + joined(rest, sep));
    }
}

/// A key combination is shown as its modifiers and then the key, with plus signs between them, in
/// the order Ctrl, Alt, Shift and Win.
pub proof fn combination_is_shown_in_order(
    c: &HotkeyBinding,
    r: String,
    without: &HotkeyBinding,
    s: String,
)
    requires
        call_ensures(binding_label, (c,), r),
        call_ensures(binding_label, (without,), s),
        c is Keyboard && without is Keyboard,
        c->Keyboard_0.key@ == without->Keyboard_0.key@,
    ensures
        ({
            let m = c->Keyboard_0.mods;
            let n = without->Keyboard_0.mods;
            &&& m.control && n == (ModifierKeys { control: false, ..m }) ==> r@ == "Ctrl"@
                + " + "@ + s@
            &&& !m.control && m.alt && n == (ModifierKeys { alt: false, ..m }) ==> r@ == "Alt"@
                + " + "@ + s@
            &&& !m.control && !m.alt && m.shift && n == (ModifierKeys { shift: false, ..m }) ==> r@
                == "Shift"@ + " + "@ + s@
            &&& !m.control && !m.alt && !m.shift && m.logo && n == (ModifierKeys {
                logo: false,
                ..m
            }) ==> r@ == "Win"@ + " + "@ + s@
            &&& !m.control && !m.alt && !m.shift && !m.logo ==> r@ == key_label(
                c->Keyboard_0.key@,
            )
        }),
{
    let m = c->Keyboard_0.mods;
    let n = without->Keyboard_0.mods;
    let key = c->Keyboard_0.key@;
    let rest = label_parts(n, key);
    assert(rest.len() > 0);
    joined_from_front("Ctrl"@, rest, " + "@);
    joined_from_front("Alt"@, rest, " + "@);
    joined_from_front("Shift"@, rest, " + "@);
    joined_from_front("Win"@, rest, " + "@);
    if m.control && n == (ModifierKeys { control: false, ..m }) {
        assert(label_parts(m, key) =~= seq!["Ctrl"@] + rest);
    } else if !m.control && m.alt && n == (ModifierKeys { alt: false, ..m }) {
        assert(label_parts(m, key) =~= seq!["Alt"@] + rest);
    } else if !m.control && !m.alt && m.shift && n == (ModifierKeys { shift: false, ..m }) {
        assert(label_parts(m, key) =~= seq!["Shift"@] + rest);
    } else if !m.control && !m.alt && !m.shift && m.logo && n == (ModifierKeys {
        logo: false,
        ..m
    }) {
        assert(label_parts(m, key) =~= seq!["Win"@] + rest);
    }
    if !m.control && !m.alt && !m.shift && !m.logo {
        assert(label_parts(m, key) =~= seq![key_label(key)]);
    }
}

/// A key combination has the label of the binding to it, and a button that of the binding to it.
pub proof fn binding_is_labelled_as_what_it_is(
    b: &HotkeyBinding,
    r: String,
    c: &KeyCombo,
    keys: String,
    m: MouseButton,
    button: String,
)
    requires
        call_ensures(binding_label, (b,), r),
        call_ensures(keyboard_label, (c,), keys),
        call_ensures(mouse_label, (m,), button),
    ensures
        b is Keyboard && b->Keyboard_0 == *c ==> r@ == keys@,
        b is Mouse && b->Mouse_0 == m ==> r@ == button@,
{
}

/// The key of a letter or a digit is called by it, a function key and most keys with names of
/// their own by their names, the arrows by arrows, and other keys by one name for all.
pub proof fn keys_are_called_by_their_marks(code: &str, r: String, c: char)
    requires
        call_ensures(code_display_name, (code,), r),
    ensures
        letter_key(code@, c) || digit_key(code@, c) ==> r@ == seq![c],
        function_key_name(code@, c) ==> r@ == code@,
        code@ == "Space"@ || code@ == "Tab"@ || code@ == "Enter"@ || code@ == "Backspace"@ || code@
            == "Delete"@ || code@ == "Insert"@ || code@ == "Home"@ || code@ == "End"@ || code@
            == "PageUp"@ || code@ == "PageDown"@ ==> r@ == code@,
{
    row_keys_are_capturable(code@);
    if letter_key(code@, c) || digit_key(code@, c) {
        assert(code@.last() == c);
    }
    reveal_strlit("Space");
    reveal_strlit("Tab");
    reveal_strlit("Enter");
    reveal_strlit("Backspace");
    reveal_strlit("Delete");
    reveal_strlit("Insert");
    reveal_strlit("Home");
    reveal_strlit("End");
    reveal_strlit("PageUp");
    reveal_strlit("PageDown");
    if function_key_name(code@, c) || code@ == "Space"@ || code@ == "Tab"@ || code@ == "Enter"@
        || code@ == "Backspace"@ || code@ == "Delete"@ || code@ == "Insert"@ || code@ == "Home"@
        || code@ == "End"@ || code@ == "PageUp"@ || code@ == "PageDown"@ {
        let n = code@;
        assert(n[0] != 'K');
        assert forall|d: char| !#[trigger] letter_key(n, d) by {
            assert(seq!['K', 'e', 'y', d][0] == 'K');
        }
        assert forall|d: char| !#[trigger] digit_key(n, d) by {
            assert(seq!['D', 'i', 'g', 'i', 't', d][1] == 'i');
        }
    }
}

/// The keys that have no label of their own.
pub open spec fn unnamed_keys() -> Seq<Seq<char>> {
    seq![
        "Backslash"@,
        "BracketLeft"@,
        "BracketRight"@,
        "Comma"@,
        "Equal"@,
        "Minus"@,
        "Period"@,
        "Quote"@,
        "Semicolon"@,
        "Slash"@,
        "CapsLock"@,
        "PrintScreen"@,
        "ScrollLock"@,
        "Pause"@,
        "NumLock"@,
        "NumpadAdd"@,
        "NumpadDecimal"@,
        "NumpadDivide"@,
        "NumpadMultiply"@,
        "NumpadSubtract"@,
        "NumpadEnter"@,
    ]
}

/// The marks of the keys that are shown by a sign, and the one sign of those that have none of
/// their own.
pub proof fn some_keys_have_signs(code: &str, r: String)
    requires
        call_ensures(code_display_name, (code,), r),
    ensures
        code@ == "Backquote"@ ==> r@ == "~"@,
        code@ == "Escape"@ ==> r@ == "Esc"@,
        code@ == "ArrowUp"@ ==> r@ == "↑"@,
        code@ == "ArrowDown"@ ==> r@ == "↓"@,
        code@ == "ArrowLeft"@ ==> r@ == "←"@,
        code@ == "ArrowRight"@ ==> r@ == "→"@,
        unnamed_keys().contains(code@) ==> r@ == "键"@,
{
    let n = code@;
    let un = unnamed_keys();
    let marked = n == "Backquote"@ || n == "Escape"@ || n == "ArrowUp"@ || n == "ArrowDown"@ || n
        == "ArrowLeft"@ || n == "ArrowRight"@;
    if marked || un.contains(n) {
        row_keys_are_capturable(n);
        reveal_marked_names();
        reveal_plain_names();
        if un.contains(n) {
            let k = choose|k: int| 0 <= k < un.len() && un[k] == n;
            reveal_unnamed_names();
            assert(un.len() == 21);
            assert(n.len() >= 5);
            assert(n[0] == 'B' && n[4] != 's' && n[4] != 'q' || n[0] == 'B' && n[3] != 'k' || n[0]
                == 'B' && n[5] == 'l' || n[0] == 'C' || n[0] == 'E' && n[1] == 'q' || n[0] == 'M'
                || n[0] == 'P' && n[1] != 'a' || n[0] == 'P' && n[2] == 'u' || n[0] == 'Q' || n[0]
                == 'S' && n[1] != 'p' || n[0] == 'N');
        }
        assert(n[0] != 'K' && n[0] != 'D' && n[0] != 'F' && n[0] != 'I' && n[0] != 'T' && n[0]
            != 'H');
        assert forall|d: char| !#[trigger] letter_key(n, d) by {
            assert(seq!['K', 'e', 'y', d][0] == 'K');
        }
        assert forall|d: char| !#[trigger] digit_key(n, d) by {
            assert(seq!['D', 'i', 'g', 'i', 't', d][0] == 'D');
        }
        assert forall|d: char| !#[trigger] function_key_name(n, d) by {}
    }
}

proof fn reveal_marked_names()
    ensures
        "Backquote"@ =~= seq!['B', 'a', 'c', 'k', 'q', 'u', 'o', 't', 'e'],
        "Escape"@ =~= seq!['E', 's', 'c', 'a', 'p', 'e'],
        "ArrowUp"@ =~= seq!['A', 'r', 'r', 'o', 'w', 'U', 'p'],
        "ArrowDown"@ =~= seq!['A', 'r', 'r', 'o', 'w', 'D', 'o', 'w', 'n'],
        "ArrowLeft"@ =~= seq!['A', 'r', 'r', 'o', 'w', 'L', 'e', 'f', 't'],
        "ArrowRight"@ =~= seq!['A', 'r', 'r', 'o', 'w', 'R', 'i', 'g', 'h', 't'],
{
    reveal_strlit("Backquote");
    reveal_strlit("Escape");
    reveal_strlit("ArrowUp");
    reveal_strlit("ArrowDown");
    reveal_strlit("ArrowLeft");
    reveal_strlit("ArrowRight");
}

proof fn reveal_plain_names()
    ensures
        "Space"@ =~= seq!['S', 'p', 'a', 'c', 'e'],
        "Tab"@ =~= seq!['T', 'a', 'b'],
        "Enter"@ =~= seq!['E', 'n', 't', 'e', 'r'],
        "Backspace"@ =~= seq!['B', 'a', 'c', 'k', 's', 'p', 'a', 'c', 'e'],
        "Delete"@ =~= seq!['D', 'e', 'l', 'e', 't', 'e'],
        "Insert"@ =~= seq!['I', 'n', 's', 'e', 'r', 't'],
        "Home"@ =~= seq!['H', 'o', 'm', 'e'],
        "End"@ =~= seq!['E', 'n', 'd'],
        "PageUp"@ =~= seq!['P', 'a', 'g', 'e', 'U', 'p'],
        "PageDown"@ =~= seq!['P', 'a', 'g', 'e', 'D', 'o', 'w', 'n'],
{
    reveal_strlit("Space");
    reveal_strlit("Tab");
    reveal_strlit("Enter");
    reveal_strlit("Backspace");
    reveal_strlit("Delete");
    reveal_strlit("Insert");
    reveal_strlit("Home");
    reveal_strlit("End");
    reveal_strlit("PageUp");
    reveal_strlit("PageDown");
}

proof fn reveal_unnamed_names()
    ensures
        "Backslash"@ =~= seq!['B', 'a', 'c', 'k', 's', 'l', 'a', 's', 'h'],
        "BracketLeft"@ =~= seq!['B', 'r', 'a', 'c', 'k', 'e', 't', 'L', 'e', 'f', 't'],
        "BracketRight"@ =~= seq!['B', 'r', 'a', 'c', 'k', 'e', 't', 'R', 'i', 'g', 'h', 't'],
        "Comma"@ =~= seq!['C', 'o', 'm', 'm', 'a'],
        "Equal"@ =~= seq!['E', 'q', 'u', 'a', 'l'],
        "Minus"@ =~= seq!['M', 'i', 'n', 'u', 's'],
        "Period"@ =~= seq!['P', 'e', 'r', 'i', 'o', 'd'],
        "Quote"@ =~= seq!['Q', 'u', 'o', 't', 'e'],
        "Semicolon"@ =~= seq!['S', 'e', 'm', 'i', 'c', 'o', 'l', 'o', 'n'],
        "Slash"@ =~= seq!['S', 'l', 'a', 's', 'h'],
        "CapsLock"@ =~= seq!['C', 'a', 'p', 's', 'L', 'o', 'c', 'k'],
        "PrintScreen"@ =~= seq!['P', 'r', 'i', 'n', 't', 'S', 'c', 'r', 'e', 'e', 'n'],
        "ScrollLock"@ =~= seq!['S', 'c', 'r', 'o', 'l', 'l', 'L', 'o', 'c', 'k'],
        "Pause"@ =~= seq!['P', 'a', 'u', 's', 'e'],
        "NumLock"@.len() == 7 && "NumLock"@[0] == 'N',
        "NumpadAdd"@.len() == 9 && "NumpadAdd"@[0] == 'N',
        "NumpadDecimal"@.len() == 13 && "NumpadDecimal"@[0] == 'N',
        "NumpadDivide"@.len() == 12 && "NumpadDivide"@[0] == 'N',
        "NumpadMultiply"@.len() == 14 && "NumpadMultiply"@[0] == 'N',
        "NumpadSubtract"@.len() == 14 && "NumpadSubtract"@[0] == 'N',
        "NumpadEnter"@.len() == 11 && "NumpadEnter"@[0] == 'N',
{
    reveal_strlit("Backslash");
    reveal_strlit("BracketLeft");
    reveal_strlit("BracketRight");
    reveal_strlit("Comma");
    reveal_strlit("Equal");
    reveal_strlit("Minus");
    reveal_strlit("Period");
    reveal_strlit("Quote");
    reveal_strlit("Semicolon");
    reveal_strlit("Slash");
    reveal_strlit("CapsLock");
    reveal_strlit("PrintScreen");
    reveal_strlit("ScrollLock");
    reveal_strlit("Pause");
    reveal_strlit("NumLock");
    reveal_strlit("NumpadAdd");
    reveal_strlit("NumpadDecimal");
    reveal_strlit("NumpadDivide");
    reveal_strlit("NumpadMultiply");
    reveal_strlit("NumpadSubtract");
    reveal_strlit("NumpadEnter");
}

/// The buttons of the mouse have different labels.
pub proof fn buttons_have_labels_of_their_own(b: MouseButton, r: String)
    requires
        call_ensures(mouse_label, (b,), r),
    ensures
        b == MouseButton::Middle ==> r@ == "鼠标中键"@,
        b == MouseButton::X1 ==> r@ == "鼠标侧键 1"@,
        b == MouseButton::X2 ==> r@ == "鼠标侧键 2"@,
{
}

/// The interface numbers the middle button zero and the side buttons one and two; there are no
/// others.
pub proof fn buttons_are_numbered(n: i32, r: Option<MouseButton>)
    requires
        call_ensures(slint_mouse_button, (n,), r),
    ensures
        r == Some(MouseButton::Middle) <==> n == 0,
        r == Some(MouseButton::X1) <==> n == 1,
        r == Some(MouseButton::X2) <==> n == 2,
{
}

/// A numbered choice of an earlier version stands for alt and the space bar, alt and one, or, for
/// every other number, alt and the back quote; every other text is left as it is.
pub proof fn numbered_choice_is_rewritten(hotkey: &mut Option<String>, n: int)
    requires
        call_ensures(migrate_legacy_hotkey, (hotkey,), ()),
        i32::MIN <= n <= i32::MAX,
    ensures
        *old(hotkey) is None <==> *final(hotkey) is None,
        *old(hotkey) is Some && old(hotkey)->0@ == "preset:"@ + int_text(n) ==> {
            &&& n == 1 ==> final(hotkey)->0@ == "kb:alt+Space"@
            &&& n == 2 ==> final(hotkey)->0@ == "kb:alt+Digit1"@
            &&& n != 1 && n != 2 ==> final(hotkey)->0@ == "kb:alt+Backquote"@
        },
        *old(hotkey) is Some && !crate::text::starts_with(old(hotkey)->0@, "preset:"@) ==> final(hotkey)->0@ == old(hotkey)->0@,
{
    crate::numbers::int_text_reads_back(n);
    crate::text::prefix_then_rest("preset:"@, int_text(n));
}

// ---------------------------------------------------------------------------------------------
// Holding a hotkey
// ---------------------------------------------------------------------------------------------

/// Changing the hotkey gives up the combination that was held, and then takes up just what the
/// binding asks for, if hotkeys are wanted at all.
pub proof fn hotkey_is_changed(
    held: &mut Option<KeyCombo>,
    enabled: bool,
    binding: Option<&HotkeyBinding>,
    r: HotkeyPlan,
)
    requires
        call_ensures(register_active, (held, enabled, binding), r),
    ensures
        r.release == *old(held),
        *final(held) is None,
        r.step is Rest <==> !enabled || binding is None,
        r.step is RegisterKey <==> enabled && binding is Some && binding->0 is Keyboard,
        r.step is RegisterKey ==> r.step->RegisterKey_0 == binding->0->Keyboard_0,
        r.step is WatchButton <==> enabled && binding is Some && binding->0 is Mouse,
        r.step is WatchButton ==> r.step->WatchButton_0 == binding->0->Mouse_0,
{
}

/// A combination is held just where the system accepted it; what the system said is passed on.
pub proof fn accepted_combination_is_held(
    held: &mut Option<KeyCombo>,
    combo: KeyCombo,
    outcome: Result<(), String>,
    r: Result<(), String>,
    other: &mut Option<KeyCombo>,
    given_up: Option<KeyCombo>,
)
    requires
        call_ensures(key_registered, (held, combo, outcome), r),
        call_ensures(unregister_active, (other,), given_up),
    ensures
        r == outcome,
        outcome is Ok ==> *final(held) == Some(combo),
        outcome is Err ==> *final(held) == *old(held),
        given_up == *old(other) && *final(other) is None,
{
}

/// A message of the mouse tells of the middle button by its own number; one of a side button tells
/// which in the upper half of its data, whatever the lower half holds.
pub proof fn message_tells_the_button(msg: u32, data: u32, low: u32, r: Option<MouseButton>)
    requires
        call_ensures(msg_to_button, (msg, data), r),
        low < 65536,
    ensures
        r == Some(MouseButton::Middle) <==> msg == 519,
        msg == 523 && data == 65536 + low ==> r == Some(MouseButton::X1),
        msg == 523 && data == 2 * 65536 + low ==> r == Some(MouseButton::X2),
        r == Some(MouseButton::X1) || r == Some(MouseButton::X2) ==> msg == 523,
        msg == 523 && (data < 65536 || data >= 3 * 65536) ==> r is None,
{
}

/// The mouse triggers the hotkey just by a press of the button that is watched for, and not while a
/// hotkey is recorded.
pub proof fn watched_button_triggers(
    watch: &MouseWatch,
    is_event: bool,
    msg: u32,
    data: u32,
    r: bool,
    pressed: Option<MouseButton>,
)
    requires
        call_ensures(MouseWatch::triggers, (watch, is_event, msg, data), r),
        call_ensures(msg_to_button, (msg, data), pressed),
    ensures
        r <==> is_event && !watch.suppressed && pressed is Some && watch.binding == pressed,
{
}

/// The mouse is watched for no button at first. Watching for one gives up what the system was
/// asked for before, and it is asked anew; calls can be ignored for a while, which changes nothing
/// else.
pub proof fn mouse_is_watched_for_one_button(
    start: MouseWatch,
    watch: &mut MouseWatch,
    b: MouseButton,
    r: bool,
    other: &mut MouseWatch,
    s: bool,
    third: &mut MouseWatch,
    quiet: bool,
    fourth: &mut MouseWatch,
)
    requires
        call_ensures(MouseWatch::new, (), start),
        call_ensures(MouseWatch::install, (watch, b), r),
        call_ensures(MouseWatch::uninstall, (other,), s),
        call_ensures(MouseWatch::set_suppress, (third, quiet), ()),
        call_ensures(MouseWatch::hook_set, (fourth,), ()),
    ensures
        start.binding is None && !start.hooked && !start.suppressed,
        final(watch).binding == Some(b) && !final(watch).hooked,
        final(watch).suppressed == old(watch).suppressed,
        r == old(watch).hooked && s == old(other).hooked,
        final(other).binding is None && !final(other).hooked,
        final(other).suppressed == old(other).suppressed,
        final(third).suppressed == quiet && final(third).binding == old(third).binding
            && final(third).hooked == old(third).hooked,
        final(fourth).hooked && final(fourth).binding == old(fourth).binding
            && final(fourth).suppressed == old(fourth).suppressed,
{
}

} // verus!

use yian_launcher::custom_hotkey::{
    binding_from_storage, binding_label, binding_to_storage, code_display_name,
    default_capture_hint, is_modifier_code, key_registered, migrate_legacy_hotkey, mouse_label,
    register_active, set_capture_suppress_mouse, slint_mouse_button, unregister_active,
    winit_modifiers, winit_physical_key_to_code, HotkeyBinding, HotkeyStep, KeyCombo, ModifierKeys,
    MouseButton,
};
use yian_launcher::hotkey_mouse_win::{msg_to_button, MouseWatch};
use yian_launcher::models::UserConfig;
use yian_launcher::settings::{
    apply_hotkey_binding, apply_hotkey_from_config, capture_key, hotkey_display_label,
    hotkey_error_status, CaptureStep,
};

fn combo(shift: bool, control: bool, alt: bool, logo: bool, key: &str) -> KeyCombo {
    KeyCombo { mods: ModifierKeys { shift, control, alt, logo }, key: key.to_string() }
}

fn keys() -> Vec<String> {
    let mut v: Vec<String> = Vec::new();
    for c in 'A'..='Z' {
        v.push(format!("Key{}", c));
    }
    for d in 0..10 {
        v.push(format!("Digit{}", d));
        v.push(format!("Numpad{}", d));
    }
    for f in 1..13 {
        v.push(format!("F{}", f));
    }
    for k in [
        "Backquote", "Backslash", "BracketLeft", "BracketRight", "Comma", "Equal", "Minus",
        "Period", "Quote", "Semicolon", "Slash", "Backspace", "CapsLock", "Enter", "Space", "Tab",
        "Delete", "End", "Home", "Insert", "PageDown", "PageUp", "PrintScreen", "ScrollLock",
        "ArrowDown", "ArrowLeft", "ArrowRight", "ArrowUp", "Escape", "Pause", "NumLock",
        "NumpadAdd", "NumpadDecimal", "NumpadDivide", "NumpadMultiply", "NumpadSubtract",
        "NumpadEnter",
    ] {
        v.push(k.to_string());
    }
    v
}

#[test]
fn stored_bindings_read_back() {
    for key in keys() {
        for bits in 0..16 {
            let c = combo(bits & 1 != 0, bits & 2 != 0, bits & 4 != 0, bits & 8 != 0, &key);
            let text = binding_to_storage(&HotkeyBinding::Keyboard(c.clone()));
            match binding_from_storage(&Some(text)) {
                Some(HotkeyBinding::Keyboard(back)) => {
                    assert_eq!(back.mods, c.mods);
                    assert_eq!(back.key, c.key);
                }
                other => panic!("{:?}", other),
            }
        }
    }
    for b in [MouseButton::Middle, MouseButton::X1, MouseButton::X2] {
        let text = binding_to_storage(&HotkeyBinding::Mouse(b));
        match binding_from_storage(&Some(text)) {
            Some(HotkeyBinding::Mouse(back)) => assert_eq!(back, b),
            other => panic!("{:?}", other),
        }
    }
}

#[test]
fn stored_form() {
    let c = combo(true, true, true, true, "KeyQ");
    assert_eq!(
        binding_to_storage(&HotkeyBinding::Keyboard(c)),
        "kb:shift+control+alt+super+KeyQ"
    );
    assert_eq!(binding_to_storage(&HotkeyBinding::Mouse(MouseButton::X2)), "mouse:x2");
}

#[test]
fn unknown_texts_bind_nothing() {
    for t in ["", "kb:", "kb:alt+", "kb:alt+Nope", "mouse:left", "mouse:", "alt+KeyA", "preset:1"] {
        assert!(binding_from_storage(&Some(t.to_string())).is_none(), "{}", t);
    }
    assert!(binding_from_storage(&None).is_none());
}

#[test]
fn other_spellings_are_read() {
    match binding_from_storage(&Some("kb:CTRL+Alt+q".to_string())) {
        Some(HotkeyBinding::Keyboard(c)) => {
            assert_eq!(c.key, "KeyQ");
            assert_eq!(
                c.mods,
                ModifierKeys { shift: false, control: true, alt: true, logo: false }
            );
        }
        other => panic!("{:?}", other),
    }
}

#[test]
fn numbered_choices_are_rewritten() {
    let cases = [
        ("preset:0", "kb:alt+Backquote"),
        ("preset:1", "kb:alt+Space"),
        ("preset:2", "kb:alt+Digit1"),
        ("preset:77", "kb:alt+Backquote"),
        ("preset:-3", "kb:alt+Backquote"),
        ("preset:x", "preset:x"),
        ("kb:alt+KeyA", "kb:alt+KeyA"),
    ];
    for (before, after) in cases {
        let mut h = Some(before.to_string());
        migrate_legacy_hotkey(&mut h);
        assert_eq!(h.as_deref(), Some(after));
        migrate_legacy_hotkey(&mut h);
        assert_eq!(h.as_deref(), Some(after));
    }
    let mut none: Option<String> = None;
    migrate_legacy_hotkey(&mut none);
    assert_eq!(none, None);
}

#[test]
fn labels() {
    let l = |c: KeyCombo| binding_label(&HotkeyBinding::Keyboard(c));
    assert_eq!(l(combo(false, false, true, false, "Backquote")), "Alt + ~");
    assert_eq!(l(combo(true, true, true, true, "KeyA")), "Ctrl + Alt + Shift + Win + A");
    assert_eq!(l(combo(false, false, false, false, "F12")), "F12");
    assert_eq!(binding_label(&HotkeyBinding::Mouse(MouseButton::Middle)), "鼠标中键");
    assert_eq!(mouse_label(MouseButton::X1), "鼠标侧键 1");
    assert_eq!(mouse_label(MouseButton::X2), "鼠标侧键 2");
    let shown = [
        ("Digit7", "7"),
        ("KeyZ", "Z"),
        ("Space", "Space"),
        ("Escape", "Esc"),
        ("ArrowUp", "↑"),
        ("ArrowDown", "↓"),
        ("ArrowLeft", "←"),
        ("ArrowRight", "→"),
        ("PageUp", "PageUp"),
        ("F1", "F1"),
        ("F10", "F10"),
        ("F13", "键"),
        ("Comma", "键"),
        ("Numpad1", "键"),
    ];
    for (code, name) in shown {
        assert_eq!(code_display_name(code), name);
    }
    assert_eq!(default_capture_hint(), "点击此处，按下键盘组合键，或鼠标中键/侧键");
}

#[test]
fn only_some_keys_are_recorded() {
    for k in keys() {
        assert_eq!(winit_physical_key_to_code(Some(&k)), Some(k.clone()));
        assert!(!is_modifier_code(&k));
    }
    for k in ["F13", "F0", "KeyAA", "Key", "Digit", "ShiftLeft", "SuperLeft", "IntlRo", ""] {
        assert_eq!(winit_physical_key_to_code(Some(k)), None);
    }
    assert_eq!(winit_physical_key_to_code(None), None);
    for k in [
        "ShiftLeft", "ShiftRight", "ControlLeft", "ControlRight", "AltLeft", "AltRight",
        "MetaLeft", "MetaRight",
    ] {
        assert!(is_modifier_code(k));
    }
}

#[test]
fn recording_a_key() {
    let mods = winit_modifiers(false, true, false, false);
    match capture_key(mods, Some("KeyK")) {
        CaptureStep::Bind(c) => {
            assert_eq!(c.key, "KeyK");
            assert_eq!(c.mods, mods);
        }
        other => panic!("{:?}", other),
    }
    assert!(matches!(capture_key(mods, Some("Escape")), CaptureStep::Cancel));
    assert!(matches!(capture_key(mods, Some("ShiftLeft")), CaptureStep::Ignore));
    assert!(matches!(capture_key(mods, None), CaptureStep::Ignore));
}

#[test]
fn buttons_by_number() {
    assert_eq!(slint_mouse_button(0), Some(MouseButton::Middle));
    assert_eq!(slint_mouse_button(1), Some(MouseButton::X1));
    assert_eq!(slint_mouse_button(2), Some(MouseButton::X2));
    assert_eq!(slint_mouse_button(3), None);
    assert_eq!(slint_mouse_button(-1), None);
}

#[test]
fn hotkey_is_taken_up_and_down() {
    let mut held = Some(combo(false, false, true, false, "KeyA"));
    let next = HotkeyBinding::Keyboard(combo(false, true, false, false, "KeyB"));
    let plan = register_active(&mut held, true, Some(&next));
    assert!(held.is_none());
    assert_eq!(plan.release.map(|c| c.key), Some("KeyA".to_string()));
    let c = match plan.step {
        HotkeyStep::RegisterKey(c) => c,
        other => panic!("{:?}", other),
    };
    assert_eq!(key_registered(&mut held, c.clone(), Err("taken".to_string())), Err("taken".to_string()));
    assert!(held.is_none());
    assert_eq!(key_registered(&mut held, c, Ok(())), Ok(()));
    assert_eq!(held.as_ref().map(|c| c.key.clone()), Some("KeyB".to_string()));
    let plan = register_active(&mut held, false, Some(&next));
    assert!(matches!(plan.step, HotkeyStep::Rest));
    assert!(plan.release.is_some());
    assert!(matches!(register_active(&mut held, true, None).step, HotkeyStep::Rest));
    let plan = register_active(&mut held, true, Some(&HotkeyBinding::Mouse(MouseButton::X1)));
    assert!(matches!(plan.step, HotkeyStep::WatchButton(MouseButton::X1)));
    let mut held = Some(combo(false, false, true, false, "KeyA"));
    assert!(unregister_active(&mut held).is_some());
    assert!(held.is_none());
}

#[test]
fn settings_ask_for_the_hotkey() {
    let mut c = UserConfig::default();
    assert_eq!(hotkey_display_label(&c), "（未设置）");
    apply_hotkey_binding(&mut c, &HotkeyBinding::Keyboard(combo(false, false, true, false, "Space")));
    assert_eq!(c.hotkey.as_deref(), Some("kb:alt+Space"));
    assert_eq!(hotkey_display_label(&c), "Alt + Space");
    c.hotkey_enabled = false;
    assert_eq!(hotkey_display_label(&c), "（已禁用）");
    apply_hotkey_binding(&mut c, &HotkeyBinding::Mouse(MouseButton::Middle));
    assert!(c.hotkey_enabled);
    let mut held: Option<KeyCombo> = None;
    c.hotkey = Some("preset:1".to_string());
    match apply_hotkey_from_config(&mut c, &mut held, true) {
        Ok(plan) => match plan.step {
            HotkeyStep::RegisterKey(k) => assert_eq!(k.key, "Space"),
            other => panic!("{:?}", other),
        },
        Err(e) => panic!("{}", e),
    }
    assert_eq!(c.hotkey.as_deref(), Some("kb:alt+Space"));
    match apply_hotkey_from_config(&mut c, &mut held, false) {
        Ok(_) => panic!("no means to register"),
        Err(e) => assert_eq!(e, "热键管理器不可用"),
    }
    assert_eq!(hotkey_error_status("x"), "快捷键：x");
}

#[test]
fn mouse_messages() {
    assert_eq!(msg_to_button(0x207, 0), Some(MouseButton::Middle));
    assert_eq!(msg_to_button(0x20B, 0x1_0000), Some(MouseButton::X1));
    assert_eq!(msg_to_button(0x20B, 0x2_00ff), Some(MouseButton::X2));
    assert_eq!(msg_to_button(0x20B, 0x3_0000), None);
    assert_eq!(msg_to_button(0x201, 0x1_0000), None);
}

#[test]
fn mouse_is_watched() {
    let mut w = MouseWatch::new();
    assert!(!w.triggers(true, 0x207, 0));
    assert!(!w.install(MouseButton::Middle));
    w.hook_set();
    assert!(w.triggers(true, 0x207, 0));
    assert!(!w.triggers(false, 0x207, 0));
    assert!(!w.triggers(true, 0x20B, 0x1_0000));
    set_capture_suppress_mouse(&mut w, true);
    assert!(!w.triggers(true, 0x207, 0));
    w.set_suppress(false);
    assert!(w.install(MouseButton::X1));
    w.hook_set();
    assert!(w.triggers(true, 0x20B, 0x1_0000));
    assert!(w.uninstall());
    assert!(!w.uninstall());
    assert!(!w.triggers(true, 0x20B, 0x1_0000));
}

//! What holds of the settings, whatever they are: what a change leaves, what is shown of it, and
//! which hotkey is taken up.

use vstd::prelude::*;

use crate::custom_hotkey::{
    binding_from_storage, binding_label, migrate_legacy_hotkey, HotkeyBinding, HotkeyPlan,
    HotkeyStep, KeyCombo, ModifierKeys,
};
use crate::hotkey_laws::can_be_bound;
use crate::lists::first_where_exists;
use crate::models::{SkinId, UserConfig};
use crate::path_convert::resolve_path;
use crate::paths::path_join;
use crate::settings::{
    apply_hotkey_binding, apply_hotkey_from_config, bg_overlay_rgba_for_skin, capture_key,
    clear_background, hotkey_display_label, hotkey_error_status, resolved_background_path,
    save_launcher_title, set_background, set_icon_size, set_skin, set_window_opacity, settings_view,
    start_view, toggle_always_on_top, toggle_auto_start, toggle_edge_auto_hide,
    toggle_hide_on_launch_click, toggle_hotkey_enabled, toggle_start_minimized, tray_action,
    usage_missing_status, usage_txt_path, CaptureStep, SettingsView, StartView, TrayAction,
};
use crate::text_laws::{stands_between_space, trimmed_part};

verus! {

// ---------------------------------------------------------------------------------------------
// Changes
// ---------------------------------------------------------------------------------------------

/// A switch that is turned is the other way round, and nothing else changes.
pub proof fn switches_are_turned(
    top: &mut UserConfig,
    r1: bool,
    auto_start: &mut UserConfig,
    r2: bool,
    tray: &mut UserConfig,
    r3: bool,
    edge: &mut UserConfig,
    r4: bool,
    launch: &mut UserConfig,
    r5: bool,
    hotkey: &mut UserConfig,
    r6: bool,
)
    requires
        call_ensures(toggle_always_on_top, (top,), r1),
        call_ensures(toggle_auto_start, (auto_start,), r2),
        call_ensures(toggle_start_minimized, (tray,), r3),
        call_ensures(toggle_edge_auto_hide, (edge,), r4),
        call_ensures(toggle_hide_on_launch_click, (launch,), r5),
        call_ensures(toggle_hotkey_enabled, (hotkey,), r6),
    ensures
        r1 != old(top).always_on_top && *final(top) == (UserConfig {
            always_on_top: r1,
            ..*old(top)
        }),
        r2 != old(auto_start).auto_start && *final(auto_start) == (UserConfig {
            auto_start: r2,
            ..*old(auto_start)
        }),
        r3 != old(tray).start_minimized && *final(tray) == (UserConfig {
            start_minimized: r3,
            ..*old(tray)
        }),
        r4 != old(edge).edge_auto_hide && *final(edge) == (UserConfig {
            edge_auto_hide: r4,
            ..*old(edge)
        }),
        r5 != old(launch).hide_on_launch_click && *final(launch) == (UserConfig {
            hide_on_launch_click: r5,
            ..*old(launch)
        }),
        r6 != old(hotkey).hotkey_enabled && *final(hotkey) == (UserConfig {
            hotkey_enabled: r6,
            ..*old(hotkey)
        }),
{
}

/// The title is what was entered between white space; where nothing else was entered, it is the
/// one of a new installation.
pub proof fn entered_title_is_taken(
    config: &mut UserConfig,
    input: &str,
    a: Seq<char>,
    t: Seq<char>,
    b: Seq<char>,
)
    requires
        call_ensures(save_launcher_title, (config, input), ()),
        input@ == a + t + b,
        stands_between_space(a, t, b),
    ensures
        t.len() > 0 ==> final(config).launcher_title@ == t,
        t.len() == 0 ==> final(config).launcher_title@ == "亦安"@,
        *final(config) == (UserConfig {
            launcher_title: final(config).launcher_title,
            ..*old(config)
        }),
{
    trimmed_part(input@, a, t, b);
}

/// A size of icons from 28 to 64 is taken as it is, and the nearest of these in place of another.
/// An opacity is taken in the same way, from 50 to 100.
pub proof fn sizes_are_kept_in_bounds(
    config: &mut UserConfig,
    size: i64,
    r: u8,
    other: &mut UserConfig,
    percent: i64,
    s: u8,
)
    requires
        call_ensures(set_icon_size, (config, size), r),
        call_ensures(set_window_opacity, (other, percent), s),
    ensures
        28 <= r <= 64 && (28 <= size <= 64 ==> r == size),
        size < 28 ==> r == 28,
        size > 64 ==> r == 64,
        *final(config) == (UserConfig { icon_size: r, ..*old(config) }),
        50 <= s <= 100 && (50 <= percent <= 100 ==> s == percent),
        percent < 50 ==> s == 50,
        percent > 100 ==> s == 100,
        *final(other) == (UserConfig { window_opacity: s, ..*old(other) }),
{
}

/// A colour scheme that is chosen by its number is shown under that number; any other number
/// stands for the first. Nothing else changes.
pub proof fn chosen_scheme_is_shown(
    config: &mut UserConfig,
    index: i32,
    shown: &UserConfig,
    view: SettingsView,
)
    requires
        call_ensures(set_skin, (config, index), ()),
        *shown == *final(config),
        call_ensures(settings_view, (shown,), view),
    ensures
        0 <= index <= 3 ==> view.skin_index == index,
        !(0 <= index <= 3) ==> view.skin_index == 0,
        *final(config) == (UserConfig { skin: final(config).skin, ..*old(config) }),
{
}

/// The schemes and their numbers.
pub proof fn schemes_are_numbered(i: i32, skin: SkinId, s: SkinId, n: i32)
    requires
        call_ensures(SkinId::from_index, (i,), skin),
        call_ensures(SkinId::as_index, (s,), n),
    ensures
        0 <= n <= 3,
        i == n ==> skin == s,
        !(1 <= i <= 3) ==> skin == SkinId::Dark,
        s == SkinId::Dark <==> n == 0,
        s == SkinId::Light <==> n == 1,
        s == SkinId::Warm <==> n == 2,
        s == SkinId::Cozy <==> n == 3,
{
}

/// The colour laid over the picture is nearly white under the light scheme and dark under the
/// others; the picture shines through under each.
pub proof fn overlay_goes_with_scheme(skin: SkinId, r: (u8, u8, u8, u8))
    requires
        call_ensures(bg_overlay_rgba_for_skin, (skin,), r),
    ensures
        skin == SkinId::Dark ==> r == (12u8, 18u8, 28u8, 178u8),
        skin == SkinId::Light ==> r == (245u8, 247u8, 250u8, 170u8),
        skin == SkinId::Warm ==> r == (44u8, 34u8, 28u8, 168u8),
        skin == SkinId::Cozy ==> r == (26u8, 22u8, 34u8, 168u8),
{
}

/// A picture that is set is the one found where its path leads, and the settings window tells
/// that there is one; after it is cleared, neither holds. Nothing else changes.
pub proof fn picture_is_set_and_cleared(
    config: &mut UserConfig,
    path: String,
    with: &UserConfig,
    base: &str,
    found: Option<String>,
    stored: &str,
    place: String,
    view: SettingsView,
    other: &mut UserConfig,
    without: &UserConfig,
    none: Option<String>,
    empty_view: SettingsView,
)
    requires
        call_ensures(set_background, (config, path), ()),
        *with == *final(config),
        call_ensures(resolved_background_path, (with, base), found),
        stored@ == path@,
        call_ensures(resolve_path, (base, stored), place),
        call_ensures(settings_view, (with,), view),
        call_ensures(clear_background, (other,), ()),
        *without == *final(other),
        call_ensures(resolved_background_path, (without, base), none),
        call_ensures(settings_view, (without,), empty_view),
    ensures
        found is Some && found->0@ == place@,
        view.background@ == "已设置自定义背景"@,
        none is None,
        empty_view.background@ == "未设置"@,
        *final(config) == (UserConfig { background_image: Some(path), ..*old(config) }),
        *final(other) == (UserConfig { background_image: None, ..*old(other) }),
{
}

/// The settings window shows each setting as it is.
pub proof fn settings_are_shown_as_they_are(config: &UserConfig, view: SettingsView)
    requires
        call_ensures(settings_view, (config,), view),
    ensures
        view.always_on_top == config.always_on_top && view.auto_start == config.auto_start,
        view.start_minimized == config.start_minimized && view.edge_auto_hide
            == config.edge_auto_hide,
        view.hide_on_launch_click == config.hide_on_launch_click,
        view.icon_size == config.icon_size && view.window_opacity == config.window_opacity,
        view.launcher_title@ == config.launcher_title@,
{
}

// ---------------------------------------------------------------------------------------------
// The hotkey
// ---------------------------------------------------------------------------------------------

/// What is shown of the hotkey: that it is off, that none is set, or the label of what it is bound
/// to.
pub proof fn hotkey_is_shown(
    config: &UserConfig,
    r: String,
    raw: &Option<String>,
    bound: Option<HotkeyBinding>,
    b: &HotkeyBinding,
    label: String,
)
    requires
        call_ensures(hotkey_display_label, (config,), r),
        *raw == config.hotkey,
        call_ensures(binding_from_storage, (raw,), bound),
        bound is Some ==> *b == bound->0,
        call_ensures(binding_label, (b,), label),
    ensures
        !config.hotkey_enabled ==> r@ == "（已禁用）"@,
        config.hotkey_enabled && bound is None ==> r@ == "（未设置）"@,
        config.hotkey_enabled && bound is Some ==> r@ == label@,
{
}

/// A hotkey that is bound is on, is shown by its label, and is what is taken up; what was held
/// before is given up. Nothing else changes.
pub proof fn bound_hotkey_is_taken_up(
    config: &mut UserConfig,
    b: &HotkeyBinding,
    shown: &UserConfig,
    text: String,
    label: String,
    again: &mut UserConfig,
    held: &mut Option<KeyCombo>,
    r: Result<HotkeyPlan, String>,
    raw: &Option<String>,
    bound: Option<HotkeyBinding>,
)
    requires
        call_ensures(apply_hotkey_binding, (config, b), ()),
        *shown == *final(config),
        *raw == final(config).hotkey,
        call_ensures(binding_from_storage, (raw,), bound),
        call_ensures(hotkey_display_label, (shown,), text),
        call_ensures(binding_label, (b,), label),
        *old(again) == *final(config),
        call_ensures(apply_hotkey_from_config, (again, held, true), r),
        b is Keyboard ==> can_be_bound(b->Keyboard_0.key@),
    ensures
        final(config).hotkey_enabled,
        *final(config) == (UserConfig {
            hotkey: final(config).hotkey,
            hotkey_enabled: true,
            ..*old(config)
        }),
        text@ == label@,
        r is Ok && r->Ok_0.release == *old(held) && *final(held) is None,
        b is Mouse ==> r->Ok_0.step is WatchButton && r->Ok_0.step->WatchButton_0 == b->Mouse_0,
        b is Keyboard ==> r->Ok_0.step is RegisterKey && r->Ok_0.step->RegisterKey_0.mods
            == b->Keyboard_0.mods && r->Ok_0.step->RegisterKey_0.key@ == b->Keyboard_0.key@,
{
    if b is Keyboard {
        crate::hotkey_laws::bindable_is_capturable(b->Keyboard_0.key@);
    }
    assert(raw->0@ == crate::custom_hotkey::binding_text(b@));
    crate::settings::bound_hotkey_is_asked_for(*shown, b@);
}

/// A hotkey that is off is not taken up, nor one where none is set; without the means to register
/// keys the user is told so, and what is held stays held.
pub proof fn hotkey_that_is_off_rests(
    config: &mut UserConfig,
    held: &mut Option<KeyCombo>,
    can_register: bool,
    r: Result<HotkeyPlan, String>,
)
    requires
        call_ensures(apply_hotkey_from_config, (config, held, can_register), r),
    ensures
        can_register && (!old(config).hotkey_enabled || old(config).hotkey is None) ==> r is Ok
            && r->Ok_0.step is Rest && r->Ok_0.release == *old(held) && *final(held) is None,
        !can_register ==> r is Err && r->Err_0@ == "热键管理器不可用"@ && *final(held) == *old(held),
        *final(config) == (UserConfig { hotkey: final(config).hotkey, ..*old(config) }),
{
}

/// A hotkey as an earlier version stored it is rewritten before it is taken up.
pub proof fn earlier_hotkey_is_rewritten_first(
    config: &mut UserConfig,
    held: &mut Option<KeyCombo>,
    can_register: bool,
    r: Result<HotkeyPlan, String>,
    stored: &mut Option<String>,
    raw: &Option<String>,
    bound: Option<HotkeyBinding>,
)
    requires
        call_ensures(apply_hotkey_from_config, (config, held, can_register), r),
        *old(stored) == old(config).hotkey,
        call_ensures(migrate_legacy_hotkey, (stored,), ()),
        *raw == *final(stored),
        call_ensures(binding_from_storage, (raw,), bound),
        old(config).hotkey is Some,
    ensures
        final(config).hotkey is Some && final(config).hotkey->0@ == final(stored)->0@,
        can_register && old(config).hotkey_enabled ==> {
            &&& bound is None ==> r->Ok_0.step is Rest
            &&& bound is Some && bound->0 is Mouse ==> r->Ok_0.step == HotkeyStep::WatchButton(
                bound->0->Mouse_0,
            )
            &&& bound is Some && bound->0 is Keyboard ==> r->Ok_0.step is RegisterKey
                && r->Ok_0.step->RegisterKey_0@ == bound->0->Keyboard_0@
        },
{
}

/// While a hotkey is recorded, escape ends it, a key that can be bound becomes the hotkey with the
/// modifiers held, and any other key counts for nothing.
pub proof fn pressed_key_is_captured(mods: ModifierKeys, key: Option<&str>, r: CaptureStep)
    requires
        call_ensures(capture_key, (mods, key), r),
    ensures
        r is Cancel <==> key is Some && key->0@ == "Escape"@,
        r is Bind <==> key is Some && key->0@ != "Escape"@ && can_be_bound(key->0@),
        r is Bind ==> r->Bind_0.mods == mods && r->Bind_0.key@ == key->0@,
{
    if key is Some {
        crate::hotkey_laws::bindable_is_capturable(key->0@);
        if can_be_bound(key->0@) {
            crate::custom_hotkey::capturable_key_stands_by_itself(key->0@);
        }
    }
}

/// What the user is told of an error holds the error.
pub proof fn errors_are_told(error: &str, r: String, path: &str, s: String)
    requires
        call_ensures(hotkey_error_status, (error,), r),
        call_ensures(usage_missing_status, (path,), s),
    ensures
        r@ == "快捷键："@ + error@,
        s@ == "未找到使用说明，请将 USAGE.txt 放在程序同目录："@ + path@,
{
}

// ---------------------------------------------------------------------------------------------
// Start, help and tray
// ---------------------------------------------------------------------------------------------

/// At the start the first group is chosen. Its password is asked for just where it has one that is
/// not empty and was not entered; the user is told the group's name.
pub proof fn first_group_is_chosen(config: &UserConfig, unlocked: &Vec<String>, r: StartView)
    requires
        call_ensures(start_view, (config, unlocked), r),
    ensures
        config.categories@.len() == 0 ==> r.selected@.len() == 0,
        config.categories@.len() > 0 ==> {
            let c = config.categories@[0];
            &&& r.selected@ == c.id@
            &&& r.ask_password is Some <==> c.password is Some && c.password->0@.len() > 0 && forall|
                i: int,
            |
                0 <= i < unlocked@.len() ==> (#[trigger] unlocked@[i])@ != c.id@
            &&& r.ask_password is Some ==> r.ask_password->0@ == c.name@ && r.status@
                == "该分组已密码保护，请输入密码查看"@
        },
        r.ask_password is None ==> r.status@
            == "就绪：可拖入 exe · lnk · url · 文本链接 · 文件夹 · 图片 · 文档"@,
{
    if config.categories@.len() > 0 {
        let id = config.categories@[0].id@;
        first_where_exists(config.categories@, crate::groups::with_id(id), 0);
        let ts = crate::text::texts(unlocked@);
        if ts.contains(id) {
            let i = choose|i: int| 0 <= i < ts.len() && ts[i] == id;
            assert(unlocked@[i]@ == id);
        }
        assert forall|i: int| 0 <= i < unlocked@.len() && (#[trigger] unlocked@[i])@ == id implies
            ts.contains(id) by {
            assert(ts[i] == id);
        }
    } else {
        crate::lists::first_where_means(
            config.categories@,
            crate::groups::with_id(Seq::<char>::empty()),
        );
    }
}

/// The file of help stands beside the program, or in the current directory where that is unknown.
pub proof fn help_stands_beside_program(root: Option<String>, r: String)
    requires
        call_ensures(usage_txt_path, (root,), r),
    ensures
        root is Some ==> r@ == path_join(root->0@, "USAGE.txt"@),
        root is None ==> r@ == path_join("."@, "USAGE.txt"@),
{
}

/// Each of the four items of the tray menu does what it says; there is no other.
pub proof fn tray_items_do_what_they_say(id: &str, r: Option<TrayAction>)
    requires
        call_ensures(tray_action, (id,), r),
    ensures
        r == Some(TrayAction::Toggle) <==> id@ == "show"@,
        r == Some(TrayAction::Settings) <==> id@ == "settings"@,
        r == Some(TrayAction::Help) <==> id@ == "help"@,
        r == Some(TrayAction::Quit) <==> id@ == "quit"@,
{
    reveal_strlit("show");
    reveal_strlit("settings");
    reveal_strlit("help");
    reveal_strlit("quit");
    assert("show"@[0] == 's' && "settings"@.len() == 8 && "help"@[0] == 'h' && "quit"@[0] == 'q');
}

} // verus!

//! The user's settings: changing them, showing them, and taking up the hotkey they ask for.

use vstd::prelude::*;

use crate::custom_hotkey::{
    binding_from_storage, binding_label, binding_name, binding_text, binding_to_storage, capturable,
    is_modifier_code, migrate_legacy_hotkey, migrated, modifier_key, register_active,
    stored_binding, winit_physical_key_to_code, Binding, HotkeyBinding, HotkeyPlan, HotkeyStep,
    KeyCombo, ModifierKeys,
};
use crate::groups::{category_requires_unlock, category_title, name_or_empty, requires_unlock};
use crate::models::{default_launcher_title, SkinId, UserConfig};
use crate::numbers::clamped;
use crate::path_convert::{resolve_path, resolved};
use crate::paths::{join_path, path_join};
use crate::search::{ready_status, ready_text};
use crate::text::{concat, opt_text, same_text, texts, trim, trimmed};

verus! {

// ---------------------------------------------------------------------------------------------
// Changes
// ---------------------------------------------------------------------------------------------

/// Keeps the window above others, or no longer does.
pub fn toggle_always_on_top(config: &mut UserConfig) -> (r: bool)
    ensures
        r == !old(config).always_on_top,
        *final(config) == (UserConfig { always_on_top: r, ..*old(config) }),
{
    config.always_on_top = !config.always_on_top;
    config.always_on_top
}

/// Starts the launcher with the system, or no longer does.
pub fn toggle_auto_start(config: &mut UserConfig) -> (r: bool)
    ensures
        r == !old(config).auto_start,
        *final(config) == (UserConfig { auto_start: r, ..*old(config) }),
{
    config.auto_start = !config.auto_start;
    config.auto_start
}

/// Starts the launcher in the tray, or no longer does.
pub fn toggle_start_minimized(config: &mut UserConfig) -> (r: bool)
    ensures
        r == !old(config).start_minimized,
        *final(config) == (UserConfig { start_minimized: r, ..*old(config) }),
{
    config.start_minimized = !config.start_minimized;
    config.start_minimized
}

/// Hides the window at screen edges, or no longer does. A window that hides is shown where it no
/// longer is to hide.
pub fn toggle_edge_auto_hide(config: &mut UserConfig) -> (r: bool)
    ensures
        r == !old(config).edge_auto_hide,
        *final(config) == (UserConfig { edge_auto_hide: r, ..*old(config) }),
{
    config.edge_auto_hide = !config.edge_auto_hide;
    config.edge_auto_hide
}

/// Hides the window when an entry is launched, or no longer does.
pub fn toggle_hide_on_launch_click(config: &mut UserConfig) -> (r: bool)
    ensures
        r == !old(config).hide_on_launch_click,
        *final(config) == (UserConfig { hide_on_launch_click: r, ..*old(config) }),
{
    config.hide_on_launch_click = !config.hide_on_launch_click;
    config.hide_on_launch_click
}

/// Turns the hotkey on or off.
pub fn toggle_hotkey_enabled(config: &mut UserConfig) -> (r: bool)
    ensures
        r == !old(config).hotkey_enabled,
        *final(config) == (UserConfig { hotkey_enabled: r, ..*old(config) }),
{
    config.hotkey_enabled = !config.hotkey_enabled;
    config.hotkey_enabled
}

/// The title that an input gives: without the space around it, and the default one where nothing
/// is left.
pub open spec fn title_of(input: Seq<char>) -> Seq<char> {
    if trim(input).len() == 0 {
        "亦安"@
    } else {
        trim(input)
    }
}

/// Gives the window a title.
pub fn save_launcher_title(config: &mut UserConfig, input: &str)
    ensures
        final(config).launcher_title@ == title_of(input@),
        *final(config) == (UserConfig {
            launcher_title: final(config).launcher_title,
            ..*old(config)
        }),
{
    let t = trimmed(input);
    config.launcher_title = if t.as_str().is_empty() {
        default_launcher_title()
    } else {
        t
    };
}

fn clamp_byte(n: i64, lo: u8, hi: u8) -> (r: u8)
    requires
        lo <= hi,
    ensures
        r == clamped(n as int, lo as int, hi as int),
{
    if n < lo as i64 {
        lo
    } else if n > hi as i64 {
        hi
    } else {
        n as u8
    }
}

/// Sets the size of the icons, from 28 to 64.
pub fn set_icon_size(config: &mut UserConfig, size: i64) -> (r: u8)
    ensures
        r == clamped(size as int, 28, 64),
        *final(config) == (UserConfig { icon_size: r, ..*old(config) }),
{
    let r = clamp_byte(size, 28, 64);
    config.icon_size = r;
    r
}

/// Sets the opacity of the window in percent, from 50 to 100.
pub fn set_window_opacity(config: &mut UserConfig, percent: i64) -> (r: u8)
    ensures
        r == clamped(percent as int, 50, 100),
        *final(config) == (UserConfig { window_opacity: r, ..*old(config) }),
{
    let r = clamp_byte(percent, 50, 100);
    config.window_opacity = r;
    r
}

/// Chooses a colour scheme by its number.
pub fn set_skin(config: &mut UserConfig, index: i32)
    ensures
        *final(config) == (UserConfig { skin: SkinId::at(index as int), ..*old(config) }),
{
    config.skin = SkinId::from_index(index);
}

/// Shows a picture behind the entries.
pub fn set_background(config: &mut UserConfig, path: String)
    ensures
        *final(config) == (UserConfig { background_image: Some(path), ..*old(config) }),
{
    config.background_image = Some(path);
}

/// Shows no picture behind the entries.
pub fn clear_background(config: &mut UserConfig)
    ensures
        *final(config) == (UserConfig { background_image: None, ..*old(config) }),
{
    config.background_image = None;
}

/// The file of the picture behind the entries, seen from `base`.
pub fn resolved_background_path(config: &UserConfig, base: &str) -> (r: Option<String>)
    ensures
        opt_text(r) == match config.background_image {
            Some(p) => Some(resolved(base@, p@)),
            None => None,
        },
{
    match &config.background_image {
        Some(p) => Some(resolve_path(base, p.as_str())),
        None => None,
    }
}

/// The colour laid over the picture under a colour scheme: red, green, blue and opacity.
pub open spec fn overlay_color(skin: SkinId) -> (u8, u8, u8, u8) {
    match skin {
        SkinId::Dark => (12, 18, 28, 178),
        SkinId::Light => (245, 247, 250, 170),
        SkinId::Warm => (44, 34, 28, 168),
        SkinId::Cozy => (26, 22, 34, 168),
    }
}

/// The colour laid over the picture under a colour scheme.
pub fn bg_overlay_rgba_for_skin(skin: SkinId) -> (r: (u8, u8, u8, u8))
    ensures
        r == overlay_color(skin),
{
    match skin {
        SkinId::Dark => (12, 18, 28, 178),
        SkinId::Light => (245, 247, 250, 170),
        SkinId::Warm => (44, 34, 28, 168),
        SkinId::Cozy => (26, 22, 34, 168),
    }
}

/// The settings as the settings window shows them.
#[derive(Debug)]
pub struct SettingsView {
    pub skin_index: i32,
    pub always_on_top: bool,
    pub auto_start: bool,
    pub start_minimized: bool,
    pub edge_auto_hide: bool,
    pub hide_on_launch_click: bool,
    pub icon_size: u8,
    pub window_opacity: u8,
    pub launcher_title: String,
    pub background: String,
}

/// The settings as the settings window shows them.
pub fn settings_view(config: &UserConfig) -> (r: SettingsView)
    ensures
        r.skin_index == config.skin.number(),
        r.always_on_top == config.always_on_top,
        r.auto_start == config.auto_start,
        r.start_minimized == config.start_minimized,
        r.edge_auto_hide == config.edge_auto_hide,
        r.hide_on_launch_click == config.hide_on_launch_click,
        r.icon_size == config.icon_size,
        r.window_opacity == config.window_opacity,
        r.launcher_title@ == config.launcher_title@,
        r.background@ == (if config.background_image is Some {
            "已设置自定义背景"@
        } else {
            "未设置"@
        }),
{
    SettingsView {
        skin_index: config.skin.as_index(),
        always_on_top: config.always_on_top,
        auto_start: config.auto_start,
        start_minimized: config.start_minimized,
        edge_auto_hide: config.edge_auto_hide,
        hide_on_launch_click: config.hide_on_launch_click,
        icon_size: config.icon_size,
        window_opacity: config.window_opacity,
        launcher_title: config.launcher_title.clone(),
        background: if config.background_image.is_some() {
            "已设置自定义背景".to_owned()
        } else {
            "未设置".to_owned()
        },
    }
}

// ---------------------------------------------------------------------------------------------
// The hotkey
// ---------------------------------------------------------------------------------------------

/// What is shown of the hotkey.
pub open spec fn hotkey_label(config: UserConfig) -> Seq<char> {
    if !config.hotkey_enabled {
        "（已禁用）"@
    } else {
        match config.hotkey {
            Some(s) => match stored_binding(s@) {
                Some(b) => binding_name(b),
                None => "（未设置）"@,
            },
            None => "（未设置）"@,
        }
    }
}

/// What is shown of the hotkey.
pub fn hotkey_display_label(config: &UserConfig) -> (r: String)
    ensures
        r@ == hotkey_label(*config),
{
    if !config.hotkey_enabled {
        return "（已禁用）".to_owned();
    }
    match binding_from_storage(&config.hotkey) {
        Some(b) => binding_label(&b),
        None => "（未设置）".to_owned(),
    }
}

/// Binds the hotkey, and turns it on.
pub fn apply_hotkey_binding(config: &mut UserConfig, binding: &HotkeyBinding)
    ensures
        opt_text(final(config).hotkey) == Some(binding_text(binding@)),
        *final(config) == (UserConfig {
            hotkey: final(config).hotkey,
            hotkey_enabled: true,
            ..*old(config)
        }),
{
    config.hotkey = Some(binding_to_storage(binding));
    config.hotkey_enabled = true;
}

/// What the step takes up.
pub open spec fn taken_up(step: HotkeyStep) -> Option<Binding> {
    match step {
        HotkeyStep::Rest => None,
        HotkeyStep::RegisterKey(c) => Some(Binding::Keyboard(c.mods, c.key@)),
        HotkeyStep::WatchButton(b) => Some(Binding::Mouse(b)),
    }
}

/// What the settings ask to take up.
pub open spec fn asked_binding(config: UserConfig) -> Option<Binding> {
    match config.hotkey {
        Some(s) if config.hotkey_enabled => stored_binding(migrated(s@)),
        _ => None,
    }
}

/// What is to be done to have the hotkey that the settings ask for. A stored text of an earlier
/// version is rewritten first. Without the means to register keys, nothing is done.
pub fn apply_hotkey_from_config(
    config: &mut UserConfig,
    held: &mut Option<KeyCombo>,
    can_register: bool,
) -> (r: Result<HotkeyPlan, String>)
    ensures
        opt_text(final(config).hotkey) == match opt_text(old(config).hotkey) {
            Some(s) => Some(migrated(s)),
            None => None,
        },
        *final(config) == (UserConfig { hotkey: final(config).hotkey, ..*old(config) }),
        r is Ok <==> can_register,
        match r {
            Ok(plan) => {
                &&& plan.release == *old(held)
                &&& *final(held) is None
                &&& taken_up(plan.step) == asked_binding(*old(config))
            },
            Err(e) => e@ == "热键管理器不可用"@ && *final(held) == *old(held),
        },
{
    migrate_legacy_hotkey(&mut config.hotkey);
    if !can_register {
        return Err("热键管理器不可用".to_owned());
    }
    let binding = binding_from_storage(&config.hotkey);
    let plan = match &binding {
        Some(b) => register_active(held, config.hotkey_enabled, Some(b)),
        None => register_active(held, config.hotkey_enabled, None),
    };
    Ok(plan)
}

/// A hotkey that was bound is the one that the settings ask for, if it can be recorded.
pub proof fn bound_hotkey_is_asked_for(config: UserConfig, b: Binding)
    requires
        config.hotkey_enabled,
        config.hotkey matches Some(s) && s@ == binding_text(b),
        stored_binding(binding_text(b)) == Some(b),
    ensures
        asked_binding(config) == Some(b),
        hotkey_label(config) == binding_name(b),
{
    reveal_strlit("preset:");
    reveal_strlit("kb:");
    reveal_strlit("mouse:");
    let s = binding_text(b);
    assert("preset:"@[0] == 'p');
    assert(s[0] == 'k' || s[0] == 'm');
    assert(!crate::text::starts_with(s, "preset:"@)) by {
        if crate::text::starts_with(s, "preset:"@) {
            assert(s.subrange(0, "preset:"@.len() as int)[0] == s[0]);
        }
    }
}

/// What a key that is pressed while the hotkey is recorded leads to.
#[derive(Debug)]
pub enum CaptureStep {
    /// Nothing is recorded.
    Cancel,
    /// The combination becomes the hotkey.
    Bind(KeyCombo),
    /// The key counts for nothing by itself.
    Ignore,
}

/// What a key that is pressed while the hotkey is recorded leads to. Escape ends the recording.
pub fn capture_key(mods: ModifierKeys, key: Option<&str>) -> (r: CaptureStep)
    ensures
        match key {
            Some(k) => if k@ == "Escape"@ {
                r is Cancel
            } else if capturable(k@) && !modifier_key(k@) {
                r matches CaptureStep::Bind(c) && c@ == (mods, k@)
            } else {
                r is Ignore
            },
            None => r is Ignore,
        },
{
    if let Some(k) = key {
        if same_text(k, "Escape") {
            return CaptureStep::Cancel;
        }
    }
    match winit_physical_key_to_code(key) {
        Some(code) => if is_modifier_code(code.as_str()) {
            CaptureStep::Ignore
        } else {
            CaptureStep::Bind(KeyCombo { mods, key: code })
        },
        None => CaptureStep::Ignore,
    }
}

/// What the user is told of a hotkey that could not be taken up.
pub fn hotkey_error_status(error: &str) -> (r: String)
    ensures
        r@ == "快捷键："@ + error@,
{
    concat("快捷键：", error)
}

// ---------------------------------------------------------------------------------------------
// Start, help and tray
// ---------------------------------------------------------------------------------------------

/// What is shown at the start.
#[derive(Debug)]
pub struct StartView {
    /// The group that is chosen.
    pub selected: String,
    /// The name of the group, where its password is asked for.
    pub ask_password: Option<String>,
    pub status: String,
}

/// The group that is chosen at the start: the first.
pub open spec fn first_category(config: UserConfig) -> Seq<char> {
    if config.categories@.len() > 0 {
        config.categories@[0].id@
    } else {
        Seq::empty()
    }
}

/// What is shown at the start. Where the first group is locked, its password is asked for.
pub fn start_view(config: &UserConfig, unlocked: &Vec<String>) -> (r: StartView)
    ensures
        r.selected@ == first_category(*config),
        ({
            let first = first_category(*config);
            if requires_unlock(config.categories@, texts(unlocked@), first) {
                &&& opt_text(r.ask_password) == Some(name_or_empty(config.categories@, first))
                &&& r.status@ == "该分组已密码保护，请输入密码查看"@
            } else {
                r.ask_password is None && r.status@ == ready_text()
            }
        }),
{
    let selected = if config.categories.len() > 0 {
        config.categories[0].id.clone()
    } else {
        String::new()
    };
    if category_requires_unlock(&config.categories, unlocked, selected.as_str()) {
        let name = category_title(&config.categories, selected.as_str());
        StartView {
            selected,
            ask_password: Some(name),
            status: "该分组已密码保护，请输入密码查看".to_owned(),
        }
    } else {
        StartView { selected, ask_password: None, status: ready_status() }
    }
}

/// The file that tells how the launcher is used: beside the program.
pub fn usage_txt_path(root: Option<String>) -> (r: String)
    ensures
        r@ == path_join(
            match root {
                Some(d) => d@,
                None => "."@,
            },
            "USAGE.txt"@,
        ),
{
    match root {
        Some(d) => join_path(d.as_str(), "USAGE.txt"),
        None => join_path(".", "USAGE.txt"),
    }
}

/// What the user is told where that file is missing.
pub fn usage_missing_status(path: &str) -> (r: String)
    ensures
        r@ == "未找到使用说明，请将 USAGE.txt 放在程序同目录："@ + path@,
{
    concat("未找到使用说明，请将 USAGE.txt 放在程序同目录：", path)
}

/// What the items of the tray menu do.
#[derive(Debug, Clone, Copy, PartialEq, Eq, Structural)]
pub enum TrayAction {
    /// Show or hide the window.
    Toggle,
    /// Open the settings.
    Settings,
    /// Show how the launcher is used.
    Help,
    /// End the program.
    Quit,
}

/// What the item of the tray menu with the given id does.
pub fn tray_action(id: &str) -> (r: Option<TrayAction>)
    ensures
        r == (if id@ == "show"@ {
            Some(TrayAction::Toggle)
        } else if id@ == "settings"@ {
            Some(TrayAction::Settings)
        } else if id@ == "help"@ {
            Some(TrayAction::Help)
        } else if id@ == "quit"@ {
            Some(TrayAction::Quit)
        } else {
            None
        }),
{
    if same_text(id, "show") {
        Some(TrayAction::Toggle)
    } else if same_text(id, "settings") {
        Some(TrayAction::Settings)
    } else if same_text(id, "help") {
        Some(TrayAction::Help)
    } else if same_text(id, "quit") {
        Some(TrayAction::Quit)
    } else {
        None
    }
}

} // verus!

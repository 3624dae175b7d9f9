//! What the launcher stores: its entries, their groups and the user's settings.

use vstd::prelude::*;

use crate::numbers::{decimal, unsigned_to_text};
use crate::text::{concat, copy_opt, copy_texts, lowercase};

verus! {

/// An entry of the launcher. Nearly every field can be edited in the interface.
#[derive(Debug)]
pub struct AppInfo {
    pub id: String,
    pub name: String,
    pub path: String,
    pub icon_path: Option<String>,
    pub category_id: String,
    pub description: Option<String>,
    pub args: Vec<String>,
    pub work_dir: Option<String>,
    pub keywords: Vec<String>,
    /// The address behind a web shortcut, used to fetch its icon. `None` for programs.
    pub web_url: Option<String>,
    pub exec_count: u32,
    pub last_used: Option<u64>,
    pub sort_order: i32,
    pub pinned: bool,
    /// Entries pinned earlier stand before those pinned later: smaller is nearer the front.
    pub pin_order: u64,
}

/// Whether `copy` is the entry `app`, list by list.
pub open spec fn same_app(copy: AppInfo, app: AppInfo) -> bool {
    &&& copy.args@ == app.args@
    &&& copy.keywords@ == app.keywords@
    &&& copy == (AppInfo { args: copy.args, keywords: copy.keywords, ..app })
}

impl Clone for AppInfo {
    fn clone(&self) -> (r: Self)
        ensures
            same_app(r, *self),
    {
        AppInfo {
            id: self.id.clone(),
            name: self.name.clone(),
            path: self.path.clone(),
            icon_path: copy_opt(&self.icon_path),
            category_id: self.category_id.clone(),
            description: copy_opt(&self.description),
            args: copy_texts(&self.args),
            work_dir: copy_opt(&self.work_dir),
            keywords: copy_texts(&self.keywords),
            web_url: copy_opt(&self.web_url),
            exec_count: self.exec_count,
            last_used: self.last_used,
            sort_order: self.sort_order,
            pinned: self.pinned,
            pin_order: self.pin_order,
        }
    }
}

/// The milliseconds since the Unix epoch that `SystemTime::now` reads, or zero for a clock set
/// before it. Nothing is said of the value: it rests on the clock.
#[verifier::external_body]
fn clock_millis() -> (r: u128)
{
    std::time::SystemTime::now()
        .duration_since(std::time::UNIX_EPOCH)
        .unwrap_or_default()
        .as_millis()
}

/// The id of an entry made at `millis` after the epoch.
pub open spec fn app_id_at(millis: u128) -> Seq<char> {
    "app_"@ + decimal(millis as nat)
}

impl AppInfo {
    /// A new entry, found by its name and otherwise blank.
    pub fn new(id: String, name: String, path: String, category_id: String) -> (r: Self)
        ensures
            r.id == id,
            r.name == name,
            r.path == path,
            r.category_id == category_id,
            r.keywords@.len() == 1,
            r.keywords@[0]@ == lowercase(name@),
            r.icon_path is None,
            r.description is None,
            r.args@.len() == 0,
            r.work_dir is None,
            r.web_url is None,
            r.exec_count == 0,
            r.last_used is None,
            r.sort_order == 0,
            !r.pinned,
            r.pin_order == 0,
    {
        let keyword = name.as_str().to_lowercase();
        let mut keywords: Vec<String> = Vec::new();
        keywords.push(keyword);
        AppInfo {
            id,
            name,
            path,
            icon_path: None,
            category_id,
            description: None,
            args: Vec::new(),
            work_dir: None,
            keywords,
            web_url: None,
            exec_count: 0,
            last_used: None,
            sort_order: 0,
            pinned: false,
            pin_order: 0,
        }
    }

    /// The id of an entry made at `millis` after the epoch.
    pub fn id_at(millis: u128) -> (r: String)
        ensures
            r@ == app_id_at(millis),
    {
        let digits = unsigned_to_text(millis);
        concat("app_", digits.as_str())
    }

    /// An id for an entry made now.
    pub fn generate_id() -> (r: String)
        ensures
            exists|millis: u128| r@ == app_id_at(millis),
    {
        let millis = clock_millis();
        AppInfo::id_at(millis)
    }
}

/// A group of entries.
#[derive(Debug)]
pub struct Category {
    pub id: String,
    pub name: String,
    pub color: String,
    pub sort_order: i32,
    pub visible: bool,
    /// The password that locks the group. None is set where it is absent or empty.
    pub password: Option<String>,
}

impl Clone for Category {
    fn clone(&self) -> (r: Self)
        ensures
            r == *self,
    {
        Category {
            id: self.id.clone(),
            name: self.name.clone(),
            color: self.color.clone(),
            sort_order: self.sort_order,
            visible: self.visible,
            password: copy_opt(&self.password),
        }
    }
}

impl Category {
    /// Whether the group is locked by a password.
    pub open spec fn locked(&self) -> bool {
        self.password matches Some(p) && p@.len() > 0
    }

    /// Whether the group is locked by a password.
    pub fn has_password(&self) -> (r: bool)
        ensures
            r == self.locked(),
    {
        match &self.password {
            Some(p) => !p.as_str().is_empty(),
            None => false,
        }
    }
}

/// The colour of a group stored without one.
pub fn default_category_color() -> (r: String)
    ensures
        r@ == "#6366f1"@,
{
    "#6366f1".to_owned()
}

/// A group stored without the setting is visible.
pub fn default_true() -> (r: bool)
    ensures
        r,
{
    true
}

/// The colour schemes of the interface.
#[derive(Debug, Clone, Copy, PartialEq, Eq, Structural, Default)]
pub enum SkinId {
    #[default]
    Dark,
    Light,
    Warm,
    Cozy,
}

impl SkinId {
    /// The scheme with the given number; an unknown number is the dark scheme.
    pub open spec fn at(i: int) -> SkinId {
        if i == 1 {
            SkinId::Light
        } else if i == 2 {
            SkinId::Warm
        } else if i == 3 {
            SkinId::Cozy
        } else {
            SkinId::Dark
        }
    }

    /// The number of the scheme.
    pub open spec fn number(self) -> int {
        match self {
            SkinId::Dark => 0,
            SkinId::Light => 1,
            SkinId::Warm => 2,
            SkinId::Cozy => 3,
        }
    }

    /// The scheme with the given number.
    pub fn from_index(i: i32) -> (r: Self)
        ensures
            r == SkinId::at(i as int),
    {
        match i {
            1 => SkinId::Light,
            2 => SkinId::Warm,
            3 => SkinId::Cozy,
            _ => SkinId::Dark,
        }
    }

    /// The number of the scheme.
    pub fn as_index(self) -> (r: i32)
        ensures
            r == self.number(),
    {
        match self {
            SkinId::Dark => 0,
            SkinId::Light => 1,
            SkinId::Warm => 2,
            SkinId::Cozy => 3,
        }
    }
}

/// A scheme is the one with its own number.
pub proof fn skin_number_reads_back(skin: SkinId)
    ensures
        SkinId::at(skin.number()) == skin,
{
}

/// The user's settings and all that is stored with them.
#[derive(Debug, Clone)]
pub struct UserConfig {
    pub categories: Vec<Category>,
    pub apps: Vec<AppInfo>,
    pub theme: Theme,
    pub window_geometry: Option<WindowGeometry>,
    pub hotkey: Option<String>,
    /// Whether the global hotkey is on.
    pub hotkey_enabled: bool,
    /// The size of the icons in logical pixels, about 28 to 64.
    pub icon_size: u8,
    pub auto_start: bool,
    pub search_history: Vec<String>,
    pub always_on_top: bool,
    /// Whether the launcher starts in the tray.
    pub start_minimized: bool,
    /// Whether the window hides at a screen edge until the cursor comes near.
    pub edge_auto_hide: bool,
    /// Whether launching an entry hides the window.
    pub hide_on_launch_click: bool,
    /// The opacity of the window in percent, 50 to 100.
    pub window_opacity: u8,
    pub skin: SkinId,
    pub background_image: Option<String>,
    pub launcher_title: String,
}

/// The title of a launcher that was given none.
pub fn default_launcher_title() -> (r: String)
    ensures
        r@ == "亦安"@,
{
    "亦安".to_owned()
}

/// The hotkey is on unless it was turned off.
pub fn default_hotkey_enabled() -> (r: bool)
    ensures
        r,
{
    true
}

/// The size of the icons unless another was chosen.
pub fn default_icon_size() -> (r: u8)
    ensures
        r == 46,
{
    46
}

/// The window is opaque unless another opacity was chosen.
pub fn default_window_opacity() -> (r: u8)
    ensures
        r == 100,
{
    100
}

impl UserConfig {
    /// Whether every setting, the groups and the entries aside, is as in a new installation.
    pub open spec fn has_default_settings(&self) -> bool {
        &&& self.theme == Theme::Dark
        &&& self.window_geometry is None
        &&& self.hotkey is None
        &&& self.hotkey_enabled
        &&& self.icon_size == 46
        &&& !self.auto_start
        &&& self.search_history@.len() == 0
        &&& !self.always_on_top
        &&& !self.start_minimized
        &&& !self.edge_auto_hide
        &&& !self.hide_on_launch_click
        &&& self.window_opacity == 100
        &&& self.skin == SkinId::Dark
        &&& self.background_image is None
        &&& self.launcher_title@ == "亦安"@
    }
}

impl Default for UserConfig {
    /// The settings of a new installation, without groups and entries.
    fn default() -> (r: Self)
        ensures
            r.categories@.len() == 0,
            r.apps@.len() == 0,
            r.has_default_settings(),
    {
        UserConfig {
            categories: Vec::new(),
            apps: Vec::new(),
            theme: Theme::Dark,
            window_geometry: None,
            hotkey: None,
            hotkey_enabled: true,
            icon_size: default_icon_size(),
            auto_start: false,
            search_history: Vec::new(),
            always_on_top: false,
            start_minimized: false,
            edge_auto_hide: false,
            hide_on_launch_click: false,
            window_opacity: default_window_opacity(),
            skin: SkinId::Dark,
            background_image: None,
            launcher_title: default_launcher_title(),
        }
    }
}

#[derive(Debug, Clone, Copy, PartialEq, Eq, Structural, Default)]
pub enum Theme {
    #[default]
    Dark,
    Light,
    Auto,
}

/// The place and size of the window.
#[derive(Debug, Clone, Copy, PartialEq, Eq, Structural)]
pub struct WindowGeometry {
    pub x: i32,
    pub y: i32,
    pub width: u32,
    pub height: u32,
}

/// How a launch ended.
#[derive(Debug, Clone)]
pub enum LaunchResult {
    Success,
    Failed(String),
    NotFound,
}

} // verus!

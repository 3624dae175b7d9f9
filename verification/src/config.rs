//! Where the launcher keeps its files, and how stored settings are brought up to date.

use vstd::prelude::*;

use crate::legacy::{loaded_order, sort_loaded_apps};
use crate::models::{AppInfo, Category, SkinId, Theme, UserConfig};
use crate::ordering::{
    sorted_list_stays, sorting_keeps_items, stable_sort, stably_sorted, total_preorder,
};
use crate::path_convert::resolved;
use crate::paths::{
    is_beyond_prefix, is_verbatim, join_path, parent_of, path_is_absolute, path_join, path_parent,
    plain_name, plain_path,
};
use crate::text::{concat, opt_text, same_text, to_chars};
use crate::web::looks_like_web;

verus! {

// ---------------------------------------------------------------------------------------------
// File names
// ---------------------------------------------------------------------------------------------

/// A character as it stands in a file name: those that a file system refuses, and spaces, become
/// underscores.
pub open spec fn file_name_char(c: char) -> char {
    if c == '<' || c == '>' || c == ':' || c == '"' || c == '/' || c == '\\' || c == '|' || c == '?'
        || c == '*' || c == ' ' {
        '_'
    } else {
        c
    }
}

/// A text as it stands in a file name.
pub open spec fn sanitized(s: Seq<char>) -> Seq<char> {
    s.map_values(|c: char| file_name_char(c))
}

/// The name of the picture that belongs to an entry.
pub open spec fn png_name(id: Seq<char>) -> Seq<char> {
    sanitized(id) + ".png"@
}

fn to_file_name_char(c: char) -> (r: char)
    ensures
        r == file_name_char(c),
{
    match c {
        '<' | '>' | ':' | '"' | '/' | '\\' | '|' | '?' | '*' | ' ' => '_',
        _ => c,
    }
}

/// The text as it stands in a file name.
pub fn sanitize_filename(name: &str) -> (r: String)
    ensures
        r@ == sanitized(name@),
{
    let chars = to_chars(name);
    let mut r = String::new();
    let mut i: usize = 0;
    assert(r@ =~= sanitized(chars@.take(0)));
    while i < chars.len()
        invariant
            i <= chars@.len(),
            r@ == sanitized(chars@.take(i as int)),
        decreases chars@.len() - i,
    {
        r.push(to_file_name_char(chars[i]));
        i = i + 1;
        assert(r@ =~= sanitized(chars@.take(i as int)));
    }
    assert(chars@.take(i as int) =~= chars@);
    r
}

/// A text as it stands in a file name is as long as the text, holds no character that a file
/// system refuses, and stands in a file name unchanged.
pub proof fn sanitized_text_is_clean(s: Seq<char>)
    ensures
        sanitized(s).len() == s.len(),
        forall|i: int|
            0 <= i < s.len() ==> {
                let c = #[trigger] sanitized(s)[i];
                c != '<' && c != '>' && c != ':' && c != '"' && c != '/' && c != '\\' && c != '|'
                    && c != '?' && c != '*' && c != ' '
            },
        sanitized(sanitized(s)) == sanitized(s),
{
    assert(sanitized(sanitized(s)) =~= sanitized(s));
}

fn to_png_name(id: &str) -> (r: String)
    ensures
        r@ == png_name(id@),
{
    let name = sanitize_filename(id);
    concat(name.as_str(), ".png")
}

/// The name of the picture that belongs to an entry is one component of a path.
pub proof fn png_name_is_plain(id: Seq<char>)
    ensures
        plain_name(png_name(id)),
{
    reveal_strlit(".png");
    sanitized_text_is_clean(id);
    assert forall|i: int| 0 <= i < png_name(id).len() implies {
        let c = #[trigger] png_name(id)[i];
        c != '/' && c != '\\' && c != ':'
    } by {
        if i < id.len() {
            assert(png_name(id)[i] == sanitized(id)[i]);
        }
    }
    assert(png_name(id)[id.len() as int + 1] == 'p');
}

/// The path under which the settings hold the icon that the user chose for an entry.
pub open spec fn stored_icon(id: Seq<char>) -> Seq<char> {
    path_join(path_join("config"@, "icons"@), png_name(id))
}

/// The path under which the settings hold the background picture.
pub open spec fn stored_background() -> Seq<char> {
    path_join("config"@, "background.png"@)
}

/// Whether a path leads to a file only as seen from some directory.
pub open spec fn is_relative(p: Seq<char>) -> bool {
    !looks_like_web(p) && !path_is_absolute(p)
}

/// A path with neither a root nor a drive does not look like an address of the web.
proof fn plain_path_is_no_address(p: Seq<char>)
    requires
        plain_path(p),
    ensures
        !looks_like_web(p),
{
    reveal_strlit("http://");
    reveal_strlit("https://");
    if looks_like_web(p) {
        if crate::text::starts_with(p, "http://"@) {
            assert(p[4] == p.subrange(0, 7)[4]);
        } else {
            assert(p[5] == p.subrange(0, 8)[5]);
        }
    }
}

/// The stored path of a chosen icon leads to its file: what [`ConfigManager::custom_icon_path`]
/// gives is where what [`ConfigManager::custom_icon_rel_path`] gives leads, seen from the root.
pub proof fn stored_icon_leads_to_its_file(
    root: Seq<char>,
    id: Seq<char>,
    file: Seq<char>,
    stored: Seq<char>,
)
    requires
        file == path_join(root, stored_icon(id)),
        stored == stored_icon(id) && is_relative(stored),
    ensures
        resolved(root, stored) == file,
{
}

/// The stored path of the background picture leads to its file: what
/// [`ConfigManager::background_image_path`] gives is where what
/// [`ConfigManager::background_image_rel_path`] gives leads, seen from the root.
pub proof fn stored_background_leads_to_its_file(
    root: Seq<char>,
    file: Seq<char>,
    stored: Seq<char>,
)
    requires
        file == path_join(root, stored_background()),
        stored == stored_background() && is_relative(stored),
    ensures
        resolved(root, stored) == file,
{
}

// ---------------------------------------------------------------------------------------------
// The root directory
// ---------------------------------------------------------------------------------------------

/// Why the root directory is not known.
#[derive(Debug, Clone, Copy, PartialEq, Eq, Structural)]
pub enum RootError {
    /// Neither the path of the program nor the current directory is known.
    NoProgramPath,
    /// The program has no directory of its own, and the current one is not known.
    NoRoot,
}

impl RootError {
    /// What the user is told.
    pub open spec fn text(self) -> Seq<char> {
        match self {
            RootError::NoProgramPath => "无法获取程序路径"@,
            RootError::NoRoot => "无法确定程序根目录"@,
        }
    }

    /// What the user is told.
    pub fn message(self) -> (r: String)
        ensures
            r@ == self.text(),
    {
        match self {
            RootError::NoProgramPath => "无法获取程序路径".to_owned(),
            RootError::NoRoot => "无法确定程序根目录".to_owned(),
        }
    }
}

/// The root directory of a program at `exe` that runs in `cwd`: the directory that holds the
/// program, so that the whole can be carried about, or else the current one.
pub open spec fn root_dir(
    exe: Option<Seq<char>>,
    cwd: Option<Seq<char>>,
) -> Result<Seq<char>, RootError> {
    match exe {
        None => match cwd {
            Some(dir) => Ok(dir),
            None => Err(RootError::NoProgramPath),
        },
        Some(exe) => match path_parent(exe) {
            Some(dir) if dir.len() > 0 => Ok(dir),
            _ => match cwd {
                Some(dir) => Ok(dir),
                None => Err(RootError::NoRoot),
            },
        },
    }
}

/// The root directory of a program at `exe` that runs in `cwd`.
pub fn application_root_dir(exe: Option<String>, cwd: Option<String>) -> (r: Result<
    String,
    RootError,
>)
    ensures
        r matches Ok(dir) ==> root_dir(opt_text(exe), opt_text(cwd)) == Ok::<_, RootError>(dir@),
        r matches Err(e) ==> root_dir(opt_text(exe), opt_text(cwd)) == Err::<Seq<char>, _>(e),
{
    match exe {
        None => match cwd {
            Some(dir) => Ok(dir),
            None => Err(RootError::NoProgramPath),
        },
        Some(exe) => {
            let parent = parent_of(exe.as_str());
            if let Some(dir) = parent {
                if !dir.as_str().is_empty() {
                    return Ok(dir);
                }
            }
            match cwd {
                Some(dir) => Ok(dir),
                None => Err(RootError::NoRoot),
            }
        },
    }
}

// ---------------------------------------------------------------------------------------------
// The order of the groups
// ---------------------------------------------------------------------------------------------

/// The order of the groups as a relation.
pub open spec fn category_order() -> spec_fn(Category, Category) -> bool {
    |a: Category, b: Category| a.sort_order <= b.sort_order
}

/// Puts the groups in order.
pub fn sort_categories(categories: &mut Vec<Category>)
    ensures
        stably_sorted(old(categories)@, final(categories)@, category_order()),
{
    let f = |a: &Category, b: &Category| -> (r: bool)
        ensures
            r == category_order()(*a, *b),
        { a.sort_order <= b.sort_order };
    assert(total_preorder(category_order()));
    stable_sort(categories, f, Ghost(category_order()));
}

// ---------------------------------------------------------------------------------------------
// Bringing stored settings up to date
// ---------------------------------------------------------------------------------------------

/// Whether a group is one of the user's: the id `all` once named a group of the system.
pub open spec fn users_own() -> spec_fn(Category) -> bool {
    |c: Category| c.id@ != "all"@
}

/// Whether the group is the one that a new installation has.
pub open spec fn is_default_category(c: Category) -> bool {
    &&& c.id@ == "default"@
    &&& c.name@ == "默认"@
    &&& c.color@ == "#4a82c4"@
    &&& c.sort_order == 0
    &&& c.visible
    &&& c.password is None
}

/// Whether an entry is in no group of the user's.
pub open spec fn homeless(app: AppInfo) -> bool {
    app.category_id@ == "all"@ || app.category_id@.len() == 0
}

/// The entry, moved to the group `home` where it is in no group of the user's.
pub open spec fn rehomed(app: AppInfo, home: String) -> AppInfo {
    if homeless(app) {
        AppInfo { category_id: home, ..app }
    } else {
        app
    }
}

/// The entries, those in no group of the user's moved to the group `home`.
pub open spec fn all_rehomed(apps: Seq<AppInfo>, home: String) -> Seq<AppInfo> {
    apps.map_values(|app: AppInfo| rehomed(app, home))
}

/// Whether `after` is what stored settings become when they are loaded. The group of the system
/// is dropped; where no group is left, the default one is made; entries in no group go to the
/// first one; and groups and entries are put in order.
pub open spec fn brought_up_to_date(before: UserConfig, after: UserConfig) -> bool {
    let kept = before.categories@.filter(users_own());
    let home = if kept.len() == 0 {
        after.categories@[0].id
    } else {
        kept[0].id
    };
    &&& if kept.len() == 0 {
        after.categories@.len() == 1 && is_default_category(after.categories@[0])
    } else {
        stably_sorted(kept, after.categories@, category_order())
    }
    &&& stably_sorted(all_rehomed(before.apps@, home), after.apps@, loaded_order())
    &&& after == (UserConfig { categories: after.categories, apps: after.apps, ..before })
}

fn keep_users_own(categories: Vec<Category>) -> (r: Vec<Category>)
    ensures
        r@ == categories@.filter(users_own()),
{
    let mut r: Vec<Category> = Vec::new();
    let mut i: usize = 0;
    proof {
        crate::lists::filter_of_nothing(categories@, users_own());
    }
    while i < categories.len()
        invariant
            i <= categories@.len(),
            r@ == categories@.take(i as int).filter(users_own()),
        decreases categories@.len() - i,
    {
        proof {
            crate::lists::filter_grows(categories@, users_own(), i as int);
        }
        if !same_text(categories[i].id.as_str(), "all") {
            r.push(categories[i].clone());
        }
        i = i + 1;
    }
    assert(categories@.take(i as int) =~= categories@);
    r
}

fn rehome(apps: &mut Vec<AppInfo>, home: &String)
    ensures
        final(apps)@ == all_rehomed(old(apps)@, *home),
{
    let n = apps.len();
    let mut i: usize = 0;
    while i < n
        invariant
            i <= n,
            n == apps@.len(),
            apps@.len() == old(apps)@.len(),
            forall|k: int| 0 <= k < i ==> apps@[k] == rehomed(#[trigger] old(apps)@[k], *home),
            forall|k: int| i <= k < n ==> apps@[k] == #[trigger] old(apps)@[k],
        decreases n - i,
    {
        if same_text(apps[i].category_id.as_str(), "all") || apps[i].category_id.as_str().is_empty() {
            let id = home.clone();
            apps[i].category_id = id;
        }
        i = i + 1;
    }
    assert(apps@ =~= all_rehomed(old(apps)@, *home));
}

/// Settings that were loaded hold no group of the system, at least one group, and no entry in
/// the group of the system.
pub proof fn loaded_settings_have_groups(before: UserConfig, after: UserConfig)
    requires
        brought_up_to_date(before, after),
    ensures
        after.categories@.len() > 0,
        forall|i: int|
            0 <= i < after.categories@.len() ==> (#[trigger] after.categories@[i]).id@ != "all"@,
        forall|i: int|
            0 <= i < after.apps@.len() ==> (#[trigger] after.apps@[i]).category_id@ != "all"@,
{
    let kept = before.categories@.filter(users_own());
    let home = if kept.len() == 0 {
        after.categories@[0].id
    } else {
        kept[0].id
    };
    reveal_strlit("default");
    reveal_strlit("all");
    assert("default"@.len() != "all"@.len());
    if kept.len() > 0 {
        before.categories@.lemma_filter_pred(users_own(), 0);
        sorting_keeps_items(kept, after.categories@, category_order());
        assert forall|i: int| 0 <= i < after.categories@.len() implies (
        #[trigger] after.categories@[i]).id@ != "all"@ by {
            assert(after.categories@.contains(after.categories@[i]));
            let j = choose|j: int| 0 <= j < kept.len() && kept[j] == after.categories@[i];
            before.categories@.lemma_filter_pred(users_own(), j);
        }
    }
    let mid = all_rehomed(before.apps@, home);
    sorting_keeps_items(mid, after.apps@, loaded_order());
    assert forall|i: int| 0 <= i < after.apps@.len() implies (
    #[trigger] after.apps@[i]).category_id@ != "all"@ by {
        assert(after.apps@.contains(after.apps@[i]));
        let j = choose|j: int| 0 <= j < mid.len() && mid[j] == after.apps@[i];
        assert(mid[j] == rehomed(before.apps@[j], home));
    }
}

/// Loading settings that were loaded before changes nothing, unless a group has an empty id.
pub proof fn loading_twice_is_loading_once(first: UserConfig, second: UserConfig, third: UserConfig)
    requires
        brought_up_to_date(first, second),
        brought_up_to_date(second, third),
        forall|i: int|
            0 <= i < second.categories@.len() ==> (#[trigger] second.categories@[i]).id@.len() > 0,
    ensures
        third.categories@ == second.categories@,
        third.apps@ == second.apps@,
{
    loaded_settings_have_groups(first, second);
    crate::lists::filter_of_all(second.categories@, users_own());
    let kept = first.categories@.filter(users_own());
    if kept.len() > 0 {
        sorting_keeps_items(kept, second.categories@, category_order());
        assert(kept.contains(kept[0]));
        assert(second.categories@.contains(kept[0]));
    } else {
        reveal_strlit("default");
    }
    sorted_list_stays(second.categories@, third.categories@, category_order());
    let home = if kept.len() == 0 {
        second.categories@[0].id
    } else {
        kept[0].id
    };
    let mid = all_rehomed(first.apps@, home);
    sorting_keeps_items(mid, second.apps@, loaded_order());
    assert forall|i: int| 0 <= i < second.apps@.len() implies !homeless(
        #[trigger] second.apps@[i],
    ) by {
        assert(second.apps@.contains(second.apps@[i]));
        let j = choose|j: int| 0 <= j < mid.len() && mid[j] == second.apps@[i];
        assert(mid[j] == rehomed(first.apps@[j], home));
    }
    assert(all_rehomed(second.apps@, second.categories@[0].id) =~= second.apps@);
    sorted_list_stays(second.apps@, third.apps@, loaded_order());
}

/// The settings to work with, and whether they are to be written to the settings file.
pub struct LoadedConfig {
    pub config: UserConfig,
    pub write_back: bool,
}

// ---------------------------------------------------------------------------------------------
// The files
// ---------------------------------------------------------------------------------------------

/// Where the launcher keeps its files. All of them stand under one root directory.
#[derive(Debug)]
pub struct ConfigManager {
    config_dir: String,
    config_file: String,
    cache_dir: String,
}

impl Clone for ConfigManager {
    fn clone(&self) -> (r: Self)
        ensures
            r.root() == self.root(),
    {
        proof {
            use_type_invariant(self);
        }
        ConfigManager {
            config_dir: self.config_dir.clone(),
            config_file: self.config_file.clone(),
            cache_dir: self.cache_dir.clone(),
        }
    }
}

impl ConfigManager {
    /// The root directory.
    pub closed spec fn root(&self) -> Seq<char> {
        self.config_dir@
    }

    #[verifier::type_invariant]
    spec fn in_place(self) -> bool {
        &&& self.cache_dir@ == self.config_dir@
        &&& self.config_file@ == path_join(self.config_dir@, "config.json"@)
    }

    /// The files of a program at `exe` that runs in `cwd`.
    pub fn new(exe: Option<String>, cwd: Option<String>) -> (r: Result<Self, RootError>)
        ensures
            r matches Ok(m) ==> root_dir(opt_text(exe), opt_text(cwd)) == Ok::<_, RootError>(
                m.root(),
            ),
            r matches Err(e) ==> root_dir(opt_text(exe), opt_text(cwd)) == Err::<Seq<char>, _>(e),
    {
        match application_root_dir(exe, cwd) {
            Ok(root) => {
                let config_file = join_path(root.as_str(), "config.json");
                Ok(ConfigManager { config_dir: root.clone(), config_file, cache_dir: root })
            },
            Err(e) => Err(e),
        }
    }

    /// The directories that must exist before a file is written, in the order in which they are
    /// made.
    pub fn ensure_dirs(&self) -> (r: Vec<String>)
        ensures
            crate::text::texts(r@) == seq![
                self.root(),
                self.root(),
                path_join(self.root(), "icons"@),
                path_join(self.root(), "config"@),
                path_join(path_join(self.root(), "config"@), "icons"@),
            ],
    {
        proof {
            use_type_invariant(self);
        }
        let mut r: Vec<String> = Vec::new();
        r.push(self.config_dir.clone());
        r.push(self.cache_dir.clone());
        r.push(join_path(self.cache_dir.as_str(), "icons"));
        r.push(join_path(self.config_dir.as_str(), "config"));
        r.push(self.custom_icons_dir());
        r
    }

    /// The settings file.
    pub fn config_file_path(&self) -> (r: String)
        ensures
            r@ == path_join(self.root(), "config.json"@),
    {
        proof {
            use_type_invariant(self);
        }
        self.config_file.clone()
    }

    /// The directory of the icons that the user chose.
    pub fn custom_icons_dir(&self) -> (r: String)
        ensures
            r@ == path_join(path_join(self.root(), "config"@), "icons"@),
    {
        let dir = join_path(self.config_dir.as_str(), "config");
        join_path(dir.as_str(), "icons")
    }

    /// The icon that the user chose for an entry. It lies in the directory of such icons.
    pub fn custom_icon_path(&self, app_id: &str) -> (r: String)
        ensures
            r@ == path_join(
                path_join(path_join(self.root(), "config"@), "icons"@),
                png_name(app_id@),
            ),
            r@ == path_join(self.root(), stored_icon(app_id@)),
            path_is_absolute(self.root()) && (is_verbatim(self.root()) ==> is_beyond_prefix(
                self.root(),
            )) ==> path_parent(r@) == Some(
                path_join(path_join(self.root(), "config"@), "icons"@),
            ),
    {
        proof {
            reveal_strlit("config");
            reveal_strlit("icons");
            assert("config"@[0] != '.' && "icons"@[0] != '.');
            png_name_is_plain(app_id@);
        }
        let dir = self.custom_icons_dir();
        let name = to_png_name(app_id);
        join_path(dir.as_str(), name.as_str())
    }

    /// The icon that the user chose for an entry, seen from the root directory. The settings
    /// hold this path, so that they survive a move of the whole.
    pub fn custom_icon_rel_path(&self, app_id: &str) -> (r: String)
        ensures
            r@ == stored_icon(app_id@),
            is_relative(r@),
    {
        proof {
            reveal_strlit("config");
            reveal_strlit("icons");
            assert("icons"@[0] != '.');
            png_name_is_plain(app_id@);
        }
        let dir = join_path("config", "icons");
        let name = to_png_name(app_id);
        let r = join_path(dir.as_str(), name.as_str());
        proof {
            plain_path_is_no_address(r@);
        }
        r
    }

    /// The background picture.
    pub fn background_image_path(&self) -> (r: String)
        ensures
            r@ == path_join(path_join(self.root(), "config"@), "background.png"@),
            r@ == path_join(self.root(), stored_background()),
    {
        proof {
            reveal_strlit("config");
            reveal_strlit("background.png");
            assert("config"@[0] != '.' && "background.png"@[0] != '.');
        }
        let dir = join_path(self.config_dir.as_str(), "config");
        join_path(dir.as_str(), "background.png")
    }

    /// The background picture, seen from the root directory.
    pub fn background_image_rel_path(&self) -> (r: String)
        ensures
            r@ == stored_background(),
            is_relative(r@),
    {
        proof {
            reveal_strlit("config");
            reveal_strlit("background.png");
            assert("background.png"@[0] != '.');
        }
        let r = join_path("config", "background.png");
        proof {
            plain_path_is_no_address(r@);
        }
        r
    }

    /// The settings to work with, given what the settings file holds: what is stored there,
    /// brought up to date, or those of a new installation, which are then to be written.
    pub fn load_or_create_config_sync(&self, stored: Option<UserConfig>) -> (r: LoadedConfig)
        ensures
            r.write_back == stored is None,
            match stored {
                None => {
                    &&& r.config.categories@.len() == 1
                    &&& is_default_category(r.config.categories@[0])
                    &&& r.config.apps@.len() == 0
                    &&& r.config.has_default_settings()
                },
                Some(before) => brought_up_to_date(before, r.config),
            },
    {
        match stored {
            None => LoadedConfig { config: Self::create_default_config(), write_back: true },
            Some(before) => {
                let mut config = before;
                let mut categories: Vec<Category> = Vec::new();
                std::mem::swap(&mut categories, &mut config.categories);
                let ghost all = categories@;
                let mut kept = keep_users_own(categories);
                if kept.len() == 0 {
                    kept.push(Self::default_category());
                }
                let home = kept[0].id.clone();
                rehome(&mut config.apps, &home);
                let ghost unsorted = kept@;
                sort_categories(&mut kept);
                proof {
                    if all.filter(users_own()).len() == 0 {
                        sorted_list_stays(unsorted, kept@, category_order());
                    }
                }
                config.categories = kept;
                sort_loaded_apps(&mut config.apps);
                LoadedConfig { config, write_back: false }
            },
        }
    }

    /// The file in which the icon fetched for an entry is kept.
    pub fn get_icon_cache_path(&self, app_id: &str) -> (r: String)
        ensures
            r@ == path_join(path_join(self.root(), "icons"@), png_name(app_id@)),
    {
        proof {
            use_type_invariant(self);
        }
        let dir = join_path(self.cache_dir.as_str(), "icons");
        let name = to_png_name(app_id);
        join_path(dir.as_str(), name.as_str())
    }

    /// The directory under which fetched icons are kept.
    pub fn cache_dir(&self) -> (r: &String)
        ensures
            r@ == self.root(),
    {
        proof {
            use_type_invariant(self);
        }
        &self.cache_dir
    }

    /// The directory in which shortcuts are made that are dragged out of the window.
    pub fn dragout_dir(&self) -> (r: String)
        ensures
            r@ == path_join(self.root(), "dragout"@),
    {
        proof {
            use_type_invariant(self);
        }
        join_path(self.cache_dir.as_str(), "dragout")
    }

    /// The directory from which relative paths in the settings are seen.
    pub fn config_dir_path(&self) -> (r: String)
        ensures
            r@ == self.root(),
    {
        self.config_dir.clone()
    }

    /// The group that a new installation has.
    pub fn default_category() -> (r: Category)
        ensures
            is_default_category(r),
    {
        Category {
            id: "default".to_owned(),
            name: "默认".to_owned(),
            color: "#4a82c4".to_owned(),
            sort_order: 0,
            visible: true,
            password: None,
        }
    }

    /// The settings of a new installation.
    pub fn create_default_config() -> (r: UserConfig)
        ensures
            r.categories@.len() == 1,
            is_default_category(r.categories@[0]),
            r.apps@.len() == 0,
            r.has_default_settings(),
    {
        let mut categories: Vec<Category> = Vec::new();
        categories.push(Self::default_category());
        UserConfig {
            categories,
            apps: Vec::new(),
            theme: Theme::Dark,
            window_geometry: None,
            hotkey: None,
            hotkey_enabled: true,
            icon_size: 46,
            auto_start: false,
            search_history: Vec::new(),
            always_on_top: false,
            start_minimized: false,
            edge_auto_hide: false,
            hide_on_launch_click: false,
            window_opacity: 100,
            skin: SkinId::Dark,
            background_image: None,
            launcher_title: crate::models::default_launcher_title(),
        }
    }
}

} // verus!

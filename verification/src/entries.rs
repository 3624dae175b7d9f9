//! What the user does with entries: launching, pinning, moving, editing, deleting and adding
//! them.

use vstd::prelude::*;

use crate::catalog::{
    app_order, apply_display_sort_index, display_sort_index_in_category, find_app, has_id, ids_of,
    is_text, joining_order, next_sort_order_for_new_app, placed, shown_in, sort_apps_by_usage,
};
use crate::groups::{
    category_at, category_exists, category_name_by_id, category_requires_unlock, category_shown,
    category_title, exists_category, meant_category, name_or_empty, requires_unlock,
    resolve_category_id_input, shown_category,
};
use crate::links::{parse_internet_shortcut_url, shortcut_url};
use crate::lists::{first_where, keep_items};
use crate::models::{app_id_at, same_app, AppInfo, Category, LaunchResult, UserConfig};
use crate::numbers::{decimal, parse_i32, signed_to_text, unsigned_to_text, written_i32};
use crate::ordering::stably_sorted;
use crate::path_convert::{resolve_path, resolved};
use crate::paths::{
    begins_with, extension_of, file_name_of, file_stem_of, join_path, path_begins_with,
    path_extension, path_file_name, path_file_stem, path_join,
};
use crate::text::{
    ascii_lowercase, concat, concat3, has_prefix, is_blank, join, joined, lowercase, opt_text,
    same_ignoring_ascii_case, same_text, split_words, starts_with, texts, trim, trimmed, words,
};
use crate::web::{is_web_scheme, parse_address, parsed_url, web_address};

verus! {

// ---------------------------------------------------------------------------------------------
// Launching
// ---------------------------------------------------------------------------------------------

/// The entry after it was launched at `now`, in seconds since the epoch.
pub open spec fn launched(app: AppInfo, now: u64) -> AppInfo {
    AppInfo { exec_count: (app.exec_count + 1) as u32, last_used: Some(now), ..app }
}

/// Whether `copy` is the entry, but with the path to which it leads seen from `base`.
pub open spec fn led_copy(copy: AppInfo, app: AppInfo, base: Seq<char>) -> bool {
    &&& same_app(copy, AppInfo { path: copy.path, ..app })
    &&& copy.path@ == resolved(base, app.path@)
}

/// Begins the launch of an entry: counts it, and gives the entry as it is launched. None where
/// there is no such entry.
pub fn launch_single_app(apps: &mut Vec<AppInfo>, base: &str, app_id: &str, now: u64) -> (r: Option<
    AppInfo,
>)
    requires
        first_where(old(apps)@, has_id(app_id@)) matches Some(i) ==> old(apps)@[i].exec_count
            < u32::MAX,
    ensures
        match first_where(old(apps)@, has_id(app_id@)) {
            Some(i) => {
                &&& final(apps)@ == old(apps)@.update(i, launched(old(apps)@[i], now))
                &&& r is Some && led_copy(r->0, launched(old(apps)@[i], now), base@)
            },
            None => r is None && *final(apps) == *old(apps),
        },
{
    match find_app(apps, app_id) {
        None => None,
        Some(i) => {
            let ghost before = apps@;
            let count = apps[i].exec_count;
            apps[i].exec_count = count + 1;
            apps[i].last_used = Some(now);
            assert(apps@ =~= before.update(i as int, launched(before[i as int], now)));
            let mut app = apps[i].clone();
            app.path = resolve_path(base, app.path.as_str());
            Some(app)
        },
    }
}

/// What a click on an item leads to.
#[derive(Debug)]
pub struct LaunchRequest {
    /// What to launch.
    pub app: Option<AppInfo>,
    /// Whether the settings are to be stored and the entries put in order.
    pub save: bool,
    /// Whether the window is to be hidden.
    pub hide: bool,
}

/// Whether the item is a file found on the computer.
pub open spec fn is_file_item(id: Seq<char>, path: Seq<char>) -> bool {
    starts_with(id, "ev:"@) && path.len() > 0
}

/// Whether the entry is a new one of the given id, name and path, in no group.
pub open spec fn is_blank_entry(
    app: AppInfo,
    id: Seq<char>,
    name: Seq<char>,
    path: Seq<char>,
) -> bool {
    &&& app.id@ == id
    &&& app.name@ == name
    &&& app.path@ == path
    &&& app.category_id@.len() == 0
    &&& texts(app.keywords@) == seq![lowercase(name)]
    &&& app.icon_path is None
    &&& app.description is None
    &&& app.args@.len() == 0
    &&& app.work_dir is None
    &&& app.web_url is None
    &&& app.exec_count == 0
    &&& app.last_used is None
    &&& app.sort_order == 0
    &&& !app.pinned
    &&& app.pin_order == 0
}

fn blank_entry(id: &str, name: &str, path: &str) -> (r: AppInfo)
    ensures
        is_blank_entry(r, id@, name@, path@),
{
    let app = AppInfo::new(id.to_owned(), name.to_owned(), path.to_owned(), String::new());
    assert(texts(app.keywords@) =~= seq![lowercase(name@)]);
    app
}

/// The user clicks on an item. An entry is counted and launched; a file found on the computer is
/// launched as it is, and nothing is stored.
pub fn launch_app(
    config: &mut UserConfig,
    base: &str,
    id: &str,
    name: &str,
    path: &str,
    now: u64,
) -> (r: LaunchRequest)
    requires
        first_where(old(config).apps@, has_id(id@)) matches Some(i) ==> old(
            config,
        ).apps@[i].exec_count < u32::MAX,
    ensures
        *final(config) == (UserConfig { apps: final(config).apps, ..*old(config) }),
        match first_where(old(config).apps@, has_id(id@)) {
            Some(i) => {
                &&& final(config).apps@ == old(config).apps@.update(
                    i,
                    launched(old(config).apps@[i], now),
                )
                &&& r.app is Some && led_copy(r.app->0, launched(old(config).apps@[i], now), base@)
                &&& r.save
                &&& r.hide == old(config).hide_on_launch_click
            },
            None => {
                &&& final(config).apps@ == old(config).apps@
                &&& !r.save
                &&& if is_file_item(id@, path@) {
                    &&& r.app is Some
                    &&& is_blank_entry(r.app->0, id@, name@, path@)
                    &&& r.hide == old(config).hide_on_launch_click
                } else {
                    r.app is None && !r.hide
                }
            },
        },
{
    let hide = config.hide_on_launch_click;
    let entry = launch_single_app(&mut config.apps, base, id, now);
    if entry.is_some() {
        return LaunchRequest { app: entry, save: true, hide };
    }
    if has_prefix(id, "ev:") && !path.is_empty() {
        let app = blank_entry(id, name, path);
        return LaunchRequest { app: Some(app), save: false, hide };
    }
    LaunchRequest { app: None, save: false, hide: false }
}

/// How many of the outcomes are good.
pub open spec fn good(outcomes: Seq<bool>) -> nat
    decreases outcomes.len(),
{
    if outcomes.len() == 0 {
        0
    } else {
        good(outcomes.drop_last()) + if outcomes.last() {
            1nat
        } else {
            0nat
        }
    }
}

/// How many launches succeeded, and how many failed.
pub fn launch_counts(outcomes: &Vec<bool>) -> (r: (usize, usize))
    ensures
        r.0 == good(outcomes@),
        r.0 + r.1 == outcomes@.len(),
{
    let mut ok: usize = 0;
    let mut fail: usize = 0;
    let mut i: usize = 0;
    while i < outcomes.len()
        invariant
            i <= outcomes@.len(),
            ok == good(outcomes@.take(i as int)),
            ok + fail == i,
        decreases outcomes@.len() - i,
    {
        assert(outcomes@.take(i + 1).drop_last() =~= outcomes@.take(i as int));
        if outcomes[i] {
            ok = ok + 1;
        } else {
            fail = fail + 1;
        }
        i = i + 1;
    }
    assert(outcomes@.take(i as int) =~= outcomes@);
    (ok, fail)
}

/// What the user is told after all entries of a group were launched.
pub fn launch_category_status(ok: usize, fail: usize) -> (r: String)
    ensures
        r@ == (if fail == 0 {
            "已启动分组内 "@ + decimal(ok as nat) + " 个项目"@
        } else {
            "已启动 "@ + decimal(ok as nat) + " 个，"@ + decimal(fail as nat) + " 个失败"@
        }),
{
    let good = unsigned_to_text(ok as u128);
    if fail == 0 {
        return concat3("已启动分组内 ", good.as_str(), " 个项目");
    }
    let bad = unsigned_to_text(fail as u128);
    let head = concat3("已启动 ", good.as_str(), " 个，");
    concat3(head.as_str(), bad.as_str(), " 个失败")
}

/// What asks for a password before a group is launched.
#[derive(Debug)]
pub struct PasswordPrompt {
    pub name: String,
    pub status: String,
}

/// What asks for a password before the entries of a group are launched; nothing where it is not
/// hidden.
pub fn launch_category_gate(cats: &Vec<Category>, unlocked: &Vec<String>, cat_id: &str) -> (r: Option<
    PasswordPrompt,
>)
    ensures
        r is Some <==> requires_unlock(cats@, texts(unlocked@), cat_id@),
        r matches Some(p) ==> p.name@ == name_or_empty(cats@, cat_id@) && p.status@
            == "该分组已密码保护，请先解锁再启动全部程序"@,
{
    if category_requires_unlock(cats, unlocked, cat_id) {
        Some(
            PasswordPrompt {
                name: category_title(cats, cat_id),
                status: "该分组已密码保护，请先解锁再启动全部程序".to_owned(),
            },
        )
    } else {
        None
    }
}

// ---------------------------------------------------------------------------------------------
// Pinning, moving and deleting
// ---------------------------------------------------------------------------------------------

/// The largest order of pinning among the first `n` entries that are pinned, or zero.
pub open spec fn last_pin(apps: Seq<AppInfo>, n: int) -> u64
    decreases n,
{
    if n <= 0 {
        0
    } else {
        let m = last_pin(apps, n - 1);
        if apps[n - 1].pinned && apps[n - 1].pin_order > m {
            apps[n - 1].pin_order
        } else {
            m
        }
    }
}

/// The order of an entry that is pinned next: behind all that are pinned.
pub open spec fn next_pin(apps: Seq<AppInfo>) -> u64 {
    let m = last_pin(apps, apps.len() as int);
    if m == u64::MAX {
        m
    } else {
        (m + 1) as u64
    }
}

fn next_pin_order(apps: &Vec<AppInfo>) -> (r: u64)
    ensures
        r == next_pin(apps@),
{
    let mut m: u64 = 0;
    let mut i: usize = 0;
    while i < apps.len()
        invariant
            i <= apps@.len(),
            m == last_pin(apps@, i as int),
        decreases apps@.len() - i,
    {
        if apps[i].pinned && apps[i].pin_order > m {
            m = apps[i].pin_order;
        }
        i = i + 1;
    }
    m.saturating_add(1)
}

/// The entries once the one at `i` was pinned, or was no longer pinned.
pub open spec fn pin_toggled(apps: Seq<AppInfo>, i: int) -> Seq<AppInfo> {
    apps.update(
        i,
        if apps[i].pinned {
            AppInfo { pinned: false, pin_order: 0, ..apps[i] }
        } else {
            AppInfo { pinned: true, pin_order: next_pin(apps), ..apps[i] }
        },
    )
}

/// Pins an entry, or no longer does, and tells whether it is pinned now. None where there is no
/// such entry. The entries are put in order.
pub fn toggle_pin(apps: &mut Vec<AppInfo>, app_id: &str) -> (r: Option<bool>)
    ensures
        match first_where(old(apps)@, has_id(app_id@)) {
            Some(i) => {
                &&& r == Some(!old(apps)@[i].pinned)
                &&& stably_sorted(pin_toggled(old(apps)@, i), final(apps)@, app_order())
            },
            None => r is None && *final(apps) == *old(apps),
        },
{
    let next = next_pin_order(apps);
    match find_app(apps, app_id) {
        None => None,
        Some(i) => {
            let ghost before = apps@;
            let pinned = !apps[i].pinned;
            if pinned {
                apps[i].pinned = true;
                apps[i].pin_order = next;
            } else {
                apps[i].pinned = false;
                apps[i].pin_order = 0;
            }
            assert(apps@ =~= pin_toggled(before, i as int));
            sort_apps_by_usage(apps);
            Some(pinned)
        },
    }
}

proof fn last_pin_is_largest(apps: Seq<AppInfo>, n: int, k: int)
    requires
        0 <= k < n <= apps.len(),
        apps[k].pinned,
    ensures
        apps[k].pin_order <= last_pin(apps, n),
    decreases n,
{
    if k < n - 1 {
        last_pin_is_largest(apps, n - 1, k);
    }
}

/// An entry that is pinned stands behind all that were pinned before, while the orders do not
/// run out.
pub proof fn pinned_entry_stands_behind(apps: Seq<AppInfo>, i: int, k: int)
    requires
        0 <= i < apps.len(),
        0 <= k < apps.len(),
        !apps[i].pinned,
        apps[k].pinned,
        last_pin(apps, apps.len() as int) < u64::MAX,
    ensures
        pin_toggled(apps, i)[k].pin_order < pin_toggled(apps, i)[i].pin_order,
{
    last_pin_is_largest(apps, apps.len() as int, k);
}

/// Pinning an entry and taking the pin off again changes nothing of it, but that it has no order
/// among those pinned.
pub proof fn unpinning_undoes_pinning(apps: Seq<AppInfo>, i: int)
    requires
        0 <= i < apps.len(),
        !apps[i].pinned,
    ensures
        pin_toggled(pin_toggled(apps, i), i) == apps.update(
            i,
            AppInfo { pin_order: 0, ..apps[i] },
        ),
{
    assert(pin_toggled(pin_toggled(apps, i), i) =~= apps.update(
        i,
        AppInfo { pin_order: 0, ..apps[i] },
    ));
}

/// What the user is told after an entry was pinned, or no longer was.
pub fn pin_status(pinned: bool) -> (r: String)
    ensures
        r@ == (if pinned {
            "已置顶：固定显示在分组最前"@
        } else {
            "已取消置顶"@
        }),
{
    if pinned {
        "已置顶：固定显示在分组最前".to_owned()
    } else {
        "已取消置顶".to_owned()
    }
}

/// Whether an entry has another id.
pub open spec fn other_app(id: Seq<char>) -> spec_fn(AppInfo) -> bool {
    |a: AppInfo| a.id@ != id
}

/// Deletes the entries with the id. The icon fetched for them goes too.
pub fn delete_app(apps: &mut Vec<AppInfo>, app_id: &str)
    ensures
        final(apps)@ == old(apps)@.filter(other_app(app_id@)),
{
    let f = |a: &AppInfo| -> (r: bool)
        ensures
            r == other_app(app_id@)(*a),
        { !same_text(a.id.as_str(), app_id) };
    keep_items(apps, f, Ghost(other_app(app_id@)));
}

/// A deleted entry is gone.
pub proof fn deleted_entry_is_gone(apps: Seq<AppInfo>, id: Seq<char>)
    ensures
        first_where(apps.filter(other_app(id)), has_id(id)) is None,
{
    let rest = apps.filter(other_app(id));
    assert forall|j: int| 0 <= j < rest.len() implies !has_id(id)(#[trigger] rest[j]) by {
        apps.lemma_filter_pred(other_app(id), j);
    }
    crate::lists::first_where_absent(rest, has_id(id));
}

/// Moves an entry to another group, and tells whether it moved.
pub fn move_app_to_category(apps: &mut Vec<AppInfo>, app_id: &str, cat_id: &str) -> (r: bool)
    ensures
        match first_where(old(apps)@, has_id(app_id@)) {
            Some(i) if old(apps)@[i].category_id@ != cat_id@ => {
                &&& r
                &&& final(apps)@ == old(apps)@.update(
                    i,
                    AppInfo { category_id: final(apps)@[i].category_id, ..old(apps)@[i] },
                )
                &&& final(apps)@[i].category_id@ == cat_id@
            },
            _ => !r && *final(apps) == *old(apps),
        },
{
    match find_app(apps, app_id) {
        None => false,
        Some(i) => {
            if same_text(apps[i].category_id.as_str(), cat_id) {
                return false;
            }
            let ghost before = apps@;
            apps[i].category_id = cat_id.to_owned();
            assert(apps@ =~= before.update(
                i as int,
                AppInfo { category_id: apps@[i as int].category_id, ..before[i as int] },
            ));
            true
        },
    }
}

/// Gives an entry an icon file, and tells whether there is such an entry.
pub fn set_icon_path(apps: &mut Vec<AppInfo>, app_id: &str, icon: &str) -> (r: bool)
    ensures
        match first_where(old(apps)@, has_id(app_id@)) {
            Some(i) => {
                &&& r
                &&& final(apps)@ == old(apps)@.update(
                    i,
                    AppInfo { icon_path: final(apps)@[i].icon_path, ..old(apps)@[i] },
                )
                &&& opt_text(final(apps)@[i].icon_path) == Some(icon@)
            },
            None => !r && *final(apps) == *old(apps),
        },
{
    match find_app(apps, app_id) {
        None => false,
        Some(i) => {
            let ghost before = apps@;
            apps[i].icon_path = Some(icon.to_owned());
            assert(apps@ =~= before.update(
                i as int,
                AppInfo { icon_path: apps@[i as int].icon_path, ..before[i as int] },
            ));
            true
        },
    }
}

// ---------------------------------------------------------------------------------------------
// Editing
// ---------------------------------------------------------------------------------------------

/// An entry as it is edited.
#[derive(Debug)]
pub struct EditForm {
    pub id: String,
    pub name: String,
    pub path: String,
    pub args: String,
    pub category: String,
    pub sort: i32,
    pub sort_text: String,
}

/// The number under which an entry is shown in its group, counted from one.
pub open spec fn display_number(apps: Seq<AppInfo>, id: Seq<char>, cat: Seq<char>) -> i32 {
    match first_where(ids_of(shown_in(apps, cat)), is_text(id)) {
        Some(i) => (i + 1) as i32,
        None => 1i32,
    }
}

/// The entry as it is edited: its group by name, and its number in the group.
pub fn request_edit(config: &UserConfig, app_id: &str) -> (r: Option<EditForm>)
    ensures
        match first_where(config.apps@, has_id(app_id@)) {
            Some(i) => {
                let app = config.apps@[i];
                let number = display_number(config.apps@, app.id@, app.category_id@);
                &&& r is Some
                &&& r->0.id@ == app.id@
                &&& r->0.name@ == app.name@
                &&& r->0.path@ == app.path@
                &&& r->0.args@ == joined(texts(app.args@), " "@)
                &&& r->0.category@ == match category_at(config.categories@, app.category_id@) {
                    Some(c) => c.name@,
                    None => app.category_id@,
                }
                &&& r->0.sort == number
                &&& r->0.sort_text@ == crate::numbers::int_text(number as int)
            },
            None => r is None,
        },
{
    match find_app(&config.apps, app_id) {
        None => None,
        Some(i) => {
            let app = &config.apps[i];
            let sort = display_sort_index_in_category(
                &config.apps,
                app.id.as_str(),
                app.category_id.as_str(),
            );
            Some(
                EditForm {
                    id: app.id.clone(),
                    name: app.name.clone(),
                    path: app.path.clone(),
                    args: join(&app.args, " "),
                    category: category_name_by_id(&config.categories, app.category_id.as_str()),
                    sort,
                    sort_text: signed_to_text(sort as i64),
                },
            )
        },
    }
}

/// The number that a text asks for: at least one, and one where it writes no number.
pub open spec fn asked_number(sort_text: Seq<char>) -> int {
    match written_i32(trim(sort_text)) {
        Some(n) if n >= 1 => n,
        _ => 1,
    }
}

fn read_number(sort_text: &str) -> (r: i32)
    ensures
        r == asked_number(sort_text@),
{
    let t = trimmed(sort_text);
    match parse_i32(t.as_str()) {
        Some(n) => if n < 1 {
            1
        } else {
            n
        },
        None => 1,
    }
}

/// The number that the form shows for an entry, written as a text, asks for that number.
pub proof fn shown_number_is_asked_for(n: int)
    requires
        1 <= n <= i32::MAX,
    ensures
        asked_number(crate::numbers::int_text(n)) == n,
{
    let s = decimal(n as nat);
    crate::numbers::int_text_reads_back(n);
    crate::numbers::decimal_reads_back(n as nat);
    assert(crate::numbers::is_digit(s[0]) && crate::numbers::is_digit(s[s.len() - 1]));
    assert(!crate::text::is_white_space(s[0]));
    assert(!crate::text::is_white_space(s.last()));
    assert(trim(s) == s);
}

/// `new`, or `before` where nothing is entered.
pub open spec fn entered_or(new: Seq<char>, before: Seq<char>) -> Seq<char> {
    if new.len() > 0 {
        new
    } else {
        before
    }
}

/// Whether `after` is the entry once it was edited. Nothing entered changes nothing, except that
/// arguments can be taken away.
pub open spec fn edited(
    before: AppInfo,
    after: AppInfo,
    name: Seq<char>,
    path: Seq<char>,
    args: Seq<char>,
    cat: Option<Seq<char>>,
) -> bool {
    &&& after.name@ == entered_or(name, before.name@)
    &&& after.path@ == entered_or(path, before.path@)
    &&& texts(after.args@) == words(args)
    &&& after.category_id@ == match cat {
        Some(c) => c,
        None => before.category_id@,
    }
    &&& after == (AppInfo {
        name: after.name,
        path: after.path,
        args: after.args,
        category_id: after.category_id,
        ..before
    })
}

/// Whether `after` is the entries once one of them was edited.
pub open spec fn one_edited(
    before: Seq<AppInfo>,
    after: Seq<AppInfo>,
    id: Seq<char>,
    name: Seq<char>,
    path: Seq<char>,
    args: Seq<char>,
    cat: Option<Seq<char>>,
) -> bool {
    match first_where(before, has_id(id)) {
        Some(i) => {
            &&& after.len() == before.len()
            &&& after == before.update(i, after[i])
            &&& edited(before[i], after[i], name, path, args, cat)
        },
        None => after == before,
    }
}

/// The group that an edit puts the entry in, if it names one.
pub open spec fn edit_category(cats: Seq<Category>, input: Seq<char>) -> Option<Seq<char>> {
    if input.len() == 0 {
        None
    } else {
        Some(meant_category(cats, input))
    }
}

/// The group in which an edit numbers the entry: the one it names, or else the entry's own.
pub open spec fn numbering_category(
    cats: Seq<Category>,
    apps: Seq<AppInfo>,
    id: Seq<char>,
    input: Seq<char>,
) -> Seq<char> {
    match edit_category(cats, input) {
        Some(c) => c,
        None => match first_where(apps, has_id(id)) {
            Some(i) => apps[i].category_id@,
            None => Seq::empty(),
        },
    }
}

fn edit_entry(
    apps: &mut Vec<AppInfo>,
    id: &str,
    name: &str,
    path: &str,
    args: &str,
    cat: &Option<String>,
)
    ensures
        one_edited(old(apps)@, final(apps)@, id@, name@, path@, args@, opt_text(*cat)),
{
    if let Some(i) = find_app(apps, id) {
        let ghost before = apps@;
        if !name.is_empty() {
            apps[i].name = name.to_owned();
        }
        if !path.is_empty() {
            apps[i].path = path.to_owned();
        }
        let list = split_words(args);
        apps[i].args = list;
        if let Some(c) = cat {
            let c = c.clone();
            apps[i].category_id = c;
        }
        assert(apps@ =~= before.update(i as int, apps@[i as int]));
    }
}

/// Takes over the edit of an entry: its fields, its group, and its number in the group.
pub fn save_app_edit(
    config: &mut UserConfig,
    id: &str,
    name: &str,
    path: &str,
    args: &str,
    category: &str,
    sort_text: &str,
)
    ensures
        *final(config) == (UserConfig { apps: final(config).apps, ..*old(config) }),
        ({
            let cats = old(config).categories@;
            let before = old(config).apps@;
            let group = numbering_category(cats, before, id@, category@);
            exists|between: Seq<AppInfo>|
                {
                    &&& #[trigger] one_edited(
                        before,
                        between,
                        id@,
                        name@,
                        path@,
                        args@,
                        edit_category(cats, category@),
                    )
                    &&& final(config).apps@ == (if group.len() > 0 {
                        placed(between, id@, group, asked_number(sort_text@))
                    } else {
                        between
                    })
                }
        }),
{
    let cat: Option<String> = if category.is_empty() {
        None
    } else {
        Some(resolve_category_id_input(&config.categories, category))
    };
    let number = read_number(sort_text);
    let group: String = match &cat {
        Some(c) => c.clone(),
        None => match find_app(&config.apps, id) {
            Some(i) => config.apps[i].category_id.clone(),
            None => String::new(),
        },
    };
    edit_entry(&mut config.apps, id, name, path, args, &cat);
    let ghost between = config.apps@;
    if !group.as_str().is_empty() {
        apply_display_sort_index(&mut config.apps, id, group.as_str(), number);
    }
    assert(one_edited(
        old(config).apps@,
        between,
        id@,
        name@,
        path@,
        args@,
        edit_category(old(config).categories@, category@),
    ));
}

// ---------------------------------------------------------------------------------------------
// Files and folders
// ---------------------------------------------------------------------------------------------

/// What an item leads to: a path, and what it is called.
#[derive(Debug)]
pub struct Target {
    pub path: String,
    pub label: String,
}

/// What an item leads to. The item is an entry's id, or else a path, which is called by itself.
pub fn admin_target(apps: &Vec<AppInfo>, base: &str, key: &str) -> (r: Target)
    ensures
        match first_where(apps@, has_id(key@)) {
            Some(i) => r.path@ == resolved(base@, apps@[i].path@) && r.label@ == apps@[i].name@,
            None => r.path@ == key@ && r.label@ == key@,
        },
{
    match find_app(apps, key) {
        Some(i) => Target {
            path: resolve_path(base, apps[i].path.as_str()),
            label: apps[i].name.clone(),
        },
        None => Target { path: key.to_owned(), label: key.to_owned() },
    }
}

/// What an item leads to. The item is an entry's id, or else a path, which is called by its last
/// part.
pub fn location_target(apps: &Vec<AppInfo>, base: &str, key: &str) -> (r: Target)
    ensures
        match first_where(apps@, has_id(key@)) {
            Some(i) => r.path@ == resolved(base@, apps@[i].path@) && r.label@ == apps@[i].name@,
            None => r.path@ == key@ && r.label@ == crate::everything_search::shown_name(key@),
        },
{
    match find_app(apps, key) {
        Some(i) => Target {
            path: resolve_path(base, apps[i].path.as_str()),
            label: apps[i].name.clone(),
        },
        None => Target { path: key.to_owned(), label: crate::everything_search::name_of(key) },
    }
}

/// What the user is told after a program was run with the rights of an administrator.
pub fn admin_status(label: &str, outcome: &Result<(), String>) -> (r: String)
    ensures
        r@ == match *outcome {
            Ok(()) => "已以管理员身份运行："@ + label@,
            Err(e) => "管理员启动失败："@ + e@,
        },
{
    match outcome {
        Ok(()) => concat("已以管理员身份运行：", label),
        Err(e) => concat("管理员启动失败：", e.as_str()),
    }
}

/// What the user is told after the place of a file was shown.
pub fn location_status(label: &str, outcome: &Result<(), String>) -> (r: String)
    ensures
        r@ == match *outcome {
            Ok(()) => "已打开位置："@ + label@,
            Err(e) => "打开位置失败："@ + e@,
        },
{
    match outcome {
        Ok(()) => concat("已打开位置：", label),
        Err(e) => concat("打开位置失败：", e.as_str()),
    }
}

/// What the user is told after the properties of a file were asked for: nothing where they are
/// shown.
pub fn properties_status(outcome: &Result<(), String>) -> (r: Option<String>)
    ensures
        opt_text(r) == match *outcome {
            Ok(()) => None,
            Err(e) => Some("打开属性失败："@ + e@),
        },
{
    match outcome {
        Ok(()) => None,
        Err(e) => Some(concat("打开属性失败：", e.as_str())),
    }
}

/// A file found on the computer as an entry that is launched.
pub fn file_entry(path: &str) -> (r: AppInfo)
    ensures
        is_blank_entry(
            r,
            "ev_launch"@,
            crate::everything_search::shown_name(path@),
            path@,
        ),
{
    let name = crate::everything_search::name_of(path);
    blank_entry("ev_launch", name.as_str(), path)
}

/// What follows from the launch of a file found on the computer.
#[derive(Debug)]
pub struct FileLaunch {
    pub status: String,
    pub hide: bool,
}

/// What follows from the launch of a file found on the computer: what the user is told, and
/// whether the window is hidden.
pub fn file_launch(name: &str, result: &LaunchResult, hide_on_launch: bool) -> (r: FileLaunch)
    ensures
        match *result {
            LaunchResult::Success => r.status@ == "已打开："@ + name@ && r.hide == hide_on_launch,
            LaunchResult::Failed(e) => r.status@ == "打开失败："@ + e@ && !r.hide,
            LaunchResult::NotFound => r.status@ == "路径不存在"@ && !r.hide,
        },
{
    match result {
        LaunchResult::Success => FileLaunch {
            status: concat("已打开：", name),
            hide: hide_on_launch,
        },
        LaunchResult::Failed(e) => FileLaunch {
            status: concat("打开失败：", e.as_str()),
            hide: false,
        },
        LaunchResult::NotFound => FileLaunch { status: "路径不存在".to_owned(), hide: false },
    }
}

// ---------------------------------------------------------------------------------------------
// Adding entries
// ---------------------------------------------------------------------------------------------

/// What follows from an attempt to add an entry.
#[derive(Debug)]
pub enum AddOutcome {
    /// Nothing was added. The user is told why.
    Refused(String),
    /// The entry was added.
    Added(AddedEntry),
}

/// An entry that was added.
#[derive(Debug)]
pub struct AddedEntry {
    pub id: String,
    /// The group to choose, where another is to be shown.
    pub select: Option<String>,
    /// What the user is told.
    pub status: String,
    /// The site whose icon is to be fetched.
    pub fetch: Option<String>,
}

/// Whether some entry has the path, without regard to case.
pub open spec fn path_known(apps: Seq<AppInfo>, key: Seq<char>) -> bool {
    exists|i: int| 0 <= i < apps.len() && lowercase((#[trigger] apps[i]).path@) == key
}

/// Whether some entry has the address, without regard to case.
pub open spec fn url_known(apps: Seq<AppInfo>, key: Seq<char>) -> bool {
    exists|i: int|
        0 <= i < apps.len() && (((#[trigger] apps[i]).web_url is Some && lowercase(
            apps[i].web_url->0@,
        ) == key) || lowercase(apps[i].path@) == key)
}

fn knows_path(apps: &Vec<AppInfo>, key: &str) -> (r: bool)
    ensures
        r == path_known(apps@, key@),
{
    let mut i: usize = 0;
    while i < apps.len()
        invariant
            i <= apps@.len(),
            forall|k: int| 0 <= k < i ==> lowercase((#[trigger] apps@[k]).path@) != key@,
        decreases apps@.len() - i,
    {
        let p = apps[i].path.as_str().to_lowercase();
        if same_text(p.as_str(), key) {
            return true;
        }
        i = i + 1;
    }
    false
}

fn knows_url(apps: &Vec<AppInfo>, key: &str) -> (r: bool)
    ensures
        r == url_known(apps@, key@),
{
    let mut i: usize = 0;
    while i < apps.len()
        invariant
            i <= apps@.len(),
            forall|k: int|
                0 <= k < i ==> !(((#[trigger] apps@[k]).web_url is Some && lowercase(
                    apps@[k].web_url->0@,
                ) == key@) || lowercase(apps@[k].path@) == key@),
        decreases apps@.len() - i,
    {
        let p = apps[i].path.as_str().to_lowercase();
        let by_url = match &apps[i].web_url {
            Some(w) => {
                let w = w.as_str().to_lowercase();
                same_text(w.as_str(), key)
            },
            None => false,
        };
        if by_url || same_text(p.as_str(), key) {
            return true;
        }
        i = i + 1;
    }
    false
}

/// Whether `after` is `before` with the entry added, and the entries put in order.
pub open spec fn with_entry(before: UserConfig, after: UserConfig, app: AppInfo) -> bool {
    &&& stably_sorted(before.apps@.push(app), after.apps@, app_order())
    &&& after == (UserConfig { apps: after.apps, ..before })
}

/// Whether what is told of the entry fits: the group to choose where none that exists was chosen,
/// and how many entries there are.
pub open spec fn told_of(
    added: AddedEntry,
    before: UserConfig,
    app: AppInfo,
    selected: Seq<char>,
    lead: Seq<char>,
) -> bool {
    let cat = shown_category(before.categories@, selected);
    &&& added.id@ == app.id@
    &&& opt_text(added.select) == (if !exists_category(before.categories@, selected) && cat.len()
        > 0 {
        Some(cat)
    } else {
        None
    })
    &&& added.status@ == lead + app.name@ + "（共 "@ + decimal((before.apps@.len() + 1) as nat)
        + " 项）"@
    &&& added.fetch == app.web_url
}

/// Whether the entry is a new one of the given id, name, path and group, and in order behind the
/// entries of its group.
pub open spec fn fresh_entry(
    app: AppInfo,
    before: UserConfig,
    id: Seq<char>,
    name: Seq<char>,
    path: Seq<char>,
    selected: Seq<char>,
) -> bool {
    let cat = shown_category(before.categories@, selected);
    &&& app.id@ == id
    &&& app.name@ == name
    &&& app.path@ == path
    &&& app.category_id@ == cat
    &&& joining_order(before.apps@, cat, app.sort_order as int)
    &&& app.icon_path is None
    &&& app.description is None
    &&& app.args@.len() == 0
    &&& app.work_dir is None
    &&& app.exec_count == 0
    &&& app.last_used is None
    &&& !app.pinned
    &&& app.pin_order == 0
}

/// The new entry of the given id, name and path, in the group that is shown.
fn make_entry(config: &UserConfig, id: String, name: String, path: String, selected: &str) -> (r:
    AppInfo)
    ensures
        fresh_entry(r, *config, id@, name@, path@, selected@),
        r.keywords@.len() == 1,
        r.keywords@[0]@ == lowercase(name@),
        r.web_url is None,
{
    let cat = category_shown(&config.categories, selected);
    let order = next_sort_order_for_new_app(&config.apps, cat.as_str());
    let mut app = AppInfo::new(id, name, path, cat);
    app.sort_order = order;
    app
}

fn add_entry(config: &mut UserConfig, app: AppInfo, selected: &str, lead: &str) -> (r: AddedEntry)
    requires
        app.category_id@ == shown_category(old(config).categories@, selected@),
    ensures
        with_entry(*old(config), *final(config), app),
        told_of(r, *old(config), app, selected@, lead@),
{
    let select = if !category_exists(&config.categories, selected)
        && !app.category_id.as_str().is_empty() {
        Some(app.category_id.clone())
    } else {
        None
    };
    let id = app.id.clone();
    let name = app.name.clone();
    let fetch = crate::text::copy_opt(&app.web_url);
    let ghost before = config.apps@;
    config.apps.push(app);
    sort_apps_by_usage(&mut config.apps);
    proof {
        crate::ordering::sorting_keeps_items(before.push(app), config.apps@, app_order());
    }
    let count = unsigned_to_text(config.apps.len() as u128);
    let head = concat3(lead, name.as_str(), "（共 ");
    let status = concat3(head.as_str(), count.as_str(), " 项）");
    AddedEntry { id, select, status, fetch }
}

/// The keywords of an address: its host, if it has one.
pub open spec fn host_keyword(text: Seq<char>) -> Seq<Seq<char>> {
    match parsed_url(text) {
        Some((scheme, Some(host))) => seq![lowercase(host)],
        _ => Seq::empty(),
    }
}

fn push_host(keywords: &mut Vec<String>, host: &Option<String>)
    ensures
        texts(final(keywords)@) == texts(old(keywords)@) + (match opt_text(*host) {
            Some(h) => seq![lowercase(h)],
            None => Seq::empty(),
        }),
{
    let ghost before = texts(keywords@);
    match host {
        Some(h) => {
            let k = h.as_str().to_lowercase();
            keywords.push(k);
            assert(texts(keywords@) =~= before + seq![lowercase(h@)]);
        },
        None => {
            assert(texts(keywords@) =~= before + Seq::<Seq<char>>::empty());
        },
    }
}

fn push_word(keywords: &mut Vec<String>, word: &str)
    ensures
        texts(final(keywords)@) == texts(old(keywords)@).push(word@),
{
    let ghost before = texts(keywords@);
    keywords.push(word.to_owned());
    assert(texts(keywords@) =~= before.push(word@));
}

/// The name of an entry that leads to an address: its host.
pub open spec fn site_name(url: Seq<char>) -> Seq<char> {
    match parsed_url(url) {
        Some((scheme, Some(host))) => host,
        _ => "网页"@,
    }
}

/// The keywords of an entry that leads to an address.
pub open spec fn site_keywords(url: Seq<char>) -> Seq<Seq<char>> {
    seq![
        lowercase(site_name(url)),
        "url"@,
        "http"@,
        "https"@,
        "internet"@,
        "website"@,
    ] + host_keyword(url)
}

/// Adds an entry of the given id that leads to the address. One that is no address of the web, or
/// that some entry has already, is refused.
pub fn add_dropped_http_url_as(config: &mut UserConfig, id: String, url: &str, selected: &str) -> (r:
    AddOutcome)
    ensures
        ({
            let u = trim(url@);
            if !web_address(u) {
                &&& r matches AddOutcome::Refused(why) && why@
                    == "添加失败：不是有效的 http(s) 链接"@
                &&& *final(config) == *old(config)
            } else if url_known(old(config).apps@, lowercase(u)) {
                &&& r matches AddOutcome::Refused(why) && why@ == "该项目已在列表中"@
                &&& *final(config) == *old(config)
            } else {
                &&& r is Added
                &&& exists|app: AppInfo|
                    {
                        &&& #[trigger] with_entry(*old(config), *final(config), app)
                        &&& fresh_entry(app, *old(config), id@, site_name(u), u, selected@)
                        &&& opt_text(app.web_url) == Some(u)
                        &&& texts(app.keywords@) == site_keywords(u)
                        &&& told_of(r->Added_0, *old(config), app, selected@, "已添加网页："@)
                    }
            }
        }),
{
    let u = trimmed(url);
    let parsed = parse_address(u.as_str());
    let host: Option<String>;
    match parsed {
        None => {
            return AddOutcome::Refused("添加失败：不是有效的 http(s) 链接".to_owned());
        },
        Some(a) => {
            if !is_web_scheme(a.scheme.as_str()) {
                return AddOutcome::Refused("添加失败：不是有效的 http(s) 链接".to_owned());
            }
            host = a.host;
        },
    }
    let key = u.as_str().to_lowercase();
    if knows_url(&config.apps, key.as_str()) {
        return AddOutcome::Refused("该项目已在列表中".to_owned());
    }
    let name = match &host {
        Some(h) => h.clone(),
        None => "网页".to_owned(),
    };
    let mut app = make_entry(config, id, name, u.clone(), selected);
    app.web_url = Some(u.clone());
    let mut keywords: Vec<String> = Vec::new();
    std::mem::swap(&mut keywords, &mut app.keywords);
    assert(texts(keywords@) =~= seq![lowercase(name@)]);
    push_word(&mut keywords, "url");
    push_word(&mut keywords, "http");
    push_word(&mut keywords, "https");
    push_word(&mut keywords, "internet");
    push_word(&mut keywords, "website");
    push_host(&mut keywords, &host);
    assert(texts(keywords@) =~= site_keywords(u@));
    app.keywords = keywords;
    let added = add_entry(config, app, selected, "已添加网页：");
    AddOutcome::Added(added)
}

/// Adds an entry that leads to the address, under an id of its own.
pub fn add_dropped_http_url(config: &mut UserConfig, url: &str, selected: &str) -> (r: AddOutcome)
    ensures
        ({
            let u = trim(url@);
            if !web_address(u) {
                &&& r matches AddOutcome::Refused(why) && why@
                    == "添加失败：不是有效的 http(s) 链接"@
                &&& *final(config) == *old(config)
            } else if url_known(old(config).apps@, lowercase(u)) {
                &&& r matches AddOutcome::Refused(why) && why@ == "该项目已在列表中"@
                &&& *final(config) == *old(config)
            } else {
                &&& r is Added
                &&& exists|app: AppInfo, millis: u128|
                    {
                        &&& #[trigger] with_entry(*old(config), *final(config), app)
                        &&& fresh_entry(
                            app,
                            *old(config),
                            #[trigger] app_id_at(millis),
                            site_name(u),
                            u,
                            selected@,
                        )
                        &&& opt_text(app.web_url) == Some(u)
                        &&& texts(app.keywords@) == site_keywords(u)
                        &&& told_of(r->Added_0, *old(config), app, selected@, "已添加网页："@)
                    }
            }
        }),
{
    let id = AppInfo::generate_id();
    let ghost millis = choose|m: u128| id@ == app_id_at(m);
    assert(id@ == app_id_at(millis));
    add_dropped_http_url_as(config, id, url, selected)
}

/// What becomes of a path that is dropped, before it is looked at more closely.
#[derive(Debug)]
pub enum DropGate {
    /// Nothing is added. The user is told why.
    Refused(String),
    /// The path is to be looked at: whether it is a shortcut of the system, whose target counts,
    /// or a web shortcut, whose address counts.
    Look { shortcut: bool, web_shortcut: bool },
}

/// The extension of a path in small letters.
pub open spec fn lower_extension(path: Seq<char>) -> Option<Seq<char>> {
    match path_extension(path) {
        Some(ext) => Some(lowercase(ext)),
        None => None,
    }
}

/// Whether the path is a shortcut that was dragged out of the window itself.
pub open spec fn dragged_out(path: Seq<char>, cache_dir: Seq<char>) -> bool {
    &&& path_extension(path) matches Some(ext) && ascii_lowercase(ext) == ascii_lowercase("lnk"@)
    &&& path_begins_with(path, path_join(cache_dir, "dragout"@))
}

fn extension_in_small(path: &str) -> (r: Option<String>)
    ensures
        opt_text(r) == lower_extension(path@),
{
    match extension_of(path) {
        Some(ext) => Some(ext.as_str().to_lowercase()),
        None => None,
    }
}

/// What becomes of a path that is dropped. One that leads nowhere is refused, and so is a
/// shortcut that was dragged out of the window and back.
pub fn drop_gate(path: &str, present: bool, cache_dir: &str) -> (r: DropGate)
    ensures
        if !present {
            r matches DropGate::Refused(why) && why@ == "添加失败：路径不存在"@
        } else if dragged_out(path@, cache_dir@) {
            r matches DropGate::Refused(why) && why@ == "已取消外部拖拽创建"@
        } else {
            r == (DropGate::Look {
                shortcut: lower_extension(path@) == Some("lnk"@),
                web_shortcut: lower_extension(path@) == Some("url"@),
            })
        },
{
    if !present {
        return DropGate::Refused("添加失败：路径不存在".to_owned());
    }
    let out_dir = join_path(cache_dir, "dragout");
    if let Some(ext) = extension_of(path) {
        if same_ignoring_ascii_case(ext.as_str(), "lnk") && begins_with(path, out_dir.as_str()) {
            return DropGate::Refused("已取消外部拖拽创建".to_owned());
        }
    }
    let ext = extension_in_small(path);
    match ext {
        Some(e) => DropGate::Look {
            shortcut: same_text(e.as_str(), "lnk"),
            web_shortcut: same_text(e.as_str(), "url"),
        },
        None => DropGate::Look { shortcut: false, web_shortcut: false },
    }
}

/// What was found of a path that is dropped: the target of a shortcut of the system, what a web
/// shortcut holds, and whether the path that counts is a folder.
#[derive(Debug)]
pub struct DropFacts {
    pub target: Option<String>,
    pub web_file: Option<Vec<u8>>,
    pub is_dir: bool,
}

/// The path that counts: the target of a shortcut of the system, if it has one.
pub open spec fn dropped_path(path: Seq<char>, target: Option<Seq<char>>) -> Seq<char> {
    match target {
        Some(t) if lower_extension(path) == Some("lnk"@) && t.len() > 0 => t,
        _ => path,
    }
}

/// The path that counts: the target of a shortcut of the system, if it has one.
pub fn resolve_dropped(path: &str, target: &Option<String>) -> (r: String)
    ensures
        r@ == dropped_path(path@, opt_text(*target)),
{
    let is_link = match extension_in_small(path) {
        Some(e) => same_text(e.as_str(), "lnk"),
        None => false,
    };
    if is_link {
        if let Some(t) = target {
            if !t.as_str().is_empty() {
                return t.clone();
            }
        }
    }
    path.to_owned()
}

/// The name of an entry that leads to a path: the last part of the path without its extension.
pub open spec fn file_entry_name(path: Seq<char>) -> Seq<char> {
    let name = match path_file_stem(path) {
        Some(stem) => Some(stem),
        None => path_file_name(path),
    };
    match name {
        Some(n) if trim(n).len() > 0 => n,
        _ => "未命名"@,
    }
}

fn name_entry(path: &str) -> (r: String)
    ensures
        r@ == file_entry_name(path@),
{
    let name = match file_stem_of(path) {
        Some(stem) => Some(stem),
        None => file_name_of(path),
    };
    match name {
        Some(n) => if is_blank(n.as_str()) {
            "未命名".to_owned()
        } else {
            n
        },
        None => "未命名".to_owned(),
    }
}

/// The address that a dropped path stands for, if it is a web shortcut and holds one.
pub open spec fn dropped_url(path: Seq<char>, web_file: Option<Seq<u8>>) -> Option<Seq<char>> {
    match web_file {
        Some(bytes) if lower_extension(path) == Some("url"@) => shortcut_url(bytes),
        _ => None,
    }
}

/// The keywords of an entry that leads to a path.
pub open spec fn file_keywords(
    name: Seq<char>,
    ext: Option<Seq<char>>,
    url: Option<Seq<char>>,
    is_dir: bool,
) -> Seq<Seq<char>> {
    seq![lowercase(name)] + (match ext {
        Some(e) => seq![e] + (if e == "url"@ {
            seq!["internet"@, "website"@] + (match url {
                Some(u) => host_keyword(trim(u)),
                None => Seq::empty(),
            })
        } else {
            Seq::empty()
        }),
        None => Seq::empty(),
    }) + (if is_dir {
        seq!["folder"@]
    } else {
        Seq::empty()
    })
}

fn host_of(url: &str) -> (r: Option<String>)
    ensures
        host_keyword(trim(url@)) == match opt_text(r) {
            Some(h) => seq![lowercase(h)],
            None => Seq::empty(),
        },
{
    let t = trimmed(url);
    match parse_address(t.as_str()) {
        Some(a) => a.host,
        None => None,
    }
}

fn push_file_keywords(
    keywords: &mut Vec<String>,
    ext: &Option<String>,
    url: &Option<String>,
    is_dir: bool,
    Ghost(name): Ghost<Seq<char>>,
)
    requires
        texts(old(keywords)@) == seq![lowercase(name)],
    ensures
        texts(final(keywords)@) == file_keywords(name, opt_text(*ext), opt_text(*url), is_dir),
{
    if let Some(e) = ext {
        push_word(keywords, e.as_str());
        if same_text(e.as_str(), "url") {
            push_word(keywords, "internet");
            push_word(keywords, "website");
            if let Some(u) = url {
                let host = host_of(u.as_str());
                push_host(keywords, &host);
            }
        }
    }
    if is_dir {
        push_word(keywords, "folder");
    }
    assert(texts(keywords@) =~= file_keywords(name, opt_text(*ext), opt_text(*url), is_dir));
}

/// Adds an entry of the given id that leads to the path, given what was found of it. A path that
/// some entry has already is refused.
pub fn add_dropped_path_as(
    config: &mut UserConfig,
    id: String,
    path: &str,
    facts: &DropFacts,
    selected: &str,
) -> (r: AddOutcome)
    ensures
        ({
            let p = dropped_path(path@, opt_text(facts.target));
            let url = dropped_url(path@, crate::favicon::opt_bytes(facts.web_file));
            let name = file_entry_name(p);
            if path_known(old(config).apps@, lowercase(p)) {
                &&& r matches AddOutcome::Refused(why) && why@ == "该项目已在列表中"@
                &&& *final(config) == *old(config)
            } else {
                &&& r is Added
                &&& exists|app: AppInfo|
                    {
                        &&& #[trigger] with_entry(*old(config), *final(config), app)
                        &&& fresh_entry(app, *old(config), id@, name, p, selected@)
                        &&& opt_text(app.web_url) == url
                        &&& texts(app.keywords@) == file_keywords(
                            name,
                            lower_extension(path@),
                            url,
                            facts.is_dir,
                        )
                        &&& told_of(r->Added_0, *old(config), app, selected@, "已添加："@)
                    }
            }
        }),
{
    let p = resolve_dropped(path, &facts.target);
    let key = p.as_str().to_lowercase();
    if knows_path(&config.apps, key.as_str()) {
        return AddOutcome::Refused("该项目已在列表中".to_owned());
    }
    let name = name_entry(p.as_str());
    let ghost label = name@;
    let ext = extension_in_small(path);
    let is_url_file = match &ext {
        Some(e) => same_text(e.as_str(), "url"),
        None => false,
    };
    let url: Option<String> = match &facts.web_file {
        Some(bytes) => if is_url_file {
            parse_internet_shortcut_url(bytes)
        } else {
            None
        },
        None => None,
    };
    let mut app = make_entry(config, id, name, p, selected);
    let mut keywords: Vec<String> = Vec::new();
    std::mem::swap(&mut keywords, &mut app.keywords);
    assert(texts(keywords@) =~= seq![lowercase(label)]);
    push_file_keywords(&mut keywords, &ext, &url, facts.is_dir, Ghost(label));
    app.keywords = keywords;
    app.web_url = url;
    let added = add_entry(config, app, selected, "已添加：");
    AddOutcome::Added(added)
}

/// Adds an entry that leads to the path, under an id of its own.
pub fn add_dropped_path(config: &mut UserConfig, path: &str, facts: &DropFacts, selected: &str) -> (r:
    AddOutcome)
    ensures
        ({
            let p = dropped_path(path@, opt_text(facts.target));
            let url = dropped_url(path@, crate::favicon::opt_bytes(facts.web_file));
            let name = file_entry_name(p);
            if path_known(old(config).apps@, lowercase(p)) {
                &&& r matches AddOutcome::Refused(why) && why@ == "该项目已在列表中"@
                &&& *final(config) == *old(config)
            } else {
                &&& r is Added
                &&& exists|app: AppInfo, millis: u128|
                    {
                        &&& #[trigger] with_entry(*old(config), *final(config), app)
                        &&& fresh_entry(
                            app,
                            *old(config),
                            #[trigger] app_id_at(millis),
                            name,
                            p,
                            selected@,
                        )
                        &&& opt_text(app.web_url) == url
                        &&& texts(app.keywords@) == file_keywords(
                            name,
                            lower_extension(path@),
                            url,
                            facts.is_dir,
                        )
                        &&& told_of(r->Added_0, *old(config), app, selected@, "已添加："@)
                    }
            }
        }),
{
    let id = AppInfo::generate_id();
    let ghost millis = choose|m: u128| id@ == app_id_at(m);
    assert(id@ == app_id_at(millis));
    add_dropped_path_as(config, id, path, facts, selected)
}

/// A path that was added is known from then on, so that it is not added again.
pub proof fn added_path_is_known(before: UserConfig, after: UserConfig, app: AppInfo)
    requires
        with_entry(before, after, app),
    ensures
        path_known(after.apps@, lowercase(app.path@)),
        app.web_url is Some ==> url_known(after.apps@, lowercase(app.web_url->0@)),
        after.apps@.len() == before.apps@.len() + 1,
{
    let all = before.apps@.push(app);
    crate::ordering::sorting_keeps_items(all, after.apps@, app_order());
    assert(all[before.apps@.len() as int] == app);
    assert(all.contains(app));
    assert(after.apps@.contains(app));
    let k = choose|k: int| 0 <= k < after.apps@.len() && after.apps@[k] == app;
    assert(lowercase(after.apps@[k].path@) == lowercase(app.path@));
}

} // verus!

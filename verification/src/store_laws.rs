//! What holds of what is stored, whatever it is: where files stand, what settings become when they
//! are loaded, in which orders entries are put, and how paths are converted.

use vstd::prelude::*;

use crate::catalog::{ids_of, in_category, shown_in, sort_apps_by_usage};
use crate::config::{
    all_rehomed, application_root_dir, category_order, rehomed, sanitize_filename, sort_categories,
    users_own, ConfigManager, LoadedConfig, RootError,
};
use crate::display_laws::{
    filled_orders_say_display, filling_orders_keeps_display, ids_differ, ordered_groups_stay,
};
use crate::entry_laws::may_precede;
use crate::legacy::{
    category_ids, grouped_order, loaded_order, normalize_legacy_zero_sort_orders,
    sort_apps_for_display, sort_loaded_apps, unordered_group,
};
use crate::models::{
    default_category_color, default_hotkey_enabled, default_icon_size, default_launcher_title,
    default_true, default_window_opacity, AppInfo, Category, SkinId, Theme, UserConfig,
};
use crate::numbers::decimal;
use crate::ordering::{
    arrangement, sorted_list_stays, sorting_keeps_items, text_before, text_order_is_total,
};
use crate::path_convert::{
    conversion_target, convert_all_to_absolute, convert_all_to_relative, resolve_path, PathProbe,
};
use crate::paths::{path_is_absolute, path_join, path_parent, path_remainder};
use crate::text::{lowercase, starts_with, texts};

verus! {

// ---------------------------------------------------------------------------------------------
// Files
// ---------------------------------------------------------------------------------------------

/// Whether `file` is the text as it stands in a file name: an underscore for a space and for each
/// of the characters that a file system refuses, and every other character kept.
pub open spec fn is_file_name_of(file: Seq<char>, s: Seq<char>) -> bool {
    &&& file.len() == s.len()
    &&& forall|i: int|
        0 <= i < s.len() ==> #[trigger] file[i] == (if s[i] == ' '
            || crate::window_laws::barred_in_names(s[i]) {
            '_'
        } else {
            s[i]
        })
}

/// A text stands in a file name with an underscore for what a file system refuses.
pub proof fn file_name_is_clean(name: &str, r: String)
    requires
        call_ensures(sanitize_filename, (name,), r),
    ensures
        is_file_name_of(r@, name@),
{
}

/// The root is the directory of the program, where it has one; else the current directory; else
/// the user is told that there is none, and why.
pub proof fn root_is_directory_of_program(
    exe: Option<String>,
    cwd: Option<String>,
    r: Result<String, RootError>,
    m: Result<ConfigManager, RootError>,
    e: RootError,
    told: String,
)
    requires
        call_ensures(application_root_dir, (exe, cwd), r),
        call_ensures(ConfigManager::new, (exe, cwd), m),
        r is Err ==> e == r->Err_0,
        call_ensures(RootError::message, (e,), told),
    ensures
        ({
            let own = exe is Some && path_parent(exe->0@) is Some && path_parent(exe->0@)->0.len()
                > 0;
            &&& own ==> r is Ok && r->Ok_0@ == path_parent(exe->0@)->0
            &&& !own && cwd is Some ==> r is Ok && r->Ok_0@ == cwd->0@
            &&& !own && cwd is None ==> r is Err
        }),
        m is Ok <==> r is Ok,
        m is Ok ==> m->Ok_0.root() == r->Ok_0@,
        r is Err && exe is None ==> told@ == "无法获取程序路径"@,
        r is Err && exe is Some ==> told@ == "无法确定程序根目录"@,
{
}

/// The files and directories of the launcher stand under the root, each in its place.
pub proof fn files_stand_under_root(
    m: &ConfigManager,
    id: &str,
    config: String,
    icons: String,
    cached: String,
    dragout: String,
    base: String,
    background: String,
    chosen: String,
    file: Seq<char>,
    cache: &String,
)
    requires
        call_ensures(ConfigManager::cache_dir, (m,), cache),
        call_ensures(ConfigManager::config_file_path, (m,), config),
        call_ensures(ConfigManager::custom_icons_dir, (m,), icons),
        call_ensures(ConfigManager::get_icon_cache_path, (m, id), cached),
        call_ensures(ConfigManager::dragout_dir, (m,), dragout),
        call_ensures(ConfigManager::config_dir_path, (m,), base),
        call_ensures(ConfigManager::background_image_path, (m,), background),
        call_ensures(ConfigManager::custom_icon_path, (m, id), chosen),
        is_file_name_of(file, id@),
    ensures
        base@ == m.root() && cache@ == m.root(),
        config@ == path_join(m.root(), "config.json"@),
        icons@ == path_join(path_join(m.root(), "config"@), "icons"@),
        cached@ == path_join(path_join(m.root(), "icons"@), file + ".png"@),
        dragout@ == path_join(m.root(), "dragout"@),
        background@ == path_join(path_join(m.root(), "config"@), "background.png"@),
        chosen@ == path_join(icons@, file + ".png"@),
{
    assert(file =~= crate::config::sanitized(id@));
}

/// Every directory in which the launcher writes is made, each before those in it.
pub proof fn directories_are_made(m: &ConfigManager, dirs: Vec<String>, icons: String)
    requires
        call_ensures(ConfigManager::ensure_dirs, (m,), dirs),
        call_ensures(ConfigManager::custom_icons_dir, (m,), icons),
    ensures
        dirs@.len() == 5 && dirs@[0]@ == m.root() && dirs@[1]@ == m.root(),
        dirs@[2]@ == path_join(m.root(), "icons"@),
        dirs@[3]@ == path_join(m.root(), "config"@),
        dirs@[4]@ == icons@,
{
    let t = texts(dirs@);
    assert(t.len() == dirs@.len());
    assert(t[0] == dirs@[0]@ && t[1] == dirs@[1]@ && t[2] == dirs@[2]@ && t[3] == dirs@[3]@ && t[4]
        == dirs@[4]@);
}

/// The paths that the settings hold of the chosen icon and of the picture behind the entries lead,
/// seen from the root, to the files.
pub proof fn stored_paths_lead_to_files(
    m: &ConfigManager,
    id: &str,
    root: &str,
    rel: String,
    stored: &str,
    led: String,
    file: String,
    back_rel: String,
    back_stored: &str,
    back_led: String,
    back_file: String,
)
    requires
        root@ == m.root(),
        call_ensures(ConfigManager::custom_icon_rel_path, (m, id), rel),
        stored@ == rel@,
        call_ensures(resolve_path, (root, stored), led),
        call_ensures(ConfigManager::custom_icon_path, (m, id), file),
        call_ensures(ConfigManager::background_image_rel_path, (m,), back_rel),
        back_stored@ == back_rel@,
        call_ensures(resolve_path, (root, back_stored), back_led),
        call_ensures(ConfigManager::background_image_path, (m,), back_file),
    ensures
        led@ == file@,
        back_led@ == back_file@,
        !path_is_absolute(rel@) && !path_is_absolute(back_rel@),
{
}

// ---------------------------------------------------------------------------------------------
// Loading
// ---------------------------------------------------------------------------------------------

/// Whether the group is the one of a new installation.
pub open spec fn first_group(c: Category) -> bool {
    &&& c.id@ == "default"@ && c.name@ == "默认"@ && c.color@ == "#4a82c4"@
    &&& c.sort_order == 0 && c.visible && c.password is None
}

/// Whether the settings, the groups and the entries aside, are those of a new installation.
pub open spec fn untouched(c: UserConfig) -> bool {
    &&& c.theme == Theme::Dark && c.window_geometry is None && c.skin == SkinId::Dark
    &&& c.hotkey is None && c.hotkey_enabled
    &&& c.icon_size == 46 && c.window_opacity == 100 && c.background_image is None
    &&& !c.auto_start && !c.always_on_top && !c.start_minimized && !c.edge_auto_hide
        && !c.hide_on_launch_click
    &&& c.search_history@.len() == 0 && c.launcher_title@ == "亦安"@
}

/// A new installation has one group, no entries, and the settings of a new installation, and these
/// are written; settings that were stored are not written when they are loaded.
pub proof fn new_installation_has_one_group(
    m: &ConfigManager,
    stored: Option<UserConfig>,
    r: LoadedConfig,
    fresh: UserConfig,
    group: Category,
    bare: UserConfig,
)
    requires
        call_ensures(ConfigManager::load_or_create_config_sync, (m, stored), r),
        call_ensures(ConfigManager::create_default_config, (), fresh),
        call_ensures(ConfigManager::default_category, (), group),
        call_ensures(<UserConfig as Default>::default, (), bare),
    ensures
        r.write_back <==> stored is None,
        stored is None ==> r.config.categories@.len() == 1 && first_group(r.config.categories@[0])
            && r.config.apps@.len() == 0 && untouched(r.config),
        fresh.categories@.len() == 1 && first_group(fresh.categories@[0]) && fresh.apps@.len() == 0
            && untouched(fresh),
        first_group(group),
        bare.categories@.len() == 0 && bare.apps@.len() == 0 && untouched(bare),
{
}

/// Loading keeps every group but the one of the system, and puts the groups in order; where none
/// is left, there is the one of a new installation. The other settings stay.
pub proof fn loading_keeps_groups(
    m: &ConfigManager,
    before: UserConfig,
    r: LoadedConfig,
    c: Category,
    i: int,
    j: int,
)
    requires
        call_ensures(ConfigManager::load_or_create_config_sync, (m, Some(before)), r),
    ensures
        ({
            let after = r.config.categories@;
            let none = forall|k: int|
                0 <= k < before.categories@.len() ==> (#[trigger] before.categories@[k]).id@
                    == "all"@;
            &&& !none ==> (after.contains(c) <==> before.categories@.contains(c) && c.id@
                != "all"@)
            &&& none ==> after.len() == 1 && first_group(after[0])
            &&& 0 <= i < j < after.len() ==> after[i].sort_order <= after[j].sort_order
        }),
        r.config == (UserConfig {
            categories: r.config.categories,
            apps: r.config.apps,
            ..before
        }),
{
    let after = r.config.categories@;
    let all = before.categories@;
    let kept = all.filter(users_own());
    users_groups_are_kept(all, c);
    if kept.len() == 0 {
        assert forall|k: int| 0 <= k < all.len() implies (#[trigger] all[k]).id@ == "all"@ by {
            users_groups_are_kept(all, all[k]);
            assert(all.contains(all[k]));
            if all[k].id@ != "all"@ {
                assert(kept.contains(all[k]));
            }
        }
    } else {
        users_groups_are_kept(all, kept[0]);
        assert(kept.contains(kept[0]));
        sorting_keeps_items(kept, after, category_order());
        let p = choose|p: Seq<int>| arrangement(kept, after, category_order(), p);
        if 0 <= i < j < after.len() {
            assert(category_order()(after[i], after[j]));
        }
    }
}

proof fn users_groups_are_kept(all: Seq<Category>, c: Category)
    ensures
        all.filter(users_own()).contains(c) <==> all.contains(c) && c.id@ != "all"@,
{
    let kept = all.filter(users_own());
    if kept.contains(c) {
        let k = choose|k: int| 0 <= k < kept.len() && kept[k] == c;
        all.lemma_filter_pred(users_own(), k);
        all.lemma_filter_contains_rev(users_own(), c);
    }
    if all.contains(c) && c.id@ != "all"@ {
        let k = choose|k: int| 0 <= k < all.len() && all[k] == c;
        assert(users_own()(all[k]));
        all.lemma_filter_contains(users_own(), k);
    }
}

/// Loading keeps every entry. One in no group, or in the one of the system, goes to the first group
/// that was stored; all others stay in theirs, and nothing else of an entry changes.
pub proof fn loading_keeps_entries(
    m: &ConfigManager,
    before: UserConfig,
    r: LoadedConfig,
    h: int,
    app: AppInfo,
    k: int,
)
    requires
        call_ensures(ConfigManager::load_or_create_config_sync, (m, Some(before)), r),
        0 <= h < before.categories@.len() && before.categories@[h].id@ != "all"@,
        forall|g: int| 0 <= g < h ==> (#[trigger] before.categories@[g]).id@ == "all"@,
        0 <= k < before.apps@.len(),
    ensures
        r.config.apps@.len() == before.apps@.len(),
        ({
            let old_app = before.apps@[k];
            let lost = old_app.category_id@ == "all"@ || old_app.category_id@.len() == 0;
            &&& !lost ==> r.config.apps@.contains(old_app)
            &&& lost ==> r.config.apps@.contains(
                AppInfo { category_id: before.categories@[h].id, ..old_app },
            )
        }),
        r.config.apps@.contains(app) ==> exists|i: int|
            0 <= i < before.apps@.len() && same_but_group(app, #[trigger] before.apps@[i]),
{
    let all = before.categories@;
    let kept = all.filter(users_own());
    first_kept(all, h);
    let home = all[h].id;
    let mid = all_rehomed(before.apps@, home);
    sorting_keeps_items(mid, r.config.apps@, loaded_order());
    assert(mid[k] == rehomed(before.apps@[k], home));
    assert(mid.contains(mid[k]));
    if r.config.apps@.contains(app) {
        let i = choose|i: int| 0 <= i < mid.len() && mid[i] == app;
        assert(mid[i] == rehomed(before.apps@[i], home));
        assert(same_but_group(app, before.apps@[i]));
    }
}

/// Whether the entries are the same but for their groups.
pub open spec fn same_but_group(a: AppInfo, b: AppInfo) -> bool {
    a == (AppInfo { category_id: a.category_id, ..b })
}

proof fn first_kept(all: Seq<Category>, h: int)
    requires
        0 <= h < all.len() && all[h].id@ != "all"@,
        forall|g: int| 0 <= g < h ==> (#[trigger] all[g]).id@ == "all"@,
    ensures
        all.filter(users_own()).len() > 0,
        all.filter(users_own())[0] == all[h],
    decreases all.len(),
{
    let p = users_own();
    reveal(Seq::filter);
    let init = all.drop_last();
    if h < init.len() {
        assert(init[h] == all[h]);
        assert forall|g: int| 0 <= g < h implies (#[trigger] init[g]).id@ == "all"@ by {
            assert(init[g] == all[g]);
        }
        first_kept(init, h);
    } else {
        assert(init.filter(p).len() == 0) by {
            if init.filter(p).len() > 0 {
                init.lemma_filter_pred(p, 0);
                init.lemma_filter_contains_rev(p, init.filter(p)[0]);
                let g = choose|g: int| 0 <= g < init.len() && init[g] == init.filter(p)[0];
                assert(all[g].id@ == "all"@);
            }
        }
        assert(all.last() == all[h]);
    }
}

/// Whether entry `a` may stand before entry `b` in a list that was loaded: a larger order stands
/// first, then the more often used, then the name that comes first.
pub open spec fn may_precede_loaded(a: AppInfo, b: AppInfo) -> bool {
    &&& a.sort_order >= b.sort_order
    &&& a.sort_order == b.sort_order ==> a.exec_count >= b.exec_count
    &&& a.sort_order == b.sort_order && a.exec_count == b.exec_count ==> a.name@ == b.name@
        || text_before(a.name@, b.name@)
}

/// Whether entry `a` may stand before entry `b` in the order by group: the group whose id comes
/// first; in one group pinned entries first, those pinned earlier before those pinned later; then
/// the more often used; then the smaller order; then the name that comes first.
pub open spec fn may_precede_grouped(a: AppInfo, b: AppInfo) -> bool {
    if a.category_id@ != b.category_id@ {
        text_before(a.category_id@, b.category_id@)
    } else {
        &&& b.pinned ==> a.pinned
        &&& a.pinned && b.pinned ==> a.pin_order <= b.pin_order
        &&& a.pinned == b.pinned && (!a.pinned || a.pin_order == b.pin_order) ==> {
            &&& a.exec_count >= b.exec_count
            &&& a.exec_count == b.exec_count ==> a.sort_order <= b.sort_order
            &&& a.exec_count == b.exec_count && a.sort_order == b.sort_order ==> a.name@ == b.name@
                || text_before(a.name@, b.name@)
        }
    }
}

proof fn orders_mean(a: AppInfo, b: AppInfo)
    ensures
        loaded_order()(a, b) <==> may_precede_loaded(a, b),
        grouped_order()(a, b) <==> may_precede_grouped(a, b),
{
    text_order_is_total(a.name@, b.name@);
    text_order_is_total(a.category_id@, b.category_id@);
}

/// A list that was loaded keeps its entries and is put in order; one that is in order stays.
pub proof fn loaded_list_is_in_order(apps: &mut Vec<AppInfo>, x: AppInfo, i: int, j: int)
    requires
        call_ensures(sort_loaded_apps, (apps,), ()),
    ensures
        final(apps)@.len() == old(apps)@.len(),
        final(apps)@.contains(x) <==> old(apps)@.contains(x),
        0 <= i < j < final(apps)@.len() ==> may_precede_loaded(final(apps)@[i], final(apps)@[j]),
        (forall|k: int, l: int|
            0 <= k < l < old(apps)@.len() ==> may_precede_loaded(
                #[trigger] old(apps)@[k],
                #[trigger] old(apps)@[l],
            )) ==> final(apps)@ == old(apps)@,
{
    sorting_keeps_items(old(apps)@, final(apps)@, loaded_order());
    let p = choose|p: Seq<int>| arrangement(old(apps)@, final(apps)@, loaded_order(), p);
    if 0 <= i < j < final(apps)@.len() {
        orders_mean(final(apps)@[i], final(apps)@[j]);
    }
    if forall|k: int, l: int|
        0 <= k < l < old(apps)@.len() ==> may_precede_loaded(
            #[trigger] old(apps)@[k],
            #[trigger] old(apps)@[l],
        ) {
        assert forall|k: int, l: int| 0 <= k < l < old(apps)@.len() implies loaded_order()(
            #[trigger] old(apps)@[k],
            #[trigger] old(apps)@[l],
        ) by {
            orders_mean(old(apps)@[k], old(apps)@[l]);
        }
        sorted_list_stays(old(apps)@, final(apps)@, loaded_order());
    }
}

/// The entries of a loaded file stand in the order of a loaded list.
pub proof fn loaded_entries_are_in_order(
    m: &ConfigManager,
    before: UserConfig,
    r: LoadedConfig,
    i: int,
    j: int,
)
    requires
        call_ensures(ConfigManager::load_or_create_config_sync, (m, Some(before)), r),
        0 <= i < j < r.config.apps@.len(),
    ensures
        may_precede_loaded(r.config.apps@[i], r.config.apps@[j]),
{
    let after = r.config.apps@;
    let kept = before.categories@.filter(users_own());
    let home = if kept.len() == 0 {
        r.config.categories@[0].id
    } else {
        kept[0].id
    };
    let p = choose|p: Seq<int>|
        arrangement(all_rehomed(before.apps@, home), after, loaded_order(), p);
    assert(loaded_order()(after[i], after[j]));
    orders_mean(after[i], after[j]);
}

/// The order by group keeps the entries and puts them in order; a list that is in order stays.
pub proof fn grouped_list_is_in_order(apps: &mut Vec<AppInfo>, x: AppInfo, i: int, j: int)
    requires
        call_ensures(sort_apps_for_display, (apps,), ()),
    ensures
        final(apps)@.len() == old(apps)@.len(),
        final(apps)@.contains(x) <==> old(apps)@.contains(x),
        0 <= i < j < final(apps)@.len() ==> may_precede_grouped(final(apps)@[i], final(apps)@[j]),
        (forall|k: int, l: int|
            0 <= k < l < old(apps)@.len() ==> may_precede_grouped(
                #[trigger] old(apps)@[k],
                #[trigger] old(apps)@[l],
            )) ==> final(apps)@ == old(apps)@,
{
    sorting_keeps_items(old(apps)@, final(apps)@, grouped_order());
    let p = choose|p: Seq<int>| arrangement(old(apps)@, final(apps)@, grouped_order(), p);
    if 0 <= i < j < final(apps)@.len() {
        orders_mean(final(apps)@[i], final(apps)@[j]);
    }
    if forall|k: int, l: int|
        0 <= k < l < old(apps)@.len() ==> may_precede_grouped(
            #[trigger] old(apps)@[k],
            #[trigger] old(apps)@[l],
        ) {
        assert forall|k: int, l: int| 0 <= k < l < old(apps)@.len() implies grouped_order()(
            #[trigger] old(apps)@[k],
            #[trigger] old(apps)@[l],
        ) by {
            orders_mean(old(apps)@[k], old(apps)@[l]);
        }
        sorted_list_stays(old(apps)@, final(apps)@, grouped_order());
    }
}

/// Groups and entries that stand in order stay as they stand, also those that are equal in all that
/// the order goes by.
pub proof fn lists_in_order_stay(cats: &mut Vec<Category>, apps: &mut Vec<AppInfo>)
    requires
        call_ensures(sort_categories, (cats,), ()),
        call_ensures(sort_apps_by_usage, (apps,), ()),
    ensures
        (forall|i: int, j: int|
            0 <= i < j < old(cats)@.len() ==> (#[trigger] old(cats)@[i]).sort_order <= (
            #[trigger] old(cats)@[j]).sort_order) ==> final(cats)@ == old(cats)@,
        (forall|i: int, j: int|
            0 <= i < j < old(apps)@.len() ==> may_precede(
                #[trigger] old(apps)@[i],
                #[trigger] old(apps)@[j],
            )) ==> final(apps)@ == old(apps)@,
{
    if forall|i: int, j: int|
        0 <= i < j < old(cats)@.len() ==> (#[trigger] old(cats)@[i]).sort_order <= (
        #[trigger] old(cats)@[j]).sort_order {
        assert forall|i: int, j: int| 0 <= i < j < old(cats)@.len() implies category_order()(
            #[trigger] old(cats)@[i],
            #[trigger] old(cats)@[j],
        ) by {}
        sorted_list_stays(old(cats)@, final(cats)@, category_order());
    }
    if forall|i: int, j: int|
        0 <= i < j < old(apps)@.len() ==> may_precede(
            #[trigger] old(apps)@[i],
            #[trigger] old(apps)@[j],
        ) {
        assert forall|i: int, j: int| 0 <= i < j < old(apps)@.len() implies crate::catalog::app_order()(
            #[trigger] old(apps)@[i],
            #[trigger] old(apps)@[j],
        ) by {
            crate::entry_laws::order_lets_precede(old(apps)@[i], old(apps)@[j]);
        }
        sorted_list_stays(old(apps)@, final(apps)@, crate::catalog::app_order());
    }
}

/// Bringing older orders up to date changes nothing in what a group shows. A group of two or more
/// entries whose orders are all zero gets orders that count down to zero from front to back; an
/// entry of any other group stays as it was.
pub proof fn older_orders_are_brought_up_to_date(
    config: &mut UserConfig,
    c: int,
    cat: Seq<char>,
    k: int,
    i: int,
)
    requires
        call_ensures(normalize_legacy_zero_sort_orders, (config,), ()),
        ids_differ(old(config).apps@),
        0 <= c < old(config).categories@.len(),
        old(config).categories@[c].id@ == cat,
    ensures
        ids_of(shown_in(final(config).apps@, cat)) == ids_of(shown_in(old(config).apps@, cat)),
        ({
            let group = old(config).apps@.filter(in_category(cat));
            let shown = shown_in(final(config).apps@, cat);
            let zero = forall|g: int|
                0 <= g < group.len() ==> (#[trigger] group[g]).sort_order == 0;
            &&& group.len() >= 2 && zero && 0 <= k < shown.len() ==> shown[k].sort_order
                == shown.len() - 1 - k
            &&& (group.len() < 2 || !zero) && 0 <= i < old(config).apps@.len()
                && old(config).apps@[i].category_id@ == cat ==> final(config).apps@[i] == old(config).apps@[i]
        }),
        *final(config) == (UserConfig { apps: final(config).apps, ..*old(config) }),
{
    let apps = old(config).apps@;
    let cats = category_ids(*old(config));
    assert(cats[c] == cat);
    assert(cats.contains(cat));
    filling_orders_keeps_display(apps, cats, cats.len() as int, cat);
    let group = apps.filter(in_category(cat));
    if unordered_group(group) {
        filled_orders_say_display(apps, cats, cat);
    } else if 0 <= i < apps.len() && apps[i].category_id@ == cat {
        ordered_groups_stay(apps, cats, i);
    }
}

// ---------------------------------------------------------------------------------------------
// Paths
// ---------------------------------------------------------------------------------------------

/// Whether the text begins as an address of the web does.
pub open spec fn begins_as_web(s: Seq<char>) -> bool {
    starts_with(s, "http://"@) || starts_with(s, "https://"@)
}

/// An address of the web and an absolute path lead where they say; any other path is adjoined to
/// the directory from which it is seen.
pub proof fn path_leads_from_base(base: &str, stored: &str, r: String)
    requires
        call_ensures(resolve_path, (base, stored), r),
    ensures
        begins_as_web(stored@) || path_is_absolute(stored@) ==> r@ == stored@,
        !begins_as_web(stored@) && !path_is_absolute(stored@) ==> r@ == path_join(base@, stored@),
{
}

/// Whether the entry is one of the web.
pub open spec fn entry_of_web(app: AppInfo) -> bool {
    app.web_url is Some || begins_as_web(app.path@)
}

/// An entry is looked up where its path leads, unless it is one of the web.
pub proof fn entry_is_looked_up(app: &AppInfo, base: &str, r: Option<String>, path: &str, led: String)
    requires
        call_ensures(conversion_target, (app, base), r),
        path@ == app.path@,
        call_ensures(resolve_path, (base, path), led),
    ensures
        r is None <==> entry_of_web(*app),
        r is Some ==> r->0@ == led@,
{
}

/// An entry made absolute has the canonical path that was found, or else where it led, if anything
/// is there; else, and where it is one of the web, its path stays. Nothing else changes.
pub proof fn entry_is_made_absolute(
    config: &mut UserConfig,
    base: &str,
    probes: &Vec<PathProbe>,
    i: int,
    path: &str,
    led: String,
)
    requires
        call_ensures(convert_all_to_absolute, (config, base, probes), ()),
        0 <= i < old(config).apps@.len(),
        path@ == old(config).apps@[i].path@,
        call_ensures(resolve_path, (base, path), led),
    ensures
        final(config).apps@.len() == old(config).apps@.len(),
        ({
            let before = old(config).apps@[i];
            let after = final(config).apps@[i];
            let probe = probes@[i];
            &&& after == (AppInfo { path: after.path, ..before })
            &&& entry_of_web(before) ==> after.path@ == before.path@
            &&& !entry_of_web(before) && probe.canonical is Some ==> after.path@
                == probe.canonical->0@
            &&& !entry_of_web(before) && probe.canonical is None && probe.exists ==> after.path@
                == led@
            &&& !entry_of_web(before) && probe.canonical is None && !probe.exists ==> after.path@
                == before.path@
        }),
        *final(config) == (UserConfig { apps: final(config).apps, ..*old(config) }),
{
    assert(crate::path_convert::made_absolute(
        old(config).apps@[i],
        final(config).apps@[i],
        base@,
        probes@[i],
    ));
}

/// An entry made relative has what follows the root in where it leads, where it leads under it;
/// else, and where it is one of the web, its path stays. The root and where the entry leads are
/// taken in their canonical forms, where those are known. Nothing else changes.
pub proof fn entry_is_made_relative(
    config: &mut UserConfig,
    base: &str,
    base_canonical: Option<String>,
    canonical: &Vec<Option<String>>,
    i: int,
    path: &str,
    led: String,
    root: Seq<char>,
    place: Seq<char>,
)
    requires
        call_ensures(convert_all_to_relative, (config, base, base_canonical, canonical), ()),
        0 <= i < old(config).apps@.len(),
        path@ == old(config).apps@[i].path@,
        call_ensures(resolve_path, (base, path), led),
        base_canonical is Some ==> root == base_canonical->0@,
        base_canonical is None ==> root == base@,
        canonical@[i] is Some ==> place == canonical@[i]->0@,
        canonical@[i] is None ==> place == led@,
    ensures
        final(config).apps@.len() == old(config).apps@.len(),
        ({
            let before = old(config).apps@[i];
            let after = final(config).apps@[i];
            let rest = path_remainder(place, root);
            &&& after == (AppInfo { path: after.path, ..before })
            &&& entry_of_web(before) || rest is None ==> after.path@ == before.path@
            &&& !entry_of_web(before) && rest is Some ==> after.path@ == rest->0
        }),
        *final(config) == (UserConfig { apps: final(config).apps, ..*old(config) }),
{
    assert(crate::path_convert::made_relative(
        old(config).apps@[i],
        final(config).apps@[i],
        base@,
        root,
        canonical@[i],
    ));
}

// ---------------------------------------------------------------------------------------------
// New entries, and what settings are where none are stored
// ---------------------------------------------------------------------------------------------

/// A new entry has what it was given, is found by its name in small letters, and is otherwise blank.
pub proof fn new_entry_is_blank(id: String, name: String, path: String, cat: String, r: AppInfo)
    requires
        call_ensures(AppInfo::new, (id, name, path, cat), r),
    ensures
        r.id == id && r.name == name && r.path == path && r.category_id == cat,
        r.keywords@.len() == 1 && r.keywords@[0]@ == lowercase(name@),
        r.icon_path is None && r.description is None && r.work_dir is None && r.web_url is None
            && r.last_used is None,
        r.args@.len() == 0 && r.exec_count == 0 && r.sort_order == 0 && !r.pinned && r.pin_order
            == 0,
{
}

/// Entries made at different moments have different ids.
pub proof fn ids_tell_moments_apart(a: u128, r: String, b: u128, s: String)
    requires
        call_ensures(AppInfo::id_at, (a,), r),
        call_ensures(AppInfo::id_at, (b,), s),
    ensures
        r@ == "app_"@ + decimal(a as nat),
        r@ == s@ ==> a == b,
{
    if r@ == s@ {
        let da = decimal(a as nat);
        let db = decimal(b as nat);
        crate::text::prefix_then_rest("app_"@, da);
        crate::text::prefix_then_rest("app_"@, db);
        assert(da == db);
        crate::numbers::decimal_reads_back(a as nat);
        crate::numbers::decimal_reads_back(b as nat);
    }
}

/// The id of an entry made now is that of one made at some moment.
pub proof fn id_made_now_is_of_some_moment(r: String)
    requires
        call_ensures(AppInfo::generate_id, (), r),
    ensures
        exists|millis: u128| r@ == "app_"@ + #[trigger] decimal(millis as nat),
{
    let millis = choose|millis: u128| r@ == crate::models::app_id_at(millis);
    assert(r@ == "app_"@ + decimal(millis as nat));
}

/// A group is locked just where it has a password that is not empty.
pub proof fn password_locks_group(c: &Category, r: bool)
    requires
        call_ensures(Category::has_password, (c,), r),
    ensures
        r <==> c.password is Some && c.password->0@.len() > 0,
{
}

/// What is taken where a setting is not stored.
pub proof fn missing_settings_are_taken(
    color: String,
    visible: bool,
    title: String,
    hotkey: bool,
    size: u8,
    opacity: u8,
)
    requires
        call_ensures(default_category_color, (), color),
        call_ensures(default_true, (), visible),
        call_ensures(default_launcher_title, (), title),
        call_ensures(default_hotkey_enabled, (), hotkey),
        call_ensures(default_icon_size, (), size),
        call_ensures(default_window_opacity, (), opacity),
    ensures
        color@ == "#6366f1"@ && visible && title@ == "亦安"@ && hotkey && size == 46 && opacity
            == 100,
{
}

} // verus!

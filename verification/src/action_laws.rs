//! What holds of the items of menus and of what the user is told, whatever the entries: what an
//! item leads to, what is handed to the system, and the words that follow.

use vstd::prelude::*;

use crate::app_launcher::{run_as_admin, AdminLaunch, AppLauncher};
use crate::catalog::{display_sort_index_in_category, find_app, has_id, shown_before};
use crate::custom_hotkey::{default_capture_hint, set_capture_suppress_mouse};
use crate::edge_auto_hide::{window_centre, EdgeAutoHide, Placement};
use crate::entries::{
    add_dropped_http_url, add_dropped_http_url_as, add_dropped_path, add_dropped_path_as,
    admin_status, admin_target, file_entry, file_launch, launch_category_gate,
    launch_category_status, location_status, location_target, pin_status, properties_status,
    request_edit, resolve_dropped, AddOutcome, AddedEntry, DropFacts, EditForm, FileLaunch,
    PasswordPrompt, Target,
};
use crate::entry_laws::{may_precede, order_lets_precede};
use crate::everything_search::name_of;
use crate::groups::{
    add_category, category_exists, delete_category, find_category, outside_category, relock, unlock,
    with_id, without_category, DeletedCategory, PasswordOutcome,
};
use crate::hotkey_mouse_win::MouseWatch;
use crate::lists::{first_where_found, first_where_means};
use crate::models::{AppInfo, Category, LaunchResult, UserConfig};
use crate::numbers::decimal;
use crate::ordering::sorting_keeps_items;
use crate::path_convert::resolve_path;
use crate::search::{
    clear_search, computer_status, entries_status, ready_status, search_keys, search_status, AppKey,
    SearchIndexCache, SearchPlan, SearchSession,
};
use crate::text::{join, lowercase, texts, trim};
use crate::utf16::utf16;
use crate::web::parsed_url;
use crate::win_ole_drop::{
    drop_hint_status, guid_eq, idle_status, offers_interface, Guid, LauncherDropHandler,
    QueryAnswer,
};

verus! {

// ---------------------------------------------------------------------------------------------
// Entries and groups by their ids
// ---------------------------------------------------------------------------------------------

/// An entry is found at the first place at which its id stands, and so is a group.
pub proof fn first_of_id_is_found(
    apps: &Vec<AppInfo>,
    id: &str,
    r: Option<usize>,
    cats: &Vec<Category>,
    s: Option<usize>,
    there: bool,
    j: int,
)
    requires
        call_ensures(find_app, (apps, id), r),
        call_ensures(find_category, (cats, id), s),
        call_ensures(category_exists, (cats, id), there),
    ensures
        r matches Some(i) ==> i < apps@.len() && apps@[i as int].id@ == id@,
        r is Some && 0 <= j < r->0 ==> apps@[j].id@ != id@,
        r is None && 0 <= j < apps@.len() ==> apps@[j].id@ != id@,
        s matches Some(i) ==> i < cats@.len() && cats@[i as int].id@ == id@,
        s is Some && 0 <= j < s->0 ==> cats@[j].id@ != id@,
        s is None && 0 <= j < cats@.len() ==> cats@[j].id@ != id@,
        there ==> s is Some,
        s is Some && id@.len() > 0 ==> there,
{
    first_where_means(apps@, has_id(id@));
    first_where_means(cats@, with_id(id@));
    if r is Some && 0 <= j < r->0 {
        assert(!has_id(id@)(apps@[j]));
    }
    if 0 <= j < cats@.len() && (s is None || j < s->0) {
        assert(!with_id(id@)(cats@[j]));
    }
}

/// One entry is shown before another just where it may stand before it and not the other way round.
pub proof fn entry_is_shown_before(a: &AppInfo, b: &AppInfo, r: bool)
    requires
        call_ensures(shown_before, (a, b), r),
    ensures
        r <==> may_precede(*a, *b) && !may_precede(*b, *a),
{
    order_lets_precede(*a, *b);
    order_lets_precede(*b, *a);
    crate::ordering::text_order_is_total(a.name@, b.name@);
}

/// A group that is locked again is no longer unlocked, and one that is unlocked is; the others stay
/// as they were.
pub proof fn lock_is_of_one_group(
    locked: &mut Vec<String>,
    opened: &mut Vec<String>,
    id: &str,
    other: Seq<char>,
)
    requires
        call_ensures(relock, (locked, id), ()),
        call_ensures(unlock, (opened, id), ()),
    ensures
        !texts(final(locked)@).contains(id@) && texts(final(opened)@).contains(id@),
        other != id@ ==> (texts(final(locked)@).contains(other) <==> texts(old(locked)@).contains(
            other,
        )),
        other != id@ ==> (texts(final(opened)@).contains(other) <==> texts(old(opened)@).contains(
            other,
        )),
{
    assert(texts(final((opened, id).0)@) == texts(final(opened)@));
    assert(texts(final((locked, id).0)@) == texts(final(locked)@));
}

/// A dialog about a password is over once a group was locked, unlocked or entered.
pub proof fn dialog_is_over_once_done(o: PasswordOutcome, r: bool)
    requires
        call_ensures(PasswordOutcome::is_settled, (o,), r),
    ensures
        r <==> o == PasswordOutcome::Locked || o == PasswordOutcome::Cleared || o
            == PasswordOutcome::Entered,
{
}

/// A group that is made now stands behind the others, with the name given, visible and not locked.
pub proof fn group_made_now_stands_behind(cats: &mut Vec<Category>, name: &str, j: int)
    requires
        call_ensures(add_category, (cats, name), ()),
        old(cats)@.len() <= i32::MAX,
    ensures
        final(cats)@.len() == old(cats)@.len() + 1,
        0 <= j < old(cats)@.len() ==> final(cats)@[j] == old(cats)@[j],
        ({
            let c = final(cats)@.last();
            c.name@ == name@ && c.sort_order == old(cats)@.len() && c.visible && c.password is None
                && c.color@ == "#4a82c4"@
        }),
{
    if 0 <= j < old(cats)@.len() {
        assert(final(cats)@.drop_last()[j] == final(cats)@[j]);
    }
}

/// Deleting a group now takes the group and its entries and leaves all others; where no group is
/// left there is a new one. The first group is then chosen.
pub proof fn group_deleted_now_is_gone(
    config: &mut UserConfig,
    unlocked: &mut Vec<String>,
    id: &str,
    r: DeletedCategory,
    x: AppInfo,
    c: Category,
)
    requires
        call_ensures(delete_category, (config, unlocked, id), r),
    ensures
        final(config).apps@.contains(x) <==> old(config).apps@.contains(x) && x.category_id@ != id@,
        old(config).categories@.contains(c) && c.id@ != id@ ==> final(config).categories@.contains(c),
        final(config).categories@.len() > 0,
        r.selected@ == final(config).categories@[0].id@,
        !texts(final(unlocked)@).contains(id@),
{
    let millis = choose|millis: i64| #[trigger]
        without_category(*old(config), *final(config), id@, millis);
    assert(texts(final((config, unlocked, id).1)@) == texts(final(unlocked)@));
    crate::group_laws::filter_holds(old(config).apps@, outside_category(id@), x);
    crate::group_laws::filter_holds(
        old(config).categories@,
        crate::groups::other_category(id@),
        c,
    );
}

// ---------------------------------------------------------------------------------------------
// What an item leads to
// ---------------------------------------------------------------------------------------------

/// An item that is an entry leads where the entry's path leads, and is called as the entry is. Any
/// other is a path: it leads to itself, and is called by itself or by its last part.
pub proof fn item_leads_to_entry_or_path(
    apps: &Vec<AppInfo>,
    base: &str,
    key: &str,
    r: Target,
    s: Target,
    i: int,
    path: &str,
    led: String,
    last: String,
)
    requires
        call_ensures(admin_target, (apps, base, key), r),
        call_ensures(location_target, (apps, base, key), s),
        0 <= i <= apps@.len(),
        forall|j: int| 0 <= j < i ==> (#[trigger] apps@[j]).id@ != key@,
        i < apps@.len() ==> apps@[i].id@ == key@ && path@ == apps@[i].path@,
        call_ensures(resolve_path, (base, path), led),
        call_ensures(name_of, (key,), last),
    ensures
        i < apps@.len() ==> r.path@ == led@ && s.path@ == led@ && r.label@ == apps@[i].name@
            && s.label@ == apps@[i].name@,
        i == apps@.len() ==> r.path@ == key@ && s.path@ == key@ && r.label@ == key@ && s.label@
            == last@,
{
    let p = has_id(key@);
    if i < apps@.len() {
        assert forall|j: int| 0 <= j < i implies !p(#[trigger] apps@[j]) by {
            assert(apps@[j].id@ != key@);
        }
        first_where_found(apps@, p, i);
    } else {
        first_where_means(apps@, p);
    }
}

/// An entry is edited as it is: its name and path, its arguments in a row, its group by name or
/// else by id, and the number under which it is shown.
pub proof fn entry_is_edited_as_it_is(
    config: &UserConfig,
    id: &str,
    r: Option<EditForm>,
    i: int,
    sep: &str,
    args: String,
    apps: &Vec<AppInfo>,
    entry: &str,
    cat: &str,
    number: i32,
    c: int,
)
    requires
        call_ensures(request_edit, (config, id), r),
        0 <= i <= config.apps@.len(),
        forall|j: int| 0 <= j < i ==> (#[trigger] config.apps@[j]).id@ != id@,
        i < config.apps@.len() ==> config.apps@[i].id@ == id@ && cat@
            == config.apps@[i].category_id@,
        i < config.apps@.len() ==> call_ensures(join, (&config.apps@[i].args, sep), args),
        sep@ == " "@,
        apps@ == config.apps@,
        entry@ == id@,
        call_ensures(display_sort_index_in_category, (apps, entry, cat), number),
    ensures
        r is Some <==> i < config.apps@.len(),
        r matches Some(form) ==> {
            let app = config.apps@[i];
            &&& form.id@ == id@ && form.name@ == app.name@ && form.path@ == app.path@
            &&& form.args@ == args@
            &&& form.sort == number && form.sort_text@ == crate::numbers::int_text(number as int)
            &&& 0 <= c < config.categories@.len() && config.categories@[c].id@ == cat@ && (forall|
                j: int,
            |
                0 <= j < c ==> (#[trigger] config.categories@[j]).id@ != cat@) ==> form.category@
                == config.categories@[c].name@
            &&& (forall|j: int|
                0 <= j < config.categories@.len() ==> (#[trigger] config.categories@[j]).id@
                    != cat@) ==> form.category@ == cat@
        },
{
    let p = has_id(id@);
    if i < config.apps@.len() {
        assert forall|j: int| 0 <= j < i implies !p(#[trigger] config.apps@[j]) by {
            assert(config.apps@[j].id@ != id@);
        }
        first_where_found(config.apps@, p, i);
        let q = with_id(cat@);
        first_where_means(config.categories@, q);
        if 0 <= c < config.categories@.len() && config.categories@[c].id@ == cat@ && (forall|
            j: int,
        |
            0 <= j < c ==> (#[trigger] config.categories@[j]).id@ != cat@) {
            assert forall|j: int| 0 <= j < c implies !q(#[trigger] config.categories@[j]) by {
                assert(config.categories@[j].id@ != cat@);
            }
            first_where_found(config.categories@, q, c);
        }
    } else {
        first_where_means(config.apps@, p);
    }
}

/// A path that leads nowhere is refused. Otherwise the file browser is told to select the path, the
/// system to show the path's properties, and a program is run with its arguments, a space between
/// each two, in the directory given.
pub proof fn path_is_handed_to_system(
    launcher: &AppLauncher,
    path: &str,
    present: bool,
    r: Result<String, String>,
    s: Result<Vec<u16>, String>,
    args: &Vec<String>,
    dir: Option<&str>,
    t: Result<AdminLaunch, String>,
    sep: &str,
    row: String,
)
    requires
        call_ensures(AppLauncher::open_in_explorer, (launcher, path, present), r),
        call_ensures(AppLauncher::show_properties, (launcher, path, present), s),
        call_ensures(run_as_admin, (path, args, dir, present), t),
        sep@ == " "@,
        call_ensures(join, (args, sep), row),
    ensures
        r is Ok <==> present,
        s is Ok <==> present,
        t is Ok <==> present,
        !present ==> r->Err_0@ == "路径不存在"@ && s->Err_0@ == "路径不存在"@ && t->Err_0@
            == "路径不存在"@,
        present ==> r->Ok_0@ == "/select,\""@ + path@ + "\""@,
        present ==> s->Ok_0@ == utf16(path@).push(0u16),
        present ==> t->Ok_0.file@ == utf16(path@).push(0u16),
        present ==> (t->Ok_0.args is Some <==> row@.len() > 0),
        present && row@.len() > 0 ==> t->Ok_0.args->0@ == utf16(row@).push(0u16),
        present ==> (t->Ok_0.dir is Some <==> dir is Some),
        present && dir is Some ==> t->Ok_0.dir->0@ == utf16(dir->0@).push(0u16),
{
}

// ---------------------------------------------------------------------------------------------
// What the user is told
// ---------------------------------------------------------------------------------------------

/// What the user is told of entries and files after an action.
pub proof fn actions_are_told(
    ok: usize,
    fail: usize,
    many: String,
    pinned: bool,
    pin: String,
    label: &str,
    outcome: &Result<(), String>,
    admin: String,
    place: String,
    props: Option<String>,
)
    requires
        call_ensures(launch_category_status, (ok, fail), many),
        call_ensures(pin_status, (pinned,), pin),
        call_ensures(admin_status, (label, outcome), admin),
        call_ensures(location_status, (label, outcome), place),
        call_ensures(properties_status, (outcome,), props),
    ensures
        fail == 0 ==> many@ == "已启动分组内 "@ + decimal(ok as nat) + " 个项目"@,
        fail > 0 ==> many@ == "已启动 "@ + decimal(ok as nat) + " 个，"@ + decimal(fail as nat)
            + " 个失败"@,
        pinned ==> pin@ == "已置顶：固定显示在分组最前"@,
        !pinned ==> pin@ == "已取消置顶"@,
        *outcome is Ok ==> admin@ == "已以管理员身份运行："@ + label@ && place@
            == "已打开位置："@ + label@ && props is None,
        *outcome is Err ==> admin@ == "管理员启动失败："@ + outcome->Err_0@ && place@
            == "打开位置失败："@ + outcome->Err_0@ && props is Some && props->0@
            == "打开属性失败："@ + outcome->Err_0@,
{
}

/// Before the entries of a group are launched, its password is asked for where it has one that is
/// not empty and was not entered.
pub proof fn locked_group_is_not_launched(
    cats: &Vec<Category>,
    unlocked: &Vec<String>,
    id: &str,
    r: Option<PasswordPrompt>,
    i: int,
)
    requires
        call_ensures(launch_category_gate, (cats, unlocked, id), r),
        0 <= i < cats@.len() && cats@[i].id@ == id@,
        forall|j: int| 0 <= j < i ==> (#[trigger] cats@[j]).id@ != id@,
    ensures
        r is Some <==> cats@[i].password is Some && cats@[i].password->0@.len() > 0 && !texts(
            unlocked@,
        ).contains(id@),
        r is Some ==> r->0.name@ == cats@[i].name@ && r->0.status@
            == "该分组已密码保护，请先解锁再启动全部程序"@,
{
    let q = with_id(id@);
    assert forall|j: int| 0 <= j < i implies !q(#[trigger] cats@[j]) by {
        assert(cats@[j].id@ != id@);
    }
    first_where_found(cats@, q, i);
}

/// A file that was found is launched as a blank entry called by the last part of its path. The
/// window hides only after a launch that went well, and where that is wanted.
pub proof fn found_file_is_opened(
    path: &str,
    entry: AppInfo,
    last: String,
    name: &str,
    result: &LaunchResult,
    hide: bool,
    r: FileLaunch,
)
    requires
        call_ensures(file_entry, (path,), entry),
        call_ensures(name_of, (path,), last),
        call_ensures(file_launch, (name, result, hide), r),
    ensures
        entry.path@ == path@ && entry.name@ == last@ && entry.web_url is None && entry.args@.len()
            == 0 && entry.work_dir is None && entry.icon_path is None,
        r.hide <==> *result is Success && hide,
        *result is Success ==> r.status@ == "已打开："@ + name@,
        *result matches LaunchResult::Failed(e) ==> r.status@ == "打开失败："@ + e@,
        *result is NotFound ==> r.status@ == "路径不存在"@,
{
}

/// What the user is told of searches.
pub proof fn searches_are_told(
    ready: String,
    plan: SearchPlan,
    start: Option<String>,
    query: &str,
    submitted: bool,
    n: usize,
    found: String,
    scope: i32,
    outcome: Result<usize, String>,
    files: Option<String>,
    text: &str,
    cleared: Option<String>,
)
    requires
        call_ensures(ready_status, (), ready),
        call_ensures(search_status, (plan,), start),
        call_ensures(entries_status, (query, submitted, n), found),
        call_ensures(computer_status, (scope, outcome), files),
        call_ensures(clear_search, (text,), cleared),
    ensures
        ready@ == "就绪：可拖入 exe · lnk · url · 文本链接 · 文件夹 · 图片 · 文档"@,
        plan is AskForText ==> start is Some && start->0@ == "请输入要搜索的关键字"@,
        plan is Computer ==> start is Some && start->0@ == "正在通过 Everything 搜索计算机…"@,
        plan is Entries ==> start is None,
        query@.len() == 0 && !submitted ==> found@ == ready@,
        query@.len() > 0 || submitted ==> found@ == "程序内搜索："@ + decimal(n as nat) + " 项"@,
        files is Some <==> scope == 1,
        scope == 1 && outcome is Ok ==> files->0@ == "Everything：找到 "@ + decimal(
            outcome->Ok_0 as nat,
        ) + " 项（最多显示 48 项）"@,
        scope == 1 && outcome is Err ==> files->0@ == outcome->Err_0@,
        cleared is Some <==> text@.len() > 0,
        cleared is Some ==> cleared->0@ == "已清空搜索"@,
{
}

/// Whether what is told of an entry that was added fits: how many entries there are now, counting
/// it, and the group that is chosen where the one that was chosen is not there.
pub open spec fn told_of_added(
    added: AddedEntry,
    lead: Seq<char>,
    name: Seq<char>,
    count: nat,
    there: bool,
    cat: Seq<char>,
) -> bool {
    &&& added.status@ == lead + name + "（共 "@ + decimal(count) + " 项）"@
    &&& added.select is Some <==> !there && cat.len() > 0
    &&& added.select is Some ==> added.select->0@ == cat
}

/// What the user is told of an entry that was added.
pub proof fn added_entry_is_told(
    config: &mut UserConfig,
    id: String,
    url: &str,
    selected: &str,
    r: AddOutcome,
    other: &mut UserConfig,
    path: &str,
    facts: &DropFacts,
    s: AddOutcome,
    cats: &Vec<Category>,
    there: bool,
    cat: String,
)
    requires
        call_ensures(add_dropped_http_url_as, (config, id, url, selected), r),
        call_ensures(add_dropped_path_as, (other, id, path, facts, selected), s),
        cats@ == old(config).categories@ && cats@ == old(other).categories@,
        call_ensures(category_exists, (cats, selected), there),
        call_ensures(crate::groups::category_shown, (cats, selected), cat),
    ensures
        r is Added ==> exists|app: AppInfo|
            app.id@ == id@ && final(config).apps@.contains(app) && #[trigger] told_of_added(
                r->Added_0,
                "已添加网页："@,
                app.name@,
                old(config).apps@.len() + 1,
                there,
                cat@,
            ),
        s is Added ==> exists|app: AppInfo|
            app.id@ == id@ && final(other).apps@.contains(app) && #[trigger] told_of_added(
                s->Added_0,
                "已添加："@,
                app.name@,
                old(other).apps@.len() + 1,
                there,
                cat@,
            ),
{
    if r is Added {
        let u = trim(url@);
        let app = choose|app: AppInfo|
            {
                &&& #[trigger] crate::entries::with_entry(*old(config), *final(config), app)
                &&& app.id@ == id@
                &&& crate::entries::told_of(
                    r->Added_0,
                    *old(config),
                    app,
                    selected@,
                    "已添加网页："@,
                )
            };
        added_is_there(old(config).apps@, final(config).apps@, app);
        assert(told_of_added(
            r->Added_0,
            "已添加网页："@,
            app.name@,
            old(config).apps@.len() + 1,
            there,
            cat@,
        ));
    }
    if s is Added {
        let app = choose|app: AppInfo|
            {
                &&& #[trigger] crate::entries::with_entry(*old(other), *final(other), app)
                &&& app.id@ == id@
                &&& crate::entries::told_of(s->Added_0, *old(other), app, selected@, "已添加："@)
            };
        added_is_there(old(other).apps@, final(other).apps@, app);
        assert(told_of_added(
            s->Added_0,
            "已添加："@,
            app.name@,
            old(other).apps@.len() + 1,
            there,
            cat@,
        ));
    }
}

/// An address or a path that is dropped now is added as one entry more, unless an entry has it
/// already or the address is none of the web; then nothing changes.
pub proof fn dropped_now_is_added_or_refused(
    config: &mut UserConfig,
    url: &str,
    selected: &str,
    r: AddOutcome,
    other: &mut UserConfig,
    path: &str,
    facts: &DropFacts,
    s: AddOutcome,
    leads_to: String,
    x: AppInfo,
    cats: &Vec<Category>,
    cat: String,
)
    requires
        call_ensures(add_dropped_http_url, (config, url, selected), r),
        call_ensures(add_dropped_path, (other, path, facts, selected), s),
        call_ensures(resolve_dropped, (path, &facts.target), leads_to),
        cats@ == old(config).categories@ && cats@ == old(other).categories@,
        call_ensures(crate::groups::category_shown, (cats, selected), cat),
    ensures
        ({
            let u = trim(url@);
            let web = parsed_url(u) matches Some((scheme, _)) && (scheme == "http"@ || scheme
                == "https"@);
            let known = exists|i: int|
                0 <= i < old(config).apps@.len() && (lowercase(
                    (#[trigger] old(config).apps@[i]).path@,
                ) == lowercase(u) || (old(config).apps@[i].web_url is Some && lowercase(
                    old(config).apps@[i].web_url->0@,
                ) == lowercase(u)));
            &&& r is Refused <==> !web || known
            &&& r is Refused ==> *final(config) == *old(config)
        }),
        r is Added ==> final(config).apps@.len() == old(config).apps@.len() + 1 && exists|
            app: AppInfo,
        | #[trigger]
            final(config).apps@.contains(app) && app.id@ == r->Added_0.id@ && app.path@ == trim(url@)
                && app.category_id@ == cat@,
        r is Added && old(config).apps@.contains(x) ==> final(config).apps@.contains(x),
        s is Refused <==> exists|i: int|
            0 <= i < old(other).apps@.len() && lowercase((#[trigger] old(other).apps@[i]).path@)
                == lowercase(leads_to@),
        s is Refused ==> *final(other) == *old(other),
        s is Added ==> final(other).apps@.len() == old(other).apps@.len() + 1 && exists|
            app: AppInfo,
        | #[trigger]
            final(other).apps@.contains(app) && app.id@ == s->Added_0.id@ && app.path@ == leads_to@
                && app.category_id@ == cat@,
        s is Added && old(other).apps@.contains(x) ==> final(other).apps@.contains(x),
{
    if r is Added {
        let u = trim(url@);
        let app = choose|app: AppInfo|
            {
                &&& #[trigger] crate::entries::with_entry(*old(config), *final(config), app)
                &&& app.path@ == u && app.category_id@ == cat@ && app.id@ == r->Added_0.id@
            };
        added_is_there(old(config).apps@, final(config).apps@, app);
        added_keeps_others(old(config).apps@, final(config).apps@, app, x);
    }
    if s is Added {
        let app = choose|app: AppInfo|
            {
                &&& #[trigger] crate::entries::with_entry(*old(other), *final(other), app)
                &&& app.path@ == leads_to@ && app.category_id@ == cat@ && app.id@ == s->Added_0.id@
            };
        added_is_there(old(other).apps@, final(other).apps@, app);
        added_keeps_others(old(other).apps@, final(other).apps@, app, x);
    }
}

proof fn added_is_there(before: Seq<AppInfo>, after: Seq<AppInfo>, app: AppInfo)
    requires
        crate::ordering::stably_sorted(before.push(app), after, crate::catalog::app_order()),
    ensures
        after.contains(app),
{
    let all = before.push(app);
    sorting_keeps_items(all, after, crate::catalog::app_order());
    assert(all[all.len() - 1] == app);
    assert(all.contains(app));
}

proof fn added_keeps_others(before: Seq<AppInfo>, after: Seq<AppInfo>, app: AppInfo, x: AppInfo)
    requires
        crate::ordering::stably_sorted(before.push(app), after, crate::catalog::app_order()),
    ensures
        after.len() == before.len() + 1,
        before.contains(x) ==> after.contains(x),
{
    let all = before.push(app);
    sorting_keeps_items(all, after, crate::catalog::app_order());
    if before.contains(x) {
        let i = choose|i: int| 0 <= i < before.len() && before[i] == x;
        assert(all[i] == x);
        assert(all.contains(x));
    }
}

// ---------------------------------------------------------------------------------------------
// The rest of the interface
// ---------------------------------------------------------------------------------------------

/// The point by which the monitor of a window is found lies in its middle.
pub proof fn middle_of_window_is_taken(w: Placement, r: (i32, i32))
    requires
        call_ensures(window_centre, (w,), r),
        w.width >= 0 && w.height >= 0,
        i32::MIN <= w.x + w.width / 2 <= i32::MAX,
        i32::MIN <= w.y + w.height / 2 <= i32::MAX,
    ensures
        0 <= 2 * (r.0 - w.x) <= w.width <= 2 * (r.0 - w.x) + 1,
        0 <= 2 * (r.1 - w.y) <= w.height <= 2 * (r.1 - w.y) + 1,
{
}

/// A window of which it is forgotten that it hides neither hides nor slides, and no cursor is
/// waited for.
pub proof fn hiding_is_forgotten(e: &mut EdgeAutoHide)
    requires
        call_ensures(EdgeAutoHide::clear_dock_state, (e,), ()),
    ensures
        final(e).docked is None && final(e).animation is None && final(e).hover_since is None,
        *final(e) == (EdgeAutoHide {
            docked: None,
            animation: None,
            hover_since: None,
            ..*old(e)
        }),
{
}

/// While a hotkey is recorded the mouse is not listened to, and nothing else of the watch changes.
pub proof fn mouse_is_quiet_while_recording(watch: &mut MouseWatch, quiet: bool, hint: &'static str)
    requires
        call_ensures(set_capture_suppress_mouse, (watch, quiet), ()),
        call_ensures(default_capture_hint, (), hint),
    ensures
        final(watch).suppressed == quiet && final(watch).binding == old(watch).binding
            && final(watch).hooked == old(watch).hooked,
        hint@ == "点击此处，按下键盘组合键，或鼠标中键/侧键"@,
{
}

/// What of an entry is searched counts for the fingerprint: its id, name, path, keywords and
/// address.
pub proof fn searched_parts_count(apps: &Vec<AppInfo>, r: Vec<AppKey>, i: int)
    requires
        call_ensures(search_keys, (apps,), r),
        0 <= i < apps@.len(),
    ensures
        r@.len() == apps@.len(),
        r@[i].id@ == apps@[i].id@ && r@[i].name@ == apps@[i].name@ && r@[i].path@ == apps@[i].path@,
        r@[i].keywords@ == apps@[i].keywords@ && r@[i].web_url == apps@[i].web_url,
{
    assert(crate::search::key_of(r@[i], apps@[i]));
}

/// At the start nothing is indexed, no search was made, no window hides, and a drop target is held
/// once and takes nothing.
pub proof fn everything_starts_blank(
    cache: SearchIndexCache,
    session: SearchSession,
    edge: EdgeAutoHide,
    target: LauncherDropHandler,
)
    requires
        call_ensures(SearchIndexCache::new, (), cache),
        call_ensures(SearchSession::new, (), session),
        call_ensures(EdgeAutoHide::new, (), edge),
        call_ensures(LauncherDropHandler::new, (), target),
    ensures
        cache.by_id@.len() == 0 && cache.fingerprint == 0,
        session.generation == 0,
        edge.docked is None && edge.animation is None && edge.last_pos is None && edge.last_move_at
            is None && edge.hover_since is None,
        target.refcount == 1 && target.cursor_effect == 0 && !target.hovered_is_valid
            && target.hover_text is None,
{
}

/// An index that is cleared holds nothing.
pub proof fn cleared_index_is_empty(cache: &mut SearchIndexCache)
    requires
        call_ensures(SearchIndexCache::clear, (cache,), ()),
    ensures
        final(cache).by_id@.len() == 0 && final(cache).fingerprint == 0,
{
}

/// Forty-eight files are asked for at most, as the user is told, and a slide takes 160 milliseconds.
pub proof fn counts_and_times_are_kept()
    ensures
        crate::search::MAX_HITS == 48,
        crate::edge_auto_hide::SLIDE_DURATION == 160_000_000,
{
}

/// A drop target offers the interface of every object and that of drop targets, and no other. It is
/// handed out, and then held once more, just where there is a place to put it.
pub proof fn two_interfaces_are_offered(
    id: &Guid,
    r: bool,
    other: &Guid,
    same: bool,
    h: &mut LauncherDropHandler,
    asked: Option<Guid>,
    place: bool,
    answer: QueryAnswer,
)
    requires
        call_ensures(offers_interface, (id,), r),
        call_ensures(guid_eq, (id, other), same),
        call_ensures(LauncherDropHandler::QueryInterface, (h, asked, place), answer),
        asked is Some ==> asked->0 == *id,
        old(h).refcount < u32::MAX,
    ensures
        same <==> id.data1 == other.data1 && id.data2 == other.data2 && id.data3 == other.data3
            && id.data4 == other.data4,
        r <==> (id.data1 == 0 || id.data1 == 0x122) && id.data2 == 0 && id.data3 == 0 && id.data4
            == 0xc000_0000_0000_0046,
        answer == QueryAnswer::NoPlace <==> !place,
        answer == QueryAnswer::Given <==> place && asked is Some && r,
        answer == QueryAnswer::Given ==> final(h).refcount == old(h).refcount + 1,
        answer != QueryAnswer::Given ==> *final(h) == *old(h),
{
}

/// What the user is told while something is dragged, and otherwise.
pub proof fn dragging_is_told(hint: String, idle: String)
    requires
        call_ensures(drop_hint_status, (), hint),
        call_ensures(idle_status, (), idle),
    ensures
        hint@ == "松开鼠标即可添加（支持 exe · lnk · url · 文件夹 · 图片 · 文档 · 含 http(s) 的文本）"@,
        idle@ == "拖入文件添加 · 左键启动 · 右键菜单"@,
{
}

} // verus!

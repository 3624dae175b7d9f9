//! What a launch comes to, whatever the entry: which way an entry goes, with what, and what the
//! user is told.

use vstd::prelude::*;

use crate::app_launcher::{AdminLaunch, AppLauncher, LaunchFacts, LaunchPlan};
use crate::entries::{launch_app, launch_counts, launch_single_app, LaunchRequest};
use crate::lists::first_where_means;
use crate::models::{AppInfo, LaunchResult, UserConfig};
use crate::path_convert::resolve_path;
use crate::paths::{path_debug, path_extension, path_parent};
use crate::text::{blank_means_all_white_space, is_white_space, lowercase, opt_text};
use crate::utf16::utf16;
use crate::web::parsed_url;

verus! {

/// Whether the entry has a link of its own: one that is not blank.
pub open spec fn has_link(app: AppInfo) -> bool {
    app.web_url is Some && exists|i: int|
        0 <= i < app.web_url->0@.len() && !is_white_space(#[trigger] app.web_url->0@[i])
}

/// Whether the text is read as an address whose scheme is `http` or `https`.
pub open spec fn read_as_web_address(s: Seq<char>) -> bool {
    parsed_url(s) matches Some((scheme, _)) && (scheme == "http"@ || scheme == "https"@)
}

/// An entry with a link of its own opens that link, whatever its path.
pub proof fn own_link_goes_first(
    launcher: &AppLauncher,
    app: &AppInfo,
    facts: LaunchFacts,
    plan: LaunchPlan,
)
    requires
        call_ensures(AppLauncher::launch, (launcher, app, facts), plan),
        has_link(*app),
    ensures
        plan is OpenLink && plan->OpenLink_0@ == app.web_url->0@,
{
    blank_means_all_white_space(app.web_url->0@);
}

/// An entry without a link of its own opens its path as a link just where the path is an address
/// of the web.
pub proof fn web_path_is_opened_as_link(
    launcher: &AppLauncher,
    app: &AppInfo,
    facts: LaunchFacts,
    plan: LaunchPlan,
)
    requires
        call_ensures(AppLauncher::launch, (launcher, app, facts), plan),
        !has_link(*app),
    ensures
        plan is OpenLink <==> read_as_web_address(app.path@),
        plan is OpenLink ==> plan->OpenLink_0@ == app.path@,
{
    if app.web_url is Some {
        blank_means_all_white_space(app.web_url->0@);
    }
}

/// A file is refused just where it leads nowhere, and nothing else is; the user is told which.
pub proof fn missing_file_is_refused(
    launcher: &AppLauncher,
    app: &AppInfo,
    facts: LaunchFacts,
    plan: LaunchPlan,
)
    requires
        call_ensures(AppLauncher::launch, (launcher, app, facts), plan),
    ensures
        plan is Refuse <==> !facts.exists && !has_link(*app) && !read_as_web_address(app.path@),
        plan is Refuse ==> plan->Refuse_0@ == "路径不存在: "@ + path_debug(app.path@),
{
    if app.web_url is Some {
        blank_means_all_white_space(app.web_url->0@);
    }
}

/// A program is run just where a file that is there has the extension `exe`, in large or small
/// letters; every other file that is there, whatever its extension, is handed to the system.
pub proof fn programs_are_run_and_files_opened(
    launcher: &AppLauncher,
    app: &AppInfo,
    facts: LaunchFacts,
    plan: LaunchPlan,
)
    requires
        call_ensures(AppLauncher::launch, (launcher, app, facts), plan),
    ensures
        plan is RunProgram ==> facts.exists && path_extension(app.path@) is Some && lowercase(
            path_extension(app.path@)->0,
        ) == "exe"@,
        plan is OpenFile ==> facts.exists && (path_extension(app.path@) is None || lowercase(
            path_extension(app.path@)->0,
        ) != "exe"@) && plan->OpenFile_0@ == app.path@,
        facts.exists && !has_link(*app) && !read_as_web_address(app.path@) ==> plan is RunProgram
            || plan is OpenFile,
{
    if app.web_url is Some {
        blank_means_all_white_space(app.web_url->0@);
    }
}

/// A program is run at its path and with its arguments: in the directory that the entry names, if
/// that is there, and in the system's choice if not; where the entry names none, in the
/// directory that holds the program.
pub proof fn program_is_run_in_its_place(
    launcher: &AppLauncher,
    app: &AppInfo,
    facts: LaunchFacts,
    plan: LaunchPlan,
)
    requires
        call_ensures(AppLauncher::launch, (launcher, app, facts), plan),
        plan is RunProgram,
    ensures
        plan->program@ == app.path@,
        plan->args@ == app.args@,
        app.work_dir is Some && facts.work_dir_exists ==> plan->dir is Some && plan->dir->0@
            == app.work_dir->0@,
        app.work_dir is Some && !facts.work_dir_exists ==> plan->dir is None,
        app.work_dir is None ==> opt_text(plan->dir) == path_parent(app.path@),
{
}

/// Where the system ends a plan well, the launch succeeds, unless the plan refused; where it does
/// not, the user is told why, and of a link that it was one.
pub proof fn outcome_is_told(
    launcher: &AppLauncher,
    plan: &LaunchPlan,
    outcome: Result<(), String>,
    result: LaunchResult,
)
    requires
        call_ensures(AppLauncher::launch_result, (launcher, plan, outcome), result),
    ensures
        result is Success <==> outcome is Ok && !(plan is Refuse),
        !(result is NotFound),
        plan is Refuse ==> result->Failed_0 == plan->Refuse_0,
        plan is OpenLink && outcome is Err ==> result->Failed_0@ == "打开链接失败："@
            + outcome->Err_0@,
        (plan is RunProgram || plan is OpenFile) && outcome is Err ==> result->Failed_0@
            == "启动失败："@ + outcome->Err_0@,
{
}

/// What is handed to the system to run the entry as an administrator names the entry's own path
/// and directory, each closed by a zero; it names arguments just where the entry has some that are
/// not empty. Only a path that leads nowhere is refused.
pub proof fn administrator_runs_the_entry(
    launcher: &AppLauncher,
    app: &AppInfo,
    present: bool,
    r: Result<AdminLaunch, String>,
)
    requires
        call_ensures(AppLauncher::launch_as_admin, (launcher, app, present), r),
    ensures
        r is Ok <==> present,
        r is Err ==> r->Err_0@ == "路径不存在"@,
        r is Ok ==> r->Ok_0.file@ == utf16(app.path@).push(0u16),
        r is Ok ==> (r->Ok_0.dir is Some <==> app.work_dir is Some),
        r is Ok && app.work_dir is Some ==> r->Ok_0.dir->0@ == utf16(app.work_dir->0@).push(0u16),
        r is Ok && app.args@.len() == 0 ==> r->Ok_0.args is None,
        r is Ok && app.args@.len() == 1 && app.args@[0]@.len() > 0 ==> r->Ok_0.args is Some
            && r->Ok_0.args->0@ == utf16(app.args@[0]@).push(0u16),
        r is Ok && app.args@.len() == 2 ==> r->Ok_0.args is Some && r->Ok_0.args->0@ == utf16(
            app.args@[0]@ + seq![' '] + app.args@[1]@,
        ).push(0u16),
{
    let args = crate::text::texts(app.args@);
    reveal_strlit(" ");
    assert(" "@ =~= seq![' ']);
    reveal_with_fuel(crate::text::joined, 3);
    if app.args@.len() == 1 {
        assert(args[0] == app.args@[0]@);
        assert(crate::text::joined(args, " "@) =~= app.args@[0]@);
    }
    if app.args@.len() == 2 {
        assert(args[0] == app.args@[0]@ && args[1] == app.args@[1]@);
        assert(crate::text::joined(args, " "@) =~= app.args@[0]@ + seq![' '] + app.args@[1]@);
    }
}

/// A launch counts the entry that was clicked, and no other: it was used once more, and last now.
/// What is launched is that entry, with its path as it leads from the base.
pub proof fn launch_counts_the_entry(
    apps: &mut Vec<AppInfo>,
    base: &str,
    id: &str,
    now: u64,
    r: Option<AppInfo>,
    i: int,
    path: &str,
    led: String,
)
    requires
        call_ensures(launch_single_app, (apps, base, id, now), r),
        path@ == old(apps)@[i].path@,
        call_ensures(resolve_path, (base, path), led),
        0 <= i < old(apps)@.len(),
        old(apps)@[i].id@ == id@,
        old(apps)@[i].exec_count < u32::MAX,
        forall|j: int| 0 <= j < i ==> (#[trigger] old(apps)@[j]).id@ != id@,
    ensures
        final(apps)@.len() == old(apps)@.len(),
        final(apps)@[i].exec_count == old(apps)@[i].exec_count + 1,
        final(apps)@[i].last_used == Some(now),
        final(apps)@[i] == (AppInfo {
            exec_count: final(apps)@[i].exec_count,
            last_used: final(apps)@[i].last_used,
            ..old(apps)@[i]
        }),
        forall|j: int| 0 <= j < old(apps)@.len() && j != i ==> #[trigger] final(apps)@[j]
            == old(apps)@[j],
        r is Some,
        r->0.id@ == id@,
        r->0.web_url == old(apps)@[i].web_url,
        r->0.args@ == old(apps)@[i].args@,
        r->0.work_dir == old(apps)@[i].work_dir,
        r->0.path@ == led@,
{
    let p = crate::catalog::has_id(id@);
    first_where_means(old(apps)@, p);
    assert(p(old(apps)@[i]));
}

/// A click on what is no entry changes no entry and stores nothing. Only an item whose id begins
/// as those of files found on the computer do, and that has a path, is launched then, at that
/// path; the window hides only as the settings ask.
pub proof fn found_file_is_launched(
    config: &mut UserConfig,
    base: &str,
    id: &str,
    name: &str,
    path: &str,
    now: u64,
    r: LaunchRequest,
)
    requires
        call_ensures(launch_app, (config, base, id, name, path, now), r),
        forall|j: int| 0 <= j < old(config).apps@.len() ==> (#[trigger] old(config).apps@[j]).id@
            != id@,
    ensures
        final(config).apps@ == old(config).apps@,
        !r.save,
        r.app is Some <==> path@.len() > 0 && id@.len() >= 3 && id@[0] == 'e' && id@[1] == 'v'
            && id@[2] == ':',
        r.app is Some ==> r.app->0.path@ == path@ && r.app->0.name@ == name@
            && r.app->0.web_url is None && r.app->0.args@.len() == 0,
        r.hide ==> old(config).hide_on_launch_click && r.app is Some,
        r.app is Some && old(config).hide_on_launch_click ==> r.hide,
{
    first_where_means(old(config).apps@, crate::catalog::has_id(id@));
    reveal_strlit("ev:");
    if id@.len() >= 3 {
        let head = id@.subrange(0, 3);
        assert(head[0] == id@[0] && head[1] == id@[1] && head[2] == id@[2]);
        assert(id@[0] == 'e' && id@[1] == 'v' && id@[2] == ':' ==> head =~= "ev:"@);
    }
}

/// A click on an entry launches it, asks for the settings to be stored, and hides the window as
/// the settings ask.
pub proof fn clicked_entry_is_launched(
    config: &mut UserConfig,
    base: &str,
    id: &str,
    name: &str,
    path: &str,
    now: u64,
    r: LaunchRequest,
    i: int,
    own: &str,
    led: String,
)
    requires
        call_ensures(launch_app, (config, base, id, name, path, now), r),
        0 <= i < old(config).apps@.len(),
        own@ == old(config).apps@[i].path@,
        call_ensures(resolve_path, (base, own), led),
        old(config).apps@[i].id@ == id@,
        old(config).apps@[i].exec_count < u32::MAX,
        forall|j: int| 0 <= j < i ==> (#[trigger] old(config).apps@[j]).id@ != id@,
    ensures
        r.app is Some && r.app->0.id@ == id@,
        r.app->0.path@ == led@ && r.app->0.args@ == old(config).apps@[i].args@,
        r.app->0.web_url == old(config).apps@[i].web_url && r.app->0.work_dir
            == old(config).apps@[i].work_dir,
        r.save,
        r.hide == old(config).hide_on_launch_click,
        final(config).apps@.len() == old(config).apps@.len(),
        final(config).apps@[i].exec_count == old(config).apps@[i].exec_count + 1,
        final(config).apps@[i].last_used == Some(now),
        forall|j: int|
            0 <= j < old(config).apps@.len() && j != i ==> #[trigger] final(config).apps@[j]
                == old(config).apps@[j],
{
    let p = crate::catalog::has_id(id@);
    first_where_means(old(config).apps@, p);
    assert(p(old(config).apps@[i]));
}

proof fn good_count_bounds(outcomes: Seq<bool>)
    ensures
        crate::entries::good(outcomes) <= outcomes.len(),
        crate::entries::good(outcomes) == outcomes.len() <==> forall|i: int|
            0 <= i < outcomes.len() ==> #[trigger] outcomes[i],
        crate::entries::good(outcomes) == 0 <==> forall|i: int|
            0 <= i < outcomes.len() ==> !#[trigger] outcomes[i],
    decreases outcomes.len(),
{
    if outcomes.len() > 0 {
        let rest = outcomes.drop_last();
        good_count_bounds(rest);
        assert(forall|i: int| 0 <= i < rest.len() ==> rest[i] == outcomes[i]);
        assert(outcomes.last() == outcomes[outcomes.len() - 1]);
    }
}

/// Every outcome counts once, as a success or as a failure: there are no failures just where all
/// went well, no successes just where nothing did, and one more success is counted as one more.
pub proof fn outcomes_are_counted(
    outcomes: &Vec<bool>,
    r: (usize, usize),
    more: &Vec<bool>,
    s: (usize, usize),
    last: bool,
)
    requires
        call_ensures(launch_counts, (outcomes,), r),
        call_ensures(launch_counts, (more,), s),
        more@ == outcomes@.push(last),
    ensures
        r.0 + r.1 == outcomes@.len(),
        r.1 == 0 <==> forall|i: int| 0 <= i < outcomes@.len() ==> #[trigger] outcomes@[i],
        r.0 == 0 <==> forall|i: int| 0 <= i < outcomes@.len() ==> !#[trigger] outcomes@[i],
        last ==> s.0 == r.0 + 1 && s.1 == r.1,
        !last ==> s.0 == r.0 && s.1 == r.1 + 1,
{
    good_count_bounds(outcomes@);
    assert(more@.drop_last() =~= outcomes@);
}

} // verus!

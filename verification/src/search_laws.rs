//! What a search finds and shows, whatever is searched for.

use vstd::prelude::*;

use crate::catalog::shown_in;
use crate::everything_search::EverythingHit;
use crate::groups::{category_requires_unlock, category_shown};
use crate::icon_loader::{icon_source, IconOrigin, IconSource};
use crate::models::{AppInfo, UserConfig};
use crate::numbers::decimal;
use crate::path_convert::resolve_path;
use crate::paths::{path_is_absolute, path_join};
use crate::search::{
    app_matches_query, apply_everything_hits, build_app_item, ensure_search_cache, found_by,
    is_fingerprint, refresh_apps,
    reset_search_for_invoke, AppRow, FileHitRow, IndexEntry, InvokeReset, Listing, SearchIndexCache,
    SearchPlan, SearchSession,
};
use crate::text::{
    blank_means_all_white_space, contains, is_white_space, join, lowercase, starts_with, texts,
};

verus! {

/// Whether some keyword of the entry, in small letters, holds the text.
pub open spec fn keyword_holds(app: AppInfo, q: Seq<char>) -> bool {
    exists|i: int|
        0 <= i < app.keywords@.len() && contains(lowercase((#[trigger] app.keywords@[i])@), q)
}

/// Whether the name, the path, the link or some keyword of the entry, in small letters, holds the
/// text. Every entry holds the empty text.
pub open spec fn holds_text(app: AppInfo, q: Seq<char>) -> bool {
    ||| q.len() == 0
    ||| contains(lowercase(app.name@), q)
    ||| contains(lowercase(app.path@), q)
    ||| app.web_url is Some && contains(lowercase(app.web_url->0@), q)
    ||| keyword_holds(app, q)
}

/// Whether what is kept of the entries for searching is up to date: for each entry its id, and its
/// name, path, keywords and link in small letters.
pub open spec fn keeps_entries(index: Seq<IndexEntry>, apps: Seq<AppInfo>) -> bool {
    &&& index.len() == apps.len()
    &&& forall|i: int|
        0 <= i < apps.len() ==> {
            let d = (#[trigger] index[i]).data;
            &&& index[i].id@ == apps[i].id@
            &&& d.name_lc@ == lowercase(apps[i].name@)
            &&& d.path_lc@ == lowercase(apps[i].path@)
            &&& d.keywords_lc@.len() == apps[i].keywords@.len()
            &&& forall|k: int|
                0 <= k < apps[i].keywords@.len() ==> (#[trigger] d.keywords_lc@[k])@ == lowercase(
                    apps[i].keywords@[k]@,
                )
            &&& d.web_url_lc is Some <==> apps[i].web_url is Some
            &&& d.web_url_lc is Some ==> d.web_url_lc->0@ == lowercase(apps[i].web_url->0@)
        }
}

proof fn any_keyword(app: AppInfo, q: Seq<char>)
    ensures
        crate::search::any_contains(
            crate::search::all_lowercase(texts(app.keywords@)),
            q,
        ) <==> keyword_holds(app, q),
{
    let all = crate::search::all_lowercase(texts(app.keywords@));
    assert forall|i: int| 0 <= i < app.keywords@.len() implies all[i] == lowercase(
        (#[trigger] app.keywords@[i])@,
    ) by {}
    if crate::search::any_contains(all, q) {
        let i = choose|i: int| 0 <= i < all.len() && contains(#[trigger] all[i], q);
        assert(contains(lowercase(app.keywords@[i]@), q));
    }
    if keyword_holds(app, q) {
        let i = choose|i: int|
            0 <= i < app.keywords@.len() && contains(lowercase((#[trigger] app.keywords@[i])@), q);
        assert(contains(all[i], q));
    }
}

/// A search finds an entry of which nothing is kept just where the entry holds the text: in its
/// name, its path, its link, or any of its keywords, whichever place that has.
pub proof fn search_finds_what_entry_holds(
    app: &AppInfo,
    q: &str,
    cache: &SearchIndexCache,
    r: bool,
)
    requires
        call_ensures(app_matches_query, (app, q, cache), r),
        forall|j: int| 0 <= j < cache.by_id@.len() ==> (#[trigger] cache.by_id@[j]).id@ != app.id@,
    ensures
        r <==> holds_text(*app, q@),
        forall|i: int|
            0 <= i < app.keywords@.len() && contains(lowercase((#[trigger] app.keywords@[i])@), q@)
                ==> r,
{
    nothing_under(cache.by_id@, app.id@);
    any_keyword(*app, q@);
}

proof fn nothing_under(index: Seq<IndexEntry>, id: Seq<char>)
    requires
        forall|j: int| 0 <= j < index.len() ==> (#[trigger] index[j]).id@ != id,
    ensures
        crate::search::last_under(index, id) is None,
    decreases index.len(),
{
    if index.len() > 0 {
        let rest = index.drop_last();
        assert forall|j: int| 0 <= j < rest.len() implies (#[trigger] rest[j]).id@ != id by {
            assert(index[j].id@ != id);
        }
        nothing_under(rest, id);
        assert(index.last() == index[index.len() - 1]);
    }
}

proof fn only_under(index: Seq<IndexEntry>, k: int)
    requires
        0 <= k < index.len(),
        forall|j: int| 0 <= j < index.len() && j != k ==> (#[trigger] index[j]).id@ != index[k].id@,
    ensures
        crate::search::last_under(index, index[k].id@) == Some(k),
    decreases index.len(),
{
    if k < index.len() - 1 {
        let rest = index.drop_last();
        assert forall|j: int| 0 <= j < rest.len() && j != k implies (#[trigger] rest[j]).id@
            != rest[k].id@ by {
            assert(index[j].id@ != index[k].id@);
        }
        only_under(rest, k);
        assert(index.last() == index[index.len() - 1]);
    }
}

/// A search that goes by what is kept of the entries finds an entry just where it holds the text,
/// if what is kept is up to date and no two entries have one id.
pub proof fn kept_entry_is_found(
    apps: Seq<AppInfo>,
    k: int,
    app: &AppInfo,
    q: &str,
    cache: &SearchIndexCache,
    r: bool,
)
    requires
        call_ensures(app_matches_query, (app, q, cache), r),
        keeps_entries(cache.by_id@, apps),
        forall|i: int, j: int|
            0 <= i < j < apps.len() ==> (#[trigger] apps[i]).id@ != (#[trigger] apps[j]).id@,
        0 <= k < apps.len(),
        *app == apps[k],
    ensures
        r <==> holds_text(*app, q@),
{
    kept_entry_matches(apps, cache.by_id@, k, q@);
}

proof fn kept_entry_matches(apps: Seq<AppInfo>, index: Seq<IndexEntry>, k: int, q: Seq<char>)
    requires
        keeps_entries(index, apps),
        forall|i: int, j: int|
            0 <= i < j < apps.len() ==> (#[trigger] apps[i]).id@ != (#[trigger] apps[j]).id@,
        0 <= k < apps.len(),
    ensures
        found_by(q, index)(apps[k]) <==> holds_text(apps[k], q),
{
    assert(index[k].id@ == apps[k].id@);
    assert forall|j: int| 0 <= j < index.len() && j != k implies (#[trigger] index[j]).id@
        != index[k].id@ by {
        assert(index[j].id@ == apps[j].id@);
        if j < k {
            assert(apps[j].id@ != apps[k].id@);
        } else {
            assert(apps[k].id@ != apps[j].id@);
        }
    }
    only_under(index, k);
    let d = index[k].data;
    let all = crate::search::all_lowercase(texts(apps[k].keywords@));
    assert(texts(d.keywords_lc@) =~= all) by {
        assert forall|i: int| 0 <= i < all.len() implies texts(d.keywords_lc@)[i] == all[i] by {
            assert(d.keywords_lc@[i]@ == lowercase(apps[k].keywords@[i]@));
        }
    }
    any_keyword(apps[k], q);
}

/// Bringing what is kept up to date keeps every entry, unless the fingerprint tells that nothing
/// has changed; then nothing changes.
pub proof fn reindexing_keeps_entries(
    cache: &mut SearchIndexCache,
    apps: &Vec<AppInfo>,
    fingerprint: u64,
)
    requires
        call_ensures(SearchIndexCache::reindex, (cache, apps, fingerprint), ()),
    ensures
        old(cache).fingerprint != fingerprint ==> keeps_entries(final(cache).by_id@, apps@),
        old(cache).fingerprint == fingerprint ==> final(cache).by_id@ == old(cache).by_id@,
        final(cache).fingerprint == fingerprint,
{
    if old(cache).fingerprint != fingerprint {
        indexed_entries_are_kept(final(cache).by_id@, apps@);
    }
}

/// The index is brought up to date where the entries are not those that it was made of, and stays
/// as it is otherwise.
pub proof fn index_is_brought_up_to_date(cache: &mut SearchIndexCache, apps: &Vec<AppInfo>)
    requires
        call_ensures(ensure_search_cache, (cache, apps), ()),
    ensures
        final(cache).fingerprint != old(cache).fingerprint ==> keeps_entries(
            final(cache).by_id@,
            apps@,
        ),
        final(cache).fingerprint == old(cache).fingerprint ==> *final(cache) == *old(cache),
        is_fingerprint(apps@, final(cache).fingerprint),
{
    if final(cache).fingerprint != old(cache).fingerprint {
        indexed_entries_are_kept(final(cache).by_id@, apps@);
    }
}

proof fn indexed_entries_are_kept(index: Seq<IndexEntry>, apps: Seq<AppInfo>)
    requires
        crate::search::index_of(index, apps),
    ensures
        keeps_entries(index, apps),
{
    assert forall|i: int| 0 <= i < apps.len() implies {
        let d = (#[trigger] index[i]).data;
        &&& index[i].id@ == apps[i].id@
        &&& d.name_lc@ == lowercase(apps[i].name@)
        &&& d.path_lc@ == lowercase(apps[i].path@)
        &&& d.keywords_lc@.len() == apps[i].keywords@.len()
        &&& forall|k: int|
            0 <= k < apps[i].keywords@.len() ==> (#[trigger] d.keywords_lc@[k])@ == lowercase(
                apps[i].keywords@[k]@,
            )
        &&& d.web_url_lc is Some <==> apps[i].web_url is Some
        &&& d.web_url_lc is Some ==> d.web_url_lc->0@ == lowercase(apps[i].web_url->0@)
    } by {
        let d = index[i].data;
        let all = crate::search::all_lowercase(texts(apps[i].keywords@));
        assert(texts(d.keywords_lc@) == all);
        assert(all.len() == apps[i].keywords@.len());
        assert(texts(d.keywords_lc@).len() == d.keywords_lc@.len());
        assert forall|k: int| 0 <= k < apps[i].keywords@.len() implies (
        #[trigger] d.keywords_lc@[k])@ == lowercase(apps[i].keywords@[k]@) by {
            assert(texts(d.keywords_lc@)[k] == all[k]);
        }
    }
}

/// Of a group that asks for its password nothing is shown; of another, the entries that hold the
/// text, in the order in which the group is shown, if what is kept of the entries is up to date
/// and no two of them have one id.
pub proof fn listing_shows_what_is_found(
    config: &UserConfig,
    unlocked: &Vec<String>,
    cache: &mut SearchIndexCache,
    base: &str,
    selected: &str,
    search: &str,
    r: Listing,
    cat: String,
    group: &str,
    locked: bool,
)
    requires
        call_ensures(refresh_apps, (config, unlocked, cache, base, selected, search), r),
        call_ensures(category_shown, (&config.categories, selected), cat),
        call_ensures(category_requires_unlock, (&config.categories, unlocked, group), locked),
        group@ == cat@,
        lowercase(search@).len() > 0 && !locked ==> keeps_entries(
            final(cache).by_id@,
            config.apps@,
        ),
        forall|i: int, j: int|
            0 <= i < j < config.apps@.len() ==> (#[trigger] config.apps@[i]).id@ != (
            #[trigger] config.apps@[j]).id@,
    ensures
        locked ==> r.rows@.len() == 0,
        !locked ==> {
            let found = shown_in(config.apps@, cat@).filter(
                |a: AppInfo| holds_text(a, lowercase(search@)),
            );
            &&& r.rows@.len() == found.len()
            &&& forall|i: int|
                0 <= i < found.len() ==> (#[trigger] r.rows@[i]).id@ == found[i].id@
                    && r.rows@[i].name@ == found[i].name@ && r.rows@[i].path@ == found[i].path@
                    && r.rows@[i].pinned == found[i].pinned && r.rows@[i].sort_order
                    == found[i].sort_order && r.rows@[i].category_id@ == found[i].category_id@
                    && r.rows@[i].leads_to@ == (if starts_with(found[i].path@, "http://"@)
                    || starts_with(found[i].path@, "https://"@) || path_is_absolute(found[i].path@) {
                    found[i].path@
                } else {
                    path_join(base@, found[i].path@)
                })
        },
        r.to_top <==> lowercase(search@).len() > 0 && r.rows@.len() > 0,
{
    let q = lowercase(search@);
    let index = final(cache).by_id@;
    let shown = shown_in(config.apps@, cat@);
    let members = config.apps@.filter(crate::catalog::in_category(cat@));
    if !locked {
        let f = |a: AppInfo| holds_text(a, q);
        let p = found_by(q, index);
        crate::catalog::app_order_is_total();
        crate::ordering::every_list_has_sorted_form(members, crate::catalog::app_order());
        crate::ordering::sorting_keeps_items(members, shown, crate::catalog::app_order());
        assert forall|i: int| 0 <= i < shown.len() implies p(#[trigger] shown[i]) == f(
            shown[i],
        ) by {
            if q.len() > 0 {
                assert(shown.contains(shown[i]));
                let g = choose|g: int| 0 <= g < members.len() && members[g] == shown[i];
                config.apps@.lemma_filter_contains_rev(crate::catalog::in_category(cat@), members[g]);
                let k = choose|k: int| 0 <= k < config.apps@.len() && config.apps@[k] == members[g];
                kept_entry_matches(config.apps@, index, k, q);
            }
        }
        same_filter_where_equal(shown, p, f);
    }
}

proof fn same_filter_where_equal(
    s: Seq<AppInfo>,
    p: spec_fn(AppInfo) -> bool,
    f: spec_fn(AppInfo) -> bool,
)
    requires
        forall|i: int| 0 <= i < s.len() ==> p(#[trigger] s[i]) == f(s[i]),
    ensures
        s.filter(p) == s.filter(f),
    decreases s.len(),
{
    reveal(Seq::filter);
    if s.len() > 0 {
        let t = s.drop_last();
        assert forall|i: int| 0 <= i < t.len() implies p(#[trigger] t[i]) == f(t[i]) by {
            assert(t[i] == s[i]);
        }
        same_filter_where_equal(t, p, f);
        assert(s.last() == s[s.len() - 1]);
    }
}

/// Whether the icon of a row comes from where the source says.
pub open spec fn same_source(a: IconSource, b: IconSource) -> bool {
    &&& a.custom is Some <==> b.custom is Some
    &&& a.custom matches Some((p, k)) ==> (b.custom matches Some((q, l)) && p@ == q@ && k@ == l@)
    &&& a.otherwise is WebPlaceholder <==> b.otherwise is WebPlaceholder
    &&& a.otherwise matches IconOrigin::System { path, key } ==> (b.otherwise
        matches IconOrigin::System { path: q, key: l } && path@ == q@ && key@ == l@)
}

/// A row shows what the entry is, its arguments with a space between each two, where it leads, and
/// the icon of where it leads.
pub proof fn row_shows_the_entry(
    app: &AppInfo,
    base: &str,
    r: AppRow,
    path: &str,
    led: String,
    place: &str,
    icon: IconSource,
    sep: &str,
    args: String,
)
    requires
        call_ensures(build_app_item, (app, base), r),
        path@ == app.path@,
        call_ensures(resolve_path, (base, path), led),
        place@ == led@,
        call_ensures(icon_source, (app, place, base), icon),
        sep@ == " "@,
        call_ensures(join, (&app.args, sep), args),
    ensures
        r.id@ == app.id@ && r.name@ == app.name@ && r.path@ == app.path@,
        r.category_id@ == app.category_id@,
        r.sort_order == app.sort_order && r.pinned == app.pinned,
        r.args@ == args@,
        r.leads_to@ == led@,
        same_source(r.icon, icon),
{
}

/// The files found on the computer are shown one row each, in the order in which they were found
/// and as they were; no two rows have one id, and each id begins as those of found files do.
pub proof fn found_files_are_shown(hits: &Vec<EverythingHit>, r: Vec<FileHitRow>)
    requires
        call_ensures(apply_everything_hits, (hits,), r),
    ensures
        r@.len() == hits@.len(),
        forall|i: int|
            0 <= i < hits@.len() ==> {
                let row = #[trigger] r@[i];
                &&& row.name@ == hits@[i].name@ && row.path@ == hits@[i].path@
                &&& row.location@ == hits@[i].location@ && row.modified@ == hits@[i].modified@
                &&& row.attributes@ == hits@[i].attributes@
                &&& row.id@.len() > 3
                &&& row.id@[0] == 'e' && row.id@[1] == 'v' && row.id@[2] == ':'
            },
        forall|i: int, j: int|
            0 <= i < j < r@.len() ==> (#[trigger] r@[i]).id@ != (#[trigger] r@[j]).id@,
{
    reveal_strlit("ev:");
    assert forall|i: int| 0 <= i < hits@.len() implies {
        let row = #[trigger] r@[i];
        &&& row.name@ == hits@[i].name@ && row.path@ == hits@[i].path@
        &&& row.location@ == hits@[i].location@ && row.modified@ == hits@[i].modified@
        &&& row.attributes@ == hits@[i].attributes@
        &&& row.id@.len() > 3
        &&& row.id@[0] == 'e' && row.id@[1] == 'v' && row.id@[2] == ':'
    } by {
        crate::numbers::decimal_reads_back(i as nat);
        assert(r@[i].id@ == "ev:"@ + decimal(i as nat));
    }
    assert forall|i: int, j: int| 0 <= i < j < r@.len() implies (#[trigger] r@[i]).id@ != (
    #[trigger] r@[j]).id@ by {
        let a = decimal(i as nat);
        let b = decimal(j as nat);
        if r@[i].id@ == r@[j].id@ {
            assert(("ev:"@ + a).subrange(3, ("ev:"@ + a).len() as int) =~= a);
            assert(("ev:"@ + b).subrange(3, ("ev:"@ + b).len() as int) =~= b);
            crate::numbers::decimal_is_injective(i as nat, j as nat);
        }
    }
}

/// Whether the text holds anything but white space.
pub open spec fn says_something(s: Seq<char>) -> bool {
    exists|i: int| 0 <= i < s.len() && !is_white_space(#[trigger] s[i])
}

/// A change of the search text searches the computer just where that is chosen and the text says
/// something, under a ticket that is current until the next change and not before; a text that
/// says nothing asks for one; every other change searches the entries.
pub proof fn ticket_is_current_until_next_change(
    session: &mut SearchSession,
    text: &str,
    scope: i32,
    r: SearchPlan,
)
    requires
        call_ensures(SearchSession::text_changed, (session, text, scope), r),
    ensures
        r is Entries <==> scope != 1,
        r is Computer <==> scope == 1 && says_something(text@),
        r is AskForText <==> scope == 1 && !says_something(text@),
        r is Computer ==> r->ticket == Some(final(session).generation),
        final(session).generation != old(session).generation,
{
    blank_means_all_white_space(text@);
}

/// A search that is submitted starts at once, without a ticket, and outdates the tickets given out
/// before.
pub proof fn submitted_search_starts_at_once(
    session: &mut SearchSession,
    text: &str,
    scope: i32,
    r: SearchPlan,
)
    requires
        call_ensures(SearchSession::submit, (session, text, scope), r),
    ensures
        r is Entries <==> scope != 1,
        r is Computer <==> scope == 1 && says_something(text@),
        r is AskForText <==> scope == 1 && !says_something(text@),
        r is Computer ==> r->ticket is None,
        final(session).generation != old(session).generation,
{
    blank_means_all_white_space(text@);
}

/// A ticket is current just while no change has come since.
pub proof fn ticket_tells_of_changes(session: &SearchSession, ticket: u64, r: bool)
    requires
        call_ensures(SearchSession::is_current, (session, ticket), r),
    ensures
        r <==> session.generation == ticket,
{
}

/// Calling up the window clears the search where anything was left in it, and only then says so.
pub proof fn left_over_search_is_cleared(text: &str, input: &str, asking: bool, r: InvokeReset)
    requires
        call_ensures(reset_search_for_invoke, (text, input, asking), r),
    ensures
        !r.clear <==> text@.len() == 0 && input@.len() == 0,
        r.status is Some <==> r.clear && !asking,
{
}

} // verus!

//! Searching the entries, and what a search shows.

use vstd::prelude::*;

use crate::catalog::{apps_in_category_sorted, shown_in, shown_in_is, targets};
use crate::everything_search::EverythingHit;
use crate::groups::{category_requires_unlock, category_shown, requires_unlock, shown_category};
use crate::icon_loader::{icon_comes_from, icon_source, IconSource};
use crate::models::{AppInfo, UserConfig};
use crate::numbers::{decimal, unsigned_to_text};
use crate::path_convert::{resolve_path, resolved};
use crate::text::{
    concat, concat3, contains, copy_texts, has_text, is_blank, join, joined, lowercase, opt_text,
    same_text, texts, trim,
};

verus! {

// ---------------------------------------------------------------------------------------------
// Matching
// ---------------------------------------------------------------------------------------------

/// What of an entry is searched, in small letters.
#[derive(Debug)]
pub struct SearchIndexData {
    pub name_lc: String,
    pub path_lc: String,
    pub keywords_lc: Vec<String>,
    pub web_url_lc: Option<String>,
}

/// What of an entry is searched, under its id.
#[derive(Debug)]
pub struct IndexEntry {
    pub id: String,
    pub data: SearchIndexData,
}

/// What of all entries is searched. Of several under one id the last counts. The fingerprint
/// tells whether the entries have changed since.
#[derive(Debug)]
pub struct SearchIndexCache {
    pub fingerprint: u64,
    pub by_id: Vec<IndexEntry>,
}

/// Whether one of the texts holds `q`.
pub open spec fn any_contains(list: Seq<Seq<char>>, q: Seq<char>) -> bool {
    exists|i: int| 0 <= i < list.len() && contains(#[trigger] list[i], q)
}

/// Whether there is a text, and it holds `q`.
pub open spec fn opt_contains(s: Option<Seq<char>>, q: Seq<char>) -> bool {
    s matches Some(t) && contains(t, q)
}

/// The texts in small letters.
pub open spec fn all_lowercase(list: Seq<Seq<char>>) -> Seq<Seq<char>> {
    list.map_values(|s: Seq<char>| lowercase(s))
}

/// The text in small letters, if there is one.
pub open spec fn opt_lowercase(s: Option<Seq<char>>) -> Option<Seq<char>> {
    match s {
        Some(t) => Some(lowercase(t)),
        None => None,
    }
}

/// Whether an entry holds `q`, in small letters: in its name, its path, a keyword or its address.
pub open spec fn entry_matches(app: AppInfo, q: Seq<char>) -> bool {
    ||| contains(lowercase(app.name@), q)
    ||| contains(lowercase(app.path@), q)
    ||| any_contains(all_lowercase(texts(app.keywords@)), q)
    ||| opt_contains(opt_lowercase(opt_text(app.web_url)), q)
}

/// Whether what of an entry is searched holds `q`.
pub open spec fn data_matches(d: SearchIndexData, q: Seq<char>) -> bool {
    ||| contains(d.name_lc@, q)
    ||| contains(d.path_lc@, q)
    ||| any_contains(texts(d.keywords_lc@), q)
    ||| opt_contains(opt_text(d.web_url_lc), q)
}

/// Whether `d` is what of the entry is searched.
pub open spec fn indexes(d: SearchIndexData, app: AppInfo) -> bool {
    &&& d.name_lc@ == lowercase(app.name@)
    &&& d.path_lc@ == lowercase(app.path@)
    &&& texts(d.keywords_lc@) == all_lowercase(texts(app.keywords@))
    &&& opt_text(d.web_url_lc) == opt_lowercase(opt_text(app.web_url))
}

/// Whether `index` is what of the entries is searched.
pub open spec fn index_of(index: Seq<IndexEntry>, apps: Seq<AppInfo>) -> bool {
    &&& index.len() == apps.len()
    &&& forall|i: int|
        0 <= i < apps.len() ==> (#[trigger] index[i]).id@ == apps[i].id@ && indexes(
            index[i].data,
            apps[i],
        )
}

/// The last place under the id.
pub open spec fn last_under(index: Seq<IndexEntry>, id: Seq<char>) -> Option<int>
    decreases index.len(),
{
    if index.len() == 0 {
        None
    } else if index.last().id@ == id {
        Some(index.len() - 1)
    } else {
        last_under(index.drop_last(), id)
    }
}

/// Whether a search for `q` finds the entry.
pub open spec fn found_by(q: Seq<char>, index: Seq<IndexEntry>) -> spec_fn(AppInfo) -> bool {
    |app: AppInfo|
        q.len() == 0 || match last_under(index, app.id@) {
            Some(i) => data_matches(index[i].data, q),
            None => entry_matches(app, q),
        }
}

proof fn last_under_means(index: Seq<IndexEntry>, id: Seq<char>)
    ensures
        match last_under(index, id) {
            Some(i) => 0 <= i < index.len() && index[i].id@ == id && forall|j: int|
                i < j < index.len() ==> (#[trigger] index[j]).id@ != id,
            None => forall|j: int| 0 <= j < index.len() ==> (#[trigger] index[j]).id@ != id,
        },
    decreases index.len(),
{
    if index.len() > 0 && index.last().id@ != id {
        let rest = index.drop_last();
        last_under_means(rest, id);
        match last_under(rest, id) {
            Some(i) => {
                assert forall|j: int| i < j < index.len() implies (#[trigger] index[j]).id@
                    != id by {
                    if j < rest.len() {
                        assert(rest[j] == index[j]);
                    }
                }
            },
            None => {
                assert forall|j: int| 0 <= j < index.len() implies (#[trigger] index[j]).id@
                    != id by {
                    if j < rest.len() {
                        assert(rest[j] == index[j]);
                    }
                }
            },
        }
    }
}

/// A search that goes by the index of the entries finds what a search of the entries themselves
/// finds, if no two entries have one id.
pub proof fn index_finds_what_entries_hold(
    index: Seq<IndexEntry>,
    apps: Seq<AppInfo>,
    q: Seq<char>,
    k: int,
)
    requires
        index_of(index, apps),
        forall|i: int, j: int|
            0 <= i < j < apps.len() ==> (#[trigger] apps[i]).id@ != (#[trigger] apps[j]).id@,
        0 <= k < apps.len(),
    ensures
        found_by(q, index)(apps[k]) == (q.len() == 0 || entry_matches(apps[k], q)),
{
    last_under_means(index, apps[k].id@);
    assert(index[k].id@ == apps[k].id@);
    let i = last_under(index, apps[k].id@)->0;
    assert(index[i].id@ == apps[i].id@);
    assert(i == k);
}

fn any_has(list: &Vec<String>, q: &str) -> (r: bool)
    ensures
        r == any_contains(texts(list@), q@),
{
    let ghost all = texts(list@);
    let mut i: usize = 0;
    while i < list.len()
        invariant
            i <= list@.len(),
            all == texts(list@),
            forall|k: int| 0 <= k < i ==> !contains(#[trigger] all[k], q@),
        decreases list@.len() - i,
    {
        assert(all[i as int] == list@[i as int]@);
        if has_text(list[i].as_str(), q) {
            return true;
        }
        i = i + 1;
    }
    false
}

fn to_lowercase_all(list: &Vec<String>) -> (r: Vec<String>)
    ensures
        texts(r@) == all_lowercase(texts(list@)),
{
    let ghost all = all_lowercase(texts(list@));
    let mut r: Vec<String> = Vec::new();
    let mut i: usize = 0;
    assert(texts(r@) =~= all.take(0));
    while i < list.len()
        invariant
            i <= list@.len(),
            all == all_lowercase(texts(list@)),
            texts(r@) == all.take(i as int),
        decreases list@.len() - i,
    {
        let ghost before = texts(r@);
        let s = list[i].as_str().to_lowercase();
        assert(s@ == all[i as int]);
        r.push(s);
        i = i + 1;
        assert(texts(r@) =~= before.push(s@));
        assert(texts(r@) =~= all.take(i as int));
    }
    assert(all.take(i as int) =~= all);
    r
}

fn index_data(app: &AppInfo) -> (r: SearchIndexData)
    ensures
        indexes(r, *app),
{
    SearchIndexData {
        name_lc: app.name.as_str().to_lowercase(),
        path_lc: app.path.as_str().to_lowercase(),
        keywords_lc: to_lowercase_all(&app.keywords),
        web_url_lc: match &app.web_url {
            Some(w) => Some(w.as_str().to_lowercase()),
            None => None,
        },
    }
}

fn data_has(d: &SearchIndexData, q: &str) -> (r: bool)
    ensures
        r == data_matches(*d, q@),
{
    has_text(d.name_lc.as_str(), q) || has_text(d.path_lc.as_str(), q) || any_has(
        &d.keywords_lc,
        q,
    ) || match &d.web_url_lc {
        Some(w) => has_text(w.as_str(), q),
        None => false,
    }
}

/// Whether a search for `q`, in small letters, finds the entry.
pub fn app_matches_query(app: &AppInfo, q: &str, cache: &SearchIndexCache) -> (r: bool)
    ensures
        r == found_by(q@, cache.by_id@)(*app),
{
    if q.is_empty() {
        return true;
    }
    let ghost index = cache.by_id@;
    let mut i: usize = cache.by_id.len();
    assert(index.take(i as int) =~= index);
    while i > 0
        invariant
            i <= index.len(),
            index == cache.by_id@,
            q@.len() > 0,
            last_under(index, app.id@) == last_under(index.take(i as int), app.id@),
        decreases i,
    {
        i = i - 1;
        assert(index.take(i + 1).drop_last() =~= index.take(i as int));
        if same_text(cache.by_id[i].id.as_str(), app.id.as_str()) {
            return data_has(&cache.by_id[i].data, q);
        }
    }
    assert(index.take(0).len() == 0);
    let d = index_data(app);
    data_has(&d, q)
}

// ---------------------------------------------------------------------------------------------
// The index
// ---------------------------------------------------------------------------------------------

/// What of an entry counts for the fingerprint.
#[derive(Debug, Hash)]
pub struct AppKey {
    pub id: String,
    pub name: String,
    pub path: String,
    pub keywords: Vec<String>,
    pub web_url: Option<String>,
}

impl View for AppKey {
    type V = (Seq<char>, Seq<char>, Seq<char>, Seq<Seq<char>>, Option<Seq<char>>);

    open spec fn view(&self) -> (
        Seq<char>,
        Seq<char>,
        Seq<char>,
        Seq<Seq<char>>,
        Option<Seq<char>>,
    ) {
        (self.id@, self.name@, self.path@, texts(self.keywords@), opt_text(self.web_url))
    }
}

/// Whether `hash` is one that the standard library's `DefaultHasher` gives for the list of ids,
/// names, paths, keywords and addresses. Machines differ in which it is.
pub uninterp spec fn hashes_to(
    keys: Seq<(Seq<char>, Seq<char>, Seq<char>, Seq<Seq<char>>, Option<Seq<char>>)>,
    hash: u64,
) -> bool;

/// The hash that the standard library's `DefaultHasher` gives for the list, its length first and
/// then the parts of each key in turn. That it is a hash of this list is all that is said: the
/// algorithm is not specified, and lengths go into it as words of the machine, so that the list
/// alone does not settle the value.
#[verifier::external_body]
fn hash_keys(keys: &Vec<AppKey>) -> (r: u64)
    ensures
        hashes_to(keys@.map_values(|k: AppKey| k@), r),
{
    let mut h = std::collections::hash_map::DefaultHasher::new();
    std::hash::Hash::hash(keys, &mut h);
    std::hash::Hasher::finish(&h)
}

/// Whether the key holds what of the entry counts for the fingerprint.
pub open spec fn key_of(key: AppKey, app: AppInfo) -> bool {
    &&& key.id == app.id
    &&& key.name == app.name
    &&& key.path == app.path
    &&& key.keywords@ == app.keywords@
    &&& key.web_url == app.web_url
}

/// What of the entries counts for the fingerprint.
pub fn search_keys(apps: &Vec<AppInfo>) -> (r: Vec<AppKey>)
    ensures
        r@.len() == apps@.len(),
        forall|i: int| 0 <= i < apps@.len() ==> key_of(#[trigger] r@[i], apps@[i]),
{
    let mut r: Vec<AppKey> = Vec::new();
    let mut i: usize = 0;
    while i < apps.len()
        invariant
            i <= apps@.len(),
            r@.len() == i,
            forall|k: int| 0 <= k < i ==> key_of(#[trigger] r@[k], apps@[k]),
        decreases apps@.len() - i,
    {
        let a = &apps[i];
        r.push(
            AppKey {
                id: a.id.clone(),
                name: a.name.clone(),
                path: a.path.clone(),
                keywords: copy_texts(&a.keywords),
                web_url: match &a.web_url {
                    Some(w) => Some(w.clone()),
                    None => None,
                },
            },
        );
        i = i + 1;
    }
    r
}

/// What of an entry counts for the fingerprint: its id, name, path, keywords and address.
pub open spec fn key_parts(app: AppInfo) -> (
    Seq<char>,
    Seq<char>,
    Seq<char>,
    Seq<Seq<char>>,
    Option<Seq<char>>,
) {
    (app.id@, app.name@, app.path@, texts(app.keywords@), opt_text(app.web_url))
}

/// Whether the number is a fingerprint of the entries: a hash of what counts for it, entry by
/// entry.
pub open spec fn is_fingerprint(apps: Seq<AppInfo>, fingerprint: u64) -> bool {
    hashes_to(apps.map_values(|a: AppInfo| key_parts(a)), fingerprint)
}

/// The fingerprint of the entries.
pub fn apps_search_fingerprint(apps: &Vec<AppInfo>) -> (r: u64)
    ensures
        is_fingerprint(apps@, r),
{
    let keys = search_keys(apps);
    assert(keys@.map_values(|k: AppKey| k@) =~= apps@.map_values(|a: AppInfo| key_parts(a)));
    hash_keys(&keys)
}

/// Whether `after` is the index `before` once the entries have the fingerprint: the same where
/// it is the fingerprint of the index, and a new one otherwise.
pub open spec fn reindexed(
    before: SearchIndexCache,
    after: SearchIndexCache,
    apps: Seq<AppInfo>,
    fingerprint: u64,
) -> bool {
    &&& after.fingerprint == fingerprint
    &&& before.fingerprint == fingerprint ==> after == before
    &&& before.fingerprint != fingerprint ==> index_of(after.by_id@, apps)
}

impl SearchIndexCache {
    /// An index of nothing.
    pub fn new() -> (r: Self)
        ensures
            r.fingerprint == 0,
            r.by_id@.len() == 0,
    {
        SearchIndexCache { fingerprint: 0, by_id: Vec::new() }
    }

    /// Forgets what of the entries is searched: while nothing is searched, none of it is kept.
    pub fn clear(&mut self)
        ensures
            final(self).fingerprint == 0,
            final(self).by_id@.len() == 0,
    {
        self.by_id = Vec::new();
        self.fingerprint = 0;
    }

    /// Brings the index up to date with entries that have the fingerprint.
    pub fn reindex(&mut self, apps: &Vec<AppInfo>, fingerprint: u64)
        ensures
            reindexed(*old(self), *final(self), apps@, fingerprint),
    {
        if self.fingerprint == fingerprint {
            return;
        }
        let mut by_id: Vec<IndexEntry> = Vec::new();
        let mut i: usize = 0;
        while i < apps.len()
            invariant
                i <= apps@.len(),
                by_id@.len() == i,
                forall|k: int|
                    0 <= k < i ==> (#[trigger] by_id@[k]).id@ == apps@[k].id@ && indexes(
                        by_id@[k].data,
                        apps@[k],
                    ),
            decreases apps@.len() - i,
        {
            by_id.push(IndexEntry { id: apps[i].id.clone(), data: index_data(&apps[i]) });
            i = i + 1;
        }
        self.by_id = by_id;
        self.fingerprint = fingerprint;
    }
}

/// Brings the index up to date with the entries.
pub fn ensure_search_cache(cache: &mut SearchIndexCache, apps: &Vec<AppInfo>)
    ensures
        exists|fingerprint: u64|
            is_fingerprint(apps@, fingerprint) && #[trigger] reindexed(
                *old(cache),
                *final(cache),
                apps@,
                fingerprint,
            ),
{
    let fingerprint = apps_search_fingerprint(apps);
    cache.reindex(apps, fingerprint);
}

// ---------------------------------------------------------------------------------------------
// What is shown
// ---------------------------------------------------------------------------------------------

/// An entry as it is shown, with where it leads and where its icon comes from.
#[derive(Debug)]
pub struct AppRow {
    pub id: String,
    pub name: String,
    pub path: String,
    pub category_id: String,
    pub args: String,
    pub sort_order: i32,
    pub pinned: bool,
    pub leads_to: String,
    pub icon: IconSource,
}

/// Whether the row shows the entry, seen from `base`.
pub open spec fn row_shows(row: AppRow, app: AppInfo, base: Seq<char>) -> bool {
    &&& row.id@ == app.id@
    &&& row.name@ == app.name@
    &&& row.path@ == app.path@
    &&& row.category_id@ == app.category_id@
    &&& row.args@ == joined(texts(app.args@), " "@)
    &&& row.sort_order == app.sort_order
    &&& row.pinned == app.pinned
    &&& row.leads_to@ == resolved(base, app.path@)
    &&& icon_comes_from(row.icon, app, resolved(base, app.path@), base)
}

/// The entry as it is shown.
pub fn build_app_item(app: &AppInfo, base: &str) -> (r: AppRow)
    ensures
        row_shows(r, *app, base@),
{
    let leads_to = resolve_path(base, app.path.as_str());
    let icon = icon_source(app, leads_to.as_str(), base);
    AppRow {
        id: app.id.clone(),
        name: app.name.clone(),
        path: app.path.clone(),
        category_id: app.category_id.clone(),
        args: join(&app.args, " "),
        sort_order: app.sort_order,
        pinned: app.pinned,
        leads_to,
        icon,
    }
}

/// The entries that are shown where `selected` is chosen and `search` is searched for: those of
/// the group that the search finds, in their order. Of a group that is hidden, none.
pub open spec fn listed(
    config: UserConfig,
    unlocked: Seq<Seq<char>>,
    selected: Seq<char>,
    search: Seq<char>,
    index: Seq<IndexEntry>,
) -> Seq<AppInfo> {
    let cat = shown_category(config.categories@, selected);
    if requires_unlock(config.categories@, unlocked, cat) {
        Seq::empty()
    } else {
        shown_in(config.apps@, cat).filter(found_by(lowercase(search), index))
    }
}

/// What is shown.
#[derive(Debug)]
pub struct Listing {
    pub rows: Vec<AppRow>,
    /// Whether the list is shown from its start.
    pub to_top: bool,
}

fn pick_rows(apps: &Vec<&AppInfo>, q: &str, cache: &SearchIndexCache, base: &str) -> (r: Vec<AppRow>)
    ensures
        r@.len() == targets(apps@).filter(found_by(q@, cache.by_id@)).len(),
        forall|i: int|
            0 <= i < r@.len() ==> row_shows(
                #[trigger] r@[i],
                targets(apps@).filter(found_by(q@, cache.by_id@))[i],
                base@,
            ),
{
    let ghost p = found_by(q@, cache.by_id@);
    let ghost all = targets(apps@);
    let mut r: Vec<AppRow> = Vec::new();
    let mut i: usize = 0;
    proof {
        crate::lists::filter_of_nothing(all, p);
    }
    while i < apps.len()
        invariant
            i <= apps@.len(),
            all == targets(apps@),
            p == found_by(q@, cache.by_id@),
            r@.len() == all.take(i as int).filter(p).len(),
            forall|k: int|
                0 <= k < r@.len() ==> row_shows(
                    #[trigger] r@[k],
                    all.take(i as int).filter(p)[k],
                    base@,
                ),
        decreases apps@.len() - i,
    {
        proof {
            crate::lists::filter_grows(all, p, i as int);
        }
        assert(all[i as int] == *apps@[i as int]);
        if app_matches_query(apps[i], q, cache) {
            r.push(build_app_item(apps[i], base));
        }
        i = i + 1;
    }
    assert(all.take(i as int) =~= all);
    r
}

/// What is shown where `selected` is chosen and `search` is searched for. The index is brought up
/// to date where anything is searched for, and cleared otherwise.
pub fn refresh_apps(
    config: &UserConfig,
    unlocked: &Vec<String>,
    cache: &mut SearchIndexCache,
    base: &str,
    selected: &str,
    search: &str,
) -> (r: Listing)
    ensures
        ({
            let shown = listed(
                *config,
                texts(unlocked@),
                selected@,
                search@,
                final(cache).by_id@,
            );
            &&& r.rows@.len() == shown.len()
            &&& forall|i: int|
                0 <= i < shown.len() ==> row_shows(#[trigger] r.rows@[i], shown[i], base@)
            &&& r.to_top == (lowercase(search@).len() > 0 && shown.len() > 0)
        }),
        if requires_unlock(
            config.categories@,
            texts(unlocked@),
            shown_category(config.categories@, selected@),
        ) {
            *final(cache) == *old(cache)
        } else if lowercase(search@).len() == 0 {
            final(cache).fingerprint == 0 && final(cache).by_id@.len() == 0
        } else {
            exists|fingerprint: u64|
                is_fingerprint(config.apps@, fingerprint) && #[trigger] reindexed(
                    *old(cache),
                    *final(cache),
                    config.apps@,
                    fingerprint,
                )
        },
{
    let cat = category_shown(&config.categories, selected);
    if category_requires_unlock(&config.categories, unlocked, cat.as_str()) {
        return Listing { rows: Vec::new(), to_top: false };
    }
    let sorted = apps_in_category_sorted(&config.apps, cat.as_str());
    proof {
        shown_in_is(config.apps@, cat@, targets(sorted@));
    }
    let q = search.to_lowercase();
    if q.as_str().is_empty() {
        cache.clear();
        let rows = pick_rows(&sorted, q.as_str(), cache, base);
        return Listing { rows, to_top: false };
    }
    ensure_search_cache(cache, &config.apps);
    let rows = pick_rows(&sorted, q.as_str(), cache, base);
    let to_top = rows.len() > 0;
    Listing { rows, to_top }
}

/// Nothing of a group that is hidden is shown, whatever is searched for.
pub proof fn hidden_group_shows_nothing(
    config: UserConfig,
    unlocked: Seq<Seq<char>>,
    selected: Seq<char>,
    search: Seq<char>,
    index: Seq<IndexEntry>,
)
    requires
        requires_unlock(
            config.categories@,
            unlocked,
            shown_category(config.categories@, selected),
        ),
    ensures
        listed(config, unlocked, selected, search, index).len() == 0,
{
}

/// Where nothing is searched for, the whole group is shown.
pub proof fn empty_search_shows_group(
    config: UserConfig,
    unlocked: Seq<Seq<char>>,
    selected: Seq<char>,
    search: Seq<char>,
    index: Seq<IndexEntry>,
)
    requires
        lowercase(search).len() == 0,
        !requires_unlock(
            config.categories@,
            unlocked,
            shown_category(config.categories@, selected),
        ),
    ensures
        listed(config, unlocked, selected, search, index) == shown_in(
            config.apps@,
            shown_category(config.categories@, selected),
        ),
{
    let group = shown_in(config.apps@, shown_category(config.categories@, selected));
    crate::lists::filter_of_all(group, found_by(lowercase(search), index));
}

/// A file found on the computer, as it is shown.
#[derive(Debug)]
pub struct FileHitRow {
    pub id: String,
    pub name: String,
    pub path: String,
    pub location: String,
    pub modified: String,
    pub attributes: String,
}

/// Whether the row shows the hit at place `i`.
pub open spec fn hit_shown(row: FileHitRow, hit: EverythingHit, i: int) -> bool {
    &&& row.id@ == "ev:"@ + decimal(i as nat)
    &&& row.name@ == hit.name@
    &&& row.path@ == hit.path@
    &&& row.location@ == hit.location@
    &&& row.modified@ == hit.modified@
    &&& row.attributes@ == hit.attributes@
}

/// The files found on the computer, as they are shown.
pub fn apply_everything_hits(hits: &Vec<EverythingHit>) -> (r: Vec<FileHitRow>)
    ensures
        r@.len() == hits@.len(),
        forall|i: int| 0 <= i < hits@.len() ==> hit_shown(#[trigger] r@[i], hits@[i], i),
{
    let mut r: Vec<FileHitRow> = Vec::new();
    let mut i: usize = 0;
    while i < hits.len()
        invariant
            i <= hits@.len(),
            r@.len() == i,
            forall|k: int| 0 <= k < i ==> hit_shown(#[trigger] r@[k], hits@[k], k),
        decreases hits@.len() - i,
    {
        let hit = &hits[i];
        let digits = unsigned_to_text(i as u128);
        r.push(
            FileHitRow {
                id: concat("ev:", digits.as_str()),
                name: hit.name.clone(),
                path: hit.path.clone(),
                location: hit.location.clone(),
                modified: hit.modified.clone(),
                attributes: hit.attributes.clone(),
            },
        );
        i = i + 1;
    }
    r
}

// ---------------------------------------------------------------------------------------------
// Searches one after another
// ---------------------------------------------------------------------------------------------

/// How many files of the computer are shown at most.
pub const MAX_HITS: u32 = 48;

/// What the user is told while nothing goes on.
pub open spec fn ready_text() -> Seq<char> {
    "就绪：可拖入 exe · lnk · url · 文本链接 · 文件夹 · 图片 · 文档"@
}

/// What the user is told while nothing goes on.
pub fn ready_status() -> (r: String)
    ensures
        r@ == ready_text(),
{
    "就绪：可拖入 exe · lnk · url · 文本链接 · 文件夹 · 图片 · 文档".to_owned()
}

/// What a change of the search text leads to.
#[derive(Debug, Clone, Copy, PartialEq, Eq, Structural)]
pub enum SearchPlan {
    /// Ask for a text, and show the whole group.
    AskForText,
    /// Search the computer. After a wait and after the search, the ticket tells whether a later
    /// change has come; without a ticket, the search starts at once.
    Computer { ticket: Option<u64> },
    /// Search the entries.
    Entries,
}

/// The searches so far, counted.
#[derive(Debug, Clone, Copy, PartialEq, Eq, Structural)]
pub struct SearchSession {
    pub generation: u64,
}

impl SearchSession {
    /// No search yet.
    pub fn new() -> (r: Self)
        ensures
            r.generation == 0,
    {
        SearchSession { generation: 0 }
    }

    /// The search text changes, with the computer searched where `scope` is one. Every change
    /// makes the tickets given out before worthless.
    pub fn text_changed(&mut self, text: &str, scope: i32) -> (r: SearchPlan)
        ensures
            final(self).generation == old(self).generation.wrapping_add(1),
            final(self).generation != old(self).generation,
            r == (if scope != 1 {
                SearchPlan::Entries
            } else if trim(text@).len() == 0 {
                SearchPlan::AskForText
            } else {
                SearchPlan::Computer { ticket: Some(final(self).generation) }
            }),
    {
        self.generation = self.generation.wrapping_add(1);
        if scope != 1 {
            return SearchPlan::Entries;
        }
        if is_blank(text) {
            return SearchPlan::AskForText;
        }
        SearchPlan::Computer { ticket: Some(self.generation) }
    }

    /// The search is submitted: it starts at once.
    pub fn submit(&mut self, text: &str, scope: i32) -> (r: SearchPlan)
        ensures
            final(self).generation == old(self).generation.wrapping_add(1),
            final(self).generation != old(self).generation,
            r == (if scope != 1 {
                SearchPlan::Entries
            } else if trim(text@).len() == 0 {
                SearchPlan::AskForText
            } else {
                SearchPlan::Computer { ticket: None }
            }),
    {
        self.generation = self.generation.wrapping_add(1);
        if scope != 1 {
            return SearchPlan::Entries;
        }
        if is_blank(text) {
            return SearchPlan::AskForText;
        }
        SearchPlan::Computer { ticket: None }
    }

    /// Whether no change has come since the ticket was given out.
    pub fn is_current(&self, ticket: u64) -> (r: bool)
        ensures
            r == (self.generation == ticket),
    {
        self.generation == ticket
    }
}

/// What the user is told while a search starts.
pub fn search_status(plan: SearchPlan) -> (r: Option<String>)
    ensures
        opt_text(r) == match plan {
            SearchPlan::AskForText => Some("请输入要搜索的关键字"@),
            SearchPlan::Computer { ticket } => Some("正在通过 Everything 搜索计算机…"@),
            SearchPlan::Entries => None,
        },
{
    match plan {
        SearchPlan::AskForText => Some("请输入要搜索的关键字".to_owned()),
        SearchPlan::Computer { ticket: _ } => Some(
            "正在通过 Everything 搜索计算机…".to_owned(),
        ),
        SearchPlan::Entries => None,
    }
}

/// What the user is told after a search of the entries that found `n`. A text that was cleared
/// while it is typed counts as no search.
pub fn entries_status(query: &str, submitted: bool, n: usize) -> (r: String)
    ensures
        r@ == (if query@.len() == 0 && !submitted {
            ready_text()
        } else {
            "程序内搜索："@ + decimal(n as nat) + " 项"@
        }),
{
    if query.is_empty() && !submitted {
        return ready_status();
    }
    let digits = unsigned_to_text(n as u128);
    concat3("程序内搜索：", digits.as_str(), " 项")
}

/// What the user is told after a search of the computer, while `scope` is chosen: how many files
/// were found, or why none. Where another scope was chosen meanwhile, nothing.
pub fn computer_status(scope: i32, outcome: Result<usize, String>) -> (r: Option<String>)
    ensures
        opt_text(r) == (if scope != 1 {
            None
        } else {
            match outcome {
                Ok(n) => Some(
                    "Everything：找到 "@ + decimal(n as nat) + " 项（最多显示 48 项）"@,
                ),
                Err(e) => Some(e@),
            }
        }),
{
    if scope != 1 {
        return None;
    }
    match outcome {
        Ok(n) => {
            let digits = unsigned_to_text(n as u128);
            Some(concat3("Everything：找到 ", digits.as_str(), " 项（最多显示 48 项）"))
        },
        Err(e) => Some(e),
    }
}

/// What the user is told once the search text was cleared; nothing where it was empty already.
pub fn clear_search(text: &str) -> (r: Option<String>)
    ensures
        opt_text(r) == (if text@.len() == 0 {
            None
        } else {
            Some("已清空搜索"@)
        }),
{
    if text.is_empty() {
        None
    } else {
        Some("已清空搜索".to_owned())
    }
}

/// What becomes of the search when the window is called up: whether it is cleared, and what the
/// user is told.
#[derive(Debug)]
pub struct InvokeReset {
    pub clear: bool,
    pub status: Option<String>,
}

/// What becomes of the search when the window is called up: where something was left in it, it is
/// cleared, and unless a password is being asked for the status is set back.
pub fn reset_search_for_invoke(text: &str, input: &str, asking_password: bool) -> (r: InvokeReset)
    ensures
        r.clear == (text@.len() > 0 || input@.len() > 0),
        opt_text(r.status) == (if r.clear && !asking_password {
            Some(ready_text())
        } else {
            None
        }),
{
    let clear = !text.is_empty() || !input.is_empty();
    let status = if clear && !asking_password {
        Some(ready_status())
    } else {
        None
    };
    InvokeReset { clear, status }
}

} // verus!

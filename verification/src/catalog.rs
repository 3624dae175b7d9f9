//! The entries of the launcher and the order in which they are shown.

use std::cmp::Ordering;

use vstd::prelude::*;

use crate::lists::{
    filter_grows, filter_of_nothing, first_where, first_where_absent, first_where_found, is_first,
};
use crate::models::AppInfo;
use crate::ordering::{
    arrangement, comes_before, stable_sort, stable_sort_is_unique, stably_sorted, text_before,
    text_order_is_total, text_order_is_transitive, total_preorder,
};
use crate::text::{same_text, texts};

verus! {

// ---------------------------------------------------------------------------------------------
// The order of entries
// ---------------------------------------------------------------------------------------------

/// Whether entry `a` is shown before entry `b`: pinned entries first, in the order in which they
/// were pinned; then by the order set by hand, larger first; then the more often used; then by
/// name.
pub open spec fn app_before(a: AppInfo, b: AppInfo) -> bool {
    if a.pinned != b.pinned {
        a.pinned
    } else if a.pinned && a.pin_order != b.pin_order {
        a.pin_order < b.pin_order
    } else if a.sort_order != b.sort_order {
        a.sort_order > b.sort_order
    } else if a.exec_count != b.exec_count {
        a.exec_count > b.exec_count
    } else {
        text_before(a.name@, b.name@)
    }
}

/// The order of entries as a relation: `a` may stand before `b`.
pub open spec fn app_order() -> spec_fn(AppInfo, AppInfo) -> bool {
    |a: AppInfo, b: AppInfo| !app_before(b, a)
}

/// The order of entries, for references to them.
pub open spec fn app_ref_order<'a>() -> spec_fn(&'a AppInfo, &'a AppInfo) -> bool {
    |a: &'a AppInfo, b: &'a AppInfo| !app_before(*b, *a)
}

proof fn not_before_passes_on(a: AppInfo, b: AppInfo, c: AppInfo)
    requires
        !app_before(b, a),
        !app_before(c, b),
    ensures
        !app_before(c, a),
{
    text_order_is_total(a.name@, b.name@);
    text_order_is_total(b.name@, c.name@);
    text_order_is_total(a.name@, c.name@);
    if text_before(a.name@, b.name@) && text_before(b.name@, c.name@) {
        text_order_is_transitive(a.name@, b.name@, c.name@);
    }
}

/// Of two entries, not each comes before the other.
pub proof fn before_one_way(a: AppInfo, b: AppInfo)
    ensures
        !(app_before(a, b) && app_before(b, a)),
{
    text_order_is_total(a.name@, b.name@);
}

/// The order of entries is a total preorder.
pub proof fn app_order_is_total()
    ensures
        total_preorder(app_order()),
        total_preorder(app_ref_order()),
{
    let le = app_order();
    let ref_le = app_ref_order();
    assert forall|a: AppInfo, b: AppInfo| #[trigger] le(a, b) || le(b, a) by {
        before_one_way(a, b);
    }
    assert forall|a: AppInfo, b: AppInfo, c: AppInfo| #[trigger] le(a, b) && #[trigger] le(b, c)
        implies le(a, c) by {
        not_before_passes_on(a, b, c);
    }
    assert forall|a: &AppInfo, b: &AppInfo| #[trigger] ref_le(a, b) || ref_le(b, a) by {
        before_one_way(*a, *b);
    }
    assert forall|a: &AppInfo, b: &AppInfo, c: &AppInfo|
        #[trigger] ref_le(a, b) && #[trigger] ref_le(b, c) implies ref_le(a, c) by {
        not_before_passes_on(*a, *b, *c);
    }
}

/// Whether entry `a` is shown before entry `b`.
pub fn shown_before(a: &AppInfo, b: &AppInfo) -> (r: bool)
    ensures
        r == app_before(*a, *b),
{
    if a.pinned != b.pinned {
        a.pinned
    } else if a.pinned && a.pin_order != b.pin_order {
        a.pin_order < b.pin_order
    } else if a.sort_order != b.sort_order {
        a.sort_order > b.sort_order
    } else if a.exec_count != b.exec_count {
        a.exec_count > b.exec_count
    } else {
        comes_before(a.name.as_str(), b.name.as_str())
    }
}

/// The order of two entries.
pub fn compare_apps(a: &AppInfo, b: &AppInfo) -> (r: Ordering)
    ensures
        r == Ordering::Less <==> app_before(*a, *b),
        r == Ordering::Greater <==> app_before(*b, *a),
{
    proof {
        before_one_way(*a, *b);
    }
    if shown_before(a, b) {
        Ordering::Less
    } else if shown_before(b, a) {
        Ordering::Greater
    } else {
        Ordering::Equal
    }
}

/// Puts the entries in the order in which they are shown.
pub fn sort_apps_by_usage(apps: &mut Vec<AppInfo>)
    ensures
        stably_sorted(old(apps)@, final(apps)@, app_order()),
{
    proof {
        app_order_is_total();
    }
    let f = |a: &AppInfo, b: &AppInfo| -> (r: bool)
        ensures
            r == app_order()(*a, *b),
        { !shown_before(b, a) };
    stable_sort(apps, f, Ghost(app_order()));
}

/// Whether an entry is in the group `cat`.
pub open spec fn in_category(cat: Seq<char>) -> spec_fn(AppInfo) -> bool {
    |a: AppInfo| a.category_id@ == cat
}

/// What references refer to.
pub open spec fn targets(v: Seq<&AppInfo>) -> Seq<AppInfo> {
    v.map_values(|a: &AppInfo| *a)
}

/// The entries of a group, as they stand in the list.
fn apps_in_category<'a>(apps: &'a Vec<AppInfo>, cat_id: &str) -> (r: Vec<&'a AppInfo>)
    ensures
        targets(r@) == apps@.filter(in_category(cat_id@)),
{
    let mut out: Vec<&'a AppInfo> = Vec::new();
    let mut i: usize = 0;
    let ghost p = in_category(cat_id@);
    proof {
        filter_of_nothing(apps@, p);
        assert(targets(out@) =~= apps@.take(0).filter(p));
    }
    while i < apps.len()
        invariant
            i <= apps@.len(),
            p == in_category(cat_id@),
            targets(out@) == apps@.take(i as int).filter(p),
        decreases apps@.len() - i,
    {
        proof {
            filter_grows(apps@, p, i as int);
        }
        let ghost before = out@;
        if same_text(apps[i].category_id.as_str(), cat_id) {
            out.push(&apps[i]);
            assert(targets(out@) =~= targets(before).push(apps@[i as int]));
        }
        i = i + 1;
    }
    assert(apps@.take(i as int) =~= apps@);
    out
}

/// The entries of a group in the order in which they are shown.
pub fn apps_in_category_sorted<'a>(apps: &'a Vec<AppInfo>, cat_id: &str) -> (r: Vec<&'a AppInfo>)
    ensures
        stably_sorted(apps@.filter(in_category(cat_id@)), targets(r@), app_order()),
{
    let mut v = apps_in_category(apps, cat_id);
    proof {
        app_order_is_total();
    }
    let ghost before = v@;
    let f = |a: &&AppInfo, b: &&AppInfo| -> (r: bool)
        ensures
            r == app_ref_order()(*a, *b),
        { !shown_before(*b, *a) };
    stable_sort(&mut v, f, Ghost(app_ref_order()));
    proof {
        let p = choose|p: Seq<int>|
            arrangement(before, v@, app_ref_order(), p);
        assert(arrangement(targets(before), targets(v@), app_order(), p)) by {
            assert forall|i: int| 0 <= i < p.len() implies #[trigger] targets(v@)[i] == targets(
                before,
            )[p[i]] by {
                assert(v@[i] == before[p[i]]);
            }
            assert forall|i: int, j: int| 0 <= i < j < p.len() implies app_order()(
                #[trigger] targets(v@)[i],
                #[trigger] targets(v@)[j],
            ) by {
                assert(app_ref_order()(v@[i], v@[j]));
            }
            assert forall|i: int, j: int|
                0 <= i < j < p.len() && app_order()(targets(v@)[j], targets(v@)[i]) implies
                #[trigger] p[i] < #[trigger] p[j] by {
                assert(app_ref_order()(v@[j], v@[i]));
            }
        }
    }
    v
}

/// The entries of a group in the order in which they are shown.
pub open spec fn shown_in(apps: Seq<AppInfo>, cat: Seq<char>) -> Seq<AppInfo> {
    choose|s: Seq<AppInfo>| stably_sorted(apps.filter(in_category(cat)), s, app_order())
}

/// A sorted form of the entries of a group is the one in which they are shown.
pub proof fn shown_in_is(apps: Seq<AppInfo>, cat: Seq<char>, s: Seq<AppInfo>)
    requires
        stably_sorted(apps.filter(in_category(cat)), s, app_order()),
    ensures
        shown_in(apps, cat) == s,
{
    let t = shown_in(apps, cat);
    assert(stably_sorted(apps.filter(in_category(cat)), t, app_order()));
    stable_sort_is_unique(apps.filter(in_category(cat)), s, t, app_order());
}

/// The ids of a list of entries.
pub open spec fn ids_of(apps: Seq<AppInfo>) -> Seq<Seq<char>> {
    apps.map_values(|a: AppInfo| a.id@)
}

// ---------------------------------------------------------------------------------------------
// The order set by hand
// ---------------------------------------------------------------------------------------------

/// Whether an entry has the given id.
pub open spec fn has_id(id: Seq<char>) -> spec_fn(AppInfo) -> bool {
    |a: AppInfo| a.id@ == id
}

/// Whether an entry has the given id and is in the given group.
pub open spec fn is_entry(id: Seq<char>, cat: Seq<char>) -> spec_fn(AppInfo) -> bool {
    |a: AppInfo| a.id@ == id && a.category_id@ == cat
}

/// The place of the first entry with the given id.
pub fn find_app(apps: &Vec<AppInfo>, id: &str) -> (r: Option<usize>)
    ensures
        match r {
            Some(i) => is_first(apps@, has_id(id@), i as int),
            None => forall|j: int| 0 <= j < apps@.len() ==> (#[trigger] apps@[j]).id@ != id@,
        },
        (match r {
            Some(i) => Some(i as int),
            None => None::<int>,
        }) == first_where(apps@, has_id(id@)),
{
    let mut i: usize = 0;
    while i < apps.len()
        invariant
            i <= apps@.len(),
            forall|j: int| 0 <= j < i ==> (#[trigger] apps@[j]).id@ != id@,
        decreases apps@.len() - i,
    {
        if same_text(apps[i].id.as_str(), id) {
            proof {
                first_where_found(apps@, has_id(id@), i as int);
            }
            return Some(i);
        }
        i = i + 1;
    }
    proof {
        first_where_absent(apps@, has_id(id@));
    }
    None
}

/// The place of the first entry with the given id in the given group.
fn find_entry(apps: &Vec<AppInfo>, id: &str, cat: &str) -> (r: Option<usize>)
    ensures
        match r {
            Some(i) => is_first(apps@, is_entry(id@, cat@), i as int),
            None => true,
        },
        (match r {
            Some(i) => Some(i as int),
            None => None::<int>,
        }) == first_where(apps@, is_entry(id@, cat@)),
{
    let mut i: usize = 0;
    while i < apps.len()
        invariant
            i <= apps@.len(),
            forall|j: int|
                0 <= j < i ==> !((#[trigger] apps@[j]).id@ == id@ && apps@[j].category_id@
                    == cat@),
        decreases apps@.len() - i,
    {
        if same_text(apps[i].id.as_str(), id) && same_text(apps[i].category_id.as_str(), cat) {
            proof {
                first_where_found(apps@, is_entry(id@, cat@), i as int);
            }
            return Some(i);
        }
        i = i + 1;
    }
    proof {
        first_where_absent(apps@, is_entry(id@, cat@));
    }
    None
}

/// The entries after the first `k` ids of a display order gave their entries a place: the id at
/// place `j` of `n` ranks `n - 1 - j`, so that those further to the front rank higher.
pub open spec fn ranked(
    apps: Seq<AppInfo>,
    cat: Seq<char>,
    ids: Seq<Seq<char>>,
    k: int,
) -> Seq<AppInfo>
    decreases k,
{
    if k <= 0 {
        apps
    } else {
        let prev = ranked(apps, cat, ids, k - 1);
        match first_where(prev, is_entry(ids[k - 1], cat)) {
            Some(i) => prev.update(
                i,
                AppInfo { sort_order: (ids.len() - k) as i32, ..prev[i] },
            ),
            None => prev,
        }
    }
}

/// Whether the entry with the given id in the group is pinned.
pub open spec fn pinned_entry(apps: Seq<AppInfo>, cat: Seq<char>, id: Seq<char>) -> bool {
    first_where(apps, is_entry(id, cat)) matches Some(i) && apps[i].pinned
}

/// How many of the first `k` ids belong to pinned entries of the group.
pub open spec fn pinned_among(
    apps: Seq<AppInfo>,
    cat: Seq<char>,
    ids: Seq<Seq<char>>,
    k: int,
) -> nat
    decreases k,
{
    if k <= 0 {
        0
    } else {
        pinned_among(apps, cat, ids, k - 1) + if pinned_entry(
            repinned(apps, cat, ids, k - 1),
            cat,
            ids[k - 1],
        ) {
            1nat
        } else {
            0nat
        }
    }
}

/// The entries after the pinned ones among the first `k` ids of a display order were numbered
/// from one, from front to back.
pub open spec fn repinned(
    apps: Seq<AppInfo>,
    cat: Seq<char>,
    ids: Seq<Seq<char>>,
    k: int,
) -> Seq<AppInfo>
    decreases k,
{
    if k <= 0 {
        apps
    } else {
        let prev = repinned(apps, cat, ids, k - 1);
        match first_where(prev, is_entry(ids[k - 1], cat)) {
            Some(i) => if prev[i].pinned {
                prev.update(
                    i,
                    AppInfo {
                        pin_order: (pinned_among(apps, cat, ids, k - 1) + 1) as u64,
                        ..prev[i]
                    },
                )
            } else {
                prev
            },
            None => prev,
        }
    }
}

/// The entries once a display order is written into them.
pub open spec fn reordered(
    apps: Seq<AppInfo>,
    cat: Seq<char>,
    ids: Seq<Seq<char>>,
) -> Seq<AppInfo> {
    repinned(ranked(apps, cat, ids, ids.len() as int), cat, ids, ids.len() as int)
}

/// Writes the display order `ordered_ids` of a group into its entries.
pub fn assign_sort_orders_from_display_order(
    apps: &mut Vec<AppInfo>,
    cat_id: &str,
    ordered_ids: &Vec<String>,
)
    ensures
        final(apps)@ == reordered(old(apps)@, cat_id@, texts(ordered_ids@)),
{
    let n = ordered_ids.len();
    let ghost ids = texts(ordered_ids@);
    let ghost start = apps@;
    let mut rank: usize = 0;
    while rank < n
        invariant
            n == ordered_ids@.len(),
            rank <= n,
            ids == texts(ordered_ids@),
            apps@ == ranked(start, cat_id@, ids, rank as int),
        decreases n - rank,
    {
        assert(ids[rank as int] == ordered_ids@[rank as int]@);
        match find_entry(apps, ordered_ids[rank].as_str(), cat_id) {
            Some(i) => {
                apps[i].sort_order = (n - (1 + rank)) as i32;
            },
            None => {},
        }
        rank = rank + 1;
        assert(apps@ =~= ranked(start, cat_id@, ids, rank as int));
    }
    let ghost middle = apps@;
    let mut pins: u64 = 0;
    let mut k: usize = 0;
    while k < n
        invariant
            n == ordered_ids@.len(),
            k <= n,
            ids == texts(ordered_ids@),
            apps@ == repinned(middle, cat_id@, ids, k as int),
            pins == pinned_among(middle, cat_id@, ids, k as int),
            pins <= k,
        decreases n - k,
    {
        assert(ids[k as int] == ordered_ids@[k as int]@);
        match find_entry(apps, ordered_ids[k].as_str(), cat_id) {
            Some(i) => {
                if apps[i].pinned {
                    pins = pins + 1;
                    apps[i].pin_order = pins;
                }
            },
            None => {},
        }
        k = k + 1;
        assert(apps@ =~= repinned(middle, cat_id@, ids, k as int));
    }
}

/// The ids of the entries of a group in the order in which they are shown.
pub fn shown_ids(apps: &Vec<AppInfo>, cat_id: &str) -> (r: Vec<String>)
    ensures
        texts(r@) == ids_of(shown_in(apps@, cat_id@)),
{
    let shown = apps_in_category_sorted(apps, cat_id);
    proof {
        shown_in_is(apps@, cat_id@, targets(shown@));
    }
    let mut ids: Vec<String> = Vec::new();
    let mut i: usize = 0;
    while i < shown.len()
        invariant
            i <= shown@.len(),
            texts(ids@) == ids_of(targets(shown@)).take(i as int),
        decreases shown@.len() - i,
    {
        let ghost before = texts(ids@);
        ids.push(shown[i].id.clone());
        assert(texts(ids@) =~= before.push(shown@[i as int].id@));
        i = i + 1;
        assert(texts(ids@) =~= ids_of(targets(shown@)).take(i as int));
    }
    assert(ids_of(targets(shown@)).take(i as int) =~= ids_of(targets(shown@)));
    ids
}

/// Whether a text is `s`.
pub open spec fn is_text(s: Seq<char>) -> spec_fn(Seq<char>) -> bool {
    |t: Seq<char>| t == s
}

/// The place of the first text of `list` that is `s`.
fn find_text(list: &Vec<String>, s: &str) -> (r: Option<usize>)
    ensures
        match r {
            Some(i) => i < usize::MAX && is_first(texts(list@), is_text(s@), i as int),
            None => true,
        },
        (match r {
            Some(i) => Some(i as int),
            None => None::<int>,
        }) == first_where(texts(list@), is_text(s@)),
{
    let ghost p = is_text(s@);
    let mut i: usize = 0;
    while i < list.len()
        invariant
            i <= list@.len(),
            p == is_text(s@),
            forall|j: int| 0 <= j < i ==> !p(#[trigger] texts(list@)[j]),
        decreases list@.len() - i,
    {
        if same_text(list[i].as_str(), s) {
            proof {
                first_where_found(texts(list@), p, i as int);
            }
            return Some(i);
        }
        assert(texts(list@)[i as int] == list@[i as int]@);
        i = i + 1;
    }
    proof {
        first_where_absent(texts(list@), p);
    }
    None
}

/// The number under which an entry is shown in its group, counted from one; one where it is not
/// in the group.
pub fn display_sort_index_in_category(apps: &Vec<AppInfo>, app_id: &str, cat_id: &str) -> (r: i32)
    ensures
        r == match first_where(
            ids_of(shown_in(apps@, cat_id@)),
            is_text(app_id@),
        ) {
            Some(i) => (i + 1) as i32,
            None => 1i32,
        },
{
    let ids = shown_ids(apps, cat_id);
    match find_text(&ids, app_id) {
        Some(i) => (i + 1) as i32,
        None => 1,
    }
}

/// `s` with the item at `from` taken out and put in again at `to`.
pub open spec fn moved<T>(s: Seq<T>, from: int, to: int) -> Seq<T> {
    s.remove(from).insert(to, s[from])
}

/// The entries once the one with id `id` was given the display number `number` in its group.
/// Numbers below one count as one, those beyond the end as the last.
pub open spec fn placed(
    apps: Seq<AppInfo>,
    id: Seq<char>,
    cat: Seq<char>,
    number: int,
) -> Seq<AppInfo> {
    let ids = ids_of(shown_in(apps, cat));
    match first_where(ids, is_text(id)) {
        Some(cur) => {
            let wanted = if number < 1 {
                0
            } else {
                number - 1
            };
            let to = if wanted < ids.len() - 1 {
                wanted
            } else {
                ids.len() - 1
            };
            reordered(apps, cat, moved(ids, cur, to))
        },
        None => apps,
    }
}

/// Gives an entry a display number in its group.
pub fn apply_display_sort_index(
    apps: &mut Vec<AppInfo>,
    app_id: &str,
    cat_id: &str,
    display_index_1based: i32,
)
    ensures
        final(apps)@ == placed(old(apps)@, app_id@, cat_id@, display_index_1based as int),
{
    let mut ids = shown_ids(apps, cat_id);
    let ghost old_ids = texts(ids@);
    match find_text(&ids, app_id) {
        Some(cur) => {
            let id = ids.remove(cur);
            let wanted: usize = if display_index_1based < 1 {
                0
            } else {
                (display_index_1based as usize) - 1
            };
            let insert_at: usize = if wanted < ids.len() {
                wanted
            } else {
                ids.len()
            };
            ids.insert(insert_at, id);
            assert(texts(ids@) =~= moved(old_ids, cur as int, insert_at as int));
            assign_sort_orders_from_display_order(apps, cat_id, &ids);
        },
        None => {},
    }
}

/// Whether `m` is the least order set by hand among `s`.
pub open spec fn least_order(s: Seq<AppInfo>, m: int) -> bool {
    &&& exists|i: int| 0 <= i < s.len() && (#[trigger] s[i]).sort_order == m
    &&& forall|i: int| 0 <= i < s.len() ==> m <= (#[trigger] s[i]).sort_order
}

/// Whether `order` is the order of an entry that joins the group `cat`: below all orders there,
/// and zero in an empty group.
pub open spec fn joining_order(apps: Seq<AppInfo>, cat: Seq<char>, order: int) -> bool {
    let group = apps.filter(in_category(cat));
    if group.len() == 0 {
        order == 0
    } else {
        exists|m: int| #[trigger]
            least_order(group, m) && order == if m == i32::MIN {
                m
            } else {
                m - 1
            }
    }
}

/// The order of an entry that joins a group: behind the entries there.
pub fn next_sort_order_for_new_app(apps: &Vec<AppInfo>, cat_id: &str) -> (r: i32)
    ensures
        joining_order(apps@, cat_id@, r as int),
{
    let group = apps_in_category(apps, cat_id);
    let ghost g = targets(group@);
    assert(g.len() == group@.len());
    if group.len() == 0 {
        return 0;
    }
    let mut least: i32 = group[0].sort_order;
    let mut i: usize = 1;
    assert(g[0].sort_order == least);
    while i < group.len()
        invariant
            g == targets(group@),
            1 <= i <= group@.len(),
            exists|k: int| 0 <= k < i && (#[trigger] g[k]).sort_order == least,
            forall|k: int| 0 <= k < i ==> least <= (#[trigger] g[k]).sort_order,
        decreases group@.len() - i,
    {
        assert(g[i as int] == *group@[i as int]);
        if group[i].sort_order < least {
            least = group[i].sort_order;
        }
        i = i + 1;
    }
    assert(least_order(g, least as int));
    if least == i32::MIN {
        least
    } else {
        least - 1
    }
}

} // verus!

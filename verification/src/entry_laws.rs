//! What the user sees of the entries: in which order a group is shown, where an entry that is
//! added, moved or pinned stands, and what an edit or a deletion leaves.

use std::cmp::Ordering;

use vstd::prelude::*;

use crate::catalog::{
    app_before, app_order, app_order_is_total, apply_display_sort_index, apps_in_category_sorted,
    compare_apps, display_sort_index_in_category, has_id, ids_of, in_category, is_entry, is_text,
    joining_order, moved, next_sort_order_for_new_app, placed, shown_ids, shown_in, shown_in_is,
    sort_apps_by_usage, targets,
};
use crate::display_laws::{
    moving_keeps_items, order_with_number, pinned_first, place_for, placed_entry_is_shown_there,
};
use crate::entries::{
    add_dropped_http_url_as, add_dropped_path_as, asked_number, delete_app, drop_gate,
    file_keywords, fresh_entry, last_pin, lower_extension, move_app_to_category, numbering_category,
    one_edited, other_app, pin_toggled, resolve_dropped, save_app_edit, set_icon_path,
    site_keywords, toggle_pin, with_entry, AddOutcome, DropFacts, DropGate,
};
use crate::groups::{category_shown, resolve_category_id_input};
use crate::links::parse_internet_shortcut_url;
use crate::lists::{first_where, first_where_exists, first_where_found, first_where_means, is_first};
use crate::models::{AppInfo, Category, UserConfig};
use crate::ordering::{
    arrangement, arrangement_names_every_place, every_list_has_sorted_form, sorting_keeps_items,
    stably_sorted, text_before, text_order_is_total,
};
use crate::paths::{path_begins_with, path_extension, path_file_name, path_file_stem, path_join};
use crate::text::{
    ascii_lowercase, blank_means_all_white_space, is_white_space, lowercase, opt_text, texts, trim,
    words,
};
use crate::web::parsed_url;

verus! {

// ---------------------------------------------------------------------------------------------
// The order of a list that is shown
// ---------------------------------------------------------------------------------------------

/// Whether entry `a` may stand before entry `b` in a list that is shown. Pinned entries stand
/// first, those pinned earlier before those pinned later; then a larger order stands before a
/// smaller one, whatever the use; then the more often used; then the name that comes first.
pub open spec fn may_precede(a: AppInfo, b: AppInfo) -> bool {
    &&& b.pinned ==> a.pinned
    &&& a.pinned && b.pinned ==> a.pin_order <= b.pin_order
    &&& a.pinned == b.pinned && (!a.pinned || a.pin_order == b.pin_order) ==> {
        &&& a.sort_order >= b.sort_order
        &&& a.sort_order == b.sort_order ==> a.exec_count >= b.exec_count
        &&& a.sort_order == b.sort_order && a.exec_count == b.exec_count ==> a.name@ == b.name@
            || text_before(a.name@, b.name@)
    }
}

/// In the order of a list that is shown, one entry goes before another just where it may stand
/// before it.
pub proof fn order_lets_precede(a: AppInfo, b: AppInfo)
    ensures
        app_order()(a, b) <==> may_precede(a, b),
{
    text_order_is_total(a.name@, b.name@);
}

/// A group is shown with each of its entries once and nothing else, in order; entries that are
/// equal in all that the order goes by stand as they stand in the list.
pub proof fn group_is_shown_in_order<'a>(apps: &'a Vec<AppInfo>, cat: &str, r: Vec<&'a AppInfo>) -> (
    p: Seq<int>)
    requires
        call_ensures(apps_in_category_sorted, (apps, cat), r),
    ensures
        forall|x: AppInfo|
            targets(r@).contains(x) <==> apps@.contains(x) && x.category_id@ == cat@,
        r@.len() == apps@.filter(|a: AppInfo| a.category_id@ == cat@).len(),
        forall|i: int, j: int|
            0 <= i < j < r@.len() ==> may_precede(*(#[trigger] r@[i]), *(#[trigger] r@[j])),
        p.len() == r@.len(),
        forall|i: int, j: int|
            0 <= i < j < r@.len() && may_precede(*r@[j], *r@[i]) ==> #[trigger] p[i]
                < #[trigger] p[j],
        forall|i: int| 0 <= i < r@.len() ==> *(#[trigger] r@[i]) == apps@.filter(
            |a: AppInfo| a.category_id@ == cat@,
        )[p[i]],
{
    let group = apps@.filter(in_category(cat@));
    let f = |a: AppInfo| a.category_id@ == cat@;
    assert(in_category(cat@) =~= f);
    app_order_is_total();
    sorting_keeps_items(group, targets(r@), app_order());
    assert forall|x: AppInfo|
        targets(r@).contains(x) <==> apps@.contains(x) && x.category_id@ == cat@ by {
        if apps@.contains(x) && x.category_id@ == cat@ {
            let k = choose|k: int| 0 <= k < apps@.len() && apps@[k] == x;
            apps@.lemma_filter_contains(in_category(cat@), k);
        }
        if group.contains(x) {
            let k = choose|k: int| 0 <= k < group.len() && group[k] == x;
            apps@.lemma_filter_pred(in_category(cat@), k);
            apps@.lemma_filter_contains_rev(in_category(cat@), x);
        }
    }
    let p = choose|p: Seq<int>| arrangement(group, targets(r@), app_order(), p);
    assert forall|i: int, j: int| 0 <= i < j < r@.len() implies may_precede(
        *(#[trigger] r@[i]),
        *(#[trigger] r@[j]),
    ) by {
        assert(app_order()(targets(r@)[i], targets(r@)[j]));
        order_lets_precede(*r@[i], *r@[j]);
    }
    assert forall|i: int, j: int| 0 <= i < j < r@.len() && may_precede(*r@[j], *r@[i]) implies
        #[trigger] p[i] < #[trigger] p[j] by {
        order_lets_precede(*r@[j], *r@[i]);
        assert(app_order()(targets(r@)[j], targets(r@)[i]));
    }
    assert forall|i: int| 0 <= i < r@.len() implies *(#[trigger] r@[i]) == group[p[i]] by {
        assert(targets(r@)[i] == group[p[i]]);
    }
    p
}

/// All entries, put in order, are the same entries, and each may stand before those after it.
pub proof fn sorted_entries_are_in_order(apps: &mut Vec<AppInfo>)
    requires
        call_ensures(sort_apps_by_usage, (apps,), ()),
    ensures
        final(apps)@.len() == old(apps)@.len(),
        forall|x: AppInfo| final(apps)@.contains(x) <==> old(apps)@.contains(x),
        forall|i: int, j: int|
            0 <= i < j < final(apps)@.len() ==> may_precede(
                #[trigger] final(apps)@[i],
                #[trigger] final(apps)@[j],
            ),
{
    sorting_keeps_items(old(apps)@, final(apps)@, app_order());
    let p = choose|p: Seq<int>| arrangement(old(apps)@, final(apps)@, app_order(), p);
    assert forall|i: int, j: int| 0 <= i < j < final(apps)@.len() implies may_precede(
        #[trigger] final(apps)@[i],
        #[trigger] final(apps)@[j],
    ) by {
        assert(app_order()(final(apps)@[i], final(apps)@[j]));
        order_lets_precede(final(apps)@[i], final(apps)@[j]);
    }
}

/// Two entries compare as equal just where each may stand before the other, and an entry that
/// compares as less may stand before the other, which may not stand before it.
pub proof fn comparison_goes_by_order(a: &AppInfo, b: &AppInfo, r: Ordering)
    requires
        call_ensures(compare_apps, (a, b), r),
    ensures
        r == Ordering::Less <==> may_precede(*a, *b) && !may_precede(*b, *a),
        r == Ordering::Greater <==> may_precede(*b, *a) && !may_precede(*a, *b),
        r == Ordering::Equal <==> may_precede(*a, *b) && may_precede(*b, *a),
{
    order_lets_precede(*a, *b);
    order_lets_precede(*b, *a);
    text_order_is_total(a.name@, b.name@);
}

/// The ids of a group are those of its entries as it is shown.
pub proof fn ids_are_those_shown<'a>(
    apps: &'a Vec<AppInfo>,
    cat: &str,
    r: Vec<&'a AppInfo>,
    ids: Vec<String>,
)
    requires
        call_ensures(apps_in_category_sorted, (apps, cat), r),
        call_ensures(shown_ids, (apps, cat), ids),
    ensures
        ids@.len() == r@.len(),
        forall|i: int| 0 <= i < r@.len() ==> (#[trigger] ids@[i])@ == r@[i].id@,
{
    shown_in_is(apps@, cat@, targets(r@));
    let shown = shown_in(apps@, cat@);
    assert(ids_of(shown).len() == shown.len());
    assert(texts(ids@).len() == ids@.len());
    assert forall|i: int| 0 <= i < r@.len() implies (#[trigger] ids@[i])@ == r@[i].id@ by {
        assert(texts(ids@)[i] == ids@[i]@);
        assert(ids_of(shown)[i] == shown[i].id@);
        assert(targets(r@)[i] == *r@[i]);
    }
}

/// The number of an entry, counted from one, is that of the place at which the group shows it.
pub proof fn number_is_place_shown(
    apps: &Vec<AppInfo>,
    cat: &str,
    ids: Vec<String>,
    id: &str,
    r: i32,
    k: int,
)
    requires
        call_ensures(shown_ids, (apps, cat), ids),
        call_ensures(display_sort_index_in_category, (apps, id, cat), r),
        0 <= k < ids@.len() < i32::MAX,
        ids@[k]@ == id@,
        forall|j: int| 0 <= j < k ==> (#[trigger] ids@[j])@ != id@,
    ensures
        r == k + 1,
{
    let all = texts(ids@);
    let p = is_text(id@);
    assert(is_first(all, p, k)) by {
        assert(all[k] == ids@[k]@);
        assert forall|j: int| 0 <= j < k implies !p(#[trigger] all[j]) by {
            assert(all[j] == ids@[j]@);
        }
    }
    first_where_found(all, p, k);
}

// ---------------------------------------------------------------------------------------------
// Entries that join a group
// ---------------------------------------------------------------------------------------------

/// The order of an entry that joins a group is below that of every entry there, and just one below
/// some entry's, as long as the orders do not run out. In an empty group it is zero.
pub proof fn joining_entry_gets_lowest_order(apps: &Vec<AppInfo>, cat: &str, r: i32)
    requires
        call_ensures(next_sort_order_for_new_app, (apps, cat), r),
    ensures
        forall|i: int|
            0 <= i < apps@.len() && (#[trigger] apps@[i]).category_id@ == cat@ ==> r
                < apps@[i].sort_order || apps@[i].sort_order == i32::MIN,
        (exists|i: int| 0 <= i < apps@.len() && (#[trigger] apps@[i]).category_id@ == cat@) ==> (
        exists|i: int|
            0 <= i < apps@.len() && (#[trigger] apps@[i]).category_id@ == cat@ && (r
                == apps@[i].sort_order - 1 || apps@[i].sort_order == i32::MIN)),
        !(exists|i: int| 0 <= i < apps@.len() && (#[trigger] apps@[i]).category_id@ == cat@)
            ==> r == 0,
{
    joining_order_is_lowest(apps@, cat@, r as int);
}

proof fn joining_order_is_lowest(apps: Seq<AppInfo>, cat: Seq<char>, order: int)
    requires
        joining_order(apps, cat, order),
    ensures
        forall|i: int|
            0 <= i < apps.len() && (#[trigger] apps[i]).category_id@ == cat ==> order
                < apps[i].sort_order || apps[i].sort_order == i32::MIN,
        (exists|i: int| 0 <= i < apps.len() && (#[trigger] apps[i]).category_id@ == cat) ==> (
        exists|i: int|
            0 <= i < apps.len() && (#[trigger] apps[i]).category_id@ == cat && (order
                == apps[i].sort_order - 1 || apps[i].sort_order == i32::MIN)),
        !(exists|i: int| 0 <= i < apps.len() && (#[trigger] apps[i]).category_id@ == cat)
            ==> order == 0,
{
    let p = in_category(cat);
    let group = apps.filter(p);
    assert forall|i: int| 0 <= i < apps.len() && (#[trigger] apps[i]).category_id@ == cat implies
        order < apps[i].sort_order || apps[i].sort_order == i32::MIN by {
        apps.lemma_filter_contains(p, i);
        let k = choose|k: int| 0 <= k < group.len() && group[k] == apps[i];
        assert(group[k].sort_order == apps[i].sort_order);
    }
    if group.len() > 0 {
        let m = choose|m: int| #[trigger]
            crate::catalog::least_order(group, m) && order == if m == i32::MIN {
                m
            } else {
                m - 1
            };
        let k = choose|k: int| 0 <= k < group.len() && (#[trigger] group[k]).sort_order == m;
        apps.lemma_filter_pred(p, k);
        apps.lemma_filter_contains_rev(p, group[k]);
        let i = choose|i: int| 0 <= i < apps.len() && apps[i] == group[k];
        assert(apps[i].category_id@ == cat);
    }
    if exists|i: int| 0 <= i < apps.len() && (#[trigger] apps[i]).category_id@ == cat {
        let i = choose|i: int| 0 <= i < apps.len() && (#[trigger] apps[i]).category_id@ == cat;
        apps.lemma_filter_contains(p, i);
    }
}

/// An entry that joins a group, and is not pinned, is shown behind all entries that were there, as
/// long as the orders do not run out; and the others are shown as before, in every group.
pub proof fn joining_entry_stands_behind(apps: Seq<AppInfo>, new: AppInfo, other: Seq<char>)
    requires
        joining_order(apps, new.category_id@, new.sort_order as int),
        forall|i: int|
            0 <= i < apps.len() && (#[trigger] apps[i]).category_id@ == new.category_id@
                ==> apps[i].sort_order > i32::MIN,
        !new.pinned,
    ensures
        shown_in(apps.push(new), new.category_id@) == shown_in(apps, new.category_id@).push(new),
        ids_of(shown_in(apps.push(new), new.category_id@)) == ids_of(
            shown_in(apps, new.category_id@),
        ).push(new.id@),
        other != new.category_id@ ==> shown_in(apps.push(new), other) == shown_in(apps, other),
{
    let cat = new.category_id@;
    let p = in_category(cat);
    let all = apps.push(new);
    let group = apps.filter(p);
    let shown = shown_in(apps, cat);
    app_order_is_total();
    every_list_has_sorted_form(group, app_order());
    sorting_keeps_items(group, shown, app_order());
    joining_order_is_lowest(apps, cat, new.sort_order as int);
    filter_of_push(apps, new, cat);
    filter_of_push(apps, new, other);
    let q = choose|q: Seq<int>| arrangement(group, shown, app_order(), q);
    let s = shown.push(new);
    let r = q.push(group.len() as int);
    assert forall|k: int| 0 <= k < shown.len() implies app_before(#[trigger] shown[k], new) by {
        assert(shown.contains(shown[k]));
        let g = choose|g: int| 0 <= g < group.len() && group[g] == shown[k];
        apps.lemma_filter_pred(p, g);
        apps.lemma_filter_contains_rev(p, group[g]);
        let i = choose|i: int| 0 <= i < apps.len() && apps[i] == group[g];
        assert(apps[i].category_id@ == cat);
    }
    assert(arrangement(group.push(new), s, app_order(), r)) by {
        assert forall|i: int| 0 <= i < r.len() implies #[trigger] s[i] == group.push(new)[r[i]] by {
            if i < shown.len() {
                assert(shown[i] == group[q[i]]);
            }
        }
        assert forall|i: int, j: int| 0 <= i < j < r.len() implies app_order()(
            #[trigger] s[i],
            #[trigger] s[j],
        ) by {
            if j < shown.len() {
                assert(app_order()(shown[i], shown[j]));
            } else {
                crate::catalog::before_one_way(shown[i], new);
            }
        }
        assert forall|i: int, j: int| 0 <= i < j < r.len() && app_order()(s[j], s[i]) implies
            #[trigger] r[i] < #[trigger] r[j] by {
            if j < shown.len() {
                assert(app_order()(shown[j], shown[i]));
                assert(q[i] < q[j]);
            } else {
                assert(app_before(shown[i], new));
            }
        }
    }
    shown_in_is(all, cat, s);
    assert(ids_of(s) =~= ids_of(shown).push(new.id@));
}

proof fn filter_of_push(apps: Seq<AppInfo>, new: AppInfo, cat: Seq<char>)
    ensures
        new.category_id@ == cat ==> apps.push(new).filter(in_category(cat)) == apps.filter(
            in_category(cat),
        ).push(new),
        new.category_id@ != cat ==> apps.push(new).filter(in_category(cat)) == apps.filter(
            in_category(cat),
        ),
{
    reveal(Seq::filter);
    assert(apps.push(new).drop_last() =~= apps);
}

// ---------------------------------------------------------------------------------------------
// Sorting the list and showing a group
// ---------------------------------------------------------------------------------------------

/// The places of a list at which a property holds, in order: they name the items that a filter
/// keeps.
proof fn kept_places(s: Seq<AppInfo>, p: spec_fn(AppInfo) -> bool) -> (e: Seq<int>)
    ensures
        e.len() == s.filter(p).len(),
        forall|k: int| 0 <= k < e.len() ==> 0 <= #[trigger] e[k] < s.len() && p(s[e[k]])
            && s.filter(p)[k] == s[e[k]],
        forall|k: int, l: int| 0 <= k < l < e.len() ==> #[trigger] e[k] < #[trigger] e[l],
        forall|i: int| 0 <= i < s.len() && p(#[trigger] s[i]) ==> e.contains(i),
    decreases s.len(),
{
    reveal(Seq::filter);
    if s.len() == 0 {
        Seq::empty()
    } else {
        let t = s.drop_last();
        let e = kept_places(t, p);
        let n = s.len() - 1;
        if p(s.last()) {
            let f = e.push(n);
            assert forall|i: int| 0 <= i < s.len() && p(#[trigger] s[i]) implies f.contains(i) by {
                if i < n {
                    assert(t[i] == s[i]);
                    let k = choose|k: int| 0 <= k < e.len() && e[k] == i;
                    assert(f[k] == i);
                } else {
                    assert(f[e.len() as int] == i);
                }
            }
            assert forall|k: int| 0 <= k < f.len() implies 0 <= #[trigger] f[k] < s.len() && p(
                s[f[k]],
            ) && s.filter(p)[k] == s[f[k]] by {
                if k < e.len() {
                    assert(f[k] == e[k]);
                    assert(t[e[k]] == s[e[k]]);
                }
            }
            f
        } else {
            assert forall|i: int| 0 <= i < s.len() && p(#[trigger] s[i]) implies e.contains(i) by {
                assert(t[i] == s[i]);
            }
            assert forall|k: int| 0 <= k < e.len() implies 0 <= #[trigger] e[k] < s.len() && p(
                s[e[k]],
            ) && s.filter(p)[k] == s[e[k]] by {
                assert(t[e[k]] == s[e[k]]);
            }
            e
        }
    }
}

/// Putting all entries in order changes nothing in what a group shows.
pub proof fn sorting_keeps_groups(before: Seq<AppInfo>, after: Seq<AppInfo>, cat: Seq<char>)
    requires
        stably_sorted(before, after, app_order()),
    ensures
        shown_in(after, cat) == shown_in(before, cat),
{
    let p = in_category(cat);
    let a = before.filter(p);
    let b = after.filter(p);
    let q = choose|q: Seq<int>| arrangement(before, after, app_order(), q);
    let ea = kept_places(before, p);
    let eb = kept_places(after, p);
    app_order_is_total();
    let r = Seq::new(b.len(), |k: int| choose|m: int| 0 <= m < ea.len() && ea[m] == q[eb[k]]);
    assert forall|k: int| 0 <= k < b.len() implies 0 <= #[trigger] r[k] < ea.len() && ea[r[k]]
        == q[eb[k]] by {
        assert(after[eb[k]] == before[q[eb[k]]]);
        assert(ea.contains(q[eb[k]]));
        let m = choose|m: int| 0 <= m < ea.len() && ea[m] == q[eb[k]];
    }
    assert(a.len() <= b.len()) by {
        kept_counts_agree(before, after, q, ea, eb, p);
    }
    assert forall|i: int, j: int| 0 <= i < j < b.len() implies #[trigger] r[i]
        != #[trigger] r[j] by {
        assert(eb[i] < eb[j]);
        assert(q[eb[i]] != q[eb[j]]);
    }
    assert(b.len() <= a.len()) by {
        let places = vstd::set_lib::set_int_range(0, a.len() as int);
        vstd::set_lib::lemma_int_range(0, a.len() as int);
        assert forall|i: int, j: int| 0 <= i < r.len() && 0 <= j < r.len() && i != j implies r[i]
            != r[j] by {
            if i < j {
                assert(r[i] != r[j]);
            } else {
                assert(r[j] != r[i]);
            }
        }
        r.unique_seq_to_set();
        assert forall|y: int| r.to_set().contains(y) implies places.contains(y) by {
            let i = choose|i: int| 0 <= i < r.len() && r[i] == y;
            assert(0 <= r[i] < ea.len());
        }
        vstd::set_lib::lemma_len_subset(r.to_set(), places);
    }
    assert(arrangement(a, b, app_order(), r)) by {
        assert forall|i: int| 0 <= i < r.len() implies #[trigger] b[i] == a[r[i]] by {
            assert(0 <= r[i] < ea.len() && ea[r[i]] == q[eb[i]]);
            assert(after[eb[i]] == before[q[eb[i]]]);
        }
        assert forall|i: int, j: int| 0 <= i < j < r.len() implies app_order()(
            #[trigger] b[i],
            #[trigger] b[j],
        ) by {
            assert(eb[i] < eb[j]);
            assert(app_order()(after[eb[i]], after[eb[j]]));
        }
        assert forall|i: int, j: int| 0 <= i < j < r.len() && app_order()(b[j], b[i]) implies
            #[trigger] r[i] < #[trigger] r[j] by {
            assert(eb[i] < eb[j]);
            assert(app_order()(after[eb[j]], after[eb[i]]));
            assert(q[eb[i]] < q[eb[j]]);
            if r[j] < r[i] {
                assert(ea[r[j]] < ea[r[i]]);
            }
        }
    }
    assert(stably_sorted(a, b, app_order()));
    shown_in_is(before, cat, b);
    every_list_has_sorted_form(b, app_order());
    let s = shown_in(after, cat);
    crate::ordering::sorted_list_stays(b, s, app_order());
}

proof fn kept_counts_agree(
    before: Seq<AppInfo>,
    after: Seq<AppInfo>,
    q: Seq<int>,
    ea: Seq<int>,
    eb: Seq<int>,
    p: spec_fn(AppInfo) -> bool,
)
    requires
        arrangement(before, after, app_order(), q),
        forall|k: int| 0 <= k < ea.len() ==> 0 <= #[trigger] ea[k] < before.len() && p(
            before[ea[k]],
        ),
        forall|k: int, l: int| 0 <= k < l < ea.len() ==> #[trigger] ea[k] < #[trigger] ea[l],
        forall|i: int| 0 <= i < after.len() && p(#[trigger] after[i]) ==> eb.contains(i),
        forall|k: int| 0 <= k < eb.len() ==> 0 <= #[trigger] eb[k] < after.len(),
    ensures
        ea.len() <= eb.len(),
{
    let back = |k: int| choose|i: int| 0 <= i < q.len() && q[i] == ea[k];
    let t = Seq::new(ea.len(), |k: int| choose|m: int| 0 <= m < eb.len() && eb[m] == back(k));
    assert forall|k: int| 0 <= k < ea.len() implies 0 <= #[trigger] t[k] < eb.len() && eb[t[k]]
        == back(k) && q[back(k)] == ea[k] by {
        let i = arrangement_names_every_place(before, after, app_order(), q, ea[k]);
        assert(q[i] == ea[k]);
        let b = back(k);
        assert(0 <= b < q.len() && q[b] == ea[k]);
        assert(after[b] == before[q[b]]);
        assert(eb.contains(b));
        let m = choose|m: int| 0 <= m < eb.len() && eb[m] == b;
    }
    assert forall|k: int, l: int| 0 <= k < t.len() && 0 <= l < t.len() && k != l implies t[k]
        != t[l] by {
        assert(q[eb[t[k]]] == ea[k] && q[eb[t[l]]] == ea[l]);
        if k < l {
            assert(ea[k] < ea[l]);
        } else {
            assert(ea[l] < ea[k]);
        }
    }
    let places = vstd::set_lib::set_int_range(0, eb.len() as int);
    vstd::set_lib::lemma_int_range(0, eb.len() as int);
    t.unique_seq_to_set();
    assert forall|y: int| t.to_set().contains(y) implies places.contains(y) by {
        let i = choose|i: int| 0 <= i < t.len() && t[i] == y;
        assert(0 <= t[i] < eb.len());
    }
    vstd::set_lib::lemma_len_subset(t.to_set(), places);
}

// ---------------------------------------------------------------------------------------------
// Adding
// ---------------------------------------------------------------------------------------------

/// Where the settings with one more entry are put in order, the new entry is among them, all
/// others are as before, and the new one is shown last in its group.
proof fn added_entry_is_shown_last(
    before: UserConfig,
    after: UserConfig,
    app: AppInfo,
    cat: Seq<char>,
) -> (k: int)
    requires
        with_entry(before, after, app),
        app.category_id@ == cat,
        joining_order(before.apps@, cat, app.sort_order as int),
        !app.pinned,
        forall|i: int|
            0 <= i < before.apps@.len() && (#[trigger] before.apps@[i]).category_id@ == cat
                ==> before.apps@[i].sort_order > i32::MIN,
    ensures
        0 <= k < after.apps@.len(),
        after.apps@[k] == app,
        after.apps@.len() == before.apps@.len() + 1,
        forall|x: AppInfo| after.apps@.contains(x) <==> before.apps@.contains(x) || x == app,
        ids_of(shown_in(after.apps@, cat)) == ids_of(shown_in(before.apps@, cat)).push(app.id@),
        forall|other: Seq<char>|
            other != cat ==> #[trigger] shown_in(after.apps@, other) == shown_in(
                before.apps@,
                other,
            ),
{
    let all = before.apps@.push(app);
    joining_entry_stands_behind(before.apps@, app, cat);
    sorting_keeps_groups(all, after.apps@, cat);
    assert forall|other: Seq<char>| other != cat implies #[trigger] shown_in(after.apps@, other)
        == shown_in(before.apps@, other) by {
        joining_entry_stands_behind(before.apps@, app, other);
        sorting_keeps_groups(all, after.apps@, other);
    }
    sorting_keeps_items(all, after.apps@, app_order());
    assert(all[before.apps@.len() as int] == app);
    assert forall|x: AppInfo| after.apps@.contains(x) <==> before.apps@.contains(x) || x
        == app by {
        if before.apps@.contains(x) {
            let i = choose|i: int| 0 <= i < before.apps@.len() && before.apps@[i] == x;
            assert(all[i] == x);
        }
        if all.contains(x) && x != app {
            let i = choose|i: int| 0 <= i < all.len() && all[i] == x;
            assert(before.apps@[i] == x);
        }
        assert(all.contains(app));
    }
    assert(after.apps@.contains(app));
    choose|k: int| 0 <= k < after.apps@.len() && after.apps@[k] == app
}

/// Whether the text is blank.
pub open spec fn all_white(s: Seq<char>) -> bool {
    forall|i: int| 0 <= i < s.len() ==> is_white_space(#[trigger] s[i])
}

/// Whether the entry is what a dropped path becomes: it leads to the path and is called by the
/// last part of it without its extension. It is found by its name, by the extension of what was
/// dropped, and, if it is a folder, as one; a web shortcut as a site, by the host of its link.
pub open spec fn made_of_path(
    app: AppInfo,
    id: Seq<char>,
    path: Seq<char>,
    leads_to: Seq<char>,
    cat: Seq<char>,
    facts: DropFacts,
    link: Option<Seq<char>>,
) -> bool {
    let stem = path_file_stem(leads_to);
    let name = path_file_name(leads_to);
    let ext = path_extension(path);
    let words = texts(app.keywords@);
    &&& app.id@ == id
    &&& app.path@ == leads_to
    &&& app.category_id@ == cat
    &&& stem is Some && !all_white(stem->0) ==> app.name@ == stem->0
    &&& stem is Some && all_white(stem->0) ==> app.name@ == "未命名"@
    &&& stem is None && name is Some && !all_white(name->0) ==> app.name@ == name->0
    &&& stem is None && name is None ==> app.name@ == "未命名"@
    &&& !app.pinned && app.exec_count == 0 && app.last_used is None
    &&& app.args@.len() == 0 && app.work_dir is None && app.icon_path is None
    &&& words.contains(lowercase(app.name@))
    &&& ext is Some ==> words.contains(lowercase(ext->0))
    &&& facts.is_dir ==> words.contains("folder"@)
    &&& !facts.is_dir && ext is None ==> words == seq![lowercase(app.name@)]
    &&& ext is Some && lowercase(ext->0) == "url"@ ==> words.contains("internet"@)
        && words.contains("website"@)
    &&& ext is Some && lowercase(ext->0) == "url"@ && facts.web_file is Some ==> opt_text(
        app.web_url,
    ) == link && (link matches Some(u) ==> (parsed_url(trim(u)) matches Some((_, Some(host)))
        ==> words.contains(lowercase(host))))
    &&& !(ext is Some && lowercase(ext->0) == "url"@ && facts.web_file is Some) ==> app.web_url
        is None
}

/// A path that is dropped is added as one entry, behind the others of the group that is shown; no
/// other entry and no other group changes.
pub proof fn dropped_path_is_added_behind(
    config: &mut UserConfig,
    id: String,
    path: &str,
    facts: &DropFacts,
    selected: &str,
    r: AddOutcome,
    cats: &Vec<Category>,
    cat: String,
    leads_to: String,
    file: &Vec<u8>,
    link: Option<String>,
)
    requires
        call_ensures(add_dropped_path_as, (config, id, path, facts, selected), r),
        facts.web_file is Some ==> file@ == facts.web_file->0@,
        call_ensures(parse_internet_shortcut_url, (file,), link),
        call_ensures(category_shown, (cats, selected), cat),
        call_ensures(resolve_dropped, (path, &facts.target), leads_to),
        cats@ == old(config).categories@,
        r is Added,
        forall|i: int|
            0 <= i < old(config).apps@.len() && (#[trigger] old(config).apps@[i]).category_id@
                == cat@ ==> old(config).apps@[i].sort_order > i32::MIN,
    ensures
        ids_of(shown_in(final(config).apps@, cat@)) == ids_of(
            shown_in(old(config).apps@, cat@),
        ).push(id@),
        forall|other: Seq<char>|
            other != cat@ ==> #[trigger] shown_in(final(config).apps@, other) == shown_in(
                old(config).apps@,
                other,
            ),
        exists|app: AppInfo| #[trigger]
            made_of_path(app, id@, path@, leads_to@, cat@, *facts, opt_text(link))
                && forall|x: AppInfo|
                final(config).apps@.contains(x) <==> old(config).apps@.contains(x) || x == app,
        final(config).categories == old(config).categories,
{
    let app = choose|app: AppInfo|
        {
            &&& #[trigger] with_entry(*old(config), *final(config), app)
            &&& fresh_entry(
                app,
                *old(config),
                id@,
                crate::entries::file_entry_name(leads_to@),
                leads_to@,
                selected@,
            )
            &&& opt_text(app.web_url) == crate::entries::dropped_url(
                path@,
                crate::favicon::opt_bytes(facts.web_file),
            )
            &&& texts(app.keywords@) == file_keywords(
                crate::entries::file_entry_name(leads_to@),
                lower_extension(path@),
                crate::entries::dropped_url(path@, crate::favicon::opt_bytes(facts.web_file)),
                facts.is_dir,
            )
        };
    let k = added_entry_is_shown_last(*old(config), *final(config), app, cat@);
    let words = texts(app.keywords@);
    assert(words[0] == lowercase(app.name@));
    match path_extension(path@) {
        Some(e) => {
            assert(words[1] == lowercase(e));
            if lowercase(e) == "url"@ {
                assert(words[2] == "internet"@);
                assert(words[3] == "website"@);
                let url = crate::entries::dropped_url(
                    path@,
                    crate::favicon::opt_bytes(facts.web_file),
                );
                if let Some(u) = url {
                    if let Some((_, Some(host))) = parsed_url(trim(u)) {
                        assert(words[4] == lowercase(host));
                    }
                }
            }
        },
        None => {
            if !facts.is_dir {
                assert(words =~= seq![lowercase(app.name@)]);
            }
        },
    }
    if facts.is_dir {
        assert(words.last() == "folder"@);
    }
    if let Some(stem) = path_file_stem(leads_to@) {
        blank_means_all_white_space(stem);
    }
    if let Some(name) = path_file_name(leads_to@) {
        blank_means_all_white_space(name);
    }
    assert(made_of_path(app, id@, path@, leads_to@, cat@, *facts, opt_text(link)));
}

/// A dropped path is refused just where some entry has the path it leads to, without regard to
/// case; the settings then stay as they are.
pub proof fn known_path_is_refused(
    config: &mut UserConfig,
    id: String,
    path: &str,
    facts: &DropFacts,
    selected: &str,
    r: AddOutcome,
    leads_to: String,
)
    requires
        call_ensures(add_dropped_path_as, (config, id, path, facts, selected), r),
        call_ensures(resolve_dropped, (path, &facts.target), leads_to),
    ensures
        r is Refused <==> exists|i: int|
            0 <= i < old(config).apps@.len() && lowercase((#[trigger] old(config).apps@[i]).path@)
                == lowercase(leads_to@),
        r is Refused ==> *final(config) == *old(config) && r->Refused_0@ == "该项目已在列表中"@,
{
}

/// A dropped path leads to the target of a shortcut of the system where it is one and has a
/// target, and to itself otherwise.
pub proof fn shortcut_leads_to_target(path: &str, target: &Option<String>, r: String)
    requires
        call_ensures(resolve_dropped, (path, target), r),
    ensures
        ({
            let ext = path_extension(path@);
            let link = ext is Some && lowercase(ext->0) == "lnk"@;
            &&& link && *target is Some && target->0@.len() > 0 ==> r@ == target->0@
            &&& !link || *target is None || target->0@.len() == 0 ==> r@ == path@
        }),
{
}

/// A dropped path that leads nowhere is refused, and so is a shortcut that was dragged out of the
/// window; every other is looked at, as a shortcut of the system or of the web by its extension.
pub proof fn dropped_path_is_looked_at(path: &str, present: bool, cache_dir: &str, r: DropGate)
    requires
        call_ensures(drop_gate, (path, present, cache_dir), r),
    ensures
        ({
            let ext = path_extension(path@);
            let out = ext is Some && ascii_lowercase(ext->0) == "lnk"@ && path_begins_with(
                path@,
                path_join(cache_dir@, "dragout"@),
            );
            &&& r is Refused <==> !present || out
            &&& !present ==> r->Refused_0@ == "添加失败：路径不存在"@
            &&& present && out ==> r->Refused_0@ == "已取消外部拖拽创建"@
            &&& r is Look ==> (r->shortcut <==> ext is Some && lowercase(ext->0) == "lnk"@)
            &&& r is Look ==> (r->web_shortcut <==> ext is Some && lowercase(ext->0) == "url"@)
        }),
{
    reveal_strlit("lnk");
    assert(ascii_lowercase("lnk"@) =~= "lnk"@);
}

/// An address that is dropped is refused just where it is none of the web, or where some entry
/// has it as its link or as its path, without regard to case; the settings then stay as they are.
pub proof fn known_address_is_refused(
    config: &mut UserConfig,
    id: String,
    url: &str,
    selected: &str,
    r: AddOutcome,
)
    requires
        call_ensures(add_dropped_http_url_as, (config, id, url, selected), r),
    ensures
        ({
            let u = trim(url@);
            let web = parsed_url(u) matches Some((scheme, _)) && (scheme == "http"@ || scheme
                == "https"@);
            let known = exists|i: int|
                0 <= i < old(config).apps@.len() && (lowercase(
                    (#[trigger] old(config).apps@[i]).path@,
                ) == lowercase(u) || (old(config).apps@[i].web_url is Some && lowercase(
                    old(config).apps@[i].web_url->0@,
                ) == lowercase(u)));
            &&& r is Refused <==> !web || known
            &&& r is Refused ==> *final(config) == *old(config)
            &&& !web ==> r->Refused_0@ == "添加失败：不是有效的 http(s) 链接"@
            &&& web && known ==> r->Refused_0@ == "该项目已在列表中"@
        }),
{
}

/// Whether the entry is what a dropped address becomes: it leads to the address, is called by its
/// host, and is found by it and as a site.
pub open spec fn made_of_address(
    app: AppInfo,
    id: Seq<char>,
    url: Seq<char>,
    cat: Seq<char>,
) -> bool {
    let words = texts(app.keywords@);
    &&& app.id@ == id
    &&& app.path@ == url
    &&& app.web_url is Some && app.web_url->0@ == url
    &&& app.category_id@ == cat
    &&& !app.pinned && app.exec_count == 0 && app.last_used is None
    &&& app.args@.len() == 0 && app.work_dir is None && app.icon_path is None
    &&& words.contains(lowercase(app.name@))
    &&& words.contains("url"@) && words.contains("http"@) && words.contains("https"@)
    &&& words.contains("internet"@) && words.contains("website"@)
    &&& parsed_url(url) matches Some((_, Some(host))) ==> app.name@ == host && words.contains(
        lowercase(host),
    )
    &&& parsed_url(url) matches Some((_, None)) ==> app.name@ == "网页"@
}

/// An address that is dropped is added as one entry, behind the others of the group that is shown;
/// no other entry and no other group changes. The icon of the site is then asked for.
pub proof fn dropped_address_is_added_behind(
    config: &mut UserConfig,
    id: String,
    url: &str,
    selected: &str,
    r: AddOutcome,
    cats: &Vec<Category>,
    cat: String,
)
    requires
        call_ensures(add_dropped_http_url_as, (config, id, url, selected), r),
        call_ensures(category_shown, (cats, selected), cat),
        cats@ == old(config).categories@,
        r is Added,
        forall|i: int|
            0 <= i < old(config).apps@.len() && (#[trigger] old(config).apps@[i]).category_id@
                == cat@ ==> old(config).apps@[i].sort_order > i32::MIN,
    ensures
        ids_of(shown_in(final(config).apps@, cat@)) == ids_of(
            shown_in(old(config).apps@, cat@),
        ).push(id@),
        forall|other: Seq<char>|
            other != cat@ ==> #[trigger] shown_in(final(config).apps@, other) == shown_in(
                old(config).apps@,
                other,
            ),
        exists|app: AppInfo| #[trigger]
            made_of_address(app, id@, trim(url@), cat@) && forall|x: AppInfo|
                final(config).apps@.contains(x) <==> old(config).apps@.contains(x) || x == app,
        final(config).categories == old(config).categories,
        r->Added_0.id@ == id@,
        r->Added_0.fetch is Some && r->Added_0.fetch->0@ == trim(url@),
{
    let u = trim(url@);
    let app = choose|app: AppInfo|
        {
            &&& #[trigger] with_entry(*old(config), *final(config), app)
            &&& fresh_entry(app, *old(config), id@, crate::entries::site_name(u), u, selected@)
            &&& opt_text(app.web_url) == Some(u)
            &&& texts(app.keywords@) == site_keywords(u)
            &&& crate::entries::told_of(
                r->Added_0,
                *old(config),
                app,
                selected@,
                "已添加网页："@,
            )
        };
    let k = added_entry_is_shown_last(*old(config), *final(config), app, cat@);
    let words = texts(app.keywords@);
    assert(words[0] == lowercase(app.name@));
    assert(words[1] == "url"@ && words[2] == "http"@ && words[3] == "https"@);
    assert(words[4] == "internet"@ && words[5] == "website"@);
    if let Some((_, Some(host))) = parsed_url(u) {
        assert(words[6] == lowercase(host));
    }
    assert(made_of_address(app, id@, u, cat@));
}

// ---------------------------------------------------------------------------------------------
// Pinning, moving and deleting
// ---------------------------------------------------------------------------------------------

proof fn last_pin_bounds(apps: Seq<AppInfo>, n: int)
    requires
        0 <= n <= apps.len(),
    ensures
        forall|k: int|
            0 <= k < n && (#[trigger] apps[k]).pinned ==> apps[k].pin_order <= last_pin(apps, n),
    decreases n,
{
    if n > 0 {
        last_pin_bounds(apps, n - 1);
    }
}

/// Whether `after` is the entry with its pin turned on or off.
pub open spec fn pin_turned(before: AppInfo, after: AppInfo) -> bool {
    &&& after == (AppInfo { pinned: !before.pinned, pin_order: after.pin_order, ..before })
    &&& before.pinned ==> after.pin_order == 0
}

/// Pinning turns the pin of one entry on or off and changes nothing else of it; every other entry
/// stays as it is, and all are in order. An entry that is pinned comes behind all that are pinned
/// already, as long as their numbers do not run out; one that is no longer pinned has no number.
pub proof fn pin_is_turned(
    apps: &mut Vec<AppInfo>,
    id: &str,
    r: Option<bool>,
    i: int,
)
    requires
        call_ensures(toggle_pin, (apps, id), r),
        0 <= i < old(apps)@.len(),
        old(apps)@[i].id@ == id@,
        forall|j: int| 0 <= j < i ==> (#[trigger] old(apps)@[j]).id@ != id@,
        forall|j: int|
            0 <= j < old(apps)@.len() && (#[trigger] old(apps)@[j]).pinned
                ==> old(apps)@[j].pin_order < u64::MAX,
    ensures
        r == Some(!old(apps)@[i].pinned),
        final(apps)@.len() == old(apps)@.len(),
        exists|e: AppInfo|
            {
                &&& #[trigger] pin_turned(old(apps)@[i], e)
                &&& e.pinned ==> forall|j: int|
                    0 <= j < old(apps)@.len() && (#[trigger] old(apps)@[j]).pinned
                        ==> old(apps)@[j].pin_order
                        < e.pin_order
                &&& forall|x: AppInfo|
                    final(apps)@.contains(x) <==> x == e || old(apps)@.remove(i).contains(x)
            },
        forall|a: int, b: int|
            0 <= a < b < final(apps)@.len() ==> may_precede(
                #[trigger] final(apps)@[a],
                #[trigger] final(apps)@[b],
            ),
{
    let p = has_id(id@);
    let before = old(apps)@;
    first_where_means(before, p);
    assert(p(before[i]));
    let between = pin_toggled(before, i);
    last_pin_bounds(before, before.len() as int);
    assert(last_pin(before, before.len() as int) < u64::MAX) by {
        last_pin_is_some_pin(before, before.len() as int);
    }
    sorting_keeps_items(between, final(apps)@, app_order());
    let q = choose|q: Seq<int>| arrangement(between, final(apps)@, app_order(), q);
    assert forall|a: int, b: int| 0 <= a < b < final(apps)@.len() implies may_precede(
        #[trigger] final(apps)@[a],
        #[trigger] final(apps)@[b],
    ) by {
        assert(app_order()(final(apps)@[a], final(apps)@[b]));
        order_lets_precede(final(apps)@[a], final(apps)@[b]);
    }
    let e = between[i];
    assert(between.contains(e));
    assert(pin_turned(before[i], e));
    let rest = before.remove(i);
    assert forall|x: AppInfo| final(apps)@.contains(x) <==> x == e || rest.contains(x) by {
        if between.contains(x) {
            let j = choose|j: int| 0 <= j < between.len() && between[j] == x;
            if j < i {
                assert(rest[j] == x);
            } else if j > i {
                assert(rest[j - 1] == x);
            }
        }
        if rest.contains(x) {
            let j = choose|j: int| 0 <= j < rest.len() && rest[j] == x;
            if j < i {
                assert(between[j] == x);
            } else {
                assert(between[j + 1] == x);
            }
        }
    }
}

proof fn last_pin_is_some_pin(apps: Seq<AppInfo>, n: int)
    requires
        0 <= n <= apps.len(),
    ensures
        last_pin(apps, n) == 0 || exists|k: int|
            0 <= k < n && (#[trigger] apps[k]).pinned && apps[k].pin_order == last_pin(apps, n),
    decreases n,
{
    if n > 0 {
        last_pin_is_some_pin(apps, n - 1);
        if apps[n - 1].pinned && apps[n - 1].pin_order > last_pin(apps, n - 1) {
            assert(apps[n - 1].pin_order == last_pin(apps, n));
        } else if last_pin(apps, n - 1) != 0 {
            let k = choose|k: int|
                0 <= k < n - 1 && (#[trigger] apps[k]).pinned && apps[k].pin_order == last_pin(
                    apps,
                    n - 1,
                );
            assert(apps[k].pin_order == last_pin(apps, n));
        }
    }
}

/// Where there is no entry with the id, pinning, moving and giving an icon change nothing.
pub proof fn missing_entry_changes_nothing(
    apps: &mut Vec<AppInfo>,
    other: &mut Vec<AppInfo>,
    third: &mut Vec<AppInfo>,
    id: &str,
    text: &str,
    r: Option<bool>,
    m: bool,
    s: bool,
)
    requires
        call_ensures(toggle_pin, (apps, id), r),
        call_ensures(move_app_to_category, (other, id, text), m),
        call_ensures(set_icon_path, (third, id, text), s),
        old(other)@ == old(apps)@ && old(third)@ == old(apps)@,
        forall|j: int| 0 <= j < old(apps)@.len() ==> (#[trigger] old(apps)@[j]).id@ != id@,
    ensures
        r is None && !m && !s,
        final(apps)@ == old(apps)@,
        final(other)@ == old(apps)@,
        final(third)@ == old(apps)@,
{
    first_where_means(old(apps)@, has_id(id@));
}

/// Deleting takes away the entries with the id and no other, and keeps the others in their order.
pub proof fn deletion_takes_the_id(apps: &mut Vec<AppInfo>, id: &str)
    requires
        call_ensures(delete_app, (apps, id), ()),
    ensures
        final(apps)@ == old(apps)@.filter(|a: AppInfo| a.id@ != id@),
        forall|x: AppInfo| final(apps)@.contains(x) <==> old(apps)@.contains(x) && x.id@ != id@,
{
    let f = |a: AppInfo| a.id@ != id@;
    let p = other_app(id@);
    assert(p =~= f);
    let before = old(apps)@;
    assert forall|x: AppInfo| final(apps)@.contains(x) <==> before.contains(x) && x.id@ != id@ by {
        if before.contains(x) && x.id@ != id@ {
            let j = choose|j: int| 0 <= j < before.len() && before[j] == x;
            before.lemma_filter_contains(p, j);
        }
        if final(apps)@.contains(x) {
            let j = choose|j: int| 0 <= j < final(apps)@.len() && final(apps)@[j] == x;
            before.lemma_filter_pred(p, j);
            before.lemma_filter_contains_rev(p, x);
        }
    }
}

/// Moving an entry to a group puts that one entry there and changes nothing else; an entry that
/// is there already does not move.
pub proof fn entry_is_moved(apps: &mut Vec<AppInfo>, id: &str, cat: &str, r: bool, i: int)
    requires
        call_ensures(move_app_to_category, (apps, id, cat), r),
        0 <= i < old(apps)@.len(),
        old(apps)@[i].id@ == id@,
        forall|j: int| 0 <= j < i ==> (#[trigger] old(apps)@[j]).id@ != id@,
    ensures
        r <==> old(apps)@[i].category_id@ != cat@,
        final(apps)@.len() == old(apps)@.len(),
        final(apps)@[i].category_id@ == cat@,
        final(apps)@[i] == (AppInfo { category_id: final(apps)@[i].category_id, ..old(apps)@[i] }),
        forall|j: int| 0 <= j < old(apps)@.len() && j != i ==> #[trigger] final(apps)@[j]
            == old(apps)@[j],
{
    let p = has_id(id@);
    first_where_means(old(apps)@, p);
    assert(p(old(apps)@[i]));
}

/// Giving an entry an icon gives it to that one entry and changes nothing else.
pub proof fn icon_is_given(apps: &mut Vec<AppInfo>, id: &str, icon: &str, r: bool, i: int)
    requires
        call_ensures(set_icon_path, (apps, id, icon), r),
        0 <= i < old(apps)@.len(),
        old(apps)@[i].id@ == id@,
        forall|j: int| 0 <= j < i ==> (#[trigger] old(apps)@[j]).id@ != id@,
    ensures
        r,
        final(apps)@.len() == old(apps)@.len(),
        final(apps)@[i].icon_path is Some && final(apps)@[i].icon_path->0@ == icon@,
        final(apps)@[i] == (AppInfo { icon_path: final(apps)@[i].icon_path, ..old(apps)@[i] }),
        forall|j: int| 0 <= j < old(apps)@.len() && j != i ==> #[trigger] final(apps)@[j]
            == old(apps)@[j],
{
    let p = has_id(id@);
    first_where_means(old(apps)@, p);
    assert(p(old(apps)@[i]));
}

// ---------------------------------------------------------------------------------------------
// Numbers and edits
// ---------------------------------------------------------------------------------------------

/// The place, counted from zero, at which an entry is shown that is given the number `number` in
/// a group of `count` entries.
pub open spec fn is_place_for(place: int, number: int, count: int) -> bool {
    &&& 0 <= place < count
    &&& 1 <= number <= count ==> place == number - 1
    &&& number < 1 ==> place == 0
    &&& number > count ==> place == count - 1
}

proof fn numbered_entry_is_shown(apps: Seq<AppInfo>, id: Seq<char>, cat: Seq<char>, number: int) -> (
    r: (int, int))
    requires
        ids_of(shown_in(apps, cat)).no_duplicates(),
        ids_of(shown_in(apps, cat)).contains(id),
        ids_of(shown_in(apps, cat)).len() <= i32::MAX,
        forall|i: int, j: int|
            0 <= i < apps.len() && 0 <= j < apps.len() && (#[trigger] apps[i]).category_id@ == cat
                && (#[trigger] apps[j]).category_id@ == cat ==> apps[i].pinned == apps[j].pinned,
    ensures
        ({
            let before = ids_of(shown_in(apps, cat));
            let after = ids_of(shown_in(placed(apps, id, cat, number), cat));
            &&& after.len() == before.len()
            &&& 0 <= r.0 < before.len() && before[r.0] == id
            &&& is_place_for(r.1, number, before.len() as int)
            &&& after[r.1] == id
            &&& after.remove(r.1) == before.remove(r.0)
        }),
{
    let before = ids_of(shown_in(apps, cat));
    let from = choose|i: int| 0 <= i < before.len() && before[i] == id;
    first_where_exists(before, is_text(id), from);
    first_where_means(before, is_text(id));
    let at = first_where(before, is_text(id))->0;
    assert(at == from);
    let order = order_with_number(before, id, number);
    let to = place_for(before.len() as int, number);
    moving_keeps_items(before, at, to);
    assert(pinned_first(apps, cat, order)) by {
        assert forall|i: int, j: int|
            0 <= i < j < order.len() && crate::catalog::pinned_entry(apps, cat, #[trigger] order[j])
                implies crate::catalog::pinned_entry(apps, cat, #[trigger] order[i]) by {
            let pj = is_entry(order[j], cat);
            let pi = is_entry(order[i], cat);
            first_where_means(apps, pj);
            let y = first_where(apps, pj)->0;
            assert(before.contains(order[i])) by {
                assert(order.contains(order[i]));
            }
            let x = entry_with_shown_id(apps, cat, order[i]);
            first_where_exists(apps, pi, x);
            first_where_means(apps, pi);
            let z = first_where(apps, pi)->0;
            assert(apps[z].category_id@ == cat && apps[y].category_id@ == cat);
            assert(apps[z].pinned == apps[y].pinned);
        }
    }
    placed_entry_is_shown_there(apps, id, cat, number);
    assert(order.remove(to) =~= before.remove(at));
    (at, to)
}

proof fn entry_with_shown_id(apps: Seq<AppInfo>, cat: Seq<char>, id: Seq<char>) -> (x: int)
    requires
        ids_of(shown_in(apps, cat)).contains(id),
    ensures
        0 <= x < apps.len(),
        apps[x].id@ == id,
        apps[x].category_id@ == cat,
{
    let p = in_category(cat);
    let shown = shown_in(apps, cat);
    let group = apps.filter(p);
    app_order_is_total();
    every_list_has_sorted_form(group, app_order());
    sorting_keeps_items(group, shown, app_order());
    let k = choose|k: int| 0 <= k < ids_of(shown).len() && ids_of(shown)[k] == id;
    assert(shown.contains(shown[k]));
    let g = choose|g: int| 0 <= g < group.len() && group[g] == shown[k];
    apps.lemma_filter_pred(p, g);
    apps.lemma_filter_contains_rev(p, group[g]);
    choose|x: int| 0 <= x < apps.len() && apps[x] == group[g]
}

/// Whether `after` is the list `before` with the id taken from `from` and put in at `to`, where the
/// number asks for it; the others stand in the order in which they stood.
pub open spec fn put_under_number(
    before: Seq<Seq<char>>,
    after: Seq<Seq<char>>,
    id: Seq<char>,
    number: int,
    from: int,
    to: int,
) -> bool {
    &&& is_place_for(to, number, before.len() as int)
    &&& 0 <= from < before.len()
    &&& before[from] == id
    &&& after.len() == before.len()
    &&& after[to] == id
    &&& after.remove(to) == before.remove(from)
}

/// An entry that is given a number is shown under that number, or first or last where there is no
/// such number, and the others are shown in the order in which they were, if no two entries of the
/// group have one id and all of them are pinned or none is.
pub proof fn entry_is_shown_under_its_number(
    apps: &mut Vec<AppInfo>,
    id: &str,
    cat: &str,
    number: i32,
)
    requires
        call_ensures(apply_display_sort_index, (apps, id, cat, number), ()),
        ids_of(shown_in(old(apps)@, cat@)).no_duplicates(),
        ids_of(shown_in(old(apps)@, cat@)).contains(id@),
        ids_of(shown_in(old(apps)@, cat@)).len() <= i32::MAX,
        forall|i: int, j: int|
            0 <= i < old(apps)@.len() && 0 <= j < old(apps)@.len()
                && (#[trigger] old(apps)@[i]).category_id@ == cat@
                && (#[trigger] old(apps)@[j]).category_id@ == cat@ ==> old(apps)@[i].pinned
                == old(apps)@[j].pinned,
    ensures
        exists|from: int, to: int| #[trigger]
            put_under_number(
                ids_of(shown_in(old(apps)@, cat@)),
                ids_of(shown_in(final(apps)@, cat@)),
                id@,
                number as int,
                from,
                to,
            ),
{
    let (from, to) = numbered_entry_is_shown(old(apps)@, id@, cat@, number as int);
    assert(put_under_number(
        ids_of(shown_in(old(apps)@, cat@)),
        ids_of(shown_in(final(apps)@, cat@)),
        id@,
        number as int,
        from,
        to,
    ));
}

/// A number that is entered as a text counts from one: anything that writes no number, and every
/// number below one, asks for the first place; a number that is written asks for itself, whatever
/// white space stands around it.
pub proof fn entered_number_counts_from_one(s: Seq<char>, n: int)
    ensures
        asked_number(s) >= 1,
        crate::numbers::written_i32(trim(s)) is None ==> asked_number(s) == 1,
        1 <= n <= i32::MAX && trim(s) == crate::numbers::int_text(n) ==> asked_number(s) == n,
        i32::MIN <= n < 1 && trim(s) == crate::numbers::int_text(n) ==> asked_number(s) == 1,
{
    if i32::MIN <= n <= i32::MAX {
        crate::numbers::int_text_reads_back(n);
    }
}

/// An edit changes one entry: its name and its path where something is entered, its arguments to
/// the words that are entered, and its group where one is named. Of every other entry nothing
/// changes but the orders, and nothing else of the settings does.
pub proof fn edit_changes_one_entry(
    config: &mut UserConfig,
    id: &str,
    name: &str,
    path: &str,
    args: &str,
    category: &str,
    sort_text: &str,
    cats: &Vec<Category>,
    meant: String,
    i: int,
)
    requires
        call_ensures(save_app_edit, (config, id, name, path, args, category, sort_text), ()),
        call_ensures(resolve_category_id_input, (cats, category), meant),
        cats@ == old(config).categories@,
        0 <= i < old(config).apps@.len(),
        old(config).apps@[i].id@ == id@,
        forall|j: int| 0 <= j < i ==> (#[trigger] old(config).apps@[j]).id@ != id@,
    ensures
        final(config).categories == old(config).categories,
        final(config).apps@.len() == old(config).apps@.len(),
        ({
            let before = old(config).apps@[i];
            let after = final(config).apps@[i];
            &&& name@.len() > 0 ==> after.name@ == name@
            &&& name@.len() == 0 ==> after.name@ == before.name@
            &&& path@.len() > 0 ==> after.path@ == path@
            &&& path@.len() == 0 ==> after.path@ == before.path@
            &&& texts(after.args@) == words(args@)
            &&& category@.len() > 0 ==> after.category_id@ == meant@
            &&& category@.len() == 0 ==> after.category_id@ == before.category_id@
            &&& after == (AppInfo {
                name: after.name,
                path: after.path,
                args: after.args,
                category_id: after.category_id,
                sort_order: after.sort_order,
                pin_order: after.pin_order,
                ..before
            })
        }),
        forall|j: int|
            0 <= j < old(config).apps@.len() && j != i ==> #[trigger] final(config).apps@[j] == (
            AppInfo {
                sort_order: final(config).apps@[j].sort_order,
                pin_order: final(config).apps@[j].pin_order,
                ..old(config).apps@[j]
            }),
{
    let p = has_id(id@);
    let before = old(config).apps@;
    let cat = crate::entries::edit_category(old(config).categories@, category@);
    first_where_means(before, p);
    assert(p(before[i]));
    let group = numbering_category(old(config).categories@, before, id@, category@);
    let between = choose|between: Seq<AppInfo>|
        {
            &&& #[trigger] one_edited(before, between, id@, name@, path@, args@, cat)
            &&& final(config).apps@ == (if group.len() > 0 {
                placed(between, id@, group, asked_number(sort_text@))
            } else {
                between
            })
        };
    placing_keeps_entries(between, id@, group, asked_number(sort_text@));
    assert(between[i] == between[i]);
    assert forall|j: int| 0 <= j < before.len() && j != i implies
        #[trigger] final(config).apps@[j] == (AppInfo {
        sort_order: final(config).apps@[j].sort_order,
        pin_order: final(config).apps@[j].pin_order,
        ..before[j]
    }) by {
        assert(between[j] == before[j]);
    }
}

proof fn placing_keeps_entries(apps: Seq<AppInfo>, id: Seq<char>, cat: Seq<char>, number: int)
    ensures
        crate::display_laws::same_but_orders(apps, placed(apps, id, cat, number)),
{
    let ids = ids_of(shown_in(apps, cat));
    if let Some(cur) = first_where(ids, is_text(id)) {
        let wanted = if number < 1 {
            0
        } else {
            number - 1
        };
        let to = if wanted < ids.len() - 1 {
            wanted
        } else {
            ids.len() - 1
        };
        crate::display_laws::reordering_keeps_entries(apps, cat, moved(ids, cur, to));
    }
}

/// An edit shows the entry under the number that is entered, in the group that it is then in, if
/// no two entries have one id and none is pinned.
pub proof fn edit_shows_entry_under_number(
    config: &mut UserConfig,
    id: &str,
    name: &str,
    path: &str,
    args: &str,
    category: &str,
    sort_text: &str,
    i: int,
    n: int,
)
    requires
        call_ensures(save_app_edit, (config, id, name, path, args, category, sort_text), ()),
        0 <= i < old(config).apps@.len() <= i32::MAX,
        old(config).apps@[i].id@ == id@,
        ids_of(old(config).apps@).no_duplicates(),
        forall|j: int| 0 <= j < old(config).apps@.len() ==> !(#[trigger] old(config).apps@[j]).pinned,
        final(config).apps@[i].category_id@.len() > 0,
        1 <= n <= i32::MAX,
        trim(sort_text@) == crate::numbers::int_text(n),
    ensures
        ({
            let shown = ids_of(shown_in(final(config).apps@, final(config).apps@[i].category_id@));
            exists|k: int| #[trigger]
                is_place_for(k, n, shown.len() as int) && shown[k] == id@
        }),
{
    let p = has_id(id@);
    let before = old(config).apps@;
    let cat = crate::entries::edit_category(old(config).categories@, category@);
    first_where_means(before, p);
    assert(p(before[i]));
    let at = first_where(before, p)->0;
    assert(at == i) by {
        assert(ids_of(before)[at] == ids_of(before)[i]);
    }
    let group = numbering_category(old(config).categories@, before, id@, category@);
    let number = asked_number(sort_text@);
    let between = choose|between: Seq<AppInfo>|
        {
            &&& #[trigger] one_edited(before, between, id@, name@, path@, args@, cat)
            &&& final(config).apps@ == (if group.len() > 0 {
                placed(between, id@, group, number)
            } else {
                between
            })
        };
    crate::numbers::int_text_reads_back(n);
    placing_keeps_entries(between, id@, group, number);
    assert(between[i].category_id@ == group);
    assert(final(config).apps@[i].category_id@ == group);
    assert(ids_of(between) =~= ids_of(before));
    crate::display_laws::different_ids_differ_in_groups(between);
    let ids = ids_of(shown_in(between, group));
    assert(ids.no_duplicates());
    assert(ids.contains(id@)) by {
        shown_holds_entry(between, group, i);
    }
    let (f, t) = numbered_entry_is_shown(between, id@, group, number);
    assert(is_place_for(t, n, ids.len() as int));
}

proof fn shown_holds_entry(apps: Seq<AppInfo>, cat: Seq<char>, i: int)
    requires
        0 <= i < apps.len(),
        apps[i].category_id@ == cat,
    ensures
        ids_of(shown_in(apps, cat)).contains(apps[i].id@),
{
    let p = in_category(cat);
    let group = apps.filter(p);
    let shown = shown_in(apps, cat);
    app_order_is_total();
    every_list_has_sorted_form(group, app_order());
    sorting_keeps_items(group, shown, app_order());
    apps.lemma_filter_contains(p, i);
    assert(shown.contains(apps[i]));
    let k = choose|k: int| 0 <= k < shown.len() && shown[k] == apps[i];
    assert(ids_of(shown)[k] == apps[i].id@);
}

} // verus!

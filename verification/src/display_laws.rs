//! What an order that the user sets shows. The rules of [`catalog`](crate::catalog) write a
//! display order into a group as numbers; here it is shown that the group is then displayed in
//! that order.

use vstd::prelude::*;

use crate::catalog::{
    app_before, app_order, app_order_is_total, before_one_way, ids_of, in_category, is_entry,
    is_text, moved, pinned_among, pinned_entry, placed, ranked, reordered, repinned, shown_in,
    shown_in_is,
};
use crate::legacy::{orders_filled, unordered_group};
use crate::lists::{
    first_where, first_where_absent, first_where_exists, first_where_found, first_where_means,
    is_first,
};
use crate::models::AppInfo;
use crate::ordering::{
    arrangement, arrangement_names_every_place, every_list_has_sorted_form, sorting_keeps_items,
    stably_sorted,
};

verus! {

/// Whether `b` lists the entries of `a` with nothing changed but their orders.
pub open spec fn same_but_orders(a: Seq<AppInfo>, b: Seq<AppInfo>) -> bool {
    &&& a.len() == b.len()
    &&& forall|i: int|
        0 <= i < a.len() ==> #[trigger] b[i] == (AppInfo {
            sort_order: b[i].sort_order,
            pin_order: b[i].pin_order,
            ..a[i]
        })
}

proof fn same_entries_found(a: Seq<AppInfo>, b: Seq<AppInfo>, id: Seq<char>, cat: Seq<char>)
    requires
        same_but_orders(a, b),
    ensures
        first_where(b, is_entry(id, cat)) == first_where(a, is_entry(id, cat)),
{
    let p = is_entry(id, cat);
    assert forall|i: int| 0 <= i < a.len() implies p(#[trigger] a[i]) == p(b[i]) by {
        assert(b[i] == (AppInfo {
            sort_order: b[i].sort_order,
            pin_order: b[i].pin_order,
            ..a[i]
        }));
    }
    first_where_means(a, p);
    match first_where(a, p) {
        Some(i) => {
            assert(is_first(b, p, i)) by {
                assert(p(a[i]) == p(b[i]));
                assert forall|j: int| 0 <= j < i implies !p(#[trigger] b[j]) by {
                    assert(!p(a[j]));
                }
            }
            first_where_found(b, p, i);
        },
        None => {
            assert forall|j: int| 0 <= j < b.len() implies !p(#[trigger] b[j]) by {
                assert(!p(a[j]));
            }
            first_where_absent(b, p);
        },
    }
}

proof fn ranked_changes_orders(apps: Seq<AppInfo>, cat: Seq<char>, ids: Seq<Seq<char>>, k: int)
    ensures
        same_but_orders(apps, ranked(apps, cat, ids, k)),
        forall|i: int|
            0 <= i < apps.len() ==> (#[trigger] ranked(apps, cat, ids, k)[i]).pin_order
                == apps[i].pin_order,
    decreases k,
{
    if k > 0 {
        ranked_changes_orders(apps, cat, ids, k - 1);
        let prev = ranked(apps, cat, ids, k - 1);
        first_where_means(prev, is_entry(ids[k - 1], cat));
    }
}

proof fn repinned_changes_orders(apps: Seq<AppInfo>, cat: Seq<char>, ids: Seq<Seq<char>>, k: int)
    ensures
        same_but_orders(apps, repinned(apps, cat, ids, k)),
        forall|i: int|
            0 <= i < apps.len() ==> (#[trigger] repinned(apps, cat, ids, k)[i]).sort_order
                == apps[i].sort_order,
        forall|i: int|
            0 <= i < apps.len() && !apps[i].pinned ==> (#[trigger] repinned(
                apps,
                cat,
                ids,
                k,
            )[i]).pin_order == apps[i].pin_order,
    decreases k,
{
    if k > 0 {
        repinned_changes_orders(apps, cat, ids, k - 1);
        let prev = repinned(apps, cat, ids, k - 1);
        first_where_means(prev, is_entry(ids[k - 1], cat));
    }
}

/// A display order changes nothing of the entries but their orders.
pub proof fn reordering_keeps_entries(apps: Seq<AppInfo>, cat: Seq<char>, ids: Seq<Seq<char>>)
    ensures
        same_but_orders(apps, reordered(apps, cat, ids)),
{
    let n = ids.len() as int;
    let mid = ranked(apps, cat, ids, n);
    ranked_changes_orders(apps, cat, ids, n);
    repinned_changes_orders(mid, cat, ids, n);
    let last = reordered(apps, cat, ids);
    assert forall|i: int| 0 <= i < apps.len() implies #[trigger] last[i] == (AppInfo {
        sort_order: last[i].sort_order,
        pin_order: last[i].pin_order,
        ..apps[i]
    }) by {
        assert(mid[i] == (AppInfo {
            sort_order: mid[i].sort_order,
            pin_order: mid[i].pin_order,
            ..apps[i]
        }));
    }
}

proof fn ranked_at(
    apps: Seq<AppInfo>,
    cat: Seq<char>,
    ids: Seq<Seq<char>>,
    k: int,
    j: int,
    x: int,
)
    requires
        ids.no_duplicates(),
        0 <= j < k <= ids.len(),
        first_where(apps, is_entry(ids[j], cat)) == Some(x),
    ensures
        ranked(apps, cat, ids, k)[x].sort_order == (ids.len() - (j + 1)) as i32,
    decreases k,
{
    let prev = ranked(apps, cat, ids, k - 1);
    ranked_changes_orders(apps, cat, ids, k - 1);
    same_entries_found(apps, prev, ids[k - 1], cat);
    first_where_means(apps, is_entry(ids[j], cat));
    first_where_means(apps, is_entry(ids[k - 1], cat));
    if j < k - 1 {
        ranked_at(apps, cat, ids, k - 1, j, x);
        assert(ids[j] != ids[k - 1]);
        assert(first_where(apps, is_entry(ids[k - 1], cat)) != Some(x));
    }
}

proof fn pins_grow(apps: Seq<AppInfo>, cat: Seq<char>, ids: Seq<Seq<char>>, j: int, k: int)
    requires
        0 <= j < k,
        pinned_entry(apps, cat, ids[j]),
    ensures
        pinned_among(apps, cat, ids, k) >= pinned_among(apps, cat, ids, j) + 1,
        pinned_among(apps, cat, ids, j) <= j,
    decreases k,
{
    pins_bounded(apps, cat, ids, j);
    if j < k - 1 {
        pins_grow(apps, cat, ids, j, k - 1);
    } else {
        let prev = repinned(apps, cat, ids, j);
        repinned_changes_orders(apps, cat, ids, j);
        same_entries_found(apps, prev, ids[j], cat);
        first_where_means(apps, is_entry(ids[j], cat));
        let i = first_where(apps, is_entry(ids[j], cat))->0;
        assert(prev[i].pinned == apps[i].pinned);
    }
}

proof fn pins_bounded(apps: Seq<AppInfo>, cat: Seq<char>, ids: Seq<Seq<char>>, k: int)
    requires
        0 <= k,
    ensures
        pinned_among(apps, cat, ids, k) <= k,
    decreases k,
{
    if k > 0 {
        pins_bounded(apps, cat, ids, k - 1);
    }
}

proof fn repinned_at(
    apps: Seq<AppInfo>,
    cat: Seq<char>,
    ids: Seq<Seq<char>>,
    k: int,
    j: int,
    x: int,
)
    requires
        ids.no_duplicates(),
        0 <= j < k <= ids.len(),
        first_where(apps, is_entry(ids[j], cat)) == Some(x),
        apps[x].pinned,
    ensures
        repinned(apps, cat, ids, k)[x].pin_order == (pinned_among(apps, cat, ids, j) + 1) as u64,
    decreases k,
{
    let prev = repinned(apps, cat, ids, k - 1);
    repinned_changes_orders(apps, cat, ids, k - 1);
    same_entries_found(apps, prev, ids[k - 1], cat);
    first_where_means(apps, is_entry(ids[j], cat));
    first_where_means(apps, is_entry(ids[k - 1], cat));
    if j < k - 1 {
        repinned_at(apps, cat, ids, k - 1, j, x);
        assert(ids[j] != ids[k - 1]);
        assert(first_where(apps, is_entry(ids[k - 1], cat)) != Some(x));
    } else {
        assert(prev[x].pinned == apps[x].pinned);
    }
}

/// Once a display order without repeated ids is written into a group, the entry that it names
/// earlier is shown before the one that it names later, as long as both are pinned or neither
/// is. (Pinned entries are shown before all others in any case.)
pub proof fn display_order_is_shown(
    apps: Seq<AppInfo>,
    cat: Seq<char>,
    ids: Seq<Seq<char>>,
    i: int,
    j: int,
    x: int,
    y: int,
)
    requires
        ids.no_duplicates(),
        ids.len() <= i32::MAX,
        0 <= i < j < ids.len(),
        first_where(apps, is_entry(ids[i], cat)) == Some(x),
        first_where(apps, is_entry(ids[j], cat)) == Some(y),
        apps[x].pinned == apps[y].pinned,
    ensures
        app_before(reordered(apps, cat, ids)[x], reordered(apps, cat, ids)[y]),
{
    let n = ids.len() as int;
    let mid = ranked(apps, cat, ids, n);
    first_where_means(apps, is_entry(ids[i], cat));
    first_where_means(apps, is_entry(ids[j], cat));
    ranked_changes_orders(apps, cat, ids, n);
    repinned_changes_orders(mid, cat, ids, n);
    same_entries_found(apps, mid, ids[i], cat);
    same_entries_found(apps, mid, ids[j], cat);
    ranked_at(apps, cat, ids, n, i, x);
    ranked_at(apps, cat, ids, n, j, y);
    let last = repinned(mid, cat, ids, n);
    assert(mid[x].pinned == apps[x].pinned && mid[y].pinned == apps[y].pinned);
    assert(last[x].pinned == mid[x].pinned && last[y].pinned == mid[y].pinned);
    if apps[x].pinned {
        repinned_at(mid, cat, ids, n, i, x);
        repinned_at(mid, cat, ids, n, j, y);
        pins_grow(mid, cat, ids, i, j);
        pins_bounded(mid, cat, ids, j);
    }
}

proof fn filter_keeps_shape(a: Seq<AppInfo>, b: Seq<AppInfo>, cat: Seq<char>)
    requires
        same_but_orders(a, b),
    ensures
        same_but_orders(a.filter(in_category(cat)), b.filter(in_category(cat))),
    decreases a.len(),
{
    reveal(Seq::filter);
    let p = in_category(cat);
    if a.len() > 0 {
        let a1 = a.drop_last();
        let b1 = b.drop_last();
        assert forall|i: int| 0 <= i < a1.len() implies #[trigger] b1[i] == (AppInfo {
            sort_order: b1[i].sort_order,
            pin_order: b1[i].pin_order,
            ..a1[i]
        }) by {
            assert(b[i] == b1[i]);
        }
        filter_keeps_shape(a1, b1, cat);
        assert(b.last() == (AppInfo {
            sort_order: b.last().sort_order,
            pin_order: b.last().pin_order,
            ..a.last()
        })) by {
            assert(b.last() == b[b.len() - 1]);
        }
    }
}

/// An item of a filtered list has a place in the list.
proof fn filtered_item_has_place(s: Seq<AppInfo>, p: spec_fn(AppInfo) -> bool, k: int) -> (i: int)
    requires
        0 <= k < s.filter(p).len(),
    ensures
        0 <= i < s.len(),
        s[i] == s.filter(p)[k],
        p(s[i]),
{
    s.lemma_filter_contains_rev(p, s.filter(p)[k]);
    s.lemma_filter_pred(p, k);
    choose|i: int| 0 <= i < s.len() && s[i] == s.filter(p)[k]
}

/// Taking an item of a list without repetition out and putting it in elsewhere keeps the items,
/// and puts the item where it was to go.
pub proof fn moving_keeps_items<T>(s: Seq<T>, from: int, to: int)
    requires
        0 <= from < s.len(),
        0 <= to < s.len(),
        s.no_duplicates(),
    ensures
        moved(s, from, to).len() == s.len(),
        moved(s, from, to)[to] == s[from],
        moved(s, from, to).no_duplicates(),
        forall|x: T| moved(s, from, to).contains(x) <==> s.contains(x),
{
    let m = moved(s, from, to);
    let src = |k: int|
        if k == to {
            from
        } else {
            let r = if k < to {
                k
            } else {
                k - 1
            };
            if r < from {
                r
            } else {
                r + 1
            }
        };
    assert forall|k: int| 0 <= k < m.len() implies #[trigger] m[k] == s[src(k)] by {}
    assert forall|x: T| s.contains(x) implies m.contains(x) by {
        let i = choose|i: int| 0 <= i < s.len() && s[i] == x;
        let r = if i < from {
            i
        } else {
            i - 1
        };
        let k = if i == from {
            to
        } else if r < to {
            r
        } else {
            r + 1
        };
        assert(src(k) == i);
        assert(m[k] == x);
    }
    assert forall|x: T| m.contains(x) implies s.contains(x) by {
        let k = choose|k: int| 0 <= k < m.len() && m[k] == x;
        assert(s[src(k)] == x);
    }
}

/// Whether a display order names the pinned entries of the group before the others.
pub open spec fn pinned_first(apps: Seq<AppInfo>, cat: Seq<char>, ids: Seq<Seq<char>>) -> bool {
    forall|i: int, j: int|
        0 <= i < j < ids.len() && pinned_entry(apps, cat, #[trigger] ids[j]) ==> pinned_entry(
            apps,
            cat,
            #[trigger] ids[i],
        )
}

/// The place of the entry of a group that the id at place `k` of a display order names.
pub open spec fn place_of(apps: Seq<AppInfo>, cat: Seq<char>, ids: Seq<Seq<char>>, k: int) -> int {
    first_where(apps, is_entry(ids[k], cat))->0
}

/// The entries that a group shows once a display order is written into it are those that the
/// order names, one after the other.
proof fn ordered_group_shows(apps: Seq<AppInfo>, cat: Seq<char>, ids: Seq<Seq<char>>)
    requires
        ids_of(shown_in(apps, cat)).no_duplicates(),
        ids.no_duplicates(),
        ids.len() <= i32::MAX,
        forall|x: Seq<char>| ids.contains(x) <==> ids_of(shown_in(apps, cat)).contains(x),
        pinned_first(apps, cat, ids),
    ensures
        shown_in(reordered(apps, cat, ids), cat).len() == ids.len(),
        forall|k: int|
            0 <= k < ids.len() ==> {
                let x = place_of(apps, cat, ids, k);
                let e = #[trigger] shown_in(reordered(apps, cat, ids), cat)[k];
                &&& first_where(apps, is_entry(ids[k], cat)) == Some(x)
                &&& 0 <= x < apps.len()
                &&& e == reordered(apps, cat, ids)[x]
                &&& e.id@ == ids[k]
                &&& e.pinned == apps[x].pinned
            },
{
    let p = in_category(cat);
    let group = apps.filter(p);
    let shown = shown_in(apps, cat);
    let last = reordered(apps, cat, ids);
    let new_group = last.filter(p);
    app_order_is_total();
    group_has_shown_form(apps, cat);
    sorting_keeps_items(group, shown, app_order());
    reordering_keeps_entries(apps, cat, ids);
    filter_keeps_shape(apps, last, cat);
    // Both lists of ids have the same length: each is without repetition, and they hold the same.
    ids.unique_seq_to_set();
    ids_of(shown).unique_seq_to_set();
    assert(ids.to_set() =~= ids_of(shown).to_set());
    assert(ids.len() == group.len());
    // Each id names one place of the group.
    let q = Seq::new(
        ids.len(),
        |k: int| choose|g: int| 0 <= g < group.len() && (#[trigger] group[g]).id@ == ids[k],
    );
    assert forall|k: int| 0 <= k < ids.len() implies 0 <= #[trigger] q[k] < group.len()
        && group[q[k]].id@ == ids[k] by {
        assert(ids.contains(ids[k]));
        let s = choose|s: int| 0 <= s < shown.len() && ids_of(shown)[s] == ids[k];
        assert(shown.contains(shown[s]));
        let g = choose|g: int| 0 <= g < group.len() && group[g] == shown[s];
        assert(group[g].id@ == ids[k]);
    }
    let form = Seq::new(ids.len(), |k: int| new_group[q[k]]);
    let place = |k: int| place_of(apps, cat, ids, k);
    assert forall|k: int| 0 <= k < ids.len() implies (#[trigger] form[k]).id@ == ids[k]
        && first_where(apps, is_entry(ids[k], cat)) == Some(place(k)) && 0 <= place(k) < apps.len()
        && form[k] == last[place(k)] && form[k].pinned == apps[place(k)].pinned by {
        let g = q[k];
        assert(new_group[g] == (AppInfo {
            sort_order: new_group[g].sort_order,
            pin_order: new_group[g].pin_order,
            ..group[g]
        }));
        let i = filtered_item_has_place(last, p, g);
        assert(last[i] == (AppInfo {
            sort_order: last[i].sort_order,
            pin_order: last[i].pin_order,
            ..apps[i]
        }));
        assert(apps[i].category_id@ == cat);
        assert(apps[i].id@ == ids[k]);
        first_where_exists(apps, is_entry(ids[k], cat), i);
        only_entry_with_id(apps, cat, ids[k], place(k), i);
    }
    assert forall|i: int, j: int| 0 <= i < j < ids.len() implies app_before(
        #[trigger] form[i],
        #[trigger] form[j],
    ) by {
        assert(form[i].id@ == ids[i] && form[j].id@ == ids[j]);
        assert(pinned_entry(apps, cat, ids[i]) == form[i].pinned);
        assert(pinned_entry(apps, cat, ids[j]) == form[j].pinned);
        if form[i].pinned == form[j].pinned {
            display_order_is_shown(apps, cat, ids, i, j, place(i), place(j));
        }
    }
    assert(arrangement(new_group, form, app_order(), q)) by {
        assert forall|i: int, j: int| 0 <= i < j < q.len() implies #[trigger] q[i]
            != #[trigger] q[j] by {
            assert(ids[i] != ids[j]);
        }
        assert forall|i: int, j: int| 0 <= i < j < q.len() implies app_order()(
            #[trigger] form[i],
            #[trigger] form[j],
        ) by {
            before_one_way(form[i], form[j]);
        }
        assert forall|i: int, j: int|
            0 <= i < j < q.len() && app_order()(form[j], form[i]) implies #[trigger] q[i]
            < #[trigger] q[j] by {
            assert(app_before(form[i], form[j]));
        }
    }
    assert(stably_sorted(new_group, form, app_order()));
    shown_in_is(last, cat, form);
}

/// Writing a display order into a group whose ids are all different makes the group be shown in
/// that order, if the order names pinned entries before the others.
pub proof fn group_is_shown_as_ordered(apps: Seq<AppInfo>, cat: Seq<char>, ids: Seq<Seq<char>>)
    requires
        ids_of(shown_in(apps, cat)).no_duplicates(),
        ids.no_duplicates(),
        ids.len() <= i32::MAX,
        forall|x: Seq<char>| ids.contains(x) <==> ids_of(shown_in(apps, cat)).contains(x),
        pinned_first(apps, cat, ids),
    ensures
        ids_of(shown_in(reordered(apps, cat, ids), cat)) == ids,
{
    ordered_group_shows(apps, cat, ids);
    assert(ids_of(shown_in(reordered(apps, cat, ids), cat)) =~= ids);
}

/// Whether the orders of a group's entries say how it is shown: from front to back they count
/// down to zero, and the pins of those that are pinned count up from one.
pub open spec fn orders_say_display(apps: Seq<AppInfo>, cat: Seq<char>) -> bool {
    let shown = shown_in(apps, cat);
    forall|k: int|
        0 <= k < shown.len() ==> {
            let e = #[trigger] shown[k];
            &&& e.sort_order == shown.len() - 1 - k
            &&& e.pinned ==> e.pin_order == k + 1
        }
}

proof fn pins_all_counted(apps: Seq<AppInfo>, cat: Seq<char>, ids: Seq<Seq<char>>, k: int)
    requires
        0 <= k <= ids.len(),
        forall|j: int| 0 <= j < k ==> pinned_entry(apps, cat, #[trigger] ids[j]),
    ensures
        pinned_among(apps, cat, ids, k) == k,
    decreases k,
{
    pins_bounded(apps, cat, ids, k);
    if k > 0 {
        pins_all_counted(apps, cat, ids, k - 1);
        assert(pinned_entry(apps, cat, ids[k - 1]));
        pins_grow(apps, cat, ids, k - 1, k);
    }
}

/// Writing a display order into a group whose ids are all different makes the orders of its
/// entries say how it is shown, if the order names pinned entries before the others.
pub proof fn written_orders_say_display(apps: Seq<AppInfo>, cat: Seq<char>, ids: Seq<Seq<char>>)
    requires
        ids_of(shown_in(apps, cat)).no_duplicates(),
        ids.no_duplicates(),
        ids.len() <= i32::MAX,
        forall|x: Seq<char>| ids.contains(x) <==> ids_of(shown_in(apps, cat)).contains(x),
        pinned_first(apps, cat, ids),
    ensures
        orders_say_display(reordered(apps, cat, ids), cat),
{
    let n = ids.len() as int;
    let mid = ranked(apps, cat, ids, n);
    let last = reordered(apps, cat, ids);
    let shown = shown_in(last, cat);
    ordered_group_shows(apps, cat, ids);
    ranked_changes_orders(apps, cat, ids, n);
    repinned_changes_orders(mid, cat, ids, n);
    assert forall|k: int| 0 <= k < shown.len() implies {
        let e = #[trigger] shown[k];
        &&& e.sort_order == shown.len() - 1 - k
        &&& e.pinned ==> e.pin_order == k + 1
    } by {
        let x = place_of(apps, cat, ids, k);
        ranked_at(apps, cat, ids, n, k, x);
        assert(last[x].sort_order == mid[x].sort_order);
        if shown[k].pinned {
            assert(mid[x].pinned == apps[x].pinned);
            same_entries_found(apps, mid, ids[k], cat);
            assert forall|j: int| 0 <= j < k implies pinned_entry(mid, cat, #[trigger] ids[j]) by {
                assert(pinned_entry(apps, cat, ids[k]));
                assert(pinned_entry(apps, cat, ids[j]));
                same_entries_found(apps, mid, ids[j], cat);
                first_where_means(apps, is_entry(ids[j], cat));
                let y = place_of(apps, cat, ids, j);
                assert(mid[y].pinned == apps[y].pinned);
            }
            pins_all_counted(mid, cat, ids, k);
            repinned_at(mid, cat, ids, n, k, x);
        }
    }
}

/// The display order after an entry was given a number: those below one count as one, those
/// beyond the end as the last.
pub open spec fn order_with_number(ids: Seq<Seq<char>>, id: Seq<char>, number: int) -> Seq<
    Seq<char>,
> {
    moved(ids, first_where(ids, is_text(id))->0, place_for(ids.len() as int, number))
}

/// The place, counted from zero, that a number stands for among `count`.
pub open spec fn place_for(count: int, number: int) -> int {
    if number < 1 {
        0
    } else if number > count {
        count - 1
    } else {
        number - 1
    }
}

/// Giving an entry a number in a group whose ids are all different shows it under that number,
/// if the order that results names pinned entries before the others.
pub proof fn placed_entry_is_shown_there(
    apps: Seq<AppInfo>,
    id: Seq<char>,
    cat: Seq<char>,
    number: int,
)
    requires
        ids_of(shown_in(apps, cat)).no_duplicates(),
        ids_of(shown_in(apps, cat)).contains(id),
        ids_of(shown_in(apps, cat)).len() <= i32::MAX,
        pinned_first(
            apps,
            cat,
            order_with_number(ids_of(shown_in(apps, cat)), id, number),
        ),
    ensures
        ({
            let before = ids_of(shown_in(apps, cat));
            let after = ids_of(shown_in(placed(apps, id, cat, number), cat));
            &&& after == order_with_number(before, id, number)
            &&& first_where(after, is_text(id)) == Some(place_for(before.len() as int, number))
        }),
{
    let ids = ids_of(shown_in(apps, cat));
    let is_it = is_text(id);
    let at = choose|i: int| 0 <= i < ids.len() && ids[i] == id;
    first_where_exists(ids, is_it, at);
    let cur = first_where(ids, is_it)->0;
    let to = place_for(ids.len() as int, number);
    let order = moved(ids, cur, to);
    moving_keeps_items(ids, cur, to);
    group_is_shown_as_ordered(apps, cat, order);
    assert(is_first(order, is_it, to)) by {
        assert forall|j: int| 0 <= j < to implies !is_it(#[trigger] order[j]) by {
            assert(order[j] != order[to]);
        }
    }
    first_where_found(order, is_it, to);
}

/// The order in which a group is shown names pinned entries before the others.
proof fn shown_order_is_pinned_first(apps: Seq<AppInfo>, cat: Seq<char>)
    requires
        ids_of(shown_in(apps, cat)).no_duplicates(),
    ensures
        pinned_first(apps, cat, ids_of(shown_in(apps, cat))),
{
    let p = in_category(cat);
    let shown = shown_in(apps, cat);
    let group = apps.filter(p);
    let ids = ids_of(shown);
    group_has_shown_form(apps, cat);
    let q = choose|q: Seq<int>| arrangement(group, shown, app_order(), q);
    assert forall|k: int| 0 <= k < ids.len() implies pinned_entry(apps, cat, #[trigger] ids[k])
        == shown[k].pinned by {
        let g = q[k];
        assert(shown[k] == group[g]);
        let i = filtered_item_has_place(apps, p, g);
        first_where_exists(apps, is_entry(ids[k], cat), i);
        let x = first_where(apps, is_entry(ids[k], cat))->0;
        only_entry_with_id(apps, cat, ids[k], x, i);
    }
    assert forall|i: int, j: int|
        0 <= i < j < ids.len() && pinned_entry(apps, cat, #[trigger] ids[j]) implies pinned_entry(
        apps,
        cat,
        #[trigger] ids[i],
    ) by {
        assert(app_order()(shown[i], shown[j]));
    }
}

proof fn ranked_leaves_others(apps: Seq<AppInfo>, cat: Seq<char>, ids: Seq<Seq<char>>, k: int)
    ensures
        forall|i: int|
            0 <= i < apps.len() && apps[i].category_id@ != cat ==> #[trigger] ranked(
                apps,
                cat,
                ids,
                k,
            )[i] == apps[i],
    decreases k,
{
    if k > 0 {
        ranked_leaves_others(apps, cat, ids, k - 1);
        ranked_changes_orders(apps, cat, ids, k - 1);
        let prev = ranked(apps, cat, ids, k - 1);
        first_where_means(prev, is_entry(ids[k - 1], cat));
    }
}

proof fn repinned_leaves_others(apps: Seq<AppInfo>, cat: Seq<char>, ids: Seq<Seq<char>>, k: int)
    ensures
        forall|i: int|
            0 <= i < apps.len() && apps[i].category_id@ != cat ==> #[trigger] repinned(
                apps,
                cat,
                ids,
                k,
            )[i] == apps[i],
    decreases k,
{
    if k > 0 {
        repinned_leaves_others(apps, cat, ids, k - 1);
        repinned_changes_orders(apps, cat, ids, k - 1);
        let prev = repinned(apps, cat, ids, k - 1);
        first_where_means(prev, is_entry(ids[k - 1], cat));
    }
}

proof fn same_filter(a: Seq<AppInfo>, b: Seq<AppInfo>, cat: Seq<char>)
    requires
        same_but_orders(a, b),
        forall|i: int| 0 <= i < a.len() && a[i].category_id@ == cat ==> #[trigger] b[i] == a[i],
    ensures
        a.filter(in_category(cat)) == b.filter(in_category(cat)),
    decreases a.len(),
{
    reveal(Seq::filter);
    if a.len() > 0 {
        let a1 = a.drop_last();
        let b1 = b.drop_last();
        assert forall|i: int| 0 <= i < a1.len() implies #[trigger] b1[i] == (AppInfo {
            sort_order: b1[i].sort_order,
            pin_order: b1[i].pin_order,
            ..a1[i]
        }) by {
            assert(b[i] == b1[i]);
        }
        assert forall|i: int| 0 <= i < a1.len() && a1[i].category_id@ == cat implies
            #[trigger] b1[i] == a1[i] by {
            assert(b[i] == b1[i]);
        }
        same_filter(a1, b1, cat);
        assert(b.last() == b[b.len() - 1]);
    }
}

/// Writing a display order into a group leaves the entries of other groups as they were.
pub proof fn other_entries_stay(apps: Seq<AppInfo>, cat: Seq<char>, ids: Seq<Seq<char>>)
    ensures
        forall|i: int|
            0 <= i < apps.len() && apps[i].category_id@ != cat ==> #[trigger] reordered(
                apps,
                cat,
                ids,
            )[i] == apps[i],
{
    let n = ids.len() as int;
    let mid = ranked(apps, cat, ids, n);
    ranked_leaves_others(apps, cat, ids, n);
    ranked_changes_orders(apps, cat, ids, n);
    repinned_leaves_others(mid, cat, ids, n);
    assert forall|i: int| 0 <= i < apps.len() && apps[i].category_id@ != cat implies
        #[trigger] reordered(apps, cat, ids)[i] == apps[i] by {
        assert(mid[i] == apps[i]);
    }
}

/// Writing a display order into a group changes nothing in what another group shows.
pub proof fn other_groups_stay(
    apps: Seq<AppInfo>,
    cat: Seq<char>,
    ids: Seq<Seq<char>>,
    other: Seq<char>,
)
    requires
        other != cat,
    ensures
        shown_in(reordered(apps, cat, ids), other) == shown_in(apps, other),
{
    reordering_keeps_entries(apps, cat, ids);
    other_entries_stay(apps, cat, ids);
    same_filter(apps, reordered(apps, cat, ids), other);
}

/// Writing into a group whose ids are all different the order in which it is shown changes
/// nothing in what any group shows, by the ids of its entries.
pub proof fn writing_shown_order_changes_nothing(
    apps: Seq<AppInfo>,
    cat: Seq<char>,
    other: Seq<char>,
)
    requires
        ids_of(shown_in(apps, cat)).no_duplicates(),
        ids_of(shown_in(apps, cat)).len() <= i32::MAX,
    ensures
        ids_of(shown_in(reordered(apps, cat, ids_of(shown_in(apps, cat))), other)) == ids_of(
            shown_in(apps, other),
        ),
{
    if other == cat {
        shown_order_is_pinned_first(apps, cat);
        group_is_shown_as_ordered(apps, cat, ids_of(shown_in(apps, cat)));
    } else {
        other_groups_stay(apps, cat, ids_of(shown_in(apps, cat)), other);
    }
}

/// Whether the ids of the entries of every group are all different, and not too many.
pub open spec fn ids_differ(apps: Seq<AppInfo>) -> bool {
    forall|cat: Seq<char>|
        (#[trigger] ids_of(shown_in(apps, cat))).no_duplicates() && ids_of(
            shown_in(apps, cat),
        ).len() <= i32::MAX
}

proof fn filtered_ids_differ(apps: Seq<AppInfo>, cat: Seq<char>)
    requires
        ids_of(apps).no_duplicates(),
    ensures
        ids_of(apps.filter(in_category(cat))).no_duplicates(),
        apps.filter(in_category(cat)).len() <= apps.len(),
    decreases apps.len(),
{
    reveal(Seq::filter);
    let p = in_category(cat);
    if apps.len() > 0 {
        let front = apps.drop_last();
        let group = front.filter(p);
        assert forall|i: int, j: int| 0 <= i < j < front.len() implies ids_of(front)[i]
            != ids_of(front)[j] by {
            assert(ids_of(apps)[i] != ids_of(apps)[j]);
        }
        filtered_ids_differ(front, cat);
        assert forall|k: int| 0 <= k < group.len() implies (#[trigger] group[k]).id@
            != apps.last().id@ by {
            let i = filtered_item_has_place(front, p, k);
            assert(ids_of(apps)[i] != ids_of(apps)[apps.len() - 1]);
        }
        if p(apps.last()) {
            assert(apps.filter(p) =~= group.push(apps.last()));
            let ids = ids_of(apps.filter(p));
            assert forall|i: int, j: int| 0 <= i < j < ids.len() implies ids[i] != ids[j] by {
                if j < group.len() {
                    assert(ids_of(group)[i] != ids_of(group)[j]);
                } else {
                    assert(group[i].id@ != apps.last().id@);
                }
            }
        }
    }
}

/// Where the ids of all entries are different, those of every group are.
pub proof fn different_ids_differ_in_groups(apps: Seq<AppInfo>)
    requires
        ids_of(apps).no_duplicates(),
        apps.len() <= i32::MAX,
    ensures
        ids_differ(apps),
{
    assert forall|cat: Seq<char>|
        (#[trigger] ids_of(shown_in(apps, cat))).no_duplicates() && ids_of(
            shown_in(apps, cat),
        ).len() <= i32::MAX by {
        let group = apps.filter(in_category(cat));
        let shown = shown_in(apps, cat);
        group_has_shown_form(apps, cat);
        filtered_ids_differ(apps, cat);
        let q = choose|q: Seq<int>| arrangement(group, shown, app_order(), q);
        assert forall|i: int, j: int| 0 <= i < j < shown.len() implies ids_of(shown)[i]
            != ids_of(shown)[j] by {
            assert(q[i] != q[j]);
            assert(shown[i] == group[q[i]] && shown[j] == group[q[j]]);
            assert(ids_of(group)[q[i]] != ids_of(group)[q[j]]);
        }
    }
}

/// Giving groups without an order the one in which they are shown changes nothing in what any
/// group shows, by the ids of its entries.
pub proof fn filling_orders_keeps_display(
    apps: Seq<AppInfo>,
    cats: Seq<Seq<char>>,
    k: int,
    cat: Seq<char>,
)
    requires
        ids_differ(apps),
    ensures
        ids_of(shown_in(orders_filled(apps, cats, k), cat)) == ids_of(shown_in(apps, cat)),
    decreases k,
{
    if k > 0 {
        let prev = orders_filled(apps, cats, k - 1);
        let c = cats[k - 1];
        filling_orders_keeps_display(apps, cats, k - 1, cat);
        filling_orders_keeps_display(apps, cats, k - 1, c);
        assert(ids_of(shown_in(apps, c)).no_duplicates());
        writing_shown_order_changes_nothing(prev, c, cat);
    }
}

proof fn filling_changes_orders(apps: Seq<AppInfo>, cats: Seq<Seq<char>>, k: int)
    ensures
        same_but_orders(apps, orders_filled(apps, cats, k)),
    decreases k,
{
    if k > 0 {
        let prev = orders_filled(apps, cats, k - 1);
        let last = orders_filled(apps, cats, k);
        filling_changes_orders(apps, cats, k - 1);
        reordering_keeps_entries(prev, cats[k - 1], ids_of(shown_in(prev, cats[k - 1])));
        assert forall|i: int| 0 <= i < apps.len() implies #[trigger] last[i] == (AppInfo {
            sort_order: last[i].sort_order,
            pin_order: last[i].pin_order,
            ..apps[i]
        }) by {
            assert(prev[i] == (AppInfo {
                sort_order: prev[i].sort_order,
                pin_order: prev[i].pin_order,
                ..apps[i]
            }));
        }
    }
}

/// Whether one of the first `k` groups is the given one.
pub open spec fn listed_among(cats: Seq<Seq<char>>, k: int, cat: Seq<char>) -> bool {
    exists|j: int| 0 <= j < k && #[trigger] cats[j] == cat
}

proof fn filling_leaves_others(
    apps: Seq<AppInfo>,
    cats: Seq<Seq<char>>,
    k: int,
    cat: Seq<char>,
)
    requires
        !listed_among(cats, k, cat) || !unordered_group(apps.filter(in_category(cat))),
    ensures
        forall|i: int|
            0 <= i < apps.len() && apps[i].category_id@ == cat ==> #[trigger] orders_filled(
                apps,
                cats,
                k,
            )[i] == apps[i],
        orders_filled(apps, cats, k).filter(in_category(cat)) == apps.filter(in_category(cat)),
    decreases k,
{
    if k > 0 {
        let prev = orders_filled(apps, cats, k - 1);
        let c = cats[k - 1];
        filling_leaves_others(apps, cats, k - 1, cat);
        filling_changes_orders(apps, cats, k - 1);
        other_entries_stay(prev, c, ids_of(shown_in(prev, c)));
        assert(c == cat ==> listed_among(cats, k, cat));
        assert forall|i: int| 0 <= i < apps.len() && apps[i].category_id@ == cat implies
            #[trigger] orders_filled(apps, cats, k)[i] == apps[i] by {
            assert(prev[i] == apps[i]);
        }
    }
    filling_changes_orders(apps, cats, k);
    same_filter(apps, orders_filled(apps, cats, k), cat);
}

/// Entries of groups that are not listed, and of those that have an order, stay as they were when
/// groups without an order are given one.
pub proof fn ordered_groups_stay(apps: Seq<AppInfo>, cats: Seq<Seq<char>>, i: int)
    requires
        0 <= i < apps.len(),
        !cats.contains(apps[i].category_id@) || !unordered_group(
            apps.filter(in_category(apps[i].category_id@)),
        ),
    ensures
        orders_filled(apps, cats, cats.len() as int)[i] == apps[i],
{
    filling_leaves_others(apps, cats, cats.len() as int, apps[i].category_id@);
}

/// A group whose orders say how it is shown is not one without an order.
proof fn told_group_has_order(apps: Seq<AppInfo>, cat: Seq<char>)
    requires
        orders_say_display(apps, cat),
    ensures
        !unordered_group(apps.filter(in_category(cat))),
{
    let group = apps.filter(in_category(cat));
    let shown = shown_in(apps, cat);
    group_has_shown_form(apps, cat);
    sorting_keeps_items(group, shown, app_order());
    if group.len() > 1 {
        assert(shown.contains(shown[0]));
        let g = choose|g: int| 0 <= g < group.len() && group[g] == shown[0];
        assert(group[g].sort_order != 0);
    }
}

proof fn filling_tells_display(
    apps: Seq<AppInfo>,
    cats: Seq<Seq<char>>,
    k: int,
    cat: Seq<char>,
)
    requires
        ids_differ(apps),
        listed_among(cats, k, cat),
        unordered_group(apps.filter(in_category(cat))),
    ensures
        orders_say_display(orders_filled(apps, cats, k), cat),
    decreases k,
{
    if k > 0 {
        let prev = orders_filled(apps, cats, k - 1);
        let c = cats[k - 1];
        let ids = ids_of(shown_in(prev, c));
        if listed_among(cats, k - 1, cat) {
            filling_tells_display(apps, cats, k - 1, cat);
            if c == cat {
                told_group_has_order(prev, cat);
            } else {
                other_groups_stay(prev, c, ids, cat);
            }
        } else {
            assert(c == cat);
            filling_leaves_others(apps, cats, k - 1, cat);
            filling_orders_keeps_display(apps, cats, k - 1, cat);
            assert(ids_of(shown_in(apps, cat)).no_duplicates());
            shown_order_is_pinned_first(prev, cat);
            written_orders_say_display(prev, cat, ids);
        }
    }
}

/// Each listed group that had no order has, once it is given one, orders that say how it is
/// shown.
pub proof fn filled_orders_say_display(apps: Seq<AppInfo>, cats: Seq<Seq<char>>, cat: Seq<char>)
    requires
        ids_differ(apps),
        cats.contains(cat),
        unordered_group(apps.filter(in_category(cat))),
    ensures
        orders_say_display(orders_filled(apps, cats, cats.len() as int), cat),
{
    let j = choose|j: int| 0 <= j < cats.len() && cats[j] == cat;
    assert(listed_among(cats, cats.len() as int, cats[j]));
    filling_tells_display(apps, cats, cats.len() as int, cat);
}

proof fn filled_entries_stay(apps: Seq<AppInfo>, cats: Seq<Seq<char>>, k: int)
    requires
        ids_differ(apps),
        k <= cats.len(),
    ensures
        ({
            let last = orders_filled(apps, cats, cats.len() as int);
            orders_filled(last, cats, k) == last
        }),
    decreases k,
{
    if k > 0 {
        let n = cats.len() as int;
        let last = orders_filled(apps, cats, n);
        let c = cats[k - 1];
        filled_entries_stay(apps, cats, k - 1);
        assert(cats.contains(c));
        if unordered_group(apps.filter(in_category(c))) {
            filled_orders_say_display(apps, cats, c);
            told_group_has_order(last, c);
        } else {
            filling_leaves_others(apps, cats, n, c);
        }
    }
}

/// Giving groups without an order one, a second time, changes nothing.
pub proof fn filling_orders_twice_changes_nothing(apps: Seq<AppInfo>, cats: Seq<Seq<char>>)
    requires
        ids_differ(apps),
    ensures
        ({
            let last = orders_filled(apps, cats, cats.len() as int);
            orders_filled(last, cats, cats.len() as int) == last
        }),
{
    filled_entries_stay(apps, cats, cats.len() as int);
}

/// The entries of a group have a sorted form.
proof fn group_has_shown_form(apps: Seq<AppInfo>, cat: Seq<char>)
    ensures
        stably_sorted(apps.filter(in_category(cat)), shown_in(apps, cat), app_order()),
{
    app_order_is_total();
    every_list_has_sorted_form(apps.filter(in_category(cat)), app_order());
}

/// Of a group whose ids are all different, one entry only has a given id.
proof fn only_entry_with_id(
    apps: Seq<AppInfo>,
    cat: Seq<char>,
    id: Seq<char>,
    x: int,
    y: int,
)
    requires
        ids_of(shown_in(apps, cat)).no_duplicates(),
        0 <= x < apps.len(),
        0 <= y < apps.len(),
        is_entry(id, cat)(apps[x]),
        is_entry(id, cat)(apps[y]),
    ensures
        x == y,
{
    let p = in_category(cat);
    group_has_shown_form(apps, cat);
    let shown = shown_in(apps, cat);
    let group = apps.filter(p);
    let q = choose|q: Seq<int>| arrangement(group, shown, app_order(), q);
    if x != y {
        let (a, b) = if x < y {
            (x, y)
        } else {
            (y, x)
        };
        let (i, j) = two_filtered_places(apps, p, a, b);
        let k = arrangement_names_every_place(group, shown, app_order(), q, i);
        let l = arrangement_names_every_place(group, shown, app_order(), q, j);
        assert(shown[k] == group[i]);
        assert(shown[l] == group[j]);
        assert(ids_of(shown)[k] == id);
        assert(ids_of(shown)[l] == id);
    }
}

/// Two places of a list at which a property holds have two places in the filtered list.
proof fn two_filtered_places(
    s: Seq<AppInfo>,
    p: spec_fn(AppInfo) -> bool,
    x: int,
    y: int,
) -> (r: (int, int))
    requires
        0 <= x < y < s.len(),
        p(s[x]),
        p(s[y]),
    ensures
        0 <= r.0 < r.1 < s.filter(p).len(),
        s.filter(p)[r.0] == s[x],
        s.filter(p)[r.1] == s[y],
    decreases s.len(),
{
    reveal(Seq::filter);
    let t = s.drop_last();
    if y < s.len() - 1 {
        two_filtered_places(t, p, x, y)
    } else {
        assert(s.last() == s[y]);
        assert(t[x] == s[x]);
        t.lemma_filter_contains(p, x);
        let i = choose|i: int| 0 <= i < t.filter(p).len() && t.filter(p)[i] == s[x];
        (i, t.filter(p).len() as int)
    }
}

} // verus!

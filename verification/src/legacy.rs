//! Orders of entries other than the one in which they are shown, and bringing older stored
//! orders up to date.

use vstd::prelude::*;

use crate::catalog::{
    assign_sort_orders_from_display_order, ids_of, in_category, reordered, shown_ids, shown_in,
};
use crate::models::{AppInfo, UserConfig};
use crate::ordering::{
    comes_before, stable_sort, stably_sorted, text_before, text_order_is_total,
    text_order_is_transitive, total_preorder,
};
use crate::text::same_text;

verus! {

// ---------------------------------------------------------------------------------------------
// Groups without an order
// ---------------------------------------------------------------------------------------------

/// Whether a group holds more than one entry and none was given an order.
pub open spec fn unordered_group(group: Seq<AppInfo>) -> bool {
    group.len() > 1 && forall|i: int| 0 <= i < group.len() ==> (#[trigger] group[i]).sort_order == 0
}

/// The entries after the first `k` groups that had no order were given the one in which they are
/// shown.
pub open spec fn orders_filled(apps: Seq<AppInfo>, cats: Seq<Seq<char>>, k: int) -> Seq<AppInfo>
    decreases k,
{
    if k <= 0 {
        apps
    } else {
        let prev = orders_filled(apps, cats, k - 1);
        if unordered_group(prev.filter(in_category(cats[k - 1]))) {
            reordered(prev, cats[k - 1], ids_of(shown_in(prev, cats[k - 1])))
        } else {
            prev
        }
    }
}

/// Whether the group holds more than one entry and none was given an order.
fn lacks_order(apps: &Vec<AppInfo>, cat_id: &str) -> (r: bool)
    ensures
        r == unordered_group(apps@.filter(in_category(cat_id@))),
{
    let ghost p = in_category(cat_id@);
    let mut count: usize = 0;
    let mut all_zero = true;
    let mut i: usize = 0;
    proof {
        crate::lists::filter_of_nothing(apps@, p);
    }
    while i < apps.len()
        invariant
            i <= apps@.len(),
            p == in_category(cat_id@),
            count <= i,
            count == apps@.take(i as int).filter(p).len(),
            all_zero == (forall|k: int|
                0 <= k < count ==> (#[trigger] apps@.take(i as int).filter(p)[k]).sort_order == 0),
        decreases apps@.len() - i,
    {
        proof {
            crate::lists::filter_grows(apps@, p, i as int);
        }
        let ghost before = apps@.take(i as int).filter(p);
        let ghost after = apps@.take(i + 1).filter(p);
        if same_text(apps[i].category_id.as_str(), cat_id) {
            assert(after[count as int] == apps@[i as int]);
            assert(forall|k: int| 0 <= k < count ==> after[k] == before[k]);
            if apps[i].sort_order != 0 {
                all_zero = false;
            } else if all_zero {
                assert forall|k: int| 0 <= k < count + 1 implies (#[trigger] after[k]).sort_order
                    == 0 by {
                    if k < count {
                        assert(after[k] == before[k]);
                    }
                }
            } else {
                proof {
                    let k = choose|k: int|
                        0 <= k < count && (#[trigger] before[k]).sort_order != 0;
                    assert(after[k].sort_order != 0);
                }
            }
            count = count + 1;
        }
        i = i + 1;
    }
    assert(apps@.take(i as int) =~= apps@);
    count > 1 && all_zero
}

/// The ids of the groups.
pub open spec fn category_ids(config: UserConfig) -> Seq<Seq<char>> {
    config.categories@.map_values(|c: crate::models::Category| c.id@)
}

/// Settings stored before entries could be ordered hold no order: each group in which all orders
/// are zero is given the one in which its entries are shown.
pub fn normalize_legacy_zero_sort_orders(config: &mut UserConfig)
    ensures
        final(config).apps@ == orders_filled(
            old(config).apps@,
            category_ids(*old(config)),
            old(config).categories@.len() as int,
        ),
        *final(config) == (UserConfig { apps: final(config).apps, ..*old(config) }),
{
    let ghost cats = category_ids(*config);
    let ghost start = config.apps@;
    let n = config.categories.len();
    let mut k: usize = 0;
    while k < n
        invariant
            k <= n,
            n == old(config).categories@.len(),
            cats == category_ids(*old(config)),
            *config == (UserConfig { apps: config.apps, ..*old(config) }),
            config.apps@ == orders_filled(start, cats, k as int),
        decreases n - k,
    {
        let cat_id = config.categories[k].id.clone();
        assert(cats[k as int] == cat_id@);
        if lacks_order(&config.apps, cat_id.as_str()) {
            let ids = shown_ids(&config.apps, cat_id.as_str());
            assign_sort_orders_from_display_order(&mut config.apps, cat_id.as_str(), &ids);
        }
        k = k + 1;
    }
}

// ---------------------------------------------------------------------------------------------
// The order by group
// ---------------------------------------------------------------------------------------------

/// Whether entry `a` comes before entry `b` in the order by group: by group; pinned entries
/// first, in the order in which they were pinned; then the more often used; then by the order
/// set by hand, smaller first; then by name.
pub open spec fn grouped_before(a: AppInfo, b: AppInfo) -> bool {
    if a.category_id@ != b.category_id@ {
        text_before(a.category_id@, b.category_id@)
    } else if a.pinned != b.pinned {
        a.pinned
    } else if a.pinned && a.pin_order != b.pin_order {
        a.pin_order < b.pin_order
    } else if a.exec_count != b.exec_count {
        a.exec_count > b.exec_count
    } else if a.sort_order != b.sort_order {
        a.sort_order < b.sort_order
    } else {
        text_before(a.name@, b.name@)
    }
}

/// The order by group as a relation.
pub open spec fn grouped_order() -> spec_fn(AppInfo, AppInfo) -> bool {
    |a: AppInfo, b: AppInfo| !grouped_before(b, a)
}

/// The order by group is a total preorder.
pub proof fn grouped_order_is_total()
    ensures
        total_preorder(grouped_order()),
{
    let le = grouped_order();
    assert forall|a: AppInfo, b: AppInfo| #[trigger] le(a, b) || le(b, a) by {
        text_order_is_total(a.name@, b.name@);
        text_order_is_total(a.category_id@, b.category_id@);
    }
    assert forall|a: AppInfo, b: AppInfo, c: AppInfo| #[trigger] le(a, b) && #[trigger] le(b, c)
        implies le(a, c) by {
        passes_on(a.name@, b.name@, c.name@);
        passes_on(a.category_id@, b.category_id@, c.category_id@);
    }
}

proof fn passes_on(a: Seq<char>, b: Seq<char>, c: Seq<char>)
    ensures
        text_before(a, b) || text_before(b, a) || a == b,
        text_before(b, c) || text_before(c, b) || b == c,
        text_before(a, c) || text_before(c, a) || a == c,
        !(text_before(a, b) && text_before(b, a)),
        !(text_before(b, c) && text_before(c, b)),
        !(text_before(a, c) && text_before(c, a)),
        !text_before(a, a),
        !text_before(b, b),
        !text_before(c, c),
        text_before(a, b) && text_before(b, c) ==> text_before(a, c),
{
    text_order_is_total(a, b);
    text_order_is_total(b, c);
    text_order_is_total(a, c);
    text_order_is_total(c, b);
    if text_before(a, b) && text_before(b, c) {
        text_order_is_transitive(a, b, c);
    }
}

fn comes_before_grouped(a: &AppInfo, b: &AppInfo) -> (r: bool)
    ensures
        r == grouped_before(*a, *b),
{
    if !same_text(a.category_id.as_str(), b.category_id.as_str()) {
        comes_before(a.category_id.as_str(), b.category_id.as_str())
    } else if a.pinned != b.pinned {
        a.pinned
    } else if a.pinned && a.pin_order != b.pin_order {
        a.pin_order < b.pin_order
    } else if a.exec_count != b.exec_count {
        a.exec_count > b.exec_count
    } else if a.sort_order != b.sort_order {
        a.sort_order < b.sort_order
    } else {
        comes_before(a.name.as_str(), b.name.as_str())
    }
}

/// Puts the entries in the order by group.
pub fn sort_apps_for_display(apps: &mut Vec<AppInfo>)
    ensures
        stably_sorted(old(apps)@, final(apps)@, grouped_order()),
{
    proof {
        grouped_order_is_total();
    }
    let f = |a: &AppInfo, b: &AppInfo| -> (r: bool)
        ensures
            r == grouped_order()(*a, *b),
        { !comes_before_grouped(b, a) };
    stable_sort(apps, f, Ghost(grouped_order()));
}

// ---------------------------------------------------------------------------------------------
// The order of a loaded list
// ---------------------------------------------------------------------------------------------

/// Whether entry `a` comes before entry `b` in a list that was just loaded: by the order set by
/// hand, larger first; then the more often used; then by name.
pub open spec fn loaded_before(a: AppInfo, b: AppInfo) -> bool {
    if a.sort_order != b.sort_order {
        a.sort_order > b.sort_order
    } else if a.exec_count != b.exec_count {
        a.exec_count > b.exec_count
    } else {
        text_before(a.name@, b.name@)
    }
}

/// The order of a loaded list as a relation.
pub open spec fn loaded_order() -> spec_fn(AppInfo, AppInfo) -> bool {
    |a: AppInfo, b: AppInfo| !loaded_before(b, a)
}

/// The order of a loaded list is a total preorder.
pub proof fn loaded_order_is_total()
    ensures
        total_preorder(loaded_order()),
{
    let le = loaded_order();
    assert forall|a: AppInfo, b: AppInfo| #[trigger] le(a, b) || le(b, a) by {
        text_order_is_total(a.name@, b.name@);
    }
    assert forall|a: AppInfo, b: AppInfo, c: AppInfo| #[trigger] le(a, b) && #[trigger] le(b, c)
        implies le(a, c) by {
        passes_on(a.name@, b.name@, c.name@);
    }
}

fn comes_before_loaded(a: &AppInfo, b: &AppInfo) -> (r: bool)
    ensures
        r == loaded_before(*a, *b),
{
    if a.sort_order != b.sort_order {
        a.sort_order > b.sort_order
    } else if a.exec_count != b.exec_count {
        a.exec_count > b.exec_count
    } else {
        comes_before(a.name.as_str(), b.name.as_str())
    }
}

/// Puts a list that was just loaded in order.
pub fn sort_loaded_apps(apps: &mut Vec<AppInfo>)
    ensures
        stably_sorted(old(apps)@, final(apps)@, loaded_order()),
{
    proof {
        loaded_order_is_total();
    }
    let f = |a: &AppInfo, b: &AppInfo| -> (r: bool)
        ensures
            r == loaded_order()(*a, *b),
        { !comes_before_loaded(b, a) };
    stable_sort(apps, f, Ghost(loaded_order()));
}

} // verus!

//! What holds of groups and their locks, whatever the groups: which group is shown, when a password
//! is asked for, what opens a lock, and what adding, naming, moving and deleting leave.

use vstd::prelude::*;
use vstd::utf8::encode_utf8;

use crate::config::{category_order, sort_categories};
use crate::groups::{
    add_category_at, category_at, category_fallback_id, category_name_by_id, category_requires_unlock, category_rows,
    category_shown, category_title, change_category, confirm_password, delete_category_at,
    numbered_groups_are_shown_as_they_stand, parse_color, password_mode, rename_category,
    reorder_categories_vec, reorder_category, resolve_category_id_input, sorted_categories, with_id,
    with_name, CategoryChange, CategoryRow, DeletedCategory, PasswordMode, PasswordOutcome,
};
use crate::lists::{first_where_exists, first_where_means};
use crate::models::{AppInfo, Category, UserConfig};
use crate::numbers::parse_hex_pair;
use crate::ordering::{arrangement, every_list_has_sorted_form, sorting_keeps_items, total_preorder};
use crate::text::texts;

verus! {

// ---------------------------------------------------------------------------------------------
// Which group is meant
// ---------------------------------------------------------------------------------------------

/// The group that is chosen is shown, if it is there.
pub proof fn chosen_group_is_shown(cats: &Vec<Category>, selected: &str, r: String, i: int)
    requires
        call_ensures(category_shown, (cats, selected), r),
        0 <= i < cats@.len(),
        cats@[i].id@ == selected@,
        selected@.len() > 0,
    ensures
        r@ == selected@,
{
    first_where_exists(cats@, with_id(selected@), i);
}

/// The group that is shown where none is chosen is the one shown instead of a group that is not
/// there.
pub proof fn one_group_is_shown_instead(
    cats: &Vec<Category>,
    r: String,
    selected: &str,
    shown: String,
)
    requires
        call_ensures(category_fallback_id, (cats,), r),
        call_ensures(category_shown, (cats, selected), shown),
        selected@.len() == 0 || forall|j: int|
            0 <= j < cats@.len() ==> (#[trigger] cats@[j]).id@ != selected@,
    ensures
        r@ == shown@,
{
    first_where_means(cats@, with_id(selected@));
}

/// Where the chosen group is not there, the group with the lowest order is shown, and of several
/// the one that stands first; where there is no group, none.
pub proof fn lowest_group_is_shown_instead(cats: &Vec<Category>, selected: &str, r: String, i: int)
    requires
        call_ensures(category_shown, (cats, selected), r),
        selected@.len() == 0 || forall|j: int|
            0 <= j < cats@.len() ==> (#[trigger] cats@[j]).id@ != selected@,
    ensures
        cats@.len() == 0 ==> r@.len() == 0,
        0 <= i < cats@.len() && (forall|j: int|
            0 <= j < cats@.len() ==> cats@[i].sort_order <= (#[trigger] cats@[j]).sort_order) && (
        forall|j: int| 0 <= j < i ==> cats@[i].sort_order < (#[trigger] cats@[j]).sort_order)
            ==> r@ == cats@[i].id@,
{
    first_where_means(cats@, with_id(selected@));
    if 0 <= i < cats@.len() && (forall|j: int|
        0 <= j < cats@.len() ==> cats@[i].sort_order <= (#[trigger] cats@[j]).sort_order) && (
    forall|j: int| 0 <= j < i ==> cats@[i].sort_order < (#[trigger] cats@[j]).sort_order) {
        assert(crate::groups::is_lowest(cats@, i));
        let k = choose|k: int| crate::groups::is_lowest(cats@, k);
        assert(crate::groups::is_lowest(cats@, k));
        assert(k == i);
    }
}

/// A text that names a group by its id means that group; one that does so by its name means the
/// first group of the name; any other means itself.
pub proof fn group_is_meant_by_id_or_name(cats: &Vec<Category>, input: &str, r: String, i: int)
    requires
        call_ensures(resolve_category_id_input, (cats, input), r),
    ensures
        0 <= i < cats@.len() && cats@[i].id@ == input@ && input@.len() > 0 ==> r@ == input@,
        0 <= i < cats@.len() && cats@[i].name@ == input@ && (forall|j: int|
            0 <= j < i ==> (#[trigger] cats@[j]).name@ != input@) && (forall|j: int|
            0 <= j < cats@.len() ==> (#[trigger] cats@[j]).id@ != input@) ==> r@ == cats@[i].id@,
        (forall|j: int|
            0 <= j < cats@.len() ==> (#[trigger] cats@[j]).id@ != input@ && cats@[j].name@
                != input@) ==> r@ == input@,
{
    first_where_means(cats@, with_id(input@));
    first_where_means(cats@, with_name(input@));
    if 0 <= i < cats@.len() {
        if cats@[i].id@ == input@ {
            first_where_exists(cats@, with_id(input@), i);
        }
        if cats@[i].name@ == input@ {
            first_where_exists(cats@, with_name(input@), i);
        }
    }
}

/// A group is called by its name; what is no group by its id, or by nothing.
pub proof fn group_is_called_by_name(cats: &Vec<Category>, id: &str, r: String, t: String, i: int)
    requires
        call_ensures(category_name_by_id, (cats, id), r),
        call_ensures(category_title, (cats, id), t),
    ensures
        0 <= i < cats@.len() && cats@[i].id@ == id@ && (forall|j: int|
            0 <= j < i ==> (#[trigger] cats@[j]).id@ != id@) ==> r@ == cats@[i].name@ && t@
            == cats@[i].name@,
        (forall|j: int| 0 <= j < cats@.len() ==> (#[trigger] cats@[j]).id@ != id@) ==> r@ == id@
            && t@.len() == 0,
{
    first_where_means(cats@, with_id(id@));
    if 0 <= i < cats@.len() && cats@[i].id@ == id@ {
        first_where_exists(cats@, with_id(id@), i);
    }
}

// ---------------------------------------------------------------------------------------------
// Locks
// ---------------------------------------------------------------------------------------------

/// A password is asked for just where the group has one that is not empty and the group was not
/// unlocked; what is no group asks for none.
pub proof fn password_is_asked_for(
    cats: &Vec<Category>,
    unlocked: &Vec<String>,
    id: &str,
    r: bool,
    i: int,
)
    requires
        call_ensures(category_requires_unlock, (cats, unlocked, id), r),
    ensures
        0 <= i < cats@.len() && cats@[i].id@ == id@ && (forall|j: int|
            0 <= j < i ==> (#[trigger] cats@[j]).id@ != id@) ==> (r <==> cats@[i].password is Some
            && cats@[i].password->0@.len() > 0 && forall|k: int|
            0 <= k < unlocked@.len() ==> (#[trigger] unlocked@[k])@ != id@),
        (forall|j: int| 0 <= j < cats@.len() ==> (#[trigger] cats@[j]).id@ != id@) ==> !r,
{
    first_where_means(cats@, with_id(id@));
    let all = texts(unlocked@);
    assert(all.contains(id@) <==> exists|k: int|
        0 <= k < unlocked@.len() && (#[trigger] unlocked@[k])@ == id@) by {
        if all.contains(id@) {
            let k = choose|k: int| 0 <= k < all.len() && all[k] == id@;
            assert(unlocked@[k]@ == id@);
        }
        if exists|k: int| 0 <= k < unlocked@.len() && (#[trigger] unlocked@[k])@ == id@ {
            let k = choose|k: int| 0 <= k < unlocked@.len() && (#[trigger] unlocked@[k])@ == id@;
            assert(all[k] == id@);
        }
    }
    if 0 <= i < cats@.len() && cats@[i].id@ == id@ {
        first_where_exists(cats@, with_id(id@), i);
    }
}

/// A group that was left asks for its password again, whichever group is chosen next; the others
/// ask as they did. The next group opens just where it asks for none, and keeps what is searched
/// for only while the entries are searched.
pub proof fn left_group_is_locked_again(
    cats: &Vec<Category>,
    unlocked: &mut Vec<String>,
    prev: &str,
    next: &str,
    scope: i32,
    search: &str,
    r: CategoryChange,
)
    requires
        call_ensures(change_category, (cats, unlocked, prev, next, scope, search), r),
        prev@ != next@,
    ensures
        prev@.len() > 0 ==> !texts(final(unlocked)@).contains(prev@),
        forall|id: Seq<char>|
            id != prev@ ==> (#[trigger] texts(final(unlocked)@).contains(id) <==> texts(
                old(unlocked)@,
            ).contains(id)),
        !(r is Stay),
        r is Open && scope == 0 ==> r->search@ == search@,
        r is Open && scope != 0 ==> r->search@.len() == 0,
        ({
            let group = category_at(cats@, next@);
            let locked = group is Some && group->0.password is Some
                && group->0.password->0@.len() > 0 && !texts(old(unlocked)@).contains(next@);
            &&& r is AskPassword <==> locked
            &&& r is AskPassword ==> r->name@ == group->0.name@
        }),
{
}

/// Choosing the group that is chosen already changes nothing.
pub proof fn same_group_stays(
    cats: &Vec<Category>,
    unlocked: &mut Vec<String>,
    prev: &str,
    next: &str,
    scope: i32,
    search: &str,
    r: CategoryChange,
)
    requires
        call_ensures(change_category, (cats, unlocked, prev, next, scope, search), r),
        prev@ == next@,
    ensures
        r is Stay,
        final(unlocked)@ == old(unlocked)@,
{
}

/// Zero asks for a lock, two for taking it off, and every other number for entering.
pub proof fn numbers_of_password_modes(n: i32, r: PasswordMode)
    requires
        call_ensures(password_mode, (n,), r),
    ensures
        r == PasswordMode::Lock <==> n == 0,
        r == PasswordMode::Clear <==> n == 2,
        r == PasswordMode::Enter <==> n != 0 && n != 2,
{
}

/// A locked group is entered just with its password: not with another, not with an empty one, and
/// not with the administrator's. Entering unlocks the group and no other, and changes no group.
pub proof fn only_its_password_enters_a_group(
    cats: &mut Vec<Category>,
    unlocked: &mut Vec<String>,
    id: &str,
    password: &str,
    selected: &str,
    r: PasswordOutcome,
    i: int,
)
    requires
        call_ensures(
            confirm_password,
            (cats, unlocked, PasswordMode::Enter, id, password, selected),
            r,
        ),
        0 <= i < old(cats)@.len(),
        old(cats)@[i].id@ == id@,
        forall|j: int| 0 <= j < i ==> (#[trigger] old(cats)@[j]).id@ != id@,
    ensures
        r == PasswordOutcome::Entered <==> password@.len() > 0 && old(cats)@[i].password is Some
            && old(cats)@[i].password->0@ == password@,
        password@.len() == 0 <==> r == PasswordOutcome::Missing,
        r == PasswordOutcome::Entered || r == PasswordOutcome::Missing || r
            == PasswordOutcome::Wrong,
        final(cats)@ == old(cats)@,
        forall|other: Seq<char>|
            #[trigger] texts(final(unlocked)@).contains(other) <==> texts(old(unlocked)@).contains(
                other,
            ) || (other == id@ && r == PasswordOutcome::Entered),
{
    first_where_exists(old(cats)@, with_id(id@), i);
    first_where_means(old(cats)@, with_id(id@));
    assert(texts(final((cats, unlocked, PasswordMode::Enter, id, password, selected).1)@) == texts(
        final(unlocked)@,
    ));
}

/// A lock is taken off just with its password or with the administrator's; the group is then
/// without a password, no other group changes, and nothing else of it does.
pub proof fn lock_is_taken_off(
    cats: &mut Vec<Category>,
    unlocked: &mut Vec<String>,
    id: &str,
    password: &str,
    selected: &str,
    r: PasswordOutcome,
    i: int,
)
    requires
        call_ensures(
            confirm_password,
            (cats, unlocked, PasswordMode::Clear, id, password, selected),
            r,
        ),
        0 <= i < old(cats)@.len(),
        old(cats)@[i].id@ == id@,
        forall|j: int| 0 <= j < i ==> (#[trigger] old(cats)@[j]).id@ != id@,
    ensures
        r == PasswordOutcome::Cleared <==> password@.len() > 0 && old(cats)@[i].password is Some
            && (old(cats)@[i].password->0@ == password@ || password@ == "yian123"@),
        r == PasswordOutcome::NotLocked <==> password@.len() > 0 && old(cats)@[i].password is None,
        r == PasswordOutcome::Missing <==> password@.len() == 0,
        r == PasswordOutcome::Cleared ==> final(cats)@ == old(cats)@.update(
            i,
            Category { password: None, ..old(cats)@[i] },
        ) && !texts(final(unlocked)@).contains(id@),
        r != PasswordOutcome::Cleared ==> final(cats)@ == old(cats)@,
        forall|other: Seq<char>|
            other != id@ ==> (#[trigger] texts(final(unlocked)@).contains(other) <==> texts(
                old(unlocked)@,
            ).contains(other)),
{
    first_where_exists(old(cats)@, with_id(id@), i);
    first_where_means(old(cats)@, with_id(id@));
    assert(texts(final((cats, unlocked, PasswordMode::Clear, id, password, selected).1)@) == texts(
        final(unlocked)@,
    ));
    if r == PasswordOutcome::Cleared {
        assert(final(cats)@[i].password is None);
    }
}

/// A lock is put on just where there is none and a password is entered; the group then has that
/// password, no other group changes, and it stays open while it is the one that is shown.
pub proof fn lock_is_put_on(
    cats: &mut Vec<Category>,
    unlocked: &mut Vec<String>,
    id: &str,
    password: &str,
    selected: &str,
    r: PasswordOutcome,
    i: int,
)
    requires
        call_ensures(
            confirm_password,
            (cats, unlocked, PasswordMode::Lock, id, password, selected),
            r,
        ),
        0 <= i < old(cats)@.len(),
        old(cats)@[i].id@ == id@,
        forall|j: int| 0 <= j < i ==> (#[trigger] old(cats)@[j]).id@ != id@,
    ensures
        r == PasswordOutcome::Locked <==> password@.len() > 0 && (old(cats)@[i].password is None
            || old(cats)@[i].password->0@.len() == 0),
        r == PasswordOutcome::Missing <==> password@.len() == 0,
        r == PasswordOutcome::Locked || r == PasswordOutcome::Missing || r
            == PasswordOutcome::AlreadyLocked,
        r == PasswordOutcome::Locked ==> final(cats)@ == old(cats)@.update(
            i,
            Category { password: final(cats)@[i].password, ..old(cats)@[i] },
        ) && final(cats)@[i].password is Some && final(cats)@[i].password->0@ == password@,
        r != PasswordOutcome::Locked ==> final(cats)@ == old(cats)@,
        forall|other: Seq<char>|
            #[trigger] texts(final(unlocked)@).contains(other) <==> texts(old(unlocked)@).contains(
                other,
            ) || (other == id@ && selected@ == id@ && r == PasswordOutcome::Locked),
{
    first_where_exists(old(cats)@, with_id(id@), i);
    first_where_means(old(cats)@, with_id(id@));
    assert(texts(final((cats, unlocked, PasswordMode::Lock, id, password, selected).1)@) == texts(
        final(unlocked)@,
    ));
}

// ---------------------------------------------------------------------------------------------
// Adding, naming and deleting
// ---------------------------------------------------------------------------------------------

/// A group that is added stands behind the others, has the name that was given, is shown, and has
/// no lock; the others stay as they are. Groups made at different moments have different ids.
pub proof fn added_group_stands_behind(
    cats: &mut Vec<Category>,
    name: &str,
    millis: i64,
    others: &mut Vec<Category>,
    other_name: &str,
    other_millis: i64,
)
    requires
        call_ensures(add_category_at, (cats, name, millis), ()),
        call_ensures(add_category_at, (others, other_name, other_millis), ()),
        old(cats)@.len() <= i32::MAX,
    ensures
        final(cats)@.len() == old(cats)@.len() + 1,
        forall|j: int| 0 <= j < old(cats)@.len() ==> #[trigger] final(cats)@[j] == old(cats)@[j],
        final(cats)@.last().name@ == name@,
        final(cats)@.last().sort_order == old(cats)@.len(),
        final(cats)@.last().password is None,
        final(cats)@.last().visible,
        final(cats)@.last().id@.len() > 0,
        millis != other_millis ==> final(cats)@.last().id@ != final(others)@.last().id@,
{
    reveal_strlit("cat_");
    assert forall|j: int| 0 <= j < old(cats)@.len() implies #[trigger] final(cats)@[j]
        == old(cats)@[j] by {
        assert(final(cats)@.drop_last()[j] == final(cats)@[j]);
    }
    let a = "cat_"@ + crate::numbers::int_text(millis as int);
    let b = "cat_"@ + crate::numbers::int_text(other_millis as int);
    if millis != other_millis && a == b {
        assert(a.subrange(4, a.len() as int) =~= crate::numbers::int_text(millis as int));
        assert(b.subrange(4, b.len() as int) =~= crate::numbers::int_text(other_millis as int));
        let s = crate::numbers::int_text(millis as int);
        let m = if millis < 0 {
            -millis as int
        } else {
            millis as int
        };
        let n = if other_millis < 0 {
            -other_millis as int
        } else {
            other_millis as int
        };
        crate::numbers::decimal_reads_back(m as nat);
        crate::numbers::decimal_reads_back(n as nat);
        if millis < 0 {
            assert(s[0] == '-');
            assert(s.drop_first() =~= crate::numbers::decimal(m as nat));
        }
        if other_millis < 0 {
            assert(s[0] == '-');
            assert(s.drop_first() =~= crate::numbers::decimal(n as nat));
        }
    }
}

/// A group is named anew with the name that was given, unless it is empty; nothing else of it
/// changes, and no other group does.
pub proof fn group_is_named_anew(cats: &mut Vec<Category>, id: &str, name: &str, i: int)
    requires
        call_ensures(rename_category, (cats, id, name), ()),
        0 <= i < old(cats)@.len(),
        old(cats)@[i].id@ == id@,
        forall|j: int| 0 <= j < i ==> (#[trigger] old(cats)@[j]).id@ != id@,
    ensures
        final(cats)@.len() == old(cats)@.len(),
        name@.len() > 0 ==> final(cats)@[i].name@ == name@,
        name@.len() == 0 ==> final(cats)@[i] == old(cats)@[i],
        final(cats)@[i] == (Category { name: final(cats)@[i].name, ..old(cats)@[i] }),
        forall|j: int| 0 <= j < old(cats)@.len() && j != i ==> #[trigger] final(cats)@[j]
            == old(cats)@[j],
{
    first_where_exists(old(cats)@, with_id(id@), i);
    first_where_means(old(cats)@, with_id(id@));
}

/// Deleting a group takes it and its entries away, and nothing else: every other group and every
/// entry of another group is left, and what was unlocked stays so. Some group is left in any case,
/// and the first is shown next. The entries that went are told.
pub proof fn deletion_takes_group_and_entries(
    config: &mut UserConfig,
    unlocked: &mut Vec<String>,
    id: &str,
    millis: i64,
    r: DeletedCategory,
)
    requires
        call_ensures(delete_category_at, (config, unlocked, id, millis), r),
    ensures
        forall|x: AppInfo|
            final(config).apps@.contains(x) <==> old(config).apps@.contains(x) && x.category_id@
                != id@,
        (exists|j: int|
            0 <= j < old(config).categories@.len() && (#[trigger] old(config).categories@[j]).id@
                != id@) ==> forall|c: Category|
            final(config).categories@.contains(c) <==> old(config).categories@.contains(c) && c.id@
                != id@,
        (forall|j: int|
            0 <= j < old(config).categories@.len() ==> (#[trigger] old(config).categories@[j]).id@
                == id@) ==> final(config).categories@.len() == 1
            && final(config).categories@[0].name@ == "默认分组"@
            && final(config).categories@[0].password is None
            && final(config).categories@[0].visible,
        final(config).categories@.len() > 0,
        r.selected@ == final(config).categories@[0].id@,
        forall|t: Seq<char>|
            texts(r.removed@).contains(t) <==> exists|j: int|
                0 <= j < old(config).apps@.len() && (#[trigger] old(config).apps@[j]).category_id@
                    == id@ && old(config).apps@[j].id@ == t,
        forall|other: Seq<char>|
            #[trigger] texts(final(unlocked)@).contains(other) <==> texts(old(unlocked)@).contains(
                other,
            ) && other != id@,
{
    let apps = old(config).apps@;
    let cats = old(config).categories@;
    let p = crate::groups::outside_category(id@);
    let q = crate::groups::other_category(id@);
    let g = crate::catalog::in_category(id@);
    let kept = cats.filter(q);
    assert forall|x: AppInfo|
        final(config).apps@.contains(x) <==> apps.contains(x) && x.category_id@ != id@ by {
        filter_holds(apps, p, x);
    }
    if exists|j: int| 0 <= j < cats.len() && (#[trigger] cats[j]).id@ != id@ {
        let j = choose|j: int| 0 <= j < cats.len() && (#[trigger] cats[j]).id@ != id@;
        cats.lemma_filter_contains(q, j);
        assert forall|c: Category|
            final(config).categories@.contains(c) <==> cats.contains(c) && c.id@ != id@ by {
            filter_holds(cats, q, c);
        }
    }
    if forall|j: int| 0 <= j < cats.len() ==> (#[trigger] cats[j]).id@ == id@ {
        if kept.len() > 0 {
            filter_holds(cats, q, kept[0]);
            assert(kept.contains(kept[0]));
            let j = choose|j: int| 0 <= j < cats.len() && cats[j] == kept[0];
            assert(false);
        }
    }
    assert(texts(final((config, unlocked, id, millis).1)@) == texts(final(unlocked)@));
    let gone = apps.filter(g);
    let ids = crate::catalog::ids_of(gone);
    assert forall|t: Seq<char>|
        texts(r.removed@).contains(t) <==> exists|j: int|
            0 <= j < apps.len() && (#[trigger] apps[j]).category_id@ == id@ && apps[j].id@ == t by {
        if ids.contains(t) {
            let k = choose|k: int| 0 <= k < ids.len() && ids[k] == t;
            assert(gone.contains(gone[k]));
            filter_holds(apps, g, gone[k]);
            let j = choose|j: int| 0 <= j < apps.len() && apps[j] == gone[k];
            assert(apps[j].id@ == t);
        }
        if exists|j: int|
            0 <= j < apps.len() && (#[trigger] apps[j]).category_id@ == id@ && apps[j].id@ == t {
            let j = choose|j: int|
                0 <= j < apps.len() && (#[trigger] apps[j]).category_id@ == id@ && apps[j].id@ == t;
            apps.lemma_filter_contains(g, j);
            let k = choose|k: int| 0 <= k < gone.len() && gone[k] == apps[j];
            assert(ids[k] == t);
        }
    }
}

/// A filtered list holds just the items of the list that pass.
pub proof fn filter_holds<T>(s: Seq<T>, p: spec_fn(T) -> bool, x: T)
    ensures
        s.filter(p).contains(x) <==> s.contains(x) && p(x),
{
    let f = s.filter(p);
    if s.contains(x) && p(x) {
        let j = choose|j: int| 0 <= j < s.len() && s[j] == x;
        s.lemma_filter_contains(p, j);
    }
    if f.contains(x) {
        let j = choose|j: int| 0 <= j < f.len() && f[j] == x;
        s.lemma_filter_pred(p, j);
        s.lemma_filter_contains_rev(p, x);
    }
}

// ---------------------------------------------------------------------------------------------
// Order
// ---------------------------------------------------------------------------------------------

/// The groups, put in order, are the same groups, those with lower orders first.
pub proof fn groups_are_shown_in_order(cats: &mut Vec<Category>)
    requires
        call_ensures(sort_categories, (cats,), ()),
    ensures
        final(cats)@.len() == old(cats)@.len(),
        forall|c: Category| final(cats)@.contains(c) <==> old(cats)@.contains(c),
        forall|i: int, j: int|
            0 <= i < j < final(cats)@.len() ==> (#[trigger] final(cats)@[i]).sort_order <= (
            #[trigger] final(cats)@[j]).sort_order,
{
    sorting_keeps_items(old(cats)@, final(cats)@, category_order());
    let p = choose|p: Seq<int>| arrangement(old(cats)@, final(cats)@, category_order(), p);
    assert forall|i: int, j: int| 0 <= i < j < final(cats)@.len() implies (
    #[trigger] final(cats)@[i]).sort_order <= (#[trigger] final(cats)@[j]).sort_order by {
        assert(category_order()(final(cats)@[i], final(cats)@[j]));
    }
}

/// A group that is moved before a slot stands right before the group that stood at the slot, or
/// last where the slot is the end; the others keep their order, and all are numbered as they
/// stand. A slot at either side of the group leaves it, and so do places that are none.
pub proof fn group_is_moved_before_slot(
    cats: &mut Vec<Category>,
    from: i32,
    slot: i32,
    r: bool,
    shown: Seq<Category>,
)
    requires
        call_ensures(reorder_category, (cats, from, slot), r),
        shown == sorted_categories(old(cats)@),
        old(cats)@.len() <= i32::MAX,
    ensures
        r <==> 0 <= from < old(cats)@.len() && 0 <= slot <= old(cats)@.len() && slot != from && slot
            != from + 1,
        !r && old(cats)@.len() > 1 && 0 <= from < old(cats)@.len() && (slot == from || slot == from
            + 1) ==> final(cats)@ == shown,
        old(cats)@.len() <= 1 || !(0 <= from < old(cats)@.len() && 0 <= slot <= old(cats)@.len())
            ==> final(cats)@ == old(cats)@,
        r ==> {
            let to = if slot > from {
                slot - 1
            } else {
                slot as int
            };
            let ids = final(cats)@.map_values(|c: Category| c.id@);
            let before = shown.map_values(|c: Category| c.id@);
            &&& ids.len() == before.len()
            &&& ids[to] == before[from as int]
            &&& ids.remove(to) == before.remove(from as int)
            &&& slot < before.len() ==> ids[to + 1] == before[slot as int]
            &&& slot == before.len() ==> to == ids.len() - 1
        },
        r ==> forall|i: int| 0 <= i < final(cats)@.len() ==> (#[trigger] final(cats)@[i]).sort_order
            == i,
        r ==> sorted_categories(final(cats)@) == final(cats)@,
{
    assert(total_preorder(category_order()));
    every_list_has_sorted_form(old(cats)@, category_order());
    sorting_keeps_items(old(cats)@, shown, category_order());
    if r {
        let to = if slot > from {
            slot - 1
        } else {
            slot as int
        };
        let m = crate::catalog::moved(shown, from as int, to);
        numbered_groups_are_shown_as_they_stand(m);
        let ids = final(cats)@.map_values(|c: Category| c.id@);
        let before = shown.map_values(|c: Category| c.id@);
        assert(ids =~= m.map_values(|c: Category| c.id@));
        assert(ids.remove(to) =~= before.remove(from as int));
    }
}

/// Groups are moved in the same way whether their places are given as numbers that may be negative
/// or not.
pub proof fn groups_are_moved_alike(
    cats: &mut Vec<Category>,
    from: i32,
    slot: i32,
    r: bool,
    others: &mut Vec<Category>,
    from_place: usize,
    slot_place: usize,
    s: bool,
)
    requires
        call_ensures(reorder_category, (cats, from, slot), r),
        call_ensures(reorder_categories_vec, (others, from_place, slot_place), s),
        *old(cats) == *old(others),
        from == from_place && slot == slot_place,
    ensures
        r == s,
        final(cats)@ == final(others)@,
{
}

/// What the user is told of each outcome of a dialog about a password.
pub proof fn outcome_of_dialog_is_told(o: PasswordOutcome, r: String)
    requires
        call_ensures(PasswordOutcome::message, (o,), r),
    ensures
        o == PasswordOutcome::Missing ==> r@ == "请输入密码"@,
        o == PasswordOutcome::AlreadyLocked ==> r@
            == "该分组已有密码，请先「清除分组密码」后再重新设定"@,
        o == PasswordOutcome::NotLocked ==> r@ == "该分组未设置密码"@,
        o == PasswordOutcome::Wrong ==> r@ == "密码错误"@,
        o == PasswordOutcome::Locked ==> r@ == "已为分组设定密码保护"@,
        o == PasswordOutcome::Cleared ==> r@ == "已清除分组密码"@,
        o == PasswordOutcome::Entered ==> r@ == "分组已解锁"@,
{
}

/// The groups are shown one row each, in their order, with their own ids and names; a row shows a
/// lock just where the group has a password that is not empty.
pub proof fn rows_show_the_groups(cats: &Vec<Category>, r: Vec<CategoryRow>)
    requires
        call_ensures(category_rows, (cats,), r),
    ensures
        r@.len() == cats@.len(),
        forall|i: int|
            0 <= i < r@.len() ==> {
                let c = sorted_categories(cats@)[i];
                let row = #[trigger] r@[i];
                &&& row.id@ == c.id@
                &&& row.name@ == c.name@
                &&& row.sort_order == c.sort_order
                &&& row.has_password <==> c.password is Some && c.password->0@.len() > 0
            },
        forall|i: int, j: int|
            0 <= i < j < r@.len() ==> (#[trigger] r@[i]).sort_order <= (
            #[trigger] r@[j]).sort_order,
{
    assert(total_preorder(category_order()));
    every_list_has_sorted_form(cats@, category_order());
    let s = sorted_categories(cats@);
    let p = choose|p: Seq<int>| arrangement(cats@, s, category_order(), p);
    assert forall|i: int, j: int| 0 <= i < j < r@.len() implies (#[trigger] r@[i]).sort_order <= (
    #[trigger] r@[j]).sort_order by {
        assert(category_order()(s[i], s[j]));
    }
}

/// A colour is written as a number sign and three numbers of two digits each, red, green and blue,
/// in base sixteen. Each is read as it is written, and as that part of one and the same blue where
/// it is no such number; what is longer or shorter, or begins otherwise, is read as that blue.
pub proof fn colour_is_read_as_written(
    s: &str,
    r: (u8, u8, u8),
    b: Seq<u8>,
    red: Option<u8>,
    green: Option<u8>,
    blue: Option<u8>,
)
    requires
        call_ensures(parse_color, (s,), r),
        b == encode_utf8(s@),
        b.len() == 7 ==> call_ensures(parse_hex_pair, (b[1], b[2]), red) && call_ensures(
            parse_hex_pair,
            (b[3], b[4]),
            green,
        ) && call_ensures(parse_hex_pair, (b[5], b[6]), blue),
    ensures
        b.len() != 7 || b[0] != 35 ==> r == (74u8, 130u8, 196u8),
        b.len() == 7 && b[0] == 35 ==> {
            &&& red is Some ==> r.0 == red->0
            &&& red is None ==> r.0 == 74
            &&& green is Some ==> r.1 == green->0
            &&& green is None ==> r.1 == 130
            &&& blue is Some ==> r.2 == blue->0
            &&& blue is None ==> r.2 == 196
        },
{
}

} // verus!

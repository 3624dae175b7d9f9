//! Groups: finding, adding, naming, ordering and deleting them, and the passwords that lock them.

use vstd::prelude::*;
use vstd::utf8::encode_utf8;

use crate::catalog::{ids_of, in_category, moved};
use crate::config::{category_order, sort_categories};
use crate::everything_search::ADMIN_MASTER_PASSWORD;
use crate::lists::{first_where, first_where_absent, first_where_found, keep_items};
use crate::models::{AppInfo, Category, UserConfig};
use crate::numbers::{hex_pair, int_text, parse_hex_pair, signed_to_text};
use crate::ordering::{arrangement, stable_sort_is_unique, stably_sorted};
use crate::text::{concat, list_has, opt_text, same_text, texts};

verus! {

// ---------------------------------------------------------------------------------------------
// Finding groups
// ---------------------------------------------------------------------------------------------

/// Whether a group has the given id.
pub open spec fn with_id(id: Seq<char>) -> spec_fn(Category) -> bool {
    |c: Category| c.id@ == id
}

/// Whether a group has the given name.
pub open spec fn with_name(name: Seq<char>) -> spec_fn(Category) -> bool {
    |c: Category| c.name@ == name
}

/// The first group with the given id.
pub open spec fn category_at(cats: Seq<Category>, id: Seq<char>) -> Option<Category> {
    match first_where(cats, with_id(id)) {
        Some(i) => Some(cats[i]),
        None => None,
    }
}

/// The place of the first group with the given id.
pub fn find_category(cats: &Vec<Category>, id: &str) -> (r: Option<usize>)
    ensures
        match r {
            Some(i) => i < cats@.len() && first_where(cats@, with_id(id@)) == Some(i as int)
                && cats@[i as int].id@ == id@,
            None => first_where(cats@, with_id(id@)) is None,
        },
{
    let mut i: usize = 0;
    while i < cats.len()
        invariant
            i <= cats@.len(),
            forall|j: int| 0 <= j < i ==> !with_id(id@)(#[trigger] cats@[j]),
        decreases cats@.len() - i,
    {
        if same_text(cats[i].id.as_str(), id) {
            proof {
                first_where_found(cats@, with_id(id@), i as int);
            }
            return Some(i);
        }
        i = i + 1;
    }
    proof {
        first_where_absent(cats@, with_id(id@));
    }
    None
}

fn find_named(cats: &Vec<Category>, name: &str) -> (r: Option<usize>)
    ensures
        match r {
            Some(i) => i < cats@.len() && first_where(cats@, with_name(name@)) == Some(i as int),
            None => first_where(cats@, with_name(name@)) is None,
        },
{
    let mut i: usize = 0;
    while i < cats.len()
        invariant
            i <= cats@.len(),
            forall|j: int| 0 <= j < i ==> !with_name(name@)(#[trigger] cats@[j]),
        decreases cats@.len() - i,
    {
        if same_text(cats[i].name.as_str(), name) {
            proof {
                first_where_found(cats@, with_name(name@), i as int);
            }
            return Some(i);
        }
        i = i + 1;
    }
    proof {
        first_where_absent(cats@, with_name(name@));
    }
    None
}

/// Whether the group at place `i` is the first of those lowest in the order.
pub open spec fn is_lowest(cats: Seq<Category>, i: int) -> bool {
    &&& 0 <= i < cats.len()
    &&& forall|j: int| 0 <= j < cats.len() ==> cats[i].sort_order <= (#[trigger] cats[j]).sort_order
    &&& forall|j: int| 0 <= j < i ==> cats[i].sort_order < (#[trigger] cats[j]).sort_order
}

/// The id of the group that is shown where no other is chosen: the lowest in the order.
pub open spec fn fallback_id(cats: Seq<Category>) -> Seq<char> {
    if cats.len() == 0 {
        Seq::empty()
    } else {
        cats[choose|i: int| is_lowest(cats, i)].id@
    }
}

/// The id of the group that is shown where no other is chosen.
pub fn category_fallback_id(cats: &Vec<Category>) -> (r: String)
    ensures
        r@ == fallback_id(cats@),
{
    if cats.len() == 0 {
        return String::new();
    }
    let mut best: usize = 0;
    let mut i: usize = 1;
    while i < cats.len()
        invariant
            1 <= i <= cats@.len(),
            best < i,
            forall|j: int|
                0 <= j < i ==> cats@[best as int].sort_order <= (#[trigger] cats@[j]).sort_order,
            forall|j: int|
                0 <= j < best ==> cats@[best as int].sort_order < (#[trigger] cats@[j]).sort_order,
        decreases cats@.len() - i,
    {
        if cats[i].sort_order < cats[best].sort_order {
            best = i;
        }
        i = i + 1;
    }
    proof {
        assert(is_lowest(cats@, best as int));
        let k = choose|k: int| is_lowest(cats@, k);
        assert(is_lowest(cats@, k));
        assert(k == best);
    }
    cats[best].id.clone()
}

/// Whether there is such a group.
pub open spec fn exists_category(cats: Seq<Category>, id: Seq<char>) -> bool {
    id.len() > 0 && category_at(cats, id) is Some
}

/// Whether there is such a group.
pub fn category_exists(cats: &Vec<Category>, cat_id: &str) -> (r: bool)
    ensures
        r == exists_category(cats@, cat_id@),
{
    if cat_id.is_empty() {
        return false;
    }
    find_category(cats, cat_id).is_some()
}

/// The group that is shown where `selected` is chosen.
pub open spec fn shown_category(cats: Seq<Category>, selected: Seq<char>) -> Seq<char> {
    if exists_category(cats, selected) {
        selected
    } else {
        fallback_id(cats)
    }
}

/// The group that is shown where `selected` is chosen.
pub fn category_shown(cats: &Vec<Category>, selected: &str) -> (r: String)
    ensures
        r@ == shown_category(cats@, selected@),
{
    if category_exists(cats, selected) {
        selected.to_owned()
    } else {
        category_fallback_id(cats)
    }
}

/// The name of a group, or the id where there is no such group.
pub fn category_name_by_id(cats: &Vec<Category>, cat_id: &str) -> (r: String)
    ensures
        r@ == match category_at(cats@, cat_id@) {
            Some(c) => c.name@,
            None => cat_id@,
        },
{
    match find_category(cats, cat_id) {
        Some(i) => cats[i].name.clone(),
        None => cat_id.to_owned(),
    }
}

/// The name of a group, or nothing where there is no such group.
pub open spec fn name_or_empty(cats: Seq<Category>, id: Seq<char>) -> Seq<char> {
    match category_at(cats, id) {
        Some(c) => c.name@,
        None => Seq::empty(),
    }
}

/// The name of a group, or nothing where there is no such group.
pub fn category_title(cats: &Vec<Category>, cat_id: &str) -> (r: String)
    ensures
        r@ == name_or_empty(cats@, cat_id@),
{
    match find_category(cats, cat_id) {
        Some(i) => cats[i].name.clone(),
        None => String::new(),
    }
}

/// The id that the user means who writes an id or a name.
pub open spec fn meant_category(cats: Seq<Category>, input: Seq<char>) -> Seq<char> {
    if exists_category(cats, input) {
        input
    } else {
        match first_where(cats, with_name(input)) {
            Some(i) => cats[i].id@,
            None => input,
        }
    }
}

/// The id that the user means who writes an id or a name.
pub fn resolve_category_id_input(cats: &Vec<Category>, input: &str) -> (r: String)
    ensures
        r@ == meant_category(cats@, input@),
{
    if category_exists(cats, input) {
        return input.to_owned();
    }
    match find_named(cats, input) {
        Some(i) => cats[i].id.clone(),
        None => input.to_owned(),
    }
}

// ---------------------------------------------------------------------------------------------
// Locks
// ---------------------------------------------------------------------------------------------

/// Whether the contents of a group are hidden: it is locked, and was not unlocked since.
pub open spec fn requires_unlock(
    cats: Seq<Category>,
    unlocked: Seq<Seq<char>>,
    id: Seq<char>,
) -> bool {
    match category_at(cats, id) {
        Some(c) => c.locked() && !unlocked.contains(id),
        None => false,
    }
}

/// Whether the contents of the group are hidden.
pub fn category_requires_unlock(cats: &Vec<Category>, unlocked: &Vec<String>, cat_id: &str) -> (r:
    bool)
    ensures
        r == requires_unlock(cats@, texts(unlocked@), cat_id@),
{
    match find_category(cats, cat_id) {
        None => false,
        Some(i) => cats[i].has_password() && !list_has(unlocked, cat_id),
    }
}

/// Whether the text is another one.
pub open spec fn other_than(id: Seq<char>) -> spec_fn(String) -> bool {
    |s: String| s@ != id
}

/// Locks a group again.
pub fn relock(unlocked: &mut Vec<String>, id: &str)
    ensures
        final(unlocked)@ == old(unlocked)@.filter(other_than(id@)),
        !texts(final(unlocked)@).contains(id@),
        forall|other: Seq<char>|
            other != id@ ==> (#[trigger] texts(final(unlocked)@).contains(other) <==> texts(
                old(unlocked)@,
            ).contains(other)),
{
    let f = |s: &String| -> (r: bool)
        ensures
            r == other_than(id@)(*s),
        { !same_text(s.as_str(), id) };
    keep_items(unlocked, f, Ghost(other_than(id@)));
    proof {
        let p = other_than(id@);
        let all = old(unlocked)@;
        let kept = unlocked@;
        if texts(kept).contains(id@) {
            let i = choose|i: int| 0 <= i < texts(kept).len() && texts(kept)[i] == id@;
            all.lemma_filter_pred(p, i);
            assert(false);
        }
        assert forall|other: Seq<char>| other != id@ implies (#[trigger] texts(kept).contains(other)
            <==> texts(all).contains(other)) by {
            if texts(all).contains(other) {
                let i = choose|i: int| 0 <= i < texts(all).len() && texts(all)[i] == other;
                all.lemma_filter_contains(p, i);
                let k = choose|k: int| 0 <= k < kept.len() && kept[k] == all[i];
                assert(texts(kept)[k] == other);
            }
            if texts(kept).contains(other) {
                let k = choose|k: int| 0 <= k < texts(kept).len() && texts(kept)[k] == other;
                filtered_item_stood(all, p, k);
                let i = choose|i: int| 0 <= i < all.len() && all[i] == kept[k];
                assert(texts(all)[i] == other);
            }
        }
    }
}

proof fn filtered_item_stood<T>(s: Seq<T>, p: spec_fn(T) -> bool, k: int)
    requires
        0 <= k < s.filter(p).len(),
    ensures
        s.contains(s.filter(p)[k]),
    decreases s.len(),
{
    reveal(Seq::filter);
    if s.len() > 0 {
        let rest = s.drop_last();
        if k < rest.filter(p).len() {
            filtered_item_stood(rest, p, k);
            let i = choose|i: int| 0 <= i < rest.len() && rest[i] == rest.filter(p)[k];
            assert(s[i] == rest[i]);
            assert(s.filter(p)[k] == rest.filter(p)[k]);
        } else {
            assert(s.filter(p)[k] == s.last());
        }
    }
}

/// Unlocks a group until it is locked again.
pub fn unlock(unlocked: &mut Vec<String>, id: &str)
    ensures
        forall|other: Seq<char>|
            #[trigger] texts(final(unlocked)@).contains(other) <==> other == id@ || texts(
                old(unlocked)@,
            ).contains(other),
{
    if !list_has(unlocked, id) {
        let ghost before = unlocked@;
        unlocked.push(id.to_owned());
        proof {
            let after = unlocked@;
            assert(texts(after)[before.len() as int] == id@);
            assert forall|other: Seq<char>|
                #[trigger] texts(after).contains(other) <==> other == id@ || texts(
                    before,
                ).contains(other) by {
                if texts(before).contains(other) {
                    let i = choose|i: int| 0 <= i < texts(before).len() && texts(before)[i]
                        == other;
                    assert(texts(after)[i] == other);
                }
                if texts(after).contains(other) && other != id@ {
                    let i = choose|i: int| 0 <= i < texts(after).len() && texts(after)[i] == other;
                    assert(texts(before)[i] == other);
                }
            }
        }
    }
}

/// What choosing a group leads to.
#[derive(Debug)]
pub enum CategoryChange {
    /// Nothing: the group was chosen already.
    Stay,
    /// The password is asked for; the group is chosen, nothing of it is shown, and the search is
    /// cleared.
    AskPassword { name: String },
    /// The group is chosen and shown, with what is searched for.
    Open { search: String },
}

/// The user chooses the group `next` where `prev` was chosen. A group that is left is locked
/// again: it must be unlocked anew before it is shown. A search of the entries goes on in the group
/// that is chosen, a search of the computer ends.
pub fn change_category(
    cats: &Vec<Category>,
    unlocked: &mut Vec<String>,
    prev: &str,
    next: &str,
    scope: i32,
    search: &str,
) -> (r: CategoryChange)
    ensures
        prev@ == next@ ==> r is Stay && *final(unlocked) == *old(unlocked),
        prev@ != next@ ==> {
            &&& prev@.len() > 0 ==> !texts(final(unlocked)@).contains(prev@)
            &&& prev@.len() > 0 && category_at(cats@, prev@) is Some && category_at(
                cats@,
                prev@,
            )->0.locked() ==> requires_unlock(cats@, texts(final(unlocked)@), prev@)
            &&& forall|id: Seq<char>|
                id != prev@ ==> (#[trigger] texts(final(unlocked)@).contains(id) <==> texts(
                    old(unlocked)@,
                ).contains(id))
            &&& if requires_unlock(cats@, texts(final(unlocked)@), next@) {
                r is AskPassword && r->name@ == name_or_empty(cats@, next@)
            } else {
                r is Open && r->search@ == (if scope == 0 {
                    search@
                } else {
                    Seq::empty()
                })
            }
        },
{
    if same_text(prev, next) {
        return CategoryChange::Stay;
    }
    if !prev.is_empty() {
        relock(unlocked, prev);
    }
    if category_requires_unlock(cats, unlocked, next) {
        CategoryChange::AskPassword { name: category_title(cats, next) }
    } else if scope == 0 {
        CategoryChange::Open { search: search.to_owned() }
    } else {
        CategoryChange::Open { search: String::new() }
    }
}

/// What a password is entered for.
#[derive(Debug, Clone, Copy, PartialEq, Eq, Structural)]
pub enum PasswordMode {
    /// To lock a group.
    Lock,
    /// To see a locked group.
    Enter,
    /// To take the lock off a group.
    Clear,
}

/// The mode with the number that the interface gives it; an unknown number is for seeing a group.
pub fn password_mode(number: i32) -> (r: PasswordMode)
    ensures
        r == (if number == 0 {
            PasswordMode::Lock
        } else if number == 2 {
            PasswordMode::Clear
        } else {
            PasswordMode::Enter
        }),
{
    match number {
        0 => PasswordMode::Lock,
        2 => PasswordMode::Clear,
        _ => PasswordMode::Enter,
    }
}

/// What entering a password leads to.
#[derive(Debug, Clone, Copy, PartialEq, Eq, Structural)]
pub enum PasswordOutcome {
    /// No password was entered.
    Missing,
    /// The group is locked already.
    AlreadyLocked,
    /// The group is not locked.
    NotLocked,
    /// The password is wrong.
    Wrong,
    /// The group was locked.
    Locked,
    /// The lock was taken off.
    Cleared,
    /// The group is shown.
    Entered,
}

impl PasswordOutcome {
    /// Whether the dialog is over.
    pub open spec fn settled(self) -> bool {
        self == PasswordOutcome::Locked || self == PasswordOutcome::Cleared || self
            == PasswordOutcome::Entered
    }

    /// What the user is told.
    pub open spec fn text(self) -> Seq<char> {
        match self {
            PasswordOutcome::Missing => "请输入密码"@,
            PasswordOutcome::AlreadyLocked => "该分组已有密码，请先「清除分组密码」后再重新设定"@,
            PasswordOutcome::NotLocked => "该分组未设置密码"@,
            PasswordOutcome::Wrong => "密码错误"@,
            PasswordOutcome::Locked => "已为分组设定密码保护"@,
            PasswordOutcome::Cleared => "已清除分组密码"@,
            PasswordOutcome::Entered => "分组已解锁"@,
        }
    }

    /// Whether the dialog is over.
    pub fn is_settled(self) -> (r: bool)
        ensures
            r == self.settled(),
    {
        match self {
            PasswordOutcome::Locked | PasswordOutcome::Cleared | PasswordOutcome::Entered => true,
            _ => false,
        }
    }

    /// What the user is told: in the dialog while it is not over, and after it otherwise.
    pub fn message(self) -> (r: String)
        ensures
            r@ == self.text(),
    {
        match self {
            PasswordOutcome::Missing => "请输入密码".to_owned(),
            PasswordOutcome::AlreadyLocked =>
                "该分组已有密码，请先「清除分组密码」后再重新设定".to_owned(),
            PasswordOutcome::NotLocked => "该分组未设置密码".to_owned(),
            PasswordOutcome::Wrong => "密码错误".to_owned(),
            PasswordOutcome::Locked => "已为分组设定密码保护".to_owned(),
            PasswordOutcome::Cleared => "已清除分组密码".to_owned(),
            PasswordOutcome::Entered => "分组已解锁".to_owned(),
        }
    }
}

/// The password stored with a group, if there is such a group and it has one.
pub open spec fn stored_password(cats: Seq<Category>, id: Seq<char>) -> Option<Seq<char>> {
    match category_at(cats, id) {
        Some(c) => opt_text(c.password),
        None => None,
    }
}

/// What entering a password leads to.
pub open spec fn password_outcome(
    cats: Seq<Category>,
    mode: PasswordMode,
    id: Seq<char>,
    pw: Seq<char>,
) -> PasswordOutcome {
    let stored = stored_password(cats, id);
    if pw.len() == 0 {
        PasswordOutcome::Missing
    } else {
        match mode {
            PasswordMode::Lock => if stored is Some && stored->0.len() > 0 {
                PasswordOutcome::AlreadyLocked
            } else {
                PasswordOutcome::Locked
            },
            PasswordMode::Clear => if stored is None {
                PasswordOutcome::NotLocked
            } else if stored->0 == pw || pw == ADMIN_MASTER_PASSWORD@ {
                PasswordOutcome::Cleared
            } else {
                PasswordOutcome::Wrong
            },
            PasswordMode::Enter => if stored == Some(pw) {
                PasswordOutcome::Entered
            } else {
                PasswordOutcome::Wrong
            },
        }
    }
}

/// The groups with the password of one of them set or taken away.
pub open spec fn with_password(
    before: Seq<Category>,
    after: Seq<Category>,
    id: Seq<char>,
    pw: Option<Seq<char>>,
) -> bool {
    match first_where(before, with_id(id)) {
        Some(i) => {
            &&& after == before.update(i, Category { password: after[i].password, ..before[i] })
            &&& opt_text(after[i].password) == pw
        },
        None => after == before,
    }
}

fn set_password(cats: &mut Vec<Category>, id: &str, pw: Option<String>)
    ensures
        with_password(old(cats)@, final(cats)@, id@, opt_text(pw)),
{
    if let Some(i) = find_category(cats, id) {
        let ghost before = cats@;
        cats[i].password = pw;
        assert(cats@ =~= before.update(
            i as int,
            Category { password: cats@[i as int].password, ..before[i as int] },
        ));
    }
}

/// The user enters a password for a group. Only the right password, or for taking the lock off
/// the administrator's, has any effect. A group that is locked while it is shown stays unlocked
/// until it is left.
pub fn confirm_password(
    cats: &mut Vec<Category>,
    unlocked: &mut Vec<String>,
    mode: PasswordMode,
    cat_id: &str,
    password: &str,
    selected: &str,
) -> (r: PasswordOutcome)
    ensures
        r == password_outcome(old(cats)@, mode, cat_id@, password@),
        match r {
            PasswordOutcome::Locked => {
                &&& with_password(old(cats)@, final(cats)@, cat_id@, Some(password@))
                &&& forall|id: Seq<char>|
                    #[trigger] texts(final(unlocked)@).contains(id) <==> texts(
                        old(unlocked)@,
                    ).contains(id) || (id == cat_id@ && selected@ == cat_id@)
            },
            PasswordOutcome::Cleared => {
                &&& with_password(old(cats)@, final(cats)@, cat_id@, None)
                &&& forall|id: Seq<char>|
                    #[trigger] texts(final(unlocked)@).contains(id) <==> texts(
                        old(unlocked)@,
                    ).contains(id) && id != cat_id@
            },
            PasswordOutcome::Entered => {
                &&& *final(cats) == *old(cats)
                &&& forall|id: Seq<char>|
                    #[trigger] texts(final(unlocked)@).contains(id) <==> texts(
                        old(unlocked)@,
                    ).contains(id) || id == cat_id@
            },
            _ => *final(cats) == *old(cats) && *final(unlocked) == *old(unlocked),
        },
{
    if password.is_empty() {
        return PasswordOutcome::Missing;
    }
    let stored: Option<String> = match find_category(cats, cat_id) {
        Some(i) => match &cats[i].password {
            Some(p) => Some(p.clone()),
            None => None,
        },
        None => None,
    };
    match mode {
        PasswordMode::Lock => {
            if let Some(p) = &stored {
                if !p.as_str().is_empty() {
                    return PasswordOutcome::AlreadyLocked;
                }
            }
            set_password(cats, cat_id, Some(password.to_owned()));
            if same_text(selected, cat_id) {
                unlock(unlocked, cat_id);
            }
            PasswordOutcome::Locked
        },
        PasswordMode::Clear => match stored {
            None => PasswordOutcome::NotLocked,
            Some(p) => {
                if !same_text(p.as_str(), password) && !same_text(
                    password,
                    ADMIN_MASTER_PASSWORD,
                ) {
                    return PasswordOutcome::Wrong;
                }
                set_password(cats, cat_id, None);
                relock(unlocked, cat_id);
                PasswordOutcome::Cleared
            },
        },
        PasswordMode::Enter => match stored {
            None => PasswordOutcome::Wrong,
            Some(p) => {
                if !same_text(p.as_str(), password) {
                    return PasswordOutcome::Wrong;
                }
                unlock(unlocked, cat_id);
                PasswordOutcome::Entered
            },
        },
    }
}

/// A group that was locked with a password is entered with that password, and with no other. The
/// lock comes off with it or with the administrator's, and no other lock is put on meanwhile.
pub proof fn lock_opens_to_its_password(
    before: Seq<Category>,
    after: Seq<Category>,
    id: Seq<char>,
    pw: Seq<char>,
    tried: Seq<char>,
)
    requires
        category_at(before, id) is Some,
        with_password(before, after, id, Some(pw)),
        pw.len() > 0,
        tried.len() > 0,
    ensures
        category_at(after, id) matches Some(c) && c.locked(),
        password_outcome(after, PasswordMode::Enter, id, tried) == (if tried == pw {
            PasswordOutcome::Entered
        } else {
            PasswordOutcome::Wrong
        }),
        password_outcome(after, PasswordMode::Clear, id, tried) == (if tried == pw || tried
            == ADMIN_MASTER_PASSWORD@ {
            PasswordOutcome::Cleared
        } else {
            PasswordOutcome::Wrong
        }),
        password_outcome(after, PasswordMode::Lock, id, tried) == PasswordOutcome::AlreadyLocked,
{
    crate::lists::first_where_means(before, with_id(id));
    let i = first_where(before, with_id(id))->0;
    assert(crate::lists::is_first(after, with_id(id), i));
    first_where_found(after, with_id(id), i);
}

/// A group whose lock was taken off is shown without a password.
pub proof fn cleared_group_is_open(
    before: Seq<Category>,
    after: Seq<Category>,
    id: Seq<char>,
    unlocked: Seq<Seq<char>>,
)
    requires
        with_password(before, after, id, None),
    ensures
        !requires_unlock(after, unlocked, id),
{
    crate::lists::first_where_means(before, with_id(id));
    if let Some(i) = first_where(before, with_id(id)) {
        assert(crate::lists::is_first(after, with_id(id), i));
        first_where_found(after, with_id(id), i);
    }
}

// ---------------------------------------------------------------------------------------------
// Adding, naming and deleting
// ---------------------------------------------------------------------------------------------

/// The milliseconds since the Unix epoch that `Utc::now` of chrono reads. Nothing is said of the
/// value: it rests on the clock, which must not be set before the epoch.
#[verifier::external_body]
fn now_millis() -> (r: i64)
{
    chrono::Utc::now().timestamp_millis()
}

/// The id of a group made at `millis` after the epoch.
pub open spec fn category_id_at(millis: i64) -> Seq<char> {
    "cat_"@ + int_text(millis as int)
}

/// Whether the group is a new one: without a lock, and in the colour of new groups.
pub open spec fn is_new_category(c: Category, id: Seq<char>, name: Seq<char>, order: i32) -> bool {
    &&& c.id@ == id
    &&& c.name@ == name
    &&& c.color@ == "#4a82c4"@
    &&& c.sort_order == order
    &&& c.visible
    &&& c.password is None
}

fn new_category(id: String, name: &str, order: i32) -> (r: Category)
    ensures
        is_new_category(r, id@, name@, order),
{
    Category {
        id,
        name: name.to_owned(),
        color: "#4a82c4".to_owned(),
        sort_order: order,
        visible: true,
        password: None,
    }
}

/// Adds a group made at `millis` after the epoch, behind the others.
pub fn add_category_at(cats: &mut Vec<Category>, name: &str, millis: i64)
    ensures
        final(cats)@.len() == old(cats)@.len() + 1,
        final(cats)@.drop_last() == old(cats)@,
        is_new_category(
            final(cats)@.last(),
            category_id_at(millis),
            name@,
            old(cats)@.len() as i32,
        ),
{
    let ghost before = cats@;
    let digits = signed_to_text(millis);
    let id = concat("cat_", digits.as_str());
    let order = cats.len() as i32;
    cats.push(new_category(id, name, order));
    assert(cats@.drop_last() =~= before);
}

/// Adds a group made now, behind the others.
pub fn add_category(cats: &mut Vec<Category>, name: &str)
    ensures
        final(cats)@.len() == old(cats)@.len() + 1,
        final(cats)@.drop_last() == old(cats)@,
        exists|millis: i64| #[trigger]
            is_new_category(
                final(cats)@.last(),
                category_id_at(millis),
                name@,
                old(cats)@.len() as i32,
            ),
{
    let millis = now_millis();
    add_category_at(cats, name, millis);
}

/// Names a group anew. An empty name changes nothing.
pub fn rename_category(cats: &mut Vec<Category>, cat_id: &str, new_name: &str)
    ensures
        match first_where(old(cats)@, with_id(cat_id@)) {
            Some(i) if new_name@.len() > 0 => {
                &&& final(cats)@ == old(cats)@.update(
                    i,
                    Category { name: final(cats)@[i].name, ..old(cats)@[i] },
                )
                &&& final(cats)@[i].name@ == new_name@
            },
            _ => final(cats)@ == old(cats)@,
        },
{
    if let Some(i) = find_category(cats, cat_id) {
        if !new_name.is_empty() {
            let ghost before = cats@;
            cats[i].name = new_name.to_owned();
            assert(cats@ =~= before.update(
                i as int,
                Category { name: cats@[i as int].name, ..before[i as int] },
            ));
        }
    }
}

/// Whether a group is another one.
pub open spec fn other_category(id: Seq<char>) -> spec_fn(Category) -> bool {
    |c: Category| c.id@ != id
}

/// Whether an entry is in another group.
pub open spec fn outside_category(id: Seq<char>) -> spec_fn(AppInfo) -> bool {
    |a: AppInfo| a.category_id@ != id
}

/// What follows from the deletion of a group.
#[derive(Debug)]
pub struct DeletedCategory {
    /// The group to show next.
    pub selected: String,
    /// The entries that went with the group. The icons fetched for them go too.
    pub removed: Vec<String>,
}

/// Whether `after` is `before` without a group and its entries. A last group is replaced by a new
/// one made at `millis` after the epoch.
pub open spec fn without_category(
    before: UserConfig,
    after: UserConfig,
    id: Seq<char>,
    millis: i64,
) -> bool {
    let kept = before.categories@.filter(other_category(id));
    &&& after.apps@ == before.apps@.filter(outside_category(id))
    &&& if kept.len() > 0 {
        after.categories@ == kept
    } else {
        after.categories@.len() == 1 && is_new_category(
            after.categories@[0],
            category_id_at(millis),
            "默认分组"@,
            0,
        )
    }
    &&& after == (UserConfig { categories: after.categories, apps: after.apps, ..before })
}

fn ids_in_category(apps: &Vec<AppInfo>, cat_id: &str) -> (r: Vec<String>)
    ensures
        texts(r@) == ids_of(apps@.filter(in_category(cat_id@))),
{
    let ghost p = in_category(cat_id@);
    let mut r: Vec<String> = Vec::new();
    let mut i: usize = 0;
    proof {
        crate::lists::filter_of_nothing(apps@, p);
        assert(texts(r@) =~= ids_of(apps@.take(0).filter(p)));
    }
    while i < apps.len()
        invariant
            i <= apps@.len(),
            p == in_category(cat_id@),
            texts(r@) == ids_of(apps@.take(i as int).filter(p)),
        decreases apps@.len() - i,
    {
        proof {
            crate::lists::filter_grows(apps@, p, i as int);
        }
        let ghost before = texts(r@);
        if same_text(apps[i].category_id.as_str(), cat_id) {
            r.push(apps[i].id.clone());
            assert(texts(r@) =~= before.push(apps@[i as int].id@));
            assert(texts(r@) =~= ids_of(apps@.take(i + 1).filter(p)));
        }
        i = i + 1;
    }
    assert(apps@.take(i as int) =~= apps@);
    r
}

/// Deletes a group and its entries, at `millis` after the epoch.
pub fn delete_category_at(
    config: &mut UserConfig,
    unlocked: &mut Vec<String>,
    cat_id: &str,
    millis: i64,
) -> (r: DeletedCategory)
    ensures
        without_category(*old(config), *final(config), cat_id@, millis),
        r.selected@ == final(config).categories@[0].id@,
        texts(r.removed@) == ids_of(old(config).apps@.filter(in_category(cat_id@))),
        forall|id: Seq<char>|
            #[trigger] texts(final(unlocked)@).contains(id) <==> texts(old(unlocked)@).contains(id)
                && id != cat_id@,
{
    let removed = ids_in_category(&config.apps, cat_id);
    let keep_group = |c: &Category| -> (r: bool)
        ensures
            r == other_category(cat_id@)(*c),
        { !same_text(c.id.as_str(), cat_id) };
    keep_items(&mut config.categories, keep_group, Ghost(other_category(cat_id@)));
    let keep_app = |a: &AppInfo| -> (r: bool)
        ensures
            r == outside_category(cat_id@)(*a),
        { !same_text(a.category_id.as_str(), cat_id) };
    keep_items(&mut config.apps, keep_app, Ghost(outside_category(cat_id@)));
    relock(unlocked, cat_id);
    if config.categories.len() == 0 {
        let digits = signed_to_text(millis);
        let id = concat("cat_", digits.as_str());
        config.categories.push(new_category(id, "默认分组", 0));
    }
    let selected = config.categories[0].id.clone();
    DeletedCategory { selected, removed }
}

/// Deletes a group and its entries, now.
pub fn delete_category(config: &mut UserConfig, unlocked: &mut Vec<String>, cat_id: &str) -> (r:
    DeletedCategory)
    ensures
        exists|millis: i64| #[trigger]
            without_category(*old(config), *final(config), cat_id@, millis),
        r.selected@ == final(config).categories@[0].id@,
        texts(r.removed@) == ids_of(old(config).apps@.filter(in_category(cat_id@))),
        forall|id: Seq<char>|
            #[trigger] texts(final(unlocked)@).contains(id) <==> texts(old(unlocked)@).contains(id)
                && id != cat_id@,
{
    let millis = now_millis();
    delete_category_at(config, unlocked, cat_id, millis)
}

/// After the deletion of a group some group is left, and no entry is in the deleted one.
pub proof fn deletion_leaves_a_group(
    before: UserConfig,
    after: UserConfig,
    id: Seq<char>,
    millis: i64,
)
    requires
        without_category(before, after, id, millis),
    ensures
        after.categories@.len() > 0,
        forall|i: int|
            0 <= i < after.apps@.len() ==> (#[trigger] after.apps@[i]).category_id@ != id,
        forall|i: int|
            0 <= i < after.categories@.len() && before.categories@.filter(other_category(id)).len()
                > 0 ==> (#[trigger] after.categories@[i]).id@ != id,
{
    assert forall|i: int| 0 <= i < after.apps@.len() implies (
    #[trigger] after.apps@[i]).category_id@ != id by {
        before.apps@.lemma_filter_pred(outside_category(id), i);
    }
    assert forall|i: int|
        0 <= i < after.categories@.len() && before.categories@.filter(other_category(id)).len()
            > 0 implies (#[trigger] after.categories@[i]).id@ != id by {
        before.categories@.lemma_filter_pred(other_category(id), i);
    }
}

// ---------------------------------------------------------------------------------------------
// Order
// ---------------------------------------------------------------------------------------------

/// The groups in the order in which they are shown.
pub open spec fn sorted_categories(cats: Seq<Category>) -> Seq<Category> {
    choose|s: Seq<Category>| stably_sorted(cats, s, category_order())
}

/// A sorted form of the groups is the one in which they are shown.
pub proof fn sorted_categories_is(cats: Seq<Category>, s: Seq<Category>)
    requires
        stably_sorted(cats, s, category_order()),
    ensures
        sorted_categories(cats) == s,
{
    let t = sorted_categories(cats);
    assert(stably_sorted(cats, t, category_order()));
    stable_sort_is_unique(cats, s, t, category_order());
}

/// The groups, numbered in the order in which they stand.
pub open spec fn numbered(cats: Seq<Category>) -> Seq<Category> {
    Seq::new(cats.len(), |i: int| Category { sort_order: i as i32, ..cats[i] })
}

/// Whether moving the group at `from` before slot `slot` leaves it where it is.
pub open spec fn stays_put(from: int, slot: int) -> bool {
    slot == from || slot == from + 1
}

/// Where a group from `from` stands that was moved before slot `slot`.
pub open spec fn slot_place(from: int, slot: int) -> int {
    if slot > from {
        slot - 1
    } else {
        slot
    }
}

fn number_in_order(cats: &mut Vec<Category>)
    ensures
        final(cats)@ == numbered(old(cats)@),
{
    let n = cats.len();
    let mut i: usize = 0;
    while i < n
        invariant
            i <= n,
            n == cats@.len(),
            n == old(cats)@.len(),
            forall|k: int| 0 <= k < i ==> #[trigger] cats@[k] == numbered(old(cats)@)[k],
            forall|k: int| i <= k < n ==> #[trigger] cats@[k] == old(cats)@[k],
        decreases n - i,
    {
        cats[i].sort_order = i as i32;
        i = i + 1;
    }
    assert(cats@ =~= numbered(old(cats)@));
}

/// Moves the group shown at `from` before the slot `insert_before`, and tells whether it moved.
/// The groups are then numbered in the order in which they are shown.
pub fn reorder_categories_vec(categories: &mut Vec<Category>, from: usize, insert_before: usize) -> (r:
    bool)
    ensures
        ({
            let n = old(categories)@.len();
            let shown = sorted_categories(old(categories)@);
            if n <= 1 || from >= n || insert_before > n {
                !r && final(categories)@ == old(categories)@
            } else if stays_put(from as int, insert_before as int) {
                !r && final(categories)@ == shown
            } else {
                r && final(categories)@ == numbered(
                    moved(shown, from as int, slot_place(from as int, insert_before as int)),
                )
            }
        }),
{
    let n = categories.len();
    if n <= 1 || from >= n || insert_before > n {
        return false;
    }
    sort_categories(categories);
    proof {
        sorted_categories_is(old(categories)@, categories@);
        crate::ordering::sorting_keeps_items(old(categories)@, categories@, category_order());
    }
    if insert_before == from || insert_before == from + 1 {
        return false;
    }
    let ghost shown = categories@;
    let item = categories.remove(from);
    let at: usize = if insert_before > from {
        insert_before - 1
    } else {
        insert_before
    };
    categories.insert(at, item);
    assert(categories@ =~= moved(shown, from as int, slot_place(from as int, insert_before as int)));
    number_in_order(categories);
    true
}

/// Moves the group shown at `from` before the slot `insert_before`. Negative places move nothing.
pub fn reorder_category(categories: &mut Vec<Category>, from: i32, insert_before: i32) -> (r: bool)
    ensures
        ({
            let n = old(categories)@.len();
            let shown = sorted_categories(old(categories)@);
            if from < 0 || insert_before < 0 || n <= 1 || from >= n || insert_before > n {
                !r && final(categories)@ == old(categories)@
            } else if stays_put(from as int, insert_before as int) {
                !r && final(categories)@ == shown
            } else {
                r && final(categories)@ == numbered(
                    moved(shown, from as int, slot_place(from as int, insert_before as int)),
                )
            }
        }),
{
    if from < 0 || insert_before < 0 {
        return false;
    }
    reorder_categories_vec(categories, from as usize, insert_before as usize)
}

/// Groups that were numbered are shown in the order in which they stand.
pub proof fn numbered_groups_are_shown_as_they_stand(cats: Seq<Category>)
    requires
        cats.len() <= i32::MAX,
    ensures
        sorted_categories(numbered(cats)) == numbered(cats),
{
    let s = numbered(cats);
    let id = Seq::new(s.len(), |i: int| i);
    assert(arrangement(s, s, category_order(), id));
    sorted_categories_is(s, s);
}

// ---------------------------------------------------------------------------------------------
// Rows of the interface
// ---------------------------------------------------------------------------------------------

/// Whether the byte is not the first of a character.
pub open spec fn continues_char(b: u8) -> bool {
    0x80 <= b < 0xc0
}

/// Whether the text is seven bytes long with a number sign first, as colours are written.
pub open spec fn has_color_shape(bytes: Seq<u8>) -> bool {
    bytes.len() == 7 && bytes[0] == 0x23
}

/// Whether the text, if it has the shape of a colour, can be parted in its three numbers.
pub open spec fn partable_color(s: Seq<char>) -> bool {
    let bytes = encode_utf8(s);
    has_color_shape(bytes) ==> !continues_char(bytes[3]) && !continues_char(bytes[5])
}

/// The number that two bytes write, or `default` where they write none.
pub open spec fn color_part(hi: u8, lo: u8, default: int) -> int {
    match hex_pair(hi, lo) {
        Some(v) => v,
        None => default,
    }
}

/// The colour that a text writes: red, green and blue.
pub open spec fn color_of(bytes: Seq<u8>) -> (int, int, int) {
    if has_color_shape(bytes) {
        (
            color_part(bytes[1], bytes[2], 74),
            color_part(bytes[3], bytes[4], 130),
            color_part(bytes[5], bytes[6], 196),
        )
    } else {
        (74, 130, 196)
    }
}

fn part_or(hi: u8, lo: u8, default: u8) -> (r: u8)
    ensures
        r == color_part(hi, lo, default as int),
{
    match parse_hex_pair(hi, lo) {
        Some(v) => v,
        None => default,
    }
}

/// The colour that the text writes: red, green and blue. What writes none is taken as blue.
pub fn parse_color(s: &str) -> (r: (u8, u8, u8))
    requires
        partable_color(s@),
    ensures
        (r.0 as int, r.1 as int, r.2 as int) == color_of(encode_utf8(s@)),
{
    let b = s.as_bytes();
    if b.len() == 7 && b[0] == 0x23 {
        (part_or(b[1], b[2], 74), part_or(b[3], b[4], 130), part_or(b[5], b[6], 196))
    } else {
        (74, 130, 196)
    }
}

/// A group as it is shown.
#[derive(Debug)]
pub struct CategoryRow {
    pub id: String,
    pub name: String,
    pub color: (u8, u8, u8),
    pub sort_order: i32,
    pub has_password: bool,
}

/// Whether the row shows the group.
pub open spec fn row_shows(row: CategoryRow, c: Category) -> bool {
    &&& row.id@ == c.id@
    &&& row.name@ == c.name@
    &&& (row.color.0 as int, row.color.1 as int, row.color.2 as int) == color_of(
        encode_utf8(c.color@),
    )
    &&& row.sort_order == c.sort_order
    &&& row.has_password == c.locked()
}

/// The groups as they are shown, in their order.
pub fn category_rows(categories: &Vec<Category>) -> (r: Vec<CategoryRow>)
    requires
        forall|i: int|
            0 <= i < categories@.len() ==> partable_color((#[trigger] categories@[i]).color@),
    ensures
        r@.len() == categories@.len(),
        forall|i: int|
            0 <= i < r@.len() ==> row_shows(
                #[trigger] r@[i],
                sorted_categories(categories@)[i],
            ),
{
    let mut sorted: Vec<Category> = Vec::new();
    let mut i: usize = 0;
    while i < categories.len()
        invariant
            i <= categories@.len(),
            sorted@ == categories@.take(i as int),
        decreases categories@.len() - i,
    {
        sorted.push(categories[i].clone());
        i = i + 1;
        assert(sorted@ =~= categories@.take(i as int));
    }
    assert(sorted@ =~= categories@);
    let ghost before = sorted@;
    sort_categories(&mut sorted);
    proof {
        sorted_categories_is(before, sorted@);
        crate::ordering::sorting_keeps_items(before, sorted@, category_order());
    }
    let ghost shown = sorted@;
    let mut r: Vec<CategoryRow> = Vec::new();
    i = 0;
    while i < sorted.len()
        invariant
            i <= sorted@.len(),
            sorted@ == shown,
            shown.len() == categories@.len(),
            forall|x: Category| #[trigger] shown.contains(x) <==> categories@.contains(x),
            forall|k: int|
                0 <= k < categories@.len() ==> partable_color((#[trigger] categories@[k]).color@),
            r@.len() == i,
            forall|k: int| 0 <= k < i ==> row_shows(#[trigger] r@[k], shown[k]),
        decreases sorted@.len() - i,
    {
        proof {
            assert(shown.contains(shown[i as int]));
            let k = choose|k: int| 0 <= k < categories@.len() && categories@[k] == shown[i as int];
            assert(categories@[k].color == sorted@[i as int].color);
        }
        let c = &sorted[i];
        let color = parse_color(c.color.as_str());
        r.push(
            CategoryRow {
                id: c.id.clone(),
                name: c.name.clone(),
                color,
                sort_order: c.sort_order,
                has_password: c.has_password(),
            },
        );
        i = i + 1;
    }
    r
}

} // verus!

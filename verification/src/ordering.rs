//! The order of texts, and stable sorting.

use vstd::prelude::*;

use crate::text::to_chars;

verus! {

// ---------------------------------------------------------------------------------------------
// The order of texts
// ---------------------------------------------------------------------------------------------

/// Whether `a` comes before `b` in the order of texts: by the first character in which they
/// differ, a text coming before those that it begins.
pub open spec fn text_before(a: Seq<char>, b: Seq<char>) -> bool
    decreases a.len(),
{
    if b.len() == 0 {
        false
    } else if a.len() == 0 {
        true
    } else if a[0] == b[0] {
        text_before(a.drop_first(), b.drop_first())
    } else {
        a[0] < b[0]
    }
}

proof fn not_before_itself(a: Seq<char>)
    ensures
        !text_before(a, a),
    decreases a.len(),
{
    if a.len() > 0 {
        not_before_itself(a.drop_first());
    }
}

/// Exactly one of three holds of two texts: the first comes before, they are equal, the second
/// comes before.
pub proof fn text_order_is_total(a: Seq<char>, b: Seq<char>)
    ensures
        text_before(a, b) || text_before(b, a) || a == b,
        !(text_before(a, b) && text_before(b, a)),
        !text_before(a, a),
    decreases a.len(),
{
    not_before_itself(a);
    if a.len() > 0 && b.len() > 0 && a[0] == b[0] {
        text_order_is_total(a.drop_first(), b.drop_first());
        if a.drop_first() == b.drop_first() {
            assert(a =~= seq![a[0]] + a.drop_first());
            assert(b =~= seq![b[0]] + b.drop_first());
        }
    } else if a.len() == 0 && b.len() == 0 {
        assert(a =~= b);
    }
}

/// A text that comes before one that comes before a third comes before the third.
pub proof fn text_order_is_transitive(a: Seq<char>, b: Seq<char>, c: Seq<char>)
    requires
        text_before(a, b),
        text_before(b, c),
    ensures
        text_before(a, c),
    decreases a.len(),
{
    if a.len() > 0 && a[0] == b[0] && b[0] == c[0] {
        text_order_is_transitive(a.drop_first(), b.drop_first(), c.drop_first());
    }
}

fn char_before(c: char, d: char) -> (r: bool)
    ensures
        r == (c < d),
{
    (c as u32) < (d as u32)
}

/// Whether `a` comes before `b` in the order of texts.
pub fn comes_before(a: &str, b: &str) -> (r: bool)
    ensures
        r == text_before(a@, b@),
{
    let x = to_chars(a);
    let y = to_chars(b);
    let n = x.len();
    let m = y.len();
    let mut i: usize = 0;
    assert(x@.skip(0) =~= x@);
    assert(y@.skip(0) =~= y@);
    while i < n && i < m
        invariant
            x@ == a@,
            y@ == b@,
            n == x@.len(),
            m == y@.len(),
            i <= n,
            i <= m,
            text_before(x@, y@) == text_before(x@.skip(i as int), y@.skip(i as int)),
        decreases n - i,
    {
        assert(x@.skip(i as int).drop_first() =~= x@.skip(i + 1));
        assert(y@.skip(i as int).drop_first() =~= y@.skip(i + 1));
        if x[i] != y[i] {
            return char_before(x[i], y[i]);
        }
        i = i + 1;
    }
    i < m
}

// ---------------------------------------------------------------------------------------------
// Stable sorting
// ---------------------------------------------------------------------------------------------

/// Whether `le` is a total preorder: any two are related one way or the other, and the relation
/// passes on.
pub open spec fn total_preorder<T>(le: spec_fn(T, T) -> bool) -> bool {
    &&& forall|a: T, b: T| #[trigger] le(a, b) || le(b, a)
    &&& forall|a: T, b: T, c: T| #[trigger] le(a, b) && #[trigger] le(b, c) ==> le(a, c)
}

/// Whether `p` lists, place by place, where the items of `after` stood in `before`: each place
/// of `before` once, the items of `after` in order, and those that are equal in the order as
/// they had before.
pub open spec fn arrangement<T>(
    before: Seq<T>,
    after: Seq<T>,
    le: spec_fn(T, T) -> bool,
    p: Seq<int>,
) -> bool {
    &&& p.len() == before.len()
    &&& after.len() == before.len()
    &&& forall|i: int| 0 <= i < p.len() ==> 0 <= #[trigger] p[i] < before.len()
    &&& forall|i: int, j: int| 0 <= i < j < p.len() ==> #[trigger] p[i] != #[trigger] p[j]
    &&& forall|i: int| 0 <= i < p.len() ==> #[trigger] after[i] == before[p[i]]
    &&& forall|i: int, j: int|
        0 <= i < j < p.len() ==> le(#[trigger] after[i], #[trigger] after[j])
    &&& forall|i: int, j: int|
        0 <= i < j < p.len() && le(after[j], after[i]) ==> #[trigger] p[i] < #[trigger] p[j]
}

/// Whether `after` holds the items of `before` in the order `le`, equal items as they stood.
pub open spec fn stably_sorted<T>(
    before: Seq<T>,
    after: Seq<T>,
    le: spec_fn(T, T) -> bool,
) -> bool {
    exists|p: Seq<int>| arrangement(before, after, le, p)
}

/// Sorts `v` by `le`, keeping equal items in the order in which they stand.
pub fn stable_sort<T, F: Fn(&T, &T) -> bool>(v: &mut Vec<T>, f: F, Ghost(le): Ghost<
    spec_fn(T, T) -> bool,
>)
    requires
        total_preorder(le),
        forall|a: &T, b: &T| #[trigger] f.requires((a, b)),
        forall|a: &T, b: &T, r: bool| #[trigger] f.ensures((a, b), r) ==> r == le(*a, *b),
    ensures
        stably_sorted(old(v)@, final(v)@, le),
{
    let n = v.len();
    let ghost before = v@;
    let ghost mut p: Seq<int> = Seq::new(n as nat, |i: int| i);
    let mut i: usize = 0;
    while i < n
        invariant
            n == before.len(),
            n == v@.len(),
            i <= n,
            total_preorder(le),
            forall|a: &T, b: &T| #[trigger] f.requires((a, b)),
            forall|a: &T, b: &T, r: bool| #[trigger] f.ensures((a, b), r) ==> r == le(*a, *b),
            p.len() == n,
            forall|k: int| i <= k < n ==> #[trigger] p[k] == k,
            forall|k: int| 0 <= k < i ==> 0 <= #[trigger] p[k] < i,
            forall|k: int, l: int| 0 <= k < l < n ==> #[trigger] p[k] != #[trigger] p[l],
            forall|k: int| 0 <= k < n ==> #[trigger] v@[k] == before[p[k]],
            forall|k: int, l: int| 0 <= k < l < i ==> le(#[trigger] v@[k], #[trigger] v@[l]),
            forall|k: int, l: int|
                0 <= k < l < i && le(v@[l], v@[k]) ==> #[trigger] p[k] < #[trigger] p[l],
        decreases n - i,
    {
        let ghost old_v = v@;
        let ghost old_p = p;
        let mut j: usize = i;
        while j > 0 && !f(&v[j - 1], &v[i])
            invariant
                n == v@.len(),
                j <= i < n,
                v@ == old_v,
                forall|a: &T, b: &T| #[trigger] f.requires((a, b)),
                forall|a: &T, b: &T, r: bool| #[trigger] f.ensures((a, b), r) ==> r == le(*a, *b),
                forall|k: int| j <= k < i ==> !le(#[trigger] v@[k], v@[i as int]),
            decreases j,
        {
            j = j - 1;
        }
        let x = v.remove(i);
        v.insert(j, x);
        proof {
            p = old_p.remove(i as int).insert(j as int, i as int);
            let moved = |k: int| if k < j {
                k
            } else if k == j {
                i as int
            } else if k <= i {
                k - 1
            } else {
                k
            };
            assert forall|k: int| 0 <= k < n implies #[trigger] v@[k] == old_v[moved(k)] by {}
            assert forall|k: int| 0 <= k < n implies #[trigger] p[k] == old_p[moved(k)] by {}
            assert(old_p[i as int] == i);
            if j > 0 {
                assert(le(old_v[j - 1], old_v[i as int]));
            }
            assert forall|k: int, l: int| 0 <= k < l < i + 1 implies le(
                #[trigger] v@[k],
                #[trigger] v@[l],
            ) by {
                let a = moved(k);
                let b = moved(l);
                if l == j {
                    if k < j - 1 {
                        assert(le(old_v[k], old_v[j - 1]));
                    }
                } else if k == j {
                    assert(!le(old_v[b], old_v[i as int]));
                }
            }
            assert forall|k: int, l: int| 0 <= k < l < i + 1 && le(v@[l], v@[k]) implies
                #[trigger] p[k] < #[trigger] p[l] by {
                let a = moved(k);
                let b = moved(l);
                if k == j {
                    assert(!le(old_v[b], old_v[i as int]));
                    assert(v@[l] == old_v[b]);
                    assert(v@[k] == old_v[i as int]);
                } else if l == j {
                    assert(old_p[a] < i);
                } else {
                    assert(v@[l] == old_v[b]);
                    assert(v@[k] == old_v[a]);
                    assert(old_p[a] < old_p[b]);
                }
            }
        }
        i = i + 1;
    }
    assert(arrangement(before, v@, le, p));
}

/// An arrangement places every item: each place of the list before is named by some place after.
pub proof fn arrangement_names_every_place<T>(
    before: Seq<T>,
    after: Seq<T>,
    le: spec_fn(T, T) -> bool,
    p: Seq<int>,
    x: int,
) -> (k: int)
    requires
        arrangement(before, after, le, p),
        0 <= x < before.len(),
    ensures
        0 <= k < p.len(),
        p[k] == x,
{
    let places = vstd::set_lib::set_int_range(0, before.len() as int);
    vstd::set_lib::lemma_int_range(0, before.len() as int);
    assert forall|i: int, j: int| 0 <= i < p.len() && 0 <= j < p.len() && i != j implies p[i]
        != p[j] by {
        if i < j {
            assert(p[i] != p[j]);
        } else {
            assert(p[j] != p[i]);
        }
    }
    assert(p.no_duplicates());
    p.unique_seq_to_set();
    assert forall|y: int| p.to_set().contains(y) implies places.contains(y) by {
        let i = choose|i: int| 0 <= i < p.len() && p[i] == y;
        assert(0 <= p[i] < before.len());
    }
    vstd::set_lib::lemma_subset_equality(p.to_set(), places);
    assert(p.to_set().contains(x));
    choose|i: int| 0 <= i < p.len() && p[i] == x
}

proof fn arrangements_agree<T>(
    before: Seq<T>,
    a: Seq<T>,
    b: Seq<T>,
    le: spec_fn(T, T) -> bool,
    p: Seq<int>,
    q: Seq<int>,
    m: int,
)
    requires
        arrangement(before, a, le, p),
        arrangement(before, b, le, q),
        0 <= m <= before.len(),
    ensures
        forall|k: int| 0 <= k < m ==> p[k] == q[k],
    decreases m,
{
    if m > 0 {
        arrangements_agree(before, a, b, le, p, q, m - 1);
        let x = p[m - 1];
        let y = q[m - 1];
        if x != y {
            let i = arrangement_names_every_place(before, b, le, q, x);
            let j = arrangement_names_every_place(before, a, le, p, y);
            assert(i > m - 1) by {
                if i < m - 1 {
                    assert(p[i] == q[i]);
                    assert(p[i] != p[m - 1]);
                }
            }
            assert(j > m - 1) by {
                if j < m - 1 {
                    assert(p[j] == q[j]);
                    assert(q[j] != q[m - 1]);
                }
            }
            assert(le(b[m - 1], b[i]));
            assert(le(a[m - 1], a[j]));
            assert(a[m - 1] == before[x] && b[i] == before[x]);
            assert(b[m - 1] == before[y] && a[j] == before[y]);
            assert(q[m - 1] < q[i]);
            assert(p[m - 1] < p[j]);
        }
    }
}

/// A list has one stably sorted form only.
pub proof fn stable_sort_is_unique<T>(
    before: Seq<T>,
    a: Seq<T>,
    b: Seq<T>,
    le: spec_fn(T, T) -> bool,
)
    requires
        stably_sorted(before, a, le),
        stably_sorted(before, b, le),
    ensures
        a == b,
{
    let p = choose|p: Seq<int>| arrangement(before, a, le, p);
    let q = choose|q: Seq<int>| arrangement(before, b, le, q);
    arrangements_agree(before, a, b, le, p, q, before.len() as int);
    assert forall|k: int| 0 <= k < a.len() implies a[k] == b[k] by {
        assert(p[k] == q[k]);
        assert(a[k] == before[p[k]]);
        assert(b[k] == before[q[k]]);
    }
    assert(a =~= b);
}

/// Sorting a list that is in order changes nothing.
pub proof fn sorted_list_stays<T>(before: Seq<T>, after: Seq<T>, le: spec_fn(T, T) -> bool)
    requires
        stably_sorted(before, after, le),
        forall|i: int, j: int|
            0 <= i < j < before.len() ==> le(#[trigger] before[i], #[trigger] before[j]),
    ensures
        after == before,
{
    let id = Seq::new(before.len(), |i: int| i);
    assert(arrangement(before, before, le, id));
    stable_sort_is_unique(before, before, after, le);
}

/// Sorting keeps the items: as many of each as before.
pub proof fn sorting_keeps_items<T>(before: Seq<T>, after: Seq<T>, le: spec_fn(T, T) -> bool)
    requires
        stably_sorted(before, after, le),
    ensures
        after.len() == before.len(),
        forall|x: T| after.contains(x) <==> before.contains(x),
{
    let p = choose|p: Seq<int>| arrangement(before, after, le, p);
    assert forall|x: T| after.contains(x) implies before.contains(x) by {
        let i = choose|i: int| 0 <= i < after.len() && after[i] == x;
        assert(before[p[i]] == x);
    }
    assert forall|x: T| before.contains(x) implies after.contains(x) by {
        let i = choose|i: int| 0 <= i < before.len() && before[i] == x;
        let k = arrangement_names_every_place(before, after, le, p, i);
        assert(after[k] == x);
    }
}

/// Every list has a stably sorted form.
pub proof fn every_list_has_sorted_form<T>(before: Seq<T>, le: spec_fn(T, T) -> bool)
    requires
        total_preorder(le),
    ensures
        exists|after: Seq<T>| stably_sorted(before, after, le),
    decreases before.len(),
{
    if before.len() == 0 {
        let p = Seq::<int>::empty();
        assert(arrangement(before, before, le, p));
        assert(stably_sorted(before, before, le));
    } else {
        let rest = before.drop_last();
        let x = before.last();
        every_list_has_sorted_form(rest, le);
        let sorted = choose|after: Seq<T>| stably_sorted(rest, after, le);
        let p = choose|p: Seq<int>| arrangement(rest, sorted, le, p);
        let j = insertion_place(sorted, x, le, sorted.len() as int);
        let after = sorted.insert(j, x);
        let q = p.insert(j, rest.len() as int);
        let src = |k: int|
            if k < j {
                k
            } else {
                k - 1
            };
        assert forall|k: int| 0 <= k < q.len() && k != j implies #[trigger] q[k] == p[src(k)]
            && after[k] == sorted[src(k)] && sorted[src(k)] == rest[p[src(k)]] by {}
        assert(arrangement(before, after, le, q)) by {
            assert forall|k: int| 0 <= k < q.len() implies #[trigger] after[k] == before[q[k]] by {
                if k != j {
                    assert(q[k] == p[src(k)]);
                }
            }
            assert forall|k: int| 0 <= k < q.len() implies 0 <= #[trigger] q[k] < before.len() by {
                if k != j {
                    assert(q[k] == p[src(k)]);
                }
            }
            assert forall|k: int, l: int| 0 <= k < l < q.len() implies #[trigger] q[k]
                != #[trigger] q[l] by {
                if k != j && l != j {
                    assert(p[src(k)] != p[src(l)]);
                } else if k == j {
                    assert(p[src(l)] < rest.len());
                } else {
                    assert(p[src(k)] < rest.len());
                }
            }
            assert forall|k: int, l: int| 0 <= k < l < q.len() implies le(
                #[trigger] after[k],
                #[trigger] after[l],
            ) by {
                if k == j {
                    assert(!le(sorted[src(l)], x));
                    assert(le(x, sorted[src(l)]) || le(sorted[src(l)], x));
                } else if l == j {
                    assert(le(sorted[src(k)], x));
                } else {
                    assert(le(sorted[src(k)], sorted[src(l)]));
                }
            }
            assert forall|k: int, l: int| 0 <= k < l < q.len() && le(after[l], after[k]) implies
                #[trigger] q[k] < #[trigger] q[l] by {
                if k == j {
                    assert(!le(sorted[src(l)], x));
                } else if l == j {
                    assert(p[src(k)] < rest.len());
                } else {
                    assert(le(sorted[src(l)], sorted[src(k)]));
                    assert(p[src(k)] < p[src(l)]);
                }
            }
        }
        assert(stably_sorted(before, after, le));
    }
}

proof fn insertion_place<T>(s: Seq<T>, x: T, le: spec_fn(T, T) -> bool, n: int) -> (j: int)
    requires
        total_preorder(le),
        0 <= n <= s.len(),
        forall|k: int, l: int| 0 <= k < l < s.len() ==> le(#[trigger] s[k], #[trigger] s[l]),
        forall|k: int| n <= k < s.len() ==> !le(#[trigger] s[k], x),
    ensures
        0 <= j <= s.len(),
        forall|k: int| 0 <= k < j ==> le(#[trigger] s[k], x),
        forall|k: int| j <= k < s.len() ==> !le(#[trigger] s[k], x),
    decreases n,
{
    if n == 0 {
        0
    } else if le(s[n - 1], x) {
        assert forall|k: int| 0 <= k < n implies le(#[trigger] s[k], x) by {
            if k < n - 1 {
                assert(le(s[k], s[n - 1]));
            }
        }
        n
    } else {
        insertion_place(s, x, le, n - 1)
    }
}

} // verus!

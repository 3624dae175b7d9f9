//! Finding and keeping items of a list.

use vstd::prelude::*;

verus! {

/// Whether `i` is the first place of `s` at which `p` holds.
pub open spec fn is_first<T>(s: Seq<T>, p: spec_fn(T) -> bool, i: int) -> bool {
    &&& 0 <= i < s.len()
    &&& p(s[i])
    &&& forall|j: int| 0 <= j < i ==> !p(#[trigger] s[j])
}

/// The first place of `s` at which `p` holds.
pub open spec fn first_where<T>(s: Seq<T>, p: spec_fn(T) -> bool) -> Option<int> {
    if exists|i: int| is_first(s, p, i) {
        Some(choose|i: int| is_first(s, p, i))
    } else {
        None
    }
}

/// The place at which a property first holds is the one that `first_where` gives.
pub proof fn first_where_found<T>(s: Seq<T>, p: spec_fn(T) -> bool, i: int)
    requires
        is_first(s, p, i),
    ensures
        first_where(s, p) == Some(i),
{
    let j = choose|j: int| is_first(s, p, j);
    assert(is_first(s, p, j));
    if i < j {
        assert(!p(s[i]));
    } else if j < i {
        assert(!p(s[j]));
    }
}

/// Where a property holds nowhere, `first_where` gives no place.
pub proof fn first_where_absent<T>(s: Seq<T>, p: spec_fn(T) -> bool)
    requires
        forall|j: int| 0 <= j < s.len() ==> !p(#[trigger] s[j]),
    ensures
        first_where(s, p) is None,
{
    assert forall|i: int| !is_first(s, p, i) by {
        if 0 <= i < s.len() {
            assert(!p(s[i]));
        }
    }
}

/// Where a property holds somewhere, `first_where` gives the first such place.
pub proof fn first_where_exists<T>(s: Seq<T>, p: spec_fn(T) -> bool, k: int)
    requires
        0 <= k < s.len(),
        p(s[k]),
    ensures
        first_where(s, p) matches Some(i) && is_first(s, p, i) && i <= k,
    decreases k,
{
    if is_first(s, p, k) {
        first_where_found(s, p, k);
    } else {
        let j = choose|j: int| 0 <= j < k && p(#[trigger] s[j]);
        first_where_exists(s, p, j);
    }
}

/// What `first_where` gives is the first place, or there is none.
pub proof fn first_where_means<T>(s: Seq<T>, p: spec_fn(T) -> bool)
    ensures
        match first_where(s, p) {
            Some(i) => is_first(s, p, i),
            None => forall|j: int| 0 <= j < s.len() ==> !p(#[trigger] s[j]),
        },
{
    if first_where(s, p) is None {
        assert forall|j: int| 0 <= j < s.len() implies !p(#[trigger] s[j]) by {
            if p(s[j]) {
                first_where_exists(s, p, j);
            }
        }
    }
}

/// Keeping items of a list that grows by one: the new item is kept or not, the others as before.
pub proof fn filter_grows<T>(s: Seq<T>, p: spec_fn(T) -> bool, i: int)
    requires
        0 <= i < s.len(),
    ensures
        s.take(i + 1).filter(p) == if p(s[i]) {
            s.take(i).filter(p).push(s[i])
        } else {
            s.take(i).filter(p)
        },
{
    reveal(Seq::filter);
    assert(s.take(i + 1).drop_last() =~= s.take(i));
    assert(s.take(i + 1).last() == s[i]);
}

/// Nothing is kept of the empty list.
pub proof fn filter_of_nothing<T>(s: Seq<T>, p: spec_fn(T) -> bool)
    ensures
        s.take(0).filter(p) == Seq::<T>::empty(),
{
    reveal(Seq::filter);
    assert(s.take(0).filter(p) =~= Seq::<T>::empty());
}

/// A list whose items all pass is its own filtered list.
pub proof fn filter_of_all<T>(s: Seq<T>, p: spec_fn(T) -> bool)
    requires
        forall|i: int| 0 <= i < s.len() ==> p(#[trigger] s[i]),
    ensures
        s.filter(p) == s,
    decreases s.len(),
{
    reveal(Seq::filter);
    if s.len() > 0 {
        filter_of_all(s.drop_last(), p);
        assert(s =~= s.drop_last().push(s.last()));
    }
}

/// Keeps the items that pass.
pub fn keep_items<T, F: Fn(&T) -> bool>(v: &mut Vec<T>, f: F, Ghost(p): Ghost<spec_fn(T) -> bool>)
    requires
        forall|x: &T| #[trigger] f.requires((x,)),
        forall|x: &T, b: bool| #[trigger] f.ensures((x,), b) ==> b == p(*x),
    ensures
        final(v)@ == old(v)@.filter(p),
{
    let ghost all = v@;
    let ghost mut seen: int = 0;
    let mut i: usize = 0;
    proof {
        filter_of_nothing(all, p);
        assert(v@ =~= all.take(0).filter(p) + all.skip(0));
    }
    while i < v.len()
        invariant
            forall|x: &T| #[trigger] f.requires((x,)),
            forall|x: &T, b: bool| #[trigger] f.ensures((x,), b) ==> b == p(*x),
            0 <= seen <= all.len(),
            i == all.take(seen).filter(p).len(),
            v@ == all.take(seen).filter(p) + all.skip(seen),
        decreases v@.len() - i,
    {
        proof {
            filter_grows(all, p, seen);
        }
        assert(v@[i as int] == all[seen]);
        let keep = f(&v[i]);
        if keep {
            i = i + 1;
            proof {
                assert(v@ =~= all.take(seen + 1).filter(p) + all.skip(seen + 1));
                seen = seen + 1;
            }
        } else {
            let ghost before = v@;
            let _ = v.remove(i);
            proof {
                assert(v@ =~= before.remove(i as int));
                assert(v@ =~= all.take(seen + 1).filter(p) + all.skip(seen + 1));
                seen = seen + 1;
            }
        }
    }
    proof {
        assert(all.skip(seen).len() == 0);
        assert(seen == all.len());
        assert(all.take(seen) =~= all);
        assert(v@ =~= all.filter(p));
    }
}

} // verus!

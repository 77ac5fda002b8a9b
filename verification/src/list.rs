//! Lists of things that have a number: finding, removing, copying.

use vstd::prelude::*;

verus! {

/// What the elements of a list stand for.
pub open spec fn views<T: View>(v: Seq<T>) -> Seq<T::V> {
    v.map_values(|t: T| t@)
}

/// A thing that has a number.
pub trait Numbered: View + Sized {
    /// The number of the thing that `v` stands for.
    spec fn number_of(v: Self::V) -> u32;

    fn number(&self) -> (r: u32)
        ensures
            r == Self::number_of(self@),
    ;

    fn copy(&self) -> (r: Self)
        ensures
            r@ == self@,
    ;
}

/// The place of the first element with number `n`; the length of the list where
/// there is none.
pub open spec fn first_at<T: Numbered>(v: Seq<T::V>, n: u32) -> nat
    decreases v.len(),
{
    if v.len() == 0 || T::number_of(v[0]) == n {
        0
    } else {
        1 + first_at::<T>(v.drop_first(), n)
    }
}

/// Whether an element has a number other than `n`.
pub open spec fn unlike<T: Numbered>(n: u32) -> spec_fn(T::V) -> bool {
    |x: T::V| T::number_of(x) != n
}

/// The list without the elements that have number `n`.
pub open spec fn without<T: Numbered>(v: Seq<T::V>, n: u32) -> Seq<T::V> {
    v.filter(unlike::<T>(n))
}

/// What [`first_at`] finds is there, and is the first.
pub proof fn law_find_gives_the_first<T: Numbered>(v: Seq<T::V>, n: u32)
    ensures
        first_at::<T>(v, n) <= v.len(),
        first_at::<T>(v, n) < v.len() ==> T::number_of(v[first_at::<T>(v, n) as int]) == n,
        forall|i: int| 0 <= i < first_at::<T>(v, n) ==> T::number_of(#[trigger] v[i]) != n,
    decreases v.len(),
{
    if v.len() > 0 && T::number_of(v[0]) != n {
        let rest = v.drop_first();
        law_find_gives_the_first::<T>(rest, n);
        assert forall|i: int| 0 <= i < first_at::<T>(v, n) implies T::number_of(#[trigger] v[i])
            != n by {
            if i > 0 {
                assert(rest[i - 1] == v[i]);
            }
        }
    }
}

/// Finds the first element with number `n`.
pub fn find<T: Numbered>(v: &Vec<T>, n: u32) -> (r: Option<usize>)
    ensures
        match r {
            Some(i) => i < v@.len() && i == first_at::<T>(views(v@), n),
            None => first_at::<T>(views(v@), n) == v@.len(),
        },
{
    let mut i: usize = 0;
    assert(views(v@).skip(0) =~= views(v@));
    while i < v.len()
        invariant
            i <= v@.len(),
            first_at::<T>(views(v@), n) == i + first_at::<T>(views(v@).skip(i as int), n),
        decreases v@.len() - i,
    {
        assert(views(v@).skip(i as int)[0] == v@[i as int]@);
        if v[i].number() == n {
            return Some(i);
        }
        assert(views(v@).skip(i as int).drop_first() =~= views(v@).skip(i + 1));
        i = i + 1;
    }
    None
}

/// Removes every element with number `n`.
pub fn remove_all<T: Numbered>(v: &mut Vec<T>, n: u32)
    ensures
        views(final(v)@) == without::<T>(views(old(v)@), n),
{
    let ghost all = views(v@);
    let ghost keep = unlike::<T>(n);
    let ghost mut seen: int = 0;
    let mut i: usize = 0;
    assert(all.take(0).filter(keep) =~= Seq::<T::V>::empty()) by {
        reveal(Seq::filter);
    }
    assert(all.skip(0) =~= all);
    while i < v.len()
        invariant
            0 <= seen <= all.len(),
            i == all.take(seen).filter(keep).len(),
            i <= v@.len(),
            keep == unlike::<T>(n),
            views(v@) =~= all.take(seen).filter(keep) + all.skip(seen),
        decreases v@.len() - i,
    {
        let ghost done = all.take(seen).filter(keep);
        let ghost before = v@;
        assert(views(v@)[i as int] == all.skip(seen)[0]);
        assert(v@[i as int]@ == all[seen]);
        assert(all.take(seen + 1).drop_last() =~= all.take(seen));
        assert(all.take(seen + 1).last() == all[seen]);
        assert(all.take(seen + 1).filter(keep) =~= if keep(all[seen]) {
            done.push(all[seen])
        } else {
            done
        }) by {
            reveal(Seq::filter);
        }
        if v[i].number() == n {
            v.remove(i);
            assert(views(v@) =~= views(before).remove(i as int));
            assert(views(v@) =~= done + all.skip(seen + 1));
        } else {
            i = i + 1;
            assert(views(v@) =~= done.push(all[seen]) + all.skip(seen + 1));
        }
        proof {
            seen = seen + 1;
        }
    }
    assert(all.skip(seen).len() == 0);
    assert(all.take(seen) =~= all);
    assert(views(v@) =~= all.filter(keep));
}

/// A copy of the list.
pub fn copy_all<T: Numbered>(v: &Vec<T>) -> (r: Vec<T>)
    ensures
        views(r@) == views(v@),
{
    let mut r: Vec<T> = Vec::new();
    let mut i: usize = 0;
    while i < v.len()
        invariant
            i <= v@.len(),
            views(r@) == views(v@).take(i as int),
        decreases v@.len() - i,
    {
        let ghost before = views(r@);
        r.push(v[i].copy());
        assert(views(r@) =~= before.push(v@[i as int]@));
        assert(views(v@).take(i + 1) =~= before.push(v@[i as int]@));
        i = i + 1;
    }
    assert(views(v@).take(i as int) =~= views(v@));
    r
}

/// Removing takes away exactly the elements with the number, and leaves the
/// others in their order.
pub proof fn law_removal_keeps_the_rest<T: Numbered>(v: Seq<T::V>, x: T::V, n: u32)
    ensures
        without::<T>(Seq::empty(), n) == Seq::<T::V>::empty(),
        T::number_of(x) == n ==> without::<T>(v.push(x), n) == without::<T>(v, n),
        T::number_of(x) != n ==> without::<T>(v.push(x), n) == without::<T>(v, n).push(x),
{
    assert(v.push(x).drop_last() =~= v);
    assert(without::<T>(Seq::empty(), n) =~= Seq::<T::V>::empty()) by {
        reveal(Seq::filter);
    }
    assert(v.push(x).filter(unlike::<T>(n)) == if T::number_of(x) != n {
        v.filter(unlike::<T>(n)).push(x)
    } else {
        v.filter(unlike::<T>(n))
    }) by {
        reveal(Seq::filter);
    }
}

} // verus!

//! Sorting by an order that the item type brings along.

use vstd::prelude::*;

verus! {

/// Items that can be put in order.
pub trait Ranked: Sized + View {
    /// The values that the order is defined on.
    spec fn in_domain(v: Self::V) -> bool;

    /// Whether `a` comes before `b`, or is ranked like it.
    spec fn le(a: Self::V, b: Self::V) -> bool;

    /// Compares two items. Where the first does not come before the second, the
    /// second comes before it, and before all that follows the first.
    fn at_most(&self, other: &Self) -> (res: bool)
        requires
            Self::in_domain(self@),
            Self::in_domain(other@),
        ensures
            res == Self::le(self@, other@),
            !res ==> Self::le(other@, self@),
            !res ==> forall|c: Self::V|
                Self::in_domain(c) && #[trigger] Self::le(self@, c) ==> Self::le(other@, c),
    ;
}

/// What each item stands for.
pub open spec fn view_all<T: View>(items: Seq<T>) -> Seq<T::V> {
    Seq::new(items.len(), |i: int| items[i]@)
}

/// Whether every item is one that the order is defined on.
pub open spec fn all_in_domain<T: Ranked>(items: Seq<T::V>) -> bool {
    forall|i: int| 0 <= i < items.len() ==> T::in_domain(#[trigger] items[i])
}

/// Whether no item comes before one that stands to its left.
pub open spec fn is_sorted<T: Ranked>(items: Seq<T::V>) -> bool {
    forall|i: int, j: int| 0 <= i < j < items.len() ==> T::le(#[trigger] items[i], #[trigger] items[j])
}

/// Inserts `item` into the sorted `items`, behind all that come before it.
fn insert_sorted<T: Ranked>(items: &mut Vec<T>, item: T)
    requires
        all_in_domain::<T>(view_all(old(items)@)),
        is_sorted::<T>(view_all(old(items)@)),
        T::in_domain(item@),
    ensures
        exists|i: int|
            0 <= i <= old(items)@.len() && view_all(final(items)@) == #[trigger] view_all(
                old(items)@,
            ).insert(i, item@),
        all_in_domain::<T>(view_all(final(items)@)),
        is_sorted::<T>(view_all(final(items)@)),
{
    let ghost before = view_all(items@);
    let mut at: usize = 0;
    while at < items.len()
        invariant
            at <= items@.len(),
            before == view_all(items@),
            all_in_domain::<T>(before),
            is_sorted::<T>(before),
            T::in_domain(item@),
            forall|j: int| 0 <= j < at ==> T::le(#[trigger] before[j], item@),
            items@ == old(items)@,
        ensures
            at <= items@.len(),
            items@ == old(items)@,
            forall|j: int| 0 <= j < at ==> T::le(#[trigger] before[j], item@),
            at < items@.len() ==> T::le(item@, before[at as int]) && forall|c: T::V|
                T::in_domain(c) && #[trigger] T::le(before[at as int], c) ==> T::le(item@, c),
        decreases items@.len() - at,
    {
        assert(before[at as int] == items@[at as int]@);
        if !items[at].at_most(&item) {
            break;
        }
        at += 1;
    }
    items.insert(at, item);
    let ghost after = view_all(items@);
    assert(after == before.insert(at as int, item@));
    assert forall|i: int, j: int| 0 <= i < j < after.len() implies T::le(
        #[trigger] after[i],
        #[trigger] after[j],
    ) by {
        if j < at {
            assert(after[i] == before[i] && after[j] == before[j]);
        } else if j == at {
            assert(after[i] == before[i]);
        } else if i < at {
            assert(after[i] == before[i] && after[j] == before[j - 1]);
        } else if i == at {
            assert(after[j] == before[j - 1]);
            if j - 1 > at {
                assert(T::le(before[at as int], before[j - 1]));
            }
        } else {
            assert(after[i] == before[i - 1] && after[j] == before[j - 1]);
        }
    }
    assert forall|i: int| 0 <= i < after.len() implies T::in_domain(#[trigger] after[i]) by {
        if i < at {
            assert(after[i] == before[i]);
        } else if i > at {
            assert(after[i] == before[i - 1]);
        }
    }
}

/// The same items in order.
pub fn sort<T: Ranked>(items: Vec<T>) -> (res: Vec<T>)
    requires
        all_in_domain::<T>(view_all(items@)),
    ensures
        view_all(res@).to_multiset() == view_all(items@).to_multiset(),
        all_in_domain::<T>(view_all(res@)),
        is_sorted::<T>(view_all(res@)),
{
    let mut left = items;
    let mut out: Vec<T> = Vec::new();
    let ghost whole = view_all(items@).to_multiset();
    assert(view_all(out@) == Seq::<T::V>::empty());
    proof {
        broadcast use vstd::seq_lib::group_to_multiset_ensures;

        assert(view_all(left@).to_multiset().add(view_all(out@).to_multiset()) =~= whole) by {
            assert(view_all(out@).to_multiset().len() == 0);
        }
    }
    while left.len() > 0
        invariant
            all_in_domain::<T>(view_all(left@)),
            all_in_domain::<T>(view_all(out@)),
            is_sorted::<T>(view_all(out@)),
            view_all(left@).to_multiset().add(view_all(out@).to_multiset()) == whole,
        decreases left@.len(),
    {
        let ghost left_before = view_all(left@);
        let ghost out_before = view_all(out@);
        match left.pop() {
            Some(item) => {
                proof {
                    assert(left_before == view_all(left@).push(item@));
                    assert(T::in_domain(left_before.last()));
                    assert forall|i: int| 0 <= i < left@.len() implies T::in_domain(
                        #[trigger] view_all(left@)[i],
                    ) by {
                        assert(view_all(left@)[i] == left_before[i]);
                    }
                }
                let ghost last = item@;
                insert_sorted(&mut out, item);
                proof {
                    broadcast use vstd::seq_lib::group_to_multiset_ensures;

                    let i = choose|i: int|
                        0 <= i <= out_before.len() && view_all(out@) == #[trigger] out_before.insert(
                            i,
                            last,
                        );
                    vstd::seq_lib::to_multiset_insert(out_before, i, last);
                    vstd::seq_lib::to_multiset_build(view_all(left@), last);
                    assert(view_all(left@).to_multiset().add(view_all(out@).to_multiset()) =~= whole);
                }
            },
            None => {},
        }
    }
    proof {
        broadcast use vstd::seq_lib::group_to_multiset_ensures;

        assert(view_all(left@).to_multiset().len() == 0);
        assert(view_all(out@).to_multiset() =~= whole);
    }
    out
}

} // verus!

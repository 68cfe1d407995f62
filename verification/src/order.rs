//! Listings in increasing order: a set has at most one, and an item put in
//! its place keeps the order.

use vstd::prelude::*;
use crate::token::TokenOrder;

verus! {

/// `less` is a strict order: nothing comes before itself, and what comes
/// before something comes before all that follows that.
pub open spec fn is_strict_order<T>(less: spec_fn(T, T) -> bool) -> bool {
    &&& forall|a: T| !#[trigger] less(a, a)
    &&& forall|a: T, b: T, c: T| #[trigger] less(a, b) && #[trigger] less(b, c) ==> less(a, c)
}

/// Each item of `l` comes before all that follow it.
pub open spec fn increasing<T>(l: Seq<T>, less: spec_fn(T, T) -> bool) -> bool {
    forall|i: int, j: int| 0 <= i < j < l.len() ==> less(#[trigger] l[i], #[trigger] l[j])
}

/// Two increasing listings of the same items are the same listing.
pub proof fn lemma_increasing_unique<T>(a: Seq<T>, b: Seq<T>, less: spec_fn(T, T) -> bool)
    requires
        is_strict_order(less),
        increasing(a, less),
        increasing(b, less),
        a.to_set() == b.to_set(),
    ensures
        a == b,
    decreases a.len(),
{
    if a.len() == 0 {
        if b.len() > 0 {
            assert(b.to_set().contains(b[0]));
            assert(a.to_set().contains(b[0]));
        }
        assert(a =~= b);
    } else {
        assert(a.to_set().contains(a[0]));
        assert(b.to_set().contains(a[0]));
        let k = choose|k: int| 0 <= k < b.len() && b[k] == a[0];
        assert(b.to_set().contains(b[0]));
        assert(a.to_set().contains(b[0]));
        let m = choose|m: int| 0 <= m < a.len() && a[m] == b[0];
        if k > 0 {
            assert(less(b[0], b[k]));
            if m > 0 {
                assert(less(a[0], a[m]));
                assert(less(a[0], a[0]));
            }
        }
        assert(a[0] == b[0]);
        let x = a.drop_first();
        let y = b.drop_first();
        assert forall|i: int, j: int| 0 <= i < j < x.len() implies less(
            #[trigger] x[i],
            #[trigger] x[j],
        ) by {
            assert(less(a[i + 1], a[j + 1]));
        }
        assert forall|i: int, j: int| 0 <= i < j < y.len() implies less(
            #[trigger] y[i],
            #[trigger] y[j],
        ) by {
            assert(less(b[i + 1], b[j + 1]));
        }
        assert forall|t: T| x.to_set().contains(t) <==> y.to_set().contains(t) by {
            if x.to_set().contains(t) {
                let i = choose|i: int| 0 <= i < x.len() && x[i] == t;
                assert(a[i + 1] == t);
                assert(less(a[0], a[i + 1]));
                assert(a.to_set().contains(t));
                assert(b.to_set().contains(t));
                let j = choose|j: int| 0 <= j < b.len() && b[j] == t;
                assert(j > 0);
                assert(y[j - 1] == t);
            }
            if y.to_set().contains(t) {
                let i = choose|i: int| 0 <= i < y.len() && y[i] == t;
                assert(b[i + 1] == t);
                assert(less(b[0], b[i + 1]));
                assert(b.to_set().contains(t));
                assert(a.to_set().contains(t));
                let j = choose|j: int| 0 <= j < a.len() && a[j] == t;
                assert(j > 0);
                assert(x[j - 1] == t);
            }
        }
        assert(x.to_set() =~= y.to_set());
        lemma_increasing_unique(x, y, less);
        assert(a =~= seq![a[0]] + x);
        assert(b =~= seq![b[0]] + y);
    }
}

/// An item put between those that come before it and those that come after
/// it keeps the listing in increasing order and adds itself to what is
/// listed. It is enough that the item comes before its right neighbour.
pub proof fn lemma_insert_in_place<T>(before: Seq<T>, item: T, i: int, less: spec_fn(T, T) -> bool)
    requires
        is_strict_order(less),
        increasing(before, less),
        0 <= i <= before.len(),
        forall|k: int| 0 <= k < i ==> less(#[trigger] before[k], item),
        i < before.len() ==> less(item, before[i]),
    ensures
        increasing(before.insert(i, item), less),
        before.insert(i, item).to_set() == before.to_set().insert(item),
{
    let after = before.insert(i, item);
    assert forall|k: int| i <= k < before.len() implies less(item, #[trigger] before[k]) by {
        if k > i {
            assert(less(before[i], before[k]));
        }
    }
    assert forall|a: int, b: int| 0 <= a < b < after.len() implies less(
        #[trigger] after[a],
        #[trigger] after[b],
    ) by {
        if b < i {
            assert(less(before[a], before[b]));
        } else if b == i {
            assert(less(before[a], item));
        } else if a < i {
            assert(less(before[a], item));
            assert(less(item, before[b - 1]));
        } else if a == i {
            assert(less(item, before[b - 1]));
        } else {
            assert(less(before[a - 1], before[b - 1]));
        }
    }
    assert forall|t: T| after.to_set().contains(t) <==> before.to_set().insert(item).contains(
        t,
    ) by {
        if after.to_set().contains(t) {
            let k = choose|k: int| 0 <= k < after.len() && after[k] == t;
            if k < i {
                assert(before[k] == t);
            } else if k > i {
                assert(before[k - 1] == t);
            }
        }
        if before.to_set().contains(t) {
            let k = choose|k: int| 0 <= k < before.len() && before[k] == t;
            if k < i {
                assert(after[k] == t);
            } else {
                assert(after[k + 1] == t);
            }
        }
        if t == item {
            assert(after[i] == t);
        }
    }
    assert(after.to_set() =~= before.to_set().insert(item));
}

/// Items that are kept in the increasing order of their keys.
pub trait Keyed: Sized {
    /// What an item is ordered by.
    type Key;

    /// The key of the item.
    spec fn key(&self) -> Self::Key;

    /// Whether key `a` comes before key `b`.
    spec fn key_less(a: Self::Key, b: Self::Key) -> bool;

    /// The keys are in a strict order in which any two different keys are
    /// ordered one way or the other.
    proof fn lemma_keys_are_ordered()
        ensures
            forall|a: Self::Key| !#[trigger] Self::key_less(a, a),
            forall|a: Self::Key, b: Self::Key, c: Self::Key|
                #[trigger] Self::key_less(a, b) && #[trigger] Self::key_less(b, c)
                    ==> Self::key_less(a, c),
            forall|a: Self::Key, b: Self::Key|
                a == b || #[trigger] Self::key_less(a, b) || Self::key_less(b, a),
    ;

    /// How the item stands to `other` by their keys.
    fn place(&self, other: &Self) -> (r: TokenOrder)
        ensures
            r == TokenOrder::Same <==> self.key() == other.key(),
            r == TokenOrder::Before <==> Self::key_less(self.key(), other.key()),
            r == TokenOrder::After <==> Self::key_less(other.key(), self.key()),
    ;
}

/// The order of the keys of `T` as a relation.
pub open spec fn key_order<T: Keyed>() -> spec_fn(T::Key, T::Key) -> bool {
    |a: T::Key, b: T::Key| T::key_less(a, b)
}

/// The keys of the items, in their order.
pub open spec fn keys<T: Keyed>(items: Seq<T>) -> Seq<T::Key> {
    Seq::new(items.len(), |i: int| items[i].key())
}

/// Puts `item` in its place among items whose keys increase, unless an item
/// with its key is there already.
pub fn insert_in_order<T: Keyed>(items: &mut Vec<T>, item: T)
    requires
        increasing(keys(old(items)@), key_order::<T>()),
    ensures
        increasing(keys(final(items)@), key_order::<T>()),
        keys(final(items)@).to_set() == keys(old(items)@).to_set().insert(item.key()),
{
    let ghost before = keys(items@);
    let ghost less = key_order::<T>();
    let mut i: usize = 0;
    let mut placed = false;
    while i < items.len() && !placed
        invariant
            *items == *old(items),
            before == keys(items@),
            less == key_order::<T>(),
            increasing(before, less),
            i <= items.len(),
            forall|k: int| 0 <= k < i ==> less(#[trigger] before[k], item.key()),
            placed ==> i < items.len() && less(item.key(), before[i as int]),
        decreases
                items.len() - i,
                if placed {
                    0int
                } else {
                    1int
                },
    {
        assert(before[i as int] == items[i as int].key());
        match item.place(&items[i]) {
            TokenOrder::Same => {
                assert(before.to_set().insert(item.key()) =~= before.to_set());
                return ;
            },
            TokenOrder::Before => {
                placed = true;
            },
            TokenOrder::After => {
                i += 1;
            },
        }
    }
    items.insert(i, item);
    proof {
        assert(keys(items@) =~= before.insert(i as int, item.key()));
        T::lemma_keys_are_ordered();
        assert(is_strict_order(less));
        lemma_insert_in_place(before, item.key(), i as int, less);
    }
}

} // verus!

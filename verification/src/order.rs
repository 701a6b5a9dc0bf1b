//! The order of texts, and a stable sort.
use vstd::prelude::*;

use crate::text::{chars_of, Text};

verus! {

/// Lexicographic order by code points.
pub open spec fn text_le(a: Text, b: Text) -> bool
    decreases a.len(),
{
    if a.len() == 0 {
        true
    } else if b.len() == 0 {
        false
    } else if a[0] != b[0] {
        a[0] < b[0]
    } else {
        text_le(a.drop_first(), b.drop_first())
    }
}

pub(crate) fn text_not_after(a: &str, b: &str) -> (r: bool)
    ensures
        r == text_le(a@, b@),
{
    let left = chars_of(a);
    let right = chars_of(b);
    let mut i: usize = 0;
    assert(left@.skip(0) =~= left@ && right@.skip(0) =~= right@);
    while i < left.len() && i < right.len() && left[i] == right[i]
        invariant
            left@ == a@,
            right@ == b@,
            i <= left@.len(),
            i <= right@.len(),
            text_le(a@, b@) == text_le(left@.skip(i as int), right@.skip(i as int)),
        decreases left@.len() - i,
    {
        assert(left@.skip(i as int).drop_first() =~= left@.skip(i + 1));
        assert(right@.skip(i as int).drop_first() =~= right@.skip(i + 1));
        i += 1;
    }
    if i == left.len() {
        true
    } else if i == right.len() {
        false
    } else {
        left[i] < right[i]
    }
}

/// Any two texts are ordered one way or the other.
pub proof fn text_le_total(a: Text, b: Text)
    ensures
        text_le(a, b) || text_le(b, a),
    decreases a.len(),
{
    if a.len() > 0 && b.len() > 0 && a[0] == b[0] {
        text_le_total(a.drop_first(), b.drop_first());
    }
}

pub proof fn text_le_transitive(a: Text, b: Text, c: Text)
    requires
        text_le(a, b),
        text_le(b, c),
    ensures
        text_le(a, c),
    decreases a.len(),
{
    if a.len() > 0 && b.len() > 0 && c.len() > 0 && a[0] == b[0] && b[0] == c[0] {
        text_le_transitive(a.drop_first(), b.drop_first(), c.drop_first());
    }
}

/// Two texts that are not after each other are one text.
pub proof fn text_le_antisymmetric(a: Text, b: Text)
    requires
        text_le(a, b),
        text_le(b, a),
    ensures
        a == b,
    decreases a.len(),
{
    if a.len() > 0 && b.len() > 0 {
        let x = a.drop_first();
        let y = b.drop_first();
        text_le_antisymmetric(x, y);
        assert(x.len() == a.len() - 1 && y.len() == b.len() - 1);
        assert forall|i: int| 0 <= i < a.len() implies a[i] == b[i] by {
            if i > 0 {
                assert(a[i] == x[i - 1] && b[i] == y[i - 1]);
            }
        }
        assert(a =~= b);
    } else {
        assert(a.len() == 0 && b.len() == 0);
        assert(a =~= b);
    }
}

/// What a list can be sorted by: a total, transitive order on the views.
pub trait Ranked: DeepView + Sized {
    spec fn le(a: Self::V, b: Self::V) -> bool;

    proof fn le_is_total(a: Self::V, b: Self::V)
        ensures
            Self::le(a, b) || Self::le(b, a),
    ;

    proof fn le_is_transitive(a: Self::V, b: Self::V, c: Self::V)
        requires
            Self::le(a, b),
            Self::le(b, c),
        ensures
            Self::le(a, c),
    ;

    fn not_after(&self, other: &Self) -> (r: bool)
        ensures
            r == Self::le(self.deep_view(), other.deep_view()),
    ;
}

/// `x` put into `s` behind the last element that is not after it.
pub open spec fn inserted<T: Ranked>(s: Seq<T::V>, x: T::V) -> Seq<T::V>
    decreases s.len(),
{
    if s.len() > 0 && !T::le(s.last(), x) {
        inserted::<T>(s.drop_last(), x).push(s.last())
    } else {
        s.push(x)
    }
}

/// `s` in order; equal elements keep their places among each other.
pub open spec fn sorted<T: Ranked>(s: Seq<T::V>) -> Seq<T::V>
    decreases s.len(),
{
    if s.len() == 0 {
        s
    } else {
        inserted::<T>(sorted::<T>(s.drop_last()), s.last())
    }
}

/// Whether no element stands before one that it is after.
pub open spec fn in_order<T: Ranked>(s: Seq<T::V>) -> bool {
    forall|i: int, j: int| 0 <= i < j < s.len() ==> T::le(#[trigger] s[i], #[trigger] s[j])
}

proof fn lemma_inserted_at<T: Ranked>(s: Seq<T::V>, x: T::V, at: int)
    requires
        0 <= at <= s.len(),
        at > 0 ==> T::le(s[at - 1], x),
        forall|j: int| at <= j < s.len() ==> !T::le(#[trigger] s[j], x),
    ensures
        inserted::<T>(s, x) == s.insert(at, x),
    decreases s.len(),
{
    if at == s.len() {
        assert(s.insert(at, x) =~= s.push(x));
    } else {
        let front = s.drop_last();
        assert(!T::le(s.last(), x));
        assert forall|j: int| at <= j < front.len() implies !T::le(#[trigger] front[j], x) by {
            assert(front[j] == s[j]);
        }
        lemma_inserted_at::<T>(front, x, at);
        assert(s.insert(at, x) =~= front.insert(at, x).push(s.last()));
    }
}

pub(crate) fn sort<T: Ranked>(items: Vec<T>) -> (r: Vec<T>)
    ensures
        r.deep_view() == sorted::<T>(items.deep_view()),
{
    let ghost all = items.deep_view();
    let mut rest = items;
    let mut r: Vec<T> = Vec::new();
    let ghost mut done: int = 0;
    assert(all.take(0) =~= Seq::<T::V>::empty());
    assert(r.deep_view() =~= Seq::<T::V>::empty());
    assert(rest.deep_view() =~= all.skip(0));
    while rest.len() > 0
        invariant
            0 <= done <= all.len(),
            rest.deep_view() == all.skip(done),
            r.deep_view() == sorted::<T>(all.take(done)),
        decreases rest@.len(),
    {
        assert(rest.deep_view().len() == rest@.len());
        let ghost queue = rest.deep_view();
        let item = rest.remove(0);
        assert(rest.deep_view() =~= queue.skip(1));
        assert(item.deep_view() == all[done]) by {
            assert(all.skip(done)[0] == all[done]);
        }
        let ghost before = r.deep_view();
        let mut at: usize = r.len();
        while at > 0 && !r[at - 1].not_after(&item)
            invariant
                at <= r@.len(),
                before == r.deep_view(),
                before.len() == r@.len(),
                forall|j: int|
                    at <= j < before.len() ==> !T::le(#[trigger] before[j], item.deep_view()),
            decreases at,
        {
            at -= 1;
        }
        proof {
            lemma_inserted_at::<T>(before, item.deep_view(), at as int);
        }
        r.insert(at, item);
        proof {
            assert(r.deep_view() =~= before.insert(at as int, all[done]));
            assert(all.take(done + 1).drop_last() =~= all.take(done));
            assert(all.skip(done).skip(1) =~= all.skip(done + 1));
            done = done + 1;
        }
    }
    assert(all.skip(done).len() == rest@.len());
    assert(all.take(done) =~= all);
    r
}

proof fn lemma_inserted_in_order<T: Ranked>(s: Seq<T::V>, x: T::V)
    requires
        in_order::<T>(s),
    ensures
        in_order::<T>(inserted::<T>(s, x)),
        inserted::<T>(s, x).to_multiset() == s.to_multiset().insert(x),
    decreases s.len(),
{
    broadcast use vstd::seq_lib::group_to_multiset_ensures;

    let r = inserted::<T>(s, x);
    if s.len() > 0 && !T::le(s.last(), x) {
        let front = s.drop_last();
        lemma_inserted_in_order::<T>(front, x);
        let part = inserted::<T>(front, x);
        T::le_is_total(s.last(), x);
        assert(s =~= front.push(s.last()));
        assert forall|i: int, j: int| 0 <= i < j < r.len() implies T::le(
            #[trigger] r[i],
            #[trigger] r[j],
        ) by {
            if j == r.len() - 1 {
                assert(part.contains(part[i]));
                assert(part.to_multiset().count(part[i]) > 0);
                if r[i] != x {
                    assert(front.to_multiset().count(r[i]) > 0);
                    assert(front.contains(r[i]));
                    let k = choose|k: int| 0 <= k < front.len() && front[k] == r[i];
                    assert(T::le(s[k], s[s.len() - 1]));
                }
            } else {
                assert(T::le(part[i], part[j]));
            }
        }
        assert(r.to_multiset() =~= s.to_multiset().insert(x));
    } else {
        assert forall|i: int, j: int| 0 <= i < j < r.len() implies T::le(
            #[trigger] r[i],
            #[trigger] r[j],
        ) by {
            if j == r.len() - 1 && i < s.len() - 1 {
                assert(T::le(s[i], s[s.len() - 1]));
                T::le_is_transitive(s[i], s.last(), x);
            }
        }
    }
}

/// Sorting puts the elements in order and neither adds nor loses one.
pub proof fn sorting_orders_and_keeps<T: Ranked>(s: Seq<T::V>)
    ensures
        in_order::<T>(sorted::<T>(s)),
        sorted::<T>(s).to_multiset() == s.to_multiset(),
    decreases s.len(),
{
    broadcast use vstd::seq_lib::group_to_multiset_ensures;

    if s.len() > 0 {
        sorting_orders_and_keeps::<T>(s.drop_last());
        lemma_inserted_in_order::<T>(sorted::<T>(s.drop_last()), s.last());
        assert(s =~= s.drop_last().push(s.last()));
    }
}

} // verus!

//! Stable ordering of lists for display, with the laws that the result is a
//! permutation of the input and follows the display order.

use vstd::prelude::*;

verus! {

broadcast use vstd::seq_lib::group_to_multiset_ensures;

/// An order in which items are listed on screen: `a.shown_before(b)` holds
/// when `a` must be listed strictly ahead of `b`. Items of which neither is
/// shown before the other keep the order they came in.
pub trait DisplayOrder: Sized {
    spec fn shown_before(self, other: Self) -> bool;

    proof fn shown_before_asymmetric(a: Self, b: Self)
        requires
            a.shown_before(b),
        ensures
            !b.shown_before(a),
    ;

    proof fn shown_before_transitive(a: Self, b: Self, c: Self)
        requires
            a.shown_before(b),
            b.shown_before(c),
        ensures
            a.shown_before(c),
    ;

    fn is_shown_before(&self, other: &Self) -> (r: bool)
        ensures
            r == self.shown_before(*other),
    ;
}

/// The place at which `x` goes into the ordered list `s`: in front of the
/// first item that `x` is shown before, or at the end.
pub open spec fn insert_position<T: DisplayOrder>(s: Seq<T>, x: T) -> int
    decreases s.len(),
{
    if s.len() == 0 {
        0
    } else if x.shown_before(s[0]) {
        0
    } else {
        1 + insert_position(s.drop_first(), x)
    }
}

/// `s` with `x` put in at its insert position.
pub open spec fn insert_ordered<T: DisplayOrder>(s: Seq<T>, x: T) -> Seq<T> {
    s.insert(insert_position(s, x), x)
}

/// The stable display ordering of `s`: its items put one by one, first to
/// last, into an ordered list. This is what a stable sort by the display
/// order gives.
pub open spec fn display_ordered<T: DisplayOrder>(s: Seq<T>) -> Seq<T>
    decreases s.len(),
{
    if s.len() == 0 {
        Seq::empty()
    } else {
        insert_ordered(display_ordered(s.drop_last()), s.last())
    }
}

/// No item of `s` is shown before an item ahead of it.
pub open spec fn follows_display_order<T: DisplayOrder>(s: Seq<T>) -> bool {
    forall|i: int, j: int| 0 <= i < j < s.len() ==> !(#[trigger] s[j]).shown_before(#[trigger] s[i])
}

proof fn lemma_insert_position<T: DisplayOrder>(s: Seq<T>, x: T)
    ensures
        0 <= insert_position(s, x) <= s.len(),
        forall|k: int| 0 <= k < insert_position(s, x) ==> !x.shown_before(#[trigger] s[k]),
        insert_position(s, x) < s.len() ==> x.shown_before(s[insert_position(s, x)]),
    decreases s.len(),
{
    if s.len() > 0 && !x.shown_before(s[0]) {
        lemma_insert_position(s.drop_first(), x);
        assert forall|k: int| 0 <= k < insert_position(s, x) implies !x.shown_before(#[trigger] s[k]) by {
            if k > 0 {
                assert(s[k] == s.drop_first()[k - 1]);
            }
        }
    }
}

proof fn lemma_insert_keeps_order<T: DisplayOrder>(s: Seq<T>, x: T)
    requires
        follows_display_order(s),
    ensures
        follows_display_order(insert_ordered(s, x)),
{
    lemma_insert_position(s, x);
    let p = insert_position(s, x);
    let r = insert_ordered(s, x);
    assert forall|i: int, j: int| 0 <= i < j < r.len() implies !(#[trigger] r[j]).shown_before(#[trigger] r[i]) by {
        if j < p {
            assert(r[i] == s[i] && r[j] == s[j]);
        } else if j == p {
            assert(r[i] == s[i] && r[j] == x);
        } else if i < p {
            assert(r[i] == s[i] && r[j] == s[j - 1]);
        } else if i == p {
            assert(r[i] == x && r[j] == s[j - 1]);
            assert(x.shown_before(s[p]));
            if s[j - 1].shown_before(x) {
                T::shown_before_transitive(s[j - 1], x, s[p]);
                if j - 1 == p {
                    T::shown_before_asymmetric(s[p], s[p]);
                }
            }
        } else {
            assert(r[i] == s[i - 1] && r[j] == s[j - 1]);
        }
    }
}

/// Law: the display ordering of a list holds exactly its items, each as
/// often as before.
pub proof fn lemma_display_ordered_is_permutation<T: DisplayOrder>(s: Seq<T>)
    ensures
        display_ordered(s).to_multiset() == s.to_multiset(),
    decreases s.len(),
{
    if s.len() > 0 {
        let rest = display_ordered(s.drop_last());
        lemma_display_ordered_is_permutation(s.drop_last());
        lemma_insert_position(rest, s.last());
        vstd::seq_lib::to_multiset_insert(rest, insert_position(rest, s.last()), s.last());
        assert(s.drop_last().push(s.last()) =~= s);
    }
}

/// Law: the display ordering of a list follows the display order.
pub proof fn lemma_display_ordered_follows_order<T: DisplayOrder>(s: Seq<T>)
    ensures
        follows_display_order(display_ordered(s)),
    decreases s.len(),
{
    if s.len() > 0 {
        lemma_display_ordered_follows_order(s.drop_last());
        lemma_insert_keeps_order(display_ordered(s.drop_last()), s.last());
    }
}

/// Law: a list whose items are all in the same place in the display order
/// (none is shown before another) keeps its order.
pub proof fn lemma_display_ordered_keeps_ties<T: DisplayOrder>(s: Seq<T>)
    requires
        forall|i: int, j: int|
            0 <= i < s.len() && 0 <= j < s.len() ==> !(#[trigger] s[i]).shown_before(#[trigger] s[j]),
    ensures
        display_ordered(s) == s,
    decreases s.len(),
{
    if s.len() > 0 {
        let init = s.drop_last();
        lemma_display_ordered_keeps_ties(init);
        lemma_insert_position(init, s.last());
        let p = insert_position(init, s.last());
        if p < init.len() {
            assert(s.last().shown_before(s[p]));
        }
        assert(init.insert(p, s.last()) =~= s);
    }
}

/// Sorts `items` stably by the display order.
pub fn sort_for_display<T: DisplayOrder>(items: Vec<T>) -> (r: Vec<T>)
    ensures
        r@ == display_ordered(items@),
{
    let ghost all = items@;
    let n = items.len();
    let mut rest = items;
    let mut out: Vec<T> = Vec::new();
    let mut i: usize = 0;
    assert(all.take(0) =~= Seq::<T>::empty());
    assert(all.skip(0) =~= all);
    while i < n
        invariant
            n == all.len(),
            i <= n,
            rest@ == all.skip(i as int),
            out@ == display_ordered(all.take(i as int)),
        decreases n - i,
    {
        assert(rest@[0] == all[i as int]);
        let x = rest.remove(0);
        assert(rest@ =~= all.skip(i + 1));
        let mut j: usize = 0;
        while j < out.len() && !x.is_shown_before(&out[j])
            invariant
                j <= out.len(),
                forall|k: int| 0 <= k < j ==> !x.shown_before(#[trigger] out@[k]),
            decreases out.len() - j,
        {
            j = j + 1;
        }
        proof {
            lemma_insert_position(out@, x);
            let p = insert_position(out@, x);
            if (j as int) < p {
                assert(x.shown_before(out@[j as int]));
            }
            if p < j {
                assert(!x.shown_before(out@[p]));
            }
            assert(all.take(i + 1).drop_last() =~= all.take(i as int));
            assert(all.take(i + 1).last() == x);
        }
        out.insert(j, x);
        i = i + 1;
    }
    assert(all.take(n as int) =~= all);
    out
}

} // verus!

//! Stable sorting by block height.
//!
//! Events and positions are put in ascending order of the block they are
//! dated by; items of one block keep the order they came in.

use vstd::prelude::*;

verus! {

/// Something that is dated by a block height.
pub trait Dated: Copy {
    /// The block height that the item is dated by.
    spec fn date(&self) -> nat;

    /// Whether this item is dated no later than `other`.
    fn not_after(&self, other: &Self) -> (r: bool)
        ensures
            r == (self.date() <= other.date()),
    ;
}

/// `s` with `x` placed behind the last item that is dated no later than `x`.
pub open spec fn placed<T: Dated>(s: Seq<T>, x: T) -> Seq<T>
    decreases s.len(),
{
    if s.len() == 0 {
        seq![x]
    } else if s.last().date() <= x.date() {
        s.push(x)
    } else {
        placed(s.drop_last(), x).push(s.last())
    }
}

/// The items of `s` in ascending order of date, items of one date in the
/// order they have in `s`.
pub open spec fn by_date<T: Dated>(s: Seq<T>) -> Seq<T>
    decreases s.len(),
{
    if s.len() == 0 {
        Seq::empty()
    } else {
        placed(by_date(s.drop_last()), s.last())
    }
}

/// Whether the items of `s` are in ascending order of date.
pub open spec fn ascending<T: Dated>(s: Seq<T>) -> bool {
    forall|i: int, j: int| 0 <= i < j < s.len() ==> s[i].date() <= s[j].date()
}

/// Placing `x` is inserting it at the index `j` behind which every item is
/// dated later than `x` and before which the nearest item is not.
pub proof fn lemma_placed_at<T: Dated>(s: Seq<T>, x: T, j: int)
    requires
        0 <= j <= s.len(),
        forall|k: int| j <= k < s.len() ==> s[k].date() > x.date(),
        j > 0 ==> s[j - 1].date() <= x.date(),
    ensures
        placed(s, x) == s.insert(j, x),
    decreases s.len(),
{
    if s.len() == 0 {
        assert(s.insert(j, x) =~= seq![x]);
    } else if j == s.len() {
        assert(s.insert(j, x) =~= s.push(x));
    } else {
        lemma_placed_at(s.drop_last(), x, j);
        assert(s.drop_last().insert(j, x).push(s.last()) =~= s.insert(j, x));
    }
}

/// Placing an item adds that item and nothing else.
pub proof fn lemma_placed_adds<T: Dated>(s: Seq<T>, x: T)
    ensures
        placed(s, x).len() == s.len() + 1,
        placed(s, x).to_multiset() == s.to_multiset().insert(x),
    decreases s.len(),
{
    broadcast use vstd::seq_lib::group_to_multiset_ensures;

    if s.len() == 0 {
        assert(seq![x] =~= s.push(x));
    } else if s.last().date() <= x.date() {
    } else {
        let front = s.drop_last();
        lemma_placed_adds(front, x);
        assert(s =~= front.push(s.last()));
        assert(front.to_multiset().insert(x).insert(s.last()) =~= front.to_multiset().insert(
            s.last(),
        ).insert(x));
    }
}

/// Placing an item in an ascending sequence leaves it ascending.
pub proof fn lemma_placed_ascending<T: Dated>(s: Seq<T>, x: T)
    requires
        ascending(s),
    ensures
        ascending(placed(s, x)),
        forall|i: int|
            0 <= i < placed(s, x).len() ==> #[trigger] placed(s, x)[i] == x || s.contains(
                placed(s, x)[i],
            ),
    decreases s.len(),
{
    if s.len() == 0 {
    } else if s.last().date() <= x.date() {
        assert forall|i: int| 0 <= i < placed(s, x).len() implies #[trigger] placed(s, x)[i] == x
            || s.contains(placed(s, x)[i]) by {
            if i < s.len() {
                assert(s[i] == placed(s, x)[i]);
            }
        }
    } else {
        let front = s.drop_last();
        lemma_placed_ascending(front, x);
        let inner = placed(front, x);
        lemma_placed_adds(front, x);
        assert forall|i: int| 0 <= i < inner.len() implies #[trigger] inner[i].date()
            <= s.last().date() by {
            if inner[i] != x {
                assert(front.contains(inner[i]));
                let k = choose|k: int| 0 <= k < front.len() && front[k] == inner[i];
                assert(s[k] == front[k]);
            }
        }
        assert forall|i: int| 0 <= i < placed(s, x).len() implies #[trigger] placed(s, x)[i] == x
            || s.contains(placed(s, x)[i]) by {
            if i < inner.len() {
                if inner[i] != x {
                    let k = choose|k: int| 0 <= k < front.len() && front[k] == inner[i];
                    assert(s[k] == inner[i]);
                }
            } else {
                assert(s[s.len() - 1] == placed(s, x)[i]);
            }
        }
    }
}

/// Sorting yields an ascending sequence of the same items.
pub proof fn lemma_by_date_sorts<T: Dated>(s: Seq<T>)
    ensures
        ascending(by_date(s)),
        by_date(s).len() == s.len(),
        by_date(s).to_multiset() == s.to_multiset(),
    decreases s.len(),
{
    broadcast use vstd::seq_lib::group_to_multiset_ensures;

    if s.len() == 0 {
        assert(s =~= Seq::<T>::empty());
    } else {
        let front = s.drop_last();
        lemma_by_date_sorts(front);
        lemma_placed_ascending(by_date(front), s.last());
        lemma_placed_adds(by_date(front), s.last());
        assert(s =~= front.push(s.last()));
    }
}

/// A sequence that is ascending already is left as it is.
pub proof fn lemma_by_date_of_ascending<T: Dated>(s: Seq<T>)
    requires
        ascending(s),
    ensures
        by_date(s) == s,
    decreases s.len(),
{
    if s.len() > 0 {
        let front = s.drop_last();
        lemma_by_date_of_ascending(front);
        if front.len() > 0 {
            assert(front.last() == s[s.len() - 2]);
        }
        assert(front.push(s.last()) =~= s);
        lemma_placed_at(front, s.last(), front.len() as int);
        assert(front.insert(front.len() as int, s.last()) =~= s);
    }
}

/// Sorts `items` by date, ascending and stable.
pub fn sort_by_date<T: Dated>(items: &Vec<T>) -> (sorted: Vec<T>)
    ensures
        sorted@ == by_date(items@),
{
    let mut out: Vec<T> = Vec::new();
    let mut n: usize = 0;
    while n < items.len()
        invariant
            n <= items@.len(),
            out@.len() == n,
            out@ == by_date(items@.take(n as int)),
        decreases items@.len() - n,
    {
        let x: T = items[n];
        let mut j: usize = out.len();
        while j > 0 && !out[j - 1].not_after(&x)
            invariant
                j <= out@.len(),
                forall|k: int| j <= k < out@.len() ==> out@[k].date() > x.date(),
            decreases j,
        {
            j = j - 1;
        }
        proof {
            lemma_placed_at(out@, x, j as int);
            assert(items@.take(n + 1).drop_last() =~= items@.take(n as int));
            assert(items@.take(n + 1).last() == x);
        }
        out.insert(j, x);
        n = n + 1;
    }
    proof {
        assert(items@.take(n as int) =~= items@);
    }
    out
}

} // verus!

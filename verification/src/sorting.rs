//! Stable sorting.

use vstd::prelude::*;

use crate::text::chars_of;

verus! {

/// Values with an order in which lists of them are shown.
pub trait Ranked: View + Sized {
    /// Whether `a` may stand in front of `b`.
    spec fn ranks(a: Self::V, b: Self::V) -> bool;

    /// Of two values, one may stand in front of the other.
    proof fn ranks_total(a: Self::V, b: Self::V)
        ensures
            Self::ranks(a, b) || Self::ranks(b, a),
    ;

    /// The order carries over.
    proof fn ranks_transitive(a: Self::V, b: Self::V, c: Self::V)
        requires
            Self::ranks(a, b),
            Self::ranks(b, c),
        ensures
            Self::ranks(a, c),
    ;

    /// Tests whether `a` may stand in front of `b`.
    fn in_order(a: &Self, b: &Self) -> (yes: bool)
        ensures
            yes == Self::ranks(a@, b@),
    ;
}

/// The views of a sequence of values.
pub open spec fn item_views<T: View>(list: Seq<T>) -> Seq<T::V> {
    Seq::new(list.len(), |i: int| list[i]@)
}

/// `list` with `x` put behind the leading values that may stand in front of it.
pub open spec fn placed<T: Ranked>(list: Seq<T::V>, x: T::V) -> Seq<T::V>
    decreases list.len(),
{
    if list.len() == 0 {
        seq![x]
    } else if T::ranks(list[0], x) {
        seq![list[0]] + placed::<T>(list.drop_first(), x)
    } else {
        seq![x] + list
    }
}

/// `list` in order; values that may stand either way keep their places.
pub open spec fn ordered<T: Ranked>(list: Seq<T::V>) -> Seq<T::V>
    decreases list.len(),
{
    if list.len() == 0 {
        seq![]
    } else {
        placed::<T>(ordered::<T>(list.drop_last()), list.last())
    }
}

/// Two lists in one, `a` going first where the heads may stand either way.
spec fn merged<T: Ranked>(a: Seq<T::V>, b: Seq<T::V>) -> Seq<T::V>
    decreases a.len() + b.len(),
{
    if a.len() == 0 {
        b
    } else if b.len() == 0 {
        a
    } else if T::ranks(a[0], b[0]) {
        seq![a[0]] + merged::<T>(a.drop_first(), b)
    } else {
        seq![b[0]] + merged::<T>(a, b.drop_first())
    }
}

proof fn lemma_merge_placed<T: Ranked>(a: Seq<T::V>, b: Seq<T::V>, x: T::V)
    ensures
        placed::<T>(merged::<T>(a, b), x) == merged::<T>(a, placed::<T>(b, x)),
    decreases a.len() + b.len(),
{
    if a.len() == 0 {
    } else if b.len() == 0 {
        lemma_merge_one::<T>(a, x);
    } else if T::ranks(a[0], b[0]) {
        let rest = merged::<T>(a.drop_first(), b);
        assert((seq![a[0]] + rest).drop_first() =~= rest);
        if T::ranks(a[0], x) {
            lemma_merge_placed::<T>(a.drop_first(), b, x);
        } else {
            if T::ranks(b[0], x) {
                T::ranks_transitive(a[0], b[0], x);
            }
            let placed_b = placed::<T>(b, x);
            assert(placed_b == seq![x] + b);
            assert(placed_b.drop_first() =~= b);
        }
    } else {
        let rest = merged::<T>(a, b.drop_first());
        assert((seq![b[0]] + rest).drop_first() =~= rest);
        if T::ranks(b[0], x) {
            lemma_merge_placed::<T>(a, b.drop_first(), x);
            let placed_b = placed::<T>(b, x);
            assert(placed_b.drop_first() =~= placed::<T>(b.drop_first(), x));
        } else {
            let placed_b = placed::<T>(b, x);
            assert(placed_b.drop_first() =~= b);
            if T::ranks(a[0], x) {
                T::ranks_total(b[0], x);
                T::ranks_transitive(a[0], x, b[0]);
            }
        }
    }
}

proof fn lemma_merge_one<T: Ranked>(a: Seq<T::V>, x: T::V)
    ensures
        placed::<T>(a, x) == merged::<T>(a, seq![x]),
    decreases a.len(),
{
    if a.len() > 0 {
        if T::ranks(a[0], x) {
            lemma_merge_one::<T>(a.drop_first(), x);
        } else {
            assert(seq![x].drop_first() =~= Seq::<T::V>::empty());
            assert(merged::<T>(a, Seq::<T::V>::empty()) == a);
        }
    }
}

proof fn lemma_ordered_halves<T: Ranked>(a: Seq<T::V>, b: Seq<T::V>)
    ensures
        ordered::<T>(a + b) == merged::<T>(ordered::<T>(a), ordered::<T>(b)),
    decreases b.len(),
{
    if b.len() == 0 {
        assert(a + b =~= a);
        assert(ordered::<T>(b) == Seq::<T::V>::empty());
        if ordered::<T>(a).len() == 0 {
            assert(ordered::<T>(a) =~= ordered::<T>(b));
        }
    } else {
        assert((a + b).drop_last() =~= a + b.drop_last());
        lemma_ordered_halves::<T>(a, b.drop_last());
        lemma_merge_placed::<T>(ordered::<T>(a), ordered::<T>(b.drop_last()), b.last());
    }
}

proof fn lemma_placed<T: Ranked>(list: Seq<T::V>, x: T::V)
    ensures
        placed::<T>(list, x).to_multiset() == list.to_multiset().insert(x),
        placed::<T>(list, x).len() == list.len() + 1,
        forall|i: int|
            0 <= i < placed::<T>(list, x).len() ==> #[trigger] placed::<T>(list, x)[i] == x
                || list.contains(placed::<T>(list, x)[i]),
        (forall|i: int, j: int| 0 <= i < j < list.len() ==> T::ranks(list[i], list[j])) ==> (forall|
            i: int,
            j: int,
        |
            0 <= i < j < placed::<T>(list, x).len() ==> T::ranks(
                placed::<T>(list, x)[i],
                placed::<T>(list, x)[j],
            )),
    decreases list.len(),
{
    broadcast use vstd::seq_lib::group_to_multiset_ensures;

    let new = placed::<T>(list, x);
    if list.len() == 0 {
        assert(new =~= Seq::<T::V>::empty().push(x));
        assert(list =~= Seq::<T::V>::empty());
    } else if T::ranks(list[0], x) {
        let rest = list.drop_first();
        let tail = placed::<T>(rest, x);
        lemma_placed::<T>(rest, x);
        assert(new.drop_first() =~= tail);
        assert(list =~= seq![list[0]] + rest);
        vstd::seq_lib::lemma_multiset_commutative(seq![list[0]], tail);
        vstd::seq_lib::lemma_multiset_commutative(seq![list[0]], rest);
        assert(new.to_multiset() =~= list.to_multiset().insert(x));
        assert forall|i: int| 0 <= i < new.len() implies #[trigger] new[i] == x || list.contains(
            new[i],
        ) by {
            if i == 0 {
                assert(list.contains(list[0]));
            } else {
                assert(new[i] == tail[i - 1]);
                if tail[i - 1] != x {
                    let k = choose|k: int| 0 <= k < rest.len() && rest[k] == tail[i - 1];
                    assert(list[k + 1] == new[i]);
                }
            }
        }
        if forall|i: int, j: int| 0 <= i < j < list.len() ==> T::ranks(list[i], list[j]) {
            assert forall|i: int, j: int| 0 <= i < j < rest.len() implies T::ranks(
                rest[i],
                rest[j],
            ) by {
                assert(rest[i] == list[i + 1] && rest[j] == list[j + 1]);
            }
            assert forall|i: int, j: int| 0 <= i < j < new.len() implies T::ranks(
                new[i],
                new[j],
            ) by {
                assert(new[j] == tail[j - 1]);
                if i == 0 {
                    if tail[j - 1] != x {
                        let k = choose|k: int| 0 <= k < rest.len() && rest[k] == tail[j - 1];
                        assert(list[k + 1] == tail[j - 1]);
                    }
                } else {
                    assert(new[i] == tail[i - 1]);
                }
            }
        }
    } else {
        T::ranks_total(list[0], x);
        vstd::seq_lib::lemma_multiset_commutative(seq![x], list);
        assert(seq![x] =~= Seq::<T::V>::empty().push(x));
        assert(new.to_multiset() =~= list.to_multiset().insert(x));
        assert forall|i: int| 0 <= i < new.len() implies #[trigger] new[i] == x || list.contains(
            new[i],
        ) by {
            if i > 0 {
                assert(new[i] == list[i - 1]);
            }
        }
        if forall|i: int, j: int| 0 <= i < j < list.len() ==> T::ranks(list[i], list[j]) {
            assert forall|i: int, j: int| 0 <= i < j < new.len() implies T::ranks(
                new[i],
                new[j],
            ) by {
                assert(new[j] == list[j - 1]);
                if i == 0 {
                    if j - 1 > 0 {
                        assert(T::ranks(list[0], list[j - 1]));
                        T::ranks_transitive(x, list[0], list[j - 1]);
                    }
                } else {
                    assert(new[i] == list[i - 1]);
                }
            }
        }
    }
}

/// Putting a list in order loses no value and adds none, and leaves every value in
/// front of those that it may stand in front of.
pub proof fn law_ordered<T: Ranked>(list: Seq<T::V>)
    ensures
        ordered::<T>(list).to_multiset() == list.to_multiset(),
        ordered::<T>(list).len() == list.len(),
        forall|i: int, j: int|
            0 <= i < j < ordered::<T>(list).len() ==> T::ranks(
                ordered::<T>(list)[i],
                ordered::<T>(list)[j],
            ),
    decreases list.len(),
{
    broadcast use vstd::seq_lib::group_to_multiset_ensures;

    if list.len() == 0 {
        assert(list =~= Seq::<T::V>::empty());
    } else {
        law_ordered::<T>(list.drop_last());
        lemma_placed::<T>(ordered::<T>(list.drop_last()), list.last());
        assert(list =~= list.drop_last().push(list.last()));
    }
}

fn reversed<T: View>(list: Vec<T>) -> (backwards: Vec<T>)
    ensures
        item_views(backwards@) == item_views(list@).reverse(),
{
    let mut list = list;
    let ghost all = item_views(list@);
    let mut backwards: Vec<T> = Vec::new();
    while list.len() > 0
        invariant
            item_views(list@) == all.take(list@.len() as int),
            list@.len() <= all.len(),
            item_views(backwards@) == all.skip(list@.len() as int).reverse(),
        decreases list@.len(),
    {
        let ghost n = list@.len() as int;
        let ghost before = item_views(backwards@);
        let ghost shorter = item_views(list@);
        match list.pop() {
            Some(x) => {
                let ghost seen = x@;
                assert(seen == shorter[n - 1]);
                backwards.push(x);
                assert(item_views(backwards@) =~= before.push(seen));
                assert(item_views(list@) =~= all.take(n - 1));
                assert(item_views(backwards@) =~= all.skip(n - 1).reverse());
            },
            None => {},
        }
    }
    assert(all.skip(0) =~= all);
    backwards
}

fn merge<T: Ranked>(a: Vec<T>, b: Vec<T>) -> (both: Vec<T>)
    ensures
        item_views(both@) == merged::<T>(item_views(a@), item_views(b@)),
{
    let ghost all = merged::<T>(item_views(a@), item_views(b@));
    let mut left = reversed(a);
    let mut right = reversed(b);
    let mut both: Vec<T> = Vec::new();
    proof {
        assert(item_views(left@).reverse() =~= item_views(a@));
        assert(item_views(right@).reverse() =~= item_views(b@));
        assert(item_views(both@) + all =~= all);
    }
    while left.len() > 0 && right.len() > 0
        invariant
            item_views(both@) + merged::<T>(
                item_views(left@).reverse(),
                item_views(right@).reverse(),
            ) == all,
        decreases left@.len() + right@.len(),
    {
        let ghost before = item_views(both@);
        let ghost l = item_views(left@).reverse();
        let ghost r = item_views(right@).reverse();
        let n: usize = left.len();
        let m: usize = right.len();
        assert(l[0] == left@[n - 1]@ && r[0] == right@[m - 1]@);
        if T::in_order(&left[n - 1], &right[m - 1]) {
            match left.pop() {
                Some(x) => {
                    let ghost seen = x@;
                    both.push(x);
                    assert(item_views(both@) =~= before.push(seen));
                    assert(item_views(left@).reverse() =~= l.drop_first());
                    assert(before.push(seen) + merged::<T>(l.drop_first(), r) =~= before + (seq![
                        seen,
                    ] + merged::<T>(l.drop_first(), r)));
                },
                None => {},
            }
        } else {
            match right.pop() {
                Some(x) => {
                    let ghost seen = x@;
                    both.push(x);
                    assert(item_views(both@) =~= before.push(seen));
                    assert(item_views(right@).reverse() =~= r.drop_first());
                    assert(before.push(seen) + merged::<T>(l, r.drop_first()) =~= before + (seq![
                        seen,
                    ] + merged::<T>(l, r.drop_first())));
                },
                None => {},
            }
        }
    }
    let ghost before = item_views(both@);
    let ghost l = item_views(left@).reverse();
    let ghost r = item_views(right@).reverse();
    let mut rest = if left.len() > 0 { reversed(left) } else { reversed(right) };
    assert(item_views(rest@) =~= merged::<T>(l, r));
    let ghost tail = rest@;
    both.append(&mut rest);
    assert(item_views(both@) =~= before + item_views(tail));
    both
}

/// Puts a list in order; values that may stand either way keep their places.
pub fn sort<T: Ranked>(list: Vec<T>) -> (sorted: Vec<T>)
    ensures
        item_views(sorted@) == ordered::<T>(item_views(list@)),
    decreases list@.len(),
{
    let n: usize = list.len();
    if n < 2 {
        proof {
            let seen = item_views(list@);
            reveal_with_fuel(ordered, 3);
            if n == 1 {
                assert(seen.drop_last() =~= Seq::<T::V>::empty());
                assert(ordered::<T>(seen) =~= seen);
            } else {
                assert(ordered::<T>(seen) =~= seen);
            }
        }
        return list;
    }
    let mut front = list;
    let ghost all = item_views(front@);
    let back = front.split_off(n / 2);
    proof {
        assert(all =~= item_views(front@) + item_views(back@));
        lemma_ordered_halves::<T>(item_views(front@), item_views(back@));
    }
    merge(sort(front), sort(back))
}

/// A list that is in order stays as it is; so values that may stand either way keep
/// their places.
pub proof fn law_ordered_list_stays<T: Ranked>(list: Seq<T::V>)
    requires
        forall|i: int, j: int| 0 <= i < j < list.len() ==> T::ranks(list[i], list[j]),
    ensures
        ordered::<T>(list) == list,
    decreases list.len(),
{
    if list.len() > 0 {
        let front = list.drop_last();
        assert forall|i: int, j: int| 0 <= i < j < front.len() implies T::ranks(
            front[i],
            front[j],
        ) by {
            assert(T::ranks(list[i], list[j]));
        }
        law_ordered_list_stays::<T>(front);
        assert forall|i: int| 0 <= i < front.len() implies T::ranks(front[i], list.last()) by {
            assert(T::ranks(list[i], list[list.len() - 1]));
        }
        lemma_placed_last::<T>(front, list.last());
        assert(front.push(list.last()) == list);
    } else {
        assert(list =~= Seq::<T::V>::empty());
    }
}

proof fn lemma_placed_last<T: Ranked>(list: Seq<T::V>, x: T::V)
    requires
        forall|i: int| 0 <= i < list.len() ==> T::ranks(list[i], x),
    ensures
        placed::<T>(list, x) == list.push(x),
    decreases list.len(),
{
    if list.len() > 0 {
        assert(T::ranks(list[0], x));
        let rest = list.drop_first();
        assert forall|i: int| 0 <= i < rest.len() implies T::ranks(rest[i], x) by {
            assert(T::ranks(list[i + 1], x));
        }
        lemma_placed_last::<T>(rest, x);
        assert(seq![list[0]] + rest.push(x) =~= list.push(x));
    } else {
        assert(seq![x] =~= list.push(x));
    }
}

/// Whether a value may stand on either side of `x`.
pub open spec fn level_with<T: Ranked>(x: T::V) -> spec_fn(T::V) -> bool {
    |y: T::V| T::ranks(x, y) && T::ranks(y, x)
}

/// Sorting is stable: values that may stand on either side of one another come in the
/// order in which they came before.
pub proof fn law_sorting_is_stable<T: Ranked>(list: Seq<T::V>, x: T::V)
    ensures
        ordered::<T>(list).filter(level_with::<T>(x)) == list.filter(level_with::<T>(x)),
    decreases list.len(),
{
    reveal(Seq::filter);
    if list.len() > 0 {
        let front = list.drop_last();
        law_sorting_is_stable::<T>(front, x);
        law_ordered::<T>(front);
        let sorted = ordered::<T>(front);
        assert forall|i: int, j: int| 0 <= i < j < sorted.len() implies T::ranks(
            sorted[i],
            sorted[j],
        ) by {}
        lemma_placed_keeps_level::<T>(sorted, list.last(), x);
    } else {
        assert(ordered::<T>(list) =~= list);
    }
}

proof fn lemma_filter_first<A>(list: Seq<A>, p: spec_fn(A) -> bool)
    requires
        list.len() > 0,
    ensures
        list.filter(p) == (if p(list[0]) {
            seq![list[0]]
        } else {
            seq![]
        }) + list.drop_first().filter(p),
    decreases list.len(),
{
    reveal(Seq::filter);
    let rest = list.drop_first();
    if list.len() == 1 {
        assert(list.drop_last() =~= Seq::<A>::empty());
        assert(rest =~= Seq::<A>::empty());
        assert(list.filter(p) =~= (if p(list[0]) {
            seq![list[0]]
        } else {
            seq![]
        }) + rest.filter(p));
    } else {
        lemma_filter_first(list.drop_last(), p);
        assert(list.drop_last().drop_first() =~= rest.drop_last());
        assert(rest.last() == list.last());
        assert(list.filter(p) =~= (if p(list[0]) {
            seq![list[0]]
        } else {
            seq![]
        }) + rest.filter(p));
    }
}

proof fn lemma_none_level<A>(list: Seq<A>, p: spec_fn(A) -> bool)
    requires
        forall|i: int| 0 <= i < list.len() ==> !p(#[trigger] list[i]),
    ensures
        list.filter(p) == Seq::<A>::empty(),
    decreases list.len(),
{
    reveal(Seq::filter);
    if list.len() > 0 {
        assert(!p(list[list.len() - 1]));
        assert forall|i: int| 0 <= i < list.drop_last().len() implies !p(
            #[trigger] list.drop_last()[i],
        ) by {
            assert(list.drop_last()[i] == list[i]);
        }
        lemma_none_level(list.drop_last(), p);
    }
}

proof fn lemma_placed_keeps_level<T: Ranked>(list: Seq<T::V>, new: T::V, x: T::V)
    requires
        forall|i: int, j: int| 0 <= i < j < list.len() ==> T::ranks(list[i], list[j]),
    ensures
        placed::<T>(list, new).filter(level_with::<T>(x)) == (if level_with::<T>(x)(new) {
            list.filter(level_with::<T>(x)).push(new)
        } else {
            list.filter(level_with::<T>(x))
        }),
    decreases list.len(),
{
    let p = level_with::<T>(x);
    let whole = placed::<T>(list, new);
    if list.len() == 0 {
        reveal(Seq::filter);
        assert(whole.drop_last() =~= list);
        assert(list.filter(p) =~= Seq::<T::V>::empty());
    } else if T::ranks(list[0], new) {
        let rest = list.drop_first();
        assert forall|i: int, j: int| 0 <= i < j < rest.len() implies T::ranks(
            rest[i],
            rest[j],
        ) by {
            assert(T::ranks(list[i + 1], list[j + 1]));
        }
        lemma_placed_keeps_level::<T>(rest, new, x);
        assert(whole.drop_first() =~= placed::<T>(rest, new));
        lemma_filter_first(whole, p);
        lemma_filter_first(list, p);
        let head = if p(list[0]) {
            seq![list[0]]
        } else {
            seq![]
        };
        assert(head + rest.filter(p).push(new) =~= (head + rest.filter(p)).push(new));
    } else {
        assert(whole.drop_first() =~= list);
        lemma_filter_first(whole, p);
        if p(new) {
            // Whatever is level with `x` is level with `new`, and would stand before it.
            assert forall|i: int| 0 <= i < list.len() implies !p(#[trigger] list[i]) by {
                if p(list[i]) {
                    T::ranks_transitive(list[i], x, new);
                    if i > 0 {
                        assert(T::ranks(list[0], list[i]));
                        T::ranks_transitive(list[0], list[i], new);
                    }
                }
            }
            lemma_none_level(list, p);
            assert(seq![new] + list.filter(p) =~= list.filter(p).push(new));
        } else {
            assert(Seq::<T::V>::empty() + list.filter(p) =~= list.filter(p));
        }
    }
}

// ---------------------------------------------------------------------------
// Text
// ---------------------------------------------------------------------------

/// Whether `a` comes before `b` or equals it, by the code points of their characters.
pub open spec fn text_at_most(a: Seq<char>, b: Seq<char>) -> bool
    decreases a.len(),
{
    if a.len() == 0 {
        true
    } else if b.len() == 0 {
        false
    } else if a[0] == b[0] {
        text_at_most(a.drop_first(), b.drop_first())
    } else {
        a[0] < b[0]
    }
}

proof fn lemma_text_total(a: Seq<char>, b: Seq<char>)
    ensures
        text_at_most(a, b) || text_at_most(b, a),
    decreases a.len(),
{
    if a.len() > 0 && b.len() > 0 && a[0] == b[0] {
        lemma_text_total(a.drop_first(), b.drop_first());
    }
}

proof fn lemma_text_transitive(a: Seq<char>, b: Seq<char>, c: Seq<char>)
    requires
        text_at_most(a, b),
        text_at_most(b, c),
    ensures
        text_at_most(a, c),
    decreases a.len(),
{
    if a.len() > 0 && b.len() > 0 && c.len() > 0 && a[0] == b[0] && b[0] == c[0] {
        lemma_text_transitive(a.drop_first(), b.drop_first(), c.drop_first());
    }
}

/// The first character in which two texts differ decides which of them comes first, the
/// one with the smaller code point; a text comes before every longer one that starts
/// with it.
pub proof fn law_text_order(common: Seq<char>, a: Seq<char>, b: Seq<char>)
    requires
        a.len() > 0 && b.len() > 0 ==> a[0] != b[0],
    ensures
        text_at_most(common + a, common + b) == (a.len() == 0 || (b.len() > 0 && a[0] < b[0])),
    decreases common.len(),
{
    let left = common + a;
    let right = common + b;
    if common.len() > 0 {
        assert(left.drop_first() =~= common.drop_first() + a);
        assert(right.drop_first() =~= common.drop_first() + b);
        law_text_order(common.drop_first(), a, b);
    } else {
        assert(left =~= a && right =~= b);
    }
}

impl Ranked for String {
    open spec fn ranks(a: Seq<char>, b: Seq<char>) -> bool {
        text_at_most(a, b)
    }

    proof fn ranks_total(a: Seq<char>, b: Seq<char>) {
        lemma_text_total(a, b);
    }

    proof fn ranks_transitive(a: Seq<char>, b: Seq<char>, c: Seq<char>) {
        lemma_text_transitive(a, b, c);
    }

    fn in_order(a: &Self, b: &Self) -> (yes: bool) {
        let left = chars_of(a.as_str());
        let right = chars_of(b.as_str());
        let mut i: usize = 0;
        assert(left@.skip(0) =~= left@ && right@.skip(0) =~= right@);
        while i < left.len() && i < right.len() && left[i] == right[i]
            invariant
                i <= left@.len(),
                i <= right@.len(),
                text_at_most(left@, right@) == text_at_most(
                    left@.skip(i as int),
                    right@.skip(i as int),
                ),
            decreases left@.len() - i,
        {
            assert(left@.skip(i as int).drop_first() =~= left@.skip(i + 1));
            assert(right@.skip(i as int).drop_first() =~= right@.skip(i + 1));
            i = i + 1;
        }
        if i == left.len() {
            true
        } else if i == right.len() {
            false
        } else {
            left[i] < right[i]
        }
    }
}

} // verus!

//! Stable sorting.

use crate::text;
use vstd::prelude::*;

verus! {

/// `s` with `x` put behind the last item that is not above it, counted from the end.
pub open spec fn placed<T>(s: Seq<T>, x: T, leq: spec_fn(T, T) -> bool) -> Seq<T>
    decreases s.len(),
{
    if s.len() == 0 || leq(s.last(), x) {
        s.push(x)
    } else {
        placed(s.drop_last(), x, leq).push(s.last())
    }
}

/// The items of `s` in ascending order; items that are level keep the order they had.
pub open spec fn arranged<T>(s: Seq<T>, leq: spec_fn(T, T) -> bool) -> Seq<T>
    decreases s.len(),
{
    if s.len() == 0 {
        s
    } else {
        placed(arranged(s.drop_last(), leq), s.last(), leq)
    }
}

/// Whether every item is not above those behind it.
pub open spec fn ascending<T>(s: Seq<T>, leq: spec_fn(T, T) -> bool) -> bool {
    forall|i: int, j: int| 0 <= i < j < s.len() ==> #[trigger] leq(s[i], s[j])
}

/// Whether `leq` orders any two items and chains.
pub open spec fn total_preorder<T>(leq: spec_fn(T, T) -> bool) -> bool {
    &&& forall|a: T, b: T| #[trigger] leq(a, b) || leq(b, a)
    &&& forall|a: T, b: T, c: T| #[trigger] leq(a, b) && #[trigger] leq(b, c) ==> leq(a, c)
}

proof fn lemma_placed<T>(s: Seq<T>, x: T, leq: spec_fn(T, T) -> bool)
    requires
        total_preorder(leq),
        ascending(s, leq),
    ensures
        ascending(placed(s, x, leq), leq),
        placed(s, x, leq).to_multiset() == s.to_multiset().insert(x),
        placed(s, x, leq).len() == s.len() + 1,
    decreases s.len(),
{
    broadcast use vstd::seq_lib::group_to_multiset_ensures;

    let r = placed(s, x, leq);
    if s.len() == 0 || leq(s.last(), x) {
        assert forall|i: int, j: int| 0 <= i < j < r.len() implies #[trigger] leq(r[i], r[j]) by {
            if j == s.len() {
                if i < s.len() - 1 {
                    assert(leq(s[i], s[s.len() - 1]));
                }
                assert(leq(s.last(), x));
            } else {
                assert(leq(s[i], s[j]));
            }
        }
    } else {
        let t = s.drop_last();
        assert forall|i: int, j: int| 0 <= i < j < t.len() implies #[trigger] leq(t[i], t[j]) by {
            assert(leq(s[i], s[j]));
        }
        lemma_placed(t, x, leq);
        let p = placed(t, x, leq);
        assert(leq(x, s.last()));
        assert forall|i: int, j: int| 0 <= i < j < r.len() implies #[trigger] leq(r[i], r[j]) by {
            if j == p.len() {
                assert(p.to_multiset().count(p[i]) > 0) by {
                    assert(p.contains(p[i]));
                }
                if p[i] != x {
                    assert(t.to_multiset().count(p[i]) > 0);
                    assert(t.contains(p[i]));
                    let k = choose|k: int| 0 <= k < t.len() && t[k] == p[i];
                    assert(leq(s[k], s[s.len() - 1]));
                }
            } else {
                assert(leq(p[i], p[j]));
            }
        }
        assert(s =~= t.push(s.last()));
        assert(r.to_multiset() =~= s.to_multiset().insert(x));
    }
}

/// Sorting puts the items in ascending order, and neither drops nor adds one.
pub proof fn lemma_arranged<T>(s: Seq<T>, leq: spec_fn(T, T) -> bool)
    requires
        total_preorder(leq),
    ensures
        ascending(arranged(s, leq), leq),
        arranged(s, leq).to_multiset() == s.to_multiset(),
        arranged(s, leq).len() == s.len(),
    decreases s.len(),
{
    broadcast use vstd::seq_lib::group_to_multiset_ensures;

    if s.len() > 0 {
        lemma_arranged(s.drop_last(), leq);
        lemma_placed(arranged(s.drop_last(), leq), s.last(), leq);
        assert(s =~= s.drop_last().push(s.last()));
    }
}

/// What is sorted holds the items that were there before, and no other.
pub proof fn lemma_arranged_members<T>(s: Seq<T>, leq: spec_fn(T, T) -> bool)
    ensures
        arranged(s, leq).len() == s.len(),
        forall|x: T| arranged(s, leq).contains(x) <==> s.contains(x),
    decreases s.len(),
{
    if s.len() > 0 {
        let t = s.drop_last();
        lemma_arranged_members(t, leq);
        lemma_placed_members(arranged(t, leq), s.last(), leq);
        assert forall|x: T| arranged(s, leq).contains(x) <==> s.contains(x) by {
            if s.contains(x) {
                let k = choose|k: int| 0 <= k < s.len() && s[k] == x;
                if k < t.len() {
                    assert(t[k] == x);
                }
            }
            if t.contains(x) {
                let k = choose|k: int| 0 <= k < t.len() && t[k] == x;
                assert(s[k] == x);
            }
            assert(s[s.len() - 1] == s.last());
        }
    }
}

proof fn lemma_placed_members<T>(s: Seq<T>, x: T, leq: spec_fn(T, T) -> bool)
    ensures
        placed(s, x, leq).len() == s.len() + 1,
        forall|y: T| placed(s, x, leq).contains(y) <==> (y == x || s.contains(y)),
    decreases s.len(),
{
    let r = placed(s, x, leq);
    if s.len() == 0 || leq(s.last(), x) {
        assert forall|y: T| r.contains(y) <==> (y == x || s.contains(y)) by {
            if s.contains(y) {
                let k = choose|k: int| 0 <= k < s.len() && s[k] == y;
                assert(r[k] == y);
            }
            assert(r[s.len() as int] == x);
        }
    } else {
        let t = s.drop_last();
        lemma_placed_members(t, x, leq);
        let p = placed(t, x, leq);
        assert forall|y: T| r.contains(y) <==> (y == x || s.contains(y)) by {
            if p.contains(y) {
                let k = choose|k: int| 0 <= k < p.len() && p[k] == y;
                assert(r[k] == y);
            }
            if t.contains(y) {
                let k = choose|k: int| 0 <= k < t.len() && t[k] == y;
                assert(s[k] == y);
            }
            if s.contains(y) {
                let k = choose|k: int| 0 <= k < s.len() && s[k] == y;
                if k < t.len() {
                    assert(t[k] == y);
                }
            }
            if r.contains(y) {
                let k = choose|k: int| 0 <= k < r.len() && r[k] == y;
                if k < p.len() {
                    assert(p[k] == y);
                }
            }
            assert(r[p.len() as int] == s.last());
            assert(s[s.len() - 1] == s.last());
        }
    }
}

/// Sorting and mapping can change places where the order sees the same in both.
pub proof fn lemma_arranged_map<T, U>(
    s: Seq<T>,
    f: spec_fn(T) -> U,
    leq: spec_fn(T, T) -> bool,
    leq_image: spec_fn(U, U) -> bool,
)
    requires
        forall|a: T, b: T| #[trigger] leq(a, b) == leq_image(f(a), f(b)),
    ensures
        arranged(s, leq).map_values(f) == arranged(s.map_values(f), leq_image),
    decreases s.len(),
{
    if s.len() > 0 {
        let t = s.drop_last();
        lemma_arranged_map(t, f, leq, leq_image);
        lemma_placed_map(arranged(t, leq), s.last(), f, leq, leq_image);
        assert(s.map_values(f).drop_last() =~= t.map_values(f));
    } else {
        assert(arranged(s, leq).map_values(f) =~= arranged(s.map_values(f), leq_image));
    }
}

proof fn lemma_placed_map<T, U>(
    s: Seq<T>,
    x: T,
    f: spec_fn(T) -> U,
    leq: spec_fn(T, T) -> bool,
    leq_image: spec_fn(U, U) -> bool,
)
    requires
        forall|a: T, b: T| #[trigger] leq(a, b) == leq_image(f(a), f(b)),
    ensures
        placed(s, x, leq).map_values(f) == placed(s.map_values(f), f(x), leq_image),
    decreases s.len(),
{
    if s.len() == 0 || leq(s.last(), x) {
        assert(s.push(x).map_values(f) =~= s.map_values(f).push(f(x)));
    } else {
        let t = s.drop_last();
        lemma_placed_map(t, x, f, leq, leq_image);
        assert(s.map_values(f).drop_last() =~= t.map_values(f));
        assert(placed(t, x, leq).push(s.last()).map_values(f) =~= placed(
            t.map_values(f),
            f(x),
            leq_image,
        ).push(f(s.last())));
    }
}

/// The items of `v` in ascending order; items that are level keep the order they had.
pub(crate) fn arrange<T>(
    v: Vec<T>,
    le: impl Fn(&T, &T) -> bool,
    Ghost(leq): Ghost<spec_fn(T, T) -> bool>,
) -> (r: Vec<T>)
    requires
        forall|a: &T, b: &T| #[trigger] le.requires((a, b)),
        forall|a: &T, b: &T, c: bool| #[trigger] le.ensures((a, b), c) ==> c == leq(*a, *b),
    ensures
        r@ == arranged(v@, leq),
{
    let ghost all = v@;
    let mut rest = v;
    let mut r: Vec<T> = Vec::new();
    assert(all.skip(0) =~= all);
    assert(all.take(0) =~= Seq::<T>::empty());
    while rest.len() > 0
        invariant
            rest@.len() <= all.len(),
            rest@ == all.skip(all.len() - rest@.len()),
            r@ == arranged(all.take(all.len() - rest@.len()), leq),
            forall|a: &T, b: &T| #[trigger] le.requires((a, b)),
            forall|a: &T, b: &T, c: bool| #[trigger] le.ensures((a, b), c) ==> c == leq(*a, *b),
        decreases rest@.len(),
    {
        let ghost n = all.len() - rest@.len();
        let x = rest.remove(0);
        assert(x == all[n]);
        assert(rest@ =~= all.skip(n + 1));
        assert(all.take(n + 1).drop_last() =~= all.take(n));
        let mut k: usize = r.len();
        let ghost goal = placed(r@, x, leq);
        assert(r@.take(k as int) =~= r@);
        assert(goal =~= placed(r@.take(k as int), x, leq) + r@.skip(k as int));
        while k > 0 && !le(&r[k - 1], &x)
            invariant
                k <= r@.len(),
                goal == placed(r@.take(k as int), x, leq) + r@.skip(k as int),
                forall|a: &T, b: &T| #[trigger] le.requires((a, b)),
                forall|a: &T, b: &T, c: bool| #[trigger] le.ensures((a, b), c) ==> c == leq(*a, *b),
            ensures
                k <= r@.len(),
                goal == placed(r@.take(k as int), x, leq) + r@.skip(k as int),
                k > 0 ==> leq(r@[k - 1], x),
            decreases k,
        {
            assert(r@.take(k as int).drop_last() =~= r@.take(k - 1));
            assert(placed(r@.take(k - 1), x, leq).push(r@[k - 1]) + r@.skip(k as int) =~= placed(
                r@.take(k - 1),
                x,
                leq,
            ) + r@.skip(k - 1));
            k -= 1;
        }
        assert(goal =~= r@.take(k as int).push(x) + r@.skip(k as int));
        r.insert(k, x);
        assert(r@ =~= goal);
    }
    assert(all.take(all.len() as int) =~= all);
    r
}

/// The order of texts.
pub open spec fn by_text() -> spec_fn(Seq<char>, Seq<char>) -> bool {
    |a: Seq<char>, b: Seq<char>| text::not_after(a, b)
}

/// Texts in their order.
pub fn sort_texts(v: Vec<String>) -> (r: Vec<String>)
    ensures
        text::views(r@) == arranged(text::views(v@), by_text()),
{
    let ghost leq = |a: String, b: String| text::not_after(a@, b@);
    let ghost all = v@;
    let le = |a: &String, b: &String| -> (c: bool)
        ensures
            c == text::not_after(a@, b@),
        { text::le(a.as_str(), b.as_str()) };
    let r = arrange(v, le, Ghost(leq));
    proof {
        lemma_arranged_map(all, |s: String| s@, leq, by_text());
    }
    r
}

} // verus!

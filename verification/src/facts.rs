//! What selections, deletions and updates of tables have to do with each other.

use crate::table::{
    any, change_where, first, in_order, insert_ordered, lemma_order_by_in_order, limited, not,
    order_by, orders, put,
};
use vstd::prelude::*;

verus! {

/// There is a first item exactly where there is one at all, and it is one.
pub proof fn lemma_first<V>(s: Seq<V>, p: spec_fn(V) -> bool)
    ensures
        first(s, p) is Some == any(s, p),
        first(s, p) matches Some(v) ==> p(v) && s.contains(v),
    decreases s.len(),
{
    if s.len() > 0 {
        let rest = s.drop_first();
        lemma_first(rest, p);
        if p(s[0]) {
            assert(s.contains(s[0]));
        } else {
            if any(rest, p) {
                let i = choose|i: int| 0 <= i < rest.len() && p(#[trigger] rest[i]);
                assert(p(s[i + 1]));
            }
            if any(s, p) {
                let i = choose|i: int| 0 <= i < s.len() && p(#[trigger] s[i]);
                assert(p(rest[i - 1]));
            }
            if let Some(v) = first(rest, p) {
                let i = rest.index_of(v);
                assert(s[i + 1] == v);
            }
        }
    }
}

/// The first item of a longer sequence.
pub proof fn lemma_first_push<V>(s: Seq<V>, v: V, p: spec_fn(V) -> bool)
    ensures
        first(s.push(v), p) == if any(s, p) {
            first(s, p)
        } else if p(v) {
            Some(v)
        } else {
            None
        },
    decreases s.len(),
{
    let t = s.push(v);
    lemma_first(s, p);
    if s.len() > 0 {
        assert(t.drop_first() =~= s.drop_first().push(v));
        assert(t[0] == s[0]);
        lemma_first(s.drop_first(), p);
        lemma_first_push(s.drop_first(), v, p);
    } else {
        assert(t[0] == v);
        assert(t.drop_first() =~= Seq::<V>::empty());
        assert(first(Seq::<V>::empty(), p) is None);
    }
}

/// Whether an item satisfies `p` after one was put at the end.
pub proof fn lemma_any_push<V>(s: Seq<V>, v: V, p: spec_fn(V) -> bool)
    ensures
        any(s.push(v), p) == (any(s, p) || p(v)),
{
    let t = s.push(v);
    if any(s, p) {
        let i = choose|i: int| 0 <= i < s.len() && p(#[trigger] s[i]);
        assert(p(t[i]));
    }
    if p(v) {
        assert(p(t[s.len() as int]));
    }
    if any(t, p) {
        let i = choose|i: int| 0 <= i < t.len() && p(#[trigger] t[i]);
        if i < s.len() {
            assert(p(s[i]));
        }
    }
}

/// Items that an update leaves alone, where the predicate sees no change.
pub proof fn lemma_first_change<V>(
    s: Seq<V>,
    p: spec_fn(V) -> bool,
    f: spec_fn(V) -> V,
    q: spec_fn(V) -> bool,
)
    requires
        forall|v: V| p(v) ==> q(#[trigger] f(v)) == q(v),
    ensures
        first(change_where(s, p, f), q) == match first(s, q) {
            Some(v) => Some(
                if p(v) {
                    f(v)
                } else {
                    v
                },
            ),
            None => None,
        },
        any(change_where(s, p, f), q) == any(s, q),
    decreases s.len(),
{
    let t = change_where(s, p, f);
    lemma_first(s, q);
    lemma_first(t, q);
    if s.len() > 0 {
        lemma_first_change(s.drop_first(), p, f, q);
        assert(change_where(s.drop_first(), p, f) =~= t.drop_first());
    }
}

/// What was put is found again.
pub proof fn lemma_put_first<V>(s: Seq<V>, p: spec_fn(V) -> bool, f: spec_fn(V) -> V, v: V)
    requires
        p(v),
        forall|w: V| p(w) ==> p(#[trigger] f(w)),
    ensures
        first(put(s, p, f, v), p) == match first(s, p) {
            Some(w) => Some(f(w)),
            None => Some(v),
        },
{
    lemma_first(s, p);
    if any(s, p) {
        lemma_first_change(s, p, f, p);
    } else {
        lemma_first_push(s, v, p);
    }
}

/// Putting an item leaves the others as they are.
pub proof fn lemma_put_other<V>(
    s: Seq<V>,
    p: spec_fn(V) -> bool,
    f: spec_fn(V) -> V,
    v: V,
    q: spec_fn(V) -> bool,
)
    requires
        !q(v),
        forall|w: V| p(w) ==> !q(w) && !q(#[trigger] f(w)),
    ensures
        first(put(s, p, f, v), q) == first(s, q),
{
    lemma_first(s, q);
    if any(s, p) {
        lemma_first_change(s, p, f, q);
    } else {
        lemma_first_push(s, v, q);
    }
}

/// Which items a filter lets through.
pub proof fn lemma_filter_contains<V>(s: Seq<V>, p: spec_fn(V) -> bool, v: V)
    ensures
        s.filter(p).contains(v) == (s.contains(v) && p(v)),
    decreases s.len(),
{
    reveal(Seq::filter);
    if s.len() > 0 {
        let rest = s.drop_last();
        lemma_filter_contains(rest, p, v);
        let kept = rest.filter(p);
        if s.contains(v) && !rest.contains(v) {
            let i = s.index_of(v);
            assert(i == s.len() - 1) by {
                if i < s.len() - 1 {
                    assert(rest[i] == v);
                }
            }
        }
        if rest.contains(v) {
            let i = rest.index_of(v);
            assert(s[i] == v);
        }
        if p(s.last()) {
            let t = kept.push(s.last());
            assert(t[kept.len() as int] == s.last());
            if kept.contains(v) {
                let i = kept.index_of(v);
                assert(t[i] == v);
            }
            if t.contains(v) {
                let i = t.index_of(v);
                if i < kept.len() {
                    assert(kept[i] == v);
                }
            }
        }
        assert(s[s.len() - 1] == s.last());
    }
}

/// Of what a filter lets through, `q` holds somewhere exactly where it holds of
/// an item that satisfies `p`.
pub proof fn lemma_any_filter<V>(s: Seq<V>, p: spec_fn(V) -> bool, q: spec_fn(V) -> bool)
    ensures
        any(s.filter(p), q) == any(s, |v: V| p(v) && q(v)),
{
    let both = |v: V| p(v) && q(v);
    let t = s.filter(p);
    if any(t, q) {
        let i = choose|i: int| 0 <= i < t.len() && q(#[trigger] t[i]);
        lemma_filter_contains(s, p, t[i]);
        assert(t.contains(t[i]));
        let j = s.index_of(t[i]);
        assert(both(s[j]));
    }
    if any(s, both) {
        let i = choose|i: int| 0 <= i < s.len() && both(#[trigger] s[i]);
        lemma_filter_contains(s, p, s[i]);
        assert(s.contains(s[i]));
        let j = t.index_of(s[i]);
        assert(q(t[j]));
    }
}

/// What was deleted is gone.
pub proof fn lemma_rejected<V>(s: Seq<V>, p: spec_fn(V) -> bool)
    ensures
        !any(s.filter(not(p)), p),
        first(s.filter(not(p)), p) is None,
        s.filter(not(p)).filter(p) == Seq::<V>::empty(),
{
    let t = s.filter(not(p));
    if any(t, p) {
        let i = choose|i: int| 0 <= i < t.len() && p(#[trigger] t[i]);
        assert(t.contains(t[i]));
        lemma_filter_contains(s, not(p), t[i]);
    }
    lemma_first(t, p);
    lemma_filter_none(t, p);
}

/// A filter that nothing passes leaves nothing.
pub proof fn lemma_filter_none<V>(s: Seq<V>, p: spec_fn(V) -> bool)
    requires
        !any(s, p),
    ensures
        s.filter(p) == Seq::<V>::empty(),
        s.filter(not(p)) == s,
    decreases s.len(),
{
    reveal(Seq::filter);
    if s.len() > 0 {
        let rest = s.drop_last();
        if any(rest, p) {
            let i = choose|i: int| 0 <= i < rest.len() && p(#[trigger] rest[i]);
            assert(p(s[i]));
        }
        assert(!p(s[s.len() - 1]));
        lemma_filter_none(rest, p);
        assert(rest.push(s.last()) =~= s);
    } else {
        assert(s =~= Seq::<V>::empty());
    }
}

/// A deletion of other items does not change what is found first.
pub proof fn lemma_first_kept<V>(s: Seq<V>, keep: spec_fn(V) -> bool, q: spec_fn(V) -> bool)
    requires
        forall|v: V| #[trigger] q(v) ==> keep(v),
    ensures
        first(s.filter(keep), q) == first(s, q),
        any(s.filter(keep), q) == any(s, q),
        s.filter(keep).filter(q) == s.filter(q),
    decreases s.len(),
{
    reveal(Seq::filter);
    lemma_first(s, q);
    lemma_first(s.filter(keep), q);
    if s.len() > 0 {
        let rest = s.drop_last();
        lemma_first_kept(rest, keep, q);
        assert(rest.push(s.last()) =~= s);
        lemma_first_push(rest, s.last(), q);
        lemma_first_push(rest.filter(keep), s.last(), q);
        lemma_any_push(rest, s.last(), q);
        lemma_any_push(rest.filter(keep), s.last(), q);
        if keep(s.last()) {
            assert(s.filter(keep) == rest.filter(keep).push(s.last()));
            assert(rest.filter(keep).push(s.last()).drop_last() =~= rest.filter(keep));
        } else {
            assert(s.filter(keep) == rest.filter(keep));
            assert(!q(s.last()));
        }
    }
}

/// A second filter finds what it would have found without the first, where the
/// first lets all of that through.
pub proof fn lemma_filter_within<V>(s: Seq<V>, keep: spec_fn(V) -> bool, q: spec_fn(V) -> bool)
    requires
        forall|i: int| 0 <= i < s.len() && q(#[trigger] s[i]) ==> keep(s[i]),
    ensures
        s.filter(keep).filter(q) == s.filter(q),
    decreases s.len(),
{
    reveal(Seq::filter);
    if s.len() > 0 {
        let rest = s.drop_last();
        assert forall|i: int| 0 <= i < rest.len() && q(#[trigger] rest[i]) implies keep(rest[i]) by {
            assert(rest[i] == s[i]);
        }
        lemma_filter_within(rest, keep, q);
        assert(q(s[s.len() - 1]) ==> keep(s[s.len() - 1]));
        if keep(s.last()) {
            assert(rest.filter(keep).push(s.last()).drop_last() =~= rest.filter(keep));
        }
    }
}

/// A filter sees no update that its predicate does not see.
pub proof fn lemma_filter_change<V>(
    s: Seq<V>,
    p: spec_fn(V) -> bool,
    f: spec_fn(V) -> V,
    q: spec_fn(V) -> bool,
)
    requires
        forall|v: V| p(v) ==> q(#[trigger] f(v)) == q(v),
    ensures
        change_where(s, p, f).filter(q) == change_where(s.filter(q), p, f),
    decreases s.len(),
{
    reveal(Seq::filter);
    let t = change_where(s, p, f);
    if s.len() > 0 {
        let rest = s.drop_last();
        lemma_filter_change(rest, p, f, q);
        assert(t.drop_last() =~= change_where(rest, p, f));
        let last = if p(s.last()) {
            f(s.last())
        } else {
            s.last()
        };
        assert(t.last() == last);
        assert(change_where(rest.filter(q).push(s.last()), p, f) =~= change_where(
            rest.filter(q),
            p,
            f,
        ).push(last));
    } else {
        assert(t.filter(q) =~= change_where(s.filter(q), p, f));
    }
}

/// A projection sees no update that leaves it alone.
pub proof fn lemma_map_change<V, U>(
    s: Seq<V>,
    p: spec_fn(V) -> bool,
    f: spec_fn(V) -> V,
    g: spec_fn(V) -> U,
)
    requires
        forall|v: V| p(v) ==> g(#[trigger] f(v)) == g(v),
    ensures
        change_where(s, p, f).map_values(g) == s.map_values(g),
{
    assert(change_where(s, p, f).map_values(g) =~= s.map_values(g));
}

/// A filter of two sequences, one after the other.
pub proof fn lemma_filter_concat<V>(a: Seq<V>, b: Seq<V>, p: spec_fn(V) -> bool)
    ensures
        (a + b).filter(p) == a.filter(p) + b.filter(p),
    decreases b.len(),
{
    reveal(Seq::filter);
    if b.len() == 0 {
        assert(a + b =~= a);
        assert(a.filter(p) + b.filter(p) =~= a.filter(p));
    } else {
        assert((a + b).drop_last() =~= a + b.drop_last());
        lemma_filter_concat(a, b.drop_last(), p);
        assert((a.filter(p) + b.drop_last().filter(p)).push(b.last()) =~= a.filter(p) + (
        b.drop_last().filter(p).push(b.last())));
    }
}

/// A filter of a sequence with one item more.
pub proof fn lemma_filter_push<V>(s: Seq<V>, v: V, p: spec_fn(V) -> bool)
    ensures
        s.push(v).filter(p) == if p(v) {
            s.filter(p).push(v)
        } else {
            s.filter(p)
        },
{
    reveal(Seq::filter);
    assert(s.push(v).drop_last() =~= s);
}

/// Filtering twice by the same predicate.
pub proof fn lemma_filter_twice<V>(s: Seq<V>, p: spec_fn(V) -> bool)
    ensures
        s.filter(p).filter(p) == s.filter(p),
        !any(s.filter(p), not(p)),
{
    lemma_first_kept(s, p, p);
    let t = s.filter(p);
    if any(t, not(p)) {
        let i = choose|i: int| 0 <= i < t.len() && not(p)(#[trigger] t[i]);
        assert(t.contains(t[i]));
        lemma_filter_contains(s, p, t[i]);
    }
}

/// One item of an updated sequence.
pub open spec fn changed<V>(p: spec_fn(V) -> bool, f: spec_fn(V) -> V, v: V) -> V {
    if p(v) {
        f(v)
    } else {
        v
    }
}

proof fn lemma_insert_change<V>(
    s: Seq<V>,
    v: V,
    lt: spec_fn(V, V) -> bool,
    p: spec_fn(V) -> bool,
    f: spec_fn(V) -> V,
)
    requires
        forall|a: V, b: V| #[trigger] lt(changed(p, f, a), changed(p, f, b)) == lt(a, b),
    ensures
        insert_ordered(
            change_where(s, p, f),
            changed(p, f, v),
            lt,
        ) == change_where(insert_ordered(s, v, lt), p, f),
    decreases s.len(),
{
    let w = changed(p, f, v);
    let t = change_where(s, p, f);
    if s.len() > 0 {
        assert(t.last() == changed(p, f, s.last()));
    }
    if s.len() == 0 || !lt(v, s.last()) {
        if s.len() > 0 {
            assert(lt(w, t.last()) == lt(v, s.last()));
        }
        assert(t.push(w) =~= change_where(s.push(v), p, f));
    } else {
        assert(lt(w, t.last()) == lt(v, s.last()));
        lemma_insert_change(s.drop_last(), v, lt, p, f);
        assert(t.drop_last() =~= change_where(s.drop_last(), p, f));
        assert(insert_ordered(t.drop_last(), w, lt).push(t.last()) =~= change_where(
            insert_ordered(s.drop_last(), v, lt).push(s.last()),
            p,
            f,
        ));
    }
}

/// An order sees no update that leaves what it compares alone.
pub proof fn lemma_order_change<V>(
    s: Seq<V>,
    lt: spec_fn(V, V) -> bool,
    p: spec_fn(V) -> bool,
    f: spec_fn(V) -> V,
)
    requires
        forall|a: V, b: V| #[trigger] lt(changed(p, f, a), changed(p, f, b)) == lt(a, b),
    ensures
        order_by(change_where(s, p, f), lt) == change_where(order_by(s, lt), p, f),
    decreases s.len(),
{
    let t = change_where(s, p, f);
    if s.len() > 0 {
        lemma_order_change(s.drop_last(), lt, p, f);
        assert(t.drop_last() =~= change_where(s.drop_last(), p, f));
        assert(t.last() == changed(p, f, s.last()));
        lemma_insert_change(order_by(s.drop_last(), lt), s.last(), lt, p, f);
    } else {
        assert(t =~= s);
        assert(change_where(order_by(s, lt), p, f) =~= order_by(t, lt));
    }
}

proof fn lemma_insert_contains<V>(s: Seq<V>, v: V, lt: spec_fn(V, V) -> bool, w: V)
    ensures
        insert_ordered(s, v, lt).contains(w) == (s.contains(w) || w == v),
    decreases s.len(),
{
    let out = insert_ordered(s, v, lt);
    if s.len() == 0 || !lt(v, s.last()) {
        assert(out[s.len() as int] == v);
        if s.contains(w) {
            assert(out[s.index_of(w)] == w);
        }
        if out.contains(w) && w != v {
            assert(s[out.index_of(w)] == w);
        }
    } else {
        let rest = s.drop_last();
        let inner = insert_ordered(rest, v, lt);
        lemma_insert_contains(rest, v, lt, w);
        assert(out == inner.push(s.last()));
        assert(out[inner.len() as int] == s.last());
        if inner.contains(w) {
            assert(out[inner.index_of(w)] == w);
        }
        if rest.contains(w) {
            assert(s[rest.index_of(w)] == w);
        }
        if s.contains(w) && w != s.last() {
            assert(rest[s.index_of(w)] == w);
        }
        if out.contains(w) && w != s.last() {
            assert(inner[out.index_of(w)] == w);
        }
        assert(s[s.len() - 1] == s.last());
    }
}

/// Ordering keeps the items.
pub proof fn lemma_order_contains<V>(s: Seq<V>, lt: spec_fn(V, V) -> bool, w: V)
    ensures
        order_by(s, lt).contains(w) == s.contains(w),
    decreases s.len(),
{
    if s.len() > 0 {
        let rest = s.drop_last();
        lemma_order_contains(rest, lt, w);
        lemma_insert_contains(order_by(rest, lt), s.last(), lt, w);
        if rest.contains(w) {
            assert(s[rest.index_of(w)] == w);
        }
        if s.contains(w) && w != s.last() {
            assert(rest[s.index_of(w)] == w);
        }
        assert(s[s.len() - 1] == s.last());
    }
}

/// The first items of an updated sequence.
pub proof fn lemma_limited_change<V>(s: Seq<V>, n: nat, p: spec_fn(V) -> bool, f: spec_fn(V) -> V)
    ensures
        limited(change_where(s, p, f), n) == change_where(limited(s, n), p, f),
{
    assert(limited(change_where(s, p, f), n) =~= change_where(limited(s, n), p, f));
}

/// One filter after another.
pub proof fn lemma_filter_both<V>(
    s: Seq<V>,
    p: spec_fn(V) -> bool,
    q: spec_fn(V) -> bool,
    r: spec_fn(V) -> bool,
)
    requires
        forall|i: int| 0 <= i < s.len() ==> r(#[trigger] s[i]) == (p(s[i]) && q(s[i])),
    ensures
        s.filter(p).filter(q) == s.filter(r),
    decreases s.len(),
{
    reveal(Seq::filter);
    if s.len() > 0 {
        let rest = s.drop_last();
        assert forall|i: int| 0 <= i < rest.len() implies r(#[trigger] rest[i]) == (p(rest[i])
            && q(rest[i])) by {
            assert(rest[i] == s[i]);
        }
        lemma_filter_both(rest, p, q, r);
        assert(r(s[s.len() - 1]) == (p(s[s.len() - 1]) && q(s[s.len() - 1])));
        lemma_filter_push(rest.filter(p), s.last(), q);
    }
}

/// What an update does to the items that a filter lets through.
pub proof fn lemma_changed_filter<V>(
    s: Seq<V>,
    p: spec_fn(V) -> bool,
    f: spec_fn(V) -> V,
    before: spec_fn(V) -> bool,
    after: spec_fn(V) -> bool,
)
    requires
        forall|i: int|
            0 <= i < s.len() ==> after(changed(p, f, #[trigger] s[i])) == before(s[i]),
    ensures
        change_where(s, p, f).filter(after) == change_where(s.filter(before), p, f),
    decreases s.len(),
{
    reveal(Seq::filter);
    let t = change_where(s, p, f);
    if s.len() > 0 {
        let rest = s.drop_last();
        assert forall|i: int| 0 <= i < rest.len() implies after(
            changed(p, f, #[trigger] rest[i]),
        ) == before(rest[i]) by {
            assert(rest[i] == s[i]);
        }
        lemma_changed_filter(rest, p, f, before, after);
        assert(t.drop_last() =~= change_where(rest, p, f));
        assert(after(changed(p, f, s[s.len() - 1])) == before(s[s.len() - 1]));
        assert(t.last() == changed(p, f, s.last()));
        if before(s.last()) {
            assert(change_where(rest.filter(before).push(s.last()), p, f) =~= change_where(
                rest.filter(before),
                p,
                f,
            ).push(t.last()));
        }
    } else {
        assert(t.filter(after) =~= change_where(s.filter(before), p, f));
    }
}

proof fn lemma_in_order_filter<V>(s: Seq<V>, lt: spec_fn(V, V) -> bool, v: V)
    requires
        in_order(s, lt),
        s.len() > 0,
        s.contains(v),
    ensures
        !lt(s.last(), v) || v == s.last(),
{
    let i = s.index_of(v);
    if i < s.len() - 1 {
        assert(!lt(s[s.len() - 1], s[i]));
    }
}

proof fn lemma_insert_filter<V>(
    s: Seq<V>,
    v: V,
    lt: spec_fn(V, V) -> bool,
    p: spec_fn(V) -> bool,
)
    requires
        orders(lt),
        in_order(s, lt),
    ensures
        insert_ordered(s, v, lt).filter(p) == if p(v) {
            insert_ordered(s.filter(p), v, lt)
        } else {
            s.filter(p)
        },
    decreases s.len(),
{
    let kept = s.filter(p);
    if s.len() == 0 {
        reveal(Seq::filter);
        lemma_filter_push(s, v, p);
    } else if !lt(v, s.last()) {
        lemma_filter_push(s, v, p);
        if kept.len() > 0 {
            let w = kept.last();
            assert(kept[kept.len() - 1] == w);
            assert(kept.contains(w));
            lemma_filter_contains(s, p, w);
            lemma_in_order_filter(s, lt, w);
            assert(!lt(v, w));
        }
    } else {
        let rest = s.drop_last();
        assert(rest.push(s.last()) =~= s);
        assert(in_order(rest, lt)) by {
            assert forall|i: int, j: int| 0 <= i < j < rest.len() implies !lt(
                #[trigger] rest[j],
                #[trigger] rest[i],
            ) by {
                assert(!lt(s[j], s[i]));
            }
        }
        lemma_insert_filter(rest, v, lt, p);
        lemma_filter_push(rest, s.last(), p);
        lemma_filter_push(insert_ordered(rest, v, lt), s.last(), p);
        if p(s.last()) {
            assert(kept.drop_last() =~= rest.filter(p));
        }
    }
}

/// Ordering what a filter lets through is letting through what was ordered.
pub proof fn lemma_order_filter<V>(s: Seq<V>, lt: spec_fn(V, V) -> bool, p: spec_fn(V) -> bool)
    requires
        orders(lt),
    ensures
        order_by(s.filter(p), lt) == order_by(s, lt).filter(p),
    decreases s.len(),
{
    if s.len() > 0 {
        let rest = s.drop_last();
        assert(rest.push(s.last()) =~= s);
        lemma_order_filter(rest, lt, p);
        lemma_filter_push(rest, s.last(), p);
        lemma_order_by_in_order(rest, lt);
        lemma_insert_filter(order_by(rest, lt), s.last(), lt, p);
        if p(s.last()) {
            assert(rest.filter(p).push(s.last()).drop_last() =~= rest.filter(p));
        }
    } else {
        reveal(Seq::filter);
        assert(s.filter(p) =~= s);
    }
}

/// A filter and a map, in either order.
pub proof fn lemma_map_filter<V, U>(
    s: Seq<V>,
    f: spec_fn(V) -> U,
    p: spec_fn(V) -> bool,
    q: spec_fn(U) -> bool,
)
    requires
        forall|v: V| q(#[trigger] f(v)) == p(v),
    ensures
        s.map_values(f).filter(q) == s.filter(p).map_values(f),
    decreases s.len(),
{
    reveal(Seq::filter);
    if s.len() > 0 {
        let rest = s.drop_last();
        lemma_map_filter(rest, f, p, q);
        assert(s.map_values(f).drop_last() =~= rest.map_values(f));
        assert(q(f(s.last())) == p(s.last()));
        if p(s.last()) {
            assert(rest.filter(p).push(s.last()).map_values(f) =~= rest.filter(p).map_values(
                f,
            ).push(f(s.last())));
        }
    } else {
        assert(s.map_values(f).filter(q) =~= s.filter(p).map_values(f));
    }
}

} // verus!

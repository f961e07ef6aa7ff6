//! Tables as vectors of rows: selection, deletion, update and ordering.
//!
//! A table's contents are its deep view, a sequence of row models. Every
//! function here relates the deep view of what it returns to the deep view of
//! what it was given, so that the callers' contracts speak of models only.

use vstd::prelude::*;

verus! {

/// A value that can stand in a table.
pub trait Row: DeepView + Sized {
    /// A second value with the same model.
    fn dup(&self) -> (copy: Self)
        ensures
            copy.deep_view() == self.deep_view(),
    ;
}

impl Row for u8 {
    fn dup(&self) -> (copy: Self) {
        *self
    }
}

impl Row for i64 {
    fn dup(&self) -> (copy: Self) {
        *self
    }
}

impl Row for u32 {
    fn dup(&self) -> (copy: Self) {
        *self
    }
}

impl Row for bool {
    fn dup(&self) -> (copy: Self) {
        *self
    }
}

impl Row for String {
    fn dup(&self) -> (copy: Self) {
        self.clone()
    }
}

impl<R: Row> Row for Option<R> {
    fn dup(&self) -> (copy: Self) {
        match self {
            Some(row) => Some(row.dup()),
            None => None,
        }
    }
}

impl<R: Row> Row for Vec<R> {
    fn dup(&self) -> (copy: Self) {
        let mut copy: Vec<R> = Vec::new();
        let mut i: usize = 0;
        while i < self.len()
            invariant
                i <= self.len(),
                copy.len() == i,
                forall|j: int| 0 <= j < i ==> #[trigger] copy[j].deep_view() == self[j].deep_view(),
            decreases self.len() - i,
        {
            copy.push(self[i].dup());
            i += 1;
        }
        assert(copy.deep_view() =~= self.deep_view());
        copy
    }
}

impl<A: Row, B: Row> Row for (A, B) {
    fn dup(&self) -> (copy: Self) {
        (self.0.dup(), self.1.dup())
    }
}

impl<A: Row, B: Row, C: Row> Row for (A, B, C) {
    fn dup(&self) -> (copy: Self) {
        (self.0.dup(), self.1.dup(), self.2.dup())
    }
}

impl<A: Row, B: Row, C: Row, D: Row> Row for (A, B, C, D) {
    fn dup(&self) -> (copy: Self) {
        (self.0.dup(), self.1.dup(), self.2.dup(), self.3.dup())
    }
}

impl<A: Row, B: Row, C: Row, D: Row, E: Row> Row for (A, B, C, D, E) {
    fn dup(&self) -> (copy: Self) {
        (self.0.dup(), self.1.dup(), self.2.dup(), self.3.dup(), self.4.dup())
    }
}

/// `v` put into `s` behind every item that it does not precede.
pub open spec fn insert_ordered<V>(s: Seq<V>, v: V, lt: spec_fn(V, V) -> bool) -> Seq<V>
    decreases s.len(),
{
    if s.len() == 0 || !lt(v, s.last()) {
        s.push(v)
    } else {
        insert_ordered(s.drop_last(), v, lt).push(s.last())
    }
}

/// `s` in the order of `lt`; items that `lt` does not tell apart keep their
/// order.
pub open spec fn order_by<V>(s: Seq<V>, lt: spec_fn(V, V) -> bool) -> Seq<V>
    decreases s.len(),
{
    if s.len() == 0 {
        s
    } else {
        insert_ordered(order_by(s.drop_last(), lt), s.last(), lt)
    }
}

/// How many items of `s` satisfy `p`.
pub open spec fn count<V>(s: Seq<V>, p: spec_fn(V) -> bool) -> nat {
    s.filter(p).len()
}

/// Whether some item of `s` satisfies `p`.
pub open spec fn any<V>(s: Seq<V>, p: spec_fn(V) -> bool) -> bool {
    exists|i: int| 0 <= i < s.len() && p(#[trigger] s[i])
}

/// The first item of `s` that satisfies `p`.
pub open spec fn first<V>(s: Seq<V>, p: spec_fn(V) -> bool) -> Option<V>
    decreases s.len(),
{
    if s.len() == 0 {
        None
    } else if p(s[0]) {
        Some(s[0])
    } else {
        first(s.drop_first(), p)
    }
}

/// The last item of a sequence, if there is one.
pub open spec fn last_of<V>(s: Seq<V>) -> Option<V> {
    if s.len() == 0 {
        None
    } else {
        Some(s.last())
    }
}

/// `f` applied where `p` holds.
pub open spec fn change_where<V>(
    s: Seq<V>,
    p: spec_fn(V) -> bool,
    f: spec_fn(V) -> V,
) -> Seq<V> {
    s.map_values(
        |v: V|
            if p(v) {
                f(v)
            } else {
                v
            },
    )
}

/// `f` applied to the items that satisfy `p` or, where there is none, `v` put
/// at the end.
pub open spec fn put<V>(
    s: Seq<V>,
    p: spec_fn(V) -> bool,
    f: spec_fn(V) -> V,
    v: V,
) -> Seq<V> {
    if any(s, p) {
        change_where(s, p, f)
    } else {
        s.push(v)
    }
}

/// The first item of a sequence, if there is one.
pub open spec fn first_of<V>(s: Seq<V>) -> Option<V> {
    if s.len() == 0 {
        None
    } else {
        Some(s[0])
    }
}

/// The first `n` items of a sequence, or all where there are fewer.
pub open spec fn limited<V>(s: Seq<V>, n: nat) -> Seq<V> {
    if s.len() <= n {
        s
    } else {
        s.take(n as int)
    }
}

/// The negation of a predicate.
pub open spec fn not<V>(p: spec_fn(V) -> bool) -> spec_fn(V) -> bool {
    |v: V| !p(v)
}

pub proof fn lemma_insert_at<V>(s: Seq<V>, v: V, lt: spec_fn(V, V) -> bool, pos: int)
    requires
        0 <= pos <= s.len(),
        forall|i: int| pos <= i < s.len() ==> lt(v, #[trigger] s[i]),
        pos == 0 || !lt(v, s[pos - 1]),
    ensures
        insert_ordered(s, v, lt) == s.insert(pos, v),
    decreases s.len(),
{
    if pos == s.len() {
        assert(s.insert(pos, v) =~= s.push(v));
    } else {
        let rest = s.drop_last();
        assert(lt(v, s[s.len() - 1]));
        lemma_insert_at(rest, v, lt, pos);
        assert(rest.insert(pos, v).push(s.last()) =~= s.insert(pos, v));
    }
}

pub proof fn lemma_insert_ordered_len<V>(s: Seq<V>, v: V, lt: spec_fn(V, V) -> bool)
    ensures
        insert_ordered(s, v, lt).len() == s.len() + 1,
    decreases s.len(),
{
    if s.len() > 0 && lt(v, s.last()) {
        lemma_insert_ordered_len(s.drop_last(), v, lt);
    }
}

/// Ordering keeps the number of items.
pub proof fn lemma_order_by_len<V>(s: Seq<V>, lt: spec_fn(V, V) -> bool)
    ensures
        order_by(s, lt).len() == s.len(),
    decreases s.len(),
{
    if s.len() > 0 {
        lemma_order_by_len(s.drop_last(), lt);
        lemma_insert_ordered_len(order_by(s.drop_last(), lt), s.last(), lt);
    }
}

/// What a filter lets through satisfies its predicate.
pub proof fn lemma_filter_holds<V>(s: Seq<V>, p: spec_fn(V) -> bool)
    ensures
        forall|i: int| 0 <= i < s.filter(p).len() ==> p(#[trigger] s.filter(p)[i]),
    decreases s.len(),
{
    reveal(Seq::filter);
    if s.len() > 0 {
        lemma_filter_holds(s.drop_last(), p);
    }
}

proof fn lemma_insert_holds<V>(s: Seq<V>, v: V, lt: spec_fn(V, V) -> bool, p: spec_fn(V) -> bool)
    requires
        p(v),
        forall|i: int| 0 <= i < s.len() ==> p(#[trigger] s[i]),
    ensures
        forall|i: int|
            0 <= i < insert_ordered(s, v, lt).len() ==> p(#[trigger] insert_ordered(s, v, lt)[i]),
    decreases s.len(),
{
    let out = insert_ordered(s, v, lt);
    if s.len() > 0 && lt(v, s.last()) {
        let rest = insert_ordered(s.drop_last(), v, lt);
        lemma_insert_holds(s.drop_last(), v, lt, p);
        assert forall|i: int| 0 <= i < out.len() implies p(#[trigger] out[i]) by {
            if i == rest.len() {
                assert(p(s[s.len() - 1]));
            } else {
                assert(out[i] == rest[i]);
            }
        }
    }
}

/// Ordering keeps what holds of every item.
pub proof fn lemma_order_holds<V>(s: Seq<V>, lt: spec_fn(V, V) -> bool, p: spec_fn(V) -> bool)
    requires
        forall|i: int| 0 <= i < s.len() ==> p(#[trigger] s[i]),
    ensures
        forall|i: int| 0 <= i < order_by(s, lt).len() ==> p(#[trigger] order_by(s, lt)[i]),
    decreases s.len(),
{
    if s.len() > 0 {
        lemma_order_holds(s.drop_last(), lt, p);
        assert(p(s[s.len() - 1]));
        lemma_insert_holds(order_by(s.drop_last(), lt), s.last(), lt, p);
    }
}

/// Whether `lt` orders items: what precedes does not come behind, and what does
/// not precede is not overtaken.
pub open spec fn orders<V>(lt: spec_fn(V, V) -> bool) -> bool {
    &&& forall|a: V, b: V| #[trigger] lt(a, b) ==> !lt(b, a)
    &&& forall|a: V, b: V, c: V|
        !(#[trigger] lt(b, a)) && !(#[trigger] lt(c, b)) ==> !lt(c, a)
}

/// Whether no item of `s` comes behind one that it precedes.
pub open spec fn in_order<V>(s: Seq<V>, lt: spec_fn(V, V) -> bool) -> bool {
    forall|i: int, j: int| 0 <= i < j < s.len() ==> !lt(#[trigger] s[j], #[trigger] s[i])
}

proof fn lemma_insert_in_order<V>(s: Seq<V>, v: V, lt: spec_fn(V, V) -> bool)
    requires
        orders(lt),
        in_order(s, lt),
    ensures
        in_order(insert_ordered(s, v, lt), lt),
    decreases s.len(),
{
    let out = insert_ordered(s, v, lt);
    if s.len() == 0 || !lt(v, s.last()) {
        assert forall|i: int, j: int| 0 <= i < j < out.len() implies !lt(
            #[trigger] out[j],
            #[trigger] out[i],
        ) by {
            if j == s.len() {
                let last = s[s.len() - 1];
                if i < s.len() - 1 {
                    assert(!lt(last, s[i]));
                    assert(!lt(v, last));
                }
            } else {
                assert(!lt(s[j], s[i]));
            }
        }
    } else {
        let rest = s.drop_last();
        let last = s.last();
        assert(in_order(rest, lt)) by {
            assert forall|i: int, j: int| 0 <= i < j < rest.len() implies !lt(
                #[trigger] rest[j],
                #[trigger] rest[i],
            ) by {
                assert(!lt(s[j], s[i]));
            }
        }
        lemma_insert_in_order(rest, v, lt);
        let not_before = |w: V| !lt(last, w);
        assert forall|i: int| 0 <= i < rest.len() implies not_before(#[trigger] rest[i]) by {
            assert(!lt(s[s.len() - 1], s[i]));
        }
        lemma_insert_holds(rest, v, lt, not_before);
        let placed = insert_ordered(rest, v, lt);
        assert forall|i: int, j: int| 0 <= i < j < out.len() implies !lt(
            #[trigger] out[j],
            #[trigger] out[i],
        ) by {
            if j == placed.len() {
                assert(not_before(placed[i]));
            } else {
                assert(!lt(placed[j], placed[i]));
            }
        }
    }
}

/// What was ordered is in order.
pub proof fn lemma_order_by_in_order<V>(s: Seq<V>, lt: spec_fn(V, V) -> bool)
    requires
        orders(lt),
    ensures
        in_order(order_by(s, lt), lt),
    decreases s.len(),
{
    if s.len() > 0 {
        lemma_order_by_in_order(s.drop_last(), lt);
        lemma_insert_in_order(order_by(s.drop_last(), lt), s.last(), lt);
    }
}

/// The rows that satisfy `p`, in table order.
pub fn select<R: Row, F: Fn(&R) -> bool>(
    rows: &Vec<R>,
    keep: F,
    Ghost(p): Ghost<spec_fn(R::V) -> bool>,
) -> (out: Vec<R>)
    requires
        forall|r: &R| #[trigger] keep.requires((r,)),
        forall|r: &R, b: bool| #[trigger] keep.ensures((r,), b) ==> b == p(r.deep_view()),
    ensures
        out.deep_view() == rows.deep_view().filter(p),
{
    let mut out: Vec<R> = Vec::new();
    let mut i: usize = 0;
    proof {
        reveal(Seq::filter);
    }
    assert(out.deep_view() =~= rows.deep_view().take(0).filter(p));
    while i < rows.len()
        invariant
            i <= rows.len(),
            forall|r: &R| #[trigger] keep.requires((r,)),
            forall|r: &R, b: bool| #[trigger] keep.ensures((r,), b) ==> b == p(r.deep_view()),
            out.deep_view() == rows.deep_view().take(i as int).filter(p),
        decreases rows.len() - i,
    {
        proof {
            reveal(Seq::filter);
        }
        let ghost before = out.deep_view();
        let ghost all = rows.deep_view();
        assert(all.take(i + 1).drop_last() =~= all.take(i as int));
        assert(all.take(i + 1).last() == rows[i as int].deep_view());
        if keep(&rows[i]) {
            out.push(rows[i].dup());
            assert(out.deep_view() =~= before.push(rows[i as int].deep_view()));
        }
        i += 1;
    }
    assert(rows.deep_view().take(i as int) =~= rows.deep_view());
    out
}

/// The rows that do not satisfy `p`, in table order.
pub fn reject<R: Row, F: Fn(&R) -> bool>(
    rows: &Vec<R>,
    drop: F,
    Ghost(p): Ghost<spec_fn(R::V) -> bool>,
) -> (out: Vec<R>)
    requires
        forall|r: &R| #[trigger] drop.requires((r,)),
        forall|r: &R, b: bool| #[trigger] drop.ensures((r,), b) ==> b == p(r.deep_view()),
    ensures
        out.deep_view() == rows.deep_view().filter(not(p)),
{
    let mut out: Vec<R> = Vec::new();
    let mut i: usize = 0;
    proof {
        reveal(Seq::filter);
    }
    assert(out.deep_view() =~= rows.deep_view().take(0).filter(not(p)));
    while i < rows.len()
        invariant
            i <= rows.len(),
            forall|r: &R| #[trigger] drop.requires((r,)),
            forall|r: &R, b: bool| #[trigger] drop.ensures((r,), b) ==> b == p(r.deep_view()),
            out.deep_view() == rows.deep_view().take(i as int).filter(not(p)),
        decreases rows.len() - i,
    {
        proof {
            reveal(Seq::filter);
        }
        let ghost before = out.deep_view();
        let ghost all = rows.deep_view();
        assert(all.take(i + 1).drop_last() =~= all.take(i as int));
        assert(all.take(i + 1).last() == rows[i as int].deep_view());
        if !drop(&rows[i]) {
            out.push(rows[i].dup());
            assert(out.deep_view() =~= before.push(rows[i as int].deep_view()));
        }
        i += 1;
    }
    assert(rows.deep_view().take(i as int) =~= rows.deep_view());
    out
}

/// Whether some row satisfies `p`.
pub fn exists_row<R: Row, F: Fn(&R) -> bool>(
    rows: &Vec<R>,
    test: F,
    Ghost(p): Ghost<spec_fn(R::V) -> bool>,
) -> (found: bool)
    requires
        forall|r: &R| #[trigger] test.requires((r,)),
        forall|r: &R, b: bool| #[trigger] test.ensures((r,), b) ==> b == p(r.deep_view()),
    ensures
        found == any(rows.deep_view(), p),
{
    let mut i: usize = 0;
    while i < rows.len()
        invariant
            i <= rows.len(),
            forall|r: &R| #[trigger] test.requires((r,)),
            forall|r: &R, b: bool| #[trigger] test.ensures((r,), b) ==> b == p(r.deep_view()),
            forall|j: int| 0 <= j < i ==> !p(#[trigger] rows.deep_view()[j]),
        decreases rows.len() - i,
    {
        assert(rows.deep_view()[i as int] == rows[i as int].deep_view());
        if test(&rows[i]) {
            return true;
        }
        i += 1;
    }
    false
}

/// The number of rows that satisfy `p`.
pub fn count_rows<R: Row, F: Fn(&R) -> bool>(
    rows: &Vec<R>,
    test: F,
    Ghost(p): Ghost<spec_fn(R::V) -> bool>,
) -> (n: usize)
    requires
        forall|r: &R| #[trigger] test.requires((r,)),
        forall|r: &R, b: bool| #[trigger] test.ensures((r,), b) ==> b == p(r.deep_view()),
    ensures
        n == count(rows.deep_view(), p),
{
    let mut n: usize = 0;
    let mut i: usize = 0;
    proof {
        reveal(Seq::filter);
    }
    while i < rows.len()
        invariant
            i <= rows.len(),
            n <= i,
            forall|r: &R| #[trigger] test.requires((r,)),
            forall|r: &R, b: bool| #[trigger] test.ensures((r,), b) ==> b == p(r.deep_view()),
            n == count(rows.deep_view().take(i as int), p),
        decreases rows.len() - i,
    {
        proof {
            reveal(Seq::filter);
        }
        let ghost all = rows.deep_view();
        assert(all.take(i + 1).drop_last() =~= all.take(i as int));
        assert(all.take(i + 1).last() == rows[i as int].deep_view());
        if test(&rows[i]) {
            n += 1;
        }
        i += 1;
    }
    assert(rows.deep_view().take(i as int) =~= rows.deep_view());
    n
}

/// The first row that satisfies `p`.
pub fn first_row<R: Row, F: Fn(&R) -> bool>(
    rows: &Vec<R>,
    test: F,
    Ghost(p): Ghost<spec_fn(R::V) -> bool>,
) -> (found: Option<R>)
    requires
        forall|r: &R| #[trigger] test.requires((r,)),
        forall|r: &R, b: bool| #[trigger] test.ensures((r,), b) ==> b == p(r.deep_view()),
    ensures
        found.deep_view() == first(rows.deep_view(), p),
{
    let mut i: usize = 0;
    assert(rows.deep_view().skip(0) =~= rows.deep_view());
    while i < rows.len()
        invariant
            i <= rows.len(),
            forall|r: &R| #[trigger] test.requires((r,)),
            forall|r: &R, b: bool| #[trigger] test.ensures((r,), b) ==> b == p(r.deep_view()),
            first(rows.deep_view(), p) == first(rows.deep_view().skip(i as int), p),
        decreases rows.len() - i,
    {
        let ghost rest = rows.deep_view().skip(i as int);
        assert(rest[0] == rows[i as int].deep_view());
        assert(rest.drop_first() =~= rows.deep_view().skip(i + 1));
        if test(&rows[i]) {
            return Some(rows[i].dup());
        }
        i += 1;
    }
    None
}

/// The table with `f` applied to the rows that satisfy `p`.
pub fn update<R: Row, F: Fn(&R) -> bool, G: Fn(&R) -> R>(
    rows: &Vec<R>,
    test: F,
    change: G,
    Ghost(p): Ghost<spec_fn(R::V) -> bool>,
    Ghost(f): Ghost<spec_fn(R::V) -> R::V>,
) -> (out: Vec<R>)
    requires
        forall|r: &R| #[trigger] test.requires((r,)),
        forall|r: &R, b: bool| #[trigger] test.ensures((r,), b) ==> b == p(r.deep_view()),
        forall|r: &R| #[trigger] change.requires((r,)),
        forall|r: &R, n: R|
            #[trigger] change.ensures((r,), n) ==> n.deep_view() == f(r.deep_view()),
    ensures
        out.deep_view() == change_where(rows.deep_view(), p, f),
{
    let mut out: Vec<R> = Vec::new();
    let mut i: usize = 0;
    while i < rows.len()
        invariant
            i <= rows.len(),
            forall|r: &R| #[trigger] test.requires((r,)),
            forall|r: &R, b: bool| #[trigger] test.ensures((r,), b) ==> b == p(r.deep_view()),
            forall|r: &R| #[trigger] change.requires((r,)),
            forall|r: &R, n: R| #[trigger]
                change.ensures((r,), n) ==> n.deep_view() == f(r.deep_view()),
            out.len() == i,
            forall|j: int|
                0 <= j < i ==> #[trigger] out[j].deep_view() == change_where(
                    rows.deep_view(),
                    p,
                    f,
                )[j],
        decreases rows.len() - i,
    {
        assert(rows.deep_view()[i as int] == rows[i as int].deep_view());
        if test(&rows[i]) {
            out.push(change(&rows[i]));
        } else {
            out.push(rows[i].dup());
        }
        i += 1;
    }
    assert(out.deep_view() =~= change_where(rows.deep_view(), p, f));
    out
}

/// The rows in the order of `lt`.
pub fn sorted<R: Row, F: Fn(&R, &R) -> bool>(
    rows: &Vec<R>,
    before: F,
    Ghost(lt): Ghost<spec_fn(R::V, R::V) -> bool>,
) -> (out: Vec<R>)
    requires
        forall|a: &R, b: &R| #[trigger] before.requires((a, b)),
        forall|a: &R, b: &R, r: bool| #[trigger]
            before.ensures((a, b), r) ==> r == lt(a.deep_view(), b.deep_view()),
    ensures
        out.deep_view() == order_by(rows.deep_view(), lt),
{
    let mut out: Vec<R> = Vec::new();
    let mut i: usize = 0;
    assert(out.deep_view() =~= order_by(rows.deep_view().take(0), lt));
    while i < rows.len()
        invariant
            i <= rows.len(),
            forall|a: &R, b: &R| #[trigger] before.requires((a, b)),
            forall|a: &R, b: &R, r: bool| #[trigger]
                before.ensures((a, b), r) ==> r == lt(a.deep_view(), b.deep_view()),
            out.deep_view() == order_by(rows.deep_view().take(i as int), lt),
        decreases rows.len() - i,
    {
        let ghost all = rows.deep_view();
        let ghost placed = out.deep_view();
        assert(all.take(i + 1).drop_last() =~= all.take(i as int));
        assert(all.take(i + 1).last() == rows[i as int].deep_view());
        let row = rows[i].dup();
        let mut pos: usize = out.len();
        while pos > 0 && before(&row, &out[pos - 1])
            invariant
                pos <= out.len(),
                out.deep_view() == placed,
                forall|a: &R, b: &R| #[trigger] before.requires((a, b)),
                forall|a: &R, b: &R, r: bool| #[trigger]
                    before.ensures((a, b), r) ==> r == lt(a.deep_view(), b.deep_view()),
                forall|j: int|
                    pos <= j < placed.len() ==> lt(row.deep_view(), #[trigger] placed[j]),
            ensures
                pos == 0 || !lt(row.deep_view(), placed[pos - 1]),
            decreases pos,
        {
            assert(placed[pos - 1] == out[pos - 1].deep_view());
            pos -= 1;
        }
        proof {
            lemma_insert_at(placed, row.deep_view(), lt, pos as int);
        }
        let ghost model = row.deep_view();
        out.insert(pos, row);
        assert(out.deep_view() =~= placed.insert(pos as int, model));
        i += 1;
    }
    assert(rows.deep_view().take(i as int) =~= rows.deep_view());
    out
}

/// `f` of every row.
pub fn map_rows<R: Row, S: DeepView, F: Fn(&R) -> S>(
    rows: &Vec<R>,
    convert: F,
    Ghost(f): Ghost<spec_fn(R::V) -> S::V>,
) -> (out: Vec<S>)
    requires
        forall|r: &R| #[trigger] convert.requires((r,)),
        forall|r: &R, n: S| #[trigger]
            convert.ensures((r,), n) ==> n.deep_view() == f(r.deep_view()),
    ensures
        out.deep_view() == rows.deep_view().map_values(f),
{
    let mut out: Vec<S> = Vec::new();
    let mut i: usize = 0;
    while i < rows.len()
        invariant
            i <= rows.len(),
            forall|r: &R| #[trigger] convert.requires((r,)),
            forall|r: &R, n: S| #[trigger]
                convert.ensures((r,), n) ==> n.deep_view() == f(r.deep_view()),
            out.len() == i,
            forall|j: int|
                0 <= j < i ==> #[trigger] out[j].deep_view() == f(rows[j].deep_view()),
        decreases rows.len() - i,
    {
        out.push(convert(&rows[i]));
        i += 1;
    }
    assert(out.deep_view() =~= rows.deep_view().map_values(f));
    out
}

/// The last row.
pub fn last_row<R: Row>(rows: &Vec<R>) -> (found: Option<R>)
    ensures
        found.deep_view() == last_of(rows.deep_view()),
{
    if rows.len() == 0 {
        None
    } else {
        let found = rows[rows.len() - 1].dup();
        assert(rows.deep_view().last() == rows[rows.len() - 1].deep_view());
        Some(found)
    }
}

/// The first row.
pub fn head_row<R: Row>(rows: &Vec<R>) -> (found: Option<R>)
    ensures
        found.deep_view() == first_of(rows.deep_view()),
{
    if rows.len() == 0 {
        None
    } else {
        let found = rows[0].dup();
        assert(rows.deep_view()[0] == rows[0].deep_view());
        Some(found)
    }
}

/// The first `n` rows.
pub fn limit<R: Row>(rows: &Vec<R>, n: usize) -> (out: Vec<R>)
    ensures
        out.deep_view() == limited(rows.deep_view(), n as nat),
{
    let mut out: Vec<R> = Vec::new();
    let mut i: usize = 0;
    while i < rows.len() && i < n
        invariant
            i <= rows.len(),
            i <= n,
            out.len() == i,
            forall|j: int| 0 <= j < i ==> #[trigger] out[j].deep_view() == rows[j].deep_view(),
        decreases rows.len() - i,
    {
        out.push(rows[i].dup());
        i += 1;
    }
    assert(out.deep_view() =~= limited(rows.deep_view(), n as nat));
    out
}

/// Puts `row` at the end of a table.
pub fn append<R: Row>(rows: &mut Vec<R>, row: R)
    ensures
        final(rows).deep_view() == old(rows).deep_view().push(row.deep_view()),
{
    let ghost model = row.deep_view();
    let ghost before = rows.deep_view();
    rows.push(row);
    assert(rows.deep_view() =~= before.push(model));
}

/// Puts all of `more` at the end of a table.
pub fn append_all<R: Row>(rows: &mut Vec<R>, more: &Vec<R>)
    ensures
        final(rows).deep_view() == old(rows).deep_view() + more.deep_view(),
{
    let mut i: usize = 0;
    let ghost before = rows.deep_view();
    assert(before =~= before + more.deep_view().take(0));
    while i < more.len()
        invariant
            i <= more.len(),
            rows.deep_view() == before + more.deep_view().take(i as int),
        decreases more.len() - i,
    {
        append(rows, more[i].dup());
        assert(before + more.deep_view().take(i + 1) =~= (before + more.deep_view().take(
            i as int,
        )).push(more[i as int].deep_view()));
        i += 1;
    }
    assert(more.deep_view().take(i as int) =~= more.deep_view());
}

/// Changes the rows that satisfy `p` or, where there is none, puts `row` at the
/// end.
pub fn put_row<R: Row, F: Fn(&R) -> bool, G: Fn(&R) -> R>(
    rows: &mut Vec<R>,
    test: F,
    change: G,
    row: R,
    Ghost(p): Ghost<spec_fn(R::V) -> bool>,
    Ghost(f): Ghost<spec_fn(R::V) -> R::V>,
)
    requires
        forall|r: &R| #[trigger] test.requires((r,)),
        forall|r: &R, b: bool| #[trigger] test.ensures((r,), b) ==> b == p(r.deep_view()),
        forall|r: &R| #[trigger] change.requires((r,)),
        forall|r: &R, n: R|
            #[trigger] change.ensures((r,), n) ==> n.deep_view() == f(r.deep_view()),
    ensures
        final(rows).deep_view() == put(old(rows).deep_view(), p, f, row.deep_view()),
{
    let changed = update(rows, &test, &change, Ghost(p), Ghost(f));
    if exists_row(rows, &test, Ghost(p)) {
        *rows = changed;
    } else {
        append(rows, row);
    }
}

} // verus!

//! Sets of texts, kept as ascending lists.

use crate::text::{before, precedes, same};
use vstd::prelude::*;

verus! {

/// Whether a list is a set: its texts ascend, so that none occurs twice.
pub open spec fn ascending(s: Seq<Seq<char>>) -> bool {
    forall|i: int, j: int| 0 <= i < j < s.len() ==> precedes(#[trigger] s[i], #[trigger] s[j])
}

pub proof fn lemma_precedes_irreflexive(a: Seq<char>)
    ensures
        !precedes(a, a),
    decreases a.len(),
{
    if a.len() > 0 {
        lemma_precedes_irreflexive(a.drop_first());
    }
}

pub proof fn lemma_precedes_transitive(a: Seq<char>, b: Seq<char>, c: Seq<char>)
    requires
        precedes(a, b),
        precedes(b, c),
    ensures
        precedes(a, c),
    decreases a.len(),
{
    if a.len() > 0 && a[0] == b[0] && b[0] == c[0] {
        lemma_precedes_transitive(a.drop_first(), b.drop_first(), c.drop_first());
    }
}

pub proof fn lemma_precedes_total(a: Seq<char>, b: Seq<char>)
    ensures
        precedes(a, b) || precedes(b, a) || a == b,
    decreases a.len(),
{
    if a.len() == 0 || b.len() == 0 {
        if a.len() == 0 && b.len() == 0 {
            assert(a =~= b);
        }
    } else if a[0] == b[0] {
        lemma_precedes_total(a.drop_first(), b.drop_first());
        if a.drop_first() == b.drop_first() {
            assert(a =~= seq![a[0]] + a.drop_first());
            assert(b =~= seq![b[0]] + b.drop_first());
        }
    }
}

/// Two ascending lists of the same texts are the same list.
pub proof fn lemma_ascending_unique(a: Seq<Seq<char>>, b: Seq<Seq<char>>)
    requires
        ascending(a),
        ascending(b),
        a.to_set() == b.to_set(),
    ensures
        a == b,
    decreases a.len() + b.len(),
{
    if a.len() == 0 {
        if b.len() > 0 {
            assert(b.to_set().contains(b[0]));
            assert(a.to_set().contains(b[0]));
            assert(false);
        }
        assert(a =~= b);
    } else if b.len() == 0 {
        assert(a.to_set().contains(a[0]));
        assert(b.to_set().contains(a[0]));
        assert(false);
    } else {
        let x = a.last();
        let y = b.last();
        assert(a.to_set().contains(x));
        assert(b.to_set().contains(y));
        assert(b.to_set().contains(x));
        assert(a.to_set().contains(y));
        let i = choose|i: int| 0 <= i < b.len() && b[i] == x;
        let j = choose|j: int| 0 <= j < a.len() && a[j] == y;
        if x != y {
            assert(precedes(b[i], b[b.len() - 1]));
            assert(precedes(a[j], a[a.len() - 1]));
            lemma_precedes_transitive(x, y, x);
            lemma_precedes_irreflexive(x);
        }
        let a1 = a.drop_last();
        let b1 = b.drop_last();
        assert forall|t: Seq<char>| #[trigger] a1.to_set().contains(t) implies b1.to_set().contains(
            t,
        ) by {
            let k = choose|k: int| 0 <= k < a1.len() && a1[k] == t;
            assert(a[k] == t);
            assert(a.to_set().contains(t));
            assert(precedes(a[k], a[a.len() - 1]));
            lemma_precedes_irreflexive(x);
            let m = choose|m: int| 0 <= m < b.len() && b[m] == t;
            assert(b.to_set().contains(t));
            assert(m != b.len() - 1);
            assert(b1[m] == t);
        }
        assert forall|t: Seq<char>| #[trigger] b1.to_set().contains(t) implies a1.to_set().contains(
            t,
        ) by {
            let k = choose|k: int| 0 <= k < b1.len() && b1[k] == t;
            assert(b[k] == t);
            assert(b.to_set().contains(t));
            assert(precedes(b[k], b[b.len() - 1]));
            lemma_precedes_irreflexive(x);
            let m = choose|m: int| 0 <= m < a.len() && a[m] == t;
            assert(a.to_set().contains(t));
            assert(m != a.len() - 1);
            assert(a1[m] == t);
        }
        assert(a1.to_set() =~= b1.to_set());
        lemma_ascending_unique(a1, b1);
        assert(a =~= a1.push(x));
        assert(b =~= b1.push(y));
    }
}

/// Puts a text into a set.
pub fn insert_text(set: &mut Vec<String>, text: &str)
    requires
        ascending(old(set).deep_view()),
    ensures
        ascending(final(set).deep_view()),
        final(set).deep_view().to_set() == old(set).deep_view().to_set().insert(text@),
{
    let ghost start = set.deep_view();
    let mut pos: usize = 0;
    while pos < set.len() && before(set[pos].as_str(), text)
        invariant
            pos <= set.len(),
            set.deep_view() == start,
            ascending(start),
            forall|j: int| 0 <= j < pos ==> precedes(#[trigger] start[j], text@),
        ensures
            pos == set.len() || !precedes(start[pos as int], text@),
        decreases set.len() - pos,
    {
        assert(start[pos as int] == set[pos as int]@);
        pos += 1;
    }
    if pos < set.len() && same(set[pos].as_str(), text) {
        assert(start[pos as int] == text@);
        assert(start.to_set().contains(text@));
        assert(start.to_set().insert(text@) =~= start.to_set());
        return;
    }
    set.insert(pos, text.to_owned());
    let ghost after = set.deep_view();
    proof {
        assert(after =~= start.insert(pos as int, text@));
        assert forall|j: int| pos <= j < start.len() implies precedes(text@, #[trigger] start[j]) by {
            lemma_precedes_total(start[pos as int], text@);
            if j > pos {
                lemma_precedes_transitive(text@, start[pos as int], start[j]);
            }
        }
        assert forall|i: int, j: int| 0 <= i < j < after.len() implies precedes(
            #[trigger] after[i],
            #[trigger] after[j],
        ) by {
            let a = if i < pos {
                i
            } else {
                i - 1
            };
            let b = if j < pos {
                j
            } else {
                j - 1
            };
            if i == pos {
                assert(after[j] == start[b]);
            } else if j == pos {
                assert(after[i] == start[a]);
            } else {
                assert(after[i] == start[a] && after[j] == start[b]);
            }
        }
        assert(after.to_set() =~= start.to_set().insert(text@)) by {
            assert forall|t: Seq<char>|
                start.to_set().insert(text@).contains(t) implies after.to_set().contains(t) by {
                if t == text@ {
                    assert(after[pos as int] == t);
                } else {
                    let k = choose|k: int| 0 <= k < start.len() && start[k] == t;
                    if k < pos {
                        assert(after[k] == t);
                    } else {
                        assert(after[k + 1] == t);
                    }
                }
            }
            assert forall|t: Seq<char>| after.to_set().contains(t) implies start.to_set().insert(
                text@,
            ).contains(t) by {
                let k = choose|k: int| 0 <= k < after.len() && after[k] == t;
                if k < pos {
                    assert(start[k] == t);
                } else if k > pos {
                    assert(start[k - 1] == t);
                }
            }
        }
    }
}

/// Puts texts into a set.
pub fn insert_texts(set: &mut Vec<String>, texts: &Vec<String>)
    requires
        ascending(old(set).deep_view()),
    ensures
        ascending(final(set).deep_view()),
        final(set).deep_view().to_set() == old(set).deep_view().to_set().union(
            texts.deep_view().to_set(),
        ),
{
    let ghost start = set.deep_view().to_set();
    let mut i: usize = 0;
    assert(texts.deep_view().take(0).to_set() =~= Set::<Seq<char>>::empty());
    assert(start.union(Set::<Seq<char>>::empty()) =~= start);
    while i < texts.len()
        invariant
            i <= texts.len(),
            ascending(set.deep_view()),
            set.deep_view().to_set() == start.union(texts.deep_view().take(i as int).to_set()),
        decreases texts.len() - i,
    {
        insert_text(set, texts[i].as_str());
        proof {
            let all = texts.deep_view();
            let x = texts[i as int]@;
            let less = all.take(i as int);
            let more = all.take(i + 1);
            assert(more.to_set() =~= less.to_set().insert(x)) by {
                assert forall|t: Seq<char>|
                    less.to_set().insert(x).contains(t) implies more.to_set().contains(t) by {
                    if t == x {
                        assert(more[i as int] == t);
                    } else {
                        let k = choose|k: int| 0 <= k < less.len() && less[k] == t;
                        assert(more[k] == t);
                    }
                }
                assert forall|t: Seq<char>| more.to_set().contains(t) implies less.to_set().insert(
                    x,
                ).contains(t) by {
                    let k = choose|k: int| 0 <= k < more.len() && more[k] == t;
                    if k < i {
                        assert(less[k] == t);
                    }
                }
            }
            assert(start.union(less.to_set()).insert(x) =~= start.union(more.to_set()));
        }
        i += 1;
    }
    assert(texts.deep_view().take(i as int) =~= texts.deep_view());
}

} // verus!

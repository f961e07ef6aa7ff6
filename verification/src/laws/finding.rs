//! Laws of what a search of the memory finds.

use crate::facts::{lemma_first, lemma_order_contains};
use crate::laws::memory::lemma_last_part_below;
use crate::laws::texts::{law_trimming_takes_white_ends, only_white_around};
use crate::paths::below;
use crate::table::{first, lemma_order_by_len, order_by};
use crate::text::{at_most, trimmed, white};
use crate::tools::memory::{
    at_place, covered, fits_better, hit, hits, lowercased, shard_at, shards_in, size, snippet,
    MemoryErrorModel, MemoryHitModel, MemoryModel, MemoryShardModel, MemoryType, INDEX_FILE,
};
use crate::words::{first_at, is_char, occurs, pieces, stands_at};
use vstd::prelude::*;

verus! {

/// Whether a text holds another, letters of either case being taken as the same.
pub open spec fn mentions(text: Seq<char>, query: Seq<char>) -> bool {
    exists|at: int|
        0 <= at <= lowercased(text).len() && lowercased(query).is_prefix_of(
            #[trigger] lowercased(text).skip(at),
        )
}

proof fn lemma_mentions(text: Seq<char>, query: Seq<char>)
    ensures
        mentions(text, query) == occurs(lowercased(text), lowercased(query)),
{
    let s = lowercased(text);
    let sub = lowercased(query);
    if mentions(text, query) {
        let at = choose|at: int|
            0 <= at <= s.len() && sub.is_prefix_of(#[trigger] s.skip(at));
        assert(s.subrange(at, at + sub.len()) =~= s.skip(at).subrange(0, sub.len() as int));
        assert(stands_at(s, at, sub));
    }
    if occurs(s, sub) {
        let at = choose|at: int| #[trigger] stands_at(s, at, sub);
        assert(s.skip(at).subrange(0, sub.len() as int) =~= s.subrange(at, at + sub.len()));
        assert(sub.is_prefix_of(s.skip(at)));
    }
}

/// Whether a shard is of the wanted type, if one is wanted, and its title, its
/// description or its body mentions the query.
pub open spec fn fits(shard: MemoryShardModel, query: Seq<char>, wanted: Option<MemoryType>) -> bool {
    &&& wanted matches Some(t) ==> shard.meta.memory_type == t
    &&& {
        ||| mentions(shard.meta.title, query)
        ||| mentions(shard.meta.description, query)
        ||| mentions(shard.body, query)
    }
}

/// Whether a search shows a shard, with the points that it has for each of its
/// parts that mentions the query, counted in halves: four for the title, three
/// for the description, two for the body.
pub open spec fn shows(found: MemoryHitModel, shard: MemoryShardModel, query: Seq<char>) -> bool {
    &&& found.filename == shard.meta.filename
    &&& found.memory_type == shard.meta.memory_type
    &&& found.title == shard.meta.title
    &&& found.score == (if mentions(shard.meta.title, query) {
        4int
    } else {
        0
    }) + (if mentions(shard.meta.description, query) {
        3int
    } else {
        0
    }) + (if mentions(shard.body, query) {
        2int
    } else {
        0
    })
}

/// Whether a search shows a shard that fits.
pub open spec fn shown_from(
    found: MemoryHitModel,
    shards: Seq<MemoryShardModel>,
    query: Seq<char>,
    wanted: Option<MemoryType>,
) -> bool {
    exists|i: int|
        0 <= i < shards.len() && fits(#[trigger] shards[i], query, wanted) && shows(
            found,
            shards[i],
            query,
        )
}

proof fn lemma_hit(shard: MemoryShardModel, query: Seq<char>)
    ensures
        shows(hit(query, shard), shard, query),
{
    lemma_mentions(shard.meta.title, query);
    lemma_mentions(shard.meta.description, query);
    lemma_mentions(shard.body, query);
}

/// What is found among the first `n` shards.
proof fn lemma_hits(
    shards: Seq<MemoryShardModel>,
    query: Seq<char>,
    wanted: Option<MemoryType>,
    n: nat,
)
    requires
        n <= shards.len(),
    ensures
        ({
            let found = hits(shards, query, wanted, n);
            &&& found.len() <= n
            &&& forall|k: int|
                0 <= k < found.len() ==> shown_from(#[trigger] found[k], shards, query, wanted)
            &&& forall|i: int|
                0 <= i < n && fits(#[trigger] shards[i], query, wanted) ==> found.contains(
                    hit(query, shards[i]),
                )
        }),
    decreases n,
{
    if n > 0 {
        let m = (n - 1) as nat;
        lemma_hits(shards, query, wanted, m);
        let before = hits(shards, query, wanted, m);
        let found = hits(shards, query, wanted, n);
        let shard = shards[n - 1];
        lemma_hit(shard, query);
        assert forall|k: int| 0 <= k < found.len() implies shown_from(
            #[trigger] found[k],
            shards,
            query,
            wanted,
        ) by {
            if k < before.len() {
                assert(found[k] == before[k]);
            } else {
                assert(fits(shards[n - 1], query, wanted));
            }
        }
        assert forall|i: int| 0 <= i < n && fits(
            #[trigger] shards[i],
            query,
            wanted,
        ) implies found.contains(hit(query, shards[i])) by {
            if i < m {
                let k = before.index_of(hit(query, shards[i]));
                assert(found[k] == before[k]);
            } else {
                assert(found[before.len() as int] == hit(query, shard));
            }
        }
    }
}

/// A search without a limit finds a shard exactly where it is of the wanted type
/// and its title, its description or its body mentions the query. Each of the
/// three counts for itself.
pub proof fn law_search_finds_what_mentions_the_query(
    memory: MemoryModel,
    query: Seq<char>,
    wanted: Option<MemoryType>,
    limit: nat,
)
    requires
        limit >= memory.ready().shards().len(),
    ensures
        ({
            let shards = memory.ready().shards();
            let found = memory.searched(query, wanted, limit);
            &&& found.len() <= shards.len()
            &&& forall|k: int|
                0 <= k < found.len() ==> shown_from(#[trigger] found[k], shards, query, wanted)
            &&& forall|i: int|
                0 <= i < shards.len() && fits(#[trigger] shards[i], query, wanted) ==> exists|k: int|
                    0 <= k < found.len() && shows(#[trigger] found[k], shards[i], query)
        }),
{
    let shards = memory.ready().shards();
    let all = hits(shards, query, wanted, shards.len());
    let found = memory.searched(query, wanted, limit);
    lemma_hits(shards, query, wanted, shards.len());
    lemma_order_by_len(all, fits_better());
    assert(found == order_by(all, fits_better()));
    assert forall|k: int| 0 <= k < found.len() implies shown_from(
        #[trigger] found[k],
        shards,
        query,
        wanted,
    ) by {
        assert(found.contains(found[k]));
        lemma_order_contains(all, fits_better(), found[k]);
        let j = all.index_of(found[k]);
        assert(all[j] == found[k]);
    }
    assert forall|i: int| 0 <= i < shards.len() && fits(
        #[trigger] shards[i],
        query,
        wanted,
    ) implies exists|k: int| 0 <= k < found.len() && shows(#[trigger] found[k], shards[i], query) by {
        let shown = hit(query, shards[i]);
        lemma_hit(shards[i], query);
        lemma_order_contains(all, fits_better(), shown);
        let k = found.index_of(shown);
        assert(found[k] == shown);
    }
}

/// A limit cuts a search off; it does not change what comes first.
pub proof fn law_limit_keeps_the_best(
    memory: MemoryModel,
    query: Seq<char>,
    wanted: Option<MemoryType>,
    limit: nat,
)
    ensures
        ({
            let all = memory.searched(query, wanted, memory.ready().shards().len());
            let found = memory.searched(query, wanted, limit);
            &&& found.len() == if limit < all.len() {
                limit
            } else {
                all.len()
            }
            &&& found.is_prefix_of(all)
        }),
{
    let shards = memory.ready().shards();
    let hits_of = hits(shards, query, wanted, shards.len());
    lemma_hits(shards, query, wanted, shards.len());
    lemma_order_by_len(hits_of, fits_better());
}

proof fn lemma_one_piece(name: Seq<char>)
    requires
        !name.contains('/'),
    ensures
        pieces(name, is_char('/')) == seq![name],
    decreases name.len(),
{
    if name.len() > 0 {
        let rest = name.drop_last();
        assert(name.last() != '/') by {
            if name.last() == '/' {
                assert(name[name.len() - 1] == '/');
            }
        }
        assert(!rest.contains('/')) by {
            if rest.contains('/') {
                assert(name[rest.index_of('/')] == '/');
            }
        }
        lemma_one_piece(rest);
        assert(rest.push(name.last()) =~= name);
        assert(pieces(name, is_char('/')) =~= seq![name]);
    } else {
        assert(name =~= Seq::<char>::empty());
    }
}

proof fn lemma_shards(memory: MemoryModel, n: nat, i: int)
    requires
        0 <= i < n <= memory.entries.len(),
        shard_at(memory.home(), memory.entries[i]) is Some,
    ensures
        shards_in(memory.home(), memory.entries, n).contains(
            shard_at(memory.home(), memory.entries[i])->0,
        ),
    decreases n,
{
    let all = shards_in(memory.home(), memory.entries, n);
    let shard = shard_at(memory.home(), memory.entries[i])->0;
    if i < n - 1 {
        lemma_shards(memory, (n - 1) as nat, i);
        let before = shards_in(memory.home(), memory.entries, (n - 1) as nat);
        let k = before.index_of(shard);
        assert(all[k] == shard);
    } else {
        assert(all[all.len() - 1] == shard);
    }
}

/// What can be read under the name of a file of the directory is found by a
/// search: by each word that its title, its description or its body mentions.
pub proof fn law_what_is_read_is_found(
    memory: MemoryModel,
    name: Seq<char>,
    shard: MemoryShardModel,
    query: Seq<char>,
    limit: nat,
)
    requires
        ".md"@.is_suffix_of(name),
        name.len() > 3,
        name != INDEX_FILE@,
        !name.contains('/'),
        memory.read(name) == Ok::<MemoryShardModel, MemoryErrorModel>(shard),
        mentions(shard.meta.title, query) || mentions(shard.meta.description, query) || mentions(
            shard.body,
            query,
        ),
        limit >= memory.ready().shards().len(),
    ensures
        shard.meta.filename == name,
        memory.ready().shards().contains(shard),
        exists|k: int|
            0 <= k < memory.searched(query, None, limit).len() && shows(
                #[trigger] memory.searched(query, None, limit)[k],
                shard,
                query,
            ),
{
    let ready = memory.ready();
    let place = ready.place(name)->0;
    reveal_strlit(".");
    reveal_strlit("..");
    assert(name[0] != '/') by {
        if name[0] == '/' {
            assert(name.contains('/'));
        }
    }
    lemma_one_piece(name);
    let parts = pieces(name, is_char('/'));
    assert(parts.len() == 1);
    reveal_with_fuel(MemoryModel::led, 2);
    assert(parts[0] == name);
    assert(place == below(ready.home(), name));
    lemma_last_part_below(ready.home(), name);
    lemma_first(ready.entries, at_place(place));
    let entry = first(ready.entries, at_place(place))->0;
    let i = ready.entries.index_of(entry);
    assert(ready.entries[i] == entry);
    assert(shard_at(ready.home(), entry) == Some(shard));
    lemma_shards(ready, ready.entries.len(), i);
    let shards = ready.shards();
    let j = shards.index_of(shard);
    assert(fits(shards[j], query, None));
    law_search_finds_what_mentions_the_query(memory, query, None, limit);
}

proof fn lemma_size_grows(s: Seq<char>, a: int, b: int)
    requires
        0 <= a <= b <= s.len(),
    ensures
        size(s.take(a)) + (b - a) <= size(s.take(b)),
    decreases b - a,
{
    if a < b {
        lemma_size_grows(s, a, b - 1);
        assert(s.take(b).drop_last() =~= s.take(b - 1));
        assert(s.take(b).last() == s[b - 1]);
    }
}

/// Characters that lie between the two bytes, one behind the other, are shown so.
proof fn lemma_covered_run(s: Seq<char>, start: nat, end: nat, a: int, b: int)
    requires
        0 <= a <= b <= s.len(),
        start <= size(s.take(a)),
        size(s.take(b)) <= end,
    ensures
        covered(s, start, end, b as nat) == covered(s, start, end, a as nat) + s.subrange(a, b),
    decreases b - a,
{
    if a < b {
        lemma_size_grows(s, a, b - 1);
        lemma_size_grows(s, b - 1, b);
        lemma_covered_run(s, start, end, a, b - 1);
        assert(s.subrange(a, b) =~= s.subrange(a, b - 1).push(s[b - 1]));
        assert(covered(s, start, end, b as nat) =~= covered(s, start, end, a as nat) + s.subrange(
            a,
            b,
        ));
    } else {
        assert(s.subrange(a, b) =~= Seq::<char>::empty());
        assert(covered(s, start, end, a as nat) + s.subrange(a, b) =~= covered(
            s,
            start,
            end,
            a as nat,
        ));
    }
}

proof fn lemma_covered_grows(s: Seq<char>, start: nat, end: nat, a: nat, b: nat)
    requires
        a <= b <= s.len(),
    ensures
        covered(s, start, end, a).is_prefix_of(covered(s, start, end, b)),
    decreases b,
{
    if a < b {
        lemma_covered_grows(s, start, end, a, (b - 1) as nat);
    }
}

/// What surrounds a query in a text that holds it is shown: everything from fifty bytes
/// before the place where it first stands up to fifty bytes behind its end. A text that
/// does not hold it is shown from its beginning.
pub proof fn law_snippet_shows_what_surrounds(
    query: Seq<char>,
    body: Seq<char>,
    at: int,
    from: int,
    to: int,
)
    ensures
        first_at(body, query, 0) is None ==> snippet(query, body, query, body) == at_most(body, 100)
            + "..."@,
        first_at(body, query, 0) == Some(at) && 0 <= from < to <= body.len() && !white(body[from])
            && !white(body[to - 1]) && size(body.take(at)) <= size(body.take(from)) + 50 && size(
            body.take(to),
        ) <= size(body.take(at)) + size(query) + 50 ==> occurs(
            snippet(query, body, query, body),
            body.subrange(from, to),
        ),
{
    if first_at(body, query, 0) == Some(at) && 0 <= from < to <= body.len() && !white(body[from])
        && !white(body[to - 1]) && size(body.take(at)) <= size(body.take(from)) + 50 && size(
        body.take(to),
    ) <= size(body.take(at)) + size(query) + 50 {
        let pos = size(body.take(at));
        let start: nat = if pos > 50 {
            (pos - 50) as nat
        } else {
            0
        };
        let end = if pos + size(query) + 50 < size(body) {
            pos + size(query) + 50
        } else {
            size(body)
        };
        let wanted = body.subrange(from, to);
        lemma_size_grows(body, to, body.len() as int);
        assert(body.take(body.len() as int) =~= body);
        lemma_covered_run(body, start, end, from, to);
        lemma_covered_grows(body, start, end, to as nat, body.len());
        let head = covered(body, start, end, from as nat);
        let part = covered(body, start, end, to as nat);
        let all = covered(body, start, end, body.len());
        let p = head.len() as int;
        assert(all.subrange(0, part.len() as int) =~= part);
        assert(forall|k: int| 0 <= k < wanted.len() ==> all[p + k] == #[trigger] wanted[k]) by {
            assert forall|k: int| 0 <= k < wanted.len() implies all[p + k] == #[trigger] wanted[k] by {
                assert(part[p + k] == wanted[k]);
                assert(all[p + k] == all.subrange(0, part.len() as int)[p + k]);
            }
        }
        law_trimming_takes_white_ends(all);
        let (i, j) = choose|i: int, j: int| #[trigger] only_white_around(all, trimmed(all), i, j);
        assert(wanted[0] == body[from]);
        assert(wanted[wanted.len() - 1] == body[to - 1]);
        assert(all[p] == wanted[0]);
        assert(all[p + wanted.len() - 1] == wanted[wanted.len() - 1]);
        assert(i <= p && p + wanted.len() <= j);
        let shown = snippet(query, body, query, body);
        let place = "..."@.len() + p - i;
        assert(shown.subrange(place, place + wanted.len()) =~= wanted);
        assert(stands_at(shown, place, wanted));
    }
}

} // verus!

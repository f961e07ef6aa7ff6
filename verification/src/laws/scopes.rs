//! What holds of directories and files that follow a change of personas.

use crate::web::scopes::{
    contents, moved, put_back, put_back_one, settled, settled_one, staged, with_files,
    PersonaScopeBackupModel,
};
use vstd::prelude::*;

verus! {

/// Whether directories can be put back after the first `k` of them were moved on.
/// Each lies somewhere of its own and is set aside where nothing lies. Each that
/// was moved on went where nothing lay, or where one before it had lain.
pub open spec fn apart<D>(
    tree: Map<Seq<char>, D>,
    backups: Seq<PersonaScopeBackupModel>,
    k: int,
) -> bool {
    &&& forall|i: int|
        0 <= i < backups.len() ==> tree.contains_key((#[trigger] backups[i]).original)
            && !tree.contains_key(backups[i].staged)
    &&& forall|i: int, j: int|
        0 <= i < j < backups.len() ==> (#[trigger] backups[i]).original != (
        #[trigger] backups[j]).original && backups[i].staged != backups[j].staged
    &&& forall|i: int, j: int|
        0 <= i < k && 0 <= j < backups.len() ==> (#[trigger] backups[i]).destination != Some(
            (#[trigger] backups[j]).staged,
        )
    &&& forall|i: int, j: int|
        0 <= i < j < k && (#[trigger] backups[i]).destination is Some
            ==> backups[i].destination != (#[trigger] backups[j]).destination
    &&& forall|i: int|
        0 <= i < k ==> ((#[trigger] backups[i]).destination matches Some(d)
            ==> !tree.contains_key(d) || left_before(backups, i, d))
}

/// Whether a directory before the given one lay at `path`.
pub open spec fn left_before(
    backups: Seq<PersonaScopeBackupModel>,
    i: int,
    path: Seq<char>,
) -> bool {
    exists|j: int| 0 <= j < i && (#[trigger] backups[j]).original == path
}

/// What lies at a path to which no directory was moved.
proof fn lemma_lies<D>(
    tree: Map<Seq<char>, D>,
    backups: Seq<PersonaScopeBackupModel>,
    k: int,
    path: Seq<char>,
)
    requires
        0 <= k <= backups.len(),
        forall|i: int| 0 <= i < backups.len() ==> (#[trigger] backups[i]).staged != path,
        forall|i: int| 0 <= i < k ==> (#[trigger] backups[i]).destination != Some(path),
    ensures
        settled(staged(tree, backups), backups.take(k)).contains_key(path) == (tree.contains_key(
            path,
        ) && !left_before(backups, backups.len() as int, path)),
    decreases backups.len(), k,
{
    if k > 0 {
        let some = backups.take(k);
        assert(some.drop_last() =~= backups.take(k - 1));
        assert(some.last() == backups[k - 1]);
        lemma_lies(tree, backups, k - 1, path);
    } else if backups.len() > 0 {
        assert(backups.take(0) =~= Seq::empty());
        let fewer = backups.drop_last();
        let n = fewer.len() as int;
        assert forall|i: int| 0 <= i < fewer.len() implies (#[trigger] fewer[i]).staged != path by {
            assert(fewer[i] == backups[i]);
        }
        assert(fewer.take(0) =~= Seq::empty());
        lemma_lies(tree, fewer, 0, path);
        assert(backups.last() == backups[n]);
        if left_before(backups, n + 1, path) {
            let j = choose|j: int| 0 <= j < n + 1 && (#[trigger] backups[j]).original == path;
            if j < n {
                assert(fewer[j].original == path);
            }
        }
        if left_before(fewer, n, path) {
            let j = choose|j: int| 0 <= j < n && (#[trigger] fewer[j]).original == path;
            assert(backups[j].original == path);
        }
    } else {
        assert(backups.take(0) =~= Seq::empty());
    }
}

/// Directories that are moved on do not care about one that is set aside.
proof fn lemma_settled_moved<D>(
    tree: Map<Seq<char>, D>,
    backups: Seq<PersonaScopeBackupModel>,
    last: PersonaScopeBackupModel,
)
    requires
        forall|i: int|
            0 <= i < backups.len() ==> (#[trigger] backups[i]).staged != last.staged
                && backups[i].staged != last.original && backups[i].destination != Some(last.staged)
                && backups[i].destination != Some(last.original),
    ensures
        settled(moved(tree, last.original, last.staged), backups) == moved(
            settled(tree, backups),
            last.original,
            last.staged,
        ),
    decreases backups.len(),
{
    if backups.len() > 0 {
        let fewer = backups.drop_last();
        assert forall|i: int| 0 <= i < fewer.len() implies (#[trigger] fewer[i]).staged
            != last.staged && fewer[i].staged != last.original && fewer[i].destination != Some(
            last.staged,
        ) && fewer[i].destination != Some(last.original) by {
            assert(fewer[i] == backups[i]);
        }
        lemma_settled_moved(tree, fewer, last);
        let before = settled(tree, fewer);
        let one = backups.last();
        assert(one == backups[backups.len() - 1]);
        assert(settled_one(moved(before, last.original, last.staged), one) =~= moved(
            settled_one(before, one),
            last.original,
            last.staged,
        ));
    }
}

/// Where directories can be put back, so can all but the last of them.
proof fn lemma_apart<D>(tree: Map<Seq<char>, D>, backups: Seq<PersonaScopeBackupModel>, k: int)
    requires
        backups.len() > 0,
        0 <= k <= backups.len(),
        apart(tree, backups, k),
    ensures
        apart(
            tree,
            backups.drop_last(),
            if k < backups.len() {
                k
            } else {
                k - 1
            },
        ),
{
    let fewer = backups.drop_last();
    let m = if k < backups.len() {
        k
    } else {
        k - 1
    };
    assert forall|i: int| 0 <= i < fewer.len() implies #[trigger] fewer[i] == backups[i] by {}
    assert forall|i: int| 0 <= i < m implies ((#[trigger] fewer[i]).destination matches Some(d)
        ==> !tree.contains_key(d) || left_before(fewer, i, d)) by {
        assert(fewer[i] == backups[i]);
        if let Some(d) = backups[i].destination {
            if left_before(backups, i, d) {
                let j = choose|j: int| 0 <= j < i && (#[trigger] backups[j]).original == d;
                assert(fewer[j].original == d);
            }
        }
    }
}

/// A change of personas that fails is taken back: once the directories were set
/// aside, and whichever of them were moved on, putting them back gives the tree
/// that there was.
pub proof fn law_scopes_are_put_back<D>(
    tree: Map<Seq<char>, D>,
    backups: Seq<PersonaScopeBackupModel>,
    k: int,
)
    requires
        0 <= k <= backups.len(),
        apart(tree, backups, k),
    ensures
        put_back(settled(staged(tree, backups), backups.take(k)), backups) == tree,
    decreases backups.len(),
{
    if backups.len() == 0 {
        assert(backups.take(k) =~= Seq::empty());
    } else {
        let n = backups.len() as int;
        let fewer = backups.drop_last();
        let last = backups.last();
        assert(last == backups[n - 1]);
        lemma_apart(tree, backups, k);
        let m = if k < n {
            k
        } else {
            n - 1
        };
        let some = fewer.take(m);
        assert(some =~= backups.take(m));
        assert forall|i: int| 0 <= i < m implies (#[trigger] fewer[i]).destination != Some(
            last.original,
        ) && fewer[i].destination != Some(last.staged) by {
            assert(fewer[i] == backups[i]);
            if fewer[i].destination == Some(last.original) {
                let j = choose|j: int|
                    0 <= j < i && (#[trigger] backups[j]).original == last.original;
                assert(backups[j].original != backups[n - 1].original);
            }
            assert(backups[i].destination != Some(backups[n - 1].staged));
        }
        assert forall|i: int| 0 <= i < fewer.len() implies (#[trigger] fewer[i]).staged
            != last.staged && fewer[i].staged != last.original && fewer[i].original
            != last.original by {
            assert(fewer[i] == backups[i]);
            assert(backups[i].staged != backups[n - 1].staged);
        }
        assert forall|i: int| 0 <= i < some.len() implies #[trigger] some[i] == fewer[i] by {}
        let before = settled(staged(tree, fewer), some);
        lemma_settled_moved(staged(tree, fewer), some, last);
        let aside = moved(before, last.original, last.staged);
        assert(settled(staged(tree, backups), backups.take(m)) == aside);
        lemma_lies(tree, fewer, m, last.original);
        lemma_lies(tree, fewer, m, last.staged);
        assert(moved(aside, last.staged, last.original) =~= before);
        let now = settled(staged(tree, backups), backups.take(k));
        if k == n {
            assert(backups.take(n) =~= backups);
            assert(backups.take(n - 1) =~= fewer);
            assert(now == settled_one(aside, last));
            if let Some(destination) = last.destination {
                assert forall|i: int| 0 <= i < fewer.len() implies (#[trigger] fewer[i]).staged
                    != destination && fewer[i].destination != Some(destination) by {
                    assert(fewer[i] == backups[i]);
                    assert(backups[n - 1].destination != Some(backups[i].staged));
                    assert(backups[i].destination is Some ==> backups[i].destination
                        != backups[n - 1].destination);
                }
                lemma_lies(tree, fewer, m, destination);
                if tree.contains_key(destination) {
                    let j = choose|j: int|
                        0 <= j < n - 1 && (#[trigger] backups[j]).original == destination;
                    assert(fewer[j].original == destination);
                    assert(backups[j].original != backups[n - 1].original);
                }
                assert(backups[n - 1].destination != Some(backups[n - 1].staged));
                assert(moved(now, destination, last.staged) =~= aside);
            }
        }
        assert(put_back_one(now, last) == before);
        law_scopes_are_put_back(tree, fewer, m);
    }
}

proof fn lemma_with_files<C>(
    tree: Map<Seq<char>, C>,
    changes: Seq<(Seq<char>, Option<C>)>,
    path: Seq<char>,
)
    requires
        forall|i: int| 0 <= i < changes.len() ==> (#[trigger] changes[i]).0 != path,
    ensures
        with_files(tree, changes).contains_key(path) == tree.contains_key(path),
        tree.contains_key(path) ==> with_files(tree, changes)[path] == tree[path],
    decreases changes.len(),
{
    if changes.len() > 0 {
        let fewer = changes.drop_last();
        assert forall|i: int| 0 <= i < fewer.len() implies (#[trigger] fewer[i]).0 != path by {
            assert(fewer[i] == changes[i]);
        }
        assert(changes.last() == changes[changes.len() - 1]);
        lemma_with_files(tree, fewer, path);
    }
}

/// After changes of different files, each file is as the change wanted it.
proof fn lemma_file_changed<C>(
    tree: Map<Seq<char>, C>,
    changes: Seq<(Seq<char>, Option<C>)>,
    i: int,
)
    requires
        0 <= i < changes.len(),
        forall|i: int, j: int|
            0 <= i < j < changes.len() ==> (#[trigger] changes[i]).0 != (#[trigger] changes[j]).0,
    ensures
        with_files(tree, changes).contains_key(changes[i].0) == (changes[i].1 is Some),
        changes[i].1 matches Some(content) ==> with_files(tree, changes)[changes[i].0] == content,
    decreases changes.len(),
{
    let fewer = changes.drop_last();
    assert(changes.last() == changes[changes.len() - 1]);
    if i < fewer.len() {
        assert(fewer[i] == changes[i]);
        assert forall|i: int, j: int| 0 <= i < j < fewer.len() implies (#[trigger] fewer[i]).0 != (
        #[trigger] fewer[j]).0 by {
            assert(fewer[i] == changes[i] && fewer[j] == changes[j]);
        }
        lemma_file_changed(tree, fewer, i);
        assert(changes[i].0 != changes[changes.len() - 1].0);
    }
}

/// A change of prompt files that fails is taken back: whichever of the files
/// were changed, putting back what all of them held gives the tree that there
/// was.
pub proof fn law_prompt_files_are_put_back<C>(
    tree: Map<Seq<char>, C>,
    changes: Seq<(Seq<char>, Option<C>)>,
    k: int,
)
    requires
        0 <= k <= changes.len(),
        forall|i: int, j: int|
            0 <= i < j < changes.len() ==> (#[trigger] changes[i]).0 != (#[trigger] changes[j]).0,
    ensures
        with_files(with_files(tree, changes.take(k)), contents(tree, changes)) == tree,
{
    let half = with_files(tree, changes.take(k));
    let held = contents(tree, changes);
    let after = with_files(half, held);
    assert forall|i: int, j: int| 0 <= i < j < held.len() implies (#[trigger] held[i]).0 != (
    #[trigger] held[j]).0 by {
        assert(held[i].0 == changes[i].0 && held[j].0 == changes[j].0);
    }
    assert forall|path: Seq<char>| #[trigger]
        after.contains_key(path) == tree.contains_key(path) && (tree.contains_key(path)
            ==> after[path] == tree[path]) by {
        if exists|i: int| 0 <= i < changes.len() && (#[trigger] changes[i]).0 == path {
            let i = choose|i: int| 0 <= i < changes.len() && (#[trigger] changes[i]).0 == path;
            assert(held[i].0 == path);
            lemma_file_changed(half, held, i);
        } else {
            assert forall|i: int| 0 <= i < held.len() implies (#[trigger] held[i]).0 != path by {
                assert(held[i].0 == changes[i].0);
            }
            lemma_with_files(half, held, path);
            let some = changes.take(k);
            assert forall|i: int| 0 <= i < some.len() implies (#[trigger] some[i]).0 != path by {
                assert(some[i] == changes[i]);
            }
            lemma_with_files(tree, some, path);
        }
    }
    assert(after =~= tree);
}

} // verus!

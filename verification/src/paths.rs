//! Paths as texts: how they are joined, and when two of them are the same.

use crate::table::append;
use crate::text::same;
use crate::words::{is_char, pieces, split_at_char, starts_with};
use vstd::prelude::*;

verus! {

/// Whether a path starts at the root.
pub open spec fn rooted(path: Seq<char>) -> bool {
    path.len() > 0 && path[0] == '/'
}

/// Two parts of a path: `name` below `dir`, unless `name` starts at the root.
pub open spec fn below(dir: Seq<char>, name: Seq<char>) -> Seq<char> {
    if rooted(name) {
        name
    } else if dir.len() == 0 || dir.last() == '/' {
        dir + name
    } else {
        dir + "/"@ + name
    }
}

/// What counts among the first `n` of the texts between slashes: none that is
/// empty, and no `.` but the one that a path starts with.
pub open spec fn counted(parts: Seq<Seq<char>>, n: nat) -> Seq<Seq<char>>
    decreases n,
{
    if n == 0 {
        Seq::empty()
    } else {
        let before = counted(parts, (n - 1) as nat);
        let part = parts[n - 1];
        if part.len() == 0 || (n > 1 && part == "."@) {
            before
        } else {
            before.push(part)
        }
    }
}

/// The components of a path, without the root.
pub open spec fn components(path: Seq<char>) -> Seq<Seq<char>> {
    let parts = pieces(path, is_char('/'));
    counted(parts, parts.len())
}

/// Whether two paths are the same, component by component.
pub open spec fn same_path(a: Seq<char>, b: Seq<char>) -> bool {
    rooted(a) == rooted(b) && components(a) == components(b)
}

/// Whether a path is that of a directory, or of something below it.
pub open spec fn lies_in(path: Seq<char>, dir: Seq<char>) -> bool {
    rooted(path) == rooted(dir) && components(dir).is_prefix_of(components(path))
}

/// The last of the texts between slashes.
pub open spec fn last_part(path: Seq<char>) -> Seq<char> {
    pieces(path, is_char('/')).last()
}

/// Where `..` leads from a path in plain form.
pub open spec fn upward(path: Seq<char>) -> Seq<char> {
    let last = last_part(path);
    let before = path.take(path.len() - last.len());
    if path.len() == 0 || last == ".."@ {
        below(path, ".."@)
    } else if before.len() <= 1 {
        before
    } else {
        before.drop_last()
    }
}

/// Where one component leads from a path in plain form.
pub open spec fn stepped(path: Seq<char>, part: Seq<char>) -> Seq<char> {
    if part.len() == 0 || part == "."@ {
        path
    } else if part == ".."@ {
        upward(path)
    } else {
        below(path, part)
    }
}

/// Where the first `n` components lead.
pub open spec fn walked(start: Seq<char>, parts: Seq<Seq<char>>, n: nat) -> Seq<char>
    decreases n,
{
    if n == 0 {
        start
    } else {
        stepped(walked(start, parts, (n - 1) as nat), parts[n - 1])
    }
}

/// A path in plain form: without empty components and `.`, and with `..` only
/// where it leads out of the directory that the path starts from.
pub open spec fn plain(path: Seq<char>) -> Seq<char> {
    let parts = pieces(path, is_char('/'));
    walked(
        if rooted(path) {
            "/"@
        } else {
            Seq::empty()
        },
        parts,
        parts.len(),
    )
}

/// Whether a path in plain form is the root, the directory that relative paths
/// start from, or one above it.
pub open spec fn outermost(path: Seq<char>) -> bool {
    let parts = pieces(path, is_char('/'));
    ||| path.len() == 0
    ||| path == "/"@
    ||| forall|i: int| 0 <= i < parts.len() ==> #[trigger] parts[i] == ".."@
}

/// Whether a directory lies above another, both in plain form.
pub open spec fn above(path: Seq<char>, dir: Seq<char>) -> bool {
    outermost(path) || (path + "/"@).is_prefix_of(dir)
}

pub(crate) fn is_rooted(path: &str) -> (yes: bool)
    ensures
        yes == rooted(path@),
{
    path.unicode_len() > 0 && path.get_char(0) == '/'
}

pub(crate) fn join_path(dir: &str, name: &str) -> (path: String)
    ensures
        path@ == below(dir@, name@),
{
    if is_rooted(name) {
        return name.to_owned();
    }
    let n: usize = dir.unicode_len();
    if n == 0 || dir.get_char(n - 1) == '/' {
        dir.to_owned().concat(name)
    } else {
        dir.to_owned().concat("/").concat(name)
    }
}

pub(crate) fn components_of(path: &str) -> (found: Vec<String>)
    ensures
        found.deep_view() == components(path@),
{
    let parts = split_at_char(path, '/');
    let mut found: Vec<String> = Vec::new();
    let mut i: usize = 0;
    let ghost all = parts.deep_view();
    assert(found.deep_view() =~= Seq::<Seq<char>>::empty());
    while i < parts.len()
        invariant
            i <= parts.len(),
            all == parts.deep_view(),
            found.deep_view() == counted(all, i as nat),
        decreases parts.len() - i,
    {
        assert(all[i as int] == parts[i as int]@);
        if !parts[i].as_str().is_empty() && (i == 0 || !same(parts[i].as_str(), ".")) {
            append(&mut found, parts[i].clone());
        }
        i += 1;
    }
    found
}

/// Whether a path is that of a directory, or of something below it.
pub fn path_lies_in(path: &str, dir: &str) -> (yes: bool)
    ensures
        yes == lies_in(path@, dir@),
{
    if is_rooted(path) != is_rooted(dir) {
        return false;
    }
    let all = components_of(path);
    let some = components_of(dir);
    if some.len() > all.len() {
        return false;
    }
    let mut i: usize = 0;
    while i < some.len()
        invariant
            i <= some.len() <= all.len(),
            some.deep_view() == components(dir@),
            all.deep_view() == components(path@),
            forall|j: int| 0 <= j < i ==> #[trigger] some.deep_view()[j] == all.deep_view()[j],
        decreases some.len() - i,
    {
        assert(some.deep_view()[i as int] == some[i as int]@);
        assert(all.deep_view()[i as int] == all[i as int]@);
        if !same(some[i].as_str(), all[i].as_str()) {
            assert(all.deep_view().subrange(0, some.len() as int)[i as int]
                != some.deep_view()[i as int]);
            return false;
        }
        i += 1;
    }
    assert(all.deep_view().subrange(0, some.len() as int) =~= some.deep_view());
    true
}

/// Whether two paths are the same, component by component.
pub fn paths_are_same(a: &str, b: &str) -> (yes: bool)
    ensures
        yes == same_path(a@, b@),
{
    let yes = path_lies_in(a, b) && path_lies_in(b, a);
    proof {
        let x = components(a@);
        let y = components(b@);
        if yes {
            assert(x.len() == y.len());
            assert(x.subrange(0, y.len() as int) =~= x);
        }
        assert(x.subrange(0, x.len() as int) =~= x);
    }
    yes
}

proof fn lemma_last_part(path: Seq<char>)
    ensures
        pieces(path, is_char('/')).len() > 0,
        last_part(path).len() <= path.len(),
    decreases path.len(),
{
    if path.len() > 0 {
        lemma_last_part(path.drop_last());
    }
}

/// The last of the texts between slashes.
pub(crate) fn last_part_of(path: &str) -> (last: String)
    ensures
        last@ == last_part(path@),
{
    let parts = split_at_char(path, '/');
    let n: usize = parts.len();
    assert(parts.deep_view()[n - 1] == parts[n - 1]@);
    parts[n - 1].clone()
}

fn up_from(path: &str) -> (dir: String)
    ensures
        dir@ == upward(path@),
{
    let last = last_part_of(path);
    let n: usize = path.unicode_len();
    if n == 0 || same(last.as_str(), "..") {
        return join_path(path, "..");
    }
    proof {
        lemma_last_part(path@);
    }
    let k: usize = n - last.as_str().unicode_len();
    let shown: usize = if k <= 1 {
        k
    } else {
        k - 1
    };
    let dir = path.substring_char(0, shown);
    assert(dir@ =~= upward(path@));
    dir.to_owned()
}

/// Where one component leads from a path in plain form.
pub(crate) fn step(path: &str, part: &str) -> (next: String)
    ensures
        next@ == stepped(path@, part@),
{
    if part.is_empty() || same(part, ".") {
        path.to_owned()
    } else if same(part, "..") {
        up_from(path)
    } else {
        join_path(path, part)
    }
}

/// A path in plain form.
pub fn plain_path(path: &str) -> (out: String)
    ensures
        out@ == plain(path@),
{
    let parts = split_at_char(path, '/');
    let mut out = if is_rooted(path) {
        "/".to_owned()
    } else {
        String::new()
    };
    let ghost start = out@;
    let ghost all = parts.deep_view();
    let mut i: usize = 0;
    while i < parts.len()
        invariant
            i <= parts.len(),
            all == parts.deep_view(),
            out@ == walked(start, all, i as nat),
        decreases parts.len() - i,
    {
        assert(all[i as int] == parts[i as int]@);
        out = step(out.as_str(), parts[i].as_str());
        i += 1;
    }
    out
}

fn is_outermost(path: &str) -> (yes: bool)
    ensures
        yes == outermost(path@),
{
    if path.is_empty() || same(path, "/") {
        return true;
    }
    let parts = split_at_char(path, '/');
    let ghost all = parts.deep_view();
    let mut i: usize = 0;
    while i < parts.len()
        invariant
            i <= parts.len(),
            path@.len() > 0,
            path@ != "/"@,
            all == parts.deep_view(),
            all == pieces(path@, is_char('/')),
            forall|j: int| 0 <= j < i ==> #[trigger] all[j] == ".."@,
        decreases parts.len() - i,
    {
        assert(all[i as int] == parts[i as int]@);
        if !same(parts[i].as_str(), "..") {
            return false;
        }
        i += 1;
    }
    true
}

/// Whether a directory lies above another, both in plain form.
pub(crate) fn is_above(path: &str, dir: &str) -> (yes: bool)
    ensures
        yes == above(path@, dir@),
{
    is_outermost(path) || starts_with(dir, path.to_owned().concat("/").as_str())
}

} // verus!

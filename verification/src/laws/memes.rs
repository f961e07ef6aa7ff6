//! What holds of libraries of pictures.

use crate::facts::lemma_filter_contains;
use crate::text::{drop_leading, drop_trailing};
use crate::tools::memes::{
    hash_of, in_use, library_char, library_char_fn, library_name, merged, trimmed_of, MemeItemModel,
};
use crate::words::is_char;
use vstd::prelude::*;

verus! {

/// Whether a character may stand in the name of a library.
pub open spec fn fits_library(c: char) -> bool {
    'a' <= c <= 'z' || '0' <= c <= '9' || c == '-' || c == '_'
}

proof fn lemma_library_char(c: char)
    ensures
        fits_library(library_char(c)),
        fits_library(c) ==> library_char(c) == c,
{
}

proof fn lemma_leading_char(s: Seq<char>, c: char)
    ensures
        ({
            let t = drop_leading(s, is_char(c));
            &&& t.len() == 0 || t[0] != c
            &&& forall|i: int| 0 <= i < t.len() ==> s.contains(#[trigger] t[i])
        }),
    decreases s.len(),
{
    if s.len() > 0 && s[0] == c {
        lemma_leading_char(s.drop_first(), c);
        let t = drop_leading(s, is_char(c));
        assert forall|i: int| 0 <= i < t.len() implies s.contains(#[trigger] t[i]) by {
            let rest = s.drop_first();
            assert(rest.contains(t[i]));
            let k = rest.index_of(t[i]);
            assert(s[k + 1] == t[i]);
        }
    }
}

proof fn lemma_trailing_char(s: Seq<char>, c: char)
    ensures
        ({
            let t = drop_trailing(s, is_char(c));
            &&& t.len() == 0 || t.last() != c
            &&& t.len() > 0 ==> t[0] == s[0]
            &&& forall|i: int| 0 <= i < t.len() ==> s.contains(#[trigger] t[i])
        }),
    decreases s.len(),
{
    if s.len() > 0 && s.last() == c {
        lemma_trailing_char(s.drop_last(), c);
        let t = drop_trailing(s, is_char(c));
        assert forall|i: int| 0 <= i < t.len() implies s.contains(#[trigger] t[i]) by {
            let rest = s.drop_last();
            assert(rest.contains(t[i]));
            let k = rest.index_of(t[i]);
            assert(s[k] == t[i]);
        }
    }
}

/// The name of a library holds nothing but small letters, digits, dashes and
/// lines, and is the name of the same library.
pub proof fn law_library_name_is_settled(value: Seq<char>)
    ensures
        library_name(library_name(value)) == library_name(value),
        library_name(value).len() > 0,
        forall|i: int|
            0 <= i < library_name(value).len() ==> fits_library(#[trigger] library_name(value)[i]),
{
    let mapped = value.map_values(library_char_fn());
    let left = drop_leading(mapped, is_char('-'));
    let name = library_name(value);
    lemma_leading_char(mapped, '-');
    lemma_trailing_char(left, '-');
    reveal_strlit("default");
    assert forall|i: int| 0 <= i < name.len() implies fits_library(#[trigger] name[i]) by {
        if trimmed_of(mapped, '-').len() > 0 {
            assert(left.contains(name[i]));
            let k = left.index_of(name[i]);
            assert(mapped.contains(left[k]));
            let m = mapped.index_of(left[k]);
            lemma_library_char(value[m]);
        }
    }
    assert(name.map_values(library_char_fn()) =~= name) by {
        assert forall|i: int| 0 <= i < name.len() implies library_char(#[trigger] name[i])
            == name[i] by {
            lemma_library_char(name[i]);
        }
    }
    assert(name[0] != '-');
    assert(name.last() != '-');
    assert(drop_leading(name, is_char('-')) == name);
}

/// No picture is loaded that is disabled.
pub proof fn law_disabled_memes_are_not_loaded(
    user: Seq<MemeItemModel>,
    user_dir: Seq<char>,
    builtin: Seq<MemeItemModel>,
    builtin_dir: Seq<char>,
    disabled: Seq<Seq<char>>,
    i: int,
)
    requires
        0 <= i < merged(user, user_dir, builtin, builtin_dir, disabled).len(),
    ensures
        !disabled.contains(merged(user, user_dir, builtin, builtin_dir, disabled)[i].item.hash),
{
    let own = user.filter(in_use(disabled));
    let known = disabled + own.map_values(hash_of());
    let others = builtin.filter(in_use(known));
    let all = merged(user, user_dir, builtin, builtin_dir, disabled);
    if i < own.len() {
        assert(all[i].item == own[i]);
        assert(own.contains(own[i]));
        lemma_filter_contains(user, in_use(disabled), own[i]);
    } else {
        let other = others[i - own.len()];
        assert(all[i].item == other);
        assert(others.contains(other));
        lemma_filter_contains(builtin, in_use(known), other);
        if disabled.contains(other.hash) {
            let k = disabled.index_of(other.hash);
            assert(known[k] == other.hash);
        }
    }
}

/// A picture that comes with the program is not loaded where the user has one
/// with the same hash.
pub proof fn law_own_memes_come_first(
    user: Seq<MemeItemModel>,
    user_dir: Seq<char>,
    builtin: Seq<MemeItemModel>,
    builtin_dir: Seq<char>,
    disabled: Seq<Seq<char>>,
    i: int,
    j: int,
)
    requires
        ({
            let all = merged(user, user_dir, builtin, builtin_dir, disabled);
            &&& 0 <= i < all.len()
            &&& 0 <= j < all.len()
            &&& all[i].source is User
            &&& all[j].source is Builtin
        }),
    ensures
        ({
            let all = merged(user, user_dir, builtin, builtin_dir, disabled);
            all[i].item.hash != all[j].item.hash && i < j
        }),
{
    let own = user.filter(in_use(disabled));
    let hashes = own.map_values(hash_of());
    let known = disabled + hashes;
    let others = builtin.filter(in_use(known));
    let all = merged(user, user_dir, builtin, builtin_dir, disabled);
    assert(i < own.len());
    assert(j >= own.len());
    let other = others[j - own.len()];
    assert(all[i].item == own[i]);
    assert(all[j].item == other);
    assert(others.contains(other));
    lemma_filter_contains(builtin, in_use(known), other);
    assert(hashes[i] == own[i].hash);
    assert(known[disabled.len() + i] == own[i].hash);
}

} // verus!

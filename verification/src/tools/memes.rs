//! Libraries of pictures that the assistant sends.

use crate::paths::{below, join_path};
use crate::table::{select, Row};
use crate::text::{
    byte_len, chars_of, decimal, decimal_text, drop_leading, drop_trailing, lemma_drop_leading_at,
    lemma_drop_trailing_at, one_of, slice, text_of, trim, trimmed,
};
use crate::words::{is_char, lower, starts_with, to_lower};
use vstd::prelude::*;

verus! {

/// Where a picture comes from.
#[derive(Debug, Clone, Copy, PartialEq, Eq, Structural)]
pub enum MemeSource {
    User,
    Builtin,
}

/// A picture of a library.
pub struct MemeItem {
    pub id: String,
    /// The part of the id that tells pictures apart.
    pub hash: String,
    pub file: String,
}

/// The model of [`MemeItem`].
#[verifier::ext_equal]
pub struct MemeItemModel {
    pub id: Seq<char>,
    pub hash: Seq<char>,
    pub file: Seq<char>,
}

impl DeepView for MemeItem {
    type V = MemeItemModel;

    open spec fn deep_view(&self) -> MemeItemModel {
        MemeItemModel {
            id: self.id.deep_view(),
            hash: self.hash.deep_view(),
            file: self.file.deep_view(),
        }
    }
}

impl Row for MemeItem {
    fn dup(&self) -> (copy: Self) {
        MemeItem {
            id: self.id.dup(),
            hash: self.hash.dup(),
            file: self.file.dup(),
        }
    }
}

/// A picture, and where it is.
pub struct LoadedMeme {
    pub item: MemeItem,
    pub path: String,
    pub source: MemeSource,
}

/// The model of [`LoadedMeme`].
#[verifier::ext_equal]
pub struct LoadedMemeModel {
    pub item: MemeItemModel,
    pub path: Seq<char>,
    pub source: MemeSource,
}

impl DeepView for LoadedMeme {
    type V = LoadedMemeModel;

    open spec fn deep_view(&self) -> LoadedMemeModel {
        LoadedMemeModel {
            item: self.item.deep_view(),
            path: self.path.deep_view(),
            source: self.source,
        }
    }
}

impl Row for LoadedMeme {
    fn dup(&self) -> (copy: Self) {
        LoadedMeme {
            item: self.item.dup(),
            path: self.path.dup(),
            source: self.source,
        }
    }
}


/// A character as it stands in the name of a library.
pub open spec fn library_char(c: char) -> char {
    if 'a' <= c <= 'z' || 'A' <= c <= 'Z' || '0' <= c <= '9' || c == '-' || c == '_' {
        lower(c)
    } else {
        '-'
    }
}

pub open spec fn library_char_fn() -> spec_fn(char) -> char {
    |c: char| library_char(c)
}

/// A text without the characters at its two ends that are `c`.
pub open spec fn trimmed_of(s: Seq<char>, c: char) -> Seq<char> {
    drop_trailing(drop_leading(s, is_char(c)), is_char(c))
}

/// A text as the name of a library: small letters, digits, dashes and lines, no
/// dash at an end; `default` where nothing is left.
pub open spec fn library_name(value: Seq<char>) -> Seq<char> {
    let name = trimmed_of(value.map_values(library_char_fn()), '-');
    if name.len() == 0 {
        "default"@
    } else {
        name
    }
}

fn trim_char(chars: &Vec<char>, c: char) -> (out: Vec<char>)
    ensures
        out@ == trimmed_of(chars@, c),
{
    let mut from: usize = 0;
    while from < chars.len() && chars[from] == c
        invariant
            from <= chars.len(),
            forall|j: int| 0 <= j < from ==> is_char(c)(#[trigger] chars@[j]),
        ensures
            from == chars.len() || !is_char(c)(chars@[from as int]),
        decreases chars.len() - from,
    {
        from += 1;
    }
    let ghost left = drop_leading(chars@, is_char(c));
    proof {
        lemma_drop_leading_at(chars@, is_char(c), from as int);
    }
    let mut to: usize = chars.len();
    while to > from && chars[to - 1] == c
        invariant
            from <= to <= chars.len(),
            left == chars@.skip(from as int),
            forall|j: int| to - from <= j < left.len() ==> is_char(c)(#[trigger] left[j]),
        ensures
            to == from || !is_char(c)(chars@[to - 1]),
        decreases to,
    {
        assert(left[to - 1 - from] == chars@[to - 1]);
        to -= 1;
    }
    proof {
        if to > from {
            assert(left[to - from - 1] == chars@[to - 1]);
        }
        lemma_drop_trailing_at(left, is_char(c), to - from);
        assert(left.take(to - from) =~= chars@.subrange(from as int, to as int));
    }
    slice(chars, from, to)
}

/// A text as the name of a library.
pub fn sanitize_library(value: &str) -> (name: String)
    ensures
        name@ == library_name(value@),
{
    let chars = chars_of(value);
    let mut out: Vec<char> = Vec::new();
    let mut i: usize = 0;
    while i < chars.len()
        invariant
            i <= chars.len(),
            out.len() == i,
            forall|j: int| 0 <= j < i ==> #[trigger] out[j] == library_char(chars[j]),
        decreases chars.len() - i,
    {
        let c = chars[i];
        if ('a' <= c && c <= 'z') || ('A' <= c && c <= 'Z') || ('0' <= c && c <= '9') || c == '-'
            || c == '_' {
            out.push(to_lower(c));
        } else {
            out.push('-');
        }
        i += 1;
    }
    assert(out@ =~= value@.map_values(library_char_fn()));
    let name = trim_char(&out, '-');
    if name.len() == 0 {
        "default".to_owned()
    } else {
        text_of(&name)
    }
}

/// The library that a call asks for or, where it asks for none, the one of the
/// persona.
pub fn selected_library(asked: Option<&str>, of_persona: &str) -> (name: String)
    ensures
        name@ == match asked {
            Some(asked) if trimmed(asked@).len() > 0 => library_name(trimmed(asked@)),
            _ => library_name(of_persona@),
        },
{
    if let Some(asked) = asked {
        let wanted = trim(asked);
        if !wanted.as_str().is_empty() {
            return sanitize_library(wanted.as_str());
        }
    }
    sanitize_library(of_persona)
}

/// The directory of the pictures that the user has in a library.
pub fn user_library_dir(data_dir: &str, library: &str) -> (dir: String)
    ensures
        dir@ == below(below(data_dir@, "memes"@), library_name(library@)),
{
    join_path(join_path(data_dir, "memes").as_str(), sanitize_library(library).as_str())
}

/// Something that a call must say.
pub open spec fn required(value: Option<Seq<char>>, key: Seq<char>) -> Result<Seq<char>, Seq<char>> {
    let said = match value {
        Some(value) => trimmed(value),
        None => Seq::empty(),
    };
    if said.len() == 0 {
        Err(key + " is required"@)
    } else {
        Ok(said)
    }
}

/// Something that a call must say.
pub fn required_str(value: Option<&str>, key: &str) -> (result: Result<String, String>)
    ensures
        match required(value.deep_view(), key@) {
            Ok(said) => result matches Ok(got) && got@ == said,
            Err(message) => result matches Err(got) && got@ == message,
        },
{
    let said = match value {
        Some(value) => trim(value),
        None => String::new(),
    };
    if said.as_str().is_empty() {
        Err(key.to_owned().concat(" is required"))
    } else {
        Ok(said)
    }
}

/// A path that was written down: below the home directory, absolute, or below
/// the directory at work.
pub open spec fn expanded(value: Seq<char>, home: Option<Seq<char>>, workdir: Seq<char>) -> Seq<char> {
    let path = trimmed(value);
    if "~/"@.is_prefix_of(path) && home is Some {
        below(home.unwrap(), path.skip(2))
    } else if "/"@.is_prefix_of(path) {
        path
    } else {
        below(workdir, path)
    }
}

/// A path that was written down: below the home directory, absolute, or below
/// the directory at work.
pub fn expand_path(value: &str, home: Option<&str>, workdir: &str) -> (path: String)
    ensures
        path@ == expanded(value@, home.deep_view(), workdir@),
{
    let path = trim(value);
    if starts_with(path.as_str(), "~/") {
        if let Some(home) = home {
            proof {
                reveal_strlit("~/");
            }
            let n: usize = path.as_str().unicode_len();
            let rest = path.as_str().substring_char(2, n);
            assert(rest@ =~= path@.skip(2));
            return join_path(home, rest);
        }
    }
    if starts_with(path.as_str(), "/") {
        path
    } else {
        join_path(workdir, path.as_str())
    }
}

/// Whether a picture is the user's own and in use.
pub open spec fn in_use(disabled: Seq<Seq<char>>) -> spec_fn(MemeItemModel) -> bool {
    |item: MemeItemModel| !disabled.contains(item.hash)
}

pub open spec fn hash_of() -> spec_fn(MemeItemModel) -> Seq<char> {
    |item: MemeItemModel| item.hash
}

pub open spec fn loaded_from(dir: Seq<char>, source: MemeSource) -> spec_fn(
    MemeItemModel,
) -> LoadedMemeModel {
    |item: MemeItemModel| LoadedMemeModel { item, path: below(dir, item.file), source }
}

/// The pictures of a library: those of the user, and those that come with the
/// program and that the user has not; none that is disabled.
pub open spec fn merged(
    user: Seq<MemeItemModel>,
    user_dir: Seq<char>,
    builtin: Seq<MemeItemModel>,
    builtin_dir: Seq<char>,
    disabled: Seq<Seq<char>>,
) -> Seq<LoadedMemeModel> {
    let own = user.filter(in_use(disabled));
    let own_hashes = own.map_values(hash_of());
    own.map_values(loaded_from(user_dir, MemeSource::User)) + builtin.filter(
        in_use(disabled + own_hashes),
    ).map_values(loaded_from(builtin_dir, MemeSource::Builtin))
}

fn load_from(items: &Vec<MemeItem>, dir: &str, source: MemeSource) -> (memes: Vec<LoadedMeme>)
    ensures
        memes.deep_view() == items.deep_view().map_values(loaded_from(dir@, source)),
{
    let mut memes: Vec<LoadedMeme> = Vec::new();
    let mut i: usize = 0;
    while i < items.len()
        invariant
            i <= items.len(),
            memes.len() == i,
            forall|j: int|
                0 <= j < i ==> #[trigger] memes[j].deep_view() == loaded_from(dir@, source)(
                    items[j].deep_view(),
                ),
        decreases items.len() - i,
    {
        memes.push(
            LoadedMeme {
                item: items[i].dup(),
                path: join_path(dir, items[i].file.as_str()),
                source,
            },
        );
        i += 1;
    }
    assert(memes.deep_view() =~= items.deep_view().map_values(loaded_from(dir@, source)));
    memes
}

/// The pictures of a library. `disabled` are the hashes of those that are not
/// used.
pub fn load_library(
    user: &Vec<MemeItem>,
    user_dir: &str,
    builtin: &Vec<MemeItem>,
    builtin_dir: &str,
    disabled: &Vec<String>,
) -> (memes: Vec<LoadedMeme>)
    ensures
        memes.deep_view() == merged(
            user.deep_view(),
            user_dir@,
            builtin.deep_view(),
            builtin_dir@,
            disabled.deep_view(),
        ),
{
    let used = |item: &MemeItem| -> (b: bool)
        ensures
            b == in_use(disabled.deep_view())(item.deep_view()),
        { !one_of(disabled, item.hash.as_str()) };
    let own = select(user, &used, Ghost(in_use(disabled.deep_view())));
    let mut known = disabled.dup();
    let mut i: usize = 0;
    let ghost hashes = own.deep_view().map_values(hash_of());
    assert(hashes.take(0) =~= Seq::<Seq<char>>::empty());
    assert(disabled.deep_view() + hashes.take(0) =~= disabled.deep_view());
    while i < own.len()
        invariant
            i <= own.len(),
            hashes == own.deep_view().map_values(hash_of()),
            known.deep_view() == disabled.deep_view() + hashes.take(i as int),
        decreases own.len() - i,
    {
        let ghost before = known.deep_view();
        let hash = own[i].hash.clone();
        known.push(hash);
        assert(known.deep_view() =~= before.push(hash@));
        assert(hashes[i as int] == hash@);
        assert(hashes.take(i + 1) =~= hashes.take(i as int).push(hash@));
        i += 1;
        assert(known.deep_view() =~= disabled.deep_view() + hashes.take(i as int));
    }
    assert(hashes.take(i as int) =~= hashes);
    let new_one = |item: &MemeItem| -> (b: bool)
        ensures
            b == in_use(known.deep_view())(item.deep_view()),
        { !one_of(&known, item.hash.as_str()) };
    let others = select(builtin, &new_one, Ghost(in_use(known.deep_view())));
    let mut memes = load_from(&own, user_dir, MemeSource::User);
    let more = load_from(&others, builtin_dir, MemeSource::Builtin);
    crate::table::append_all(&mut memes, &more);
    memes
}

pub open spec fn hash_begins(prefix: Seq<char>) -> spec_fn(LoadedMemeModel) -> bool {
    |meme: LoadedMemeModel| prefix.is_prefix_of(meme.item.hash)
}

/// The picture whose hash begins as asked. `full` says whether a whole hash is
/// asked for, and `min_len` how long a part of one must be.
pub open spec fn found(
    memes: Seq<LoadedMemeModel>,
    requested: Seq<char>,
    full: bool,
    min_len: usize,
) -> Result<Option<LoadedMemeModel>, Seq<char>> {
    if byte_len(requested) == 0 {
        Ok(None)
    } else if !full && byte_len(requested) < min_len {
        Err(
            "meme id prefix is too short: "@ + requested + "; use at least "@ + decimal(
                min_len as nat,
            ) + " hex characters"@,
        )
    } else {
        let matching = memes.filter(hash_begins(requested));
        if matching.len() == 0 {
            Ok(None)
        } else if matching.len() == 1 {
            Ok(Some(matching[0]))
        } else {
            Err("meme id prefix is ambiguous: "@ + requested + "; use a longer id"@)
        }
    }
}

/// The picture whose hash begins as asked, if there is one and only one.
pub fn find_meme_in(memes: &Vec<LoadedMeme>, requested: &str, full: bool, min_len: usize) -> (
result: Result<Option<LoadedMeme>, String>)
    ensures
        match found(memes.deep_view(), requested@, full, min_len) {
            Ok(meme) => result matches Ok(got) && got.deep_view() == meme,
            Err(message) => result matches Err(got) && got@ == message,
        },
{
    if requested.len() == 0 {
        return Ok(None);
    }
    if !full && requested.len() < min_len {
        return Err(
            "meme id prefix is too short: ".to_owned().concat(requested).concat(
                "; use at least ",
            ).concat(decimal_text(min_len as u64).as_str()).concat(" hex characters"),
        );
    }
    let begins = |meme: &LoadedMeme| -> (b: bool)
        ensures
            b == hash_begins(requested@)(meme.deep_view()),
        { starts_with(meme.item.hash.as_str(), requested) };
    let matching = select(memes, &begins, Ghost(hash_begins(requested@)));
    if matching.len() == 0 {
        assert(matching.deep_view().len() == 0);
        Ok(None)
    } else if matching.len() == 1 {
        assert(matching.deep_view()[0] == matching[0].deep_view());
        Ok(Some(matching[0].dup()))
    } else {
        assert(matching.deep_view().len() > 1);
        Err(
            "meme id prefix is ambiguous: ".to_owned().concat(requested).concat(
                "; use a longer id",
            ),
        )
    }
}

} // verus!

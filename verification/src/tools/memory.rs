//! What the assistant remembers: shards in files, and an index of them.

use crate::ambient::now_text;
use crate::paths::{
    above, below, is_above, is_rooted, join_path, last_part, last_part_of, plain, plain_path,
    rooted, step, stepped,
};
use crate::table::{
    any, first, first_row, limit, limited, map_rows, not, order_by, put, put_row, reject, sorted,
    Row,
};
use crate::text::{at_most, chars_of, same, take_chars, text_of, trim, trimmed};
use crate::words::{
    contains, cut, ends_with, find_from, first_at, occurs, is_char, lower_fn, pieces, split_at_char,
    split_once, starts_with, time_text,
};
use vstd::prelude::*;

verus! {

/// The text that `str::to_lowercase` makes of another.
pub uninterp spec fn lowercased(text: Seq<char>) -> Seq<char>;

/// Whether a text is made of ASCII characters.
pub open spec fn is_plain(text: Seq<char>) -> bool {
    forall|i: int| 0 <= i < text.len() ==> (#[trigger] text[i] as u32) < 128
}

/// `str::to_lowercase`. Of a text of ASCII characters it is said what comes out:
/// its letters in lower case. Of others the result is named, not described.
#[verifier::external_body]
pub(crate) fn to_lowercase(text: &str) -> (lower: String)
    ensures
        lower@ == lowercased(text@),
        is_plain(text@) ==> lower@ == text@.map_values(lower_fn()),
{
    text.to_lowercase()
}

/// What something that is remembered is about.
#[derive(Debug, Clone, Copy, PartialEq, Eq, Structural)]
pub enum MemoryType {
    User,
    Feedback,
    Project,
    Reference,
}

impl MemoryType {
    pub open spec fn word(self) -> Seq<char> {
        match self {
            MemoryType::User => "user"@,
            MemoryType::Feedback => "feedback"@,
            MemoryType::Project => "project"@,
            MemoryType::Reference => "reference"@,
        }
    }

    /// The type that a word in lower case stands for.
    pub open spec fn of_word(word: Seq<char>) -> Option<MemoryType> {
        if word == "user"@ {
            Some(MemoryType::User)
        } else if word == "feedback"@ {
            Some(MemoryType::Feedback)
        } else if word == "project"@ {
            Some(MemoryType::Project)
        } else if word == "reference"@ {
            Some(MemoryType::Reference)
        } else {
            None
        }
    }

    pub fn as_str(&self) -> (word: &'static str)
        ensures
            word@ == self.word(),
    {
        match self {
            MemoryType::User => "user",
            MemoryType::Feedback => "feedback",
            MemoryType::Project => "project",
            MemoryType::Reference => "reference",
        }
    }

    /// The type that a word in lower case stands for.
    pub fn from_word(word: &str) -> (found: Option<MemoryType>)
        ensures
            found == MemoryType::of_word(word@),
    {
        if same(word, "user") {
            Some(MemoryType::User)
        } else if same(word, "feedback") {
            Some(MemoryType::Feedback)
        } else if same(word, "project") {
            Some(MemoryType::Project)
        } else if same(word, "reference") {
            Some(MemoryType::Reference)
        } else {
            None
        }
    }

    /// The type that a word stands for, in whatever case.
    pub fn from_str(s: &str) -> (found: Option<MemoryType>)
        ensures
            found == MemoryType::of_word(lowercased(s@)),
            is_plain(s@) ==> found == MemoryType::of_word(s@.map_values(lower_fn())),
    {
        let lower = to_lowercase(s);
        MemoryType::from_word(lower.as_str())
    }
}

/// How something is written.
#[derive(Debug, Clone, Copy, PartialEq, Eq, Structural)]
pub enum WriteMode {
    Create,
    Update,
    Append,
}

/// What a shard says of itself.
pub struct MemoryMeta {
    pub filename: String,
    pub memory_type: MemoryType,
    pub title: String,
    pub description: String,
    pub created_at: String,
    pub updated_at: String,
}

/// The model of [`MemoryMeta`].
#[verifier::ext_equal]
pub struct MemoryMetaModel {
    pub filename: Seq<char>,
    pub memory_type: MemoryType,
    pub title: Seq<char>,
    pub description: Seq<char>,
    pub created_at: Seq<char>,
    pub updated_at: Seq<char>,
}

impl DeepView for MemoryMeta {
    type V = MemoryMetaModel;

    open spec fn deep_view(&self) -> MemoryMetaModel {
        MemoryMetaModel {
            filename: self.filename.deep_view(),
            memory_type: self.memory_type,
            title: self.title.deep_view(),
            description: self.description.deep_view(),
            created_at: self.created_at.deep_view(),
            updated_at: self.updated_at.deep_view(),
        }
    }
}

impl Row for MemoryMeta {
    fn dup(&self) -> (copy: Self) {
        MemoryMeta {
            filename: self.filename.dup(),
            memory_type: self.memory_type,
            title: self.title.dup(),
            description: self.description.dup(),
            created_at: self.created_at.dup(),
            updated_at: self.updated_at.dup(),
        }
    }
}

/// Something remembered.
pub struct MemoryShard {
    pub meta: MemoryMeta,
    pub body: String,
}

/// The model of [`MemoryShard`].
#[verifier::ext_equal]
pub struct MemoryShardModel {
    pub meta: MemoryMetaModel,
    pub body: Seq<char>,
}

impl DeepView for MemoryShard {
    type V = MemoryShardModel;

    open spec fn deep_view(&self) -> MemoryShardModel {
        MemoryShardModel {
            meta: self.meta.deep_view(),
            body: self.body.deep_view(),
        }
    }
}

impl Row for MemoryShard {
    fn dup(&self) -> (copy: Self) {
        MemoryShard {
            meta: self.meta.dup(),
            body: self.body.dup(),
        }
    }
}

/// What is to be remembered.
pub struct WriteOptions {
    pub memory_type: MemoryType,
    pub name: String,
    pub title: String,
    pub description: String,
    pub body: String,
    pub mode: WriteMode,
}

/// The model of [`WriteOptions`].
#[verifier::ext_equal]
pub struct WriteOptionsModel {
    pub memory_type: MemoryType,
    pub name: Seq<char>,
    pub title: Seq<char>,
    pub description: Seq<char>,
    pub body: Seq<char>,
    pub mode: WriteMode,
}

impl DeepView for WriteOptions {
    type V = WriteOptionsModel;

    open spec fn deep_view(&self) -> WriteOptionsModel {
        WriteOptionsModel {
            memory_type: self.memory_type,
            name: self.name.deep_view(),
            title: self.title.deep_view(),
            description: self.description.deep_view(),
            body: self.body.deep_view(),
            mode: self.mode,
        }
    }
}

impl Row for WriteOptions {
    fn dup(&self) -> (copy: Self) {
        WriteOptions {
            memory_type: self.memory_type,
            name: self.name.dup(),
            title: self.title.dup(),
            description: self.description.dup(),
            body: self.body.dup(),
            mode: self.mode,
        }
    }
}

/// Something that a search found.
pub struct MemoryHit {
    pub filename: String,
    pub memory_type: MemoryType,
    pub title: String,
    pub snippet: String,
    /// How well it fits, in halves.
    pub score: u32,
}

/// The model of [`MemoryHit`].
#[verifier::ext_equal]
pub struct MemoryHitModel {
    pub filename: Seq<char>,
    pub memory_type: MemoryType,
    pub title: Seq<char>,
    pub snippet: Seq<char>,
    pub score: u32,
}

impl DeepView for MemoryHit {
    type V = MemoryHitModel;

    open spec fn deep_view(&self) -> MemoryHitModel {
        MemoryHitModel {
            filename: self.filename.deep_view(),
            memory_type: self.memory_type,
            title: self.title.deep_view(),
            snippet: self.snippet.deep_view(),
            score: self.score,
        }
    }
}

impl Row for MemoryHit {
    fn dup(&self) -> (copy: Self) {
        MemoryHit {
            filename: self.filename.dup(),
            memory_type: self.memory_type,
            title: self.title.dup(),
            snippet: self.snippet.dup(),
            score: self.score,
        }
    }
}

/// What came of writing.
pub struct WriteResult {
    pub filename: String,
    pub warning: Option<String>,
}

/// The model of [`WriteResult`].
#[verifier::ext_equal]
pub struct WriteResultModel {
    pub filename: Seq<char>,
    pub warning: Option<Seq<char>>,
}

impl DeepView for WriteResult {
    type V = WriteResultModel;

    open spec fn deep_view(&self) -> WriteResultModel {
        WriteResultModel {
            filename: self.filename.deep_view(),
            warning: self.warning.deep_view(),
        }
    }
}

impl Row for WriteResult {
    fn dup(&self) -> (copy: Self) {
        WriteResult {
            filename: self.filename.dup(),
            warning: self.warning.dup(),
        }
    }
}


/// Why something is not remembered, or not found.
#[derive(Debug)]
pub enum MemoryError {
    NotFound(String),
    AlreadyExists(String),
    MissingFrontmatter,
    UnclosedFrontmatter,
    /// What lies there holds no text.
    Unreadable(String),
    /// It lies in no directory, or a directory lies there.
    Unwritable(String),
}

/// The model of [`MemoryError`].
#[verifier::ext_equal]
pub enum MemoryErrorModel {
    NotFound(Seq<char>),
    AlreadyExists(Seq<char>),
    MissingFrontmatter,
    UnclosedFrontmatter,
    Unreadable(Seq<char>),
    Unwritable(Seq<char>),
}

impl View for MemoryError {
    type V = MemoryErrorModel;

    open spec fn view(&self) -> MemoryErrorModel {
        match self {
            MemoryError::NotFound(name) => MemoryErrorModel::NotFound(name@),
            MemoryError::AlreadyExists(name) => MemoryErrorModel::AlreadyExists(name@),
            MemoryError::MissingFrontmatter => MemoryErrorModel::MissingFrontmatter,
            MemoryError::UnclosedFrontmatter => MemoryErrorModel::UnclosedFrontmatter,
            MemoryError::Unreadable(name) => MemoryErrorModel::Unreadable(name@),
            MemoryError::Unwritable(name) => MemoryErrorModel::Unwritable(name@),
        }
    }
}

impl MemoryErrorModel {
    pub open spec fn message(self) -> Seq<char> {
        match self {
            MemoryErrorModel::NotFound(name) => "NOT_FOUND: memory '"@ + name + "' not found"@,
            MemoryErrorModel::AlreadyExists(name) => "ALREADY_EXISTS: memory '"@ + name
                + "' already exists"@,
            MemoryErrorModel::MissingFrontmatter => "invalid shard format: missing frontmatter"@,
            MemoryErrorModel::UnclosedFrontmatter => "invalid shard format: unclosed frontmatter"@,
            MemoryErrorModel::Unreadable(name) => "cannot read '"@ + name + "'"@,
            MemoryErrorModel::Unwritable(name) => "cannot write '"@ + name + "'"@,
        }
    }
}

impl MemoryError {
    /// The error in words.
    pub fn message(&self) -> (text: String)
        ensures
            text@ == self@.message(),
    {
        match self {
            MemoryError::NotFound(name) => "NOT_FOUND: memory '".to_owned().concat(
                name.as_str(),
            ).concat("' not found"),
            MemoryError::AlreadyExists(name) => "ALREADY_EXISTS: memory '".to_owned().concat(
                name.as_str(),
            ).concat("' already exists"),
            MemoryError::MissingFrontmatter => {
                "invalid shard format: missing frontmatter".to_owned()
            },
            MemoryError::UnclosedFrontmatter => {
                "invalid shard format: unclosed frontmatter".to_owned()
            },
            MemoryError::Unreadable(name) => "cannot read '".to_owned().concat(
                name.as_str(),
            ).concat("'"),
            MemoryError::Unwritable(name) => "cannot write '".to_owned().concat(
                name.as_str(),
            ).concat("'"),
        }
    }
}

/// What a shard says of itself that says nothing.
pub open spec fn no_meta() -> MemoryMetaModel {
    MemoryMetaModel {
        filename: Seq::empty(),
        memory_type: MemoryType::User,
        title: Seq::empty(),
        description: Seq::empty(),
        created_at: Seq::empty(),
        updated_at: Seq::empty(),
    }
}

/// A shard that says `value` under `key`.
pub open spec fn with_field(meta: MemoryMetaModel, key: Seq<char>, value: Seq<char>) -> MemoryMetaModel {
    if key == "type"@ {
        MemoryMetaModel {
            memory_type: match MemoryType::of_word(lowercased(value)) {
                Some(memory_type) => memory_type,
                None => MemoryType::User,
            },
            ..meta
        }
    } else if key == "title"@ {
        MemoryMetaModel { title: value, ..meta }
    } else if key == "description"@ {
        MemoryMetaModel { description: value, ..meta }
    } else if key == "created_at"@ {
        MemoryMetaModel { created_at: value, ..meta }
    } else if key == "updated_at"@ {
        MemoryMetaModel { updated_at: value, ..meta }
    } else {
        meta
    }
}

pub open spec fn with_line(meta: MemoryMetaModel, line: Seq<char>) -> MemoryMetaModel {
    match cut(trimmed(line), ':') {
        Some((key, value)) => with_field(meta, trimmed(key), trimmed(value)),
        None => meta,
    }
}

/// What the lines at the head of a shard say; of two that say the same thing,
/// the last one counts.
pub open spec fn said_in(lines: Seq<Seq<char>>) -> MemoryMetaModel
    decreases lines.len(),
{
    if lines.len() == 0 {
        no_meta()
    } else {
        with_line(said_in(lines.drop_last()), lines.last())
    }
}

/// What a file says: what stands between two fences, and what comes behind.
pub open spec fn parsed(content: Seq<char>) -> Result<
    (MemoryMetaModel, Seq<char>),
    MemoryErrorModel,
> {
    let text = trimmed(content);
    if !"---"@.is_prefix_of(text) {
        Err(MemoryErrorModel::MissingFrontmatter)
    } else {
        match first_at(text, "---"@, 3) {
            None => Err(MemoryErrorModel::UnclosedFrontmatter),
            Some(end) => Ok(
                (
                    said_in(pieces(text.subrange(3, end), is_char('\n'))),
                    trimmed(text.skip(end + 3)),
                ),
            ),
        }
    }
}

fn set_field(meta: MemoryMeta, key: &str, value: String) -> (out: MemoryMeta)
    ensures
        out.deep_view() == with_field(meta.deep_view(), key@, value@),
{
    if same(key, "type") {
        let memory_type = match MemoryType::from_str(value.as_str()) {
            Some(memory_type) => memory_type,
            None => MemoryType::User,
        };
        MemoryMeta { memory_type, ..meta }
    } else if same(key, "title") {
        MemoryMeta { title: value, ..meta }
    } else if same(key, "description") {
        MemoryMeta { description: value, ..meta }
    } else if same(key, "created_at") {
        MemoryMeta { created_at: value, ..meta }
    } else if same(key, "updated_at") {
        MemoryMeta { updated_at: value, ..meta }
    } else {
        meta
    }
}

fn read_lines(lines: &Vec<String>) -> (meta: MemoryMeta)
    ensures
        meta.deep_view() == said_in(lines.deep_view()),
{
    let mut meta = MemoryMeta {
        filename: String::new(),
        memory_type: MemoryType::User,
        title: String::new(),
        description: String::new(),
        created_at: String::new(),
        updated_at: String::new(),
    };
    let mut i: usize = 0;
    let ghost all = lines.deep_view();
    assert(all.take(0) =~= Seq::<Seq<char>>::empty());
    assert(meta.deep_view() =~= no_meta());
    while i < lines.len()
        invariant
            i <= lines.len(),
            all == lines.deep_view(),
            meta.deep_view() == said_in(all.take(i as int)),
        decreases lines.len() - i,
    {
        proof {
            assert(all.take(i + 1).drop_last() =~= all.take(i as int));
            assert(all.take(i + 1).last() == lines[i as int]@);
        }
        let line = trim(lines[i].as_str());
        if let Some((key, value)) = split_once(line.as_str(), ':') {
            let key = trim(key.as_str());
            meta = set_field(meta, key.as_str(), trim(value.as_str()));
        }
        i += 1;
    }
    assert(all.take(i as int) =~= all);
    meta
}

pub open spec fn parse_answer(
    result: Result<(MemoryMeta, String), MemoryError>,
    expected: Result<(MemoryMetaModel, Seq<char>), MemoryErrorModel>,
) -> bool {
    match expected {
        Ok(value) => result matches Ok(got) && got.deep_view() == value,
        Err(error) => result matches Err(got) && got@ == error,
    }
}

/// What a file says of itself, and what else it says.
pub fn parse_shard(content: &str) -> (result: Result<(MemoryMeta, String), MemoryError>)
    ensures
        parse_answer(result, parsed(content@)),
{
    let text = trim(content);
    if !starts_with(text.as_str(), "---") {
        return Err(MemoryError::MissingFrontmatter);
    }
    proof {
        reveal_strlit("---");
    }
    match find_from(text.as_str(), "---", 3) {
        None => Err(MemoryError::UnclosedFrontmatter),
        Some(end) => {
            proof {
                lemma_found_behind(text@, "---"@, 3);
            }
            let n: usize = text.as_str().unicode_len();
            let head = text.as_str().substring_char(3, end);
            let rest = text.as_str().substring_char(end + 3, n);
            assert(head@ =~= text@.subrange(3, end as int));
            assert(rest@ =~= text@.skip(end + 3));
            let lines = split_at_char(head, '\n');
            Ok((read_lines(&lines), trim(rest)))
        },
    }
}

proof fn lemma_found_behind(s: Seq<char>, sub: Seq<char>, from: int)
    requires
        0 <= from,
    ensures
        first_at(s, sub, from) matches Some(i) ==> from <= i && i + sub.len() <= s.len(),
    decreases s.len() + 1 - from,
{
    if from + sub.len() <= s.len() {
        lemma_found_behind(s, sub, from + 1);
    }
}

/// How many bytes a character takes in UTF-8.
pub open spec fn width(c: char) -> nat {
    if (c as u32) < 0x80 {
        1
    } else if (c as u32) < 0x800 {
        2
    } else if (c as u32) < 0x10000 {
        3
    } else {
        4
    }
}

/// How many bytes a text takes in UTF-8.
pub open spec fn size(s: Seq<char>) -> nat
    decreases s.len(),
{
    if s.len() == 0 {
        0
    } else {
        size(s.drop_last()) + width(s.last())
    }
}

fn width_of(c: char) -> (n: u128)
    ensures
        n == width(c),
        n <= 4,
{
    let code: u32 = c as u32;
    if code < 0x80 {
        1
    } else if code < 0x800 {
        2
    } else if code < 0x10000 {
        3
    } else {
        4
    }
}

fn size_of(chars: &Vec<char>, n: usize) -> (bytes: u128)
    requires
        n <= chars.len(),
    ensures
        bytes == size(chars@.take(n as int)),
        bytes <= 4 * n,
{
    let mut bytes: u128 = 0;
    let mut i: usize = 0;
    assert(chars@.take(0) =~= Seq::<char>::empty());
    while i < n
        invariant
            i <= n <= chars.len(),
            bytes == size(chars@.take(i as int)),
            bytes <= 4 * i,
        decreases n - i,
    {
        proof {
            assert(chars@.take(i + 1).drop_last() =~= chars@.take(i as int));
        }
        bytes = bytes + width_of(chars[i]);
        i += 1;
    }
    bytes
}

/// The characters among the first `n` that lie, at least in part, on the bytes
/// from `start` up to `end`.
pub open spec fn covered(s: Seq<char>, start: nat, end: nat, n: nat) -> Seq<char>
    decreases n,
{
    if n == 0 {
        Seq::empty()
    } else {
        let rest = covered(s, start, end, (n - 1) as nat);
        let from = size(s.take(n - 1));
        if from + width(s[n - 1]) > start && from < end {
            rest.push(s[n - 1])
        } else {
            rest
        }
    }
}

/// What of a body is shown that holds the query: fifty bytes before it and
/// fifty behind it or, where it does not hold it, its first hundred characters.
/// The two last arguments are the query and the body in lower case.
pub open spec fn snippet(
    query: Seq<char>,
    body: Seq<char>,
    query_lower: Seq<char>,
    body_lower: Seq<char>,
) -> Seq<char> {
    match first_at(body_lower, query_lower, 0) {
        Some(at) => {
            let pos = size(body_lower.take(at));
            let start = if pos > 50 {
                (pos - 50) as nat
            } else {
                0
            };
            let end = if pos + size(query) + 50 < size(body) {
                pos + size(query) + 50
            } else {
                size(body)
            };
            "..."@ + trimmed(covered(body, start, end, body.len())) + "..."@
        },
        None => at_most(body, 100) + "..."@,
    }
}

fn part(chars: &Vec<char>, start: u128, end: u128) -> (out: String)
    ensures
        out@ == covered(chars@, start as nat, end as nat, chars@.len()),
{
    let mut out: Vec<char> = Vec::new();
    let mut from: u128 = 0;
    let mut i: usize = 0;
    assert(chars@.take(0) =~= Seq::<char>::empty());
    while i < chars.len()
        invariant
            i <= chars.len(),
            from == size(chars@.take(i as int)),
            from <= 4 * i,
            out@ == covered(chars@, start as nat, end as nat, i as nat),
        decreases chars.len() - i,
    {
        proof {
            assert(chars@.take(i + 1).drop_last() =~= chars@.take(i as int));
        }
        let to: u128 = from + width_of(chars[i]);
        if to > start && from < end {
            out.push(chars[i]);
        }
        from = to;
        i += 1;
    }
    text_of(&out)
}

/// What of a body is shown. The two last arguments are the query and the body in
/// lower case.
pub fn snippet_of(query: &str, body: &str, query_lower: &str, body_lower: &str) -> (text: String)
    ensures
        text@ == snippet(query@, body@, query_lower@, body_lower@),
{
    match find_from(body_lower, query_lower, 0) {
        Some(at) => {
            proof {
                lemma_found_behind(body_lower@, query_lower@, 0);
            }
            let lower = chars_of(body_lower);
            let wanted = chars_of(query);
            let chars = chars_of(body);
            let pos: u128 = size_of(&lower, at);
            assert(wanted@.take(wanted.len() as int) =~= query@);
            assert(chars@.take(chars.len() as int) =~= body@);
            let start: u128 = if pos > 50 {
                pos - 50
            } else {
                0
            };
            let reach: u128 = pos + size_of(&wanted, wanted.len()) + 50;
            let whole: u128 = size_of(&chars, chars.len());
            let end: u128 = if reach < whole {
                reach
            } else {
                whole
            };
            let shown = part(&chars, start, end);
            "...".to_owned().concat(trim(shown.as_str()).as_str()).concat("...")
        },
        None => take_chars(body, 100).concat("..."),
    }
}

/// How well a shard fits a query, in halves: two for its title, one and a half
/// for its description, one for its body. All are in lower case.
pub open spec fn score(
    query: Seq<char>,
    title: Seq<char>,
    description: Seq<char>,
    body: Seq<char>,
) -> u32 {
    let title_score: int = if occurs(title, query) {
        4
    } else {
        0
    };
    let description_score: int = if occurs(description, query) {
        3
    } else {
        0
    };
    let body_score: int = if occurs(body, query) {
        2
    } else {
        0
    };
    (title_score + description_score + body_score) as u32
}

/// How well a shard fits a query, in halves. All are in lower case.
pub fn score_of(query: &str, title: &str, description: &str, body: &str) -> (points: u32)
    ensures
        points == score(query@, title@, description@, body@),
{
    let mut points: u32 = 0;
    if contains(title, query) {
        points = points + 4;
    }
    if contains(description, query) {
        points = points + 3;
    }
    if contains(body, query) {
        points = points + 2;
    }
    points
}

pub open spec fn shard_score(query: Seq<char>, shard: MemoryShardModel) -> u32 {
    score(
        lowercased(query),
        lowercased(shard.meta.title),
        lowercased(shard.meta.description),
        lowercased(shard.body),
    )
}

pub open spec fn hit(query: Seq<char>, shard: MemoryShardModel) -> MemoryHitModel {
    MemoryHitModel {
        filename: shard.meta.filename,
        memory_type: shard.meta.memory_type,
        title: shard.meta.title,
        snippet: snippet(query, shard.body, lowercased(query), lowercased(shard.body)),
        score: shard_score(query, shard),
    }
}

/// What a search finds among the first `n` shards, of one type where one is
/// wanted.
pub open spec fn hits(
    shards: Seq<MemoryShardModel>,
    query: Seq<char>,
    wanted: Option<MemoryType>,
    n: nat,
) -> Seq<MemoryHitModel>
    decreases n,
{
    if n == 0 {
        Seq::empty()
    } else {
        let found = hits(shards, query, wanted, (n - 1) as nat);
        let shard = shards[n - 1];
        if (wanted matches Some(t) ==> t == shard.meta.memory_type) && shard_score(query, shard)
            > 0 {
            found.push(hit(query, shard))
        } else {
            found
        }
    }
}

pub open spec fn fits_better() -> spec_fn(MemoryHitModel, MemoryHitModel) -> bool {
    |a: MemoryHitModel, b: MemoryHitModel| a.score > b.score
}

/// The file that holds the index.
pub const INDEX_FILE: &'static str = "MEMORY.md";

pub const EMPTY_INDEX: &'static str = "# Memory Index\n\n";

/// What lies at a path.
pub enum Entry {
    /// A file that holds a text.
    Text(String),
    /// A file that holds no text.
    Bytes,
    Directory,
}

/// The model of [`Entry`].
#[verifier::ext_equal]
pub enum EntryModel {
    Text(Seq<char>),
    Bytes,
    Directory,
}

impl DeepView for Entry {
    type V = EntryModel;

    open spec fn deep_view(&self) -> EntryModel {
        match self {
            Entry::Text(text) => EntryModel::Text(text@),
            Entry::Bytes => EntryModel::Bytes,
            Entry::Directory => EntryModel::Directory,
        }
    }
}

impl Row for Entry {
    fn dup(&self) -> (copy: Self) {
        match self {
            Entry::Text(text) => Entry::Text(text.clone()),
            Entry::Bytes => Entry::Bytes,
            Entry::Directory => Entry::Directory,
        }
    }
}

/// Whether a file of the directory itself holds a shard, by its name.
pub open spec fn is_shard_file(name: Seq<char>) -> bool {
    ".md"@.is_suffix_of(name) && name.len() > 3 && name != INDEX_FILE@
}

/// Whether a path is that of a file with a shard, right in the directory `home`.
pub open spec fn is_shard_path(home: Seq<char>, path: Seq<char>) -> bool {
    is_shard_file(last_part(path)) && below(home, last_part(path)) == path
}

pub open spec fn at_place(place: Seq<char>) -> spec_fn((Seq<char>, EntryModel)) -> bool {
    |entry: (Seq<char>, EntryModel)| entry.0 == place
}

pub open spec fn with_text(text: Seq<char>) -> spec_fn((Seq<char>, EntryModel)) -> (
    Seq<char>,
    EntryModel,
) {
    |entry: (Seq<char>, EntryModel)| (entry.0, EntryModel::Text(text))
}

/// A shard as its file has it: it is named as the last component of the path.
pub open spec fn shard_in(path: Seq<char>, text: Seq<char>) -> Result<
    MemoryShardModel,
    MemoryErrorModel,
> {
    match parsed(text) {
        Ok((meta, body)) => Ok(
            MemoryShardModel { meta: MemoryMetaModel { filename: last_part(path), ..meta }, body },
        ),
        Err(error) => Err(error),
    }
}

/// The shard at an entry, if one lies there, right in the directory `home`, and
/// can be read.
pub open spec fn shard_at(home: Seq<char>, entry: (Seq<char>, EntryModel)) -> Option<
    MemoryShardModel,
> {
    match entry.1 {
        EntryModel::Text(text) => match shard_in(entry.0, text) {
            Ok(shard) if is_shard_path(home, entry.0) => Some(shard),
            _ => None,
        },
        _ => None,
    }
}

/// The shards among the first `n` entries.
pub open spec fn shards_in(
    home: Seq<char>,
    entries: Seq<(Seq<char>, EntryModel)>,
    n: nat,
) -> Seq<MemoryShardModel>
    decreases n,
{
    if n == 0 {
        Seq::empty()
    } else {
        let before = shards_in(home, entries, (n - 1) as nat);
        match shard_at(home, entries[n - 1]) {
            Some(shard) => before.push(shard),
            None => before,
        }
    }
}

pub open spec fn meta_of() -> spec_fn(MemoryShardModel) -> MemoryMetaModel {
    |shard: MemoryShardModel| shard.meta
}

/// A line of the index.
pub open spec fn index_line(meta: MemoryMetaModel) -> Seq<char> {
    "- ["@ + meta.title + "] ("@ + meta.memory_type.word() + ") - "@ + meta.description + "\n"@
}

/// The index of the first `n` shards.
pub open spec fn index_of(metas: Seq<MemoryMetaModel>, n: nat) -> Seq<char>
    decreases n,
{
    if n == 0 {
        "# Memory Index\n\n"@
    } else {
        index_of(metas, (n - 1) as nat) + index_line(metas[n - 1])
    }
}

/// The text of a shard.
pub open spec fn shard_text(
    memory_type: MemoryType,
    title: Seq<char>,
    description: Seq<char>,
    created_at: Seq<char>,
    updated_at: Seq<char>,
    body: Seq<char>,
) -> Seq<char> {
    "---\ntype: "@ + memory_type.word() + "\ntitle: "@ + title + "\ndescription: "@ + description
        + "\ncreated_at: "@ + created_at + "\nupdated_at: "@ + updated_at + "\n---\n\n"@ + body
        + "\n"@
}

fn write_text(
    memory_type: MemoryType,
    title: &str,
    description: &str,
    created_at: &str,
    updated_at: &str,
    body: &str,
) -> (text: String)
    ensures
        text@ == shard_text(memory_type, title@, description@, created_at@, updated_at@, body@),
{
    "---\ntype: ".to_owned().concat(memory_type.as_str()).concat("\ntitle: ").concat(title).concat(
        "\ndescription: ",
    ).concat(description).concat("\ncreated_at: ").concat(created_at).concat(
        "\nupdated_at: ",
    ).concat(updated_at).concat("\n---\n\n").concat(body).concat("\n")
}

/// The file that a name stands for.
pub open spec fn file_of(name: Seq<char>) -> Seq<char> {
    if ".md"@.is_suffix_of(name) {
        name
    } else {
        name + ".md"@
    }
}

/// The directory of what is remembered: its path, and what lies in it and, as far
/// as a name leads there, around it, each under its path in plain form. The
/// directory itself and those above it are there without being listed.
#[verifier::ext_equal]
pub struct MemoryModel {
    pub base_dir: Seq<char>,
    pub entries: Seq<(Seq<char>, EntryModel)>,
}

impl MemoryModel {
    /// No two entries have one path.
    pub open spec fn well_formed(self) -> bool {
        forall|i: int, j: int|
            0 <= i < j < self.entries.len() ==> (#[trigger] self.entries[i]).0 != (
            #[trigger] self.entries[j]).0
    }

    /// The directory's own path in plain form.
    pub open spec fn home(self) -> Seq<char> {
        plain(self.base_dir)
    }

    /// What lies at a path in plain form.
    pub open spec fn entry(self, place: Seq<char>) -> Option<EntryModel> {
        if place == self.home() || above(place, self.home()) {
            Some(EntryModel::Directory)
        } else {
            match first(self.entries, at_place(place)) {
                Some(entry) => Some(entry.1),
                None => None,
            }
        }
    }

    pub open spec fn is_dir(self, place: Seq<char>) -> bool {
        self.entry(place) == Some(EntryModel::Directory)
    }

    /// Where the first `n` components lead, if every step starts in a directory.
    pub open spec fn led(self, start: Seq<char>, parts: Seq<Seq<char>>, n: nat) -> Option<Seq<char>>
        decreases n,
    {
        if n == 0 {
            Some(start)
        } else {
            match self.led(start, parts, (n - 1) as nat) {
                Some(here) if self.is_dir(here) => Some(stepped(here, parts[n - 1])),
                _ => None,
            }
        }
    }

    /// The path in plain form that a name leads to from the directory, or from
    /// the root. A name with a NUL leads nowhere.
    pub open spec fn place(self, name: Seq<char>) -> Option<Seq<char>> {
        let parts = pieces(name, is_char('/'));
        if occurs(name, "\0"@) {
            None
        } else {
            self.led(
                if rooted(name) {
                    "/"@
                } else {
                    self.home()
                },
                parts,
                parts.len(),
            )
        }
    }

    /// What a name leads to.
    pub open spec fn found(self, name: Seq<char>) -> Option<EntryModel> {
        match self.place(name) {
            Some(place) => self.entry(place),
            None => None,
        }
    }

    /// A file holds a text from now on.
    pub open spec fn stored(self, place: Seq<char>, text: Seq<char>) -> MemoryModel {
        MemoryModel {
            entries: put(
                self.entries,
                at_place(place),
                with_text(text),
                (place, EntryModel::Text(text)),
            ),
            ..self
        }
    }

    /// Where the index lies.
    pub open spec fn index_place(self) -> Seq<char> {
        below(self.home(), INDEX_FILE@)
    }

    /// The directory with an index, which is empty where there was none.
    pub open spec fn ready(self) -> MemoryModel {
        if self.entry(self.index_place()) is None {
            self.stored(self.index_place(), EMPTY_INDEX@)
        } else {
            self
        }
    }

    /// The index; where it cannot be read, an empty one.
    pub open spec fn index(self) -> Seq<char> {
        match self.entry(self.index_place()) {
            Some(EntryModel::Text(text)) => text,
            _ => EMPTY_INDEX@,
        }
    }

    pub open spec fn shards(self) -> Seq<MemoryShardModel> {
        shards_in(self.home(), self.entries, self.entries.len())
    }

    /// What the shards say of themselves.
    pub open spec fn listed(self) -> Seq<MemoryMetaModel> {
        self.shards().map_values(meta_of())
    }

    /// The directory with an index of the shards that it holds, unless a
    /// directory lies where the index does.
    pub open spec fn indexed(self) -> MemoryModel {
        let ready = self.ready();
        if ready.is_dir(ready.index_place()) {
            ready
        } else {
            ready.stored(ready.index_place(), index_of(ready.listed(), ready.listed().len()))
        }
    }

    pub open spec fn read(self, name: Seq<char>) -> Result<MemoryShardModel, MemoryErrorModel> {
        match self.ready().found(name) {
            Some(EntryModel::Text(text)) => shard_in(self.ready().place(name)->0, text),
            Some(_) => Err(MemoryErrorModel::Unreadable(name)),
            None => Err(MemoryErrorModel::NotFound(name)),
        }
    }

    /// What is written at a time, or why nothing is.
    pub open spec fn text_written(self, options: WriteOptionsModel, now: Seq<char>) -> Result<
        Seq<char>,
        MemoryErrorModel,
    > {
        let name = file_of(options.name);
        match options.mode {
            WriteMode::Create => if self.ready().found(name) is Some {
                Err(MemoryErrorModel::AlreadyExists(name))
            } else if self.ready().place(name) is None {
                Err(MemoryErrorModel::Unwritable(name))
            } else {
                Ok(
                    shard_text(
                        options.memory_type,
                        options.title,
                        options.description,
                        now,
                        now,
                        options.body,
                    ),
                )
            },
            WriteMode::Update => match self.read(name) {
                Err(error) => Err(error),
                Ok(shard) => Ok(
                    shard_text(
                        options.memory_type,
                        options.title,
                        options.description,
                        shard.meta.created_at,
                        now,
                        options.body,
                    ),
                ),
            },
            WriteMode::Append => match self.read(name) {
                Err(error) => Err(error),
                Ok(shard) => Ok(
                    shard_text(
                        shard.meta.memory_type,
                        options.title,
                        options.description,
                        shard.meta.created_at,
                        now,
                        shard.body + "\n"@ + options.body,
                    ),
                ),
            },
        }
    }

    /// The directory after something was written; what cannot be written leaves
    /// it with an index.
    pub open spec fn written(self, options: WriteOptionsModel, now: Seq<char>) -> MemoryModel {
        match self.text_written(options, now) {
            Ok(text) => self.ready().stored(
                self.ready().place(file_of(options.name))->0,
                text,
            ).indexed(),
            Err(_) => self.ready(),
        }
    }

    /// What is answered to a change that was made, when the index is made anew.
    pub open spec fn index_answer(self) -> Result<(), MemoryErrorModel> {
        if self.ready().is_dir(self.index_place()) {
            Err(MemoryErrorModel::Unwritable(INDEX_FILE@))
        } else {
            Ok(())
        }
    }

    pub open spec fn write_answer(self, options: WriteOptionsModel, now: Seq<char>) -> Result<
        WriteResultModel,
        MemoryErrorModel,
    > {
        match self.text_written(options, now) {
            Ok(_) => match self.index_answer() {
                Ok(_) => Ok(WriteResultModel { filename: file_of(options.name), warning: None }),
                Err(error) => Err(error),
            },
            Err(error) => Err(error),
        }
    }

    pub open spec fn without(self, place: Seq<char>) -> MemoryModel {
        MemoryModel { entries: self.entries.filter(not(at_place(place))), ..self }
    }

    /// The directory after a file was removed.
    pub open spec fn deleted(self, name: Seq<char>) -> MemoryModel {
        match self.ready().found(name) {
            None => self.ready(),
            Some(EntryModel::Directory) => self.ready(),
            Some(_) => self.ready().without(self.ready().place(name)->0).indexed(),
        }
    }

    pub open spec fn delete_answer(self, name: Seq<char>) -> Result<(), MemoryErrorModel> {
        match self.ready().found(name) {
            None => Err(MemoryErrorModel::NotFound(name)),
            Some(EntryModel::Directory) => Err(MemoryErrorModel::Unwritable(name)),
            Some(_) => self.index_answer(),
        }
    }

    pub open spec fn searched(
        self,
        query: Seq<char>,
        wanted: Option<MemoryType>,
        limit: nat,
    ) -> Seq<MemoryHitModel> {
        let shards = self.ready().shards();
        limited(order_by(hits(shards, query, wanted, shards.len()), fits_better()), limit)
    }
}

pub open spec fn memory_answer<T: DeepView>(
    result: Result<T, MemoryError>,
    expected: Result<T::V, MemoryErrorModel>,
) -> bool {
    match expected {
        Ok(value) => result matches Ok(got) && got.deep_view() == value,
        Err(error) => result matches Err(got) && got@ == error,
    }
}

/// What the assistant remembers: a directory with one file for each shard, and
/// an index.
pub struct MemoryFileStore {
    base_dir: String,
    entries: Vec<(String, Entry)>,
}

impl View for MemoryFileStore {
    type V = MemoryModel;

    closed spec fn view(&self) -> MemoryModel {
        MemoryModel { base_dir: self.base_dir@, entries: self.entries.deep_view() }
    }
}

impl MemoryFileStore {
    /// A directory with nothing in it.
    pub fn new(base_dir: String) -> (store: MemoryFileStore)
        ensures
            store@ == (MemoryModel { base_dir: base_dir@, entries: Seq::empty() }),
    {
        let store = MemoryFileStore { base_dir, entries: Vec::new() };
        assert(store@.entries =~= Seq::<(Seq<char>, EntryModel)>::empty());
        store
    }

    /// A directory with something in it, each under its path in plain form.
    pub fn with_entries(base_dir: String, entries: Vec<(String, Entry)>) -> (store: MemoryFileStore)
        ensures
            store@ == (MemoryModel { base_dir: base_dir@, entries: entries.deep_view() }),
    {
        MemoryFileStore { base_dir, entries }
    }

    /// What lies in the directory, each under its path in plain form.
    pub fn entries(&self) -> (entries: &Vec<(String, Entry)>)
        ensures
            entries.deep_view() == self@.entries,
    {
        &self.entries
    }

    pub fn base_dir(&self) -> (dir: &str)
        ensures
            dir@ == self@.base_dir,
    {
        self.base_dir.as_str()
    }

    /// The same directory once more.
    pub fn clone(&self) -> (copy: MemoryFileStore)
        ensures
            copy@ == self@,
    {
        MemoryFileStore { base_dir: self.base_dir.clone(), entries: self.entries.dup() }
    }

    /// The directory's own path in plain form.
    pub fn home(&self) -> (home: String)
        ensures
            home@ == self@.home(),
    {
        plain_path(self.base_dir.as_str())
    }

    fn entry_at(&self, place: &str) -> (entry: Option<Entry>)
        ensures
            entry.deep_view() == self@.entry(place@),
    {
        let home = self.home();
        if same(place, home.as_str()) || is_above(place, home.as_str()) {
            return Some(Entry::Directory);
        }
        let here = |entry: &(String, Entry)| -> (b: bool)
            ensures
                b == at_place(place@)(entry.deep_view()),
            { same(entry.0.as_str(), place) };
        match first_row(&self.entries, &here, Ghost(at_place(place@))) {
            Some(entry) => Some(entry.1),
            None => None,
        }
    }

    fn is_dir(&self, place: &str) -> (yes: bool)
        ensures
            yes == self@.is_dir(place@),
    {
        matches!(self.entry_at(place), Some(Entry::Directory))
    }

    /// The path in plain form that a name leads to from the directory, or from
    /// the root.
    pub fn place_of(&self, name: &str) -> (place: Option<String>)
        ensures
            place.deep_view() == self@.place(name@),
    {
        if contains(name, "\0") {
            return None;
        }
        let parts = split_at_char(name, '/');
        let mut here = if is_rooted(name) {
            "/".to_owned()
        } else {
            self.home()
        };
        let ghost start = here@;
        let ghost all = parts.deep_view();
        let mut i: usize = 0;
        while i < parts.len()
            invariant
                i <= parts.len(),
                all == parts.deep_view(),
                all == pieces(name@, is_char('/')),
                !occurs(name@, "\0"@),
                start == (if rooted(name@) {
                    "/"@
                } else {
                    self@.home()
                }),
                self@.led(start, all, i as nat) == Some(here@),
            decreases parts.len() - i,
        {
            assert(all[i as int] == parts[i as int]@);
            if !self.is_dir(here.as_str()) {
                proof {
                    lemma_led_nowhere(self@, start, all, (i + 1) as nat, all.len());
                }
                return None;
            }
            here = step(here.as_str(), parts[i].as_str());
            i += 1;
        }
        Some(here)
    }

    fn store(&mut self, place: &str, text: String)
        ensures
            final(self)@ == old(self)@.stored(place@, text@),
    {
        let here = |entry: &(String, Entry)| -> (b: bool)
            ensures
                b == at_place(place@)(entry.deep_view()),
            { same(entry.0.as_str(), place) };
        let change = |entry: &(String, Entry)| -> (changed: (String, Entry))
            ensures
                changed.deep_view() == with_text(text@)(entry.deep_view()),
            { (entry.0.clone(), Entry::Text(text.clone())) };
        put_row(
            &mut self.entries,
            &here,
            &change,
            (place.to_owned(), Entry::Text(text.clone())),
            Ghost(at_place(place@)),
            Ghost(with_text(text@)),
        );
    }

    fn index_place(&self) -> (place: String)
        ensures
            place@ == self@.index_place(),
    {
        join_path(self.home().as_str(), INDEX_FILE)
    }

    /// Makes an index where there is none.
    pub fn init(&mut self)
        ensures
            final(self)@ == old(self)@.ready(),
    {
        let place = self.index_place();
        if self.entry_at(place.as_str()).is_none() {
            self.store(place.as_str(), EMPTY_INDEX.to_owned());
        }
    }

    fn shards(&self) -> (shards: Vec<MemoryShard>)
        ensures
            shards.deep_view() == self@.shards(),
    {
        let home = self.home();
        let mut shards: Vec<MemoryShard> = Vec::new();
        let mut i: usize = 0;
        let ghost all = self.entries.deep_view();
        assert(shards.deep_view() =~= Seq::<MemoryShardModel>::empty());
        while i < self.entries.len()
            invariant
                i <= self.entries.len(),
                all == self.entries.deep_view(),
                shards.deep_view() == shards_in(home@, all, i as nat),
            decreases self.entries.len() - i,
        {
            let ghost before = shards.deep_view();
            let entry = &self.entries[i];
            assert(all[i as int] == entry.deep_view());
            if let Entry::Text(text) = &entry.1 {
                let name = last_part_of(entry.0.as_str());
                let file = name.as_str();
                if ends_with(file, ".md") && file.unicode_len() > 3 && !same(file, INDEX_FILE)
                    && same(join_path(home.as_str(), file).as_str(), entry.0.as_str())
                {
                    if let Ok((meta, body)) = parse_shard(text.as_str()) {
                        let shard = MemoryShard {
                            meta: MemoryMeta { filename: name, ..meta },
                            body,
                        };
                        shards.push(shard);
                        assert(shards.deep_view() =~= before.push(shard.deep_view()));
                    }
                }
            }
            i += 1;
        }
        shards
    }

    /// What the shards say of themselves.
    pub fn list(&mut self) -> (metas: Vec<MemoryMeta>)
        ensures
            final(self)@ == old(self)@.ready(),
            metas.deep_view() == old(self)@.ready().listed(),
    {
        self.init();
        let shards = self.shards();
        let meta = |shard: &MemoryShard| -> (m: MemoryMeta)
            ensures
                m.deep_view() == meta_of()(shard.deep_view()),
            { shard.meta.dup() };
        map_rows(&shards, &meta, Ghost(meta_of()))
    }

    /// Reads a shard.
    pub fn read(&mut self, filename: &str) -> (result: Result<MemoryShard, MemoryError>)
        ensures
            final(self)@ == old(self)@.ready(),
            memory_answer(result, old(self)@.read(filename@)),
    {
        self.init();
        match self.place_of(filename) {
            None => Err(MemoryError::NotFound(filename.to_owned())),
            Some(place) => match self.entry_at(place.as_str()) {
                None => Err(MemoryError::NotFound(filename.to_owned())),
                Some(Entry::Text(text)) => match parse_shard(text.as_str()) {
                    Err(error) => Err(error),
                    Ok((meta, body)) => Ok(
                        MemoryShard {
                            meta: MemoryMeta { filename: last_part_of(place.as_str()), ..meta },
                            body,
                        },
                    ),
                },
                Some(_) => Err(MemoryError::Unreadable(filename.to_owned())),
            },
        }
    }

    /// The index.
    pub fn index(&mut self) -> (index: String)
        ensures
            final(self)@ == old(self)@.ready(),
            index@ == old(self)@.ready().index(),
    {
        self.init();
        match self.entry_at(self.index_place().as_str()) {
            Some(Entry::Text(index)) => index,
            _ => EMPTY_INDEX.to_owned(),
        }
    }

    fn rebuild_index(&mut self) -> (result: Result<(), MemoryError>)
        ensures
            final(self)@ == old(self)@.indexed(),
            memory_answer(result, old(self)@.index_answer()),
    {
        let metas = self.list();
        let place = self.index_place();
        if self.is_dir(place.as_str()) {
            return Err(MemoryError::Unwritable(INDEX_FILE.to_owned()));
        }
        let mut index = "# Memory Index\n\n".to_owned();
        let mut i: usize = 0;
        while i < metas.len()
            invariant
                i <= metas.len(),
                index@ == index_of(metas.deep_view(), i as nat),
            decreases metas.len() - i,
        {
            let meta = &metas[i];
            assert(metas.deep_view()[i as int] == meta.deep_view());
            let line = "- [".to_owned().concat(meta.title.as_str()).concat("] (").concat(
                meta.memory_type.as_str(),
            ).concat(") - ").concat(meta.description.as_str()).concat("\n");
            index = index.concat(line.as_str());
            i += 1;
        }
        self.store(place.as_str(), index);
        Ok(())
    }

    /// Writes a shard at a time.
    pub fn write_at(&mut self, options: &WriteOptions, now: &str) -> (result: Result<
        WriteResult,
        MemoryError,
    >)
        ensures
            final(self)@ == old(self)@.written(options.deep_view(), now@),
            memory_answer(result, old(self)@.write_answer(options.deep_view(), now@)),
    {
        let ghost start = self@;
        proof {
            lemma_ready_twice(start);
        }
        self.init();
        let filename = if ends_with(options.name.as_str(), ".md") {
            options.name.clone()
        } else {
            options.name.clone().concat(".md")
        };
        let place = self.place_of(filename.as_str());
        let text = match options.mode {
            WriteMode::Create => {
                match &place {
                    None => return Err(MemoryError::Unwritable(filename)),
                    Some(place) => if self.entry_at(place.as_str()).is_some() {
                        return Err(MemoryError::AlreadyExists(filename));
                    },
                }
                write_text(
                    options.memory_type,
                    options.title.as_str(),
                    options.description.as_str(),
                    now,
                    now,
                    options.body.as_str(),
                )
            },
            WriteMode::Update => {
                match self.read(filename.as_str()) {
                    Err(error) => return Err(error),
                    Ok(shard) => write_text(
                        options.memory_type,
                        options.title.as_str(),
                        options.description.as_str(),
                        shard.meta.created_at.as_str(),
                        now,
                        options.body.as_str(),
                    ),
                }
            },
            WriteMode::Append => {
                match self.read(filename.as_str()) {
                    Err(error) => return Err(error),
                    Ok(shard) => {
                        let body = shard.body.clone().concat("\n").concat(options.body.as_str());
                        write_text(
                            shard.meta.memory_type,
                            options.title.as_str(),
                            options.description.as_str(),
                            shard.meta.created_at.as_str(),
                            now,
                            body.as_str(),
                        )
                    },
                }
            },
        };
        match place {
            None => Err(MemoryError::NotFound(filename)),
            Some(place) => {
                proof {
                    lemma_index_answer(start.ready(), start.ready().stored(place@, text@), place@);
                }
                self.store(place.as_str(), text);
                match self.rebuild_index() {
                    Ok(_) => Ok(WriteResult { filename, warning: None }),
                    Err(error) => Err(error),
                }
            },
        }
    }

    /// Writes a shard.
    pub fn write(&mut self, options: WriteOptions) -> (result: Result<WriteResult, MemoryError>)
        ensures
            exists|now: Seq<char>|
                {
                    &&& time_text(now)
                    &&& final(self)@ == #[trigger] old(self)@.written(options.deep_view(), now)
                    &&& memory_answer(
                        result,
                        old(self)@.write_answer(options.deep_view(), now),
                    )
                },
    {
        let now = now_text();
        self.write_at(&options, now.as_str())
    }

    /// Removes a shard.
    pub fn delete(&mut self, filename: &str) -> (result: Result<(), MemoryError>)
        ensures
            final(self)@ == old(self)@.deleted(filename@),
            memory_answer(result, old(self)@.delete_answer(filename@)),
    {
        self.init();
        let place = match self.place_of(filename) {
            None => return Err(MemoryError::NotFound(filename.to_owned())),
            Some(place) => place,
        };
        match self.entry_at(place.as_str()) {
            None => return Err(MemoryError::NotFound(filename.to_owned())),
            Some(Entry::Directory) => return Err(MemoryError::Unwritable(filename.to_owned())),
            Some(_) => {},
        }
        let here = |entry: &(String, Entry)| -> (b: bool)
            ensures
                b == at_place(place@)(entry.deep_view()),
            { same(entry.0.as_str(), place.as_str()) };
        proof {
            lemma_ready_twice(old(self)@);
            lemma_index_answer(self@, self@.without(place@), place@);
        }
        self.entries = reject(&self.entries, &here, Ghost(at_place(place@)));
        self.rebuild_index()
    }

    /// Finds the shards that fit a query, those first that fit best.
    pub fn search(&mut self, query: &str, memory_type: Option<MemoryType>, limit_to: usize) -> (
    found: Vec<MemoryHit>)
        ensures
            final(self)@ == old(self)@.ready(),
            found.deep_view() == old(self)@.searched(query@, memory_type, limit_to as nat),
    {
        self.init();
        let shards = self.shards();
        let query_lower = to_lowercase(query);
        let mut found: Vec<MemoryHit> = Vec::new();
        let mut i: usize = 0;
        let ghost all = shards.deep_view();
        assert(found.deep_view() =~= Seq::<MemoryHitModel>::empty());
        while i < shards.len()
            invariant
                i <= shards.len(),
                all == shards.deep_view(),
                query_lower@ == lowercased(query@),
                found.deep_view() == hits(all, query@, memory_type, i as nat),
            decreases shards.len() - i,
        {
            let ghost before = found.deep_view();
            let shard = &shards[i];
            assert(all[i as int] == shard.deep_view());
            let wanted = match memory_type {
                Some(memory_type) => memory_type == shard.meta.memory_type,
                None => true,
            };
            if wanted {
                let body_lower = to_lowercase(shard.body.as_str());
                let points: u32 = score_of(
                    query_lower.as_str(),
                    to_lowercase(shard.meta.title.as_str()).as_str(),
                    to_lowercase(shard.meta.description.as_str()).as_str(),
                    body_lower.as_str(),
                );
                if points > 0 {
                    let hit = MemoryHit {
                        filename: shard.meta.filename.clone(),
                        memory_type: shard.meta.memory_type,
                        title: shard.meta.title.clone(),
                        snippet: snippet_of(
                            query,
                            shard.body.as_str(),
                            query_lower.as_str(),
                            body_lower.as_str(),
                        ),
                        score: points,
                    };
                    found.push(hit);
                    assert(found.deep_view() =~= before.push(hit.deep_view()));
                }
            }
            i += 1;
        }
        let better = |a: &MemoryHit, b: &MemoryHit| -> (less: bool)
            ensures
                less == fits_better()(a.deep_view(), b.deep_view()),
            { a.score > b.score };
        let ordered = sorted(&found, &better, Ghost(fits_better()));
        limit(&ordered, limit_to)
    }
}

/// A way that leads nowhere does not lead anywhere further on.
proof fn lemma_led_nowhere(
    memory: MemoryModel,
    start: Seq<char>,
    parts: Seq<Seq<char>>,
    m: nat,
    n: nat,
)
    requires
        m <= n,
        memory.led(start, parts, m) is None,
    ensures
        memory.led(start, parts, n) is None,
    decreases n,
{
    if m < n {
        lemma_led_nowhere(memory, start, parts, m, (n - 1) as nat);
    }
}

/// What lies elsewhere stays where a file is written or removed, and no directory
/// comes or goes.
pub proof fn lemma_elsewhere(
    memory: MemoryModel,
    place: Seq<char>,
    text: Seq<char>,
    other: Seq<char>,
)
    requires
        !memory.is_dir(place),
    ensures
        memory.stored(place, text).entry(place) == Some(EntryModel::Text(text)),
        memory.without(place).entry(place) is None,
        other != place ==> {
            &&& memory.stored(place, text).entry(other) == memory.entry(other)
            &&& memory.without(place).entry(other) == memory.entry(other)
        },
{
    let p = at_place(place);
    let entry = (place, EntryModel::Text(text));
    crate::facts::lemma_put_first(memory.entries, p, with_text(text), entry);
    crate::facts::lemma_rejected(memory.entries, p);
    crate::facts::lemma_first(memory.entries.filter(not(p)), p);
    if other != place {
        crate::facts::lemma_put_other(memory.entries, p, with_text(text), entry, at_place(other));
        crate::facts::lemma_first_kept(memory.entries, not(p), at_place(other));
    }
}

/// Whether the index can be made anew does not change where a file is written or
/// removed.
proof fn lemma_index_answer(before: MemoryModel, after: MemoryModel, place: Seq<char>)
    requires
        before.ready() == before,
        before.entry(before.index_place()) is Some,
        !before.is_dir(place),
        after == before.without(place) || exists|text: Seq<char>|
            after == #[trigger] before.stored(place, text),
    ensures
        after.index_answer() == before.index_answer(),
{
    let index = before.index_place();
    let text = choose|text: Seq<char>| after == #[trigger] before.stored(place, text);
    lemma_elsewhere(before, place, text, index);
    lemma_ready_twice(after);
    if after.entry(index) is None {
        lemma_elsewhere(after, index, EMPTY_INDEX@, index);
    }
}

/// A directory with an index is as ready as it can be.
pub proof fn lemma_ready_twice(memory: MemoryModel)
    ensures
        memory.ready().ready() == memory.ready(),
        memory.ready().entry(memory.index_place()) is Some,
{
    let place = memory.index_place();
    if memory.entry(place) is None {
        let entry = (place, EntryModel::Text(EMPTY_INDEX@));
        crate::facts::lemma_first(memory.entries, at_place(place));
        assert(!any(memory.entries, at_place(place)));
        crate::facts::lemma_first_push(memory.entries, entry, at_place(place));
    }
}

} // verus!

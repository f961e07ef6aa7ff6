//! What holds of what the assistant remembers.

use crate::paths::{below, last_part, rooted, stepped};
use crate::table::{any, lemma_order_by_in_order, lemma_order_holds, order_by};
use crate::text::{drop_leading, drop_trailing, is_white_fn, trimmed, white};
use crate::tools::memory::{
    at_place, file_of, fits_better, hits, index_of, is_shard_path, lemma_elsewhere,
    lemma_ready_twice, lowercased, no_meta, parsed, said_in, shard_in, shard_text, shards_in,
    with_line, EntryModel, MemoryErrorModel, MemoryHitModel, MemoryMetaModel, MemoryModel,
    MemoryShardModel, MemoryType, WriteOptionsModel, EMPTY_INDEX, INDEX_FILE,
};
use crate::words::{
    cut, first_at, is_char, lemma_cut_at, lemma_first_at, occurs, one_line, pieces, stands_at,
};
use vstd::prelude::*;

verus! {

/// White space at the end of a text that ends with something else before it.
proof fn lemma_trailing_behind(a: Seq<char>, b: Seq<char>)
    requires
        a.len() > 0,
        !white(a.last()),
    ensures
        drop_trailing(a + b, is_white_fn()) == a + drop_trailing(b, is_white_fn()),
    decreases b.len(),
{
    let p = is_white_fn();
    if b.len() == 0 {
        assert(a + b =~= a);
    } else {
        assert((a + b).last() == b.last());
        if p(b.last()) {
            assert((a + b).drop_last() =~= a + b.drop_last());
            lemma_trailing_behind(a, b.drop_last());
        }
    }
}

proof fn lemma_trailing_twice(s: Seq<char>)
    ensures
        drop_trailing(drop_trailing(s, is_white_fn()), is_white_fn()) == drop_trailing(
            s,
            is_white_fn(),
        ),
    decreases s.len(),
{
    if s.len() > 0 && is_white_fn()(s.last()) {
        lemma_trailing_twice(s.drop_last());
    }
}

/// The two ends of a text may be trimmed in either order.
proof fn lemma_trim_either_way(s: Seq<char>)
    ensures
        drop_leading(drop_trailing(s, is_white_fn()), is_white_fn()) == trimmed(s),
    decreases s.len(),
{
    let p = is_white_fn();
    if s.len() > 0 {
        if p(s[0]) {
            let rest = s.drop_first();
            lemma_trim_either_way(rest);
            lemma_trailing_first(s);
        } else {
            lemma_leading_stays(s);
        }
    }
}

/// A text that begins with white space, trimmed at its end and then at its start.
proof fn lemma_trailing_first(s: Seq<char>)
    requires
        s.len() > 0,
        white(s[0]),
    ensures
        drop_leading(drop_trailing(s, is_white_fn()), is_white_fn()) == drop_leading(
            drop_trailing(s.drop_first(), is_white_fn()),
            is_white_fn(),
        ),
    decreases s.len(),
{
    let p = is_white_fn();
    if p(s.last()) {
        if s.len() == 1 {
            assert(s.drop_last() =~= Seq::<char>::empty());
            assert(s.drop_first() =~= Seq::<char>::empty());
        } else {
            lemma_trailing_first(s.drop_last());
            assert(s.drop_last().drop_first() =~= s.drop_first().drop_last());
            assert(s.drop_first().last() == s.last());
        }
    } else {
        assert(s.len() > 1);
        assert(s.drop_first().last() == s.last());
    }
}

/// A text that does not begin with white space does not do so either when its
/// end is trimmed.
proof fn lemma_leading_stays(s: Seq<char>)
    requires
        s.len() > 0,
        !white(s[0]),
    ensures
        drop_leading(drop_trailing(s, is_white_fn()), is_white_fn()) == drop_trailing(
            s,
            is_white_fn(),
        ),
        drop_leading(s, is_white_fn()) == s,
    decreases s.len(),
{
    if is_white_fn()(s.last()) {
        assert(s.len() > 1);
        lemma_leading_stays(s.drop_last());
    }
}

/// A text trimmed at its end and then at both.
proof fn lemma_trimmed_of_trailing(s: Seq<char>)
    ensures
        trimmed(drop_trailing(s, is_white_fn())) == trimmed(s),
{
    lemma_trim_either_way(s);
    lemma_trim_either_way(drop_trailing(s, is_white_fn()));
    lemma_trailing_twice(s);
}

/// White space before a text is trimmed.
proof fn lemma_space_before(c: char, s: Seq<char>)
    requires
        white(c),
    ensures
        trimmed(seq![c] + s) == trimmed(s),
{
    let t = seq![c] + s;
    assert(t[0] == c);
    assert(t.drop_first() =~= s);
}

/// White space behind a text is trimmed.
proof fn lemma_space_behind(s: Seq<char>, c: char)
    requires
        white(c),
    ensures
        trimmed(s + seq![c]) == trimmed(s),
{
    let t = s + seq![c];
    assert(t.last() == c);
    assert(t.drop_last() =~= s);
    lemma_trim_either_way(t);
    lemma_trim_either_way(s);
}

/// A text that is not white at its two ends is trimmed.
pub proof fn lemma_trimmed_already(s: Seq<char>)
    requires
        s.len() > 0,
        !white(s[0]),
        !white(s.last()),
    ensures
        trimmed(s) == s,
{
    lemma_leading_stays(s);
}

/// A line behind others is a piece of its own.
proof fn lemma_pieces_line(a: Seq<char>, line: Seq<char>)
    requires
        !line.contains('\n'),
    ensures
        pieces(a + seq!['\n'] + line, is_char('\n')) == pieces(a, is_char('\n')).push(line),
    decreases line.len(),
{
    let all = a + seq!['\n'] + line;
    let p = is_char('\n');
    if line.len() == 0 {
        assert(all.last() == '\n');
        assert(all.drop_last() =~= a);
        assert(line =~= Seq::<char>::empty());
    } else {
        let shorter = line.drop_last();
        assert(!shorter.contains('\n')) by {
            if shorter.contains('\n') {
                let i = shorter.index_of('\n');
                assert(line[i] == '\n');
            }
        }
        lemma_pieces_line(a, shorter);
        assert(all.drop_last() =~= a + seq!['\n'] + shorter);
        assert(all.last() == line.last());
        assert(line[line.len() - 1] != '\n') by {
            if line[line.len() - 1] == '\n' {
                assert(line.contains('\n'));
            }
        }
        let before = pieces(a, p).push(shorter);
        assert(before.drop_last() =~= pieces(a, p));
        assert(shorter.push(line.last()) =~= line);
    }
}

/// No fence goes over the end of a line.
proof fn lemma_no_fence(a: Seq<char>, b: Seq<char>)
    requires
        !(occurs(a, "---"@)),
        !(occurs(b, "---"@)),
    ensures
        !(occurs(a + seq!['\n'] + b, "---"@)),
{
    reveal_strlit("---");
    let s = a + seq!['\n'] + b;
    if occurs(s, "---"@) {
        let i = choose|i: int| #[trigger] stands_at(s, i, "---"@);
        let n = a.len() as int;
        assert(s.subrange(i, i + 3)[0] == '-');
        assert(s.subrange(i, i + 3)[1] == '-');
        assert(s.subrange(i, i + 3)[2] == '-');
        assert(s[i] == '-' && s[i + 1] == '-' && s[i + 2] == '-');
        assert(s[n] == '\n');
        if i + 2 < n {
            assert(a.subrange(i, i + 3) =~= s.subrange(i, i + 3));
            assert(stands_at(a, i, "---"@));
        } else {
            assert(i > n);
            let k = i - n - 1;
            assert(b.subrange(k, k + 3) =~= s.subrange(i, i + 3));
            assert(stands_at(b, k, "---"@));
        }
    }
}

/// No fence goes over a word that has no dash.
proof fn lemma_no_fence_behind(word: Seq<char>, s: Seq<char>)
    requires
        !word.contains('-'),
        !(occurs(s, "---"@)),
    ensures
        !(occurs(word + s, "---"@)),
{
    reveal_strlit("---");
    let t = word + s;
    if occurs(t, "---"@) {
        let i = choose|i: int| #[trigger] stands_at(t, i, "---"@);
        assert(t.subrange(i, i + 3)[0] == '-');
        assert(t[i] == '-');
        let n = word.len() as int;
        if i < n {
            assert(word[i] == '-');
            assert(word.contains('-'));
        } else {
            assert(s.subrange(i - n, i - n + 3) =~= t.subrange(i, i + 3));
            assert(stands_at(s, i - n, "---"@));
        }
    }
}

/// A line at the head of a shard: a key, a colon and a space, and what is said.
pub open spec fn head_line(key: Seq<char>, value: Seq<char>) -> Seq<char> {
    key + seq![':', ' '] + value
}

/// Whether a text may be a key: it is trimmed, and has no colon, dash or end of
/// line.
pub open spec fn is_key(key: Seq<char>) -> bool {
    &&& key.len() > 0
    &&& !white(key[0])
    &&& !white(key.last())
    &&& !key.contains(':')
    &&& !key.contains('-')
    &&& !key.contains('\n')
}

/// What a line at the head of a shard says.
proof fn lemma_head_line(meta: MemoryMetaModel, key: Seq<char>, value: Seq<char>)
    requires
        is_key(key),
    ensures
        with_line(meta, head_line(key, value)) == crate::tools::memory::with_field(
            meta,
            key,
            trimmed(value),
        ),
{
    let line = head_line(key, value);
    let left = key.push(':');
    let right = seq![' '] + value;
    assert(line =~= left + right);
    assert(line[0] == key[0]);
    lemma_leading_stays(line);
    assert(left.last() == ':');
    lemma_trailing_behind(left, right);
    let said = drop_trailing(right, is_white_fn());
    let shown = left + said;
    assert(trimmed(line) == shown);
    let n = key.len() as int;
    assert forall|j: int| 0 <= j < n implies #[trigger] shown[j] != ':' by {
        assert(shown[j] == key[j]);
        if key[j] == ':' {
            assert(key.contains(':'));
        }
    }
    assert(shown[n] == ':');
    lemma_cut_at(shown, ':', n);
    assert(shown.take(n) =~= key);
    assert(shown.skip(n + 1) =~= said);
    lemma_trimmed_already(key);
    lemma_trimmed_of_trailing(right);
    lemma_space_before(' ', value);
}

/// A line is one where what it says is.
proof fn lemma_head_line_plain(key: Seq<char>, value: Seq<char>)
    requires
        is_key(key),
        one_line(value),
    ensures
        !head_line(key, value).contains('\n'),
        !(occurs(head_line(key, value), "---"@)),
{
    let line = head_line(key, value);
    let word = key + seq![':', ' '];
    if line.contains('\n') {
        let i = line.index_of('\n');
        if i < key.len() {
            assert(key[i] == '\n');
            assert(key.contains('\n'));
        } else if i >= key.len() + 2 {
            assert(value[i - key.len() - 2] == '\n');
            assert(value.contains('\n'));
        }
    }
    if word.contains('-') {
        let i = word.index_of('-');
        if i < key.len() {
            assert(key[i] == '-');
            assert(key.contains('-'));
        }
    }
    lemma_no_fence_behind(word, value);
}

proof fn lemma_keys()
    ensures
        is_key("type"@),
        is_key("title"@),
        is_key("description"@),
        is_key("created_at"@),
        is_key("updated_at"@),
        "type"@ != "title"@,
        "type"@ != "description"@,
        "type"@ != "created_at"@,
        "type"@ != "updated_at"@,
        "title"@ != "description"@,
        "title"@ != "created_at"@,
        "title"@ != "updated_at"@,
        "description"@ != "created_at"@,
        "description"@ != "updated_at"@,
        "created_at"@ != "updated_at"@,
{
    reveal_strlit("type");
    reveal_strlit("title");
    reveal_strlit("description");
    reveal_strlit("created_at");
    reveal_strlit("updated_at");
    assert("created_at"@[0] != "updated_at"@[0]);
}

/// The lines at the head of a shard.
pub open spec fn head_lines(
    memory_type: MemoryType,
    title: Seq<char>,
    description: Seq<char>,
    created_at: Seq<char>,
    updated_at: Seq<char>,
) -> Seq<Seq<char>> {
    seq![
        Seq::empty(),
        head_line("type"@, memory_type.word()),
        head_line("title"@, title),
        head_line("description"@, description),
        head_line("created_at"@, created_at),
        head_line("updated_at"@, updated_at),
        Seq::empty(),
    ]
}

/// What the lines at the head of a shard say.
proof fn lemma_said(
    memory_type: MemoryType,
    title: Seq<char>,
    description: Seq<char>,
    created_at: Seq<char>,
    updated_at: Seq<char>,
)
    ensures
        said_in(head_lines(memory_type, title, description, created_at, updated_at)) == (
        MemoryMetaModel {
            filename: Seq::empty(),
            memory_type: match MemoryType::of_word(lowercased(trimmed(memory_type.word()))) {
                Some(found) => found,
                None => MemoryType::User,
            },
            title: trimmed(title),
            description: trimmed(description),
            created_at: trimmed(created_at),
            updated_at: trimmed(updated_at),
        }),
{
    lemma_keys();
    let word = memory_type.word();
    let l1 = head_line("type"@, word);
    let l2 = head_line("title"@, title);
    let l3 = head_line("description"@, description);
    let l4 = head_line("created_at"@, created_at);
    let l5 = head_line("updated_at"@, updated_at);
    let none = Seq::<char>::empty();
    let s0 = seq![none];
    let s1 = s0.push(l1);
    let s2 = s1.push(l2);
    let s3 = s2.push(l3);
    let s4 = s3.push(l4);
    let s5 = s4.push(l5);
    let s6 = s5.push(none);
    assert(s6 =~= head_lines(memory_type, title, description, created_at, updated_at));
    assert(trimmed(none) =~= none);
    assert(cut(none, ':') is None);
    assert(s0.drop_last() =~= Seq::<Seq<char>>::empty());
    assert(said_in(s0.drop_last()) == no_meta());
    assert(said_in(s0) == no_meta());
    assert(s1.drop_last() =~= s0);
    assert(s2.drop_last() =~= s1);
    assert(s3.drop_last() =~= s2);
    assert(s4.drop_last() =~= s3);
    assert(s5.drop_last() =~= s4);
    assert(s6.drop_last() =~= s5);
    lemma_head_line(said_in(s0), "type"@, word);
    lemma_head_line(said_in(s1), "title"@, title);
    lemma_head_line(said_in(s2), "description"@, description);
    lemma_head_line(said_in(s3), "created_at"@, created_at);
    lemma_head_line(said_in(s4), "updated_at"@, updated_at);
    assert(said_in(s1) == with_line(said_in(s0), l1));
    assert(said_in(s2) == with_line(said_in(s1), l2));
    assert(said_in(s3) == with_line(said_in(s2), l3));
    assert(said_in(s4) == with_line(said_in(s3), l4));
    assert(said_in(s5) == with_line(said_in(s4), l5));
    assert(said_in(s6) == with_line(said_in(s5), none));
}

/// What stands between the fences of a shard.
pub open spec fn head_of(
    memory_type: MemoryType,
    title: Seq<char>,
    description: Seq<char>,
    created_at: Seq<char>,
    updated_at: Seq<char>,
) -> Seq<char> {
    let end = seq!['\n'];
    let none = Seq::<char>::empty();
    none + end + head_line("type"@, memory_type.word()) + end + head_line("title"@, title) + end
        + head_line("description"@, description) + end + head_line("created_at"@, created_at) + end
        + head_line("updated_at"@, updated_at) + end + none
}

proof fn lemma_word_plain(memory_type: MemoryType)
    ensures
        one_line(memory_type.word()),
        trimmed(memory_type.word()) == memory_type.word(),
        MemoryType::of_word(memory_type.word()) == Some(memory_type),
{
    reveal_strlit("user");
    reveal_strlit("feedback");
    reveal_strlit("project");
    reveal_strlit("reference");
    reveal_strlit("---");
    let word = memory_type.word();
    assert(!word.contains('\n'));
    assert(!word.contains('-'));
    if occurs(word, "---"@) {
        let i = choose|i: int| #[trigger] stands_at(word, i, "---"@);
        assert(word.subrange(i, i + 3)[0] == '-');
        assert(word[i] == '-');
        assert(word.contains('-'));
    }
    lemma_trimmed_already(word);
}

/// The pieces of what stands between the fences of a shard, in which there is no
/// fence.
proof fn lemma_head(
    memory_type: MemoryType,
    title: Seq<char>,
    description: Seq<char>,
    created_at: Seq<char>,
    updated_at: Seq<char>,
)
    requires
        one_line(title),
        one_line(description),
        one_line(created_at),
        one_line(updated_at),
    ensures
        ({
            let head = head_of(memory_type, title, description, created_at, updated_at);
            &&& pieces(head, is_char('\n')) == head_lines(
                memory_type,
                title,
                description,
                created_at,
                updated_at,
            )
            &&& !(occurs(head, "---"@))
            &&& head.len() > 0
            &&& head.last() == '\n'
        }),
{
    lemma_keys();
    lemma_word_plain(memory_type);
    reveal_strlit("---");
    let end = seq!['\n'];
    let none = Seq::<char>::empty();
    let p = is_char('\n');
    let l1 = head_line("type"@, memory_type.word());
    let l2 = head_line("title"@, title);
    let l3 = head_line("description"@, description);
    let l4 = head_line("created_at"@, created_at);
    let l5 = head_line("updated_at"@, updated_at);
    lemma_head_line_plain("type"@, memory_type.word());
    lemma_head_line_plain("title"@, title);
    lemma_head_line_plain("description"@, description);
    lemma_head_line_plain("created_at"@, created_at);
    lemma_head_line_plain("updated_at"@, updated_at);
    let h1 = none + end + l1;
    let h2 = h1 + end + l2;
    let h3 = h2 + end + l3;
    let h4 = h3 + end + l4;
    let h5 = h4 + end + l5;
    let h6 = h5 + end + none;
    assert(!(occurs(none, "---"@)));
    lemma_no_fence(none, l1);
    lemma_no_fence(h1, l2);
    lemma_no_fence(h2, l3);
    lemma_no_fence(h3, l4);
    lemma_no_fence(h4, l5);
    lemma_no_fence(h5, none);
    lemma_pieces_line(none, l1);
    lemma_pieces_line(h1, l2);
    lemma_pieces_line(h2, l3);
    lemma_pieces_line(h3, l4);
    lemma_pieces_line(h4, l5);
    lemma_pieces_line(h5, none);
    assert(pieces(none, p) == seq![none]);
    assert(pieces(h6, p) =~= head_lines(memory_type, title, description, created_at, updated_at));
    assert(h6.last() == '\n');
}

/// The text of a shard is a fence, its head, a fence, and its body.
proof fn lemma_text_in_parts(
    memory_type: MemoryType,
    title: Seq<char>,
    description: Seq<char>,
    created_at: Seq<char>,
    updated_at: Seq<char>,
    body: Seq<char>,
)
    ensures
        shard_text(memory_type, title, description, created_at, updated_at, body) == "---"@
            + head_of(memory_type, title, description, created_at, updated_at) + "---"@ + (seq![
            '\n',
            '\n',
        ] + body + seq!['\n']),
{
    reveal_strlit("---\ntype: ");
    reveal_strlit("\ntitle: ");
    reveal_strlit("\ndescription: ");
    reveal_strlit("\ncreated_at: ");
    reveal_strlit("\nupdated_at: ");
    reveal_strlit("\n---\n\n");
    reveal_strlit("\n");
    reveal_strlit("---");
    reveal_strlit("type");
    reveal_strlit("title");
    reveal_strlit("description");
    reveal_strlit("created_at");
    reveal_strlit("updated_at");
    let end = seq!['\n'];
    let gap = seq![':', ' '];
    assert("---\ntype: "@ =~= "---"@ + end + "type"@ + gap);
    assert("\ntitle: "@ =~= end + "title"@ + gap);
    assert("\ndescription: "@ =~= end + "description"@ + gap);
    assert("\ncreated_at: "@ =~= end + "created_at"@ + gap);
    assert("\nupdated_at: "@ =~= end + "updated_at"@ + gap);
    assert("\n---\n\n"@ =~= end + "---"@ + seq!['\n', '\n']);
    assert("\n"@ =~= end);
    let head = head_of(memory_type, title, description, created_at, updated_at);
    assert(shard_text(memory_type, title, description, created_at, updated_at, body) =~= "---"@
        + head + "---"@ + (seq!['\n', '\n'] + body + end));
}

/// What is written as a shard is read as that shard.
pub proof fn law_shard_text_reads_back(
    memory_type: MemoryType,
    title: Seq<char>,
    description: Seq<char>,
    created_at: Seq<char>,
    updated_at: Seq<char>,
    body: Seq<char>,
)
    requires
        one_line(title),
        one_line(description),
        one_line(created_at),
        one_line(updated_at),
    ensures
        ({
            let text = shard_text(memory_type, title, description, created_at, updated_at, body);
            &&& parsed(text) matches Ok((meta, said))
            &&& said == trimmed(body)
            &&& meta.title == trimmed(title)
            &&& meta.description == trimmed(description)
            &&& meta.created_at == trimmed(created_at)
            &&& meta.updated_at == trimmed(updated_at)
            &&& lowercased(memory_type.word()) == memory_type.word() ==> meta.memory_type
                == memory_type
        }),
{
    let content = shard_text(memory_type, title, description, created_at, updated_at, body);
    let head = head_of(memory_type, title, description, created_at, updated_at);
    let tail = seq!['\n', '\n'] + body + seq!['\n'];
    let fence = "---"@;
    lemma_text_in_parts(memory_type, title, description, created_at, updated_at, body);
    lemma_head(memory_type, title, description, created_at, updated_at);
    lemma_said(memory_type, title, description, created_at, updated_at);
    lemma_word_plain(memory_type);
    reveal_strlit("---");
    let front = fence + head + fence;
    let rest = drop_trailing(tail, is_white_fn());
    assert(content == front + tail);
    assert(content[0] == '-');
    assert(front.last() == '-');
    lemma_leading_stays(content);
    lemma_trailing_behind(front, tail);
    let text = front + rest;
    assert(trimmed(content) == text);
    assert(fence.is_prefix_of(text)) by {
        assert(text.take(3) =~= fence);
    }
    let end: int = 3 + head.len() as int;
    assert(text.subrange(end, end + 3) =~= fence);
    assert forall|j: int| 3 <= j < end implies !stands_at(text, j, fence) by {
        if stands_at(text, j, fence) {
            assert(text.subrange(j, j + 3)[0] == '-');
            assert(text.subrange(j, j + 3)[1] == '-');
            assert(text.subrange(j, j + 3)[2] == '-');
            assert(text[j] == '-' && text[j + 1] == '-' && text[j + 2] == '-');
            assert(text[end - 1] == head.last());
            if j + 2 < end {
                assert(head.subrange(j - 3, j) =~= text.subrange(j, j + 3));
                assert(stands_at(head, j - 3, fence));
            }
        }
    }
    lemma_first_at(text, fence, 3, end);
    assert(text.subrange(3, end) =~= head);
    assert(text.skip(end + 3) =~= rest);
    lemma_trimmed_of_trailing(tail);
    let after_one = seq!['\n'] + body + seq!['\n'];
    assert(tail =~= seq!['\n'] + after_one);
    lemma_space_before('\n', after_one);
    assert(after_one =~= seq!['\n'] + (body + seq!['\n']));
    lemma_space_before('\n', body + seq!['\n']);
    lemma_space_behind(body, '\n');
    assert(trimmed(rest) == trimmed(body));
}

/// Part of a text that may stand in a line may do so too.
proof fn lemma_part_is_one_line(s: Seq<char>, i: int, j: int)
    requires
        0 <= i <= j <= s.len(),
        one_line(s),
    ensures
        one_line(s.subrange(i, j)),
{
    let t = s.subrange(i, j);
    if t.contains('\n') {
        assert(s[i + t.index_of('\n')] == '\n');
    }
    lemma_part_has_no_fence(s, i, j);
}

proof fn lemma_part_has_no_fence(s: Seq<char>, i: int, j: int)
    requires
        0 <= i <= j <= s.len(),
        !(occurs(s, "---"@)),
    ensures
        !(occurs(s.subrange(i, j), "---"@)),
{
    let t = s.subrange(i, j);
    if occurs(t, "---"@) {
        let k = choose|k: int| #[trigger] stands_at(t, k, "---"@);
        assert(s.subrange(i + k, i + k + "---"@.len()) =~= t.subrange(k, k + "---"@.len()));
        assert(stands_at(s, i + k, "---"@));
    }
}

/// A text that may stand in a line may do so when it is trimmed.
proof fn lemma_trimmed_is_one_line(s: Seq<char>)
    requires
        one_line(s),
    ensures
        one_line(trimmed(s)),
{
    lemma_leading_is_one_line(s);
    lemma_trailing_is_one_line(drop_leading(s, is_white_fn()));
}

proof fn lemma_leading_is_one_line(s: Seq<char>)
    requires
        one_line(s),
    ensures
        one_line(drop_leading(s, is_white_fn())),
    decreases s.len(),
{
    if s.len() > 0 {
        lemma_part_is_one_line(s, 1, s.len() as int);
        assert(s.subrange(1, s.len() as int) =~= s.drop_first());
        lemma_leading_is_one_line(s.drop_first());
    }
}

proof fn lemma_trailing_is_one_line(s: Seq<char>)
    requires
        one_line(s),
    ensures
        one_line(drop_trailing(s, is_white_fn())),
    decreases s.len(),
{
    if s.len() > 0 {
        lemma_part_is_one_line(s, 0, s.len() - 1);
        assert(s.subrange(0, s.len() - 1) =~= s.drop_last());
        lemma_trailing_is_one_line(s.drop_last());
    }
}

/// What stands behind the first colon of a line.
proof fn lemma_value_is_one_line(s: Seq<char>)
    requires
        one_line(s),
    ensures
        cut(s, ':') matches Some((key, value)) ==> one_line(value),
    decreases s.len(),
{
    if s.len() > 0 {
        lemma_part_is_one_line(s, 1, s.len() as int);
        assert(s.subrange(1, s.len() as int) =~= s.drop_first());
        if s[0] != ':' {
            lemma_value_is_one_line(s.drop_first());
        }
    }
}

/// The lines of a text without a fence.
proof fn lemma_lines_are_lines(s: Seq<char>)
    requires
        !(occurs(s, "---"@)),
    ensures
        ({
            let lines = pieces(s, is_char('\n'));
            &&& lines.len() > 0
            &&& forall|i: int| 0 <= i < lines.len() ==> one_line(#[trigger] lines[i])
            &&& lines.last().len() <= s.len()
            &&& lines.last() == s.skip(s.len() - lines.last().len())
        }),
    decreases s.len(),
{
    reveal_strlit("---");
    let p = is_char('\n');
    let lines = pieces(s, p);
    let none = Seq::<char>::empty();
    assert(one_line(none));
    if s.len() == 0 {
        assert(s.skip(0) =~= none);
    } else {
        let rest = s.drop_last();
        lemma_part_has_no_fence(s, 0, s.len() - 1);
        assert(s.subrange(0, s.len() - 1) =~= rest);
        lemma_lines_are_lines(rest);
        let before = pieces(rest, p);
        if p(s.last()) {
            assert(lines == before.push(none));
            assert(s.skip(s.len() as int) =~= none);
        } else {
            let line = before.last().push(s.last());
            assert(lines == before.drop_last().push(line));
            let from = rest.len() - before.last().len();
            assert(line =~= s.skip(from));
            lemma_part_has_no_fence(s, from, s.len() as int);
            assert(s.subrange(from, s.len() as int) =~= line);
            assert(one_line(before[before.len() - 1]));
            assert(!line.contains('\n')) by {
                if line.contains('\n') {
                    let k = line.index_of('\n');
                    if k < before.last().len() {
                        assert(before.last()[k] == '\n');
                        assert(before.last().contains('\n'));
                    }
                }
            }
            assert forall|i: int| 0 <= i < lines.len() implies one_line(#[trigger] lines[i]) by {
                if i < lines.len() - 1 {
                    assert(lines[i] == before[i]);
                }
            }
        }
    }
}

/// The time at which a shard was made, as its lines say it, may stand in a line.
proof fn lemma_said_is_one_line(lines: Seq<Seq<char>>)
    requires
        forall|i: int| 0 <= i < lines.len() ==> one_line(#[trigger] lines[i]),
    ensures
        one_line(said_in(lines).created_at),
    decreases lines.len(),
{
    reveal_strlit("---");
    if lines.len() == 0 {
        assert(one_line(Seq::<char>::empty()));
    } else {
        let rest = lines.drop_last();
        assert forall|i: int| 0 <= i < rest.len() implies one_line(#[trigger] rest[i]) by {
            assert(rest[i] == lines[i]);
        }
        lemma_said_is_one_line(rest);
        let line = lines[lines.len() - 1];
        lemma_trimmed_is_one_line(line);
        lemma_value_is_one_line(trimmed(line));
        if let Some((key, value)) = cut(trimmed(line), ':') {
            lemma_trimmed_is_one_line(value);
        }
    }
}

proof fn lemma_before_the_fence(s: Seq<char>, from: int)
    requires
        0 <= from,
    ensures
        first_at(s, "---"@, from) matches Some(end) ==> from <= end && end + 3 <= s.len() && forall|
            j: int,
        |
            from <= j < end ==> !stands_at(s, j, "---"@),
    decreases s.len() + 1 - from,
{
    reveal_strlit("---");
    if from + 3 <= s.len() && !stands_at(s, from, "---"@) {
        lemma_before_the_fence(s, from + 1);
    }
}

/// The time at which a shard was made, as it is read, may stand in a line.
proof fn lemma_read_time_is_one_line(content: Seq<char>)
    ensures
        parsed(content) matches Ok((meta, body)) ==> one_line(meta.created_at),
{
    reveal_strlit("---");
    let text = trimmed(content);
    if "---"@.is_prefix_of(text) {
        lemma_before_the_fence(text, 3);
        if let Some(end) = first_at(text, "---"@, 3) {
            let head = text.subrange(3, end);
            if occurs(head, "---"@) {
                let k = choose|k: int| #[trigger] stands_at(head, k, "---"@);
                assert(text.subrange(k + 3, k + 6) =~= head.subrange(k, k + 3));
                assert(stands_at(text, k + 3, "---"@));
            }
            lemma_lines_are_lines(head);
            lemma_said_is_one_line(pieces(head, is_char('\n')));
        }
    }
}

/// Whether two states of the directory hold the same directories.
spec fn same_dirs(a: MemoryModel, b: MemoryModel) -> bool {
    &&& a.base_dir == b.base_dir
    &&& forall|place: Seq<char>| #[trigger] a.is_dir(place) == b.is_dir(place)
}

/// A name leads to the same place wherever there are the same directories.
proof fn lemma_same_place(a: MemoryModel, b: MemoryModel, name: Seq<char>)
    requires
        same_dirs(a, b),
    ensures
        a.place(name) == b.place(name),
{
    let parts = pieces(name, is_char('/'));
    let start = if rooted(name) {
        "/"@
    } else {
        a.home()
    };
    lemma_same_way(a, b, start, parts, parts.len());
}

proof fn lemma_same_way(
    a: MemoryModel,
    b: MemoryModel,
    start: Seq<char>,
    parts: Seq<Seq<char>>,
    n: nat,
)
    requires
        same_dirs(a, b),
    ensures
        a.led(start, parts, n) == b.led(start, parts, n),
    decreases n,
{
    if n > 0 {
        lemma_same_way(a, b, start, parts, (n - 1) as nat);
        if let Some(here) = a.led(start, parts, (n - 1) as nat) {
            assert(a.is_dir(here) == b.is_dir(here));
        }
    }
}

/// No directory comes or goes where a file is written or removed.
proof fn lemma_dirs_stay(memory: MemoryModel, place: Seq<char>, text: Seq<char>)
    requires
        !memory.is_dir(place),
    ensures
        same_dirs(memory, memory.stored(place, text)),
        same_dirs(memory, memory.without(place)),
{
    let stored = memory.stored(place, text);
    let left = memory.without(place);
    assert forall|other: Seq<char>| #[trigger] memory.is_dir(other) == stored.is_dir(other)
        && memory.is_dir(other) == left.is_dir(other) by {
        lemma_elsewhere(memory, place, text, other);
    }
}

/// What is where, once there is an index.
proof fn lemma_ready(memory: MemoryModel, other: Seq<char>)
    ensures
        same_dirs(memory, memory.ready()),
        memory.ready().ready() == memory.ready(),
        memory.ready().entry(memory.index_place()) is Some,
        other != memory.index_place() ==> memory.ready().entry(other) == memory.entry(other),
{
    let place = memory.index_place();
    lemma_ready_twice(memory);
    if memory.entry(place) is None {
        lemma_dirs_stay(memory, place, EMPTY_INDEX@);
        lemma_elsewhere(memory, place, EMPTY_INDEX@, other);
    }
}

/// What is where, after the index was made anew.
proof fn lemma_indexed(memory: MemoryModel, other: Seq<char>)
    ensures
        same_dirs(memory, memory.indexed()),
        memory.indexed().ready() == memory.indexed(),
        other != memory.index_place() ==> memory.indexed().entry(other) == memory.entry(other),
{
    let ready = memory.ready();
    let place = memory.index_place();
    lemma_ready(memory, other);
    if !ready.is_dir(place) {
        let index = index_of(ready.listed(), ready.listed().len());
        lemma_dirs_stay(ready, place, index);
        lemma_elsewhere(ready, place, index, other);
    }
    assert(same_dirs(memory, memory.indexed()));
}

/// The last component of a name goes on with it.
proof fn lemma_last_part_push(s: Seq<char>, c: char)
    requires
        c != '/',
    ensures
        last_part(s.push(c)) == last_part(s).push(c),
{
    assert(s.push(c).drop_last() =~= s);
}

proof fn lemma_last_part_has_no_slash(s: Seq<char>)
    ensures
        pieces(s, is_char('/')).len() > 0,
        !last_part(s).contains('/'),
    decreases s.len(),
{
    if s.len() > 0 {
        let rest = s.drop_last();
        lemma_last_part_has_no_slash(rest);
        assert(rest.push(s.last()) =~= s);
        if s.last() != '/' {
            lemma_last_part_push(rest, s.last());
            let last = last_part(rest).push(s.last());
            if last.contains('/') {
                let k = last.index_of('/');
                assert(last_part(rest)[k] == '/');
            }
        }
    }
}

/// The last part of a path below a directory.
pub proof fn lemma_last_part_below(dir: Seq<char>, part: Seq<char>)
    requires
        part.len() > 0,
        !part.contains('/'),
    ensures
        last_part(below(dir, part)) == part,
    decreases part.len(),
{
    reveal_strlit("/");
    assert(part[0] != '/') by {
        if part[0] == '/' {
            assert(part.contains('/'));
        }
    }
    let rest = part.drop_last();
    let c = part.last();
    assert(c != '/') by {
        if c == '/' {
            assert(part.contains(c));
        }
    }
    let whole = below(dir, part);
    if rest.len() > 0 {
        assert(!rest.contains('/')) by {
            if rest.contains('/') {
                assert(part.contains(part[rest.index_of('/')]));
            }
        }
        lemma_last_part_below(dir, rest);
        assert(whole =~= below(dir, rest).push(c));
        lemma_last_part_push(below(dir, rest), c);
        assert(rest.push(c) =~= part);
    } else {
        let start = if dir.len() == 0 || dir.last() == '/' {
            dir
        } else {
            dir.push('/')
        };
        assert(whole =~= start.push(c));
        assert(last_part(start) =~= Seq::<char>::empty());
        lemma_last_part_push(start, c);
        assert(part =~= Seq::<char>::empty().push(c));
    }
}

/// A shard is called by the last component of the name that led to it.
proof fn lemma_called(memory: MemoryModel, name: Seq<char>)
    requires
        memory.place(file_of(name)) is Some,
    ensures
        last_part(memory.place(file_of(name))->0) == last_part(file_of(name)),
{
    reveal_strlit(".md");
    reveal_strlit(".");
    reveal_strlit("..");
    let file = file_of(name);
    let n = file.len();
    assert(".md"@.is_suffix_of(file)) by {
        if !".md"@.is_suffix_of(name) {
            assert(file.subrange(n - 3, n as int) =~= ".md"@);
        }
    }
    assert(file.subrange(n - 3, n as int) == ".md"@);
    assert(file[n - 1] == file.subrange(n - 3, n as int)[2]);
    assert(file[n - 2] == file.subrange(n - 3, n as int)[1]);
    assert(file[n - 3] == file.subrange(n - 3, n as int)[0]);
    let stem = file.take(n - 3);
    assert(file =~= stem.push('.').push('m').push('d'));
    lemma_last_part_push(stem, '.');
    lemma_last_part_push(stem.push('.'), 'm');
    lemma_last_part_push(stem.push('.').push('m'), 'd');
    lemma_last_part_has_no_slash(file);
    let part = last_part(file);
    assert(part.last() == 'd');
    let parts = pieces(file, is_char('/'));
    let start = if rooted(file) {
        "/"@
    } else {
        memory.home()
    };
    let here = memory.led(start, parts, (parts.len() - 1) as nat)->0;
    assert(stepped(here, part) == below(here, part));
    lemma_last_part_below(here, part);
}

/// What is read of a file after it was written.
proof fn lemma_written_is_read(memory: MemoryModel, options: WriteOptionsModel, now: Seq<char>)
    requires
        memory.text_written(options, now) is Ok,
        memory.place(file_of(options.name)) != Some(memory.index_place()),
    ensures
        memory.place(file_of(options.name)) is Some,
        memory.written(options, now).read(file_of(options.name)) == shard_in(
            last_part(file_of(options.name)),
            memory.text_written(options, now)->Ok_0,
        ),
{
    let name = file_of(options.name);
    let text = memory.text_written(options, now)->Ok_0;
    let ready = memory.ready();
    lemma_ready(memory, memory.index_place());
    lemma_same_place(memory, ready, name);
    let place = ready.place(name)->0;
    let stored = ready.stored(place, text);
    lemma_dirs_stay(ready, place, text);
    lemma_elsewhere(ready, place, text, place);
    lemma_indexed(stored, place);
    lemma_same_place(ready, stored, name);
    lemma_same_place(stored, stored.indexed(), name);
    lemma_called(ready, options.name);
    lemma_last_part_has_no_slash(name);
    lemma_last_part_alone(last_part(name));
}

proof fn lemma_last_part_alone(part: Seq<char>)
    requires
        !part.contains('/'),
    ensures
        last_part(part) == part,
{
    if part.len() > 0 {
        assert(part[0] != '/') by {
            if part[0] == '/' {
                assert(part.contains('/'));
            }
        }
        lemma_last_part_below(Seq::empty(), part);
        assert(below(Seq::empty(), part) =~= part);
    }
}

/// Whether a shard says what was to be written, and was made at a time.
pub open spec fn says(
    shard: MemoryShardModel,
    options: WriteOptionsModel,
    body: Seq<char>,
    created_at: Seq<char>,
    updated_at: Seq<char>,
) -> bool {
    &&& shard.meta.filename == last_part(file_of(options.name))
    &&& shard.meta.title == trimmed(options.title)
    &&& shard.meta.description == trimmed(options.description)
    &&& shard.meta.created_at == trimmed(created_at)
    &&& shard.meta.updated_at == trimmed(updated_at)
    &&& shard.body == trimmed(body)
}

/// What is created is read back, but for white space around it.
pub proof fn law_created_shard_is_read(
    memory: MemoryModel,
    options: WriteOptionsModel,
    now: Seq<char>,
)
    requires
        options.mode is Create,
        memory.text_written(options, now) is Ok,
        one_line(options.title),
        one_line(options.description),
        one_line(now),
    ensures
        ({
            let read = memory.written(options, now).read(file_of(options.name));
            &&& read matches Ok(shard)
            &&& says(shard, options, options.body, now, now)
            &&& lowercased(options.memory_type.word()) == options.memory_type.word()
                ==> shard.meta.memory_type == options.memory_type
        }),
{
    lemma_ready(memory, memory.index_place());
    lemma_same_place(memory, memory.ready(), file_of(options.name));
    lemma_written_is_read(memory, options, now);
    lemma_last_part_has_no_slash(file_of(options.name));
    lemma_last_part_alone(last_part(file_of(options.name)));
    law_shard_text_reads_back(
        options.memory_type,
        options.title,
        options.description,
        now,
        now,
        options.body,
    );
}

/// What is created is refused where something lies already, or where the name
/// leads through what is no directory; it succeeds everywhere else.
pub proof fn law_create_succeeds(memory: MemoryModel, options: WriteOptionsModel, now: Seq<char>)
    requires
        options.mode is Create,
    ensures
        memory.text_written(options, now) is Ok <==> {
            &&& memory.place(file_of(options.name)) is Some
            &&& memory.ready().found(file_of(options.name)) is None
        },
{
    lemma_ready(memory, memory.index_place());
    lemma_same_place(memory, memory.ready(), file_of(options.name));
}

/// What is updated is read back, and keeps the time at which it was made.
pub proof fn law_updated_shard_is_read(
    memory: MemoryModel,
    options: WriteOptionsModel,
    now: Seq<char>,
    before: MemoryShardModel,
)
    requires
        options.mode is Update,
        memory.read(file_of(options.name)) == Ok::<MemoryShardModel, MemoryErrorModel>(before),
        memory.place(file_of(options.name)) != Some(memory.index_place()),
        one_line(options.title),
        one_line(options.description),
        one_line(now),
    ensures
        ({
            let read = memory.written(options, now).read(file_of(options.name));
            &&& read matches Ok(shard)
            &&& says(shard, options, options.body, before.meta.created_at, now)
            &&& lowercased(options.memory_type.word()) == options.memory_type.word()
                ==> shard.meta.memory_type == options.memory_type
        }),
{
    lemma_written_is_read(memory, options, now);
    lemma_last_part_has_no_slash(file_of(options.name));
    lemma_last_part_alone(last_part(file_of(options.name)));
    lemma_read_time_is_one_line(memory.ready().found(file_of(options.name))->0->Text_0);
    law_shard_text_reads_back(
        options.memory_type,
        options.title,
        options.description,
        before.meta.created_at,
        now,
        options.body,
    );
}

/// What is appended is read back behind what was there, and the shard keeps its
/// type and the time at which it was made.
pub proof fn law_appended_shard_is_read(
    memory: MemoryModel,
    options: WriteOptionsModel,
    now: Seq<char>,
    before: MemoryShardModel,
)
    requires
        options.mode is Append,
        memory.read(file_of(options.name)) == Ok::<MemoryShardModel, MemoryErrorModel>(before),
        memory.place(file_of(options.name)) != Some(memory.index_place()),
        one_line(options.title),
        one_line(options.description),
        one_line(now),
    ensures
        ({
            let read = memory.written(options, now).read(file_of(options.name));
            &&& read matches Ok(shard)
            &&& says(
                shard,
                options,
                before.body + "\n"@ + options.body,
                before.meta.created_at,
                now,
            )
            &&& lowercased(before.meta.memory_type.word()) == before.meta.memory_type.word()
                ==> shard.meta.memory_type == before.meta.memory_type
        }),
{
    lemma_written_is_read(memory, options, now);
    lemma_last_part_has_no_slash(file_of(options.name));
    lemma_last_part_alone(last_part(file_of(options.name)));
    lemma_read_time_is_one_line(memory.ready().found(file_of(options.name))->0->Text_0);
    law_shard_text_reads_back(
        before.meta.memory_type,
        options.title,
        options.description,
        before.meta.created_at,
        now,
        before.body + "\n"@ + options.body,
    );
}

/// A write that is refused changes nothing, but that there is an index.
pub proof fn law_refused_write_changes_nothing(
    memory: MemoryModel,
    options: WriteOptionsModel,
    now: Seq<char>,
)
    requires
        memory.text_written(options, now) is Err,
    ensures
        memory.written(options, now) == memory.ready(),
{
}

/// Writing one shard leaves the others as they are.
pub proof fn law_other_shards_stay(
    memory: MemoryModel,
    options: WriteOptionsModel,
    now: Seq<char>,
    other: Seq<char>,
)
    requires
        memory.place(other) is None || memory.place(other) != memory.place(file_of(options.name)),
        memory.place(other) != Some(memory.index_place()),
    ensures
        memory.written(options, now).read(other) == memory.read(other),
{
    let ready = memory.ready();
    lemma_ready(memory, memory.index_place());
    lemma_same_place(memory, ready, other);
    if let Ok(text) = memory.text_written(options, now) {
        let name = file_of(options.name);
        lemma_same_place(memory, ready, name);
        let place = ready.place(name)->0;
        let stored = ready.stored(place, text);
        lemma_dirs_stay(ready, place, text);
        lemma_same_place(ready, stored, other);
        lemma_indexed(stored, place);
        lemma_same_place(stored, stored.indexed(), other);
        if let Some(there) = ready.place(other) {
            lemma_elsewhere(ready, place, text, there);
            lemma_indexed(stored, there);
        }
    }
}

/// What was removed is not found any more, and the others are as they were.
pub proof fn law_deleted_shard_is_gone(memory: MemoryModel, name: Seq<char>, other: Seq<char>)
    requires
        memory.delete_answer(name) is Ok,
        memory.place(name) != Some(memory.index_place()),
        memory.place(other) != Some(memory.index_place()),
        memory.place(other) != memory.place(name),
    ensures
        memory.deleted(name).read(name) == Err::<MemoryShardModel, MemoryErrorModel>(
            MemoryErrorModel::NotFound(name),
        ),
        memory.deleted(name).read(other) == memory.read(other),
{
    let ready = memory.ready();
    lemma_ready(memory, memory.index_place());
    lemma_same_place(memory, ready, name);
    lemma_same_place(memory, ready, other);
    let place = ready.place(name)->0;
    let left = ready.without(place);
    lemma_dirs_stay(ready, place, Seq::empty());
    lemma_elsewhere(ready, place, Seq::empty(), place);
    lemma_same_place(ready, left, name);
    lemma_same_place(ready, left, other);
    lemma_indexed(left, place);
    lemma_same_place(left, left.indexed(), name);
    lemma_same_place(left, left.indexed(), other);
    if let Some(there) = ready.place(other) {
        lemma_elsewhere(ready, place, Seq::empty(), there);
        lemma_indexed(left, there);
    }
}

/// What is not found, or is a directory, is not removed, and nothing changes but
/// that there is an index.
pub proof fn law_refused_delete_changes_nothing(memory: MemoryModel, name: Seq<char>)
    requires
        memory.ready().found(name) is None || memory.ready().found(name) == Some(
            EntryModel::Directory,
        ),
    ensures
        memory.delete_answer(name) is Err,
        memory.deleted(name) == memory.ready(),
{
}

/// A file that holds no shard does not change which shards there are.
proof fn lemma_index_holds_no_shard(
    home: Seq<char>,
    a: Seq<(Seq<char>, EntryModel)>,
    b: Seq<(Seq<char>, EntryModel)>,
    index: Seq<char>,
    n: nat,
)
    requires
        n <= a.len(),
        n <= b.len(),
        !is_shard_path(home, index),
        forall|i: int|
            0 <= i < n ==> (#[trigger] a[i]).0 == b[i].0 && (a[i].0 != index ==> a[i] == b[i]),
    ensures
        shards_in(home, a, n) == shards_in(home, b, n),
    decreases n,
{
    if n > 0 {
        lemma_index_holds_no_shard(home, a, b, index, (n - 1) as nat);
        assert(a[n - 1].0 == b[n - 1].0);
    }
}

/// The shards are the same when the index is stored.
proof fn lemma_index_stored(memory: MemoryModel, text: Seq<char>)
    ensures
        memory.stored(memory.index_place(), text).shards() == memory.shards(),
{
    let index = memory.index_place();
    let after = memory.stored(index, text);
    let n = memory.entries.len();
    assert(!is_shard_path(memory.home(), index)) by {
        reveal_strlit("MEMORY.md");
        assert(!INDEX_FILE@.contains('/'));
        lemma_last_part_below(memory.home(), INDEX_FILE@);
    }
    lemma_index_holds_no_shard(memory.home(), after.entries, memory.entries, index, n);
    if !any(memory.entries, at_place(index)) {
        assert(after.entries.len() == n + 1);
        assert(after.entries[n as int] == (index, EntryModel::Text(text)));
    }
}

/// After every write that succeeds the index lists all shards right in the
/// directory, and nothing else.
pub proof fn law_index_lists_the_shards(
    memory: MemoryModel,
    options: WriteOptionsModel,
    now: Seq<char>,
)
    requires
        memory.write_answer(options, now) is Ok,
    ensures
        ({
            let after = memory.written(options, now);
            after.index() == index_of(after.listed(), after.listed().len())
        }),
{
    let text = memory.text_written(options, now)->Ok_0;
    let name = file_of(options.name);
    lemma_ready(memory, memory.index_place());
    lemma_same_place(memory, memory.ready(), name);
    let place = memory.ready().place(name)->0;
    lemma_dirs_stay(memory.ready(), place, text);
    let stored = memory.ready().stored(place, text);
    let ready = stored.ready();
    lemma_ready(stored, stored.index_place());
    assert(memory.ready().is_dir(stored.index_place()) == stored.is_dir(stored.index_place()));
    assert(stored.is_dir(stored.index_place()) == ready.is_dir(stored.index_place()));
    let index = index_of(ready.listed(), ready.listed().len());
    lemma_index_stored(ready, index);
    lemma_elsewhere(ready, ready.index_place(), index, ready.index_place());
}

/// A search finds no more than was asked for, nothing that does not fit, and what
/// fits best first.
pub proof fn law_search_is_ranked(
    memory: MemoryModel,
    query: Seq<char>,
    wanted: Option<MemoryType>,
    limit: nat,
)
    ensures
        ({
            let found = memory.searched(query, wanted, limit);
            &&& found.len() <= limit
            &&& forall|i: int| 0 <= i < found.len() ==> (#[trigger] found[i]).score > 0
            &&& forall|i: int|
                0 <= i < found.len() ==> (wanted matches Some(t) ==> (
                #[trigger] found[i]).memory_type == t)
            &&& forall|i: int, j: int|
                0 <= i < j < found.len() ==> (#[trigger] found[i]).score >= (
                #[trigger] found[j]).score
        }),
{
    let shards = memory.ready().shards();
    let all = hits(shards, query, wanted, shards.len());
    let ordered = order_by(all, fits_better());
    let found = memory.searched(query, wanted, limit);
    let good = |hit: MemoryHitModel|
        hit.score > 0 && (wanted matches Some(t) ==> hit.memory_type == t);
    lemma_hits_fit(shards, query, wanted, shards.len());
    assert forall|i: int| 0 <= i < all.len() implies good(#[trigger] all[i]) by {}
    lemma_order_holds(all, fits_better(), good);
    lemma_order_by_in_order(all, fits_better());
    assert forall|i: int| 0 <= i < found.len() implies (#[trigger] found[i]).score > 0 && (
    wanted matches Some(t) ==> found[i].memory_type == t) by {
        assert(found[i] == ordered[i]);
        assert(good(ordered[i]));
    }
    assert forall|i: int, j: int| 0 <= i < j < found.len() implies (#[trigger] found[i]).score >= (
    #[trigger] found[j]).score by {
        assert(found[i] == ordered[i] && found[j] == ordered[j]);
        assert(!fits_better()(ordered[j], ordered[i]));
    }
}

proof fn lemma_hits_fit(
    shards: Seq<MemoryShardModel>,
    query: Seq<char>,
    wanted: Option<MemoryType>,
    n: nat,
)
    requires
        n <= shards.len(),
    ensures
        forall|i: int|
            0 <= i < hits(shards, query, wanted, n).len() ==> {
                let hit = #[trigger] hits(shards, query, wanted, n)[i];
                hit.score > 0 && (wanted matches Some(t) ==> hit.memory_type == t)
            },
    decreases n,
{
    if n > 0 {
        lemma_hits_fit(shards, query, wanted, (n - 1) as nat);
    }
}

} // verus!

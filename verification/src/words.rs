//! Looking into text: its pieces, what it holds, and replacements in it.

use crate::text::{chars_of, is_white, is_white_fn, text_of, trim, trimmed};
use vstd::prelude::*;

verus! {

/// The pieces of `s` between the characters that satisfy `p`.
pub open spec fn pieces(s: Seq<char>, p: spec_fn(char) -> bool) -> Seq<Seq<char>>
    decreases s.len(),
{
    if s.len() == 0 {
        seq![Seq::empty()]
    } else {
        let before = pieces(s.drop_last(), p);
        if p(s.last()) {
            before.push(Seq::empty())
        } else {
            before.drop_last().push(before.last().push(s.last()))
        }
    }
}

/// The pieces of a text between the characters that satisfy `p`.
pub fn split_where<F: Fn(char) -> bool>(
    text: &str,
    separates: F,
    Ghost(p): Ghost<spec_fn(char) -> bool>,
) -> (out: Vec<String>)
    requires
        forall|c: char| #[trigger] separates.requires((c,)),
        forall|c: char, b: bool| #[trigger] separates.ensures((c,), b) ==> b == p(c),
    ensures
        out.deep_view() == pieces(text@, p),
        out.len() > 0,
{
    let chars = chars_of(text);
    let mut out: Vec<String> = Vec::new();
    let mut current = String::new();
    let mut i: usize = 0;
    assert(text@.take(0) =~= Seq::<char>::empty());
    assert(out.deep_view().push(current@) =~= pieces(text@.take(0), p));
    while i < chars.len()
        invariant
            i <= chars.len(),
            chars@ == text@,
            forall|c: char| #[trigger] separates.requires((c,)),
            forall|c: char, b: bool| #[trigger] separates.ensures((c,), b) ==> b == p(c),
            out.deep_view().push(current@) == pieces(text@.take(i as int), p),
        decreases chars.len() - i,
    {
        let ghost done = out.deep_view();
        let ghost word = current@;
        assert(text@.take(i + 1).drop_last() =~= text@.take(i as int));
        assert(text@.take(i + 1).last() == chars@[i as int]);
        assert(done.push(word).drop_last() =~= done);
        if separates(chars[i]) {
            out.push(current);
            current = String::new();
            assert(out.deep_view() =~= done.push(word));
        } else {
            current.push(chars[i]);
        }
        i += 1;
    }
    let ghost done = out.deep_view();
    let ghost word = current@;
    out.push(current);
    assert(out.deep_view() =~= done.push(word));
    assert(text@.take(i as int) =~= text@);
    out
}

pub open spec fn is_char(c: char) -> spec_fn(char) -> bool {
    |x: char| x == c
}

/// The pieces of a text between the occurrences of a character.
pub fn split_at_char(text: &str, c: char) -> (out: Vec<String>)
    ensures
        out.deep_view() == pieces(text@, is_char(c)),
        out.len() > 0,
{
    let here = |x: char| -> (b: bool)
        ensures
            b == is_char(c)(x),
        { x == c };
    split_where(text, &here, Ghost(is_char(c)))
}

/// What stands before and after the first `c`.
pub open spec fn cut(s: Seq<char>, c: char) -> Option<(Seq<char>, Seq<char>)>
    decreases s.len(),
{
    if s.len() == 0 {
        None
    } else if s[0] == c {
        Some((Seq::empty(), s.drop_first()))
    } else {
        match cut(s.drop_first(), c) {
            Some((before, after)) => Some((seq![s[0]] + before, after)),
            None => None,
        }
    }
}

pub proof fn lemma_cut_at(s: Seq<char>, c: char, i: int)
    requires
        0 <= i <= s.len(),
        forall|j: int| 0 <= j < i ==> #[trigger] s[j] != c,
        i == s.len() || s[i] == c,
    ensures
        cut(s, c) == if i < s.len() {
            Some((s.take(i), s.skip(i + 1)))
        } else {
            None
        },
    decreases s.len(),
{
    if i == 0 {
        if s.len() > 0 {
            assert(s.take(0) =~= Seq::<char>::empty());
            assert(s.skip(1) =~= s.drop_first());
        }
    } else {
        let rest = s.drop_first();
        assert(s[0] != c);
        assert forall|j: int| 0 <= j < i - 1 implies #[trigger] rest[j] != c by {
            assert(s[j + 1] != c);
        }
        lemma_cut_at(rest, c, i - 1);
        if i < s.len() {
            assert(seq![s[0]] + rest.take(i - 1) =~= s.take(i));
            assert(rest.skip(i) =~= s.skip(i + 1));
        }
    }
}

/// What stands before and after the first `c` of a text.
pub fn split_once(text: &str, c: char) -> (parts: Option<(String, String)>)
    ensures
        parts.deep_view() == cut(text@, c),
{
    let chars = chars_of(text);
    let mut i: usize = 0;
    while i < chars.len() && chars[i] != c
        invariant
            i <= chars.len(),
            forall|j: int| 0 <= j < i ==> #[trigger] chars@[j] != c,
        ensures
            i == chars.len() || chars@[i as int] == c,
        decreases chars.len() - i,
    {
        i += 1;
    }
    proof {
        lemma_cut_at(text@, c, i as int);
    }
    if i == chars.len() {
        return None;
    }
    let before = text.substring_char(0, i);
    let after = text.substring_char(i + 1, chars.len());
    assert(before@ =~= text@.take(i as int));
    assert(after@ =~= text@.skip(i + 1));
    Some((before.to_owned(), after.to_owned()))
}

/// Whether `sub` stands in `s` at `i`.
pub open spec fn stands_at(s: Seq<char>, i: int, sub: Seq<char>) -> bool {
    0 <= i && i + sub.len() <= s.len() && s.subrange(i, i + sub.len()) == sub
}

/// Whether `sub` stands somewhere in `s`.
pub open spec fn occurs(s: Seq<char>, sub: Seq<char>) -> bool {
    exists|i: int| #[trigger] stands_at(s, i, sub)
}

/// Whether a text may stand in a line at the head of a shard: it has no second
/// line, and no fence.
pub open spec fn one_line(s: Seq<char>) -> bool {
    !s.contains('\n') && !(occurs(s, "---"@))
}

/// A character that a point in time is written with.
pub open spec fn writes_time(c: char) -> bool {
    '0' <= c <= '9' || c == 'T' || c == ':' || c == '.' || c == '+' || c == '-'
}

/// Whether a text can be a point in time: it is not empty, is made of what times
/// are written with, and has no three dashes in a row.
pub open spec fn time_text(s: Seq<char>) -> bool {
    &&& s.len() > 0
    &&& one_line(s)
    &&& forall|i: int| 0 <= i < s.len() ==> writes_time(#[trigger] s[i])
}

fn matches_at(chars: &Vec<char>, at: usize, sub: &Vec<char>) -> (yes: bool)
    requires
        at <= chars.len(),
    ensures
        yes == stands_at(chars@, at as int, sub@),
{
    if chars.len() - at < sub.len() {
        return false;
    }
    let mut i: usize = 0;
    while i < sub.len()
        invariant
            i <= sub.len(),
            at + sub.len() <= chars.len(),
            forall|j: int| 0 <= j < i ==> chars@[at + j] == #[trigger] sub@[j],
        decreases sub.len() - i,
    {
        if chars[at + i] != sub[i] {
            assert(chars@.subrange(at as int, at + sub.len())[i as int] != sub@[i as int]);
            return false;
        }
        i += 1;
    }
    assert(chars@.subrange(at as int, at + sub.len()) =~= sub@);
    true
}

/// Whether a text holds another.
pub fn contains(text: &str, sub: &str) -> (yes: bool)
    ensures
        yes == occurs(text@, sub@),
{
    let chars = chars_of(text);
    let wanted = chars_of(sub);
    let mut i: usize = 0;
    while i < chars.len()
        invariant
            i <= chars.len(),
            chars@ == text@,
            wanted@ == sub@,
            forall|j: int| 0 <= j < i ==> !stands_at(text@, j, sub@),
        decreases chars.len() - i,
    {
        if matches_at(&chars, i, &wanted) {
            return true;
        }
        i += 1;
    }
    let end = matches_at(&chars, i, &wanted);
    assert(occurs(text@, sub@) ==> end) by {
        if occurs(text@, sub@) {
            let j = choose|j: int| #[trigger] stands_at(text@, j, sub@);
            assert(j >= i);
        }
    }
    end
}

/// Where `sub` stands first in `s`, at `from` or behind it.
pub open spec fn first_at(s: Seq<char>, sub: Seq<char>, from: int) -> Option<int>
    decreases s.len() + 1 - from,
{
    if from < 0 || from + sub.len() > s.len() {
        None
    } else if stands_at(s, from, sub) {
        Some(from)
    } else {
        first_at(s, sub, from + 1)
    }
}

pub proof fn lemma_first_at(s: Seq<char>, sub: Seq<char>, from: int, i: int)
    requires
        0 <= from <= i,
        forall|j: int| from <= j < i ==> !stands_at(s, j, sub),
        stands_at(s, i, sub) || i + sub.len() > s.len(),
    ensures
        first_at(s, sub, from) == if stands_at(s, i, sub) {
            Some(i)
        } else {
            None
        },
    decreases i - from,
{
    if from < i && from + sub.len() <= s.len() {
        lemma_first_at(s, sub, from + 1, i);
    }
}

/// Where `sub` stands first in a text, at `from` or behind it.
pub fn find_from(text: &str, sub: &str, from: usize) -> (at: Option<usize>)
    requires
        from <= text@.len(),
    ensures
        match first_at(text@, sub@, from as int) {
            Some(i) => at matches Some(n) && n == i,
            None => at is None,
        },
        at matches Some(n) ==> n + sub@.len() <= text@.len(),
{
    let chars = chars_of(text);
    let wanted = chars_of(sub);
    let mut i: usize = from;
    while i < chars.len()
        invariant
            from <= i <= chars.len(),
            chars@ == text@,
            wanted@ == sub@,
            forall|j: int| from <= j < i ==> !stands_at(text@, j, sub@),
        decreases chars.len() - i,
    {
        if matches_at(&chars, i, &wanted) {
            proof {
                lemma_first_at(text@, sub@, from as int, i as int);
            }
            return Some(i);
        }
        i += 1;
    }
    proof {
        if sub@.len() == 0 {
            assert(text@.subrange(i as int, i as int) =~= sub@);
        }
        lemma_first_at(text@, sub@, from as int, i as int);
    }
    if matches_at(&chars, i, &wanted) {
        Some(i)
    } else {
        None
    }
}

/// Whether a text begins with another.
pub fn starts_with(text: &str, prefix: &str) -> (yes: bool)
    ensures
        yes == prefix@.is_prefix_of(text@),
{
    let chars = chars_of(text);
    let wanted = chars_of(prefix);
    let yes = matches_at(&chars, 0, &wanted);
    assert(text@.subrange(0, prefix@.len() as int) =~= text@.take(prefix@.len() as int));
    yes
}

/// Whether a text ends with another.
pub fn ends_with(text: &str, suffix: &str) -> (yes: bool)
    ensures
        yes == suffix@.is_suffix_of(text@),
{
    let chars = chars_of(text);
    let wanted = chars_of(suffix);
    if chars.len() < wanted.len() {
        return false;
    }
    let yes = matches_at(&chars, chars.len() - wanted.len(), &wanted);
    assert(text@.subrange(text@.len() - suffix@.len(), text@.len() as int) =~= text@.skip(
        text@.len() - suffix@.len(),
    ));
    yes
}

/// `s` with every occurrence of `from` replaced by `to`, from left to right.
pub open spec fn replaced(s: Seq<char>, from: Seq<char>, to: Seq<char>) -> Seq<char>
    decreases s.len(),
{
    if s.len() == 0 || from.len() == 0 {
        s
    } else if stands_at(s, 0, from) {
        to + replaced(s.skip(from.len() as int), from, to)
    } else {
        seq![s[0]] + replaced(s.skip(1), from, to)
    }
}

/// A text with every occurrence of `from` replaced by `to`, from left to right.
pub fn replace(text: &str, from: &str, to: &str) -> (out: String)
    requires
        from@.len() > 0,
    ensures
        out@ == replaced(text@, from@, to@),
{
    let chars = chars_of(text);
    let wanted = chars_of(from);
    let mut out = String::new();
    let mut i: usize = 0;
    assert(text@.skip(0) =~= text@);
    assert(out@ + replaced(text@, from@, to@) =~= replaced(text@, from@, to@));
    while i < chars.len()
        invariant
            i <= chars.len(),
            chars@ == text@,
            wanted@ == from@,
            from@.len() > 0,
            out@ + replaced(text@.skip(i as int), from@, to@) == replaced(text@, from@, to@),
        decreases chars.len() - i,
    {
        let ghost done = out@;
        let ghost rest = text@.skip(i as int);
        let here = matches_at(&chars, i, &wanted);
        assert(here == stands_at(rest, 0, from@)) by {
            if i + from@.len() <= text@.len() {
                assert(rest.subrange(0, from@.len() as int) =~= text@.subrange(
                    i as int,
                    i + from@.len(),
                ));
            }
        }
        if here {
            out.append(to);
            assert(rest.skip(from@.len() as int) =~= text@.skip(i + from@.len()));
            assert(out@ + replaced(text@.skip(i + from@.len()), from@, to@) =~= done + (to@
                + replaced(text@.skip(i + from@.len()), from@, to@)));
            i += wanted.len();
        } else {
            out.push(chars[i]);
            assert(rest[0] == chars@[i as int]);
            assert(rest.skip(1) =~= text@.skip(i + 1));
            assert(out@ + replaced(text@.skip(i + 1), from@, to@) =~= done + (seq![rest[0]]
                + replaced(text@.skip(i + 1), from@, to@)));
            i += 1;
        }
    }
    assert(text@.skip(i as int) =~= Seq::<char>::empty());
    assert(out@ + Seq::<char>::empty() =~= out@);
    out
}

/// Whether some character of `s` satisfies `p`.
pub open spec fn some_char(s: Seq<char>, p: spec_fn(char) -> bool) -> bool {
    exists|i: int| 0 <= i < s.len() && p(#[trigger] s[i])
}

/// Whether some character of a text satisfies `p`.
pub fn any_char<F: Fn(char) -> bool>(
    text: &str,
    test: F,
    Ghost(p): Ghost<spec_fn(char) -> bool>,
) -> (yes: bool)
    requires
        forall|c: char| #[trigger] test.requires((c,)),
        forall|c: char, b: bool| #[trigger] test.ensures((c,), b) ==> b == p(c),
    ensures
        yes == some_char(text@, p),
{
    let chars = chars_of(text);
    let mut i: usize = 0;
    while i < chars.len()
        invariant
            i <= chars.len(),
            chars@ == text@,
            forall|c: char| #[trigger] test.requires((c,)),
            forall|c: char, b: bool| #[trigger] test.ensures((c,), b) ==> b == p(c),
            forall|j: int| 0 <= j < i ==> !p(#[trigger] text@[j]),
        decreases chars.len() - i,
    {
        if test(chars[i]) {
            return true;
        }
        i += 1;
    }
    false
}

pub open spec fn not_empty() -> spec_fn(Seq<char>) -> bool {
    |s: Seq<char>| s.len() > 0
}

pub open spec fn trimming() -> spec_fn(Seq<char>) -> Seq<char> {
    |s: Seq<char>| trimmed(s)
}

/// Some texts, trimmed, without those that are then empty.
pub fn trim_all(texts: &Vec<String>) -> (out: Vec<String>)
    ensures
        out.deep_view() == texts.deep_view().map_values(trimming()).filter(not_empty()),
{
    let mut out: Vec<String> = Vec::new();
    let mut i: usize = 0;
    proof {
        reveal(Seq::filter);
    }
    assert(texts.deep_view().map_values(trimming()).take(0) =~= Seq::<Seq<char>>::empty());
    assert(out.deep_view() =~= Seq::<Seq<char>>::empty());
    while i < texts.len()
        invariant
            i <= texts.len(),
            out.deep_view() == texts.deep_view().map_values(trimming()).take(i as int).filter(
                not_empty(),
            ),
        decreases texts.len() - i,
    {
        proof {
            reveal(Seq::filter);
        }
        let ghost all = texts.deep_view().map_values(trimming());
        let ghost done = out.deep_view();
        assert(all.take(i + 1).drop_last() =~= all.take(i as int));
        let text = trim(texts[i].as_str());
        assert(all.take(i + 1).last() == text@);
        if !text.as_str().is_empty() {
            out.push(text);
            assert(out.deep_view() =~= done.push(text@));
        }
        i += 1;
    }
    assert(texts.deep_view().map_values(trimming()).take(i as int) =~= texts.deep_view().map_values(
        trimming(),
    ));
    out
}

/// The words of `s`: what stands between its white space.
pub open spec fn words_of(s: Seq<char>) -> Seq<Seq<char>> {
    pieces(s, is_white_fn()).filter(not_empty())
}

/// The words of a text.
pub fn words(text: &str) -> (out: Vec<String>)
    ensures
        out.deep_view() == words_of(text@),
{
    let here = |c: char| -> (b: bool)
        ensures
            b == is_white_fn()(c),
        { is_white(c) };
    let parts = split_where(text, &here, Ghost(is_white_fn()));
    let kept = |s: &String| -> (b: bool)
        ensures
            b == not_empty()(s.deep_view()),
        { !s.as_str().is_empty() };
    crate::table::select(&parts, &kept, Ghost(not_empty()))
}

/// The first line of `s` that is not blank, trimmed.
pub open spec fn line_of(s: Seq<char>) -> Option<Seq<char>> {
    crate::table::first_of(pieces(s, is_char('\n')).map_values(trimming()).filter(not_empty()))
}

/// The first line of a text that is not blank, trimmed.
pub fn first_line(value: &str) -> (line: Option<String>)
    ensures
        line.deep_view() == line_of(value@),
{
    let lines = split_at_char(value, '\n');
    let kept = trim_all(&lines);
    crate::table::head_row(&kept)
}

/// An ASCII letter in lower case; any other character as it is.
pub open spec fn lower(c: char) -> char {
    if 'A' <= c <= 'Z' {
        ((c as u32) + 32) as char
    } else {
        c
    }
}

pub open spec fn lower_fn() -> spec_fn(char) -> char {
    |c: char| lower(c)
}

pub(crate) fn to_lower(c: char) -> (out: char)
    ensures
        out == lower(c),
{
    if 'A' <= c && c <= 'Z' {
        ((c as u8) + 32) as char
    } else {
        c
    }
}

/// A text with its ASCII letters in lower case.
pub fn ascii_lower(text: &str) -> (out: String)
    ensures
        out@ == text@.map_values(lower_fn()),
{
    let chars = chars_of(text);
    let mut out: Vec<char> = Vec::new();
    let mut i: usize = 0;
    while i < chars.len()
        invariant
            i <= chars.len(),
            out.len() == i,
            forall|j: int| 0 <= j < i ==> #[trigger] out[j] == lower(chars[j]),
        decreases chars.len() - i,
    {
        out.push(to_lower(chars[i]));
        i += 1;
    }
    assert(out@ =~= chars@.map_values(lower_fn()));
    text_of(&out)
}

} // verus!

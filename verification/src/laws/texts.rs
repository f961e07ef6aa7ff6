//! Laws of texts: how they are cut, trimmed, ordered and put together, and how
//! numbers are written and read.

use crate::laws::memory::lemma_trimmed_already;
use crate::text::{
    decimal, digit, drop_leading, drop_trailing, is_white_fn, joined, precedes, trimmed, white,
};
use crate::web::media::{byte_range, is_digit, number_of, range_of, value_of};
use crate::words::{cut, first_at, is_char, lemma_cut_at, pieces, replaced, stands_at};
use vstd::prelude::*;

verus! {

/// Whether `s` stands in `whole` with nothing but white space around it.
pub open spec fn only_white_around(whole: Seq<char>, s: Seq<char>, i: int, j: int) -> bool {
    &&& 0 <= i <= j <= whole.len()
    &&& s == whole.subrange(i, j)
    &&& forall|k: int| 0 <= k < i ==> white(#[trigger] whole[k])
    &&& forall|k: int| j <= k < whole.len() ==> white(#[trigger] whole[k])
}

/// Where the text begins behind its white space.
pub proof fn lemma_leading(s: Seq<char>) -> (i: int)
    ensures
        0 <= i <= s.len(),
        drop_leading(s, is_white_fn()) == s.skip(i),
        forall|k: int| 0 <= k < i ==> white(#[trigger] s[k]),
        i < s.len() ==> !white(s[i]),
    decreases s.len(),
{
    if s.len() > 0 && white(s[0]) {
        let rest = s.drop_first();
        let i = lemma_leading(rest);
        assert(rest.skip(i) =~= s.skip(i + 1));
        assert forall|k: int| 0 <= k < i + 1 implies white(#[trigger] s[k]) by {
            if k > 0 {
                assert(rest[k - 1] == s[k]);
            }
        }
        i + 1
    } else {
        assert(s.skip(0) =~= s);
        0
    }
}

/// Where the text ends before its white space.
pub proof fn lemma_trailing(s: Seq<char>) -> (j: int)
    ensures
        0 <= j <= s.len(),
        drop_trailing(s, is_white_fn()) == s.take(j),
        forall|k: int| j <= k < s.len() ==> white(#[trigger] s[k]),
        j > 0 ==> !white(s[j - 1]),
    decreases s.len(),
{
    if s.len() > 0 && white(s.last()) {
        let rest = s.drop_last();
        let j = lemma_trailing(rest);
        assert(rest.take(j) =~= s.take(j));
        assert forall|k: int| j <= k < s.len() implies white(#[trigger] s[k]) by {
            if k < rest.len() {
                assert(rest[k] == s[k]);
            }
        }
        j
    } else {
        assert(s.take(s.len() as int) =~= s);
        s.len() as int
    }
}

/// Trimming takes away the white space at the two ends, all of it, and nothing
/// else.
pub proof fn law_trimming_takes_white_ends(s: Seq<char>)
    ensures
        exists|i: int, j: int| #[trigger] only_white_around(s, trimmed(s), i, j),
        trimmed(s).len() > 0 ==> !white(trimmed(s)[0]) && !white(trimmed(s).last()),
{
    let i = lemma_leading(s);
    let rest = s.skip(i);
    let j = lemma_trailing(rest);
    assert(trimmed(s) =~= s.subrange(i, i + j));
    assert forall|k: int| i + j <= k < s.len() implies white(#[trigger] s[k]) by {
        assert(rest[k - i] == s[k]);
    }
    assert(only_white_around(s, trimmed(s), i, i + j));
    if trimmed(s).len() > 0 {
        assert(rest[0] == s[i]);
        assert(trimmed(s)[0] == s[i]);
        assert(trimmed(s).last() == rest[j - 1]);
    }
}

/// A text that is trimmed to nothing is nothing but white space.
pub proof fn lemma_blank(s: Seq<char>)
    requires
        trimmed(s).len() == 0,
    ensures
        forall|k: int| 0 <= k < s.len() ==> white(#[trigger] s[k]),
{
    law_trimming_takes_white_ends(s);
    let (i, j) = choose|i: int, j: int| #[trigger] only_white_around(s, trimmed(s), i, j);
    assert(i == j);
}

/// No piece of a text holds what separates the pieces.
pub proof fn law_pieces_hold_no_separator(
    s: Seq<char>,
    p: spec_fn(char) -> bool,
    i: int,
    k: int,
)
    requires
        0 <= i < pieces(s, p).len(),
        0 <= k < pieces(s, p)[i].len(),
    ensures
        !p(pieces(s, p)[i][k]),
    decreases s.len(),
{
    lemma_some_piece(s, p);
    if s.len() > 0 {
        let before = pieces(s.drop_last(), p);
        lemma_some_piece(s.drop_last(), p);
        if i < pieces(s, p).len() - 1 {
            law_pieces_hold_no_separator(s.drop_last(), p, i, k);
        } else if !p(s.last()) && k < before.last().len() {
            law_pieces_hold_no_separator(s.drop_last(), p, i, k);
        }
    }
}

proof fn lemma_some_piece(s: Seq<char>, p: spec_fn(char) -> bool)
    ensures
        pieces(s, p).len() > 0,
    decreases s.len(),
{
    if s.len() > 0 {
        lemma_some_piece(s.drop_last(), p);
    }
}

/// The pieces of a text, with the separator between each two, make the text.
pub proof fn law_pieces_make_the_text(s: Seq<char>, c: char)
    ensures
        joined(pieces(s, is_char(c)), seq![c]) == s,
    decreases s.len(),
{
    let p = is_char(c);
    lemma_some_piece(s, p);
    if s.len() > 0 {
        let start = s.drop_last();
        let before = pieces(start, p);
        lemma_some_piece(start, p);
        law_pieces_make_the_text(start, c);
        let all = pieces(s, p);
        if p(s.last()) {
            assert(all.drop_last() =~= before);
            assert(joined(all, seq![c]) =~= s);
        } else {
            assert(all.drop_last() =~= before.drop_last());
            assert(all.last() == before.last().push(s.last()));
            assert(s =~= start.push(s.last()));
            if before.len() == 1 {
                assert(joined(all, seq![c]) == start.push(s.last()));
            } else {
                let front = joined(before.drop_last(), seq![c]) + seq![c];
                assert(start == front + before.last());
                assert(front + before.last().push(s.last()) =~= start.push(s.last()));
            }
        }
    }
}

/// A text is cut at the first place where the character stands; one without it is
/// not cut.
pub proof fn law_text_is_cut_once(s: Seq<char>, c: char)
    ensures
        cut(s, c) is Some <==> s.contains(c),
        cut(s, c) matches Some((before, after)) ==> s == before + seq![c] + after
            && !before.contains(c),
    decreases s.len(),
{
    if s.len() > 0 {
        let rest = s.drop_first();
        law_text_is_cut_once(rest, c);
        if s[0] == c {
            assert(s =~= Seq::<char>::empty() + seq![c] + rest);
        } else {
            assert(s =~= seq![s[0]] + rest);
            if rest.contains(c) {
                let k = rest.index_of(c);
                assert(s[k + 1] == c);
            }
            if s.contains(c) {
                let k = s.index_of(c);
                assert(rest[k - 1] == c);
            }
            if let Some((before, after)) = cut(rest, c) {
                assert(s =~= (seq![s[0]] + before) + seq![c] + after);
                if (seq![s[0]] + before).contains(c) {
                    let k = (seq![s[0]] + before).index_of(c);
                    assert(before[k - 1] == c);
                }
            }
        }
    }
}

/// What is searched for is found at the first place where it stands.
pub proof fn law_first_place_is_found(s: Seq<char>, sub: Seq<char>, from: int)
    requires
        0 <= from,
    ensures
        first_at(s, sub, from) matches Some(i) ==> i >= from && stands_at(s, i, sub) && forall|k: int|
            from <= k < i ==> !(#[trigger] stands_at(s, k, sub)),
        first_at(s, sub, from) is None ==> forall|k: int|
            from <= k ==> !(#[trigger] stands_at(s, k, sub)),
    decreases s.len() + 1 - from,
{
    if from + sub.len() <= s.len() && !stands_at(s, from, sub) {
        law_first_place_is_found(s, sub, from + 1);
    }
}

/// Replacing leaves what stands before the first occurrence, puts the new text in
/// its place, and goes on behind it; a text without an occurrence stays as it is.
pub proof fn law_occurrences_are_replaced(s: Seq<char>, from: Seq<char>, to: Seq<char>, i: int)
    requires
        from.len() > 0,
        0 <= i <= s.len(),
        forall|k: int| 0 <= k < i ==> !(#[trigger] stands_at(s, k, from)),
        i == s.len() || stands_at(s, i, from),
    ensures
        i == s.len() ==> replaced(s, from, to) == s,
        i < s.len() ==> replaced(s, from, to) == s.take(i) + to + replaced(
            s.skip(i + from.len()),
            from,
            to,
        ),
    decreases i,
{
    if i == 0 {
        assert(s.take(0) + to =~= to);
        assert(s.len() == 0 ==> replaced(s, from, to) == s);
    } else {
        let rest = s.skip(1);
        assert(!stands_at(s, 0, from));
        assert forall|k: int| 0 <= k < i - 1 implies !(#[trigger] stands_at(rest, k, from)) by {
            assert(!stands_at(s, k + 1, from));
            if stands_at(rest, k, from) {
                assert(s.subrange(k + 1, k + 1 + from.len()) =~= rest.subrange(
                    k,
                    k + from.len(),
                ));
            }
        }
        if i < s.len() {
            assert(rest.subrange(i - 1, i - 1 + from.len()) =~= s.subrange(i, i + from.len()));
        }
        law_occurrences_are_replaced(rest, from, to, i - 1);
        if i < s.len() {
            assert(rest.skip(i - 1 + from.len()) =~= s.skip(i + from.len()));
            assert(seq![s[0]] + (rest.take(i - 1) + to + replaced(
                s.skip(i + from.len()),
                from,
                to,
            )) =~= s.take(i) + to + replaced(s.skip(i + from.len()), from, to));
        } else {
            assert(seq![s[0]] + rest =~= s);
        }
    }
}

/// Of two texts the one comes first that has the smaller character where they first
/// differ, or that the other goes on from.
pub proof fn law_texts_are_ordered(common: Seq<char>, a: Seq<char>, b: Seq<char>)
    ensures
        a.len() > 0 && b.len() > 0 && a[0] != b[0] ==> precedes(common + a, common + b) == ((
        a[0] as int) < (b[0] as int)),
        precedes(common, common + b) == (b.len() > 0),
        !precedes(common + a, common),
    decreases common.len(),
{
    if common.len() == 0 {
        assert(common + a =~= a);
        assert(common + b =~= b);
    } else {
        let rest = common.drop_first();
        law_texts_are_ordered(rest, a, b);
        assert((common + a).drop_first() =~= rest + a);
        assert((common + b).drop_first() =~= rest + b);
    }
}

/// A number is written with digits, without zeros before it, and is read as it was
/// written.
pub proof fn law_number_is_read_back(n: u64)
    ensures
        number_of(decimal(n as nat)) == Some(n),
        decimal(n as nat).len() > 1 ==> decimal(n as nat)[0] != '0',
{
    lemma_digits(n as nat);
    assert(decimal(n as nat)[0] != '+');
}

/// What the decimal notation of a number is made of.
proof fn lemma_digits(n: nat)
    ensures
        decimal(n).len() > 0,
        forall|i: int| 0 <= i < decimal(n).len() ==> is_digit(#[trigger] decimal(n)[i]),
        value_of(decimal(n)) == n,
        n > 0 ==> decimal(n)[0] != '0',
    decreases n,
{
    if n < 10 {
        assert(decimal(n).drop_last() =~= Seq::<char>::empty());
        assert(value_of(Seq::<char>::empty()) == 0);
        assert(decimal(n).last() == digit(n));
    } else {
        lemma_digits(n / 10);
        assert(decimal(n).drop_last() =~= decimal(n / 10));
        assert(decimal(n).last() == digit(n % 10));
        assert(decimal(n)[0] == decimal(n / 10)[0]);
    }
}

/// The two ends of a range say which bytes are sent: from the first to the last one
/// that the file has; without a last one, to the end; without a first one, so many
/// from the end.
pub proof fn law_ends_of_a_range(first: u64, last: u64, total: u64)
    ensures
        range_of(decimal(first as nat), decimal(last as nat), total) == (if first <= last && first
            < total {
            Some(
                (
                    first,
                    if last < total {
                        last
                    } else {
                        (total - 1) as u64
                    },
                ),
            )
        } else {
            None
        }),
        range_of(decimal(first as nat), Seq::empty(), total) == (if first < total {
            Some((first, (total - 1) as u64))
        } else {
            None
        }),
        range_of(Seq::empty(), decimal(last as nat), total) == (if last > 0 && total > 0 {
            Some(
                (
                    if last < total {
                        (total - last) as u64
                    } else {
                        0
                    },
                    (total - 1) as u64,
                ),
            )
        } else {
            None
        }),
        range_of(Seq::empty(), Seq::empty(), total) is None,
{
    law_number_is_read_back(first);
    law_number_is_read_back(last);
    lemma_digits(first as nat);
    lemma_digits(last as nat);
}

/// A text without the separator is one piece.
proof fn lemma_one_piece(s: Seq<char>, c: char)
    requires
        !s.contains(c),
    ensures
        pieces(s, is_char(c)) == seq![s],
    decreases s.len(),
{
    if s.len() > 0 {
        assert(s.contains(s.last()));
        assert forall|i: int| 0 <= i < s.len() - 1 implies s.drop_last()[i] != c by {
            assert(s.contains(s[i]));
        }
        lemma_one_piece(s.drop_last(), c);
        assert(s =~= s.drop_last().push(s.last()));
        assert(seq![s.drop_last()].drop_last().push(s) =~= seq![s]);
        assert(pieces(s, is_char(c)) =~= seq![s]);
    } else {
        assert(s =~= Seq::<char>::empty());
    }
}

/// A range is asked for by its first and its last byte.
pub proof fn law_range_is_asked_for(first: u64, last: u64, total: u64)
    ensures
        byte_range(
            "bytes="@ + (decimal(first as nat) + seq!['-'] + decimal(last as nat)),
            total,
        ) == range_of(decimal(first as nat), decimal(last as nat), total),
{
    reveal_strlit("bytes=");
    lemma_digits(first as nat);
    lemma_digits(last as nat);
    let a = decimal(first as nat);
    let b = decimal(last as nat);
    let rest = a + seq!['-'] + b;
    let whole = "bytes="@ + rest;
    assert(whole[0] == 'b');
    assert(rest.last() == b.last());
    assert(whole.last() == b.last());
    lemma_trimmed_already(whole);
    assert(whole.skip("bytes="@.len() as int) =~= rest);
    assert("bytes="@.is_prefix_of(whole));
    assert(rest[0] == a[0]);
    lemma_trimmed_already(rest);
    assert forall|i: int| 0 <= i < rest.len() implies rest[i] != ',' by {
        if i < a.len() {
            assert(rest[i] == a[i]);
        } else if i > a.len() {
            assert(rest[i] == b[i - a.len() - 1]);
        }
    }
    lemma_one_piece(rest, ',');
    assert forall|j: int| 0 <= j < a.len() implies #[trigger] rest[j] != '-' by {
        assert(rest[j] == a[j]);
    }
    lemma_cut_at(rest, '-', a.len() as int);
    assert(rest.take(a.len() as int) =~= a);
    assert(rest.skip(a.len() as int + 1) =~= b);
}

} // verus!

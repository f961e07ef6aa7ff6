//! How much text a conversation holds.

use crate::state::db::{ConversationDb, DbModel};
use crate::state::turns::turn_of;
use crate::state::types::{
    QuestionExchange, QuestionExchangeModel, Turn, TurnFollowup, TurnFollowupModel, TurnModel,
};
use vstd::prelude::*;

verus! {

/// The sum of `f` over `s`.
pub open spec fn sum<V>(s: Seq<V>, f: spec_fn(V) -> nat) -> nat
    decreases s.len(),
{
    if s.len() == 0 {
        0
    } else {
        sum(s.drop_last(), f) + f(s.last())
    }
}

/// A part of a sum is no larger than the whole, and no item is.
pub proof fn lemma_sum_part<V>(s: Seq<V>, f: spec_fn(V) -> nat, i: int)
    requires
        0 <= i <= s.len(),
    ensures
        sum(s.take(i), f) <= sum(s, f),
        i < s.len() ==> sum(s.take(i), f) + f(s[i]) <= sum(s, f),
        i < s.len() ==> sum(s.take(i + 1), f) == sum(s.take(i), f) + f(s[i]),
    decreases s.len() - i,
{
    if i == s.len() {
        assert(s.take(i) =~= s);
    } else {
        lemma_sum_part(s, f, i + 1);
        assert(s.take(i + 1).drop_last() =~= s.take(i));
    }
}

fn sum_rows<R: DeepView, F: Fn(&R) -> usize>(
    rows: &Vec<R>,
    size: F,
    Ghost(f): Ghost<spec_fn(R::V) -> nat>,
) -> (total: usize)
    requires
        sum(rows.deep_view(), f) <= usize::MAX,
        forall|r: &R| f(r.deep_view()) <= usize::MAX ==> #[trigger] size.requires((r,)),
        forall|r: &R, n: usize| #[trigger] size.ensures((r,), n) ==> n == f(r.deep_view()),
    ensures
        total == sum(rows.deep_view(), f),
{
    let mut total: usize = 0;
    let mut i: usize = 0;
    assert(rows.deep_view().take(0) =~= Seq::<R::V>::empty());
    while i < rows.len()
        invariant
            i <= rows.len(),
            total == sum(rows.deep_view().take(i as int), f),
            sum(rows.deep_view(), f) <= usize::MAX,
            forall|r: &R| f(r.deep_view()) <= usize::MAX ==> #[trigger] size.requires((r,)),
            forall|r: &R, n: usize| #[trigger] size.ensures((r,), n) ==> n == f(r.deep_view()),
        decreases rows.len() - i,
    {
        proof {
            lemma_sum_part(rows.deep_view(), f, i as int);
            assert(rows.deep_view()[i as int] == rows[i as int].deep_view());
        }
        total = total + size(&rows[i]);
        i += 1;
    }
    assert(rows.deep_view().take(i as int) =~= rows.deep_view());
    total
}

/// The length of a text that may be missing.
pub open spec fn len_of(text: Option<Seq<char>>) -> nat {
    match text {
        Some(text) => text.len(),
        None => 0,
    }
}

fn text_len(text: &Option<String>) -> (n: usize)
    requires
        len_of(text.deep_view()) <= usize::MAX,
    ensures
        n == len_of(text.deep_view()),
{
    match text {
        Some(text) => text.as_str().unicode_len(),
        None => 0,
    }
}

pub open spec fn report_size() -> spec_fn(Seq<char>) -> nat {
    |r: Seq<char>| r.len()
}

pub open spec fn exchange_size() -> spec_fn(QuestionExchangeModel) -> nat {
    |e: QuestionExchangeModel| e.payload.len()
}

pub open spec fn followup_size() -> spec_fn(TurnFollowupModel) -> nat {
    |f: TurnFollowupModel|
        f.content.len() + len_of(f.preceding_assistant_content) + len_of(
            f.preceding_assistant_reasoning,
        )
}

/// How many characters a turn holds: of its prompt and reply, of what its tools
/// reported, of the questions that were asked in it, and of its follow-ups.
pub open spec fn turn_size() -> spec_fn(TurnModel) -> nat {
    |t: TurnModel|
        t.user_content.len() + t.assistant_content.len() + len_of(t.assistant_reasoning) + sum(
            t.tool_reports,
            report_size(),
        ) + sum(t.question_exchanges, exchange_size()) + sum(t.followups, followup_size())
}

/// How many characters a turn holds.
pub fn turn_chars(turn: &Turn) -> (n: usize)
    requires
        turn_size()(turn.deep_view()) <= usize::MAX,
    ensures
        n == turn_size()(turn.deep_view()),
{
    let report = |r: &String| -> (n: usize)
        ensures
            n == report_size()(r.deep_view()),
        { r.as_str().unicode_len() };
    let exchange = |e: &QuestionExchange| -> (n: usize)
        ensures
            n == exchange_size()(e.deep_view()),
        { e.payload.as_str().unicode_len() };
    let followup = |f: &TurnFollowup| -> (n: usize)
        requires
            followup_size()(f.deep_view()) <= usize::MAX,
        ensures
            n == followup_size()(f.deep_view()),
        {
            f.content.as_str().unicode_len() + text_len(&f.preceding_assistant_content) + text_len(
                &f.preceding_assistant_reasoning,
            )
        };
    turn.user_content.as_str().unicode_len() + turn.assistant_content.as_str().unicode_len()
        + text_len(&turn.assistant_reasoning) + sum_rows(
        &turn.tool_reports,
        &report,
        Ghost(report_size()),
    ) + sum_rows(&turn.question_exchanges, &exchange, Ghost(exchange_size())) + sum_rows(
        &turn.followups,
        &followup,
        Ghost(followup_size()),
    )
}

impl DbModel {
    /// How many characters the turns of a session hold.
    pub open spec fn total_chars(self, session_id: Seq<char>) -> nat {
        sum(self.turns_where(turn_of(session_id)), turn_size())
    }
}

impl ConversationDb {
    /// How many characters the turns of a session hold.
    pub fn total_chars(&self, session_id: &str) -> (n: usize)
        requires
            self@.total_chars(session_id@) <= usize::MAX,
        ensures
            n == self@.total_chars(session_id@),
    {
        let turns = self.load_turns(session_id);
        let size = |t: &Turn| -> (n: usize)
            requires
                turn_size()(t.deep_view()) <= usize::MAX,
            ensures
                n == turn_size()(t.deep_view()),
            { turn_chars(t) };
        sum_rows(&turns, &size, Ghost(turn_size()))
    }
}

} // verus!

//! Clearing sessions, and what a session has cost.

use crate::state::cascade::{item_of_sessions, turn_in_sessions};
use crate::state::checkpoint::item_of;
use crate::state::compact::item_of_kind;
use crate::state::db::{ConversationDb, DbModel};
use crate::state::error::{StateError, StateErrorKind, StateErrorModel};
use crate::state::rows::{
    BindingRow, BindingRowModel, LoadedItemRow, LoadedItemRowModel, QueuedPromptRow,
    QueuedPromptRowModel, SessionRow, SessionRowModel, TurnRow, TurnRowModel,
};
use crate::state::sessions::{prompt_of_session, USER_SESSION_KIND};
use crate::state::turns::{tally, turn_of};
use crate::state::types::{TurnTokens, TurnTokensModel};
use crate::table::{any, count, exists_row, map_rows, not, put, put_row, reject, select, Row};
use crate::text::{one_of, same, same_some, sat_add, trim, trimmed};
use crate::textset::{ascending, insert_text, insert_texts};
use vstd::prelude::*;

verus! {

pub open spec fn subagent_of(session_id: Seq<char>) -> spec_fn(SessionRowModel) -> bool {
    |r: SessionRowModel|
        r.record.parent_session_id == Some(session_id) && r.record.kind == "subagent"@
}

pub open spec fn subagent_among(ids: Seq<Seq<char>>) -> spec_fn(SessionRowModel) -> bool {
    |r: SessionRowModel| r.record.kind == "subagent"@ && ids.contains(r.record.session_id)
}

pub open spec fn prompt_of_sessions(ids: Seq<Seq<char>>) -> spec_fn(QueuedPromptRowModel) -> bool {
    |r: QueuedPromptRowModel| ids.contains(r.session_id)
}

pub open spec fn bound_on(session_id: Seq<char>, platform: Seq<char>) -> spec_fn(
    BindingRowModel,
) -> bool {
    |r: BindingRowModel| r.session_id == session_id && r.platform == platform
}

pub open spec fn item_name() -> spec_fn(LoadedItemRowModel) -> Seq<char> {
    |r: LoadedItemRowModel| r.name
}

pub open spec fn item_named(session_id: Seq<char>, kind: Seq<char>, name: Seq<char>) -> spec_fn(
    LoadedItemRowModel,
) -> bool {
    |r: LoadedItemRowModel| r.session_id == session_id && r.kind == kind && r.name == name
}

/// An item loaded once more. The turn that loaded it is kept unless another is
/// given.
pub open spec fn reloaded(source: Option<Seq<char>>, now: Seq<char>) -> spec_fn(
    LoadedItemRowModel,
) -> LoadedItemRowModel {
    |r: LoadedItemRowModel|
        LoadedItemRowModel {
            source_turn_id: match source {
                Some(turn_id) => Some(turn_id),
                None => r.source_turn_id,
            },
            updated_at: now,
            ..r
        }
}

/// The sum of some numbers, if it stays in range all the way.
pub open spec fn running_sum(numbers: Seq<i64>) -> Option<i64>
    decreases numbers.len(),
{
    if numbers.len() == 0 {
        Some(0)
    } else {
        match running_sum(numbers.drop_last()) {
            None => None,
            Some(sum) => {
                let next = sum + numbers.last();
                if i64::MIN <= next <= i64::MAX {
                    Some(next as i64)
                } else {
                    None
                }
            },
        }
    }
}

pub open spec fn turn_total() -> spec_fn(TurnRowModel) -> i64 {
    |r: TurnRowModel| r.token_total
}

pub open spec fn turn_prompt() -> spec_fn(TurnRowModel) -> i64 {
    |r: TurnRowModel| r.token_prompt
}

pub open spec fn turn_cache() -> spec_fn(TurnRowModel) -> i64 {
    |r: TurnRowModel| r.token_cache_read
}

pub open spec fn run_total() -> spec_fn(SessionRowModel) -> i64 {
    |r: SessionRowModel| r.total_tokens
}

/// The prompt of a subagent run; nothing where its cache use was not reported.
pub open spec fn run_prompt() -> spec_fn(SessionRowModel) -> i64 {
    |r: SessionRowModel|
        if r.cache_read_tokens is None {
            0
        } else {
            r.prompt_tokens
        }
}

pub open spec fn run_cache() -> spec_fn(SessionRowModel) -> i64 {
    |r: SessionRowModel|
        match r.cache_read_tokens {
            Some(n) => n,
            None => 0,
        }
}

/// The two sums together, unless one of them is out of range.
pub open spec fn both(turns: Option<i64>, runs: Option<i64>) -> Option<u64> {
    match (turns, runs) {
        (Some(a), Some(b)) => Some(tally(sat_add(a, b))),
        _ => None,
    }
}

impl DbModel {
    pub open spec fn reset(self, session_id: Seq<char>) -> DbModel {
        let cut = DbModel {
            queued_prompts: self.queued_prompts.filter(not(prompt_of_session(session_id))),
            ..self
        }.without_turns(turn_of(session_id));
        DbModel {
            loaded_items: cut.loaded_items.filter(not(item_of(session_id))),
            ..cut
        }.without_sessions(subagent_of(session_id))
    }

    pub open spec fn reset_history(self, session_id: Seq<char>) -> DbModel {
        let cut = self.without_turns(turn_of(session_id));
        DbModel { loaded_items: cut.loaded_items.filter(not(item_of(session_id))), ..cut }
    }

    /// A user session of a persona that is local or belongs to `platform`.
    pub open spec fn reset_root(
        self,
        persona: Seq<char>,
        platform: Seq<char>,
        r: SessionRowModel,
    ) -> bool {
        &&& r.record.persona == persona
        &&& r.record.kind == USER_SESSION_KIND@
        &&& !self.is_platform_session(r.record.session_id) || any(
            self.bindings,
            bound_on(r.record.session_id, platform),
        )
    }

    /// Whether a session of a persona descends, in at most `depth` steps, from
    /// a user session that is local or belongs to `platform`.
    pub open spec fn reset_target(
        self,
        persona: Seq<char>,
        platform: Seq<char>,
        id: Seq<char>,
        depth: nat,
    ) -> bool
        decreases depth,
    {
        ||| exists|i: int|
            0 <= i < self.sessions.len() && (#[trigger] self.sessions[i]).record.session_id == id
                && self.reset_root(persona, platform, self.sessions[i])
        ||| depth > 0 && exists|i: int|
            0 <= i < self.sessions.len() && (#[trigger] self.sessions[i]).record.session_id == id
                && self.sessions[i].record.persona == persona
                && self.sessions[i].record.parent_session_id is Some && self.reset_target(
                persona,
                platform,
                self.sessions[i].record.parent_session_id->0,
                (depth - 1) as nat,
            )
    }

    /// Whether a reset of a persona reaches a session.
    pub open spec fn in_reset(self, persona: Seq<char>, platform: Seq<char>, id: Seq<char>) -> bool {
        exists|depth: nat| self.reset_target(persona, platform, id, depth)
    }

    /// Whether `ids` are the sessions that a reset of a persona reaches, in
    /// order.
    pub open spec fn are_reset_ids(
        self,
        persona: Seq<char>,
        platform: Seq<char>,
        ids: Seq<Seq<char>>,
    ) -> bool {
        &&& ascending(ids)
        &&& forall|id: Seq<char>| #[trigger]
            ids.contains(id) <==> self.in_reset(persona, platform, id)
    }

    pub open spec fn contexts_reset(self, ids: Seq<Seq<char>>) -> DbModel {
        let cut = DbModel {
            queued_prompts: self.queued_prompts.filter(not(prompt_of_sessions(ids))),
            ..self
        }.without_turns(turn_in_sessions(ids));
        DbModel {
            loaded_items: cut.loaded_items.filter(not(item_of_sessions(ids))),
            ..cut
        }.without_sessions(subagent_among(ids))
    }

    /// What a session has cost: its turns, in view or not, and the subagent
    /// runs that it started.
    pub open spec fn token_totals(self, session_id: Seq<char>) -> Result<
        TurnTokensModel,
        StateErrorModel,
    > {
        let turns = self.turns.filter(turn_of(session_id));
        let runs = self.sessions.filter(subagent_of(session_id));
        match (
            both(
                running_sum(turns.map_values(turn_total())),
                running_sum(runs.map_values(run_total())),
            ),
            both(
                running_sum(turns.map_values(turn_prompt())),
                running_sum(runs.map_values(run_prompt())),
            ),
            both(
                running_sum(turns.map_values(turn_cache())),
                running_sum(runs.map_values(run_cache())),
            ),
        ) {
            (Some(total), Some(prompt), Some(cache_read)) => Ok(
                TurnTokensModel { total, prompt, cache_read },
            ),
            _ => Err(StateErrorModel::plain(StateErrorKind::OutOfRange)),
        }
    }

    pub open spec fn item_names(self, session_id: Seq<char>, kind: Seq<char>) -> Seq<Seq<char>> {
        self.loaded_items.filter(item_of_kind(session_id, kind)).map_values(item_name())
    }

    pub open spec fn with_item(
        self,
        session_id: Seq<char>,
        kind: Seq<char>,
        name: Seq<char>,
        source: Option<Seq<char>>,
        now: Seq<char>,
    ) -> DbModel {
        DbModel {
            loaded_items: put(
                self.loaded_items,
                item_named(session_id, kind, name),
                reloaded(source, now),
                LoadedItemRowModel {
                    session_id,
                    kind,
                    name,
                    source_turn_id: source,
                    created_at: now,
                    updated_at: now,
                },
            ),
            ..self
        }
    }

    /// The store after the first `n` names were loaded, and how many of them
    /// were not blank.
    pub open spec fn items_added(
        self,
        session_id: Seq<char>,
        kind: Seq<char>,
        names: Seq<Seq<char>>,
        source: Option<Seq<char>>,
        now: Seq<char>,
        n: nat,
    ) -> (DbModel, nat)
        decreases n,
    {
        if n == 0 {
            (self, 0)
        } else {
            let (db, added) = self.items_added(
                session_id,
                kind,
                names,
                source,
                now,
                (n - 1) as nat,
            );
            let name = trimmed(names[n - 1]);
            if name.len() == 0 {
                (db, added)
            } else {
                (db.with_item(session_id, kind, name, source, now), added + 1)
            }
        }
    }
}

fn is_subagent_of(r: &SessionRow, session_id: &str) -> (b: bool)
    ensures
        b == subagent_of(session_id@)(r.deep_view()),
{
    same_some(&r.record.parent_session_id, session_id) && same(r.record.kind.as_str(), "subagent")
}

fn sum(numbers: &Vec<i64>) -> (total: Option<i64>)
    ensures
        total == running_sum(numbers.deep_view()),
{
    let mut total: i64 = 0;
    let mut i: usize = 0;
    while i < numbers.len()
        invariant
            i <= numbers.len(),
            running_sum(numbers.deep_view().take(i as int)) == Some(total),
        decreases numbers.len() - i,
    {
        let ghost all = numbers.deep_view();
        assert(all.take(i + 1).drop_last() =~= all.take(i as int));
        assert(all.take(i + 1).last() == numbers[i as int]);
        match total.checked_add(numbers[i]) {
            Some(next) => {
                total = next;
            },
            None => {
                proof {
                    lemma_sum_lost(all, i + 1, all.len() as int);
                    assert(all.take(all.len() as int) =~= all);
                }
                return None;
            },
        }
        i += 1;
    }
    assert(numbers.deep_view().take(i as int) =~= numbers.deep_view());
    Some(total)
}

/// A sum that left its range does not come back.
proof fn lemma_sum_lost(numbers: Seq<i64>, i: int, j: int)
    requires
        0 <= i <= j <= numbers.len(),
        running_sum(numbers.take(i)) is None,
    ensures
        running_sum(numbers.take(j)) is None,
    decreases j - i,
{
    if i < j {
        lemma_sum_lost(numbers, i, j - 1);
        assert(numbers.take(j).drop_last() =~= numbers.take(j - 1));
    }
}

fn combine(turns: Option<i64>, runs: Option<i64>) -> (n: Option<u64>)
    ensures
        n == both(turns, runs),
{
    match (turns, runs) {
        (Some(a), Some(b)) => {
            let all: i64 = match a.checked_add(b) {
                Some(all) => all,
                None => if a > 0 {
                    i64::MAX
                } else {
                    i64::MIN
                },
            };
            if all < 0 {
                Some(0)
            } else {
                Some(all as u64)
            }
        },
        _ => None,
    }
}

impl ConversationDb {
    fn drop_items(&mut self, session_id: &str)
        ensures
            final(self)@ == (DbModel {
                loaded_items: old(self)@.loaded_items.filter(not(item_of(session_id@))),
                ..old(self)@
            }),
    {
        let item = |r: &LoadedItemRow| -> (b: bool)
            ensures
                b == item_of(session_id@)(r.deep_view()),
            { same(r.session_id.as_str(), session_id) };
        self.loaded_items = reject(&self.loaded_items, &item, Ghost(item_of(session_id@)));
    }

    /// Clears a session: its prompts, its turns, its items, and the audit
    /// sessions of the subagents that it started, which count toward its cost.
    pub fn reset(&mut self, session_id: &str)
        ensures
            final(self)@ == old(self)@.reset(session_id@),
    {
        let waiting = |r: &QueuedPromptRow| -> (b: bool)
            ensures
                b == prompt_of_session(session_id@)(r.deep_view()),
            { same(r.session_id.as_str(), session_id) };
        self.queued_prompts = reject(
            &self.queued_prompts,
            &waiting,
            Ghost(prompt_of_session(session_id@)),
        );
        self.drop_turns(session_id);
        self.drop_items(session_id);
        let run = |r: &SessionRow| -> (b: bool)
            ensures
                b == subagent_of(session_id@)(r.deep_view()),
            { is_subagent_of(r, session_id) };
        self.delete_sessions(&run, Ghost(subagent_of(session_id@)));
    }

    fn drop_turns(&mut self, session_id: &str)
        ensures
            final(self)@ == old(self)@.without_turns(turn_of(session_id@)),
    {
        let mine = |r: &TurnRow| -> (b: bool)
            ensures
                b == turn_of(session_id@)(r.deep_view()),
            { same(r.session_id.as_str(), session_id) };
        self.delete_turns(&mine, Ghost(turn_of(session_id@)));
    }

    /// Clears the turns and items of a session.
    pub fn reset_history(&mut self, session_id: &str)
        ensures
            final(self)@ == old(self)@.reset_history(session_id@),
    {
        self.drop_turns(session_id);
        self.drop_items(session_id);
    }

    fn is_reset_root(&self, r: &SessionRow, persona: &str, platform: &str) -> (b: bool)
        ensures
            b == self@.reset_root(persona@, platform@, r.deep_view()),
    {
        if !same(r.record.persona.as_str(), persona) || !same(
            r.record.kind.as_str(),
            USER_SESSION_KIND,
        ) {
            return false;
        }
        let session_id = r.record.session_id.as_str();
        let here = |b: &BindingRow| -> (yes: bool)
            ensures
                yes == bound_on(session_id@, platform@)(b.deep_view()),
            { same(b.session_id.as_str(), session_id) && same(b.platform.as_str(), platform) };
        !self.is_platform_session(session_id) || exists_row(
            &self.bindings,
            &here,
            Ghost(bound_on(session_id@, platform@)),
        )
    }

    fn reset_roots(&self, persona: &str, platform: &str) -> (ids: Vec<String>)
        ensures
            ascending(ids.deep_view()),
            forall|id: Seq<char>| #[trigger]
                ids.deep_view().contains(id) <==> self@.reset_target(persona@, platform@, id, 0),
    {
        let mut ids: Vec<String> = Vec::new();
        let mut i: usize = 0;
        while i < self.sessions.len()
            invariant
                i <= self.sessions.len(),
                ascending(ids.deep_view()),
                forall|id: Seq<char>| #[trigger]
                    ids.deep_view().contains(id) <==> exists|k: int|
                        0 <= k < i && (#[trigger] self@.sessions[k]).record.session_id == id
                            && self@.reset_root(persona@, platform@, self@.sessions[k]),
            decreases self.sessions.len() - i,
        {
            let ghost sofar = ids.deep_view();
            let row = &self.sessions[i];
            assert(self@.sessions[i as int] == row.deep_view());
            if self.is_reset_root(row, persona, platform) {
                insert_text(&mut ids, row.record.session_id.as_str());
                proof {
                    lemma_contains_to_set(ids.deep_view());
                    lemma_contains_to_set(sofar);
                }
            }
            i += 1;
        }
        ids
    }

    /// A session of a persona whose parent is in `ids` and that is not in it.
    fn missing_child(&self, persona: &str, ids: &Vec<String>) -> (found: Option<usize>)
        ensures
            match found {
                Some(i) => {
                    &&& 0 <= i < self@.sessions.len()
                    &&& self@.sessions[i as int].record.persona == persona@
                    &&& self@.sessions[i as int].record.parent_session_id matches Some(parent)
                    &&& ids.deep_view().contains(parent)
                    &&& !ids.deep_view().contains(self@.sessions[i as int].record.session_id)
                },
                None => forall|i: int|
                    0 <= i < self@.sessions.len() && (
                    #[trigger] self@.sessions[i]).record.persona == persona@
                        && self@.sessions[i].record.parent_session_id is Some
                        && ids.deep_view().contains(self@.sessions[i].record.parent_session_id->0)
                        ==> ids.deep_view().contains(self@.sessions[i].record.session_id),
            },
    {
        let mut i: usize = 0;
        while i < self.sessions.len()
            invariant
                i <= self.sessions.len(),
                forall|k: int|
                    0 <= k < i && (#[trigger] self@.sessions[k]).record.persona == persona@
                        && self@.sessions[k].record.parent_session_id is Some
                        && ids.deep_view().contains(self@.sessions[k].record.parent_session_id->0)
                        ==> ids.deep_view().contains(self@.sessions[k].record.session_id),
            decreases self.sessions.len() - i,
        {
            let row = &self.sessions[i];
            assert(self@.sessions[i as int] == row.deep_view());
            let child = match &row.record.parent_session_id {
                Some(parent) => one_of(ids, parent.as_str()),
                None => false,
            };
            if child && same(row.record.persona.as_str(), persona) && !one_of(
                ids,
                row.record.session_id.as_str(),
            ) {
                return Some(i);
            }
            i += 1;
        }
        None
    }

    /// The sessions that a reset of a persona reaches: its user sessions that
    /// are local or belong to `platform`, and what descends from them.
    pub fn persona_reset_session_ids(&self, persona: &str, platform: &str) -> (ids: Vec<String>)
        ensures
            self@.are_reset_ids(persona@, platform@, ids.deep_view()),
    {
        let mut ids = self.reset_roots(persona, platform);
        let ghost sessions = self@.sessions;
        proof {
            assert forall|id: Seq<char>| #[trigger] ids.deep_view().contains(id) implies self@.in_reset(
                persona@,
                platform@,
                id,
            ) by {
                assert(self@.reset_target(persona@, platform@, id, 0));
            }
        }
        loop
            invariant
                ascending(ids.deep_view()),
                sessions == self@.sessions,
                forall|id: Seq<char>| #[trigger]
                    ids.deep_view().contains(id) ==> self@.in_reset(persona@, platform@, id),
                forall|id: Seq<char>|
                    self@.reset_target(persona@, platform@, id, 0)
                        ==> #[trigger] ids.deep_view().contains(id),
            ensures
                forall|i: int|
                    0 <= i < sessions.len() && (#[trigger] sessions[i]).record.persona == persona@
                        && sessions[i].record.parent_session_id is Some
                        && ids.deep_view().contains(sessions[i].record.parent_session_id->0)
                        ==> ids.deep_view().contains(sessions[i].record.session_id),
            decreases count(sessions, outside(ids.deep_view())),
        {
            let i: usize = match self.missing_child(persona, &ids) {
                Some(i) => i,
                None => break,
            };
            let ghost sofar = ids.deep_view();
            let row = &self.sessions[i];
            assert(sessions[i as int] == row.deep_view());
            insert_text(&mut ids, row.record.session_id.as_str());
            proof {
                lemma_contains_to_set(ids.deep_view());
                lemma_contains_to_set(sofar);
                let added = sessions[i as int].record.session_id;
                let parent = sessions[i as int].record.parent_session_id->0;
                assert(sofar.contains(parent));
                let depth = choose|depth: nat|
                    self@.reset_target(persona@, platform@, parent, depth);
                assert(self@.reset_target(persona@, platform@, added, depth + 1));
                assert(self@.in_reset(persona@, platform@, added));
                lemma_count_less(
                    sessions,
                    outside(sofar),
                    outside(ids.deep_view()),
                    i as int,
                );
            }
        }
        proof {
            assert forall|id: Seq<char>| self@.in_reset(persona@, platform@, id) implies
                #[trigger] ids.deep_view().contains(id) by {
                let depth = choose|depth: nat| self@.reset_target(persona@, platform@, id, depth);
                self@.lemma_closed_holds_targets(persona@, platform@, ids.deep_view(), id, depth);
            }
        }
        ids
    }

    /// Clears the conversations of a persona, and names the sessions that were
    /// cleared.
    pub fn reset_persona_contexts(&mut self, persona: &str, platform: &str) -> (ids: Vec<String>)
        ensures
            old(self)@.are_reset_ids(persona@, platform@, ids.deep_view()),
            final(self)@ == old(self)@.contexts_reset(ids.deep_view()),
    {
        let ids = self.persona_reset_session_ids(persona, platform);
        let waiting = |r: &QueuedPromptRow| -> (b: bool)
            ensures
                b == prompt_of_sessions(ids.deep_view())(r.deep_view()),
            { one_of(&ids, r.session_id.as_str()) };
        self.queued_prompts = reject(
            &self.queued_prompts,
            &waiting,
            Ghost(prompt_of_sessions(ids.deep_view())),
        );
        let turn = |r: &TurnRow| -> (b: bool)
            ensures
                b == turn_in_sessions(ids.deep_view())(r.deep_view()),
            { one_of(&ids, r.session_id.as_str()) };
        self.delete_turns(&turn, Ghost(turn_in_sessions(ids.deep_view())));
        let item = |r: &LoadedItemRow| -> (b: bool)
            ensures
                b == item_of_sessions(ids.deep_view())(r.deep_view()),
            { one_of(&ids, r.session_id.as_str()) };
        self.loaded_items = reject(
            &self.loaded_items,
            &item,
            Ghost(item_of_sessions(ids.deep_view())),
        );
        let run = |r: &SessionRow| -> (b: bool)
            ensures
                b == subagent_among(ids.deep_view())(r.deep_view()),
            {
                same(r.record.kind.as_str(), "subagent") && one_of(
                    &ids,
                    r.record.session_id.as_str(),
                )
            };
        self.delete_sessions(&run, Ghost(subagent_among(ids.deep_view())));
        ids
    }

    /// What a session has cost over its whole life.
    pub fn session_token_total(&self, session_id: &str) -> (result: Result<u64, StateError>)
        ensures
            match self@.token_totals(session_id@) {
                Ok(tokens) => result == Ok::<u64, StateError>(tokens.total),
                Err(error) => result matches Err(got) && got@ == error,
            },
    {
        match self.session_token_totals(session_id) {
            Ok(tokens) => Ok(tokens.total),
            Err(error) => Err(error),
        }
    }

    /// What a session has cost over its whole life, with the prompt and the
    /// part of it that came from the cache.
    pub fn session_token_totals(&self, session_id: &str) -> (result: Result<
        TurnTokens,
        StateError,
    >)
        ensures
            match self@.token_totals(session_id@) {
                Ok(tokens) => result matches Ok(got) && got.deep_view() == tokens,
                Err(error) => result matches Err(got) && got@ == error,
            },
    {
        let mine = |r: &TurnRow| -> (b: bool)
            ensures
                b == turn_of(session_id@)(r.deep_view()),
            { same(r.session_id.as_str(), session_id) };
        let turns = select(&self.turns, &mine, Ghost(turn_of(session_id@)));
        let run = |r: &SessionRow| -> (b: bool)
            ensures
                b == subagent_of(session_id@)(r.deep_view()),
            { is_subagent_of(r, session_id) };
        let runs = select(&self.sessions, &run, Ghost(subagent_of(session_id@)));
        let t_total = |r: &TurnRow| -> (n: i64)
            ensures
                n.deep_view() == turn_total()(r.deep_view()),
            { r.token_total };
        let t_prompt = |r: &TurnRow| -> (n: i64)
            ensures
                n.deep_view() == turn_prompt()(r.deep_view()),
            { r.token_prompt };
        let t_cache = |r: &TurnRow| -> (n: i64)
            ensures
                n.deep_view() == turn_cache()(r.deep_view()),
            { r.token_cache_read };
        let r_total = |r: &SessionRow| -> (n: i64)
            ensures
                n.deep_view() == run_total()(r.deep_view()),
            { r.total_tokens };
        let r_prompt = |r: &SessionRow| -> (n: i64)
            ensures
                n.deep_view() == run_prompt()(r.deep_view()),
            {
                if r.cache_read_tokens.is_none() {
                    0
                } else {
                    r.prompt_tokens
                }
            };
        let r_cache = |r: &SessionRow| -> (n: i64)
            ensures
                n.deep_view() == run_cache()(r.deep_view()),
            {
                match r.cache_read_tokens {
                    Some(n) => n,
                    None => 0,
                }
            };
        let total = combine(
            sum(&map_rows(&turns, &t_total, Ghost(turn_total()))),
            sum(&map_rows(&runs, &r_total, Ghost(run_total()))),
        );
        let prompt = combine(
            sum(&map_rows(&turns, &t_prompt, Ghost(turn_prompt()))),
            sum(&map_rows(&runs, &r_prompt, Ghost(run_prompt()))),
        );
        let cache_read = combine(
            sum(&map_rows(&turns, &t_cache, Ghost(turn_cache()))),
            sum(&map_rows(&runs, &r_cache, Ghost(run_cache()))),
        );
        match (total, prompt, cache_read) {
            (Some(total), Some(prompt), Some(cache_read)) => Ok(
                TurnTokens { total, prompt, cache_read },
            ),
            _ => Err(StateError::plain(StateErrorKind::OutOfRange)),
        }
    }

    /// The names of a session's items of a kind, as an ascending list.
    pub fn load_session_loaded_items(&self, session_id: &str, kind: &str) -> (names: Vec<String>)
        ensures
            ascending(names.deep_view()),
            names.deep_view().to_set() == self@.item_names(session_id@, kind@).to_set(),
    {
        let mine = |r: &LoadedItemRow| -> (b: bool)
            ensures
                b == item_of_kind(session_id@, kind@)(r.deep_view()),
            { same(r.session_id.as_str(), session_id) && same(r.kind.as_str(), kind) };
        let rows = select(&self.loaded_items, &mine, Ghost(item_of_kind(session_id@, kind@)));
        let name = |r: &LoadedItemRow| -> (s: String)
            ensures
                s.deep_view() == item_name()(r.deep_view()),
            { r.name.clone() };
        let all = map_rows(&rows, &name, Ghost(item_name()));
        let mut names: Vec<String> = Vec::new();
        insert_texts(&mut names, &all);
        assert(names.deep_view().to_set() =~= all.deep_view().to_set());
        names
    }

    fn add_item(
        &mut self,
        session_id: &str,
        kind: &str,
        name: &str,
        source_turn_id: Option<&str>,
        now: &str,
    )
        ensures
            final(self)@ == old(self)@.with_item(
                session_id@,
                kind@,
                name@,
                source_turn_id.deep_view(),
                now@,
            ),
    {
        let this = |r: &LoadedItemRow| -> (b: bool)
            ensures
                b == item_named(session_id@, kind@, name@)(r.deep_view()),
            {
                same(r.session_id.as_str(), session_id) && same(r.kind.as_str(), kind) && same(
                    r.name.as_str(),
                    name,
                )
            };
        let reload = |r: &LoadedItemRow| -> (n: LoadedItemRow)
            ensures
                n.deep_view() == reloaded(source_turn_id.deep_view(), now@)(r.deep_view()),
            {
                let mut n = r.dup();
                if let Some(turn_id) = source_turn_id {
                    n.source_turn_id = Some(turn_id.to_owned());
                }
                n.updated_at = now.to_owned();
                n
            };
        let row = LoadedItemRow {
            session_id: session_id.to_owned(),
            kind: kind.to_owned(),
            name: name.to_owned(),
            source_turn_id: match source_turn_id {
                Some(turn_id) => Some(turn_id.to_owned()),
                None => None,
            },
            created_at: now.to_owned(),
            updated_at: now.to_owned(),
        };
        put_row(
            &mut self.loaded_items,
            &this,
            &reload,
            row,
            Ghost(item_named(session_id@, kind@, name@)),
            Ghost(reloaded(source_turn_id.deep_view(), now@)),
        );
    }

    /// Notes that a session has loaded items of a kind, and says how many names
    /// were not blank.
    pub fn add_session_loaded_items(
        &mut self,
        session_id: &str,
        kind: &str,
        names: &Vec<String>,
        source_turn_id: Option<&str>,
        now: &str,
    ) -> (affected: usize)
        ensures
            (final(self)@, affected as nat) == old(self)@.items_added(
                session_id@,
                kind@,
                names.deep_view(),
                source_turn_id.deep_view(),
                now@,
                names.len() as nat,
            ),
    {
        let ghost start = self@;
        let mut affected: usize = 0;
        let mut i: usize = 0;
        while i < names.len()
            invariant
                i <= names.len(),
                affected <= i,
                start == old(self)@,
                (self@, affected as nat) == start.items_added(
                    session_id@,
                    kind@,
                    names.deep_view(),
                    source_turn_id.deep_view(),
                    now@,
                    i as nat,
                ),
            decreases names.len() - i,
        {
            assert(names.deep_view()[i as int] == names[i as int]@);
            let name = trim(names[i].as_str());
            if !name.as_str().is_empty() {
                self.add_item(session_id, kind, name.as_str(), source_turn_id, now);
                affected += 1;
            }
            i += 1;
        }
        affected
    }
}

/// A session that is not in `ids`.
pub open spec fn outside(ids: Seq<Seq<char>>) -> spec_fn(SessionRowModel) -> bool {
    |r: SessionRowModel| !ids.contains(r.record.session_id)
}

proof fn lemma_contains_to_set(s: Seq<Seq<char>>)
    ensures
        forall|t: Seq<char>| #[trigger] s.contains(t) <==> s.to_set().contains(t),
{
}

/// Fewer items satisfy a stronger predicate that drops one of them.
proof fn lemma_count_less(
    s: Seq<SessionRowModel>,
    p: spec_fn(SessionRowModel) -> bool,
    q: spec_fn(SessionRowModel) -> bool,
    at: int,
)
    requires
        0 <= at < s.len(),
        p(s[at]),
        !q(s[at]),
        forall|i: int| 0 <= i < s.len() && q(#[trigger] s[i]) ==> p(s[i]),
    ensures
        count(s, q) < count(s, p),
    decreases s.len(),
{
    reveal(Seq::filter);
    let rest = s.drop_last();
    if at == s.len() - 1 {
        lemma_count_not_more(rest, p, q);
    } else {
        lemma_count_less(rest, p, q, at);
        assert(q(s[s.len() - 1]) ==> p(s[s.len() - 1]));
    }
}

/// No more items satisfy a stronger predicate.
proof fn lemma_count_not_more(
    s: Seq<SessionRowModel>,
    p: spec_fn(SessionRowModel) -> bool,
    q: spec_fn(SessionRowModel) -> bool,
)
    requires
        forall|i: int| 0 <= i < s.len() && q(#[trigger] s[i]) ==> p(s[i]),
    ensures
        count(s, q) <= count(s, p),
    decreases s.len(),
{
    reveal(Seq::filter);
    if s.len() > 0 {
        lemma_count_not_more(s.drop_last(), p, q);
        assert(q(s[s.len() - 1]) ==> p(s[s.len() - 1]));
    }
}

impl DbModel {
    /// A list that holds the roots, and every child of what it holds, holds
    /// every target.
    proof fn lemma_closed_holds_targets(
        self,
        persona: Seq<char>,
        platform: Seq<char>,
        ids: Seq<Seq<char>>,
        id: Seq<char>,
        depth: nat,
    )
        requires
            self.reset_target(persona, platform, id, depth),
            forall|t: Seq<char>|
                self.reset_target(persona, platform, t, 0) ==> #[trigger] ids.contains(t),
            forall|i: int|
                0 <= i < self.sessions.len() && (#[trigger] self.sessions[i]).record.persona
                    == persona && self.sessions[i].record.parent_session_id is Some && ids.contains(
                    self.sessions[i].record.parent_session_id->0,
                ) ==> ids.contains(self.sessions[i].record.session_id),
        ensures
            ids.contains(id),
        decreases depth,
    {
        if self.reset_target(persona, platform, id, 0) {
        } else {
            let i = choose|i: int|
                0 <= i < self.sessions.len() && (#[trigger] self.sessions[i]).record.session_id
                    == id && self.sessions[i].record.persona == persona
                    && self.sessions[i].record.parent_session_id is Some && self.reset_target(
                    persona,
                    platform,
                    self.sessions[i].record.parent_session_id->0,
                    (depth - 1) as nat,
                );
            self.lemma_closed_holds_targets(
                persona,
                platform,
                ids,
                self.sessions[i].record.parent_session_id->0,
                (depth - 1) as nat,
            );
        }
    }
}

} // verus!

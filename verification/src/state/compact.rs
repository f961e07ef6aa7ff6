//! Making room: summaries, pruned tool reports, evicted turns, and undo.

use crate::json::{encode_strings, json_strings, strings_of, strings_or_none};
use crate::state::cascade::turn_id_of;
use crate::state::db::{outcome, ConversationDb, DbModel};
use crate::state::error::{StateError, StateErrorKind, StateErrorModel};
use crate::state::redo::{same_texts, with_turn_id};
use crate::state::rows::{
    EvictedRow, EvictedRowModel, LoadedItemRow, LoadedItemRowModel, TurnRow, TurnRowModel,
};
use crate::state::sessions::{by_seq, plain_turn, sort_by_seq};
use crate::state::turns::{visible_summary, visible_turn};
use crate::state::types::{
    ChatMessageModel, EvictedTurn, EvictedTurnModel, PruneStats, ToolFlowRoundModel, Turn,
    TurnModel, TurnTokens, TurnTokensModel,
};
use crate::table::{
    any, append, change_where, count, count_rows, exists_row, last_of, last_row, limit, limited,
    map_rows, not, order_by, reject, select, sorted, update, Row,
};
use crate::text::{
    before,
    byte_len,
    decimal,
    decimal_text,
    is_blank,
    one_of,
    precedes,
    same,
    same_some,
    trimmed,
};
use vstd::prelude::*;

verus! {

/// Tool reports shorter than this are never pruned.
pub const MIN_PRUNE_BYTES: usize = 1024;

pub open spec fn turn_up_to(session_id: Seq<char>, seq: i64) -> spec_fn(TurnRowModel) -> bool {
    |r: TurnRowModel| r.session_id == session_id && r.seq <= seq
}

pub open spec fn set_hidden(hidden: bool) -> spec_fn(TurnRowModel) -> TurnRowModel {
    |r: TurnRowModel| TurnRowModel { hidden, ..r }
}

/// A summary that stands at `seq`.
pub open spec fn summary_row(
    turn_id: Seq<char>,
    session_id: Seq<char>,
    seq: i64,
    summary: Seq<char>,
    tokens: TurnTokensModel,
    estimated: bool,
    now: Seq<char>,
) -> TurnRowModel {
    TurnRowModel {
        turn_id,
        session_id,
        seq,
        user_content: "[conversation summary]"@,
        display_content: Seq::empty(),
        user_timestamp: now,
        assistant_content: summary,
        assistant_reasoning: None,
        assistant_provider_id: None,
        assistant_model: None,
        assistant_timestamp: Some(now),
        status: "completed"@,
        tool_reports: "[]"@,
        tool_reports_archive: None,
        tool_flow: Seq::empty(),
        hidden: false,
        is_summary: true,
        owner_pid: None,
        queue_session_id: None,
        token_total: tokens.total as i64,
        token_prompt: tokens.prompt as i64,
        token_cache_read: tokens.cache_read as i64,
        token_usage_estimated: estimated,
        revision: 0,
        context_messages: Seq::empty(),
        replay_journal: None,
        compact_reversible: false,
        compact_parent_summary_seq: None,
        compact_hidden_json: None,
        tool_footprint: None,
    }
}

/// A turn in view that is one of `ids`.
pub open spec fn visible_among(session_id: Seq<char>, ids: Seq<Seq<char>>) -> spec_fn(
    TurnRowModel,
) -> bool {
    |r: TurnRowModel| visible_turn(session_id)(r) && ids.contains(r.turn_id)
}

/// A turn out of view that is one of `ids`.
pub open spec fn hidden_among(session_id: Seq<char>, ids: Seq<Seq<char>>) -> spec_fn(
    TurnRowModel,
) -> bool {
    |r: TurnRowModel| r.session_id == session_id && r.hidden && ids.contains(r.turn_id)
}

/// `first`, and then what of `second` is not in it, without repetitions.
pub open spec fn united(first: Seq<Seq<char>>, second: Seq<Seq<char>>) -> Seq<Seq<char>>
    decreases second.len(),
{
    if second.len() == 0 {
        first
    } else {
        let rest = united(first, second.drop_last());
        if rest.contains(second.last()) {
            rest
        } else {
            rest.push(second.last())
        }
    }
}

/// What a summary without a list of its own hides: the turns since the summary
/// before it, and that summary.
pub open spec fn hidden_since(session_id: Seq<char>, parent: Option<i64>, seq: i64) -> spec_fn(
    TurnRowModel,
) -> bool {
    |r: TurnRowModel|
        {
            &&& r.session_id == session_id
            &&& r.hidden
            &&& r.seq < seq
            &&& match parent {
                Some(parent) => r.seq == parent || (!r.is_summary && r.seq > parent),
                None => !r.is_summary,
            }
        }
}

pub open spec fn visible_running(session_id: Seq<char>) -> spec_fn(TurnRowModel) -> bool {
    |r: TurnRowModel| visible_turn(session_id)(r) && r.status == "running"@
}

pub open spec fn completed_plain(session_id: Seq<char>) -> spec_fn(TurnRowModel) -> bool {
    |r: TurnRowModel| plain_turn(session_id)(r) && r.status == "completed"@
}

/// `a + b`, or the largest number where that does not fit.
pub open spec fn add_up(a: usize, b: usize) -> usize {
    if a + b > usize::MAX {
        usize::MAX
    } else {
        (a + b) as usize
    }
}

/// `a - b`, or 0.
pub open spec fn take_off(a: usize, b: usize) -> usize {
    if a < b {
        0
    } else {
        (a - b) as usize
    }
}

/// The bytes of some texts together.
pub open spec fn total_bytes(texts: Seq<Seq<char>>) -> usize
    decreases texts.len(),
{
    if texts.len() == 0 {
        0
    } else {
        add_up(total_bytes(texts.drop_last()), byte_len(texts.last()))
    }
}

/// What stands for `n` pruned tool reports.
pub open spec fn pruned_note(n: nat) -> Seq<char> {
    "["@ + decimal(n)
        + " 条旧工具记录已折叠以释放上下文 — 原文已归档；需要该数据时请重新调用工具 / "@
        + decimal(n)
        + " old tool report(s) elided to free context — re-run the tool if the data is needed again]"@
}

/// A turn whose tool reports have not been pruned and are worth it.
pub open spec fn prunable() -> spec_fn(TurnRowModel) -> bool {
    |r: TurnRowModel|
        {
            &&& r.tool_reports_archive is None
            &&& strings_or_none(r.tool_reports).len() > 0
            &&& total_bytes(strings_or_none(r.tool_reports)) >= MIN_PRUNE_BYTES
        }
}

/// What pruning a turn saves.
pub open spec fn prune_saving(r: TurnRowModel) -> usize {
    let reports = strings_or_none(r.tool_reports);
    take_off(total_bytes(reports), byte_len(pruned_note(reports.len())))
}

/// What pruning some turns saves together.
pub open spec fn prune_savings(turns: Seq<TurnRowModel>) -> usize
    decreases turns.len(),
{
    if turns.len() == 0 {
        0
    } else {
        add_up(prune_savings(turns.drop_last()), prune_saving(turns.last()))
    }
}

/// A turn with its tool reports pruned and the original kept beside them.
pub open spec fn pruned() -> spec_fn(TurnRowModel) -> TurnRowModel {
    |r: TurnRowModel|
        TurnRowModel {
            tool_reports_archive: Some(r.tool_reports),
            tool_reports: json_strings(
                seq![pruned_note(strings_or_none(r.tool_reports).len())],
            ),
            ..r
        }
}

pub open spec fn turn_among(session_id: Seq<char>, ids: Seq<Seq<char>>) -> spec_fn(
    TurnRowModel,
) -> bool {
    |r: TurnRowModel| r.session_id == session_id && ids.contains(r.turn_id)
}

/// A turn that may be popped from the conversation.
pub open spec fn poppable(session_id: Seq<char>, turn_id: Seq<char>) -> spec_fn(
    TurnRowModel,
) -> bool {
    |r: TurnRowModel|
        r.turn_id == turn_id && plain_turn(session_id)(r) && r.status != "running"@
}

pub open spec fn loaded_by(session_id: Seq<char>, turn_id: Seq<char>) -> spec_fn(
    LoadedItemRowModel,
) -> bool {
    |r: LoadedItemRowModel| r.session_id == session_id && r.source_turn_id == Some(turn_id)
}

pub open spec fn item_of_kind(session_id: Seq<char>, kind: Seq<char>) -> spec_fn(
    LoadedItemRowModel,
) -> bool {
    |r: LoadedItemRowModel| r.session_id == session_id && r.kind == kind
}

pub open spec fn by_item_name() -> spec_fn(LoadedItemRowModel, LoadedItemRowModel) -> bool {
    |a: LoadedItemRowModel, b: LoadedItemRowModel| precedes(a.name, b.name)
}

pub open spec fn name_and_source() -> spec_fn(LoadedItemRowModel) -> (
    Seq<char>,
    Option<Seq<char>>,
) {
    |r: LoadedItemRowModel| (r.name, r.source_turn_id)
}

pub open spec fn evicted_from(source_id: Seq<char>) -> spec_fn(EvictedRowModel) -> bool {
    |r: EvictedRowModel| r.turn.source_id == source_id
}

/// The archive with turns put into it, each only where it is not there yet.
pub open spec fn archived(
    archive: Seq<EvictedRowModel>,
    turns: Seq<EvictedTurnModel>,
    now: Seq<char>,
) -> Seq<EvictedRowModel>
    decreases turns.len(),
{
    if turns.len() == 0 {
        archive
    } else {
        let rest = archived(archive, turns.drop_last(), now);
        if any(rest, evicted_from(turns.last().source_id)) {
            rest
        } else {
            rest.push(EvictedRowModel { turn: turns.last(), created_at: now })
        }
    }
}

impl DbModel {
    /// The place of a session's next turn, unless there is none left.
    pub open spec fn next_seq(self, session_id: Seq<char>) -> Option<i64> {
        let last = self.latest_turn_seq(session_id);
        if last == i64::MAX {
            None
        } else {
            Some((last + 1) as i64)
        }
    }

    pub open spec fn has_turn(self, turn_id: Seq<char>) -> bool {
        any(self.turns, with_turn_id(turn_id))
    }

    pub open spec fn with_turn(self, row: TurnRowModel) -> DbModel {
        DbModel { turns: self.turns.push(row), ..self }
    }

    pub open spec fn hide_turns_before_seq(self, session_id: Seq<char>, seq: i64) -> (DbModel, nat) {
        (
            DbModel {
                turns: change_where(self.turns, turn_up_to(session_id, seq), set_hidden(true)),
                ..self
            },
            count(self.turns, turn_up_to(session_id, seq)),
        )
    }

    pub open spec fn insert_summary_turn(
        self,
        session_id: Seq<char>,
        summary: Seq<char>,
        tokens: TurnTokensModel,
        estimated: bool,
        turn_id: Seq<char>,
        now: Seq<char>,
    ) -> Result<(DbModel, ()), StateErrorModel> {
        match self.next_seq(session_id) {
            None => Err(StateErrorModel::plain(StateErrorKind::OutOfRange)),
            Some(seq) => if self.has_turn(turn_id) {
                Err(StateErrorModel::about(StateErrorKind::UniqueViolation, turn_id))
            } else {
                Ok(
                    (
                        self.with_turn(
                            summary_row(
                                turn_id,
                                session_id,
                                seq,
                                summary,
                                tokens,
                                estimated,
                                now,
                            ),
                        ),
                        (),
                    ),
                )
            },
        }
    }

    pub open spec fn visible_ids(self, session_id: Seq<char>) -> Seq<Seq<char>> {
        order_by(self.turns.filter(visible_turn(session_id)), by_seq()).map_values(turn_id_of())
    }

    /// The ids of the summaries in view.
    pub open spec fn summary_ids(self, session_id: Seq<char>) -> Seq<Seq<char>> {
        self.turns.filter(visible_summary(session_id)).map_values(turn_id_of())
    }

    /// The place of the summary in view.
    pub open spec fn summary_seq(self, session_id: Seq<char>) -> Option<i64> {
        match last_of(order_by(self.turns.filter(visible_summary(session_id)), by_seq())) {
            Some(turn) => Some(turn.seq),
            None => None,
        }
    }

    /// Whether the list of turns that a summary hides reads back as it was
    /// written.
    pub open spec fn folds_reversibly(
        self,
        session_id: Seq<char>,
        fold_turn_ids: Seq<Seq<char>>,
    ) -> bool {
        let ids = united(fold_turn_ids, self.summary_ids(session_id));
        strings_or_none(json_strings(ids)) == ids
    }

    pub open spec fn replace_visible_with_summary(
        self,
        session_id: Seq<char>,
        fold_turn_ids: Seq<Seq<char>>,
        visible_turn_ids: Seq<Seq<char>>,
        summary: Seq<char>,
        tokens: TurnTokensModel,
        estimated: bool,
        footprint_json: Option<Seq<char>>,
        turn_id: Seq<char>,
        now: Seq<char>,
    ) -> Result<(DbModel, ()), StateErrorModel> {
        let ids = united(fold_turn_ids, self.summary_ids(session_id));
        if trimmed(summary).len() == 0 {
            Err(StateErrorModel::plain(StateErrorKind::EmptySummary))
        } else if fold_turn_ids.len() == 0 {
            Err(StateErrorModel::plain(StateErrorKind::NothingToFold))
        } else if self.visible_ids(session_id) != visible_turn_ids {
            Err(StateErrorModel::plain(StateErrorKind::CompactConversationChanged))
        } else if !any(self.turns, visible_among(session_id, ids)) {
            Err(StateErrorModel::plain(StateErrorKind::CompactNotSaved))
        } else {
            match self.next_seq(session_id) {
                None => Err(StateErrorModel::plain(StateErrorKind::OutOfRange)),
                Some(seq) => if self.has_turn(turn_id) {
                    Err(StateErrorModel::about(StateErrorKind::UniqueViolation, turn_id))
                } else {
                    Ok(
                        (
                            DbModel {
                                turns: change_where(
                                    self.turns,
                                    visible_among(session_id, ids),
                                    set_hidden(true),
                                ),
                                ..self
                            }.with_turn(
                                TurnRowModel {
                                    compact_reversible: true,
                                    compact_parent_summary_seq: self.summary_seq(session_id),
                                    compact_hidden_json: Some(json_strings(ids)),
                                    tool_footprint: footprint_json,
                                    ..summary_row(
                                        turn_id,
                                        session_id,
                                        seq,
                                        summary,
                                        tokens,
                                        estimated,
                                        now,
                                    )
                                },
                            ),
                            (),
                        ),
                    )
                },
            }
        }
    }

    /// The last turn or summary in view.
    pub open spec fn last_visible(self, session_id: Seq<char>) -> Option<TurnRowModel> {
        last_of(order_by(self.turns.filter(visible_turn(session_id)), by_seq()))
    }

    /// The store with a summary gone and what it hid, that satisfies `p`, back
    /// in view.
    pub open spec fn unfolded(self, turn_id: Seq<char>, p: spec_fn(TurnRowModel) -> bool) -> DbModel {
        DbModel { turns: change_where(self.turns, p, set_hidden(false)), ..self }.without_turns(
            with_turn_id(turn_id),
        )
    }

    pub open spec fn undo_last_turn(self, session_id: Seq<char>) -> (
        DbModel,
        (usize, Option<Seq<char>>),
    ) {
        let nothing: (DbModel, (usize, Option<Seq<char>>)) = (self, (0, None));
        if any(self.turns, visible_running(session_id)) {
            nothing
        } else {
            match self.last_visible(session_id) {
                None => nothing,
                Some(turn) => if !turn.is_summary {
                    (
                        self.without_turns(with_turn_id(turn.turn_id)),
                        (1, Some(turn.user_content)),
                    )
                } else if !turn.compact_reversible {
                    nothing
                } else {
                    let p = match turn.compact_hidden_json {
                        Some(json) => hidden_among(session_id, strings_or_none(json)),
                        None => hidden_since(
                            session_id,
                            turn.compact_parent_summary_seq,
                            turn.seq,
                        ),
                    };
                    if any(self.turns, p) {
                        (self.unfolded(turn.turn_id, p), (1, None))
                    } else {
                        nothing
                    }
                },
            }
        }
    }

    /// The turns that a prune would rewrite.
    pub open spec fn prune_candidates(self, session_id: Seq<char>, protect_recent: usize) -> Seq<
        TurnRowModel,
    > {
        let rows = order_by(self.turns.filter(completed_plain(session_id)), by_seq());
        limited(
            rows,
            if rows.len() < protect_recent {
                0
            } else {
                (rows.len() - protect_recent) as nat
            },
        ).filter(prunable())
    }

    pub open spec fn prune_stale_tool_reports(
        self,
        session_id: Seq<char>,
        protect_recent: usize,
        min_saved_chars: usize,
    ) -> (DbModel, (nat, usize)) {
        let rows = self.prune_candidates(session_id, protect_recent);
        if rows.len() == 0 || prune_savings(rows) < min_saved_chars {
            (self, (0, 0))
        } else {
            (
                DbModel {
                    turns: change_where(
                        self.turns,
                        turn_among(session_id, rows.map_values(turn_id_of())),
                        pruned(),
                    ),
                    ..self
                },
                (rows.len(), prune_savings(rows)),
            )
        }
    }

    /// The store after the first `n` of some turns were popped. Each must still
    /// be there.
    pub open spec fn popped(self, session_id: Seq<char>, ids: Seq<Seq<char>>, n: nat) -> Result<
        DbModel,
        StateErrorModel,
    >
        decreases n,
    {
        if n == 0 {
            Ok(self)
        } else {
            match self.popped(session_id, ids, (n - 1) as nat) {
                Err(error) => Err(error),
                Ok(db) => {
                    let p = poppable(session_id, ids[n - 1]);
                    if count(db.turns, p) != 1 {
                        Err(StateErrorModel::plain(StateErrorKind::PoppedTurnsChanged))
                    } else {
                        let cut = db.without_turns(p);
                        Ok(
                            DbModel {
                                loaded_items: cut.loaded_items.filter(
                                    not(loaded_by(session_id, ids[n - 1])),
                                ),
                                ..cut
                            },
                        )
                    }
                },
            }
        }
    }

    /// The names of a session's items of a kind, each with the turn that
    /// loaded it.
    pub open spec fn items_with_sources(self, session_id: Seq<char>, kind: Seq<char>) -> Seq<
        (Seq<char>, Option<Seq<char>>),
    > {
        order_by(
            self.loaded_items.filter(item_of_kind(session_id, kind)),
            by_item_name(),
        ).map_values(name_and_source())
    }

    pub open spec fn delete_visible_turns(
        self,
        session_id: Seq<char>,
        ids: Seq<Seq<char>>,
        expected: Option<Seq<(Seq<char>, Option<Seq<char>>)>>,
    ) -> Result<(DbModel, usize), StateErrorModel> {
        if ids.len() == 0 {
            Ok((self, 0))
        } else if expected matches Some(tools) && self.items_with_sources(session_id, "tool"@)
            != tools {
            Err(StateErrorModel::plain(StateErrorKind::LoadedToolsChanged))
        } else {
            match self.popped(session_id, ids, ids.len()) {
                Err(error) => Err(error),
                Ok(db) => Ok((db, ids.len() as usize)),
            }
        }
    }

    /// The store without the `n` oldest turns of a session, and those turns.
    pub open spec fn trim_oldest_turns(self, session_id: Seq<char>, n: nat) -> (
        DbModel,
        Seq<TurnModel>,
    ) {
        let rows = limited(
            order_by(self.turns.filter(unsummarised(session_id)), by_seq()),
            n,
        );
        (
            self.without_turns(turn_anywhere(rows.map_values(turn_id_of()))),
            rows.map_values(self.full_turn()),
        )
    }
}

pub open spec fn unsummarised(session_id: Seq<char>) -> spec_fn(TurnRowModel) -> bool {
    |r: TurnRowModel| r.session_id == session_id && !r.is_summary
}

pub open spec fn turn_anywhere(ids: Seq<Seq<char>>) -> spec_fn(TurnRowModel) -> bool {
    |r: TurnRowModel| ids.contains(r.turn_id)
}

fn summary_turn(
    turn_id: &str,
    session_id: &str,
    seq: i64,
    summary: &str,
    tokens: &TurnTokens,
    estimated: bool,
    now: &str,
) -> (row: TurnRow)
    ensures
        row.deep_view() == summary_row(
            turn_id@,
            session_id@,
            seq,
            summary@,
            tokens.deep_view(),
            estimated,
            now@,
        ),
{
    let row = TurnRow {
        turn_id: turn_id.to_owned(),
        session_id: session_id.to_owned(),
        seq,
        user_content: "[conversation summary]".to_owned(),
        display_content: String::new(),
        user_timestamp: now.to_owned(),
        assistant_content: summary.to_owned(),
        assistant_reasoning: None,
        assistant_provider_id: None,
        assistant_model: None,
        assistant_timestamp: Some(now.to_owned()),
        status: "completed".to_owned(),
        tool_reports: "[]".to_owned(),
        tool_reports_archive: None,
        tool_flow: Vec::new(),
        hidden: false,
        is_summary: true,
        owner_pid: None,
        queue_session_id: None,
        token_total: tokens.total as i64,
        token_prompt: tokens.prompt as i64,
        token_cache_read: tokens.cache_read as i64,
        token_usage_estimated: estimated,
        revision: 0,
        context_messages: Vec::new(),
        replay_journal: None,
        compact_reversible: false,
        compact_parent_summary_seq: None,
        compact_hidden_json: None,
        tool_footprint: None,
    };
    assert(row.tool_flow.deep_view() =~= Seq::<ToolFlowRoundModel>::empty());
    assert(row.context_messages.deep_view() =~= Seq::<ChatMessageModel>::empty());
    row
}

fn unite(first: &Vec<String>, second: &Vec<String>) -> (out: Vec<String>)
    ensures
        out.deep_view() == united(first.deep_view(), second.deep_view()),
{
    let mut out = first.dup();
    let mut i: usize = 0;
    assert(second.deep_view().take(0) =~= Seq::<Seq<char>>::empty());
    while i < second.len()
        invariant
            i <= second.len(),
            out.deep_view() == united(first.deep_view(), second.deep_view().take(i as int)),
        decreases second.len() - i,
    {
        let ghost all = second.deep_view();
        let ghost sofar = out.deep_view();
        assert(all.take(i + 1).drop_last() =~= all.take(i as int));
        assert(all.take(i + 1).last() == second[i as int]@);
        if !one_of(&out, second[i].as_str()) {
            append(&mut out, second[i].clone());
        }
        i += 1;
    }
    assert(second.deep_view().take(i as int) =~= second.deep_view());
    out
}

fn bytes_of(texts: &Vec<String>) -> (n: usize)
    ensures
        n == total_bytes(texts.deep_view()),
{
    let mut n: usize = 0;
    let mut i: usize = 0;
    while i < texts.len()
        invariant
            i <= texts.len(),
            n == total_bytes(texts.deep_view().take(i as int)),
        decreases texts.len() - i,
    {
        let ghost all = texts.deep_view();
        assert(all.take(i + 1).drop_last() =~= all.take(i as int));
        assert(all.take(i + 1).last() == texts[i as int]@);
        n = n.saturating_add(texts[i].as_str().len());
        i += 1;
    }
    assert(texts.deep_view().take(i as int) =~= texts.deep_view());
    n
}

fn note_for(n: usize) -> (note: String)
    ensures
        note@ == pruned_note(n as nat),
{
    let digits = decimal_text(n as u64);
    "[".to_owned().concat(digits.as_str()).concat(
        " 条旧工具记录已折叠以释放上下文 — 原文已归档；需要该数据时请重新调用工具 / ",
    ).concat(digits.as_str()).concat(
        " old tool report(s) elided to free context — re-run the tool if the data is needed again]",
    )
}

fn is_prunable(r: &TurnRow) -> (b: bool)
    ensures
        b == prunable()(r.deep_view()),
{
    if r.tool_reports_archive.is_some() {
        return false;
    }
    let reports = strings_of(r.tool_reports.as_str());
    reports.len() > 0 && bytes_of(&reports) >= MIN_PRUNE_BYTES
}

fn prune(r: &TurnRow) -> (n: TurnRow)
    ensures
        n.deep_view() == pruned()(r.deep_view()),
{
    let reports = strings_of(r.tool_reports.as_str());
    let mut note: Vec<String> = Vec::new();
    note.push(note_for(reports.len()));
    assert(note.deep_view() =~= seq![pruned_note(reports.len() as nat)]);
    let mut n = r.dup();
    n.tool_reports_archive = Some(r.tool_reports.clone());
    n.tool_reports = encode_strings(&note);
    n
}

fn savings(rows: &Vec<TurnRow>) -> (saved: usize)
    ensures
        saved == prune_savings(rows.deep_view()),
{
    let mut saved: usize = 0;
    let mut i: usize = 0;
    while i < rows.len()
        invariant
            i <= rows.len(),
            saved == prune_savings(rows.deep_view().take(i as int)),
        decreases rows.len() - i,
    {
        let ghost all = rows.deep_view();
        assert(all.take(i + 1).drop_last() =~= all.take(i as int));
        assert(all.take(i + 1).last() == rows[i as int].deep_view());
        let reports = strings_of(rows[i].tool_reports.as_str());
        let note = note_for(reports.len());
        saved = saved.saturating_add(bytes_of(&reports).saturating_sub(note.as_str().len()));
        i += 1;
    }
    assert(rows.deep_view().take(i as int) =~= rows.deep_view());
    saved
}

pub(crate) fn turn_ids(rows: &Vec<TurnRow>) -> (ids: Vec<String>)
    ensures
        ids.deep_view() == rows.deep_view().map_values(turn_id_of()),
{
    let id = |r: &TurnRow| -> (s: String)
        ensures
            s.deep_view() == turn_id_of()(r.deep_view()),
        { r.turn_id.clone() };
    map_rows(rows, &id, Ghost(turn_id_of()))
}

fn same_items(a: &Vec<(String, Option<String>)>, b: &Vec<(String, Option<String>)>) -> (equal: bool)
    ensures
        equal == (a.deep_view() == b.deep_view()),
{
    if a.len() != b.len() {
        assert(a.deep_view().len() != b.deep_view().len());
        return false;
    }
    let mut i: usize = 0;
    while i < a.len()
        invariant
            i <= a.len(),
            a.len() == b.len(),
            forall|j: int| 0 <= j < i ==> a.deep_view()[j] == b.deep_view()[j],
        decreases a.len() - i,
    {
        let same_source = match (&a[i].1, &b[i].1) {
            (Some(x), Some(y)) => same(x.as_str(), y.as_str()),
            (None, None) => true,
            _ => false,
        };
        if !same(a[i].0.as_str(), b[i].0.as_str()) || !same_source {
            assert(a.deep_view()[i as int] != b.deep_view()[i as int]);
            return false;
        }
        i += 1;
    }
    assert(a.deep_view() =~= b.deep_view());
    true
}

fn is_plain(r: &TurnRow, session_id: &str) -> (b: bool)
    ensures
        b == plain_turn(session_id@)(r.deep_view()),
{
    same(r.session_id.as_str(), session_id) && !r.hidden && !r.is_summary
}

fn with_hidden(r: &TurnRow, hidden: bool) -> (n: TurnRow)
    ensures
        n.deep_view() == set_hidden(hidden)(r.deep_view()),
{
    let mut n = r.dup();
    n.hidden = hidden;
    n
}

/// Puts evicted turns into the archive, each only where it is not there yet.
pub fn archive_turns(archive: &mut Vec<EvictedRow>, turns: &Vec<EvictedTurn>, now: &str)
    ensures
        final(archive).deep_view() == archived(old(archive).deep_view(), turns.deep_view(), now@),
{
    let ghost start = archive.deep_view();
    let mut i: usize = 0;
    assert(turns.deep_view().take(0) =~= Seq::<EvictedTurnModel>::empty());
    while i < turns.len()
        invariant
            i <= turns.len(),
            archive.deep_view() == archived(start, turns.deep_view().take(i as int), now@),
        decreases turns.len() - i,
    {
        let ghost all = turns.deep_view();
        assert(all.take(i + 1).drop_last() =~= all.take(i as int));
        assert(all.take(i + 1).last() == turns[i as int].deep_view());
        let source_id = turns[i].source_id.as_str();
        let known = |r: &EvictedRow| -> (b: bool)
            ensures
                b == evicted_from(source_id@)(r.deep_view()),
            { same(r.turn.source_id.as_str(), source_id) };
        if !exists_row(archive, &known, Ghost(evicted_from(source_id@))) {
            append(
                archive,
                EvictedRow { turn: turns[i].dup(), created_at: now.to_owned() },
            );
        }
        i += 1;
    }
    assert(turns.deep_view().take(i as int) =~= turns.deep_view());
}

impl ConversationDb {
    pub(crate) fn has_turn(&self, turn_id: &str) -> (found: bool)
        ensures
            found == self@.has_turn(turn_id@),
    {
        let this = |r: &TurnRow| -> (b: bool)
            ensures
                b == with_turn_id(turn_id@)(r.deep_view()),
            { same(r.turn_id.as_str(), turn_id) };
        exists_row(&self.turns, &this, Ghost(with_turn_id(turn_id@)))
    }

    /// The place of a session's next turn, unless there is none left.
    pub fn next_seq(&self, session_id: &str) -> (seq: Option<i64>)
        ensures
            seq == self@.next_seq(session_id@),
    {
        let last: i64 = self.latest_turn_seq(session_id);
        if last == i64::MAX {
            None
        } else {
            Some(last + 1)
        }
    }

    /// Takes the turns of a session up to a place out of view, and says how
    /// many there are.
    pub fn hide_turns_before_seq(&mut self, session_id: &str, seq: i64) -> (affected: usize)
        ensures
            (final(self)@, affected as nat) == old(self)@.hide_turns_before_seq(session_id@, seq),
    {
        let early = |r: &TurnRow| -> (b: bool)
            ensures
                b == turn_up_to(session_id@, seq)(r.deep_view()),
            { same(r.session_id.as_str(), session_id) && r.seq <= seq };
        let change = |r: &TurnRow| -> (n: TurnRow)
            ensures
                n.deep_view() == set_hidden(true)(r.deep_view()),
            { with_hidden(r, true) };
        let affected = count_rows(&self.turns, &early, Ghost(turn_up_to(session_id@, seq)));
        self.turns = update(
            &self.turns,
            &early,
            &change,
            Ghost(turn_up_to(session_id@, seq)),
            Ghost(set_hidden(true)),
        );
        affected
    }

    /// Puts a summary at the end of a session.
    pub fn insert_summary_turn(
        &mut self,
        session_id: &str,
        summary: &str,
        tokens: &TurnTokens,
        token_usage_estimated: bool,
        turn_id: &str,
        now: &str,
    ) -> (result: Result<(), StateError>)
        ensures
            outcome(
                result,
                old(self)@,
                final(self)@,
                old(self)@.insert_summary_turn(
                    session_id@,
                    summary@,
                    tokens.deep_view(),
                    token_usage_estimated,
                    turn_id@,
                    now@,
                ),
            ),
    {
        let seq: i64 = match self.next_seq(session_id) {
            Some(seq) => seq,
            None => return Err(StateError::plain(StateErrorKind::OutOfRange)),
        };
        if self.has_turn(turn_id) {
            return Err(StateError::about(StateErrorKind::UniqueViolation, turn_id));
        }
        append(
            &mut self.turns,
            summary_turn(turn_id, session_id, seq, summary, tokens, token_usage_estimated, now),
        );
        Ok(())
    }

    fn visible(&self, session_id: &str) -> (rows: Vec<TurnRow>)
        ensures
            rows.deep_view() == order_by(self@.turns.filter(visible_turn(session_id@)), by_seq()),
    {
        let seen = |r: &TurnRow| -> (b: bool)
            ensures
                b == visible_turn(session_id@)(r.deep_view()),
            { same(r.session_id.as_str(), session_id) && !r.hidden };
        let rows = select(&self.turns, &seen, Ghost(visible_turn(session_id@)));
        sort_by_seq(&rows)
    }

    fn summaries(&self, session_id: &str) -> (rows: Vec<TurnRow>)
        ensures
            rows.deep_view() == self@.turns.filter(visible_summary(session_id@)),
    {
        let summary = |r: &TurnRow| -> (b: bool)
            ensures
                b == visible_summary(session_id@)(r.deep_view()),
            { same(r.session_id.as_str(), session_id) && !r.hidden && r.is_summary };
        select(&self.turns, &summary, Ghost(visible_summary(session_id@)))
    }

    /// Folds turns, and the summary before them, into a new summary. The turns
    /// in view must be those that the summary was made from.
    pub fn replace_visible_with_summary(
        &mut self,
        session_id: &str,
        fold_turn_ids: &Vec<String>,
        visible_turn_ids: &Vec<String>,
        summary: &str,
        tokens: &TurnTokens,
        token_usage_estimated: bool,
        footprint_json: Option<&str>,
        turn_id: &str,
        now: &str,
    ) -> (result: Result<(), StateError>)
        ensures
            outcome(
                result,
                old(self)@,
                final(self)@,
                old(self)@.replace_visible_with_summary(
                    session_id@,
                    fold_turn_ids.deep_view(),
                    visible_turn_ids.deep_view(),
                    summary@,
                    tokens.deep_view(),
                    token_usage_estimated,
                    footprint_json.deep_view(),
                    turn_id@,
                    now@,
                ),
            ),
            result is Ok ==> old(self)@.folds_reversibly(session_id@, fold_turn_ids.deep_view()),
    {
        if is_blank(summary) {
            return Err(StateError::plain(StateErrorKind::EmptySummary));
        }
        if fold_turn_ids.len() == 0 {
            return Err(StateError::plain(StateErrorKind::NothingToFold));
        }
        let visible = self.visible(session_id);
        let current = turn_ids(&visible);
        if !same_texts(&current, visible_turn_ids) {
            return Err(StateError::plain(StateErrorKind::CompactConversationChanged));
        }
        let summaries = self.summaries(session_id);
        let prior = turn_ids(&summaries);
        let ids = unite(fold_turn_ids, &prior);
        let folded = |r: &TurnRow| -> (b: bool)
            ensures
                b == visible_among(session_id@, ids.deep_view())(r.deep_view()),
            {
                same(r.session_id.as_str(), session_id) && !r.hidden && one_of(
                    &ids,
                    r.turn_id.as_str(),
                )
            };
        if !exists_row(
            &self.turns,
            &folded,
            Ghost(visible_among(session_id@, ids.deep_view())),
        ) {
            return Err(StateError::plain(StateErrorKind::CompactNotSaved));
        }
        let seq: i64 = match self.next_seq(session_id) {
            Some(seq) => seq,
            None => return Err(StateError::plain(StateErrorKind::OutOfRange)),
        };
        if self.has_turn(turn_id) {
            return Err(StateError::about(StateErrorKind::UniqueViolation, turn_id));
        }
        let ordered = sort_by_seq(&summaries);
        let mut row = summary_turn(
            turn_id,
            session_id,
            seq,
            summary,
            tokens,
            token_usage_estimated,
            now,
        );
        row.compact_reversible = true;
        row.compact_parent_summary_seq = match last_row(&ordered) {
            Some(last) => Some(last.seq),
            None => None,
        };
        row.compact_hidden_json = Some(encode_strings(&ids));
        row.tool_footprint = match footprint_json {
            Some(json) => Some(json.to_owned()),
            None => None,
        };
        let change = |r: &TurnRow| -> (n: TurnRow)
            ensures
                n.deep_view() == set_hidden(true)(r.deep_view()),
            { with_hidden(r, true) };
        self.turns = update(
            &self.turns,
            &folded,
            &change,
            Ghost(visible_among(session_id@, ids.deep_view())),
            Ghost(set_hidden(true)),
        );
        append(&mut self.turns, row);
        Ok(())
    }

    fn unfold<F: Fn(&TurnRow) -> bool>(
        &mut self,
        turn_id: &str,
        test: F,
        Ghost(p): Ghost<spec_fn(TurnRowModel) -> bool>,
    )
        requires
            forall|r: &TurnRow| #[trigger] test.requires((r,)),
            forall|r: &TurnRow, b: bool| #[trigger]
                test.ensures((r,), b) ==> b == p(r.deep_view()),
        ensures
            final(self)@ == old(self)@.unfolded(turn_id@, p),
    {
        let change = |r: &TurnRow| -> (n: TurnRow)
            ensures
                n.deep_view() == set_hidden(false)(r.deep_view()),
            { with_hidden(r, false) };
        self.turns = update(&self.turns, &test, &change, Ghost(p), Ghost(set_hidden(false)));
        self.delete_turn(turn_id);
    }

    fn delete_turn(&mut self, turn_id: &str)
        ensures
            final(self)@ == old(self)@.without_turns(with_turn_id(turn_id@)),
    {
        let this = |r: &TurnRow| -> (b: bool)
            ensures
                b == with_turn_id(turn_id@)(r.deep_view()),
            { same(r.turn_id.as_str(), turn_id) };
        self.delete_turns(&this, Ghost(with_turn_id(turn_id@)));
    }

    /// Takes back the last step of a session: removes its last turn and gives
    /// the prompt back, or takes a summary back and shows again what it hid.
    /// Nothing happens while a turn is running.
    pub fn undo_last_turn(&mut self, session_id: &str) -> (undone: (usize, Option<String>))
        ensures
            (final(self)@, undone.deep_view()) == old(self)@.undo_last_turn(session_id@),
    {
        let running = |r: &TurnRow| -> (b: bool)
            ensures
                b == visible_running(session_id@)(r.deep_view()),
            {
                same(r.session_id.as_str(), session_id) && !r.hidden && same(
                    r.status.as_str(),
                    "running",
                )
            };
        if exists_row(&self.turns, &running, Ghost(visible_running(session_id@))) {
            return (0, None);
        }
        let visible = self.visible(session_id);
        let turn = match last_row(&visible) {
            Some(turn) => turn,
            None => return (0, None),
        };
        if !turn.is_summary {
            self.delete_turn(turn.turn_id.as_str());
            return (1, Some(turn.user_content));
        }
        if !turn.compact_reversible {
            return (0, None);
        }
        match &turn.compact_hidden_json {
            Some(json) => {
                let ids = strings_of(json.as_str());
                let mine = |r: &TurnRow| -> (b: bool)
                    ensures
                        b == hidden_among(session_id@, ids.deep_view())(r.deep_view()),
                    {
                        same(r.session_id.as_str(), session_id) && r.hidden && one_of(
                            &ids,
                            r.turn_id.as_str(),
                        )
                    };
                if !exists_row(
                    &self.turns,
                    &mine,
                    Ghost(hidden_among(session_id@, ids.deep_view())),
                ) {
                    return (0, None);
                }
                self.unfold(
                    turn.turn_id.as_str(),
                    &mine,
                    Ghost(hidden_among(session_id@, ids.deep_view())),
                );
                (1, None)
            },
            None => {
                let parent = turn.compact_parent_summary_seq;
                let seq: i64 = turn.seq;
                let mine = |r: &TurnRow| -> (b: bool)
                    ensures
                        b == hidden_since(session_id@, parent, seq)(r.deep_view()),
                    {
                        same(r.session_id.as_str(), session_id) && r.hidden && r.seq < seq
                            && match parent {
                            Some(parent) => r.seq == parent || (!r.is_summary && r.seq > parent),
                            None => !r.is_summary,
                        }
                    };
                if !exists_row(&self.turns, &mine, Ghost(hidden_since(session_id@, parent, seq))) {
                    return (0, None);
                }
                self.unfold(
                    turn.turn_id.as_str(),
                    &mine,
                    Ghost(hidden_since(session_id@, parent, seq)),
                );
                (1, None)
            },
        }
    }

    /// Replaces the tool reports of old turns by a note, if that saves enough.
    /// The last `protect_recent` turns are left alone, and so is a turn that
    /// was pruned before.
    pub fn prune_stale_tool_reports(
        &mut self,
        session_id: &str,
        protect_recent: usize,
        min_saved_chars: usize,
    ) -> (stats: PruneStats)
        ensures
            (final(self)@, (stats.turns as nat, stats.saved_chars)) == old(
                self,
            )@.prune_stale_tool_reports(session_id@, protect_recent, min_saved_chars),
    {
        let done = |r: &TurnRow| -> (b: bool)
            ensures
                b == completed_plain(session_id@)(r.deep_view()),
            { is_plain(r, session_id) && same(r.status.as_str(), "completed") };
        let rows = select(&self.turns, &done, Ghost(completed_plain(session_id@)));
        let rows = sort_by_seq(&rows);
        let eligible: usize = rows.len().saturating_sub(protect_recent);
        let rows = limit(&rows, eligible);
        let rows = select(&rows, is_prunable, Ghost(prunable()));
        let saved_chars: usize = savings(&rows);
        if rows.len() == 0 || saved_chars < min_saved_chars {
            return PruneStats { turns: 0, saved_chars: 0 };
        }
        let ids = turn_ids(&rows);
        let mine = |r: &TurnRow| -> (b: bool)
            ensures
                b == turn_among(session_id@, ids.deep_view())(r.deep_view()),
            { same(r.session_id.as_str(), session_id) && one_of(&ids, r.turn_id.as_str()) };
        self.turns = update(
            &self.turns,
            &mine,
            prune,
            Ghost(turn_among(session_id@, ids.deep_view())),
            Ghost(pruned()),
        );
        PruneStats { turns: rows.len(), saved_chars }
    }

    fn pop_turns(&mut self, session_id: &str, ids: &Vec<String>) -> (result: Result<(), StateError>)
        ensures
            match old(self)@.popped(session_id@, ids.deep_view(), ids.len() as nat) {
                Ok(db) => result is Ok && final(self)@ == db,
                Err(error) => result matches Err(got) && got@ == error,
            },
    {
        let ghost start = self@;
        let mut i: usize = 0;
        while i < ids.len()
            invariant
                i <= ids.len(),
                start == old(self)@,
                start.popped(session_id@, ids.deep_view(), i as nat) == Ok::<
                    DbModel,
                    StateErrorModel,
                >(self@),
            decreases ids.len() - i,
        {
            let turn_id = ids[i].as_str();
            assert(ids.deep_view()[i as int] == turn_id@);
            let this = |r: &TurnRow| -> (b: bool)
                ensures
                    b == poppable(session_id@, turn_id@)(r.deep_view()),
                {
                    same(r.turn_id.as_str(), turn_id) && is_plain(r, session_id) && !same(
                        r.status.as_str(),
                        "running",
                    )
                };
            let here: usize = count_rows(
                &self.turns,
                &this,
                Ghost(poppable(session_id@, turn_id@)),
            );
            if here != 1 {
                proof {
                    lemma_popped_error(
                        start,
                        session_id@,
                        ids.deep_view(),
                        i as nat + 1,
                        ids.len() as nat,
                    );
                }
                return Err(StateError::plain(StateErrorKind::PoppedTurnsChanged));
            }
            self.delete_turns(&this, Ghost(poppable(session_id@, turn_id@)));
            let item = |r: &LoadedItemRow| -> (b: bool)
                ensures
                    b == loaded_by(session_id@, turn_id@)(r.deep_view()),
                {
                    same(r.session_id.as_str(), session_id) && same_some(
                        &r.source_turn_id,
                        turn_id,
                    )
                };
            self.loaded_items = reject(
                &self.loaded_items,
                &item,
                Ghost(loaded_by(session_id@, turn_id@)),
            );
            i += 1;
        }
        Ok(())
    }

    /// The names of a session's items of a kind, each with the turn that
    /// loaded it, in order.
    pub fn load_session_loaded_items_with_sources(&self, session_id: &str, kind: &str) -> (items:
        Vec<(String, Option<String>)>)
        ensures
            items.deep_view() == self@.items_with_sources(session_id@, kind@),
    {
        let mine = |r: &LoadedItemRow| -> (b: bool)
            ensures
                b == item_of_kind(session_id@, kind@)(r.deep_view()),
            { same(r.session_id.as_str(), session_id) && same(r.kind.as_str(), kind) };
        let rows = select(&self.loaded_items, &mine, Ghost(item_of_kind(session_id@, kind@)));
        let earlier = |a: &LoadedItemRow, b: &LoadedItemRow| -> (less: bool)
            ensures
                less == by_item_name()(a.deep_view(), b.deep_view()),
            { before(a.name.as_str(), b.name.as_str()) };
        let rows = sorted(&rows, &earlier, Ghost(by_item_name()));
        let pair = |r: &LoadedItemRow| -> (p: (String, Option<String>))
            ensures
                p.deep_view() == name_and_source()(r.deep_view()),
            { (r.name.clone(), r.source_turn_id.dup()) };
        map_rows(&rows, &pair, Ghost(name_and_source()))
    }

    /// Removes turns from a session.
    pub fn delete_visible_turns(&mut self, session_id: &str, turn_ids: &Vec<String>) -> (result:
        Result<usize, StateError>)
        ensures
            outcome(
                result,
                old(self)@,
                final(self)@,
                old(self)@.delete_visible_turns(session_id@, turn_ids.deep_view(), None),
            ),
    {
        self.delete_visible_turns_checked(session_id, turn_ids, &None)
    }

    /// Removes turns from a session whose loaded tools must be as expected.
    pub fn delete_visible_turns_checked(
        &mut self,
        session_id: &str,
        turn_ids: &Vec<String>,
        expected_loaded_tools: &Option<Vec<(String, Option<String>)>>,
    ) -> (result: Result<usize, StateError>)
        ensures
            outcome(
                result,
                old(self)@,
                final(self)@,
                old(self)@.delete_visible_turns(
                    session_id@,
                    turn_ids.deep_view(),
                    expected_loaded_tools.deep_view(),
                ),
            ),
    {
        if turn_ids.len() == 0 {
            return Ok(0);
        }
        if let Some(expected) = expected_loaded_tools {
            let current = self.load_session_loaded_items_with_sources(session_id, "tool");
            if !same_items(&current, expected) {
                return Err(StateError::plain(StateErrorKind::LoadedToolsChanged));
            }
        }
        let mut next = self.dup();
        match next.pop_turns(session_id, turn_ids) {
            Ok(()) => {
                *self = next;
                Ok(turn_ids.len())
            },
            Err(error) => Err(error),
        }
    }

    /// Moves turns from a session into the archive of evicted turns. Where they
    /// cannot be removed, nothing is archived either.
    pub fn archive_and_delete_visible_turns(
        &mut self,
        session_id: &str,
        archive: &mut Vec<EvictedRow>,
        turns: &Vec<EvictedTurn>,
        turn_ids: &Vec<String>,
        expected_loaded_tools: &Option<Vec<(String, Option<String>)>>,
        now: &str,
    ) -> (result: Result<usize, StateError>)
        ensures
            outcome(
                result,
                old(self)@,
                final(self)@,
                old(self)@.delete_visible_turns(
                    session_id@,
                    turn_ids.deep_view(),
                    expected_loaded_tools.deep_view(),
                ),
            ),
            final(archive).deep_view() == if result is Ok && turn_ids.len() > 0 {
                archived(old(archive).deep_view(), turns.deep_view(), now@)
            } else {
                old(archive).deep_view()
            },
    {
        match self.delete_visible_turns_checked(session_id, turn_ids, expected_loaded_tools) {
            Ok(affected) => {
                if turn_ids.len() > 0 {
                    archive_turns(archive, turns, now);
                }
                Ok(affected)
            },
            Err(error) => Err(error),
        }
    }

    /// Removes the `count` oldest turns of a session, and gives them back.
    pub fn trim_oldest_turns(&mut self, session_id: &str, count: usize) -> (turns: Vec<Turn>)
        ensures
            (final(self)@, turns.deep_view()) == old(self)@.trim_oldest_turns(
                session_id@,
                count as nat,
            ),
    {
        let mine = |r: &TurnRow| -> (b: bool)
            ensures
                b == unsummarised(session_id@)(r.deep_view()),
            { same(r.session_id.as_str(), session_id) && !r.is_summary };
        let rows = select(&self.turns, &mine, Ghost(unsummarised(session_id@)));
        let rows = sort_by_seq(&rows);
        let rows = limit(&rows, count);
        let turns = self.full_turns(&rows);
        let ids = turn_ids(&rows);
        let gone = |r: &TurnRow| -> (b: bool)
            ensures
                b == turn_anywhere(ids.deep_view())(r.deep_view()),
            { one_of(&ids, r.turn_id.as_str()) };
        self.delete_turns(&gone, Ghost(turn_anywhere(ids.deep_view())));
        turns
    }
}

/// An error in popping stays however many turns follow.
proof fn lemma_popped_error(db: DbModel, session_id: Seq<char>, ids: Seq<Seq<char>>, n: nat, m: nat)
    requires
        n <= m,
        db.popped(session_id, ids, n) is Err,
    ensures
        db.popped(session_id, ids, m) == db.popped(session_id, ids, n),
    decreases m,
{
    if n < m {
        lemma_popped_error(db, session_id, ids, n, (m - 1) as nat);
    }
}

} // verus!


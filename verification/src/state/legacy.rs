//! Taking over a conversation that was kept as lines of JSON.

use crate::json::{decode_field, parsed_field};
use crate::state::db::{ConversationDb, DbModel};
use crate::state::error::{StateError, StateErrorKind, StateErrorModel};
use crate::state::replay::or_empty;
use crate::state::rows::{TurnRow, TurnRowModel};
use crate::state::turns::turn_of;
use crate::state::types::{ChatMessageModel, ToolFlowRoundModel};
use crate::table::{any, append, exists_row};
use crate::text::{decimal, decimal_text, is_blank, same, trimmed};
use vstd::prelude::*;

verus! {

/// What stands for the reply to a prompt that was followed by another.
pub const NO_REPLY: &'static str = "(migrated without reply)";

/// What stands for the reply to a prompt at the very end.
pub const CUT_SHORT: &'static str = "上一轮响应已中断，未完成。不要继续执行上一轮任务，除非用户重新要求。";

/// A turn that was taken over.
pub open spec fn migrated_row(
    turn_id: Seq<char>,
    session_id: Seq<char>,
    seq: i64,
    prompt: (Seq<char>, Seq<char>),
    reply: Seq<char>,
    reasoning: Option<Seq<char>>,
    replied_at: Option<Seq<char>>,
    status: Seq<char>,
) -> TurnRowModel {
    TurnRowModel {
        turn_id,
        session_id,
        seq,
        user_content: prompt.1,
        display_content: Seq::empty(),
        user_timestamp: prompt.0,
        assistant_content: reply,
        assistant_reasoning: reasoning,
        assistant_provider_id: None,
        assistant_model: None,
        assistant_timestamp: replied_at,
        status,
        tool_reports: "[]"@,
        tool_reports_archive: None,
        tool_flow: Seq::empty(),
        hidden: false,
        is_summary: false,
        owner_pid: None,
        queue_session_id: None,
        token_total: 0,
        token_prompt: 0,
        token_cache_read: 0,
        token_usage_estimated: false,
        revision: 0,
        context_messages: Seq::empty(),
        replay_journal: None,
        compact_reversible: false,
        compact_parent_summary_seq: None,
        compact_hidden_json: None,
        tool_footprint: None,
    }
}

/// How far a takeover has come: the store, the number of turns, the prompt that
/// waits for its reply, with its time, and the error that ended it.
#[verifier::ext_equal]
pub struct Takeover {
    pub db: DbModel,
    pub migrated: nat,
    pub pending: Option<(Seq<char>, Seq<char>)>,
    pub failed: Option<StateErrorModel>,
}

impl Takeover {
    /// With one more turn.
    pub open spec fn with_turn(
        self,
        session_id: Seq<char>,
        prompt: (Seq<char>, Seq<char>),
        reply: Seq<char>,
        reasoning: Option<Seq<char>>,
        replied_at: Option<Seq<char>>,
        status: Seq<char>,
    ) -> Takeover {
        let turn_id = "migrated_"@ + decimal(self.migrated);
        match self.db.next_seq(session_id) {
            None => Takeover {
                failed: Some(StateErrorModel::plain(StateErrorKind::OutOfRange)),
                ..self
            },
            Some(seq) => if self.db.has_turn(turn_id) {
                Takeover {
                    failed: Some(
                        StateErrorModel::about(StateErrorKind::UniqueViolation, turn_id),
                    ),
                    ..self
                }
            } else {
                Takeover {
                    db: self.db.with_turn(
                        migrated_row(
                            turn_id,
                            session_id,
                            seq,
                            prompt,
                            reply,
                            reasoning,
                            replied_at,
                            status,
                        ),
                    ),
                    migrated: self.migrated + 1,
                    ..self
                }
            },
        }
    }

    /// After one more line.
    pub open spec fn step(self, session_id: Seq<char>, line: Seq<char>, now: Seq<char>) -> Takeover {
        if self.failed is Some || trimmed(line).len() == 0 {
            self
        } else {
            match parsed_field(line, "role"@) {
                None => self,
                Some(role) => {
                    let content = field(line, "content"@);
                    let timestamp = field(line, "timestamp"@);
                    let reasoning = match parsed_field(line, "reasoning"@) {
                        Some(text) => text,
                        None => None,
                    };
                    if or_empty(role) == "user"@ {
                        let done = match self.pending {
                            None => self,
                            Some(prompt) => self.with_turn(
                                session_id,
                                prompt,
                                NO_REPLY@,
                                None,
                                None,
                                "completed"@,
                            ),
                        };
                        Takeover { pending: Some((timestamp, content)), ..done }
                    } else if or_empty(role) == "assistant"@ {
                        match self.pending {
                            None => self,
                            Some(prompt) => Takeover {
                                pending: None,
                                ..self.with_turn(
                                    session_id,
                                    prompt,
                                    content,
                                    reasoning,
                                    Some(now),
                                    "completed"@,
                                )
                            },
                        }
                    } else {
                        self
                    }
                },
            }
        }
    }

    /// After the first `n` lines.
    pub open spec fn after(
        self,
        session_id: Seq<char>,
        lines: Seq<Seq<char>>,
        now: Seq<char>,
        n: nat,
    ) -> Takeover
        decreases n,
    {
        if n == 0 {
            self
        } else {
            self.after(session_id, lines, now, (n - 1) as nat).step(session_id, lines[n - 1], now)
        }
    }

    /// At the end of the lines.
    pub open spec fn finished(self, session_id: Seq<char>) -> Takeover {
        match (self.failed, self.pending) {
            (None, Some(prompt)) => self.with_turn(
                session_id,
                prompt,
                CUT_SHORT@,
                None,
                None,
                "interrupted"@,
            ),
            _ => self,
        }
    }
}

/// The text under a key of a line, or nothing.
pub open spec fn field(line: Seq<char>, key: Seq<char>) -> Seq<char> {
    match parsed_field(line, key) {
        Some(text) => or_empty(text),
        None => Seq::empty(),
    }
}

impl DbModel {
    /// The store after the lines of an old conversation were taken over into a
    /// session, and how many turns that made. A session that has turns is left
    /// alone. The turns before an error stay.
    pub open spec fn migrate_from_jsonl(
        self,
        session_id: Seq<char>,
        lines: Seq<Seq<char>>,
        now: Seq<char>,
    ) -> (DbModel, Result<nat, StateErrorModel>) {
        if any(self.turns, turn_of(session_id)) {
            (self, Ok(0))
        } else {
            let end = Takeover { db: self, migrated: 0, pending: None, failed: None }.after(
                session_id,
                lines,
                now,
                lines.len(),
            ).finished(session_id);
            (
                end.db,
                match end.failed {
                    Some(error) => Err(error),
                    None => Ok(end.migrated),
                },
            )
        }
    }
}

fn read_field(line: &str, key: &str) -> (text: String)
    ensures
        text@ == field(line@, key@),
{
    match decode_field(line, key) {
        Some(Some(text)) => text,
        _ => String::new(),
    }
}

impl ConversationDb {
    fn take_over_turn(
        &mut self,
        session_id: &str,
        migrated: usize,
        prompt: &(String, String),
        reply: &str,
        reasoning: Option<String>,
        replied_at: Option<String>,
        status: &str,
        Ghost(state): Ghost<Takeover>,
    ) -> (result: Result<(), StateError>)
        requires
            state.db == old(self)@,
            state.migrated == migrated,
        ensures
            ({
                let next = state.with_turn(
                    session_id@,
                    prompt.deep_view(),
                    reply@,
                    reasoning.deep_view(),
                    replied_at.deep_view(),
                    status@,
                );
                &&& final(self)@ == next.db
                &&& match result {
                    Ok(_) => next.migrated == migrated + 1 && next.failed == state.failed,
                    Err(error) => next.failed == Some(error@),
                }
                &&& next.pending == state.pending
            }),
    {
        let turn_id = "migrated_".to_owned().concat(decimal_text(migrated as u64).as_str());
        let seq: i64 = match self.next_seq(session_id) {
            Some(seq) => seq,
            None => return Err(StateError::plain(StateErrorKind::OutOfRange)),
        };
        if self.has_turn(turn_id.as_str()) {
            return Err(StateError::about(StateErrorKind::UniqueViolation, turn_id.as_str()));
        }
        let row = TurnRow {
            turn_id,
            session_id: session_id.to_owned(),
            seq,
            user_content: prompt.1.clone(),
            display_content: String::new(),
            user_timestamp: prompt.0.clone(),
            assistant_content: reply.to_owned(),
            assistant_reasoning: reasoning,
            assistant_provider_id: None,
            assistant_model: None,
            assistant_timestamp: replied_at,
            status: status.to_owned(),
            tool_reports: "[]".to_owned(),
            tool_reports_archive: None,
            tool_flow: Vec::new(),
            hidden: false,
            is_summary: false,
            owner_pid: None,
            queue_session_id: None,
            token_total: 0,
            token_prompt: 0,
            token_cache_read: 0,
            token_usage_estimated: false,
            revision: 0,
            context_messages: Vec::new(),
            replay_journal: None,
            compact_reversible: false,
            compact_parent_summary_seq: None,
            compact_hidden_json: None,
            tool_footprint: None,
        };
        assert(row.tool_flow.deep_view() =~= Seq::<ToolFlowRoundModel>::empty());
        assert(row.context_messages.deep_view() =~= Seq::<ChatMessageModel>::empty());
        append(&mut self.turns, row);
        Ok(())
    }

    /// Takes the lines of an old conversation over into a session without
    /// turns, and says how many turns that made. Lines that are blank or no
    /// JSON are passed over.
    pub fn migrate_from_jsonl(&mut self, session_id: &str, lines: &Vec<String>, now: &str) -> (
        result: Result<usize, StateError>)
        ensures
            ({
                let (db, expected) = old(self)@.migrate_from_jsonl(
                    session_id@,
                    lines.deep_view(),
                    now@,
                );
                &&& final(self)@ == db
                &&& match expected {
                    Ok(n) => result matches Ok(got) && got == n,
                    Err(error) => result matches Err(got) && got@ == error,
                }
            }),
    {
        let mine = |r: &TurnRow| -> (b: bool)
            ensures
                b == turn_of(session_id@)(r.deep_view()),
            { same(r.session_id.as_str(), session_id) };
        if exists_row(&self.turns, &mine, Ghost(turn_of(session_id@))) {
            return Ok(0);
        }
        let ghost begun = Takeover { db: self@, migrated: 0, pending: None, failed: None };
        let mut migrated: usize = 0;
        let mut pending: Option<(String, String)> = None;
        let mut i: usize = 0;
        while i < lines.len()
            invariant
                i <= lines.len(),
                migrated + (if pending is Some {
                    1int
                } else {
                    0int
                }) <= i,
                begun == (Takeover {
                    db: old(self)@,
                    migrated: 0,
                    pending: None,
                    failed: None,
                }),
                !any(old(self)@.turns, turn_of(session_id@)),
                begun.after(session_id@, lines.deep_view(), now@, i as nat) == (Takeover {
                    db: self@,
                    migrated: migrated as nat,
                    pending: pending.deep_view(),
                    failed: None,
                }),
            decreases lines.len() - i,
        {
            let ghost state = begun.after(session_id@, lines.deep_view(), now@, i as nat);
            let line = lines[i].as_str();
            assert(lines.deep_view()[i as int] == line@);
            let role = if is_blank(line) {
                None
            } else {
                decode_field(line, "role")
            };
            if let Some(role) = role {
                let role = match role {
                    Some(role) => role,
                    None => String::new(),
                };
                let content = read_field(line, "content");
                let timestamp = read_field(line, "timestamp");
                let reasoning = match decode_field(line, "reasoning") {
                    Some(text) => text,
                    None => None,
                };
                if same(role.as_str(), "user") {
                    if let Some(prompt) = &pending {
                        match self.take_over_turn(
                            session_id,
                            migrated,
                            prompt,
                            NO_REPLY,
                            None,
                            None,
                            "completed",
                            Ghost(state),
                        ) {
                            Ok(()) => {
                                migrated += 1;
                            },
                            Err(error) => {
                                proof {
                                    lemma_failed(
                                        begun,
                                        session_id@,
                                        lines.deep_view(),
                                        now@,
                                        i as nat + 1,
                                        lines.len() as nat,
                                    );
                                }
                                return Err(error);
                            },
                        }
                    }
                    pending = Some((timestamp, content));
                } else if same(role.as_str(), "assistant") {
                    if let Some(prompt) = &pending {
                        match self.take_over_turn(
                            session_id,
                            migrated,
                            prompt,
                            content.as_str(),
                            reasoning,
                            Some(now.to_owned()),
                            "completed",
                            Ghost(state),
                        ) {
                            Ok(()) => {
                                migrated += 1;
                            },
                            Err(error) => {
                                proof {
                                    lemma_failed(
                                        begun,
                                        session_id@,
                                        lines.deep_view(),
                                        now@,
                                        i as nat + 1,
                                        lines.len() as nat,
                                    );
                                }
                                return Err(error);
                            },
                        }
                    }
                    pending = None;
                }
            }
            i += 1;
        }
        if let Some(prompt) = &pending {
            let ghost state = begun.after(
                session_id@,
                lines.deep_view(),
                now@,
                lines.len() as nat,
            );
            match self.take_over_turn(
                session_id,
                migrated,
                prompt,
                CUT_SHORT,
                None,
                None,
                "interrupted",
                Ghost(state),
            ) {
                Ok(()) => {
                    return Ok(migrated + 1);
                },
                Err(error) => return Err(error),
            }
        }
        Ok(migrated)
    }
}

/// A takeover that failed stays as it was, whatever lines follow.
proof fn lemma_failed(
    begun: Takeover,
    session_id: Seq<char>,
    lines: Seq<Seq<char>>,
    now: Seq<char>,
    n: nat,
    m: nat,
)
    requires
        n <= m,
        begun.after(session_id, lines, now, n).failed is Some,
    ensures
        begun.after(session_id, lines, now, m) == begun.after(session_id, lines, now, n),
    decreases m,
{
    if n < m {
        lemma_failed(begun, session_id, lines, now, n, (m - 1) as nat);
    }
}

} // verus!

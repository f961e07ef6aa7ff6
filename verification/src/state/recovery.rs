//! Putting turns in order whose process is gone, and the place of a turn that
//! has come to its end.

use crate::state::db::{outcome, ConversationDb, DbModel};
use crate::state::error::{StateError, StateErrorKind, StateErrorModel};
use crate::state::journal::{closed, segment_of};
use crate::state::queue::listed;
use crate::state::redo::{running_revision, with_turn_id};
use crate::state::rows::{
    JournalSegmentRow, JournalSegmentRowModel, SessionRow, SessionRowModel, TurnRow, TurnRowModel,
};
use crate::state::sessions::with_session_id;
use crate::state::types::{StaleTurnRecovery, StaleTurnRecoveryModel};
use crate::table::{
    any, append, change_where, count, count_rows, exists_row, first, first_row, select, update, Row,
};
use crate::text::same;
use vstd::prelude::*;

verus! {

/// A running turn that no live process works on.
pub open spec fn stale_turn(alive: Seq<u32>) -> spec_fn(TurnRowModel) -> bool {
    |r: TurnRowModel|
        r.status == "running"@ && match r.owner_pid {
            Some(pid) => !alive.contains(pid as u32),
            None => true,
        }
}

/// A turn that was cut off.
pub open spec fn cut_off(content: Seq<char>, reasoning: Option<Seq<char>>, now: Seq<char>) -> spec_fn(
    TurnRowModel,
) -> TurnRowModel {
    |r: TurnRowModel|
        TurnRowModel {
            assistant_content: content,
            assistant_reasoning: reasoning,
            assistant_timestamp: Some(now),
            status: "interrupted"@,
            ..r
        }
}

pub open spec fn running_segment_of(turn_id: Seq<char>, revision: i64) -> spec_fn(
    JournalSegmentRowModel,
) -> bool {
    |r: JournalSegmentRowModel| segment_of(turn_id, revision)(r) && r.status == "running"@
}

/// A settled turn of the same session that stands after `turn`.
pub open spec fn settled_after(turn: TurnRowModel) -> spec_fn(TurnRowModel) -> bool {
    |r: TurnRowModel|
        r.session_id == turn.session_id && r.seq > turn.seq && r.status != "running"@
}

pub open spec fn at_seq(seq: i64) -> spec_fn(TurnRowModel) -> TurnRowModel {
    |r: TurnRowModel| TurnRowModel { seq, ..r }
}

/// A session that sent a request at `stamp`. The stamp never goes back.
pub open spec fn requested_at(stamp: i64) -> spec_fn(SessionRowModel) -> SessionRowModel {
    |r: SessionRowModel|
        {
            let last = match r.last_request_at {
                Some(last) => last,
                None => 0,
            };
            SessionRowModel {
                last_request_at: Some(
                    if stamp > last {
                        stamp
                    } else {
                        last
                    },
                ),
                ..r
            }
        }
}

impl DbModel {
    /// The store with a turn moved behind what settled while it ran, so that
    /// the finished history only grows at its end. A redone turn stays where it
    /// is.
    pub open spec fn completion_seq_bumped(self, turn_id: Seq<char>) -> Result<
        DbModel,
        StateErrorModel,
    > {
        match first(self.turns, with_turn_id(turn_id)) {
            None => Ok(self),
            Some(turn) => if turn.revision != 0 || !any(self.turns, settled_after(turn)) {
                Ok(self)
            } else {
                match self.next_seq(turn.session_id) {
                    None => Err(StateErrorModel::plain(StateErrorKind::OutOfRange)),
                    Some(seq) => Ok(
                        DbModel {
                            turns: change_where(self.turns, with_turn_id(turn_id), at_seq(seq)),
                            ..self
                        },
                    ),
                }
            },
        }
    }

    /// The store after a turn's session sent a request.
    pub open spec fn request_noted(self, turn_id: Seq<char>, stamp: i64) -> DbModel {
        match first(self.turns, with_turn_id(turn_id)) {
            None => self,
            Some(turn) => DbModel {
                sessions: change_where(
                    self.sessions,
                    with_session_id(turn.session_id),
                    requested_at(stamp),
                ),
                ..self
            },
        }
    }

    /// The store after a generation was cut off, and whether there was one.
    pub open spec fn turn_cut_off(self, turn: TurnRowModel, now: Seq<char>) -> Result<
        (DbModel, bool),
        StateErrorModel,
    > {
        match self.stale_prompts_consumed(
            turn.turn_id,
            turn.revision,
            turn.queue_session_id,
            now,
        ) {
            Err(error) => Err(error),
            Ok(db) => {
                let (content, reasoning) = db.interrupted_projection(turn.turn_id, turn.revision);
                let p = running_revision(turn.turn_id, turn.revision);
                let cut = DbModel {
                    turns: change_where(db.turns, p, cut_off(content, reasoning, now)),
                    ..db
                };
                if count(db.turns, p) != 1 {
                    Ok((cut, false))
                } else {
                    match cut.completion_seq_bumped(turn.turn_id) {
                        Err(error) => Err(error),
                        Ok(moved) => Ok(
                            (
                                DbModel {
                                    segments: change_where(
                                        moved.segments,
                                        running_segment_of(turn.turn_id, turn.revision),
                                        closed("interrupted"@, now),
                                    ),
                                    ..moved
                                },
                                true,
                            ),
                        ),
                    }
                }
            },
        }
    }

    /// The store after one stale turn was put in order, with the note of it.
    pub open spec fn turn_recovered(self, turn: TurnRowModel, now: Seq<char>) -> Result<
        (DbModel, Option<StaleTurnRecoveryModel>),
        StateErrorModel,
    > {
        let note = StaleTurnRecoveryModel {
            turn_id: turn.turn_id,
            session_id: turn.session_id,
            restored_redo: true,
        };
        match self.restore_redo_backup(turn.turn_id, turn.revision) {
            Err(error) => Err(error),
            Ok((db, true)) => Ok((db, Some(note))),
            Ok((db, false)) => match db.turn_cut_off(turn, now) {
                Err(error) => Err(error),
                Ok((cut, true)) => Ok(
                    (cut, Some(StaleTurnRecoveryModel { restored_redo: false, ..note })),
                ),
                Ok((cut, false)) => Ok((cut, None)),
            },
        }
    }

    /// The store after the first `n` stale turns were put in order.
    pub open spec fn turns_recovered(
        self,
        turns: Seq<TurnRowModel>,
        now: Seq<char>,
        n: nat,
    ) -> Result<
        (DbModel, Seq<StaleTurnRecoveryModel>),
        StateErrorModel,
    >
        decreases n,
    {
        if n == 0 {
            Ok((self, Seq::empty()))
        } else {
            match self.turns_recovered(turns, now, (n - 1) as nat) {
                Err(error) => Err(error),
                Ok((db, notes)) => match db.turn_recovered(turns[n - 1], now) {
                    Err(error) => Err(error),
                    Ok((next, Some(note))) => Ok((next, notes.push(note))),
                    Ok((next, None)) => Ok((next, notes)),
                },
            }
        }
    }

    pub open spec fn recover_stale_running_turns(self, alive: Seq<u32>, now: Seq<char>) -> Result<
        (DbModel, Seq<StaleTurnRecoveryModel>),
        StateErrorModel,
    > {
        let stale = self.turns.filter(stale_turn(alive));
        self.turns_recovered(stale, now, stale.len())
    }
}

fn is_stale_turn(r: &TurnRow, alive: &Vec<u32>) -> (b: bool)
    ensures
        b == stale_turn(alive@)(r.deep_view()),
{
    same(r.status.as_str(), "running") && match r.owner_pid {
        Some(pid) => !listed(alive, #[verifier::truncate] (pid as u32)),
        None => true,
    }
}

impl ConversationDb {
    pub(crate) fn turn_with_id(&self, turn_id: &str) -> (turn: Option<TurnRow>)
        ensures
            turn.deep_view() == first(self@.turns, with_turn_id(turn_id@)),
    {
        let this = |r: &TurnRow| -> (b: bool)
            ensures
                b == with_turn_id(turn_id@)(r.deep_view()),
            { same(r.turn_id.as_str(), turn_id) };
        first_row(&self.turns, &this, Ghost(with_turn_id(turn_id@)))
    }

    /// Moves a turn that has come to its end behind what settled while it ran.
    pub fn bump_completion_seq(&mut self, turn_id: &str) -> (result: Result<(), StateError>)
        ensures
            match old(self)@.completion_seq_bumped(turn_id@) {
                Ok(db) => result is Ok && final(self)@ == db,
                Err(error) => {
                    &&& result matches Err(got)
                    &&& got@ == error
                    &&& final(self)@ == old(self)@
                },
            },
    {
        let turn = match self.turn_with_id(turn_id) {
            Some(turn) => turn,
            None => return Ok(()),
        };
        let later = |r: &TurnRow| -> (b: bool)
            ensures
                b == settled_after(turn.deep_view())(r.deep_view()),
            {
                same(r.session_id.as_str(), turn.session_id.as_str()) && r.seq > turn.seq && !same(
                    r.status.as_str(),
                    "running",
                )
            };
        if turn.revision != 0 || !exists_row(
            &self.turns,
            &later,
            Ghost(settled_after(turn.deep_view())),
        ) {
            return Ok(());
        }
        let seq: i64 = match self.next_seq(turn.session_id.as_str()) {
            Some(seq) => seq,
            None => return Err(StateError::plain(StateErrorKind::OutOfRange)),
        };
        let this = |r: &TurnRow| -> (b: bool)
            ensures
                b == with_turn_id(turn_id@)(r.deep_view()),
            { same(r.turn_id.as_str(), turn_id) };
        let place = |r: &TurnRow| -> (n: TurnRow)
            ensures
                n.deep_view() == at_seq(seq)(r.deep_view()),
            {
                let mut n = r.dup();
                n.seq = seq;
                n
            };
        self.turns = update(
            &self.turns,
            &this,
            &place,
            Ghost(with_turn_id(turn_id@)),
            Ghost(at_seq(seq)),
        );
        Ok(())
    }

    /// Notes when a turn's session sent a request, in seconds. The stamp never
    /// goes back, whatever the clock does.
    pub fn touch_session_last_request(&mut self, turn_id: &str, stamp: i64)
        ensures
            final(self)@ == old(self)@.request_noted(turn_id@, stamp),
    {
        let turn = match self.turn_with_id(turn_id) {
            Some(turn) => turn,
            None => return,
        };
        let this = |r: &SessionRow| -> (b: bool)
            ensures
                b == with_session_id(turn.session_id@)(r.deep_view()),
            { same(r.record.session_id.as_str(), turn.session_id.as_str()) };
        let note = |r: &SessionRow| -> (n: SessionRow)
            ensures
                n.deep_view() == requested_at(stamp)(r.deep_view()),
            {
                let mut n = r.dup();
                let last: i64 = match r.last_request_at {
                    Some(last) => last,
                    None => 0,
                };
                n.last_request_at = Some(
                    if stamp > last {
                        stamp
                    } else {
                        last
                    },
                );
                n
            };
        self.sessions = update(
            &self.sessions,
            &this,
            &note,
            Ghost(with_session_id(turn.session_id@)),
            Ghost(requested_at(stamp)),
        );
    }

    fn interrupt_segments(&mut self, turn_id: &str, revision: i64, now: &str)
        ensures
            final(self)@ == (DbModel {
                segments: change_where(
                    old(self)@.segments,
                    running_segment_of(turn_id@, revision),
                    closed("interrupted"@, now@),
                ),
                ..old(self)@
            }),
    {
        let running = |r: &JournalSegmentRow| -> (b: bool)
            ensures
                b == running_segment_of(turn_id@, revision)(r.deep_view()),
            {
                same(r.turn_id.as_str(), turn_id) && r.revision == revision && same(
                    r.status.as_str(),
                    "running",
                )
            };
        let close = |r: &JournalSegmentRow| -> (n: JournalSegmentRow)
            ensures
                n.deep_view() == closed("interrupted"@, now@)(r.deep_view()),
            {
                let mut n = r.dup();
                n.status = "interrupted".to_owned();
                n.finished_at = Some(now.to_owned());
                n
            };
        self.segments = update(
            &self.segments,
            &running,
            &close,
            Ghost(running_segment_of(turn_id@, revision)),
            Ghost(closed("interrupted"@, now@)),
        );
    }

    fn cut_turn_off(&mut self, turn: &TurnRow, now: &str) -> (result: Result<bool, StateError>)
        ensures
            match old(self)@.turn_cut_off(turn.deep_view(), now@) {
                Ok((db, there)) => result == Ok::<bool, StateError>(there) && final(self)@ == db,
                Err(error) => result matches Err(got) && got@ == error,
            },
    {
        let turn_id = turn.turn_id.as_str();
        let revision: i64 = turn.revision;
        let queue: Option<&str> = match &turn.queue_session_id {
            Some(queue) => Some(queue.as_str()),
            None => None,
        };
        match self.consume_stale_queued_prompts(turn_id, revision, queue, now) {
            Ok(()) => {},
            Err(error) => return Err(error),
        }
        let (content, reasoning) = self.interrupted_projection(turn_id, revision);
        let running = |r: &TurnRow| -> (b: bool)
            ensures
                b == running_revision(turn_id@, revision)(r.deep_view()),
            {
                same(r.turn_id.as_str(), turn_id) && r.revision == revision && same(
                    r.status.as_str(),
                    "running",
                )
            };
        let affected: usize = count_rows(
            &self.turns,
            &running,
            Ghost(running_revision(turn_id@, revision)),
        );
        let cut = |r: &TurnRow| -> (n: TurnRow)
            ensures
                n.deep_view() == cut_off(content@, reasoning.deep_view(), now@)(r.deep_view()),
            {
                let mut n = r.dup();
                n.assistant_content = content.clone();
                n.assistant_reasoning = reasoning.dup();
                n.assistant_timestamp = Some(now.to_owned());
                n.status = "interrupted".to_owned();
                n
            };
        self.turns = update(
            &self.turns,
            &running,
            &cut,
            Ghost(running_revision(turn_id@, revision)),
            Ghost(cut_off(content@, reasoning.deep_view(), now@)),
        );
        if affected != 1 {
            return Ok(false);
        }
        match self.bump_completion_seq(turn_id) {
            Ok(()) => {},
            Err(error) => return Err(error),
        }
        self.interrupt_segments(turn_id, revision, now);
        Ok(true)
    }

    fn recover_turn(&mut self, turn: &TurnRow, now: &str) -> (result: Result<
        Option<StaleTurnRecovery>,
        StateError,
    >)
        ensures
            match old(self)@.turn_recovered(turn.deep_view(), now@) {
                Ok((db, note)) => {
                    &&& result matches Ok(got)
                    &&& got.deep_view() == note
                    &&& final(self)@ == db
                },
                Err(error) => result matches Err(got) && got@ == error,
            },
    {
        let restored_redo = match self.restore_redo_backup(turn.turn_id.as_str(), turn.revision) {
            Ok(restored) => restored,
            Err(error) => return Err(error),
        };
        if !restored_redo {
            match self.cut_turn_off(turn, now) {
                Ok(there) => {
                    if !there {
                        return Ok(None);
                    }
                },
                Err(error) => return Err(error),
            }
        }
        Ok(
            Some(
                StaleTurnRecovery {
                    turn_id: turn.turn_id.clone(),
                    session_id: turn.session_id.clone(),
                    restored_redo,
                },
            ),
        )
    }

    /// Puts the running turns in order that no live process works on: a redo is
    /// taken back, any other generation is kept as far as it had come and
    /// marked as interrupted. `alive` lists the processes that exist.
    pub fn recover_stale_running_turns(&mut self, alive: &Vec<u32>, now: &str) -> (result: Result<
        Vec<StaleTurnRecovery>,
        StateError,
    >)
        ensures
            outcome(
                result,
                old(self)@,
                final(self)@,
                old(self)@.recover_stale_running_turns(alive@, now@),
            ),
    {
        let stale = |r: &TurnRow| -> (b: bool)
            ensures
                b == stale_turn(alive@)(r.deep_view()),
            { is_stale_turn(r, alive) };
        let turns = select(&self.turns, &stale, Ghost(stale_turn(alive@)));
        let mut next = self.dup();
        let mut notes: Vec<StaleTurnRecovery> = Vec::new();
        assert(notes.deep_view() =~= Seq::<StaleTurnRecoveryModel>::empty());
        let mut i: usize = 0;
        while i < turns.len()
            invariant
                i <= turns.len(),
                self@ == old(self)@,
                turns.deep_view() == self@.turns.filter(stale_turn(alive@)),
                self@.turns_recovered(turns.deep_view(), now@, i as nat) == Ok::<
                    (DbModel, Seq<StaleTurnRecoveryModel>),
                    StateErrorModel,
                >((next@, notes.deep_view())),
            decreases turns.len() - i,
        {
            assert(turns.deep_view()[i as int] == turns[i as int].deep_view());
            match next.recover_turn(&turns[i], now) {
                Ok(Some(note)) => append(&mut notes, note),
                Ok(None) => {},
                Err(error) => {
                    proof {
                        lemma_recovery_error(
                            self@,
                            turns.deep_view(),
                            now@,
                            i as nat + 1,
                            turns.len() as nat,
                        );
                    }
                    return Err(error);
                },
            }
            i += 1;
        }
        *self = next;
        Ok(notes)
    }
}

/// An error in the recovery stays however many turns follow.
proof fn lemma_recovery_error(
    db: DbModel,
    turns: Seq<TurnRowModel>,
    now: Seq<char>,
    n: nat,
    m: nat,
)
    requires
        n <= m,
        db.turns_recovered(turns, now, n) is Err,
    ensures
        db.turns_recovered(turns, now, m) == db.turns_recovered(turns, now, n),
    decreases m,
{
    if n < m {
        lemma_recovery_error(db, turns, now, n, (m - 1) as nat);
    }
}

} // verus!

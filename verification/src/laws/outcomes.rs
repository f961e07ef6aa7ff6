//! Laws of what goes with turns that leave, of what a transcript tells of calls, and of
//! the order of the files that came with a prompt.

use crate::facts::lemma_filter_contains;
use crate::laws::listed::lemma_text_order;
use crate::laws::reading::lemma_listing;
use crate::state::compact::loaded_by;
use crate::state::db::DbModel;
use crate::state::error::StateErrorModel;
use crate::state::queue::by_upload;
use crate::state::replay::{called, telling, truncated, REPLAY_ENTRY_MAX_CHARS};
use crate::state::rows::{JournalEventRowModel, LoadedItemRowModel, UserAttachmentRowModel};
use crate::state::turns::upload_of_turn;
use crate::state::types::ReplayEntryModel;
use crate::table::{not, order_by, orders};
use crate::text::{precedes, trimmed};
use crate::textset::{lemma_precedes_irreflexive, lemma_precedes_total};
use vstd::prelude::*;

verus! {

/// Whether an item was loaded by one of the first `n` of some turns.
pub open spec fn loaded_in(
    item: LoadedItemRowModel,
    session_id: Seq<char>,
    ids: Seq<Seq<char>>,
    n: nat,
) -> bool {
    item.session_id == session_id && exists|k: int|
        0 <= k < n && item.source_turn_id == Some(#[trigger] ids[k])
}

proof fn lemma_items_leave(
    db: DbModel,
    session_id: Seq<char>,
    ids: Seq<Seq<char>>,
    n: nat,
    item: LoadedItemRowModel,
)
    requires
        n <= ids.len(),
        db.popped(session_id, ids, n) is Ok,
    ensures
        db.popped(session_id, ids, n)->Ok_0.loaded_items.contains(item) == (
        db.loaded_items.contains(item) && !loaded_in(item, session_id, ids, n)),
    decreases n,
{
    if n > 0 {
        lemma_items_leave(db, session_id, ids, (n - 1) as nat, item);
        let before = db.popped(session_id, ids, (n - 1) as nat)->Ok_0;
        lemma_filter_contains(before.loaded_items, not(loaded_by(session_id, ids[n - 1])), item);
        if loaded_in(item, session_id, ids, n) {
            let k = choose|k: int| 0 <= k < n && item.source_turn_id == Some(#[trigger] ids[k]);
            if k < n - 1 {
                assert(loaded_in(item, session_id, ids, (n - 1) as nat));
            }
        }
        if loaded_by(session_id, ids[n - 1])(item) {
            assert(item.source_turn_id == Some(ids[n - 1]));
        }
    }
}

/// With turns that leave the conversation goes what they had loaded; what others loaded
/// stays.
pub proof fn law_items_leave_with_their_turns(
    db: DbModel,
    session_id: Seq<char>,
    ids: Seq<Seq<char>>,
    expected: Option<Seq<(Seq<char>, Option<Seq<char>>)>>,
    after: DbModel,
    n: usize,
    item: LoadedItemRowModel,
)
    requires
        db.delete_visible_turns(session_id, ids, expected) == Ok::<
            (DbModel, usize),
            StateErrorModel,
        >((after, n)),
    ensures
        after.loaded_items.contains(item) == (db.loaded_items.contains(item) && !loaded_in(
            item,
            session_id,
            ids,
            ids.len(),
        )),
{
    if db.popped(session_id, ids, ids.len()) is Ok {
        lemma_items_leave(db, session_id, ids, ids.len(), item);
    }
}

/// A text that is cut shows that it is: it ends in dots where something is missing, and
/// only there.
pub proof fn law_cut_text_shows_that_it_is_cut(text: Seq<char>, max: nat)
    ensures
        text.len() <= max ==> truncated(text, max) == text,
        text.len() > max ==> truncated(text, max).len() == max + 1 && truncated(text, max).last()
            == '…' && text.take(max as int).is_prefix_of(truncated(text, max)),
{
    reveal_strlit("…");
    if text.len() > max {
        assert(truncated(text, max).take(max as int) =~= text.take(max as int));
    }
}

/// A transcript tells of a call that ended whether it succeeded, what came of it, and
/// under which name it was called.
pub proof fn law_transcript_tells_the_outcome(
    events: Seq<JournalEventRowModel>,
    call: JournalEventRowModel,
    result: JournalEventRowModel,
    id: Seq<char>,
    name: Seq<char>,
    output: Seq<char>,
)
    requires
        call.event.kind == "tool_call"@,
        call.event.call_id == Some(id),
        call.event.name == Some(name),
        name.len() > 0,
        result.event.kind == "tool_result"@,
        result.event.call_id == Some(id),
        result.event.text_payload == Some(output),
        output.len() <= REPLAY_ENTRY_MAX_CHARS,
    ensures
        ({
            let entries = telling(events.push(call).push(result)).flushed().entries;
            &&& entries.len() >= 2
            &&& entries.last() matches ReplayEntryModel::ToolResult { name: told, ok, output: shown }
            &&& told == name
            &&& shown == output
            &&& result.event.ok matches Some(fine) ==> ok == fine
            &&& result.event.ok is None ==> ok
            &&& entries[entries.len() - 2] matches ReplayEntryModel::ToolCall { name: called, .. }
            &&& called == name
        }),
{
    reveal_strlit("tool_call");
    reveal_strlit("tool_result");
    reveal_strlit("assistant_content");
    assert("tool_call"@.len() == 9);
    assert("tool_result"@.len() == 11);
    assert("assistant_content"@.len() == 17);
    let one = events.push(call);
    let two = one.push(result);
    assert(one.drop_last() =~= events);
    assert(two.drop_last() =~= one);
    let a = telling(events).step(call);
    assert(telling(one) == a);
    let names = a.names;
    assert(names.last() == (id, name));
    assert(a.text.len() == 0);
    assert(trimmed(a.text).len() == 0);
    assert(a.flushed().entries == a.entries);
    assert(called(a.flushed().names, id) == Some(name));
    let b = a.step(result);
    assert(telling(two) == b);
    assert(b.text.len() == 0);
    assert(trimmed(b.text).len() == 0);
}

proof fn lemma_uploads_are_ordered()
    ensures
        orders(by_upload()),
{
    let lt = by_upload();
    assert forall|a: UserAttachmentRowModel, b: UserAttachmentRowModel| #[trigger]
        lt(a, b) implies !lt(b, a) by {
        let x = a.attachment;
        let y = b.attachment;
        lemma_text_order(x.created_at, y.created_at, y.created_at);
        lemma_text_order(x.attachment_id, y.attachment_id, y.attachment_id);
    }
    assert forall|
        a: UserAttachmentRowModel,
        b: UserAttachmentRowModel,
        c: UserAttachmentRowModel,
    |
        !(#[trigger] lt(b, a)) && !(#[trigger] lt(c, b)) implies !lt(c, a) by {
        let x = a.attachment;
        let y = b.attachment;
        let z = c.attachment;
        lemma_text_order(x.created_at, y.created_at, z.created_at);
        lemma_text_order(x.attachment_id, y.attachment_id, z.attachment_id);
        lemma_precedes_irreflexive(x.created_at);
        lemma_precedes_irreflexive(y.created_at);
        lemma_precedes_total(x.created_at, y.created_at);
        lemma_precedes_total(y.created_at, z.created_at);
        if x.created_at == z.created_at && x.created_at != y.created_at {
            lemma_text_order(x.created_at, y.created_at, x.created_at);
        }
    }
}

/// The files that came with a prompt are read in the order in which they came.
pub proof fn law_files_are_read_in_order(db: DbModel, turn_id: Seq<char>, a: int, b: int)
    ensures
        ({
            let files = db.turn_uploads(turn_id);
            0 <= a < b < files.len() ==> !precedes(files[b].created_at, files[a].created_at)
        }),
{
    let p = upload_of_turn(turn_id);
    let lt = by_upload();
    lemma_uploads_are_ordered();
    lemma_listing(db.attachments, p, lt);
    let rows = order_by(db.attachments.filter(p), lt);
    if 0 <= a < b < rows.len() {
        assert(!lt(rows[b], rows[a]));
        lemma_precedes_irreflexive(rows[a].attachment.created_at);
    }
}

} // verus!

//! Laws of what the store keeps beside the turns themselves: transcripts, pictures
//! and files, loaded tools, bindings and permissions.

use crate::facts::{
    lemma_filter_contains, lemma_filter_none, lemma_first, lemma_order_contains, lemma_put_first,
    lemma_put_other,
};
use crate::laws::memory::lemma_trimmed_already;
use crate::laws::reading::{lemma_last_of_session, lemma_listing};
use crate::state::access::{by_grant, grant_on, grants_key};
use crate::state::assets::{
    alt_text, artifact_name, asset_of_event, fit_for_file_name, image_facts, new_artifact,
    not_control, JournalAssetModel, MAX_ASSET_BYTES, MAX_IMAGE_PIXELS, MAX_IMAGE_SIDE,
};
use crate::state::compact::completed_plain;
use crate::state::db::DbModel;
use crate::state::error::StateErrorKind;
use crate::state::journal::content_of;
use crate::state::platform::{as_binding, by_conversation, on_platform};
use crate::state::replay::{
    as_replay, last_n, telling, truncated, within_budget, Telling, REPLAY_ENTRY_MAX_CHARS,
};
use crate::state::reset::{item_named, reloaded};
use crate::state::rows::{BindingRowModel, JournalEventRowModel, LoadedItemRowModel, TurnRowModel};
use crate::state::salvage::{at_path, FoundFileModel, SalvageModel};
use crate::state::sessions::by_seq;
use crate::state::types::{
    PlatformAccessActorModel, PlatformAccessGrantKeyModel, PlatformAccessGrantModel,
    ReplayEntryModel, TurnJournalEventModel, TurnReplayModel,
};
use crate::table::{any, first, lemma_order_by_len, not, order_by};
use crate::text::{at_most, control, trimmed};
use vstd::prelude::*;

verus! {

/// The calls of tools that a transcript tells, with their arguments.
pub open spec fn calls_told(entries: Seq<ReplayEntryModel>) -> Seq<(Seq<char>, Seq<char>)>
    decreases entries.len(),
{
    if entries.len() == 0 {
        Seq::empty()
    } else {
        let before = calls_told(entries.drop_last());
        match entries.last() {
            ReplayEntryModel::ToolCall { name, arguments } => before.push((name, arguments)),
            _ => before,
        }
    }
}

/// The calls of tools that a journal holds, with their arguments as far as they are
/// told.
pub open spec fn calls_made(events: Seq<JournalEventRowModel>) -> Seq<(Seq<char>, Seq<char>)>
    decreases events.len(),
{
    if events.len() == 0 {
        Seq::empty()
    } else {
        let before = calls_made(events.drop_last());
        let event = events.last().event;
        match event.name {
            Some(name) if event.kind == "tool_call"@ => before.push(
                (
                    name,
                    truncated(
                        match event.text_payload {
                            Some(text) => text,
                            None => Seq::empty(),
                        },
                        REPLAY_ENTRY_MAX_CHARS as nat,
                    ),
                ),
            ),
            _ => before,
        }
    }
}

proof fn lemma_flush_tells_no_call(t: Telling)
    ensures
        calls_told(t.flushed().entries) == calls_told(t.entries),
{
    if trimmed(t.text).len() != 0 {
        assert(t.flushed().entries.drop_last() =~= t.entries);
    }
}

proof fn lemma_pushed_entry(entries: Seq<ReplayEntryModel>, entry: ReplayEntryModel)
    ensures
        entries.push(entry).drop_last() == entries,
        entries.push(entry).last() == entry,
{
    assert(entries.push(entry).drop_last() =~= entries);
}

proof fn lemma_kinds()
    ensures
        "assistant_content"@ != "tool_call"@,
        "tool_result"@ != "tool_call"@,
        "assistant_content"@ != "tool_result"@,
{
    reveal_strlit("assistant_content");
    reveal_strlit("tool_call");
    reveal_strlit("tool_result");
    assert("assistant_content"@.len() == 17);
    assert("tool_call"@.len() == 9);
    assert("tool_result"@.len() == 11);
}

/// A transcript tells every call of a tool that the journal names, in order, with
/// its arguments as far as they are not too long.
pub proof fn law_transcript_tells_the_calls(events: Seq<JournalEventRowModel>)
    ensures
        calls_told(telling(events).flushed().entries) == calls_made(events),
    decreases events.len(),
{
    lemma_kinds();
    if events.len() == 0 {
        lemma_flush_tells_no_call(telling(events));
    } else {
        let rest = events.drop_last();
        law_transcript_tells_the_calls(rest);
        let before = telling(rest);
        let r = events.last();
        lemma_flush_tells_no_call(before);
        let done = before.flushed();
        let after = telling(events);
        lemma_flush_tells_no_call(after);
        if r.event.kind == "assistant_content"@ {
            assert(after.entries == before.entries);
        } else if after.entries.len() > done.entries.len() {
            lemma_pushed_entry(done.entries, after.entries.last());
            assert(after.entries =~= done.entries.push(after.entries.last()));
        } else {
            assert(after.entries == done.entries);
        }
    }
}

/// What an entry that is a text says; nothing for another.
pub open spec fn text_in(entry: ReplayEntryModel) -> Seq<char> {
    match entry {
        ReplayEntryModel::Text { text } => text,
        _ => Seq::empty(),
    }
}

/// What was said without a call of a tool is told in one piece.
pub proof fn law_plain_answer_is_told(events: Seq<JournalEventRowModel>)
    requires
        forall|i: int|
            0 <= i < events.len() ==> (#[trigger] events[i]).event.kind == "assistant_content"@,
    ensures
        telling(events).text == content_of(events),
        telling(events).entries.len() == 0,
        trimmed(content_of(events)).len() > 0
            ==> telling(events).flushed().entries.len() == 1 && text_in(
            telling(events).flushed().entries[0],
        ) == truncated(content_of(events), REPLAY_ENTRY_MAX_CHARS as nat),
    decreases events.len(),
{
    if events.len() > 0 {
        let rest = events.drop_last();
        assert forall|i: int| 0 <= i < rest.len() implies (#[trigger] rest[i]).event.kind
            == "assistant_content"@ by {
            assert(rest[i] == events[i]);
        }
        law_plain_answer_is_told(rest);
        assert(events[events.len() - 1].event.kind == "assistant_content"@);
        let text = content_of(rest);
        assert(text + Seq::<char>::empty() =~= text);
    }
}

/// The transcript of a turn is kept with the turn, and no other turn changes.
pub proof fn law_transcript_is_kept(db: DbModel, turn_id: Seq<char>, i: int)
    requires
        0 <= i < db.turns.len(),
    ensures
        ({
            let after = db.store_replay_journal(turn_id);
            let told = db.transcript(turn_id);
            &&& after.turns.len() == db.turns.len()
            &&& after == (DbModel { turns: after.turns, ..db })
            &&& db.turns[i].turn_id != turn_id || told.len() == 0 ==> after.turns[i] == db.turns[i]
            &&& db.turns[i].turn_id == turn_id && told.len() > 0 ==> {
                &&& after.turns[i].replay_journal == Some(within_budget(told))
                &&& after.turns[i] == (TurnRowModel {
                    replay_journal: after.turns[i].replay_journal,
                    ..db.turns[i]
                })
            }
        }),
{
}

/// Whether a turn is shown again: what it showed as asked, what was answered, and
/// its transcript.
pub open spec fn shows_again(shown: TurnReplayModel, row: TurnRowModel) -> bool {
    &&& shown.display_content == row.display_content
    &&& shown.assistant_content == row.assistant_content
    &&& row.replay_journal matches Some(entries) ==> shown.entries == entries
    &&& row.replay_journal is None ==> shown.entries.len() == 0
}

/// Who comes back to a session is shown its latest completed turns, no more than
/// were asked for, and the last one last.
pub proof fn law_latest_turns_are_shown_again(
    db: DbModel,
    session_id: Seq<char>,
    n: nat,
    i: int,
)
    requires
        0 <= i < db.turns.len(),
        db.turns[i].session_id == session_id,
        !db.turns[i].hidden,
        !db.turns[i].is_summary,
        db.turns[i].status == "completed"@,
        forall|k: int|
            0 <= k < db.turns.len() && k != i && (#[trigger] db.turns[k]).session_id == session_id
                && !db.turns[k].hidden && !db.turns[k].is_summary && db.turns[k].status
                == "completed"@ ==> db.turns[k].seq < db.turns[i].seq,
        n > 0,
    ensures
        ({
            let shown = db.session_replay(session_id, n);
            let all = db.turns.filter(
                |r: TurnRowModel|
                    r.session_id == session_id && !r.hidden && !r.is_summary && r.status
                        == "completed"@,
            ).len();
            &&& shown.len() == if n < all {
                n
            } else {
                all
            }
            &&& shown.len() > 0
            &&& shows_again(shown.last(), db.turns[i])
            &&& forall|k: int|
                0 <= k < shown.len() ==> exists|j: int|
                    0 <= j < db.turns.len() && (#[trigger] db.turns[j]).session_id == session_id
                        && !db.turns[j].hidden && !db.turns[j].is_summary && db.turns[j].status
                        == "completed"@ && shows_again(#[trigger] shown[k], db.turns[j])
        }),
{
    let p = completed_plain(session_id);
    assert(p =~= |r: TurnRowModel|
        r.session_id == session_id && !r.hidden && !r.is_summary && r.status == "completed"@);
    lemma_last_of_session(db, p, i);
    lemma_listing(db.turns, p, by_seq());
    let rows = order_by(db.turns.filter(p), by_seq());
    let last = last_n(rows, n);
    let shown = db.session_replay(session_id, n);
    assert(last.last() == rows.last());
    assert(shown.last() == as_replay()(rows.last()));
    assert forall|k: int| 0 <= k < shown.len() implies exists|j: int|
        0 <= j < db.turns.len() && (#[trigger] db.turns[j]).session_id == session_id
            && !db.turns[j].hidden && !db.turns[j].is_summary && db.turns[j].status
            == "completed"@ && shows_again(#[trigger] shown[k], db.turns[j]) by {
        let row = last[k];
        let at = if rows.len() <= n {
            k
        } else {
            k + rows.len() - n
        };
        assert(rows[at] == row);
        assert(rows.contains(row));
        let j = db.turns.index_of(row);
        assert(shows_again(shown[k], db.turns[j]));
    }
}

/// A picture is stored with its bytes, for its turn and its call, with the size and
/// the type that it has. It is refused where it is too large, is no picture, or has
/// unfit sides; each is told apart.
pub proof fn law_picture_is_stored(
    db: DbModel,
    turn_id: Seq<char>,
    tool_id: Option<Seq<char>>,
    file_name: Seq<char>,
    bytes: Seq<u8>,
    alt: Seq<char>,
    nanos: u128,
    salt: u64,
    now: Seq<char>,
)
    ensures
        ({
            let done = db.save_image_asset(
                turn_id,
                tool_id,
                file_name,
                bytes,
                alt,
                nanos,
                salt,
                now,
            );
            let facts = image_facts(bytes);
            let fit = facts matches Some((mime, width, height)) && 0 < width <= MAX_IMAGE_SIDE && 0
                < height <= MAX_IMAGE_SIDE && width * height <= MAX_IMAGE_PIXELS;
            &&& done is Ok <==> bytes.len() <= MAX_ASSET_BYTES && fit
            &&& bytes.len() > MAX_ASSET_BYTES ==> (done matches Err(error) && error.kind
                == StateErrorKind::ImageTooLarge)
            &&& bytes.len() <= MAX_ASSET_BYTES && facts is None ==> (done matches Err(error)
                && error.kind == StateErrorKind::ImageUnreadable)
            &&& bytes.len() <= MAX_ASSET_BYTES && facts is Some && !fit ==> (done matches Err(error)
                && error.kind == StateErrorKind::ImageDimensions)
            &&& done matches Ok((after, asset)) ==> {
                &&& after.images.len() == db.images.len() + 1
                &&& after.images.drop_last() == db.images
                &&& after.images.last().bytes == bytes
                &&& after.images.last().asset == asset
                &&& after == (DbModel { images: after.images, ..db })
                &&& asset.turn_id == turn_id
                &&& asset.tool_id == tool_id
                &&& asset.created_at == now
                &&& facts == Some((asset.mime, asset.width, asset.height))
            }
        }),
{
    if let Ok((after, asset)) = db.save_image_asset(
        turn_id,
        tool_id,
        file_name,
        bytes,
        alt,
        nanos,
        salt,
        now,
    ) {
        assert(after.images.drop_last() =~= db.images);
    }
}

proof fn lemma_filter_short(s: Seq<char>, p: spec_fn(char) -> bool)
    ensures
        s.filter(p).len() <= s.len(),
        forall|i: int| 0 <= i < s.filter(p).len() ==> p(#[trigger] s.filter(p)[i]),
        (forall|i: int| 0 <= i < s.len() ==> p(#[trigger] s[i])) ==> s.filter(p) == s,
    decreases s.len(),
{
    reveal(Seq::filter);
    if s.len() > 0 {
        lemma_filter_short(s.drop_last(), p);
        if forall|i: int| 0 <= i < s.len() ==> p(#[trigger] s[i]) {
            assert forall|i: int| 0 <= i < s.drop_last().len() implies p(
                #[trigger] s.drop_last()[i],
            ) by {
                assert(s.drop_last()[i] == s[i]);
            }
            assert(p(s[s.len() - 1]));
            assert(s.drop_last().push(s.last()) =~= s);
        }
    } else {
        assert(s.filter(p) =~= s);
    }
}

/// What was asked for, but for white space around it; where nothing was, a name of
/// its own.
pub open spec fn wanted_name(asked: Seq<char>, own: Seq<char>) -> Seq<char> {
    if trimmed(asked).len() > 0 {
        trimmed(asked)
    } else {
        own
    }
}

/// What a picture is called for those who cannot see it is what was asked for, but
/// for white space around it; where nothing was asked for, the name of its file. It
/// holds no control character and is not too long.
pub proof fn law_picture_is_described(alt: Seq<char>, file_name: Seq<char>)
    ensures
        ({
            let wanted = wanted_name(alt, file_name);
            let told = alt_text(alt, file_name);
            &&& told.len() <= 500
            &&& forall|i: int| 0 <= i < told.len() ==> !control(#[trigger] told[i])
            &&& wanted.len() <= 500 && (forall|i: int|
                0 <= i < wanted.len() ==> !control(#[trigger] wanted[i])) ==> told == wanted
        }),
{
    let wanted = wanted_name(alt, file_name);
    let p = not_control();
    lemma_filter_short(wanted, p);
    let kept = wanted.filter(p);
    let told = alt_text(alt, file_name);
    assert forall|i: int| 0 <= i < told.len() implies !control(#[trigger] told[i]) by {
        assert(told[i] == kept[i]);
        assert(p(kept[i]));
    }
    if forall|i: int| 0 <= i < wanted.len() ==> !control(#[trigger] wanted[i]) {
        assert forall|i: int| 0 <= i < wanted.len() implies p(#[trigger] wanted[i]) by {}
    }
}

/// A file that a turn produced is called by a name that leads nowhere else: it holds
/// no slash and no control character, is not blank and not too long. A name that is
/// fit is kept.
pub proof fn law_file_is_named(title: Seq<char>, file_name: Seq<char>)
    ensures
        ({
            let wanted = wanted_name(title, file_name);
            let name = artifact_name(title, file_name);
            &&& 0 < name.len() <= 180
            &&& trimmed(name).len() > 0
            &&& forall|i: int|
                0 <= i < name.len() ==> !control(#[trigger] name[i]) && name[i] != '/' && name[i]
                    != '\\'
            &&& trimmed(wanted).len() > 0 && wanted.len() <= 180 && (forall|i: int|
                0 <= i < wanted.len() ==> !control(#[trigger] wanted[i]) && wanted[i] != '/'
                    && wanted[i] != '\\') ==> name == wanted
        }),
{
    let wanted = wanted_name(title, file_name);
    let p = fit_for_file_name();
    lemma_filter_short(wanted, p);
    let kept = wanted.filter(p);
    let cut = at_most(kept, 180);
    let name = artifact_name(title, file_name);
    reveal_strlit("artifact");
    lemma_trimmed_already("artifact"@);
    if cut.len() == 0 {
        assert(cut =~= Seq::<char>::empty());
        assert(trimmed(cut).len() == 0);
    }
    assert forall|i: int| 0 <= i < name.len() implies !control(#[trigger] name[i]) && name[i] != '/'
        && name[i] != '\\' by {
        if name == cut {
            assert(name[i] == kept[i]);
            assert(p(kept[i]));
        }
    }
    if forall|i: int|
        0 <= i < wanted.len() ==> !control(#[trigger] wanted[i]) && wanted[i] != '/' && wanted[i]
            != '\\' {
        assert forall|i: int| 0 <= i < wanted.len() implies p(#[trigger] wanted[i]) by {}
    }
}

/// A file is described for its turn and its call, with its size and type. It is
/// refused exactly where it is empty or too large. One that lies in the directory of
/// the session is the same file whichever turn wrote it.
pub proof fn law_file_is_described(
    session_id: Seq<char>,
    turn_id: Seq<char>,
    other_turn: Seq<char>,
    tool_id: Option<Seq<char>>,
    source_key: Seq<char>,
    file_name: Seq<char>,
    managed: bool,
    media: (Seq<char>, Seq<char>),
    size: nat,
    title: Seq<char>,
    now: Seq<char>,
)
    ensures
        ({
            let done = new_artifact(
                session_id,
                turn_id,
                tool_id,
                source_key,
                file_name,
                managed,
                media,
                size,
                title,
                now,
            );
            let again = new_artifact(
                session_id,
                other_turn,
                tool_id,
                source_key,
                file_name,
                managed,
                media,
                size,
                title,
                now,
            );
            &&& done is Ok <==> 0 < size <= MAX_ASSET_BYTES
            &&& done matches Ok(asset) ==> {
                &&& asset.turn_id == turn_id
                &&& asset.tool_id == tool_id
                &&& asset.source_key == source_key
                &&& asset.mime == media.0
                &&& asset.kind == media.1
                &&& asset.size_bytes == size
                &&& asset.file_name == artifact_name(title, file_name)
                &&& asset.created_at == now
                &&& asset.updated_at == now
                &&& managed ==> again->Ok_0.asset_id == asset.asset_id
            }
        }),
{
}

/// Every picture that is recovered for a turn holds the bytes of a file that was
/// found, and what was stored before stays.
pub proof fn law_recovered_pictures_were_found(
    salvage: SalvageModel,
    own: (Seq<char>, Seq<char>),
    turn_id: Seq<char>,
    events: Seq<TurnJournalEventModel>,
    files: Seq<FoundFileModel>,
    stamps: Seq<(u128, u64)>,
    now: Seq<char>,
    n: nat,
    k: int,
)
    requires
        n <= events.len(),
    ensures
        ({
            let after = salvage.steps(own, turn_id, events, files, stamps, now, n);
            &&& salvage.db.images.is_prefix_of(after.db.images)
            &&& after.db == (DbModel { images: after.db.images, ..salvage.db })
            &&& salvage.db.images.len() <= k < after.db.images.len() ==> {
                let stored = after.db.images[k];
                &&& stored.asset.turn_id == turn_id
                &&& exists|e: int, f: int|
                    0 <= e < n && 0 <= f < files.len() && (#[trigger] events[e]).kind == "image"@
                        && events[e].call_id == stored.asset.tool_id && (
                    #[trigger] files[f]).bytes == stored.bytes
            }
        }),
    decreases n,
{
    if n > 0 {
        law_recovered_pictures_were_found(
            salvage,
            own,
            turn_id,
            events,
            files,
            stamps,
            now,
            (n - 1) as nat,
            k,
        );
        let before = salvage.steps(own, turn_id, events, files, stamps, now, (n - 1) as nat);
        let after = salvage.steps(own, turn_id, events, files, stamps, now, n);
        assert(before.db.images.is_prefix_of(before.db.images));
        if after.db.images.len() > before.db.images.len() {
            let event = events[n - 1];
            if let Some(JournalAssetModel::Image { path, alt }) = asset_of_event(event) {
                lemma_first(files, at_path(path));
                let file = first(files, at_path(path))->0;
                let f = files.index_of(file);
                assert(files[f].bytes == file.bytes);
                assert(events[n - 1].kind == "image"@);
                assert(after.db.images =~= before.db.images.push(after.db.images.last()));
                assert(after.db.images.last().bytes == files[f].bytes);
            }
        }
        if salvage.db.images.len() <= k < before.db.images.len() {
            assert(after.db.images[k] == before.db.images[k]);
        }
        assert forall|i: int| 0 <= i < salvage.db.images.len() implies after.db.images[i]
            == salvage.db.images[i] by {
            assert(before.db.images[i] == salvage.db.images[i]);
        }
        assert(salvage.db.images.is_prefix_of(after.db.images)) by {
            assert(after.db.images.subrange(0, salvage.db.images.len() as int)
                =~= salvage.db.images);
        }
    } else {
        assert(salvage.db.images.subrange(0, salvage.db.images.len() as int)
            =~= salvage.db.images);
    }
}

/// Whether a session has an item of a kind loaded.
pub open spec fn has_loaded(
    db: DbModel,
    session_id: Seq<char>,
    kind: Seq<char>,
    name: Seq<char>,
) -> bool {
    exists|i: int|
        0 <= i < db.loaded_items.len() && (#[trigger] db.loaded_items[i]).session_id == session_id
            && db.loaded_items[i].kind == kind && db.loaded_items[i].name == name
}

proof fn lemma_has_loaded(
    db: DbModel,
    session_id: Seq<char>,
    kind: Seq<char>,
    name: Seq<char>,
)
    ensures
        has_loaded(db, session_id, kind, name) == any(
            db.loaded_items,
            item_named(session_id, kind, name),
        ),
{
    let p = item_named(session_id, kind, name);
    if any(db.loaded_items, p) {
        let i = choose|i: int| 0 <= i < db.loaded_items.len() && p(#[trigger] db.loaded_items[i]);
        assert(db.loaded_items[i].name == name);
    }
    if has_loaded(db, session_id, kind, name) {
        let i = choose|i: int|
            0 <= i < db.loaded_items.len() && (#[trigger] db.loaded_items[i]).session_id
                == session_id && db.loaded_items[i].kind == kind && db.loaded_items[i].name
                == name;
        assert(p(db.loaded_items[i]));
    }
}

/// What a session loads it has loaded: every name that is not blank, but for white
/// space around it, and what it had before. Nothing is loaded for another session,
/// nor under another kind. The number of names that were not blank is told.
pub proof fn law_loaded_items_are_kept(
    db: DbModel,
    session_id: Seq<char>,
    kind: Seq<char>,
    names: Seq<Seq<char>>,
    source: Option<Seq<char>>,
    now: Seq<char>,
    n: nat,
    other_session: Seq<char>,
    other_kind: Seq<char>,
    name: Seq<char>,
)
    requires
        n <= names.len(),
    ensures
        ({
            let (after, told) = db.items_added(session_id, kind, names, source, now, n);
            let asked = exists|k: int|
                0 <= k < n && trimmed(#[trigger] names[k]) == name && name.len() > 0;
            &&& has_loaded(after, other_session, other_kind, name) == (has_loaded(
                db,
                other_session,
                other_kind,
                name,
            ) || (other_session == session_id && other_kind == kind && asked))
            &&& after == (DbModel { loaded_items: after.loaded_items, ..db })
            &&& told <= n
        }),
    decreases n,
{
    if n > 0 {
        law_loaded_items_are_kept(
            db,
            session_id,
            kind,
            names,
            source,
            now,
            (n - 1) as nat,
            other_session,
            other_kind,
            name,
        );
        let (before, told) = db.items_added(
            session_id,
            kind,
            names,
            source,
            now,
            (n - 1) as nat,
        );
        let (after, _) = db.items_added(session_id, kind, names, source, now, n);
        let added = trimmed(names[n - 1]);
        lemma_has_loaded(before, other_session, other_kind, name);
        lemma_has_loaded(after, other_session, other_kind, name);
        let q = item_named(other_session, other_kind, name);
        let asked_before = exists|k: int|
            0 <= k < n - 1 && trimmed(#[trigger] names[k]) == name && name.len() > 0;
        let asked = exists|k: int|
            0 <= k < n && trimmed(#[trigger] names[k]) == name && name.len() > 0;
        if asked_before {
            let k = choose|k: int|
                0 <= k < n - 1 && trimmed(#[trigger] names[k]) == name && name.len() > 0;
            assert(trimmed(names[k]) == name);
            assert(asked);
        }
        if asked && !asked_before {
            let k = choose|k: int|
                0 <= k < n && trimmed(#[trigger] names[k]) == name && name.len() > 0;
            assert(k == n - 1);
        }
        if added.len() > 0 {
            let p = item_named(session_id, kind, added);
            let f = reloaded(source, now);
            let row = LoadedItemRowModel {
                session_id,
                kind,
                name: added,
                source_turn_id: source,
                created_at: now,
                updated_at: now,
            };
            lemma_first(before.loaded_items, q);
            lemma_first(after.loaded_items, q);
            if other_session == session_id && other_kind == kind && name == added {
                assert(p =~= q);
                lemma_put_first(before.loaded_items, p, f, row);
                assert(trimmed(names[n - 1]) == name);
                assert(asked);
            } else {
                lemma_put_other(before.loaded_items, p, f, row, q);
            }
        }
    }
}

/// The list of a persona's bindings on a platform holds each that there is, with its
/// conversation and its session, and no other.
pub proof fn law_bindings_are_listed(
    db: DbModel,
    persona: Seq<char>,
    platform: Seq<char>,
    row: BindingRowModel,
)
    ensures
        ({
            let list = db.platform_session_bindings(persona, platform);
            &&& list.len() == db.bindings.filter(
                |r: BindingRowModel| r.persona == persona && r.platform == platform,
            ).len()
            &&& db.bindings.contains(row) && row.persona == persona && row.platform == platform
                ==> exists|k: int|
                0 <= k < list.len() && {
                    let told = #[trigger] list[k];
                    &&& told.session_id == row.session_id
                    &&& told.key.platform == platform
                    &&& told.key.persona == persona
                    &&& told.key.account_id == row.account_id
                    &&& told.key.conversation_kind == row.conversation_kind
                    &&& told.key.conversation_id == row.conversation_id
                    &&& row.participant_id.len() > 0 ==> told.key.participant_id == Some(
                        row.participant_id,
                    )
                    &&& row.participant_id.len() == 0 ==> told.key.participant_id is None
                }
            &&& forall|k: int|
                0 <= k < list.len() ==> (#[trigger] list[k]).key.persona == persona
                    && list[k].key.platform == platform
        }),
{
    let p = on_platform(persona, platform);
    assert(p =~= |r: BindingRowModel| r.persona == persona && r.platform == platform);
    let mine = db.bindings.filter(p);
    let rows = order_by(mine, by_conversation());
    let list = db.platform_session_bindings(persona, platform);
    lemma_order_by_len(mine, by_conversation());
    lemma_order_contains(mine, by_conversation(), row);
    lemma_filter_contains(db.bindings, p, row);
    if db.bindings.contains(row) && p(row) {
        let k = rows.index_of(row);
        assert(rows[k] == row);
        assert(list[k] == as_binding()(row));
    }
    assert forall|k: int| 0 <= k < list.len() implies (#[trigger] list[k]).key.persona == persona
        && list[k].key.platform == platform by {
        assert(rows.contains(rows[k]));
        lemma_order_contains(mine, by_conversation(), rows[k]);
        lemma_filter_contains(db.bindings, p, rows[k]);
    }
}

/// The list of permissions holds each that was given, on one platform or on all, and
/// no other.
pub proof fn law_permissions_are_listed(
    db: DbModel,
    platform: Option<Seq<char>>,
    grant: PlatformAccessGrantModel,
)
    ensures
        db.platform_access_grants(platform).contains(grant) == (db.grants.contains(grant) && (
        platform matches Some(name) ==> grant.key.platform == name)),
        db.platform_access_grants(None).len() == db.grants.len(),
{
    lemma_order_contains(db.grants.filter(grant_on(platform)), by_grant(), grant);
    lemma_filter_contains(db.grants, grant_on(platform), grant);
    let all = grant_on(None);
    assert(!any(db.grants, not(all)));
    lemma_filter_none(db.grants, not(all));
    assert(not(not(all)) =~= all);
    lemma_order_by_len(db.grants.filter(all), by_grant());
}

/// Giving a permission adds it, with who gave it and when, and takes none away;
/// taking it back takes it and no other. Each leaves a line that says what was done,
/// by whom and when, and where it was done already there is neither change nor line.
pub proof fn law_permission_changes_are_recorded(
    db: DbModel,
    key: PlatformAccessGrantKeyModel,
    actor: PlatformAccessActorModel,
    audit_id: Seq<char>,
    now: Seq<char>,
    grant: PlatformAccessGrantModel,
)
    ensures
        ({
            let given = exists|i: int|
                0 <= i < db.grants.len() && (#[trigger] db.grants[i]).key == key;
            let (after, changed) = db.add_platform_access_grant(key, actor, audit_id, now);
            &&& changed == !given
            &&& given ==> after == db
            &&& !given ==> {
                let line = after.audit.last();
                &&& after.grants == db.grants.push(
                    PlatformAccessGrantModel { key, granted_by: actor, created_at: now },
                )
                &&& after.audit.len() == db.audit.len() + 1
                &&& after.audit.drop_last() == db.audit
                &&& line.operation == "grant"@
                &&& line.key == key
                &&& line.actor == actor
                &&& line.audit_id == audit_id
                &&& line.created_at == now
                &&& after.sessions == db.sessions
                &&& after.turns == db.turns
            }
        }),
        ({
            let given = exists|i: int|
                0 <= i < db.grants.len() && (#[trigger] db.grants[i]).key == key;
            let (after, changed) = db.remove_platform_access_grant(key, actor, audit_id, now);
            &&& changed == given
            &&& !given ==> after == db
            &&& given ==> {
                let line = after.audit.last();
                &&& after.grants.contains(grant) == (db.grants.contains(grant) && grant.key != key)
                &&& after.audit.len() == db.audit.len() + 1
                &&& after.audit.drop_last() == db.audit
                &&& line.operation == "revoke"@
                &&& line.key == key
                &&& line.actor == actor
                &&& line.audit_id == audit_id
                &&& line.created_at == now
                &&& after.sessions == db.sessions
                &&& after.turns == db.turns
            }
        }),
{
    let p = grants_key(key);
    if any(db.grants, p) {
        let i = choose|i: int| 0 <= i < db.grants.len() && p(#[trigger] db.grants[i]);
        assert(db.grants[i].key == key);
    }
    if exists|i: int| 0 <= i < db.grants.len() && (#[trigger] db.grants[i]).key == key {
        let i = choose|i: int| 0 <= i < db.grants.len() && (#[trigger] db.grants[i]).key == key;
        assert(p(db.grants[i]));
    }
    lemma_filter_contains(db.grants, not(p), grant);
    let given = db.add_platform_access_grant(key, actor, audit_id, now).0;
    let taken = db.remove_platform_access_grant(key, actor, audit_id, now).0;
    if any(db.grants, p) {
        assert(taken.audit.drop_last() =~= db.audit);
    } else {
        assert(given.audit.drop_last() =~= db.audit);
    }
}

} // verus!

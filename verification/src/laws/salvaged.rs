//! Laws of what is brought back from a journal, of what is written into the directory
//! of a session, and of the points that a redo goes back to.

use crate::facts::{lemma_filter_contains, lemma_first, lemma_put_first};
use crate::json::{json_strings, parsed_field, strings_or_none};
use crate::laws::filed::{belongs, lemma_belongs};
use crate::laws::secrets::lemma_first_is;
use crate::paths::same_path;
use crate::state::assets::{
    asset_of_event, fit_to_store, image_facts, JournalAssetModel, MAX_ASSET_BYTES,
};
use crate::state::checkpoint::{
    checkpoint_json, checkpoint_of, image_of, MAX_REDO_CHECKPOINT_BYTES, REDO_CHECKPOINT_VERSION,
};
use crate::state::db::DbModel;
use crate::state::plugin::{at_key, in_scope};
use crate::state::rows::{CheckpointRowModel, PluginKvRowModel};
use crate::state::salvage::{
    at_path, has_artifact, has_image, target_of, writes, ArtifactPlaceModel, FoundFileModel,
    SalvageModel,
};
use crate::state::types::{
    ArtifactAssetDataModel, ImageAssetModel, PlatformPluginScopeKeyModel, TurnJournalEventModel,
    TurnRedoCheckpointPayloadModel,
};
use crate::table::{any, first, not};
use crate::text::byte_len;
use vstd::prelude::*;

verus! {

/// Whether a picture is in the store.
pub open spec fn is_stored(db: DbModel, asset: ImageAssetModel) -> bool {
    exists|i: int| 0 <= i < db.images.len() && (#[trigger] db.images[i]).asset == asset
}

/// Whether what is known to be stored is in the store.
pub open spec fn all_stored(salvage: SalvageModel) -> bool {
    forall|a: int|
        0 <= a < salvage.images.len() ==> is_stored(salvage.db, #[trigger] salvage.images[a])
}

/// Whether a turn has a picture from a call.
pub open spec fn has_picture_of(
    db: DbModel,
    call_id: Option<Seq<char>>,
) -> bool {
    exists|i: int| 0 <= i < db.images.len() && (#[trigger] db.images[i]).asset.tool_id == call_id
}

proof fn lemma_images_grow(
    salvage: SalvageModel,
    own: (Seq<char>, Seq<char>),
    turn_id: Seq<char>,
    event: TurnJournalEventModel,
    files: Seq<FoundFileModel>,
    stamp: (u128, u64),
    now: Seq<char>,
)
    requires
        all_stored(salvage),
    ensures
        all_stored(salvage.step(own, turn_id, event, files, stamp, now)),
        ({
            let after = salvage.step(own, turn_id, event, files, stamp, now);
            &&& after.db.images.len() >= salvage.db.images.len()
            &&& forall|i: int|
                0 <= i < salvage.db.images.len() ==> #[trigger] after.db.images[i]
                    == salvage.db.images[i]
        }),
{
    let after = salvage.step(own, turn_id, event, files, stamp, now);
    assert forall|a: int| 0 <= a < after.images.len() implies is_stored(
        after.db,
        #[trigger] after.images[a],
    ) by {
        if a < salvage.images.len() {
            assert(after.images[a] == salvage.images[a]);
            assert(is_stored(salvage.db, salvage.images[a]));
            let i = choose|i: int|
                0 <= i < salvage.db.images.len() && (#[trigger] salvage.db.images[i]).asset
                    == salvage.images[a];
            assert(after.db.images[i].asset == after.images[a]);
        } else {
            let i = after.db.images.len() - 1;
            assert(after.db.images[i].asset == after.images[a]);
        }
    }
}

/// A picture that the journal tells of, and that is found and can be stored, is in the
/// store afterwards.
pub proof fn law_told_pictures_are_brought_back(
    salvage: SalvageModel,
    own: (Seq<char>, Seq<char>),
    turn_id: Seq<char>,
    events: Seq<TurnJournalEventModel>,
    files: Seq<FoundFileModel>,
    stamps: Seq<(u128, u64)>,
    now: Seq<char>,
    n: nat,
    k: int,
    path: Seq<char>,
    alt: Seq<char>,
    f: int,
)
    requires
        all_stored(salvage),
        0 <= k < n <= events.len(),
        asset_of_event(events[k]) == Some((JournalAssetModel::Image { path, alt })),
        0 <= f < files.len(),
        files[f].path == path,
        forall|g: int| 0 <= g < f ==> (#[trigger] files[g]).path != path,
        files[f].bytes.len() <= MAX_ASSET_BYTES,
        image_facts(files[f].bytes) matches Some((mime, width, height)) && fit_to_store(
            width,
            height,
        ),
    ensures
        all_stored(salvage.steps(own, turn_id, events, files, stamps, now, n)),
        has_picture_of(
            salvage.steps(own, turn_id, events, files, stamps, now, n).db,
            events[k].call_id,
        ),
    decreases n,
{
    let before = salvage.steps(own, turn_id, events, files, stamps, now, (n - 1) as nat);
    let after = salvage.steps(own, turn_id, events, files, stamps, now, n);
    lemma_stored_on_the_way(salvage, own, turn_id, events, files, stamps, now, (n - 1) as nat);
    lemma_images_grow(before, own, turn_id, events[n - 1], files, stamps[n - 1], now);
    if k < n - 1 {
        law_told_pictures_are_brought_back(
            salvage,
            own,
            turn_id,
            events,
            files,
            stamps,
            now,
            (n - 1) as nat,
            k,
            path,
            alt,
            f,
        );
        let i = choose|i: int|
            0 <= i < before.db.images.len() && (#[trigger] before.db.images[i]).asset.tool_id
                == events[k].call_id;
        assert(after.db.images[i] == before.db.images[i]);
    } else {
        lemma_first_is(files, at_path(path), f);
        if has_image(before.images, events[k].call_id, alt) {
            let a = choose|a: int|
                0 <= a < before.images.len() && (#[trigger] before.images[a]).tool_id
                    == events[k].call_id && before.images[a].alt == alt;
            assert(is_stored(before.db, before.images[a]));
            let i = choose|i: int|
                0 <= i < before.db.images.len() && (#[trigger] before.db.images[i]).asset
                    == before.images[a];
            assert(after.db.images[i].asset.tool_id == events[k].call_id);
        } else {
            let i = after.db.images.len() - 1;
            assert(after.db.images[i].asset.tool_id == events[k].call_id);
        }
    }
}

proof fn lemma_stored_on_the_way(
    salvage: SalvageModel,
    own: (Seq<char>, Seq<char>),
    turn_id: Seq<char>,
    events: Seq<TurnJournalEventModel>,
    files: Seq<FoundFileModel>,
    stamps: Seq<(u128, u64)>,
    now: Seq<char>,
    n: nat,
)
    requires
        all_stored(salvage),
        n <= events.len(),
    ensures
        all_stored(salvage.steps(own, turn_id, events, files, stamps, now, n)),
    decreases n,
{
    if n > 0 {
        let m = (n - 1) as nat;
        lemma_stored_on_the_way(salvage, own, turn_id, events, files, stamps, now, m);
        lemma_images_grow(
            salvage.steps(own, turn_id, events, files, stamps, now, m),
            own,
            turn_id,
            events[n - 1],
            files,
            stamps[n - 1],
            now,
        );
    }
}

/// What is known of a turn before anything is brought back is in the store.
pub proof fn law_salvage_begins_with_the_store(db: DbModel, turn_id: Seq<char>)
    ensures
        all_stored(db.salvage(turn_id)),
        db.salvage(turn_id).db == db,
        db.salvage(turn_id).made.len() == 0,
{
    let salvage = db.salvage(turn_id);
    let p = image_of(turn_id);
    let kept = db.images.filter(p);
    assert forall|a: int| 0 <= a < salvage.images.len() implies is_stored(
        salvage.db,
        #[trigger] salvage.images[a],
    ) by {
        assert(kept.contains(kept[a]));
        lemma_filter_contains(db.images, p, kept[a]);
        let i = db.images.index_of(kept[a]);
        assert(db.images[i].asset == salvage.images[a]);
    }
}

/// Whether a file from a source is known to be stored, or to be stored soon.
pub open spec fn has_file_of(salvage: SalvageModel, source_key: Seq<char>) -> bool {
    exists|i: int|
        0 <= i < salvage.artifacts.len() && (#[trigger] salvage.artifacts[i]).source_key
            == source_key
}

/// A file that the journal tells of, and that is found under a source and can be
/// stored, is among the files of the turn afterwards.
pub proof fn law_told_files_are_brought_back(
    salvage: SalvageModel,
    own: (Seq<char>, Seq<char>),
    turn_id: Seq<char>,
    events: Seq<TurnJournalEventModel>,
    files: Seq<FoundFileModel>,
    stamps: Seq<(u128, u64)>,
    now: Seq<char>,
    n: nat,
    k: int,
    path: Seq<char>,
    title: Seq<char>,
    f: int,
    source_key: Seq<char>,
)
    requires
        0 <= k < n <= events.len(),
        asset_of_event(events[k]) == Some((JournalAssetModel::Artifact { path, title })),
        0 <= f < files.len(),
        files[f].path == path,
        forall|g: int| 0 <= g < f ==> (#[trigger] files[g]).path != path,
        files[f].source_key == Some(source_key),
        0 < files[f].bytes.len() <= MAX_ASSET_BYTES,
    ensures
        has_file_of(salvage.steps(own, turn_id, events, files, stamps, now, n), source_key),
    decreases n,
{
    let before = salvage.steps(own, turn_id, events, files, stamps, now, (n - 1) as nat);
    let after = salvage.steps(own, turn_id, events, files, stamps, now, n);
    if k < n - 1 {
        law_told_files_are_brought_back(
            salvage,
            own,
            turn_id,
            events,
            files,
            stamps,
            now,
            (n - 1) as nat,
            k,
            path,
            title,
            f,
            source_key,
        );
        let i = choose|i: int|
            0 <= i < before.artifacts.len() && (#[trigger] before.artifacts[i]).source_key
                == source_key;
        assert(after.artifacts[i] == before.artifacts[i]);
    } else {
        lemma_first_is(files, at_path(path), f);
        if has_artifact(before.artifacts, source_key) {
            let i = choose|i: int|
                0 <= i < before.artifacts.len() && (#[trigger] before.artifacts[i]).source_key
                    == source_key;
            assert(after.artifacts[i].source_key == source_key);
        } else {
            let i = after.artifacts.len() - 1;
            assert(after.artifacts[i].source_key == source_key);
        }
    }
}

/// The journal tells of a picture, or of a file, by the path and the words in what it
/// recorded; other events tell of neither.
pub proof fn law_what_the_journal_tells_of(
    event: TurnJournalEventModel,
    payload: Seq<char>,
    path: Seq<char>,
    words: Seq<char>,
)
    requires
        event.text_payload == Some(payload),
        parsed_field(payload, "path"@) == Some(Some(path)),
    ensures
        event.kind == "image"@ && parsed_field(payload, "alt"@) == Some(Some(words))
            ==> asset_of_event(event) == Some((JournalAssetModel::Image { path, alt: words })),
        event.kind == "artifact"@ && parsed_field(payload, "title"@) == Some(Some(words))
            ==> asset_of_event(event) == Some(
            (JournalAssetModel::Artifact { path, title: words }),
        ),
        event.kind != "image"@ && event.kind != "artifact"@ ==> asset_of_event(event) is None,
{
    reveal_strlit("image");
    reveal_strlit("artifact");
    assert("image"@.len() == 5);
    assert("artifact"@.len() == 8);
}

/// A file is written where its source has a place, with what it holds, and nowhere
/// else.
pub proof fn law_files_are_written_where_they_belong(
    rows: Seq<ArtifactAssetDataModel>,
    places: Seq<ArtifactPlaceModel>,
    target: Seq<char>,
    bytes: Seq<u8>,
)
    ensures
        writes(rows, places).contains((target, bytes)) <==> exists|i: int|
            0 <= i < rows.len() && (#[trigger] rows[i]).bytes == bytes && target_of(
                places,
                rows[i].asset.source_key,
            ) == Some(target),
    decreases rows.len(),
{
    if rows.len() > 0 {
        let rest = rows.drop_last();
        law_files_are_written_where_they_belong(rest, places, target, bytes);
        let before = writes(rest, places);
        let all = writes(rows, places);
        if before.contains((target, bytes)) {
            let k = before.index_of((target, bytes));
            assert(all[k] == (target, bytes));
            let i = choose|i: int|
                0 <= i < rest.len() && (#[trigger] rest[i]).bytes == bytes && target_of(
                    places,
                    rest[i].asset.source_key,
                ) == Some(target);
            assert(rows[i] == rest[i]);
        }
        if rows.last().bytes == bytes && target_of(places, rows.last().asset.source_key) == Some(
            target,
        ) {
            assert(all[before.len() as int] == (target, bytes));
            assert(rows[rows.len() - 1].bytes == bytes);
        }
        if all.contains((target, bytes)) && !before.contains((target, bytes)) {
            let k = all.index_of((target, bytes));
            if k < before.len() {
                assert(before[k] == (target, bytes));
            }
        }
        if exists|i: int|
            0 <= i < rows.len() && (#[trigger] rows[i]).bytes == bytes && target_of(
                places,
                rows[i].asset.source_key,
            ) == Some(target) {
            let i = choose|i: int|
                0 <= i < rows.len() && (#[trigger] rows[i]).bytes == bytes && target_of(
                    places,
                    rows[i].asset.source_key,
                ) == Some(target);
            if i < rest.len() {
                assert(rest[i] == rows[i]);
            }
        }
    }
}

/// A file in the directory of a session is kept as long as a turn of the session has
/// one that belongs there, and is removed else.
pub proof fn law_only_what_turns_have_is_kept(
    db: DbModel,
    session_id: Seq<char>,
    places: Seq<ArtifactPlaceModel>,
    path: Seq<char>,
)
    ensures
        db.superfluous(session_id, places)(path) <==> !(exists|i: int|
            0 <= i < db.artifacts.len() && belongs(
                db.turns,
                (#[trigger] db.artifacts[i]).asset.turn_id,
                session_id,
            ) && (target_of(places, db.artifacts[i].asset.source_key) matches Some(target)
                && same_path(target, path))),
{
    let p = db.placed_at(session_id, places, path);
    if any(db.artifacts, p) {
        let i = choose|i: int| 0 <= i < db.artifacts.len() && p(#[trigger] db.artifacts[i]);
        lemma_belongs(db.turns, db.artifacts[i].asset.turn_id, session_id);
    }
    if exists|i: int|
        0 <= i < db.artifacts.len() && belongs(
            db.turns,
            (#[trigger] db.artifacts[i]).asset.turn_id,
            session_id,
        ) && (target_of(places, db.artifacts[i].asset.source_key) matches Some(target)
            && same_path(target, path)) {
        let i = choose|i: int|
            0 <= i < db.artifacts.len() && belongs(
                db.turns,
                (#[trigger] db.artifacts[i]).asset.turn_id,
                session_id,
            ) && (target_of(places, db.artifacts[i].asset.source_key) matches Some(target)
                && same_path(target, path));
        lemma_belongs(db.turns, db.artifacts[i].asset.turn_id, session_id);
        assert(p(db.artifacts[i]));
    }
}

/// A point to go back to is kept whole where it is not too large, and is told as it was
/// kept; where none was captured, or it is too large, or of another version, it is
/// told why there is none.
pub proof fn law_checkpoint_is_told_as_kept(
    db: DbModel,
    session_id: Seq<char>,
    turn_id: Seq<char>,
    prompt_ids: Seq<Seq<char>>,
    captured: TurnRedoCheckpointPayloadModel,
    now: Seq<char>,
)
    ensures
        ({
            let row = db.checkpoint_row(session_id, turn_id, prompt_ids, Some(captured), now);
            let told = db.with_checkpoint(row).redo_checkpoint(turn_id);
            &&& byte_len(checkpoint_json(db.captured(session_id, turn_id, captured)))
                <= MAX_REDO_CHECKPOINT_BYTES ==> row.payload is Some
            &&& told matches Some(checkpoint)
            &&& checkpoint.payload == row.payload
            &&& checkpoint.payload is None <==> checkpoint.unavailable_reason is Some
            &&& checkpoint.batch_prompt_ids == strings_or_none(json_strings(prompt_ids))
        }),
        ({
            let row = db.checkpoint_row(session_id, turn_id, prompt_ids, None, now);
            row.payload is None && row.unavailable_reason is Some
        }),
        db.redo_checkpoint(turn_id) matches Some(told) ==> exists|i: int|
            0 <= i < db.checkpoints.len() && (#[trigger] db.checkpoints[i]).turn_id == turn_id && (
            db.checkpoints[i].version != REDO_CHECKPOINT_VERSION ==> told.payload is None
                && told.unavailable_reason is Some),
{
    let row = db.checkpoint_row(session_id, turn_id, prompt_ids, Some(captured), now);
    let p = checkpoint_of(turn_id);
    let f = |r: CheckpointRowModel| row;
    lemma_put_first(db.checkpoints, p, f, row);
    lemma_first(db.checkpoints, p);
    if let Some(found) = first(db.checkpoints, p) {
        let i = db.checkpoints.index_of(found);
        assert(db.checkpoints[i].turn_id == turn_id);
    }
}

/// Removing the values of a scope removes all of them and tells how many there were;
/// those of other scopes stay.
pub proof fn law_values_of_a_scope_leave(
    db: DbModel,
    scope: PlatformPluginScopeKeyModel,
    key: Seq<char>,
    row: PluginKvRowModel,
)
    ensures
        db.plugin_delete_scope(scope).0.plugin_kv.contains(row) == (db.plugin_kv.contains(row)
            && row.scope != scope),
        db.plugin_delete_scope(scope).1 == db.plugin_kv.filter(
            |r: PluginKvRowModel| r.scope == scope,
        ).len(),
        db.plugin_delete_key(scope, key).0.plugin_kv.contains(row) == (db.plugin_kv.contains(row)
            && !(row.scope == scope && row.key == key)),
{
    lemma_filter_contains(db.plugin_kv, not(in_scope(scope)), row);
    lemma_filter_contains(db.plugin_kv, not(at_key(scope, key)), row);
    assert(in_scope(scope) =~= (|r: PluginKvRowModel| r.scope == scope));
}

} // verus!

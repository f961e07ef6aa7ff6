//! Redo checkpoints: what is captured, and the JSON form that limits its size.

use crate::json::{
    encode_strings,
    encode_text,
    json_strings,
    json_text,
    strings_of,
    strings_or_none,
};
use crate::state::db::{ConversationDb, DbModel};
use crate::state::rows::{
    CheckpointRow, CheckpointRowModel, LoadedItemRow, LoadedItemRowModel, QuestionRow,
    QuestionRowModel,
};
use crate::state::types::{
    ArtifactAssetData, ArtifactAssetDataModel, ChatMessage, ChatMessageModel, ImageAssetData,
    ImageAssetDataModel, TurnRedoCheckpoint, TurnRedoCheckpointModel, TurnRedoCheckpointPayload,
    TurnRedoCheckpointPayloadModel,
};
use crate::table::{
    count, count_rows, first, first_row, map_rows, order_by, put, put_row, select, sorted, Row,
};
use crate::text::{before, byte_len, decimal, decimal_text, join, joined, precedes, same};
use vstd::prelude::*;

verus! {

/// The version of the checkpoints that this store writes.
pub const REDO_CHECKPOINT_VERSION: i64 = 1;

/// How large a checkpoint may become.
pub const MAX_REDO_CHECKPOINT_BYTES: usize = 2097152;

pub open spec fn checkpoint_of(turn_id: Seq<char>) -> spec_fn(CheckpointRowModel) -> bool {
    |r: CheckpointRowModel| r.turn_id == turn_id
}

pub open spec fn question_of(turn_id: Seq<char>) -> spec_fn(QuestionRowModel) -> bool {
    |r: QuestionRowModel| r.turn_id == turn_id
}

pub open spec fn image_of(turn_id: Seq<char>) -> spec_fn(ImageAssetDataModel) -> bool {
    |r: ImageAssetDataModel| r.asset.turn_id == turn_id
}

pub open spec fn image_id() -> spec_fn(ImageAssetDataModel) -> Seq<char> {
    |r: ImageAssetDataModel| r.asset.asset_id
}

pub open spec fn by_image_age() -> spec_fn(ImageAssetDataModel, ImageAssetDataModel) -> bool {
    |a: ImageAssetDataModel, b: ImageAssetDataModel|
        if a.asset.created_at != b.asset.created_at {
            precedes(a.asset.created_at, b.asset.created_at)
        } else {
            precedes(a.asset.asset_id, b.asset.asset_id)
        }
}

pub open spec fn artifact_of(turn_id: Seq<char>) -> spec_fn(ArtifactAssetDataModel) -> bool {
    |r: ArtifactAssetDataModel| r.asset.turn_id == turn_id
}

pub open spec fn artifact_id() -> spec_fn(ArtifactAssetDataModel) -> Seq<char> {
    |r: ArtifactAssetDataModel| r.asset.asset_id
}

pub open spec fn by_artifact_age() -> spec_fn(
    ArtifactAssetDataModel,
    ArtifactAssetDataModel,
) -> bool {
    |a: ArtifactAssetDataModel, b: ArtifactAssetDataModel|
        if a.asset.updated_at != b.asset.updated_at {
            precedes(a.asset.updated_at, b.asset.updated_at)
        } else {
            precedes(a.asset.asset_id, b.asset.asset_id)
        }
}

pub open spec fn item_of(session_id: Seq<char>) -> spec_fn(LoadedItemRowModel) -> bool {
    |r: LoadedItemRowModel| r.session_id == session_id
}

pub open spec fn by_kind_and_name() -> spec_fn(LoadedItemRowModel, LoadedItemRowModel) -> bool {
    |a: LoadedItemRowModel, b: LoadedItemRowModel|
        if a.kind != b.kind {
            precedes(a.kind, b.kind)
        } else {
            precedes(a.name, b.name)
        }
}

pub open spec fn item_triple() -> spec_fn(LoadedItemRowModel) -> (
    Seq<char>,
    Seq<char>,
    Option<Seq<char>>,
) {
    |r: LoadedItemRowModel| (r.kind, r.name, r.source_turn_id)
}

/// A list in JSON, from the JSON forms of its items.
pub open spec fn json_list(items: Seq<Seq<char>>) -> Seq<char> {
    "["@ + joined(items, ","@) + "]"@
}

pub open spec fn json_option(text: Option<Seq<char>>) -> Seq<char> {
    match text {
        Some(text) => json_text(text),
        None => "null"@,
    }
}

pub open spec fn json_item() -> spec_fn((Seq<char>, Seq<char>, Option<Seq<char>>)) -> Seq<char> {
    |item: (Seq<char>, Seq<char>, Option<Seq<char>>)|
        json_list(seq![json_text(item.0), json_text(item.1), json_option(item.2)])
}

pub open spec fn message_json() -> spec_fn(ChatMessageModel) -> Seq<char> {
    |m: ChatMessageModel| m.json
}

/// The JSON form of a checkpoint.
pub open spec fn checkpoint_json(p: TurnRedoCheckpointPayloadModel) -> Seq<char> {
    "{\"replay_messages\":"@ + json_list(p.replay_messages.map_values(message_json()))
        + ",\"prefix_tool_reports\":"@ + json_strings(p.prefix_tool_reports) + ",\"tool_rounds\":"@
        + decimal(p.tool_rounds as nat) + ",\"question_rounds\":"@ + decimal(
        p.question_rounds as nat,
    ) + ",\"loaded_items\":"@ + json_list(p.loaded_items.map_values(json_item()))
        + ",\"prefix_question_count\":"@ + decimal(p.prefix_question_count as nat)
        + ",\"prefix_image_asset_ids\":"@ + json_strings(p.prefix_image_asset_ids)
        + ",\"prefix_artifact_asset_ids\":"@ + json_strings(p.prefix_artifact_asset_ids) + "}"@
}

impl DbModel {
    pub open spec fn image_ids(self, turn_id: Seq<char>) -> Seq<Seq<char>> {
        order_by(self.images.filter(image_of(turn_id)), by_image_age()).map_values(image_id())
    }

    pub open spec fn artifact_ids(self, turn_id: Seq<char>) -> Seq<Seq<char>> {
        order_by(self.artifacts.filter(artifact_of(turn_id)), by_artifact_age()).map_values(
            artifact_id(),
        )
    }

    pub open spec fn items(self, session_id: Seq<char>) -> Seq<LoadedItemRowModel> {
        order_by(self.loaded_items.filter(item_of(session_id)), by_kind_and_name())
    }

    /// A checkpoint with what the store knows of the turn and the session.
    pub open spec fn captured(
        self,
        session_id: Seq<char>,
        turn_id: Seq<char>,
        p: TurnRedoCheckpointPayloadModel,
    ) -> TurnRedoCheckpointPayloadModel {
        TurnRedoCheckpointPayloadModel {
            prefix_question_count: count(self.questions, question_of(turn_id)) as usize,
            prefix_image_asset_ids: self.image_ids(turn_id),
            prefix_artifact_asset_ids: self.artifact_ids(turn_id),
            loaded_items: self.items(session_id).map_values(item_triple()),
            ..p
        }
    }

    /// The checkpoint row of a turn that takes up prompts.
    pub open spec fn checkpoint_row(
        self,
        session_id: Seq<char>,
        turn_id: Seq<char>,
        prompt_ids: Seq<Seq<char>>,
        checkpoint: Option<TurnRedoCheckpointPayloadModel>,
        now: Seq<char>,
    ) -> CheckpointRowModel {
        let (payload, unavailable_reason) = match checkpoint {
            None => (None, Some("replay checkpoint was not captured"@)),
            Some(p) => {
                let full = self.captured(session_id, turn_id, p);
                if byte_len(checkpoint_json(full)) <= MAX_REDO_CHECKPOINT_BYTES {
                    (Some(full), None)
                } else {
                    (
                        None,
                        Some(
                            "replay checkpoint exceeds the "@ + decimal(
                                MAX_REDO_CHECKPOINT_BYTES as nat,
                            ) + " byte limit"@,
                        ),
                    )
                }
            },
        };
        CheckpointRowModel {
            turn_id,
            version: REDO_CHECKPOINT_VERSION,
            batch_prompt_ids: json_strings(prompt_ids),
            payload,
            unavailable_reason,
            created_at: now,
        }
    }

    pub open spec fn with_checkpoint(self, row: CheckpointRowModel) -> DbModel {
        DbModel {
            checkpoints: put(
                self.checkpoints,
                checkpoint_of(row.turn_id),
                |r: CheckpointRowModel| row,
                row,
            ),
            ..self
        }
    }

    /// A turn's checkpoint as it is read back. One of another version cannot
    /// be used.
    pub open spec fn redo_checkpoint(self, turn_id: Seq<char>) -> Option<TurnRedoCheckpointModel> {
        match first(self.checkpoints, checkpoint_of(turn_id)) {
            None => None,
            Some(row) => Some(
                TurnRedoCheckpointModel {
                    batch_prompt_ids: strings_or_none(row.batch_prompt_ids),
                    payload: if row.version == REDO_CHECKPOINT_VERSION {
                        row.payload
                    } else {
                        None
                    },
                    unavailable_reason: if row.version == REDO_CHECKPOINT_VERSION {
                        row.unavailable_reason
                    } else {
                        Some(
                            "unsupported redo checkpoint version: "@ + signed_decimal(row.version),
                        )
                    },
                },
            ),
        }
    }
}

/// A number in decimal notation, with its sign.
pub open spec fn signed_decimal(n: i64) -> Seq<char> {
    if n < 0 {
        "-"@ + decimal((-n) as nat)
    } else {
        decimal(n as nat)
    }
}

/// A number in decimal notation, with its sign.
pub fn signed_decimal_text(n: i64) -> (out: String)
    ensures
        out@ == signed_decimal(n),
{
    if n < 0 {
        let magnitude: u64 = if n == i64::MIN {
            9223372036854775808
        } else {
            (-n) as u64
        };
        "-".to_owned().concat(decimal_text(magnitude).as_str())
    } else {
        decimal_text(n as u64)
    }
}

fn encode_list(items: &Vec<String>) -> (json: String)
    ensures
        json@ == json_list(items.deep_view()),
{
    "[".to_owned().concat(join(items, ",").as_str()).concat("]")
}

fn encode_item(item: &(String, String, Option<String>)) -> (json: String)
    ensures
        json.deep_view() == json_item()(item.deep_view()),
{
    let mut parts: Vec<String> = Vec::new();
    parts.push(encode_text(item.0.as_str()));
    parts.push(encode_text(item.1.as_str()));
    parts.push(
        match &item.2 {
            Some(text) => encode_text(text.as_str()),
            None => "null".to_owned(),
        },
    );
    assert(parts.deep_view() =~= seq![
        json_text(item.0@),
        json_text(item.1@),
        json_option(item.2.deep_view()),
    ]);
    encode_list(&parts)
}

/// The JSON form of a checkpoint.
pub fn encode_checkpoint(p: &TurnRedoCheckpointPayload) -> (json: String)
    ensures
        json@ == checkpoint_json(p.deep_view()),
{
    let wire = |m: &ChatMessage| -> (s: String)
        ensures
            s.deep_view() == message_json()(m.deep_view()),
        { m.json.clone() };
    let messages = map_rows(&p.replay_messages, &wire, Ghost(message_json()));
    let items = map_rows(&p.loaded_items, encode_item, Ghost(json_item()));
    "{\"replay_messages\":".to_owned().concat(encode_list(&messages).as_str()).concat(
        ",\"prefix_tool_reports\":",
    ).concat(encode_strings(&p.prefix_tool_reports).as_str()).concat(",\"tool_rounds\":").concat(
        decimal_text(p.tool_rounds as u64).as_str(),
    ).concat(",\"question_rounds\":").concat(decimal_text(
        p.question_rounds as u64,
    ).as_str()).concat(
        ",\"loaded_items\":",
    ).concat(encode_list(&items).as_str()).concat(",\"prefix_question_count\":").concat(
        decimal_text(p.prefix_question_count as u64).as_str(),
    ).concat(",\"prefix_image_asset_ids\":").concat(
        encode_strings(&p.prefix_image_asset_ids).as_str(),
    ).concat(",\"prefix_artifact_asset_ids\":").concat(
        encode_strings(&p.prefix_artifact_asset_ids).as_str(),
    ).concat("}")
}

fn older_image(a: &ImageAssetData, b: &ImageAssetData) -> (less: bool)
    ensures
        less == by_image_age()(a.deep_view(), b.deep_view()),
{
    if !same(a.asset.created_at.as_str(), b.asset.created_at.as_str()) {
        before(a.asset.created_at.as_str(), b.asset.created_at.as_str())
    } else {
        before(a.asset.asset_id.as_str(), b.asset.asset_id.as_str())
    }
}

fn older_artifact(a: &ArtifactAssetData, b: &ArtifactAssetData) -> (less: bool)
    ensures
        less == by_artifact_age()(a.deep_view(), b.deep_view()),
{
    if !same(a.asset.updated_at.as_str(), b.asset.updated_at.as_str()) {
        before(a.asset.updated_at.as_str(), b.asset.updated_at.as_str())
    } else {
        before(a.asset.asset_id.as_str(), b.asset.asset_id.as_str())
    }
}

fn earlier_item(a: &LoadedItemRow, b: &LoadedItemRow) -> (less: bool)
    ensures
        less == by_kind_and_name()(a.deep_view(), b.deep_view()),
{
    if !same(a.kind.as_str(), b.kind.as_str()) {
        before(a.kind.as_str(), b.kind.as_str())
    } else {
        before(a.name.as_str(), b.name.as_str())
    }
}

impl ConversationDb {
    fn image_ids(&self, turn_id: &str) -> (ids: Vec<String>)
        ensures
            ids.deep_view() == self@.image_ids(turn_id@),
    {
        let mine = |r: &ImageAssetData| -> (b: bool)
            ensures
                b == image_of(turn_id@)(r.deep_view()),
            { same(r.asset.turn_id.as_str(), turn_id) };
        let rows = select(&self.images, &mine, Ghost(image_of(turn_id@)));
        let rows = sorted(&rows, older_image, Ghost(by_image_age()));
        let id = |r: &ImageAssetData| -> (s: String)
            ensures
                s.deep_view() == image_id()(r.deep_view()),
            { r.asset.asset_id.clone() };
        map_rows(&rows, &id, Ghost(image_id()))
    }

    fn artifact_ids(&self, turn_id: &str) -> (ids: Vec<String>)
        ensures
            ids.deep_view() == self@.artifact_ids(turn_id@),
    {
        let mine = |r: &ArtifactAssetData| -> (b: bool)
            ensures
                b == artifact_of(turn_id@)(r.deep_view()),
            { same(r.asset.turn_id.as_str(), turn_id) };
        let rows = select(&self.artifacts, &mine, Ghost(artifact_of(turn_id@)));
        let rows = sorted(&rows, older_artifact, Ghost(by_artifact_age()));
        let id = |r: &ArtifactAssetData| -> (s: String)
            ensures
                s.deep_view() == artifact_id()(r.deep_view()),
            { r.asset.asset_id.clone() };
        map_rows(&rows, &id, Ghost(artifact_id()))
    }

    /// The items that a session has loaded, in order.
    pub(crate) fn items(&self, session_id: &str) -> (items: Vec<LoadedItemRow>)
        ensures
            items.deep_view() == self@.items(session_id@),
    {
        let mine = |r: &LoadedItemRow| -> (b: bool)
            ensures
                b == item_of(session_id@)(r.deep_view()),
            { same(r.session_id.as_str(), session_id) };
        let rows = select(&self.loaded_items, &mine, Ghost(item_of(session_id@)));
        sorted(&rows, earlier_item, Ghost(by_kind_and_name()))
    }

    fn capture(&self, session_id: &str, turn_id: &str, p: &TurnRedoCheckpointPayload) -> (full:
        TurnRedoCheckpointPayload)
        ensures
            full.deep_view() == self@.captured(session_id@, turn_id@, p.deep_view()),
    {
        let mine = |r: &QuestionRow| -> (b: bool)
            ensures
                b == question_of(turn_id@)(r.deep_view()),
            { same(r.turn_id.as_str(), turn_id) };
        let triple = |r: &LoadedItemRow| -> (t: (String, String, Option<String>))
            ensures
                t.deep_view() == item_triple()(r.deep_view()),
            { (r.kind.clone(), r.name.clone(), r.source_turn_id.dup()) };
        let items = self.items(session_id);
        TurnRedoCheckpointPayload {
            replay_messages: p.replay_messages.dup(),
            prefix_tool_reports: p.prefix_tool_reports.dup(),
            tool_rounds: p.tool_rounds,
            question_rounds: p.question_rounds,
            loaded_items: map_rows(&items, &triple, Ghost(item_triple())),
            prefix_question_count: count_rows(
                &self.questions,
                &mine,
                Ghost(question_of(turn_id@)),
            ),
            prefix_image_asset_ids: self.image_ids(turn_id),
            prefix_artifact_asset_ids: self.artifact_ids(turn_id),
        }
    }

    pub(crate) fn make_checkpoint(
        &self,
        session_id: &str,
        turn_id: &str,
        prompt_ids: &Vec<String>,
        checkpoint: &Option<TurnRedoCheckpointPayload>,
        now: &str,
    ) -> (row: CheckpointRow)
        ensures
            row.deep_view() == self@.checkpoint_row(
                session_id@,
                turn_id@,
                prompt_ids.deep_view(),
                checkpoint.deep_view(),
                now@,
            ),
    {
        let (payload, unavailable_reason): (Option<TurnRedoCheckpointPayload>, Option<String>) =
            match checkpoint {
            None => (None, Some("replay checkpoint was not captured".to_owned())),
            Some(p) => {
                let full = self.capture(session_id, turn_id, p);
                let json = encode_checkpoint(&full);
                if json.as_str().len() <= MAX_REDO_CHECKPOINT_BYTES {
                    (Some(full), None)
                } else {
                    (
                        None,
                        Some(
                            "replay checkpoint exceeds the ".to_owned().concat(
                                decimal_text(MAX_REDO_CHECKPOINT_BYTES as u64).as_str(),
                            ).concat(" byte limit"),
                        ),
                    )
                }
            },
        };
        CheckpointRow {
            turn_id: turn_id.to_owned(),
            version: REDO_CHECKPOINT_VERSION,
            batch_prompt_ids: encode_strings(prompt_ids),
            payload,
            unavailable_reason,
            created_at: now.to_owned(),
        }
    }

    pub(crate) fn put_checkpoint(&mut self, row: CheckpointRow)
        ensures
            final(self)@ == old(self)@.with_checkpoint(row.deep_view()),
    {
        let mine = |r: &CheckpointRow| -> (b: bool)
            ensures
                b == checkpoint_of(row.deep_view().turn_id)(r.deep_view()),
            { same(r.turn_id.as_str(), row.turn_id.as_str()) };
        let replace = |r: &CheckpointRow| -> (n: CheckpointRow)
            ensures
                n.deep_view() == row.deep_view(),
            { row.dup() };
        put_row(
            &mut self.checkpoints,
            &mine,
            &replace,
            row.dup(),
            Ghost(checkpoint_of(row.deep_view().turn_id)),
            Ghost(|r: CheckpointRowModel| row.deep_view()),
        );
    }

    pub(crate) fn load_redo_checkpoint(&self, turn_id: &str) -> (checkpoint: Option<
        TurnRedoCheckpoint,
    >)
        ensures
            checkpoint.deep_view() == self@.redo_checkpoint(turn_id@),
    {
        let mine = |r: &CheckpointRow| -> (b: bool)
            ensures
                b == checkpoint_of(turn_id@)(r.deep_view()),
            { same(r.turn_id.as_str(), turn_id) };
        let row = match first_row(&self.checkpoints, &mine, Ghost(checkpoint_of(turn_id@))) {
            Some(row) => row,
            None => return None,
        };
        let batch_prompt_ids = strings_of(row.batch_prompt_ids.as_str());
        if row.version == REDO_CHECKPOINT_VERSION {
            Some(
                TurnRedoCheckpoint {
                    batch_prompt_ids,
                    payload: row.payload,
                    unavailable_reason: row.unavailable_reason,
                },
            )
        } else {
            Some(
                TurnRedoCheckpoint {
                    batch_prompt_ids,
                    payload: None,
                    unavailable_reason: Some(
                        "unsupported redo checkpoint version: ".to_owned().concat(
                            signed_decimal_text(row.version).as_str(),
                        ),
                    ),
                },
            )
        }
    }
}

} // verus!

//! Laws of what the pages are told of a turn at work and of sessions, and of paths and
//! digests.

use crate::digest::hex_of;
use crate::json::{json_bool, json_object, json_strings, json_text, maybe_json};
use crate::laws::memory::lemma_last_part_below;
use crate::paths::{below, last_part, stepped};
use crate::state::types::SessionOverviewModel;
use crate::text::{decimal, hex_digit};
use crate::web::mapper::{lossy, ActiveToolModel, AgentEventModel, MapperModel};
use crate::web::sessions::{overview_fields, record_fields};
use crate::web::types::AgentMode;
use vstd::prelude::*;

verus! {

/// What the model says and thinks is told to the pages piece by piece, word for word,
/// as it comes; what is only for the terminal is not told.
pub proof fn law_words_are_told_as_they_come(mapper: MapperModel, text: Seq<char>)
    ensures
        mapper.told((AgentEventModel::Content { text })) == Some(
            (
                "assistant.delta"@,
                json_object(
                    seq![("delta"@, json_text(text)), ("run_id"@, json_text(mapper.run_id))],
                ),
            ),
        ),
        mapper.told((AgentEventModel::Reasoning { text })) == Some(
            (
                "reasoning.delta"@,
                json_object(
                    seq![("delta"@, json_text(text)), ("run_id"@, json_text(mapper.run_id))],
                ),
            ),
        ),
        mapper.told((AgentEventModel::ReasoningTitle { title: text })) == Some(
            (
                "reasoning.title"@,
                json_object(
                    seq![("run_id"@, json_text(mapper.run_id)), ("title"@, json_text(text))],
                ),
            ),
        ),
        mapper.told((AgentEventModel::CompactChunk { text })) == Some(
            (
                "context.compact_delta"@,
                json_object(
                    seq![("delta"@, json_text(text)), ("run_id"@, json_text(mapper.run_id))],
                ),
            ),
        ),
        mapper.told((AgentEventModel::TurnStarted { turn_id: text })) == Some(
            (
                "turn.started"@,
                json_object(
                    seq![("run_id"@, json_text(mapper.run_id)), ("turn_id"@, json_text(text))],
                ),
            ),
        ),
        mapper.told(AgentEventModel::SpinnerTick) is None,
        mapper.told(AgentEventModel::ExternalOutput) is None,
        mapper.told(AgentEventModel::OtherChunk) is None,
        mapper.after((AgentEventModel::Content { text })) == mapper,
        mapper.after((AgentEventModel::TurnStarted { turn_id: text })).turn_id == Some(text),
{
}

/// A tool is told with what it is called with, what it says on the way, and what came
/// of it, each under the id and the name of the tool at work.
pub proof fn law_tool_is_told_with_its_words(
    mapper: MapperModel,
    tool: ActiveToolModel,
    name: Seq<char>,
    shown_name: Seq<char>,
    text: Seq<char>,
    ok: bool,
    stderr: bool,
    chunk: Seq<u8>,
)
    requires
        mapper.active_tool == Some(tool),
    ensures
        mapper.told((AgentEventModel::ToolProgress { name, message: text })) == Some(
            (
                "tool.progress"@,
                json_object(
                    seq![
                        ("message"@, json_text(text)),
                        ("name"@, json_text(tool.name)),
                        ("run_id"@, json_text(mapper.run_id)),
                        ("tool_id"@, json_text(tool.id)),
                    ],
                ),
            ),
        ),
        mapper.told((AgentEventModel::CommandOutput { name, stderr, chunk })) == Some(
            (
                "tool.output"@,
                json_object(
                    seq![
                        ("name"@, json_text(tool.name)),
                        ("output"@, json_text(lossy(chunk))),
                        ("run_id"@, json_text(mapper.run_id)),
                        (
                            "stream"@,
                            json_text(
                                if stderr {
                                    "stderr"@
                                } else {
                                    "stdout"@
                                },
                            ),
                        ),
                        ("tool_id"@, json_text(tool.id)),
                    ],
                ),
            ),
        ),
        mapper.told((AgentEventModel::ToolResult { name, ok, output: text })) == Some(
            (
                "tool.finished"@,
                json_object(
                    seq![
                        ("name"@, json_text(tool.name)),
                        ("ok"@, json_bool(ok)),
                        ("output"@, json_text(text)),
                        ("run_id"@, json_text(mapper.run_id)),
                        ("tool_id"@, json_text(tool.id)),
                    ],
                ),
            ),
        ),
        mapper.after((AgentEventModel::ToolResult { name, ok, output: text })).active_tool is None,
        ({
            let event = AgentEventModel::ToolCall {
                name,
                display_name: shown_name,
                arguments: text,
            };
            let next = mapper.after(event);
            &&& next.active_tool matches Some(called)
            &&& called.event_name == name
            &&& next.run_id == mapper.run_id
            &&& mapper.told(event) == Some(
                (
                    "tool.started"@,
                    json_object(
                        seq![
                            ("arguments"@, json_text(text)),
                            ("display_name"@, json_text(shown_name)),
                            ("name"@, json_text(called.name)),
                            ("run_id"@, json_text(mapper.run_id)),
                            ("tool_id"@, json_text(called.id)),
                        ],
                    ),
                ),
            )
        }),
{
}

/// The user is asked with the questions as they are, and the messages that were taken
/// up are told by their ids.
pub proof fn law_questions_and_messages_are_told(
    mapper: MapperModel,
    tool: ActiveToolModel,
    question_id: Seq<char>,
    questions: Seq<char>,
    prompt_ids: Seq<Seq<char>>,
    mode: AgentMode,
    provider_id: Option<Seq<char>>,
    model: Option<Seq<char>>,
)
    requires
        mapper.active_tool == Some(tool),
    ensures
        mapper.told((AgentEventModel::AskQuestion { question_id, questions })) == Some(
            (
                "question.requested"@,
                json_object(
                    seq![
                        ("name"@, json_text(tool.name)),
                        ("question_id"@, json_text(question_id)),
                        ("questions"@, questions),
                        ("run_id"@, json_text(mapper.run_id)),
                        ("tool_id"@, json_text(tool.id)),
                    ],
                ),
            ),
        ),
        mapper.told(
            (AgentEventModel::QueuedPromptsConsumed { prompt_ids, mode, provider_id, model }),
        ) == Some(
            (
                "queue.consumed"@,
                json_object(
                    seq![
                        ("mode"@, json_text(mode.word())),
                        ("model"@, maybe_json(model)),
                        ("prompt_ids"@, json_strings(prompt_ids)),
                        ("provider_id"@, maybe_json(provider_id)),
                        ("run_id"@, json_text(mapper.run_id)),
                    ],
                ),
            ),
        ),
{
}

/// A page is told of a session its id, name, kind, times and directory, and in a list
/// also how many turns it has, what was last asked, and whether it is the current one.
pub proof fn law_session_is_told_by_its_fields(
    overview: SessionOverviewModel,
    current: Seq<char>,
)
    ensures
        ({
            let record = overview.record;
            let fields = overview_fields(overview, current);
            &&& fields.contains(("session_id"@, json_text(record.session_id)))
            &&& fields.contains(("name"@, json_text(record.name)))
            &&& fields.contains(("kind"@, json_text(record.kind)))
            &&& fields.contains(("created_at"@, json_text(record.created_at)))
            &&& fields.contains(("updated_at"@, json_text(record.updated_at)))
            &&& fields.contains(
                (
                    "workspace"@,
                    match record.workspace {
                        Some(path) => json_text(path),
                        None => "null"@,
                    },
                ),
            )
            &&& fields.contains(("turn_count"@, decimal(overview.turn_count as nat)))
            &&& fields.contains(
                (
                    "last_user_content"@,
                    match overview.last_user_content {
                        Some(text) => json_text(text),
                        None => "null"@,
                    },
                ),
            )
            &&& fields.contains(
                (
                    "is_current"@,
                    if record.session_id == current {
                        "true"@
                    } else {
                        "false"@
                    },
                ),
            )
            &&& fields.len() == 10
        }),
{
    let own = record_fields(overview.record);
    let fields = overview_fields(overview, current);
    assert(forall|i: int| 0 <= i < 7 ==> #[trigger] fields[i] == own[i]);
    assert(own[0].0 == "created_at"@);
    assert(own[1].0 == "kind"@);
    assert(own[3].0 == "name"@);
    assert(own[4].0 == "session_id"@);
    assert(own[5].0 == "updated_at"@);
    assert(own[6].0 == "workspace"@);
    assert(fields[0] == own[0]);
    assert(fields[1] == own[1]);
    assert(fields[3] == own[3]);
    assert(fields[4] == own[4]);
    assert(fields[5] == own[5]);
    assert(fields[6] == own[6]);
    assert(fields[7].0 == "turn_count"@);
    assert(fields[8].0 == "last_user_content"@);
    assert(fields[9].0 == "is_current"@);
}

/// Who steps into a directory and back out is where they were; a step to nowhere, or to
/// the place itself, leads nowhere else.
pub proof fn law_step_back(dir: Seq<char>, name: Seq<char>)
    requires
        dir.len() > 0,
        dir.last() != '/' || dir == "/"@,
        name.len() > 0,
        !name.contains('/'),
        name != "."@,
        name != ".."@,
    ensures
        stepped(stepped(dir, name), ".."@) == dir,
        stepped(dir, Seq::empty()) == dir,
        stepped(dir, "."@) == dir,
        last_part(stepped(dir, name)) == name,
{
    reveal_strlit("/");
    reveal_strlit(".");
    reveal_strlit("..");
    lemma_last_part_below(dir, name);
    assert(name.contains(name[0]));
    assert("."@.len() == 1);
    assert(".."@.len() == 2);
    let path = below(dir, name);
    let before = path.take(path.len() - name.len());
    if dir.last() == '/' {
        assert(before =~= dir);
    } else {
        assert(before =~= dir + "/"@);
        assert(before.drop_last() =~= dir);
    }
}

/// A digest is written with two digits for each byte, the greater first.
pub proof fn law_digest_is_written_byte_by_byte(bytes: Seq<u8>, i: int)
    requires
        0 <= i < bytes.len(),
    ensures
        hex_of(bytes).len() == 2 * bytes.len(),
        hex_of(bytes)[2 * i] == hex_digit(bytes[i] as nat / 16),
        hex_of(bytes)[2 * i + 1] == hex_digit(bytes[i] as nat % 16),
    decreases bytes.len(),
{
    let rest = bytes.drop_last();
    if rest.len() == 0 {
        assert(hex_of(rest).len() == 0);
    } else {
        law_digest_is_written_byte_by_byte(rest, 0);
        if i < rest.len() {
            law_digest_is_written_byte_by_byte(rest, i);
            assert(rest[i] == bytes[i]);
        }
    }
}

/// The digits are those from nought to nine and the first six letters.
pub proof fn law_digits_of_a_digest(d: nat)
    requires
        d < 16,
    ensures
        d < 10 ==> hex_digit(d) as nat == '0' as nat + d,
        d >= 10 ==> hex_digit(d) as nat == 'a' as nat + d - 10,
{
}

} // verus!

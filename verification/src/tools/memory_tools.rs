//! The tools by which the assistant works with what it remembers.

use crate::json::{
    decode_field,
    decode_number,
    json_bool,
    json_object,
    json_text,
    parsed_field,
    parsed_number,
    Fields,
};
use crate::language::Language;
use crate::text::same;
use crate::tools::memory::{
    lowercased, MemoryType, WriteMode, WriteOptions, WriteOptionsModel,
};
use vstd::prelude::*;

verus! {

/// A tool of the memory.
#[derive(Debug, Clone, Copy, PartialEq, Eq, Structural)]
pub enum MemoryTool {
    List,
    Read,
    Write,
    Delete,
    Search,
    Index,
}

/// A tool as a model is told of it.
pub struct ToolSpec {
    pub name: &'static str,
    pub description: &'static str,
    pub display_name: &'static str,
    /// The JSON schema of what it takes.
    pub parameters: &'static str,
    /// Whether it changes anything.
    pub writes: bool,
}

impl MemoryTool {
    /// All tools of the memory, in the order in which they are offered.
    pub open spec fn all() -> Seq<MemoryTool> {
        seq![
            MemoryTool::List,
            MemoryTool::Read,
            MemoryTool::Write,
            MemoryTool::Delete,
            MemoryTool::Search,
            MemoryTool::Index,
        ]
    }

    pub open spec fn name(self) -> Seq<char> {
        match self {
            MemoryTool::List => "cindy_memory_list"@,
            MemoryTool::Read => "cindy_memory_read"@,
            MemoryTool::Write => "cindy_memory_write"@,
            MemoryTool::Delete => "cindy_memory_delete"@,
            MemoryTool::Search => "cindy_memory_search"@,
            MemoryTool::Index => "cindy_memory_index"@,
        }
    }

    pub open spec fn description(self, language: Language) -> Seq<char> {
        match self {
            MemoryTool::List => language.said(
                "List all Cindy memory shards"@,
                "列出所有 Cindy 记忆分片"@,
            ),
            MemoryTool::Read => language.said(
                "Read a Cindy memory shard by filename"@,
                "按文件名读取 Cindy 记忆分片"@,
            ),
            MemoryTool::Write => language.said(
                "Write a Cindy memory shard (create/update/append)"@,
                "写入 Cindy 记忆分片（创建/更新/追加）"@,
            ),
            MemoryTool::Delete => language.said(
                "Delete a Cindy memory shard"@,
                "删除 Cindy 记忆分片"@,
            ),
            MemoryTool::Search => language.said(
                "Search Cindy memory shards by keyword"@,
                "按关键词搜索 Cindy 记忆分片"@,
            ),
            MemoryTool::Index => language.said(
                "Show the Cindy MEMORY.md index file"@,
                "显示 Cindy MEMORY.md 索引文件"@,
            ),
        }
    }

    pub open spec fn display_name(self, language: Language) -> Seq<char> {
        match self {
            MemoryTool::List => language.said(
                "Cindy Memory List"@,
                "Cindy 记忆列表"@,
            ),
            MemoryTool::Read => language.said(
                "Cindy Memory Read"@,
                "Cindy 记忆读取"@,
            ),
            MemoryTool::Write => language.said(
                "Cindy Memory Write"@,
                "Cindy 记忆写入"@,
            ),
            MemoryTool::Delete => language.said(
                "Cindy Memory Delete"@,
                "Cindy 记忆删除"@,
            ),
            MemoryTool::Search => language.said(
                "Cindy Memory Search"@,
                "Cindy 记忆搜索"@,
            ),
            MemoryTool::Index => language.said(
                "Cindy Memory Index"@,
                "Cindy 记忆索引"@,
            ),
        }
    }

    pub open spec fn parameters(self) -> Seq<char> {
        match self {
            MemoryTool::List => NO_PARAMETERS@,
            MemoryTool::Read => READ_PARAMETERS@,
            MemoryTool::Write => WRITE_PARAMETERS@,
            MemoryTool::Delete => DELETE_PARAMETERS@,
            MemoryTool::Search => SEARCH_PARAMETERS@,
            MemoryTool::Index => NO_PARAMETERS@,
        }
    }

    /// Whether a tool changes anything.
    pub open spec fn writes(self) -> bool {
        self is Write || self is Delete
    }

    /// A tool as a model is told of it in a language.
    pub fn spec(self, language: Language) -> (told: ToolSpec)
        ensures
            told.name@ == self.name(),
            told.description@ == self.description(language),
            told.display_name@ == self.display_name(language),
            told.parameters@ == self.parameters(),
            told.writes == self.writes(),
    {
        match self {
            MemoryTool::List => ToolSpec {
                name: "cindy_memory_list",
                description: language.text(
                    "List all Cindy memory shards",
                    "列出所有 Cindy 记忆分片",
                ),
                display_name: language.text(
                    "Cindy Memory List",
                    "Cindy 记忆列表",
                ),
                parameters: NO_PARAMETERS,
                writes: false,
            },
            MemoryTool::Read => ToolSpec {
                name: "cindy_memory_read",
                description: language.text(
                    "Read a Cindy memory shard by filename",
                    "按文件名读取 Cindy 记忆分片",
                ),
                display_name: language.text(
                    "Cindy Memory Read",
                    "Cindy 记忆读取",
                ),
                parameters: READ_PARAMETERS,
                writes: false,
            },
            MemoryTool::Write => ToolSpec {
                name: "cindy_memory_write",
                description: language.text(
                    "Write a Cindy memory shard (create/update/append)",
                    "写入 Cindy 记忆分片（创建/更新/追加）",
                ),
                display_name: language.text(
                    "Cindy Memory Write",
                    "Cindy 记忆写入",
                ),
                parameters: WRITE_PARAMETERS,
                writes: true,
            },
            MemoryTool::Delete => ToolSpec {
                name: "cindy_memory_delete",
                description: language.text(
                    "Delete a Cindy memory shard",
                    "删除 Cindy 记忆分片",
                ),
                display_name: language.text(
                    "Cindy Memory Delete",
                    "Cindy 记忆删除",
                ),
                parameters: DELETE_PARAMETERS,
                writes: true,
            },
            MemoryTool::Search => ToolSpec {
                name: "cindy_memory_search",
                description: language.text(
                    "Search Cindy memory shards by keyword",
                    "按关键词搜索 Cindy 记忆分片",
                ),
                display_name: language.text(
                    "Cindy Memory Search",
                    "Cindy 记忆搜索",
                ),
                parameters: SEARCH_PARAMETERS,
                writes: false,
            },
            MemoryTool::Index => ToolSpec {
                name: "cindy_memory_index",
                description: language.text(
                    "Show the Cindy MEMORY.md index file",
                    "显示 Cindy MEMORY.md 索引文件",
                ),
                display_name: language.text(
                    "Cindy Memory Index",
                    "Cindy 记忆索引",
                ),
                parameters: NO_PARAMETERS,
                writes: false,
            },
        }
    }
}

pub const NO_PARAMETERS: &'static str =
    "{\"type\":\"object\",\"properties\":{},\"additionalProperties\":false}";

pub const READ_PARAMETERS: &'static str =
    "{\"type\":\"object\",\"properties\":{\"filename\":{\"type\":\"string\",\"description\":\"Memory filename, e.g. 'user_preferences.md'\"}},\"required\":[\"filename\"],\"additionalProperties\":false}";

pub const WRITE_PARAMETERS: &'static str =
    "{\"type\":\"object\",\"properties\":{\"type\":{\"type\":\"string\",\"enum\":[\"user\",\"feedback\",\"project\",\"reference\"],\"description\":\"Memory type\"},\"name\":{\"type\":\"string\",\"description\":\"Filename slug (lowercase, alphanumeric, hyphens)\"},\"title\":{\"type\":\"string\",\"description\":\"Display title\"},\"description\":{\"type\":\"string\",\"description\":\"One-line hook for index\"},\"body\":{\"type\":\"string\",\"description\":\"Main content\"},\"mode\":{\"type\":\"string\",\"enum\":[\"create\",\"update\",\"append\"],\"description\":\"Write mode (default: create)\"}},\"required\":[\"type\",\"name\",\"title\",\"description\",\"body\"],\"additionalProperties\":false}";

pub const DELETE_PARAMETERS: &'static str =
    "{\"type\":\"object\",\"properties\":{\"filename\":{\"type\":\"string\",\"description\":\"Memory filename to delete\"}},\"required\":[\"filename\"],\"additionalProperties\":false}";

pub const SEARCH_PARAMETERS: &'static str =
    "{\"type\":\"object\",\"properties\":{\"query\":{\"type\":\"string\",\"description\":\"Search query\"},\"type\":{\"type\":\"string\",\"enum\":[\"user\",\"feedback\",\"project\",\"reference\"],\"description\":\"Filter by memory type\"},\"limit\":{\"type\":\"integer\",\"description\":\"Max results (default 10)\"}},\"required\":[\"query\"],\"additionalProperties\":false}";

/// All tools of the memory, as a model is told of them.
pub fn register() -> (tools: Vec<MemoryTool>)
    ensures
        tools@ == MemoryTool::all(),
{
    let mut tools: Vec<MemoryTool> = Vec::new();
    tools.push(MemoryTool::List);
    tools.push(MemoryTool::Read);
    tools.push(MemoryTool::Write);
    tools.push(MemoryTool::Delete);
    tools.push(MemoryTool::Search);
    tools.push(MemoryTool::Index);
    assert(tools@ =~= MemoryTool::all());
    tools
}

/// The tool with a name.
pub fn tool_named(name: &str) -> (tool: Option<MemoryTool>)
    ensures
        match tool {
            Some(tool) => tool.name() == name@,
            None => forall|tool: MemoryTool| #[trigger] tool.name() != name@,
        },
{
    if same(name, "cindy_memory_list") {
        Some(MemoryTool::List)
    } else if same(name, "cindy_memory_read") {
        Some(MemoryTool::Read)
    } else if same(name, "cindy_memory_write") {
        Some(MemoryTool::Write)
    } else if same(name, "cindy_memory_delete") {
        Some(MemoryTool::Delete)
    } else if same(name, "cindy_memory_search") {
        Some(MemoryTool::Search)
    } else if same(name, "cindy_memory_index") {
        Some(MemoryTool::Index)
    } else {
        None
    }
}

/// A text that was given, and nothing where none was.
pub open spec fn given(field: Option<Option<Seq<char>>>) -> Seq<char> {
    match field {
        Some(Some(text)) => text,
        _ => Seq::empty(),
    }
}

/// The file that a call is about.
pub fn filename_argument(args: &str) -> (filename: String)
    ensures
        filename@ == given(parsed_field(args@, "filename"@)),
{
    text_argument(args, "filename")
}

fn text_argument(args: &str, key: &str) -> (text: String)
    ensures
        text@ == given(parsed_field(args@, key@)),
{
    match decode_field(args, key) {
        Some(Some(text)) => text,
        _ => {
            let text = String::new();
            assert(text@ =~= Seq::<char>::empty());
            text
        },
    }
}

pub open spec fn type_given(field: Option<Option<Seq<char>>>) -> Option<MemoryType> {
    match field {
        Some(Some(word)) => MemoryType::of_word(lowercased(word)),
        _ => None,
    }
}

fn type_argument(args: &str) -> (found: Option<MemoryType>)
    ensures
        found == type_given(parsed_field(args@, "type"@)),
{
    match decode_field(args, "type") {
        Some(Some(word)) => MemoryType::from_str(word.as_str()),
        _ => None,
    }
}

pub open spec fn mode_given(field: Option<Option<Seq<char>>>) -> WriteMode {
    match field {
        Some(Some(word)) => if word == "update"@ {
            WriteMode::Update
        } else if word == "append"@ {
            WriteMode::Append
        } else {
            WriteMode::Create
        },
        _ => WriteMode::Create,
    }
}

/// How something is written, by a word; it is created where none is known.
pub fn mode_of(word: &Option<String>) -> (mode: WriteMode)
    ensures
        mode == mode_given(Some(word.deep_view())),
{
    match word {
        Some(word) => {
            if same(word.as_str(), "update") {
                WriteMode::Update
            } else if same(word.as_str(), "append") {
                WriteMode::Append
            } else {
                WriteMode::Create
            }
        },
        None => WriteMode::Create,
    }
}

/// What a call of the tool that writes asks for.
pub fn write_options(args: &str) -> (options: WriteOptions)
    ensures
        options.deep_view() == (WriteOptionsModel {
            memory_type: match type_given(parsed_field(args@, "type"@)) {
                Some(memory_type) => memory_type,
                None => MemoryType::User,
            },
            name: given(parsed_field(args@, "name"@)),
            title: given(parsed_field(args@, "title"@)),
            description: given(parsed_field(args@, "description"@)),
            body: given(parsed_field(args@, "body"@)),
            mode: mode_given(parsed_field(args@, "mode"@)),
        }),
{
    let memory_type = match type_argument(args) {
        Some(memory_type) => memory_type,
        None => MemoryType::User,
    };
    let mode = match decode_field(args, "mode") {
        Some(word) => mode_of(&word),
        None => WriteMode::Create,
    };
    WriteOptions {
        memory_type,
        name: text_argument(args, "name"),
        title: text_argument(args, "title"),
        description: text_argument(args, "description"),
        body: text_argument(args, "body"),
        mode,
    }
}

/// What a call of the tool that searches asks for.
pub struct SearchOptions {
    pub query: String,
    pub memory_type: Option<MemoryType>,
    pub limit: usize,
}

/// What a call of the tool that searches asks for: ten shards, where no number
/// is given.
pub fn search_options(args: &str) -> (options: SearchOptions)
    ensures
        options.query@ == given(parsed_field(args@, "query"@)),
        options.memory_type == type_given(parsed_field(args@, "type"@)),
        options.limit == match parsed_number(args@, "limit"@) {
            Some(limit) => limit as usize,
            None => 10,
        },
{
    let limit: usize = match decode_number(args, "limit") {
        Some(limit) => #[verifier::truncate] (limit as usize),
        None => 10,
    };
    SearchOptions { query: text_argument(args, "query"), memory_type: type_argument(args), limit }
}

/// What is answered when a shard was removed.
pub fn deleted_reply(filename: &str) -> (json: String)
    ensures
        json@ == json_object(
            seq![("deleted"@, json_text(filename@)), ("ok"@, json_bool(true))],
        ),
{
    let fields = Fields::new().text("deleted", filename).truth("ok", true);
    assert(fields@ =~= seq![("deleted"@, json_text(filename@)), ("ok"@, json_bool(true))]);
    fields.object()
}

} // verus!

//! Messages to and from the Anthropic API.
use crate::error::{AppError, AppResult};
use crate::json;
use crate::json::{Json, JsonView, ObjectBuilder};
use crate::shape;
use crate::shape::{FieldShape, Kind, Shape, ShapeView};
use crate::text;
use crate::tool_catalog::Tool;
use vstd::prelude::*;

verus! {

pub const MESSAGES_URL: &'static str = "https://api.anthropic.com/v1/messages";

pub const ANTHROPIC_VERSION: &'static str = "2023-06-01";

pub const DEFAULT_MAX_TOKENS: u32 = 1_024;

/// Who a message is from.
#[derive(Clone, Copy, Debug, PartialEq, Eq, Structural)]
pub enum AnthropicRole {
    User,
    Assistant,
}

/// One block of a message.
#[derive(Debug, PartialEq, Eq)]
pub enum AnthropicBlock {
    Text { text: String },
    ToolUse { id: String, name: String, input: Json },
    ToolResult { tool_use_id: String, content: String, is_error: Option<bool> },
}

/// What a message says: a text, or blocks.
#[derive(Debug, PartialEq, Eq)]
pub enum AnthropicContent {
    Text(String),
    Blocks(Vec<AnthropicBlock>),
}

/// One message of a conversation.
#[derive(Debug, PartialEq, Eq)]
pub struct AnthropicMessage {
    pub role: AnthropicRole,
    pub content: AnthropicContent,
}

/// How many tokens a request took.
#[derive(Clone, Copy, Debug, PartialEq, Eq, Structural)]
pub struct AnthropicUsage {
    pub input_tokens: u32,
    pub output_tokens: u32,
}

/// What the model answered.
#[derive(Debug, PartialEq, Eq)]
pub struct AnthropicResponse {
    pub content: Vec<AnthropicBlock>,
    pub usage: AnthropicUsage,
}

/// What a block stands for.
pub enum BlockView {
    Text { text: Seq<char> },
    ToolUse { id: Seq<char>, name: Seq<char>, input: JsonView },
    ToolResult { tool_use_id: Seq<char>, content: Seq<char>, is_error: Option<bool> },
}

/// What a message says.
pub enum ContentView {
    Text(Seq<char>),
    Blocks(Seq<BlockView>),
}

/// What a message stands for.
pub struct MessageView {
    pub role: AnthropicRole,
    pub content: ContentView,
}

/// What blocks stand for.
pub open spec fn block_views(blocks: Seq<AnthropicBlock>) -> Seq<BlockView> {
    Seq::new(blocks.len(), |i: int| blocks[i]@)
}

/// A block as it is sent.
pub open spec fn block_json(block: BlockView) -> JsonView {
    let none = json::no_members();
    JsonView::Object(
        match block {
            BlockView::Text { text } => none.push(("type"@, JsonView::Text("text"@))).push(
                ("text"@, JsonView::Text(text)),
            ),
            BlockView::ToolUse { id, name, input } => none.push(
                ("type"@, JsonView::Text("tool_use"@)),
            ).push(("id"@, JsonView::Text(id))).push(("name"@, JsonView::Text(name))).push(
                ("input"@, input),
            ),
            BlockView::ToolResult { tool_use_id, content, is_error } => {
                let said = none.push(("type"@, JsonView::Text("tool_result"@))).push(
                    ("tool_use_id"@, JsonView::Text(tool_use_id)),
                ).push(("content"@, JsonView::Text(content)));
                match is_error {
                    Some(is_error) => said.push(("is_error"@, JsonView::Bool(is_error))),
                    None => said,
                }
            },
        },
    )
}

impl AnthropicBlock {
    /// The block that `self` stands for.
    pub open spec fn view(&self) -> BlockView {
        match self {
            AnthropicBlock::Text { text } => BlockView::Text { text: text@ },
            AnthropicBlock::ToolUse { id, name, input } => BlockView::ToolUse {
                id: id@,
                name: name@,
                input: input@,
            },
            AnthropicBlock::ToolResult { tool_use_id, content, is_error } => BlockView::ToolResult {
                tool_use_id: tool_use_id@,
                content: content@,
                is_error: *is_error,
            },
        }
    }

    fn to_json(&self) -> (r: Json)
        ensures
            r@ == block_json(self@),
    {
        let object = ObjectBuilder::new();
        match self {
            AnthropicBlock::Text { text } => object.text("type", "text").text(
                "text",
                text.as_str(),
            ).build(),
            AnthropicBlock::ToolUse { id, name, input } => object.text("type", "tool_use").text(
                "id",
                id.as_str(),
            ).text("name", name.as_str()).with("input", input.clone()).build(),
            AnthropicBlock::ToolResult { tool_use_id, content, is_error } => {
                let mut said = object.text("type", "tool_result").text(
                    "tool_use_id",
                    tool_use_id.as_str(),
                ).text("content", content.as_str());
                if let Some(is_error) = is_error {
                    said = said.flag("is_error", *is_error);
                }
                said.build()
            },
        }
    }
}

/// The kinds of blocks, and their fields in the order in which a list tells them.
pub open spec fn block_kinds() -> Seq<(Seq<char>, Seq<Seq<char>>)> {
    seq![
        ("text"@, text::str_views(seq!["text"])),
        ("tool_use"@, text::str_views(seq!["id", "name", "input"])),
        ("tool_result"@, text::str_views(seq!["tool_use_id", "content", "is_error"])),
    ]
}

fn kinds_of_blocks() -> (r: Vec<Kind>)
    ensures
        shape::kind_views(r@) == block_kinds(),
{
    let text = vec!["text"];
    let tool_use = vec!["id", "name", "input"];
    let tool_result = vec!["tool_use_id", "content", "is_error"];
    assert(text::str_views(text@) =~= block_kinds()[0].1);
    assert(text::str_views(tool_use@) =~= block_kinds()[1].1);
    assert(text::str_views(tool_result@) =~= block_kinds()[2].1);
    let r = vec![
        Kind { name: "text", fields: text },
        Kind { name: "tool_use", fields: tool_use },
        Kind { name: "tool_result", fields: tool_result },
    ];
    assert(shape::kind_views(r@) =~= block_kinds());
    r
}

/// The block that a value is.
pub open spec fn block_in(value: JsonView) -> Option<BlockView> {
    let value = shape::by_tag(value, "type"@, block_kinds());
    named_block(value)
}

/// The block that a value with its members named is.
pub open spec fn named_block(value: JsonView) -> Option<BlockView> {
    let kind = json::text_in(json::member_of(value, "type"@));
    let text = json::text_in(json::member_of(value, "text"@));
    let id = json::text_in(json::member_of(value, "id"@));
    let name = json::text_in(json::member_of(value, "name"@));
    let input = json::member_of(value, "input"@);
    let tool_use_id = json::text_in(json::member_of(value, "tool_use_id"@));
    let content = json::text_in(json::member_of(value, "content"@));
    let error = json::member_of(value, "is_error"@);
    if kind == Some("text"@) && text is Some {
        Some(BlockView::Text { text: text->Some_0 })
    } else if kind == Some("tool_use"@) && id is Some && name is Some && input is Some {
        Some(
            BlockView::ToolUse { id: id->Some_0, name: name->Some_0, input: input->Some_0 },
        )
    } else if kind == Some("tool_result"@) && tool_use_id is Some && content is Some && (error
        is None || error == Some(JsonView::Null) || json::flag_in(error) is Some) {
        Some(
            BlockView::ToolResult {
                tool_use_id: tool_use_id->Some_0,
                content: content->Some_0,
                is_error: json::flag_in(error),
            },
        )
    } else {
        None
    }
}

/// What an optional block stands for.
pub open spec fn opt_block(block: Option<AnthropicBlock>) -> Option<BlockView> {
    match block {
        Some(block) => Some(block@),
        None => None,
    }
}

fn read_tool_use(value: &Json) -> (r: Option<AnthropicBlock>)
    requires
        json::text_in(json::member_of(value@, "type"@)) == Some("tool_use"@),
        "tool_use"@ != "text"@,
        "tool_use"@ != "tool_result"@,
    ensures
        opt_block(r) == named_block(value@),
{
    match (value.text_member("id"), value.text_member("name"), value.get("input")) {
        (Some(id), Some(name), Some(input)) => Some(
            AnthropicBlock::ToolUse { id, name, input: input.clone() },
        ),
        _ => None,
    }
}

fn read_tool_result(value: &Json) -> (r: Option<AnthropicBlock>)
    requires
        json::text_in(json::member_of(value@, "type"@)) == Some("tool_result"@),
        "tool_result"@ != "text"@,
        "tool_result"@ != "tool_use"@,
    ensures
        opt_block(r) == named_block(value@),
{
    match (value.text_member("tool_use_id"), value.text_member("content")) {
        (Some(tool_use_id), Some(content)) => {
            let is_error = value.flag_member("is_error");
            let absent = match value.get("is_error") {
                None => true,
                Some(Json::Null) => true,
                Some(_) => false,
            };
            if is_error.is_none() && !absent {
                return None;
            }
            Some(AnthropicBlock::ToolResult { tool_use_id, content, is_error })
        },
        _ => None,
    }
}

fn read_block(value: &Json) -> (r: Option<AnthropicBlock>)
    ensures
        opt_block(r) == block_in(value@),
{
    let named = shape::name_by_tag(value, "type", &kinds_of_blocks());
    let value = &named;
    proof {
        reveal_strlit("text");
        reveal_strlit("tool_use");
        reveal_strlit("tool_result");
        assert("text"@.len() == 4 && "tool_use"@.len() == 8 && "tool_result"@.len() == 11);
    }
    let kind = value.text_member("type");
    if text::is_text(&kind, "text") {
        match value.text_member("text") {
            Some(text) => Some(AnthropicBlock::Text { text }),
            None => None,
        }
    } else if text::is_text(&kind, "tool_use") {
        read_tool_use(value)
    } else if text::is_text(&kind, "tool_result") {
        read_tool_result(value)
    } else {
        None
    }
}

/// The blocks that values are.
pub open spec fn blocks_in(values: Seq<JsonView>) -> Option<Seq<BlockView>>
    decreases values.len(),
{
    if values.len() == 0 {
        Some(Seq::empty())
    } else {
        match (blocks_in(values.drop_last()), block_in(values.last())) {
            (Some(rest), Some(last)) => Some(rest.push(last)),
            _ => None,
        }
    }
}

proof fn lemma_one_bad_block(values: Seq<JsonView>, k: int)
    requires
        0 < k <= values.len(),
        blocks_in(values.take(k)) is None,
    ensures
        blocks_in(values) is None,
    decreases values.len(),
{
    if k == values.len() {
        assert(values.take(k) =~= values);
    } else {
        assert(values.drop_last().take(k) =~= values.take(k));
        lemma_one_bad_block(values.drop_last(), k);
    }
}

fn read_blocks(values: &Vec<Json>) -> (r: Option<Vec<AnthropicBlock>>)
    ensures
        (match r {
            Some(blocks) => Some(block_views(blocks@)),
            None => None,
        }) == blocks_in(json::json_views(values@)),
{
    let ghost all = json::json_views(values@);
    let mut blocks: Vec<AnthropicBlock> = Vec::new();
    assert(all.take(0) =~= Seq::empty());
    assert(block_views(blocks@) =~= Seq::empty());
    let mut i: usize = 0;
    while i < values.len()
        invariant
            0 <= i <= values@.len(),
            all == json::json_views(values@),
            blocks_in(all.take(i as int)) == Some(block_views(blocks@)),
        decreases values@.len() - i,
    {
        assert(all.take(i + 1).drop_last() =~= all.take(i as int));
        assert(all.take(i + 1).last() == values@[i as int]@);
        match read_block(&values[i]) {
            Some(block) => {
                let ghost before = block_views(blocks@);
                blocks.push(block);
                assert(block_views(blocks@) =~= before.push(block@));
            },
            None => {
                proof {
                    lemma_one_bad_block(all, i + 1);
                }
                return None;
            },
        }
        i += 1;
    }
    assert(all.take(all.len() as int) =~= all);
    Some(blocks)
}

/// The number of tokens in a member.
pub open spec fn tokens_in(value: JsonView, name: Seq<char>) -> Option<u32> {
    match json::u64_in(json::member_of(value, name)) {
        Some(n) => if n <= u32::MAX {
            Some(n as u32)
        } else {
            None
        },
        None => None,
    }
}

fn read_tokens(value: &Json, name: &str) -> (r: Option<u32>)
    ensures
        r == tokens_in(value@, name@),
{
    match value.number_member(name) {
        Some(n) => if n <= 0xffff_ffff {
            Some(n as u32)
        } else {
            None
        },
        None => None,
    }
}

/// The fields of an answer, in the order in which a list tells them.
pub open spec fn response_names() -> Seq<Seq<char>> {
    text::str_views(seq!["content", "usage"])
}

/// The fields of the number of tokens, in the order in which a list tells them.
pub open spec fn usage_names() -> Seq<Seq<char>> {
    text::str_views(seq!["input_tokens", "output_tokens"])
}

/// The answer that a value is: blocks, and how many tokens it took.
pub open spec fn response_in(value: JsonView) -> Option<(Seq<BlockView>, AnthropicUsage)> {
    let value = json::listed(value, response_names());
    let usage = json::member_of(value, "usage"@);
    let counted = json::listed(usage->Some_0, usage_names());
    match (
        json::member_of(value, "content"@),
        tokens_in(counted, "input_tokens"@),
        tokens_in(counted, "output_tokens"@),
    ) {
        (Some(JsonView::Array(values)), Some(input_tokens), Some(output_tokens)) => match blocks_in(
            values,
        ) {
            Some(blocks) => if usage is Some {
                Some((blocks, AnthropicUsage { input_tokens, output_tokens }))
            } else {
                None
            },
            None => None,
        },
        _ => None,
    }
}

impl AnthropicMessage {
    /// The message that `self` stands for.
    pub open spec fn view(&self) -> MessageView {
        MessageView {
            role: self.role,
            content: match self.content {
                AnthropicContent::Text(text) => ContentView::Text(text@),
                AnthropicContent::Blocks(blocks) => ContentView::Blocks(block_views(blocks@)),
            },
        }
    }

    /// A text of the user.
    pub fn user_text(content: String) -> (r: AnthropicMessage)
        ensures
            r@ == (MessageView {
                role: AnthropicRole::User,
                content: ContentView::Text(content@),
            }),
    {
        AnthropicMessage { role: AnthropicRole::User, content: AnthropicContent::Text(content) }
    }

    /// Blocks of the assistant.
    pub fn assistant_blocks(content: Vec<AnthropicBlock>) -> (r: AnthropicMessage)
        ensures
            r@ == (MessageView {
                role: AnthropicRole::Assistant,
                content: ContentView::Blocks(block_views(content@)),
            }),
    {
        AnthropicMessage {
            role: AnthropicRole::Assistant,
            content: AnthropicContent::Blocks(content),
        }
    }

    /// What a tool came to. That it failed is said; that it did not is not.
    pub fn tool_result(tool_use_id: String, content: String, is_error: bool) -> (r:
        AnthropicMessage)
        ensures
            r@ == (MessageView {
                role: AnthropicRole::User,
                content: ContentView::Blocks(
                    seq![
                        BlockView::ToolResult {
                            tool_use_id: tool_use_id@,
                            content: content@,
                            is_error: if is_error {
                                Some(true)
                            } else {
                                None
                            },
                        },
                    ],
                ),
            }),
    {
        let is_error = if is_error {
            Some(true)
        } else {
            None
        };
        let blocks = vec![AnthropicBlock::ToolResult { tool_use_id, content, is_error }];
        assert(block_views(blocks@) =~= seq![
            BlockView::ToolResult { tool_use_id: tool_use_id@, content: content@, is_error },
        ]);
        AnthropicMessage { role: AnthropicRole::User, content: AnthropicContent::Blocks(blocks) }
    }

    fn to_json(&self) -> (r: Json)
        ensures
            r@ == message_json(self@),
    {
        let role = match self.role {
            AnthropicRole::User => "user",
            AnthropicRole::Assistant => "assistant",
        };
        let content = match &self.content {
            AnthropicContent::Text(text) => Json::text(text.as_str()),
            AnthropicContent::Blocks(blocks) => blocks_to_json(blocks),
        };
        ObjectBuilder::new().text("role", role).with("content", content).build()
    }
}

/// Blocks as they are sent.
pub open spec fn blocks_json(blocks: Seq<BlockView>) -> JsonView {
    JsonView::Array(Seq::new(blocks.len(), |i: int| block_json(blocks[i])))
}

fn blocks_to_json(blocks: &Vec<AnthropicBlock>) -> (r: Json)
    ensures
        r@ == blocks_json(block_views(blocks@)),
{
    let ghost wanted = blocks_json(block_views(blocks@))->Array_0;
    let mut items: Vec<Json> = Vec::new();
    assert(json::json_views(items@) =~= wanted.take(0));
    let mut i: usize = 0;
    while i < blocks.len()
        invariant
            0 <= i <= blocks@.len(),
            wanted == blocks_json(block_views(blocks@))->Array_0,
            json::json_views(items@) == wanted.take(i as int),
        decreases blocks@.len() - i,
    {
        let ghost before = json::json_views(items@);
        items.push(blocks[i].to_json());
        assert(json::json_views(items@) =~= before.push(wanted[i as int]));
        assert(wanted.take(i + 1) =~= before.push(wanted[i as int]));
        i += 1;
    }
    assert(wanted.take(wanted.len() as int) =~= wanted);
    Json::array(items)
}

/// A message as it is sent.
pub open spec fn message_json(message: MessageView) -> JsonView {
    JsonView::Object(
        json::no_members().push(
            (
                "role"@,
                JsonView::Text(
                    match message.role {
                        AnthropicRole::User => "user"@,
                        AnthropicRole::Assistant => "assistant"@,
                    },
                ),
            ),
        ).push(
            (
                "content"@,
                match message.content {
                    ContentView::Text(text) => JsonView::Text(text),
                    ContentView::Blocks(blocks) => blocks_json(blocks),
                },
            ),
        ),
    )
}

/// The texts among blocks, in order.
pub open spec fn texts_among(blocks: Seq<BlockView>) -> Seq<Seq<char>>
    decreases blocks.len(),
{
    if blocks.len() == 0 {
        Seq::empty()
    } else {
        let before = texts_among(blocks.drop_last());
        match blocks.last() {
            BlockView::Text { text } => before.push(text),
            _ => before,
        }
    }
}

/// The tool uses among blocks, in order: id, tool name and input.
pub open spec fn uses_among(blocks: Seq<BlockView>) -> Seq<(Seq<char>, Seq<char>, JsonView)>
    decreases blocks.len(),
{
    if blocks.len() == 0 {
        Seq::empty()
    } else {
        let before = uses_among(blocks.drop_last());
        match blocks.last() {
            BlockView::ToolUse { id, name, input } => before.push((id, name, input)),
            _ => before,
        }
    }
}

/// What tool uses stand for.
pub open spec fn use_views(uses: Seq<(String, String, Json)>) -> Seq<
    (Seq<char>, Seq<char>, JsonView),
> {
    Seq::new(uses.len(), |i: int| (uses[i].0@, uses[i].1@, uses[i].2@))
}

impl AnthropicResponse {
    /// The answer that a value is.
    pub fn decode(value: &Json) -> (r: Option<AnthropicResponse>)
        ensures
            (match r {
                Some(response) => Some((block_views(response.content@), response.usage)),
                None => None,
            }) == response_in(value@),
    {
        let names = vec!["content", "usage"];
        assert(text::str_views(names@) =~= response_names());
        let counts = vec!["input_tokens", "output_tokens"];
        assert(text::str_views(counts@) =~= usage_names());
        let named = value.listed(&names);
        let usage = match named.get("usage") {
            Some(usage) => usage.listed(&counts),
            None => {
                return None;
            },
        };
        match (
            named.get("content"),
            read_tokens(&usage, "input_tokens"),
            read_tokens(&usage, "output_tokens"),
        ) {
            (Some(Json::Array(values)), Some(input_tokens), Some(output_tokens)) => {
                proof {
                    json::lemma_array_view(*values);
                }
                match read_blocks(values) {
                    Some(content) => Some(
                        AnthropicResponse {
                            content,
                            usage: AnthropicUsage { input_tokens, output_tokens },
                        },
                    ),
                    None => None,
                }
            },
            _ => None,
        }
    }

    /// The text of the answer: its texts, one under the other.
    pub fn text(&self) -> (r: String)
        ensures
            r@ == text::joined(texts_among(block_views(self.content@)), "\n"@),
    {
        let ghost all = block_views(self.content@);
        let mut texts: Vec<String> = Vec::new();
        assert(all.take(0) =~= Seq::empty());
        assert(text::views(texts@) =~= Seq::empty());
        for i in 0..self.content.len()
            invariant
                all == block_views(self.content@),
                text::views(texts@) == texts_among(all.take(i as int)),
        {
            let ghost before = text::views(texts@);
            proof {
                assert(all.take(i + 1).drop_last() =~= all.take(i as int));
                assert(all.take(i + 1).last() == self.content@[i as int]@);
            }
            if let AnthropicBlock::Text { text } = &self.content[i] {
                texts.push(text.clone());
                assert(text::views(texts@) =~= before.push(text@));
            }
        }
        assert(all.take(all.len() as int) =~= all);
        text::join(&texts, "\n")
    }

    /// The tool uses of the answer: id, tool name and input.
    pub fn tool_uses(&self) -> (r: Vec<(String, String, Json)>)
        ensures
            use_views(r@) == uses_among(block_views(self.content@)),
    {
        let ghost all = block_views(self.content@);
        let mut uses: Vec<(String, String, Json)> = Vec::new();
        assert(all.take(0) =~= Seq::empty());
        assert(use_views(uses@) =~= Seq::empty());
        for i in 0..self.content.len()
            invariant
                all == block_views(self.content@),
                use_views(uses@) == uses_among(all.take(i as int)),
        {
            let ghost before = use_views(uses@);
            proof {
                assert(all.take(i + 1).drop_last() =~= all.take(i as int));
                assert(all.take(i + 1).last() == self.content@[i as int]@);
            }
            if let AnthropicBlock::ToolUse { id, name, input } = &self.content[i] {
                uses.push((id.clone(), name.clone(), input.clone()));
                assert(use_views(uses@) =~= before.push((id@, name@, input@)));
            }
        }
        assert(all.take(all.len() as int) =~= all);
        uses
    }
}

/// A tool as it is sent.
pub open spec fn definition_json(tool: Tool) -> JsonView {
    JsonView::Object(
        json::no_members().push(("name"@, JsonView::Text(tool.internal()))).push(
            ("description"@, JsonView::Text(tool.about())),
        ).push(("input_schema"@, tool.schema())),
    )
}

/// The tool that is sent for a name that is enabled; only reading and writing files are.
pub open spec fn offered(name: Seq<char>) -> Option<Tool> {
    if name == "file.read"@ {
        Some(Tool::FileRead)
    } else if name == "file.write"@ {
        Some(Tool::FileWrite)
    } else {
        None
    }
}

/// The tools that are sent for the names that are enabled, in their order.
pub open spec fn definitions(enabled: Seq<Seq<char>>) -> Seq<JsonView>
    decreases enabled.len(),
{
    if enabled.len() == 0 {
        Seq::empty()
    } else {
        let before = definitions(enabled.drop_last());
        match offered(enabled.last()) {
            Some(tool) => before.push(definition_json(tool)),
            None => before,
        }
    }
}

fn definition_of(tool: Tool) -> (r: Json)
    ensures
        r@ == definition_json(tool),
{
    let definition = tool.definition();
    ObjectBuilder::new().text("name", definition.internal_name).text(
        "description",
        definition.description,
    ).with("input_schema", tool.to_json()).build()
}

fn tool_definitions(enabled_tools: &Vec<String>) -> (r: Json)
    ensures
        r@ == JsonView::Array(definitions(text::views(enabled_tools@))),
{
    let ghost all = text::views(enabled_tools@);
    let mut items: Vec<Json> = Vec::new();
    assert(all.take(0) =~= Seq::empty());
    assert(json::json_views(items@) =~= Seq::empty());
    for i in 0..enabled_tools.len()
        invariant
            all == text::views(enabled_tools@),
            json::json_views(items@) == definitions(all.take(i as int)),
    {
        let ghost before = json::json_views(items@);
        proof {
            assert(all.take(i + 1).drop_last() =~= all.take(i as int));
            assert(all.take(i + 1).last() == enabled_tools@[i as int]@);
        }
        let name = enabled_tools[i].as_str();
        if text::same_text(name, "file.read") {
            items.push(definition_of(Tool::FileRead));
            assert(json::json_views(items@) =~= before.push(definition_json(Tool::FileRead)));
        } else if text::same_text(name, "file.write") {
            items.push(definition_of(Tool::FileWrite));
            assert(json::json_views(items@) =~= before.push(definition_json(Tool::FileWrite)));
        }
    }
    assert(all.take(all.len() as int) =~= all);
    Json::array(items)
}

/// What messages stand for.
pub open spec fn message_views(messages: Seq<AnthropicMessage>) -> Seq<MessageView> {
    Seq::new(messages.len(), |i: int| messages[i]@)
}

/// Messages as they are sent.
pub open spec fn messages_json(messages: Seq<MessageView>) -> JsonView {
    JsonView::Array(Seq::new(messages.len(), |i: int| message_json(messages[i])))
}

fn messages_to_json(messages: &Vec<AnthropicMessage>) -> (r: Json)
    ensures
        r@ == messages_json(message_views(messages@)),
{
    let ghost wanted = messages_json(message_views(messages@))->Array_0;
    let mut items: Vec<Json> = Vec::new();
    assert(json::json_views(items@) =~= wanted.take(0));
    let mut i: usize = 0;
    while i < messages.len()
        invariant
            0 <= i <= messages@.len(),
            wanted == messages_json(message_views(messages@))->Array_0,
            json::json_views(items@) == wanted.take(i as int),
        decreases messages@.len() - i,
    {
        let ghost before = json::json_views(items@);
        items.push(messages[i].to_json());
        assert(json::json_views(items@) =~= before.push(wanted[i as int]));
        assert(wanted.take(i + 1) =~= before.push(wanted[i as int]));
        i += 1;
    }
    assert(wanted.take(wanted.len() as int) =~= wanted);
    Json::array(items)
}

/// A request as it is sent.
pub fn request_body(
    model: &str,
    system: &str,
    messages: &Vec<AnthropicMessage>,
    enabled_tools: &Vec<String>,
) -> (r: Json)
    ensures
        r@ == JsonView::Object(
            json::no_members().push(("model"@, JsonView::Text(model@))).push(
                ("max_tokens"@, JsonView::Number(text::decimal(DEFAULT_MAX_TOKENS as nat))),
            ).push(("system"@, JsonView::Text(system@))).push(
                ("messages"@, messages_json(message_views(messages@))),
            ).push(("tools"@, JsonView::Array(definitions(text::views(enabled_tools@))))),
        ),
{
    ObjectBuilder::new().text("model", model).number("max_tokens", DEFAULT_MAX_TOKENS as u64).text(
        "system",
        system,
    ).with("messages", messages_to_json(messages)).with(
        "tools",
        tool_definitions(enabled_tools),
    ).build()
}

/// What came of sending a request.
#[derive(Debug, PartialEq, Eq)]
pub enum Sent {
    /// The text of an answer.
    Answer(String),
    /// A status that says that something is wrong, and the text that came with it.
    Refused { status: u16, body: String },
    Failed(String),
}

/// What is taken of an answer.
pub open spec fn response_shape() -> ShapeView {
    ShapeView::Record(
        seq![
            (
                "content"@,
                ShapeView::List(
                    Box::new(ShapeView::Tagged { tag: "type"@, kinds: block_kinds() }),
                ),
            ),
            (
                "usage"@,
                ShapeView::Record(
                    seq![("input_tokens"@, ShapeView::Any), ("output_tokens"@, ShapeView::Any)],
                ),
            ),
        ],
    )
}

fn shape_of_response() -> (r: Shape)
    ensures
        r@ == response_shape(),
{
    let block = Shape::Tagged { tag: "type", kinds: kinds_of_blocks() };
    assert(block@ == (ShapeView::Tagged { tag: "type"@, kinds: block_kinds() }));
    let blocks = Shape::List(Box::new(block));
    assert(blocks@ == ShapeView::List(Box::new(block@)));
    let usage = vec![shape::whole("input_tokens"), shape::whole("output_tokens")];
    assert(shape::field_views(usage@) =~= response_shape()->Record_0[1].1->Record_0);
    let fields = vec![
        FieldShape { name: "content", shape: blocks },
        FieldShape { name: "usage", shape: shape::record(usage) },
    ];
    assert(shape::field_views(fields@) =~= response_shape()->Record_0);
    shape::record(fields)
}

/// Whether an answer is what it should be, or the error of the provider. An answer that is JSON but has
/// another form is refused in this library's own words.
pub open spec fn answer_is(
    result: AppResult<AnthropicResponse>,
    sent: Sent,
) -> bool {
    match sent {
        Sent::Answer(body) => match shape::shaped(response_shape(), body@) {
            Err(message) => result matches Err(AppError::Provider(detail)) && detail@
                == "Failed to read JSON: "@ + message,
            Ok(value) => match response_in(value) {
                Some((content, usage)) => result matches Ok(response) && block_views(
                    response.content@,
                ) == content && response.usage == usage,
                None => result matches Err(AppError::Provider(detail)) && detail@
                    == "Failed to read JSON: anthropic response is invalid"@,
            },
        },
        Sent::Refused { status, body } => result matches Err(AppError::Provider(detail)) && detail@
            == "anthropic returned http "@ + text::decimal(status as nat) + ": "@ + body@,
        Sent::Failed(error) => result == Err::<AnthropicResponse, AppError>(
            AppError::Provider(error),
        ),
    }
}

/// The answer to a request that was sent.
pub fn read_answer(sent: Sent) -> (r: AppResult<AnthropicResponse>)
    ensures
        answer_is(r, sent),
{
    match sent {
        Sent::Answer(body) => match shape_of_response().read(body.as_str()) {
            Err(message) => Err(
                AppError::Provider(text::text2("Failed to read JSON: ", message.as_str())),
            ),
            Ok(value) => match AnthropicResponse::decode(&value) {
                Some(response) => Ok(response),
                None => Err(
                    AppError::Provider(
                        "Failed to read JSON: anthropic response is invalid".to_owned(),
                    ),
                ),
            },
        },
        Sent::Refused { status, body } => Err(
            AppError::Provider(
                text::text4(
                    "anthropic returned http ",
                    text::decimal_u64(status as u64).as_str(),
                    ": ",
                    body.as_str(),
                ),
            ),
        ),
        Sent::Failed(error) => Err(AppError::Provider(error)),
    }
}

/// Talks to the API.
#[derive(Debug, PartialEq, Eq)]
pub struct AnthropicClient {
    pub api_key: String,
}

impl AnthropicClient {
    /// A client with the key that the environment variable `api_key_env` holds, which is `value`.
    pub fn from_env(api_key_env: &str, value: Option<String>) -> (r: AppResult<AnthropicClient>)
        ensures
            match value {
                Some(key) => r == Ok::<AnthropicClient, AppError>(AnthropicClient { api_key: key }),
                None => r matches Err(AppError::MissingApiKey(name)) && name@ == api_key_env@,
            },
    {
        match value {
            Some(api_key) => Ok(AnthropicClient { api_key }),
            None => Err(AppError::MissingApiKey(api_key_env.to_owned())),
        }
    }

    /// The headers of a request: names and values.
    pub fn headers(&self) -> (r: Vec<(&'static str, String)>)
        ensures
            r@.len() == 3,
            r@[0].0@ == "x-api-key"@ && r@[0].1@ == self.api_key@,
            r@[1].0@ == "anthropic-version"@ && r@[1].1@ == ANTHROPIC_VERSION@,
            r@[2].0@ == "content-type"@ && r@[2].1@ == "application/json"@,
    {
        let mut headers: Vec<(&'static str, String)> = Vec::new();
        headers.push(("x-api-key", self.api_key.clone()));
        headers.push(("anthropic-version", ANTHROPIC_VERSION.to_owned()));
        headers.push(("content-type", "application/json".to_owned()));
        headers
    }
}

/// What every request tells the model first.
pub open spec fn prompt() -> Seq<char> {
    "You are Plato Agent. Use at most one tool call in a response. Use file.read when you need to inspect workspace files. Use file.write only when the user explicitly asks you to write or edit a file. After a tool result, answer the user directly or request exactly one next tool call."@
}

/// What every request tells the model first.
pub fn system_prompt() -> (r: &'static str)
    ensures
        r@ == prompt(),
{
    "You are Plato Agent. Use at most one tool call in a response. Use file.read when you need to inspect workspace files. Use file.write only when the user explicitly asks you to write or edit a file. After a tool result, answer the user directly or request exactly one next tool call."
}

/// A block tells its kind and what it holds; whether a result is an error is told where it is known.
pub proof fn law_blocks_are_written_as_they_are(block: BlockView)
    ensures
        block_json(block) matches JsonView::Object(m) && match block {
            BlockView::Text { text } => m.len() == 2 && m[0] == ("type"@, JsonView::Text("text"@))
                && m[1] == ("text"@, JsonView::Text(text)),
            BlockView::ToolUse { id, name, input } => m.len() == 4 && m[0] == (
                "type"@,
                JsonView::Text("tool_use"@),
            ) && m[1] == ("id"@, JsonView::Text(id)) && m[2] == ("name"@, JsonView::Text(name))
                && m[3] == ("input"@, input),
            BlockView::ToolResult { tool_use_id, content, is_error } => m[0] == (
                "type"@,
                JsonView::Text("tool_result"@),
            ) && m[1] == ("tool_use_id"@, JsonView::Text(tool_use_id)) && m[2] == (
                "content"@,
                JsonView::Text(content),
            ) && (is_error is None ==> m.len() == 3) && (is_error is Some ==> m.len() == 4 && m[3]
                == ("is_error"@, JsonView::Bool(is_error->Some_0))),
        },
{
    let m = block_json(block)->Object_0;
    match block {
        BlockView::Text { text } => {
            assert(m[0] == ("type"@, JsonView::Text("text"@)));
            assert(m[1] == ("text"@, JsonView::Text(text)));
        },
        BlockView::ToolUse { id, name, input } => {
            assert(m[0] == ("type"@, JsonView::Text("tool_use"@)));
            assert(m[1] == ("id"@, JsonView::Text(id)));
            assert(m[2] == ("name"@, JsonView::Text(name)));
            assert(m[3] == ("input"@, input));
        },
        BlockView::ToolResult { tool_use_id, content, is_error } => {
            assert(m[0] == ("type"@, JsonView::Text("tool_result"@)));
            assert(m[1] == ("tool_use_id"@, JsonView::Text(tool_use_id)));
            assert(m[2] == ("content"@, JsonView::Text(content)));
            if is_error is Some {
                assert(m[3] == ("is_error"@, JsonView::Bool(is_error->Some_0)));
            }
        },
    }
}

/// A message is written in its role, with its text or its blocks in their order.
pub proof fn law_messages_are_written_as_they_are(messages: Seq<MessageView>, i: int)
    requires
        0 <= i < messages.len(),
    ensures
        messages_json(messages) matches JsonView::Array(items) && items.len() == messages.len() && (
        items[i] matches JsonView::Object(m) && m.len() == 2 && m[0] == (
            "role"@,
            JsonView::Text(
                if messages[i].role == AnthropicRole::User {
                    "user"@
                } else {
                    "assistant"@
                },
            ),
        ) && m[1].0 == "content"@ && match messages[i].content {
            ContentView::Text(text) => m[1].1 == JsonView::Text(text),
            ContentView::Blocks(blocks) => m[1].1 matches JsonView::Array(values) && values.len()
                == blocks.len() && forall|k: int|
                0 <= k < blocks.len() ==> (#[trigger] values[k]) == block_json(blocks[k]),
        }),
{
    let m = message_json(messages[i])->Object_0;
    assert(m[0].0 == "role"@ && m[1].0 == "content"@);
}

/// The texts and the uses of tools of an answer are those of its blocks, in their order.
pub proof fn law_blocks_are_sorted_by_kind(blocks: Seq<BlockView>, block: BlockView)
    ensures
        texts_among(Seq::empty()) == Seq::<Seq<char>>::empty(),
        uses_among(Seq::empty()) == Seq::<(Seq<char>, Seq<char>, JsonView)>::empty(),
        match block {
            BlockView::Text { text } => texts_among(blocks.push(block)) == texts_among(blocks).push(
                text,
            ) && uses_among(blocks.push(block)) == uses_among(blocks),
            BlockView::ToolUse { id, name, input } => uses_among(blocks.push(block)) == uses_among(
                blocks,
            ).push((id, name, input)) && texts_among(blocks.push(block)) == texts_among(blocks),
            BlockView::ToolResult { .. } => texts_among(blocks.push(block)) == texts_among(blocks)
                && uses_among(blocks.push(block)) == uses_among(blocks),
        },
{
    assert(blocks.push(block).drop_last() =~= blocks);
}

/// Reading and writing files are offered where they are enabled, in the order in which they are; no other
/// tool is.
pub proof fn law_two_tools_are_offered(enabled: Seq<Seq<char>>, name: Seq<char>)
    ensures
        offered(name) is Some <==> name == "file.read"@ || name == "file.write"@,
        offered(name) matches Some(tool) ==> tool.internal() == name,
        offered(name) is None ==> definitions(enabled.push(name)) == definitions(enabled),
        offered(name) matches Some(tool) ==> {
            let more = definitions(enabled.push(name));
            &&& more.len() == definitions(enabled).len() + 1
            &&& more.drop_last() == definitions(enabled)
            &&& more.last() matches JsonView::Object(m) && m.len() == 3 && m[0] == (
                "name"@,
                JsonView::Text(name),
            ) && m[1] == ("description"@, JsonView::Text(tool.about())) && m[2] == (
                "input_schema"@,
                tool.schema(),
            )
        },
{
    assert(enabled.push(name).drop_last() =~= enabled);
    if let Some(tool) = offered(name) {
        assert(definitions(enabled.push(name)).drop_last() =~= definitions(enabled));
        let m = definition_json(tool)->Object_0;
        assert(m[0] == ("name"@, JsonView::Text(tool.internal())));
        assert(m[1] == ("description"@, JsonView::Text(tool.about())));
        assert(m[2] == ("input_schema"@, tool.schema()));
    }
}

proof fn lemma_block_names()
    ensures
        "type"@ != "text"@,
        "type"@ != "id"@,
        "type"@ != "name"@,
        "type"@ != "input"@,
        "type"@ != "tool_use_id"@,
        "type"@ != "content"@,
        "type"@ != "is_error"@,
        "id"@ != "name"@,
        "id"@ != "input"@,
        "name"@ != "input"@,
        "tool_use_id"@ != "content"@,
        "tool_use_id"@ != "is_error"@,
        "content"@ != "is_error"@,
        "text"@ != "tool_use"@,
        "text"@ != "tool_result"@,
        "tool_use"@ != "tool_result"@,
{
    reveal_strlit("type");
    reveal_strlit("text");
    reveal_strlit("id");
    reveal_strlit("name");
    reveal_strlit("input");
    reveal_strlit("tool_use_id");
    reveal_strlit("content");
    reveal_strlit("is_error");
    reveal_strlit("tool_use");
    reveal_strlit("tool_result");
    assert("type"@[0] == 't' && "type"@[1] == 'y' && "text"@[1] == 'e');
    assert("name"@[0] == 'n' && "type"@.len() == 4 && "id"@.len() == 2 && "input"@.len() == 5);
    assert("tool_use_id"@.len() == 11 && "content"@.len() == 7 && "is_error"@.len() == 8);
    assert("text"@.len() == 4 && "tool_use"@.len() == 8 && "tool_result"@.len() == 11);
}

/// A block that was written is read back as it was.
pub proof fn law_written_blocks_are_read_back(block: BlockView)
    ensures
        named_block(block_json(block)) == Some(block),
{
    let m = block_json(block)->Object_0;
    law_blocks_are_written_as_they_are(block);
    lemma_block_names();
    json::lemma_distinct_members(m);
    match block {
        BlockView::Text { text } => {
            assert(m[0].0 == "type"@ && m[1].0 == "text"@);
        },
        BlockView::ToolUse { id, name, input } => {
            assert(m[0].0 == "type"@ && m[1].0 == "id"@ && m[2].0 == "name"@ && m[3].0
                == "input"@);
        },
        BlockView::ToolResult { tool_use_id, content, is_error } => {
            assert(m[0].0 == "type"@ && m[1].0 == "tool_use_id"@ && m[2].0 == "content"@);
            if is_error is None {
                json::lemma_no_member(m, "is_error"@);
            }
        },
    }
}

/// An answer is read block by block, in order, and counts only where every block can be read.
pub proof fn law_answers_are_read_in_order(values: Seq<JsonView>, value: JsonView)
    ensures
        blocks_in(Seq::empty()) == Some(Seq::<BlockView>::empty()),
        blocks_in(values) matches Some(before) ==> {
            &&& block_in(value) matches Some(block) ==> blocks_in(values.push(value)) == Some(
                before.push(block),
            )
            &&& block_in(value) is None ==> blocks_in(values.push(value)) is None
        },
        blocks_in(values) is None ==> blocks_in(values.push(value)) is None,
        value is Object ==> block_in(value) == named_block(value),
{
    assert(values.push(value).drop_last() =~= values);
}

/// An answer tells its blocks and what it used, each number under its own name.
pub proof fn law_answers_are_read_by_name(value: JsonView, usage: JsonView)
    requires
        value is Object,
        usage is Object,
        json::member_of(value, "usage"@) == Some(usage),
    ensures
        response_in(value) matches Some((blocks, used)) ==> {
            &&& json::member_of(value, "content"@) matches Some(JsonView::Array(values))
                && blocks_in(values) == Some(blocks)
            &&& json::u64_in(json::member_of(usage, "input_tokens"@)) == Some(
                used.input_tokens as u64,
            )
            &&& json::u64_in(json::member_of(usage, "output_tokens"@)) == Some(
                used.output_tokens as u64,
            )
        },
{
}

} // verus!

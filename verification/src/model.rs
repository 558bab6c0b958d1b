//! Messages to and from a model.
use crate::harness::ModelUsage;
use crate::json;
use crate::json::{Json, JsonView, ObjectBuilder};
use crate::text;
use crate::tool_catalog::ToolSpec;
use vstd::prelude::*;

verus! {

/// What is asked of a model.
#[derive(Debug, PartialEq, Eq)]
pub struct ModelRequest {
    pub model: String,
    pub system: String,
    pub max_output_tokens: u32,
    pub messages: Vec<ModelMessage>,
    pub tools: Vec<ToolSpec>,
}

/// One message of a conversation.
#[derive(Debug, PartialEq, Eq)]
pub struct ModelMessage {
    pub role: ModelRole,
    pub content: Vec<ModelBlock>,
}

/// Who a message is from.
#[derive(Clone, Copy, Debug, PartialEq, Eq, Structural)]
pub enum ModelRole {
    User,
    Assistant,
    Tool,
}

/// One block of a message.
#[derive(Debug, PartialEq, Eq)]
pub enum ModelBlock {
    Text { text: String },
    ToolUse { id: String, name: String, input: Json },
    ToolResult { tool_call_id: String, content: String, is_error: bool },
}

/// Why a model stopped.
#[derive(Clone, Copy, Debug, PartialEq, Eq, Structural)]
pub enum ModelStop {
    EndTurn,
    ToolUse,
    MaxOutput,
    ContentFilter,
}

/// What a model answered.
#[derive(Debug, PartialEq, Eq)]
pub struct ModelResponse {
    pub content: Vec<ModelBlock>,
    pub stop: ModelStop,
    pub usage: ModelUsage,
}

/// What a block stands for.
pub enum BlockView {
    Text { text: Seq<char> },
    ToolUse { id: Seq<char>, name: Seq<char>, input: JsonView },
    ToolResult { tool_call_id: Seq<char>, content: Seq<char>, is_error: bool },
}

/// What a message stands for.
pub struct MessageView {
    pub role: ModelRole,
    pub content: Seq<BlockView>,
}

/// What an answer stands for.
pub struct ResponseView {
    pub content: Seq<BlockView>,
    pub stop: ModelStop,
    pub usage: ModelUsage,
}

impl ModelRole {
    /// The name of the role in a request.
    pub open spec fn wire(self) -> Seq<char> {
        match self {
            ModelRole::User => "user"@,
            ModelRole::Assistant => "assistant"@,
            ModelRole::Tool => "tool"@,
        }
    }

    fn as_str(self) -> (r: &'static str)
        ensures
            r@ == self.wire(),
    {
        match self {
            ModelRole::User => "user",
            ModelRole::Assistant => "assistant",
            ModelRole::Tool => "tool",
        }
    }
}

impl ModelBlock {
    /// The block that `self` stands for.
    pub open spec fn view(&self) -> BlockView {
        match self {
            ModelBlock::Text { text } => BlockView::Text { text: text@ },
            ModelBlock::ToolUse { id, name, input } => BlockView::ToolUse {
                id: id@,
                name: name@,
                input: input@,
            },
            ModelBlock::ToolResult { tool_call_id, content, is_error } => BlockView::ToolResult {
                tool_call_id: tool_call_id@,
                content: content@,
                is_error: *is_error,
            },
        }
    }

    fn to_json(&self) -> (r: Json)
        ensures
            r@ == block_json(self@),
    {
        match self {
            ModelBlock::Text { text } => ObjectBuilder::new().text("type", "text").text(
                "text",
                text.as_str(),
            ).build(),
            ModelBlock::ToolUse { id, name, input } => ObjectBuilder::new().text(
                "type",
                "tool_use",
            ).text("id", id.as_str()).text("name", name.as_str()).with(
                "input",
                input.clone(),
            ).build(),
            ModelBlock::ToolResult { tool_call_id, content, is_error } => ObjectBuilder::new().text(
                "type",
                "tool_result",
            ).text("tool_call_id", tool_call_id.as_str()).text("content", content.as_str()).flag(
                "is_error",
                *is_error,
            ).build(),
        }
    }
}

impl Clone for ModelBlock {
    fn clone(&self) -> (r: ModelBlock)
        ensures
            r@ == self@,
    {
        match self {
            ModelBlock::Text { text } => ModelBlock::Text { text: text.clone() },
            ModelBlock::ToolUse { id, name, input } => ModelBlock::ToolUse {
                id: id.clone(),
                name: name.clone(),
                input: input.clone(),
            },
            ModelBlock::ToolResult { tool_call_id, content, is_error } => ModelBlock::ToolResult {
                tool_call_id: tool_call_id.clone(),
                content: content.clone(),
                is_error: *is_error,
            },
        }
    }
}

/// What blocks stand for.
pub open spec fn block_views(blocks: Seq<ModelBlock>) -> Seq<BlockView> {
    Seq::new(blocks.len(), |i: int| blocks[i]@)
}

/// What messages stand for.
pub open spec fn message_views(messages: Seq<ModelMessage>) -> Seq<MessageView> {
    Seq::new(messages.len(), |i: int| messages[i]@)
}

/// A block as it is sent.
pub open spec fn block_json(block: BlockView) -> JsonView {
    match block {
        BlockView::Text { text } => JsonView::Object(
            json::no_members().push(("type"@, JsonView::Text("text"@))).push(
                ("text"@, JsonView::Text(text)),
            ),
        ),
        BlockView::ToolUse { id, name, input } => JsonView::Object(
            json::no_members().push(("type"@, JsonView::Text("tool_use"@))).push(
                ("id"@, JsonView::Text(id)),
            ).push(("name"@, JsonView::Text(name))).push(("input"@, input)),
        ),
        BlockView::ToolResult { tool_call_id, content, is_error } => JsonView::Object(
            json::no_members().push(("type"@, JsonView::Text("tool_result"@))).push(
                ("tool_call_id"@, JsonView::Text(tool_call_id)),
            ).push(("content"@, JsonView::Text(content))).push(
                ("is_error"@, JsonView::Bool(is_error)),
            ),
        ),
    }
}

/// A message as it is sent.
pub open spec fn message_json(message: MessageView) -> JsonView {
    JsonView::Object(
        json::no_members().push(("role"@, JsonView::Text(message.role.wire()))).push(
            (
                "content"@,
                JsonView::Array(
                    Seq::new(message.content.len(), |i: int| block_json(message.content[i])),
                ),
            ),
        ),
    )
}

/// Messages as they are sent.
pub open spec fn messages_json(messages: Seq<MessageView>) -> JsonView {
    JsonView::Array(Seq::new(messages.len(), |i: int| message_json(messages[i])))
}

impl ModelMessage {
    /// The message that `self` stands for.
    pub open spec fn view(&self) -> MessageView {
        MessageView { role: self.role, content: block_views(self.content@) }
    }

    /// A message from the user.
    pub fn user_text(content: String) -> (r: ModelMessage)
        ensures
            r@ == user_message(content@),
    {
        let r = ModelMessage {
            role: ModelRole::User,
            content: vec![ModelBlock::Text { text: content }],
        };
        assert(r@.content =~= user_message(content@).content);
        r
    }

    /// A message from the model.
    pub fn assistant_blocks(content: Vec<ModelBlock>) -> (r: ModelMessage)
        ensures
            r@ == (MessageView { role: ModelRole::Assistant, content: block_views(content@) }),
    {
        ModelMessage { role: ModelRole::Assistant, content }
    }

    /// A message with what a tool gave back.
    pub fn tool_result(tool_call_id: String, content: String, is_error: bool) -> (r: ModelMessage)
        ensures
            r@ == tool_message(tool_call_id@, content@, is_error),
    {
        let r = ModelMessage {
            role: ModelRole::Tool,
            content: vec![ModelBlock::ToolResult { tool_call_id, content, is_error }],
        };
        assert(r@.content =~= tool_message(tool_call_id@, content@, is_error).content);
        r
    }

    fn to_json(&self) -> (r: Json)
        ensures
            r@ == message_json(self@),
    {
        let mut items: Vec<Json> = Vec::new();
        let mut i: usize = 0;
        while i < self.content.len()
            invariant
                0 <= i <= self.content@.len(),
                items@.len() == i,
                forall|k: int|
                    0 <= k < i ==> (#[trigger] items@[k])@ == block_json(self.content@[k]@),
            decreases self.content@.len() - i,
        {
            items.push(self.content[i].to_json());
            i += 1;
        }
        assert(json::json_views(items@) =~= Seq::new(
            self@.content.len(),
            |i: int| block_json(self@.content[i]),
        ));
        ObjectBuilder::new().text("role", self.role.as_str()).with(
            "content",
            Json::array(items),
        ).build()
    }
}

/// A message from the user that says `content`.
pub open spec fn user_message(content: Seq<char>) -> MessageView {
    MessageView { role: ModelRole::User, content: seq![BlockView::Text { text: content }] }
}

/// A message from the model that says `content`.
pub open spec fn assistant_message(content: Seq<char>) -> MessageView {
    MessageView { role: ModelRole::Assistant, content: seq![BlockView::Text { text: content }] }
}

/// A message with what a tool gave back.
pub open spec fn tool_message(
    tool_call_id: Seq<char>,
    content: Seq<char>,
    is_error: bool,
) -> MessageView {
    MessageView {
        role: ModelRole::Tool,
        content: seq![BlockView::ToolResult { tool_call_id, content, is_error }],
    }
}

/// A copy of blocks.
pub fn copy_blocks(blocks: &Vec<ModelBlock>) -> (r: Vec<ModelBlock>)
    ensures
        block_views(r@) == block_views(blocks@),
{
    let mut r: Vec<ModelBlock> = Vec::new();
    let mut i: usize = 0;
    while i < blocks.len()
        invariant
            0 <= i <= blocks@.len(),
            r@.len() == i,
            forall|k: int| 0 <= k < i ==> (#[trigger] r@[k])@ == blocks@[k]@,
        decreases blocks@.len() - i,
    {
        r.push(blocks[i].clone());
        i += 1;
    }
    assert(block_views(r@) =~= block_views(blocks@));
    r
}

impl Clone for ModelMessage {
    fn clone(&self) -> (r: ModelMessage)
        ensures
            r@ == self@,
    {
        ModelMessage { role: self.role, content: copy_blocks(&self.content) }
    }
}

/// A copy of messages.
pub fn copy_messages(messages: &Vec<ModelMessage>) -> (r: Vec<ModelMessage>)
    ensures
        message_views(r@) == message_views(messages@),
{
    let mut r: Vec<ModelMessage> = Vec::new();
    let mut i: usize = 0;
    while i < messages.len()
        invariant
            0 <= i <= messages@.len(),
            r@.len() == i,
            forall|k: int| 0 <= k < i ==> (#[trigger] r@[k])@ == messages@[k]@,
        decreases messages@.len() - i,
    {
        r.push(messages[i].clone());
        i += 1;
    }
    assert(message_views(r@) =~= message_views(messages@));
    r
}

/// Messages as they are sent.
pub fn messages_to_json(messages: &Vec<ModelMessage>) -> (r: Json)
    ensures
        r@ == messages_json(message_views(messages@)),
{
    let mut items: Vec<Json> = Vec::new();
    let mut i: usize = 0;
    while i < messages.len()
        invariant
            0 <= i <= messages@.len(),
            items@.len() == i,
            forall|k: int| 0 <= k < i ==> (#[trigger] items@[k])@ == message_json(messages@[k]@),
        decreases messages@.len() - i,
    {
        items.push(messages[i].to_json());
        i += 1;
    }
    assert(json::json_views(items@) =~= Seq::new(
        message_views(messages@).len(),
        |i: int| message_json(message_views(messages@)[i]),
    ));
    Json::array(items)
}

/// The texts among blocks, in order.
pub open spec fn texts_among(blocks: Seq<BlockView>) -> Seq<Seq<char>>
    decreases blocks.len(),
{
    if blocks.len() == 0 {
        Seq::empty()
    } else {
        let before = texts_among(blocks.drop_last());
        match blocks.last() {
            BlockView::Text { text } => before.push(text),
            _ => before,
        }
    }
}

/// The tool uses among blocks, in order: id, tool name and input.
pub open spec fn uses_among(blocks: Seq<BlockView>) -> Seq<(Seq<char>, Seq<char>, JsonView)>
    decreases blocks.len(),
{
    if blocks.len() == 0 {
        Seq::empty()
    } else {
        let before = uses_among(blocks.drop_last());
        match blocks.last() {
            BlockView::ToolUse { id, name, input } => before.push((id, name, input)),
            _ => before,
        }
    }
}

/// The text of an answer: its texts, one under the other.
pub open spec fn response_text(response: ResponseView) -> Seq<char> {
    text::joined(texts_among(response.content), "\n"@)
}

/// What tool uses stand for.
pub open spec fn use_views(uses: Seq<(String, String, Json)>) -> Seq<
    (Seq<char>, Seq<char>, JsonView),
> {
    Seq::new(uses.len(), |i: int| (uses[i].0@, uses[i].1@, uses[i].2@))
}

impl ModelResponse {
    /// The answer that `self` stands for.
    pub open spec fn view(&self) -> ResponseView {
        ResponseView {
            content: block_views(self.content@),
            stop: self.stop,
            usage: self.usage,
        }
    }

    /// The text of the answer.
    pub fn text(&self) -> (r: String)
        ensures
            r@ == response_text(self@),
    {
        let ghost all = block_views(self.content@);
        let mut texts: Vec<String> = Vec::new();
        let mut i: usize = 0;
        assert(all.take(0) =~= Seq::<BlockView>::empty());
        assert(text::views(texts@) =~= Seq::<Seq<char>>::empty());
        while i < self.content.len()
            invariant
                0 <= i <= self.content@.len(),
                all == block_views(self.content@),
                text::views(texts@) == texts_among(all.take(i as int)),
            decreases self.content@.len() - i,
        {
            let ghost before = text::views(texts@);
            proof {
                assert(all.take(i + 1).drop_last() =~= all.take(i as int));
                assert(all.take(i + 1).last() == self.content@[i as int]@);
            }
            if let ModelBlock::Text { text } = &self.content[i] {
                texts.push(text.clone());
                assert(text::views(texts@) =~= before.push(text@));
            }
            i += 1;
        }
        assert(all.take(self.content@.len() as int) =~= all);
        text::join(&texts, "\n")
    }

    /// The tool uses of the answer: id, tool name and input.
    pub fn tool_uses(&self) -> (r: Vec<(String, String, Json)>)
        ensures
            use_views(r@) == uses_among(self@.content),
    {
        let ghost all = block_views(self.content@);
        let mut uses: Vec<(String, String, Json)> = Vec::new();
        let mut i: usize = 0;
        assert(all.take(0) =~= Seq::<BlockView>::empty());
        assert(use_views(uses@) =~= Seq::<(Seq<char>, Seq<char>, JsonView)>::empty());
        while i < self.content.len()
            invariant
                0 <= i <= self.content@.len(),
                all == block_views(self.content@),
                use_views(uses@) == uses_among(all.take(i as int)),
            decreases self.content@.len() - i,
        {
            let ghost before = use_views(uses@);
            proof {
                assert(all.take(i + 1).drop_last() =~= all.take(i as int));
                assert(all.take(i + 1).last() == self.content@[i as int]@);
            }
            if let ModelBlock::ToolUse { id, name, input } = &self.content[i] {
                uses.push((id.clone(), name.clone(), input.clone()));
                assert(use_views(uses@) =~= before.push((id@, name@, input@)));
            }
            i += 1;
        }
        assert(all.take(self.content@.len() as int) =~= all);
        uses
    }
}

/// What every request tells the model first.
pub open spec fn prompt() -> Seq<char> {
    "You are Plato Agent. Use at most one tool call in a response. Use file_list when you need to inspect directory entries. Use file_read when you need to inspect workspace files. Use file_write only when the user explicitly asks you to write or edit a file. After a tool result, answer the user directly or request exactly one next tool call."@
}

/// What every request tells the model first.
pub fn system_prompt() -> (r: &'static str)
    ensures
        r@ == prompt(),
{
    "You are Plato Agent. Use at most one tool call in a response. Use file_list when you need to inspect directory entries. Use file_read when you need to inspect workspace files. Use file_write only when the user explicitly asks you to write or edit a file. After a tool result, answer the user directly or request exactly one next tool call."
}

/// Blocks that are all texts use no tool.
pub proof fn lemma_uses_in_texts(blocks: Seq<BlockView>)
    requires
        forall|i: int| 0 <= i < blocks.len() ==> (#[trigger] blocks[i]) is Text,
    ensures
        uses_among(blocks).len() == 0,
    decreases blocks.len(),
{
    if blocks.len() > 0 {
        let rest = blocks.drop_last();
        assert forall|i: int| 0 <= i < rest.len() implies (#[trigger] rest[i]) is Text by {
            assert(rest[i] == blocks[i]);
        }
        assert(blocks[blocks.len() - 1] is Text);
        lemma_uses_in_texts(rest);
    }
}

proof fn lemma_no_use(blocks: Seq<BlockView>)
    requires
        forall|i: int| 0 <= i < blocks.len() ==> (#[trigger] blocks[i]) !is ToolUse,
    ensures
        uses_among(blocks).len() == 0,
    decreases blocks.len(),
{
    if blocks.len() > 0 {
        let rest = blocks.drop_last();
        assert forall|i: int| 0 <= i < rest.len() implies (#[trigger] rest[i]) !is ToolUse by {
            assert(rest[i] == blocks[i]);
        }
        assert(blocks[blocks.len() - 1] !is ToolUse);
        lemma_no_use(rest);
    }
}

/// Blocks of which one uses a tool use that tool, with its id and its input, and no other.
pub proof fn lemma_only_use(blocks: Seq<BlockView>, at: int)
    requires
        0 <= at < blocks.len(),
        blocks[at] is ToolUse,
        forall|i: int| 0 <= i < blocks.len() && i != at ==> (#[trigger] blocks[i]) !is ToolUse,
    ensures
        uses_among(blocks).len() == 1,
        uses_among(blocks)[0] == (
            blocks[at]->ToolUse_id,
            blocks[at]->ToolUse_name,
            blocks[at]->ToolUse_input,
        ),
    decreases blocks.len(),
{
    let rest = blocks.drop_last();
    assert forall|i: int| 0 <= i < rest.len() && i != at implies (#[trigger] rest[i]) !is ToolUse by {
        assert(rest[i] == blocks[i]);
    }
    if at == blocks.len() - 1 {
        lemma_no_use(rest);
    } else {
        assert(blocks[blocks.len() - 1] !is ToolUse);
        lemma_only_use(rest, at);
    }
}

/// Blocks of which two use tools use more than one.
pub proof fn lemma_two_uses(blocks: Seq<BlockView>, first: int, second: int)
    requires
        0 <= first < second < blocks.len(),
        blocks[first] is ToolUse,
        blocks[second] is ToolUse,
    ensures
        uses_among(blocks).len() > 1,
    decreases blocks.len(),
{
    let rest = blocks.drop_last();
    if second < blocks.len() - 1 {
        lemma_two_uses(rest, first, second);
    } else {
        lemma_some_use(rest, first);
    }
}

proof fn lemma_some_use(blocks: Seq<BlockView>, at: int)
    requires
        0 <= at < blocks.len(),
        blocks[at] is ToolUse,
    ensures
        uses_among(blocks).len() >= 1,
    decreases blocks.len(),
{
    if at < blocks.len() - 1 {
        lemma_some_use(blocks.drop_last(), at);
    }
}

/// The tools that an answer uses and the texts that it says are told apart and kept in order: what comes
/// behind an answer comes behind what it says, and a block is a text, a tool use or neither.
pub proof fn law_blocks_are_told_apart(blocks: Seq<BlockView>, block: BlockView)
    ensures
        texts_among(Seq::empty()) == Seq::<Seq<char>>::empty(),
        uses_among(Seq::empty()) == Seq::<(Seq<char>, Seq<char>, JsonView)>::empty(),
        match block {
            BlockView::Text { text } => texts_among(blocks.push(block)) == texts_among(blocks).push(
                text,
            ) && uses_among(blocks.push(block)) == uses_among(blocks),
            BlockView::ToolUse { id, name, input } => texts_among(blocks.push(block))
                == texts_among(blocks) && uses_among(blocks.push(block)) == uses_among(blocks).push(
                (id, name, input),
            ),
            BlockView::ToolResult { .. } => texts_among(blocks.push(block)) == texts_among(blocks)
                && uses_among(blocks.push(block)) == uses_among(blocks),
        },
{
    assert(blocks.push(block).drop_last() =~= blocks);
}

/// The text of an answer with one text is that text; that of one with two is the first, a line feed and
/// the second.
pub proof fn law_texts_stand_one_under_the_other(
    first: Seq<char>,
    second: Seq<char>,
    stop: ModelStop,
    usage: ModelUsage,
)
    ensures
        response_text(
            ResponseView { content: seq![BlockView::Text { text: first }], stop, usage },
        ) == first,
        response_text(
            ResponseView {
                content: seq![BlockView::Text { text: first }, BlockView::Text { text: second }],
                stop,
                usage,
            },
        ) == first + "\n"@ + second,
{
    let a = BlockView::Text { text: first };
    let b = BlockView::Text { text: second };
    let none = Seq::<BlockView>::empty();
    law_blocks_are_told_apart(none, a);
    law_blocks_are_told_apart(none.push(a), b);
    assert(seq![a] =~= none.push(a));
    assert(seq![a, b] =~= none.push(a).push(b));
    let texts = texts_among(seq![a, b]);
    assert(texts =~= seq![first, second]);
    assert(texts.drop_last() =~= seq![first]);
    assert(texts_among(seq![a]) =~= seq![first]);
    reveal_with_fuel(text::joined, 3);
    assert(texts.last() == second);
    assert(text::joined(seq![first], "\n"@) == first);
}

/// A block as it is sent tells its kind, and no two kinds go by the same name; each carries what it
/// holds.
pub proof fn law_blocks_are_sent_as_they_are(block: BlockView)
    ensures
        json::member_of(block_json(block), "type"@) == Some(
            JsonView::Text(
                match block {
                    BlockView::Text { .. } => "text"@,
                    BlockView::ToolUse { .. } => "tool_use"@,
                    BlockView::ToolResult { .. } => "tool_result"@,
                },
            ),
        ),
        block matches BlockView::Text { text } ==> json::member_of(block_json(block), "text"@)
            == Some(JsonView::Text(text)),
        block matches BlockView::ToolUse { id, name, input } ==> json::member_of(
            block_json(block),
            "id"@,
        ) == Some(JsonView::Text(id)) && json::member_of(block_json(block), "name"@) == Some(
            JsonView::Text(name),
        ) && json::member_of(block_json(block), "input"@) == Some(input),
        block matches BlockView::ToolResult { tool_call_id, content, is_error } ==> json::member_of(
            block_json(block),
            "tool_call_id"@,
        ) == Some(JsonView::Text(tool_call_id)) && json::member_of(block_json(block), "content"@)
            == Some(JsonView::Text(content)) && json::member_of(block_json(block), "is_error"@)
            == Some(JsonView::Bool(is_error)),
{
    reveal_strlit("type");
    reveal_strlit("text");
    reveal_strlit("id");
    reveal_strlit("name");
    reveal_strlit("input");
    reveal_strlit("tool_call_id");
    reveal_strlit("content");
    reveal_strlit("is_error");
    assert("type"@[1] == 'y' && "text"@[1] == 'e' && "name"@[1] == 'a');
    assert("type"@.len() == 4 && "text"@.len() == 4 && "id"@.len() == 2 && "name"@.len() == 4
        && "input"@.len() == 5 && "tool_call_id"@.len() == 12 && "content"@.len() == 7
        && "is_error"@.len() == 8);
    let m = block_json(block)->Object_0;
    json::lemma_distinct_members(m);
    match block {
        BlockView::Text { text } => {
            assert(m[1] == ("text"@, JsonView::Text(text)));
        },
        BlockView::ToolUse { id, name, input } => {
            assert(m[1] == ("id"@, JsonView::Text(id)));
            assert(m[2] == ("name"@, JsonView::Text(name)));
            assert(m[3] == ("input"@, input));
        },
        BlockView::ToolResult { tool_call_id, content, is_error } => {
            assert(m[1] == ("tool_call_id"@, JsonView::Text(tool_call_id)));
            assert(m[2] == ("content"@, JsonView::Text(content)));
            assert(m[3] == ("is_error"@, JsonView::Bool(is_error)));
        },
    }
    assert(m[0].0 == "type"@);
}

} // verus!

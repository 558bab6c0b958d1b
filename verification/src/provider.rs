//! Requests to providers that speak the chat completions protocol, and their streamed answers.
use crate::app::TokenLimitField;
use crate::error::{AppError, AppResult};
use crate::gateway;
use crate::harness::ModelUsage;
use crate::json;
use crate::json::{Json, JsonView, ObjectBuilder};
use crate::model;
use crate::model::{
    BlockView, MessageView, ModelBlock, ModelMessage, ModelRequest, ModelResponse, ModelRole,
    ModelStop,
};
use crate::run;
use crate::run::RequestView;
use crate::text;
use crate::tool_catalog;
use crate::tool_catalog::{ToolSpec, ToolSpecView};
use vstd::prelude::*;

verus! {

/// Where requests go.
pub fn completions_url(base_url: &str) -> (r: String)
    ensures
        r@ == gateway::without_slashes(base_url@) + "/chat/completions"@,
{
    text::text2(gateway::trimmed_base(base_url).as_str(), "/chat/completions")
}

/// A tool as it is offered.
pub open spec fn tool_json(tool: ToolSpecView) -> JsonView {
    JsonView::Object(
        json::no_members().push(("type"@, JsonView::Text("function"@))).push(
            (
                "function"@,
                JsonView::Object(
                    json::no_members().push(("name"@, JsonView::Text(tool.name))).push(
                        ("description"@, JsonView::Text(tool.description)),
                    ).push(("parameters"@, tool.input_schema)),
                ),
            ),
        ),
    )
}

fn tools_to_json(tools: &Vec<ToolSpec>) -> (r: Json)
    ensures
        r@ == tools_json(tool_catalog::spec_views(tools@)),
{
    let ghost wanted = tools_json(tool_catalog::spec_views(tools@))->Array_0;
    let mut items: Vec<Json> = Vec::new();
    assert(json::json_views(items@) =~= wanted.take(0));
    for i in 0..tools.len()
        invariant
            wanted == tools_json(tool_catalog::spec_views(tools@))->Array_0,
            json::json_views(items@) == wanted.take(i as int),
    {
        let ghost before = json::json_views(items@);
        let tool = &tools[i];
        let function = ObjectBuilder::new().text("name", tool.name.as_str()).text(
            "description",
            tool.description.as_str(),
        ).with("parameters", tool.input_schema.clone()).build();
        items.push(ObjectBuilder::new().text("type", "function").with("function", function).build());
        assert(json::json_views(items@) =~= before.push(wanted[i as int]));
        assert(wanted.take(i + 1) =~= before.push(wanted[i as int]));
    }
    assert(wanted.take(wanted.len() as int) =~= wanted);
    Json::array(items)
}

/// Tools as they are offered.
pub open spec fn tools_json(tools: Seq<ToolSpecView>) -> JsonView {
    JsonView::Array(Seq::new(tools.len(), |i: int| tool_json(tools[i])))
}

/// The name that a provider knows a tool by; its own where it has no other.
pub open spec fn outer_name(name: Seq<char>) -> Seq<char> {
    match tool_catalog::named(name) {
        Some(tool) => tool.provider(),
        None => name,
    }
}

/// The name of the tool that a provider calls by `name`.
pub open spec fn inner_name(name: Seq<char>) -> Seq<char> {
    match tool_catalog::provider_named(name) {
        Some(tool) => tool.internal(),
        None => name,
    }
}

/// A call that the assistant made, as the provider is told of it.
pub open spec fn call_json(id: Seq<char>, name: Seq<char>, input: JsonView) -> JsonView {
    JsonView::Object(
        json::no_members().push(("id"@, JsonView::Text(id))).push(
            ("type"@, JsonView::Text("function"@)),
        ).push(
            (
                "function"@,
                JsonView::Object(
                    json::no_members().push(("name"@, JsonView::Text(outer_name(name)))).push(
                        ("arguments"@, JsonView::Text(json::json_text(input))),
                    ),
                ),
            ),
        ),
    )
}

/// The calls among blocks.
pub open spec fn calls_among(blocks: Seq<BlockView>) -> Seq<JsonView>
    decreases blocks.len(),
{
    if blocks.len() == 0 {
        Seq::empty()
    } else {
        let before = calls_among(blocks.drop_last());
        match blocks.last() {
            BlockView::ToolUse { id, name, input } => before.push(call_json(id, name, input)),
            _ => before,
        }
    }
}

/// What came of tools, among blocks: a message each.
pub open spec fn results_among(blocks: Seq<BlockView>) -> Seq<JsonView>
    decreases blocks.len(),
{
    if blocks.len() == 0 {
        Seq::empty()
    } else {
        let before = results_among(blocks.drop_last());
        match blocks.last() {
            BlockView::ToolResult { tool_call_id, content, .. } => before.push(
                JsonView::Object(
                    json::no_members().push(("role"@, JsonView::Text("tool"@))).push(
                        ("tool_call_id"@, JsonView::Text(tool_call_id)),
                    ).push(("content"@, JsonView::Text(content))),
                ),
            ),
            _ => before,
        }
    }
}

/// The text among blocks, one piece under the other.
pub open spec fn text_among(blocks: Seq<BlockView>) -> Seq<char> {
    text::joined(model::texts_among(blocks), "\n"@)
}

/// The messages that one message becomes: what came of each tool is one of its own.
pub open spec fn sent_as(message: MessageView) -> Seq<JsonView> {
    let said = text_among(message.content);
    match message.role {
        ModelRole::User => seq![
            JsonView::Object(
                json::no_members().push(("role"@, JsonView::Text("user"@))).push(
                    ("content"@, JsonView::Text(said)),
                ),
            ),
        ],
        ModelRole::Assistant => {
            let calls = calls_among(message.content);
            let plain = json::no_members().push(("role"@, JsonView::Text("assistant"@))).push(
                ("content"@, JsonView::Text(said)),
            );
            seq![
                JsonView::Object(
                    if calls.len() == 0 {
                        plain
                    } else {
                        plain.push(("tool_calls"@, JsonView::Array(calls)))
                    },
                ),
            ]
        },
        ModelRole::Tool => results_among(message.content),
    }
}

fn block_texts(blocks: &Vec<ModelBlock>) -> (r: String)
    ensures
        r@ == text_among(model::block_views(blocks@)),
{
    let ghost all = model::block_views(blocks@);
    let mut texts: Vec<String> = Vec::new();
    assert(all.take(0) =~= Seq::empty());
    assert(text::views(texts@) =~= Seq::empty());
    for i in 0..blocks.len()
        invariant
            all == model::block_views(blocks@),
            text::views(texts@) == model::texts_among(all.take(i as int)),
    {
        let ghost before = text::views(texts@);
        proof {
            assert(all.take(i + 1).drop_last() =~= all.take(i as int));
            assert(all.take(i + 1).last() == blocks@[i as int]@);
        }
        if let ModelBlock::Text { text } = &blocks[i] {
            texts.push(text.clone());
            assert(text::views(texts@) =~= before.push(text@));
        }
    }
    assert(all.take(all.len() as int) =~= all);
    text::join(&texts, "\n")
}

fn block_calls(blocks: &Vec<ModelBlock>) -> (r: Vec<Json>)
    ensures
        json::json_views(r@) == calls_among(model::block_views(blocks@)),
{
    let ghost all = model::block_views(blocks@);
    let mut calls: Vec<Json> = Vec::new();
    assert(all.take(0) =~= Seq::empty());
    assert(json::json_views(calls@) =~= Seq::empty());
    for i in 0..blocks.len()
        invariant
            all == model::block_views(blocks@),
            json::json_views(calls@) == calls_among(all.take(i as int)),
    {
        let ghost before = json::json_views(calls@);
        proof {
            assert(all.take(i + 1).drop_last() =~= all.take(i as int));
            assert(all.take(i + 1).last() == blocks@[i as int]@);
        }
        if let ModelBlock::ToolUse { id, name, input } = &blocks[i] {
            let outer = match tool_catalog::provider_name_for_internal(name.as_str()) {
                Some(outer) => outer.to_owned(),
                None => name.clone(),
            };
            let function = ObjectBuilder::new().text("name", outer.as_str()).text(
                "arguments",
                input.render().as_str(),
            ).build();
            calls.push(
                ObjectBuilder::new().text("id", id.as_str()).text("type", "function").with(
                    "function",
                    function,
                ).build(),
            );
            assert(json::json_views(calls@) =~= before.push(call_json(id@, name@, input@)));
        }
    }
    assert(all.take(all.len() as int) =~= all);
    calls
}

fn block_results(blocks: &Vec<ModelBlock>) -> (r: Vec<Json>)
    ensures
        json::json_views(r@) == results_among(model::block_views(blocks@)),
{
    let ghost all = model::block_views(blocks@);
    let mut results: Vec<Json> = Vec::new();
    assert(all.take(0) =~= Seq::empty());
    assert(json::json_views(results@) =~= Seq::empty());
    for i in 0..blocks.len()
        invariant
            all == model::block_views(blocks@),
            json::json_views(results@) == results_among(all.take(i as int)),
    {
        let ghost before = json::json_views(results@);
        proof {
            assert(all.take(i + 1).drop_last() =~= all.take(i as int));
            assert(all.take(i + 1).last() == blocks@[i as int]@);
        }
        if let ModelBlock::ToolResult { tool_call_id, content, .. } = &blocks[i] {
            let result = ObjectBuilder::new().text("role", "tool").text(
                "tool_call_id",
                tool_call_id.as_str(),
            ).text("content", content.as_str()).build();
            let ghost added = result@;
            results.push(result);
            assert(json::json_views(results@) =~= before.push(added));
        }
    }
    assert(all.take(all.len() as int) =~= all);
    results
}

fn message_to_json(message: &ModelMessage) -> (r: Vec<Json>)
    ensures
        json::json_views(r@) == sent_as(message@),
{
    let start = match message.role {
        ModelRole::User => ObjectBuilder::new().text("role", "user").text(
            "content",
            block_texts(&message.content).as_str(),
        ),
        ModelRole::Assistant => {
            let plain = ObjectBuilder::new().text("role", "assistant").text(
                "content",
                block_texts(&message.content).as_str(),
            );
            let calls = block_calls(&message.content);
            assert(json::json_views(calls@).len() == calls@.len());
            if calls.len() == 0 {
                plain
            } else {
                plain.with("tool_calls", Json::array(calls))
            }
        },
        ModelRole::Tool => {
            return block_results(&message.content);
        },
    };
    let sent = vec![start.build()];
    assert(json::json_views(sent@) =~= sent_as(message@));
    sent
}

/// The messages of a conversation as they are sent.
pub open spec fn all_sent(messages: Seq<MessageView>) -> Seq<JsonView>
    decreases messages.len(),
{
    if messages.len() == 0 {
        Seq::empty()
    } else {
        all_sent(messages.drop_last()) + sent_as(messages.last())
    }
}

/// The first message of every request.
pub open spec fn system_json(system: Seq<char>) -> JsonView {
    JsonView::Object(
        json::no_members().push(("role"@, JsonView::Text("system"@))).push(
            ("content"@, JsonView::Text(system)),
        ),
    )
}

fn conversation(system: &str, messages: &Vec<ModelMessage>) -> (r: Json)
    ensures
        r@ == JsonView::Array(seq![system_json(system@)] + all_sent(model::message_views(messages@))),
{
    let ghost all = model::message_views(messages@);
    let ghost head = seq![system_json(system@)];
    let mut items: Vec<Json> = vec![
        ObjectBuilder::new().text("role", "system").text("content", system).build(),
    ];
    assert(all.take(0) =~= Seq::empty());
    assert(json::json_views(items@) =~= head + all_sent(all.take(0)));
    for i in 0..messages.len()
        invariant
            all == model::message_views(messages@),
            json::json_views(items@) == head + all_sent(all.take(i as int)),
    {
        proof {
            assert(all.take(i + 1).drop_last() =~= all.take(i as int));
            assert(all.take(i + 1).last() == messages@[i as int]@);
        }
        let ghost before = json::json_views(items@);
        let mut sent = message_to_json(&messages[i]);
        let ghost added = json::json_views(sent@);
        items.append(&mut sent);
        assert(json::json_views(items@) =~= before + added);
        assert(before + added =~= head + all_sent(all.take(i + 1)));
    }
    assert(all.take(all.len() as int) =~= all);
    Json::array(items)
}

/// The name under which a provider is told how many tokens it may write.
pub open spec fn limit_name(field: TokenLimitField) -> Seq<char> {
    match field {
        TokenLimitField::MaxCompletionTokens => "max_completion_tokens"@,
        TokenLimitField::MaxTokens => "max_tokens"@,
    }
}

/// A request as it is sent. A streamed one asks for the tokens that were used, too.
pub open spec fn request_json(
    request: RequestView,
    field: TokenLimitField,
    stream: bool,
) -> JsonView {
    let plain = json::no_members().push(("model"@, JsonView::Text(request.model))).push(
        (
            "messages"@,
            JsonView::Array(seq![system_json(request.system)] + all_sent(request.messages)),
        ),
    ).push(("tools"@, tools_json(request.tools))).push(
        (limit_name(field), JsonView::Number(text::decimal(request.max_output_tokens as nat))),
    );
    JsonView::Object(
        if stream {
            plain.push(("stream"@, JsonView::Bool(true))).push(
                (
                    "stream_options"@,
                    JsonView::Object(
                        json::no_members().push(("include_usage"@, JsonView::Bool(true))),
                    ),
                ),
            )
        } else {
            plain
        },
    )
}

/// A request as it is sent.
pub fn request_body(request: &ModelRequest, field: TokenLimitField, stream: bool) -> (r: Json)
    ensures
        r@ == request_json(run::request_view(*request), field, stream),
{
    let limit = match field {
        TokenLimitField::MaxCompletionTokens => "max_completion_tokens",
        TokenLimitField::MaxTokens => "max_tokens",
    };
    let plain = ObjectBuilder::new().text("model", request.model.as_str()).with(
        "messages",
        conversation(request.system.as_str(), &request.messages),
    ).with("tools", tools_to_json(&request.tools)).number(limit, request.max_output_tokens as u64);
    if stream {
        plain.flag("stream", true).with(
            "stream_options",
            ObjectBuilder::new().flag("include_usage", true).build(),
        ).build()
    } else {
        plain.build()
    }
}

/// A call that is coming in piece by piece.
#[derive(Debug, PartialEq, Eq)]
pub struct PartialCall {
    pub index: u64,
    pub id: String,
    pub name: String,
    pub arguments: String,
}

/// What such a call stands for.
pub struct PartView {
    pub index: u64,
    pub id: Seq<char>,
    pub name: Seq<char>,
    pub arguments: Seq<char>,
}

impl PartialCall {
    /// The call that `self` stands for.
    pub open spec fn view(&self) -> PartView {
        PartView {
            index: self.index,
            id: self.id@,
            name: self.name@,
            arguments: self.arguments@,
        }
    }
}

/// What calls stand for.
pub open spec fn part_views(calls: Seq<PartialCall>) -> Seq<PartView> {
    Seq::new(calls.len(), |i: int| calls[i]@)
}

/// The text of a member, or none.
pub open spec fn text_or_none(value: JsonView, name: Seq<char>) -> Seq<char> {
    match json::text_in(json::member_of(value, name)) {
        Some(text) => text,
        None => Seq::empty(),
    }
}

fn member_or_none(value: &Json, name: &str) -> (r: String)
    ensures
        r@ == text_or_none(value@, name@),
{
    match value.text_member(name) {
        Some(text) => text,
        None => String::new(),
    }
}

/// The piece of a call that a value is: its pieces of name and arguments stand under `function`.
pub open spec fn part_in(value: JsonView) -> PartView {
    let function = match json::member_of(value, "function"@) {
        Some(function) => function,
        None => JsonView::Null,
    };
    PartView {
        index: match json::u64_in(json::member_of(value, "index"@)) {
            Some(index) => index,
            None => 0,
        },
        id: text_or_none(value, "id"@),
        name: text_or_none(function, "name"@),
        arguments: text_or_none(function, "arguments"@),
    }
}

fn read_part(value: &Json) -> (r: PartialCall)
    ensures
        r@ == part_in(value@),
{
    let index: u64 = match value.number_member("index") {
        Some(index) => index,
        None => 0,
    };
    let id = member_or_none(value, "id");
    match value.get("function") {
        Some(function) => PartialCall {
            index,
            id,
            name: member_or_none(function, "name"),
            arguments: member_or_none(function, "arguments"),
        },
        None => PartialCall {
            index,
            id,
            name: member_or_none(&Json::Null, "name"),
            arguments: member_or_none(&Json::Null, "arguments"),
        },
    }
}

/// A call with another piece of it.
pub open spec fn extended(call: PartView, part: PartView) -> PartView {
    PartView {
        index: call.index,
        id: call.id + part.id,
        name: call.name + part.name,
        arguments: call.arguments + part.arguments,
    }
}

/// The calls after another piece: it belongs to the call of its index, or begins one.
pub open spec fn with_part(calls: Seq<PartView>, part: PartView) -> Seq<PartView>
    decreases calls.len(),
{
    if calls.len() == 0 {
        seq![part]
    } else if calls[0].index == part.index {
        calls.update(0, extended(calls[0], part))
    } else {
        seq![calls[0]] + with_part(calls.drop_first(), part)
    }
}

proof fn lemma_with_part(calls: Seq<PartView>, part: PartView, at: int)
    requires
        0 <= at <= calls.len(),
        forall|i: int| 0 <= i < at ==> (#[trigger] calls[i]).index != part.index,
        at < calls.len() ==> calls[at].index == part.index,
    ensures
        at == calls.len() ==> with_part(calls, part) == calls.push(part),
        at < calls.len() ==> with_part(calls, part) == calls.update(at, extended(calls[at], part)),
    decreases calls.len(),
{
    if calls.len() == 0 {
        assert(calls.push(part) =~= seq![part]);
    } else if at > 0 {
        let rest = calls.drop_first();
        assert(calls[0].index != part.index);
        assert forall|i: int| 0 <= i < at - 1 implies (#[trigger] rest[i]).index != part.index by {
            assert(rest[i] == calls[i + 1]);
        }
        assert(at < calls.len() ==> rest[at - 1] == calls[at]);
        lemma_with_part(rest, part, at - 1);
        if at == calls.len() {
            assert(seq![calls[0]] + rest.push(part) =~= calls.push(part));
        } else {
            let new = extended(calls[at], part);
            assert(seq![calls[0]] + rest.update(at - 1, new) =~= calls.update(at, new));
        }
    }
}

fn add_part(calls: &mut Vec<PartialCall>, part: PartialCall)
    ensures
        part_views(final(calls)@) == with_part(part_views(old(calls)@), part@),
{
    let ghost before = part_views(calls@);
    let mut at: usize = 0;
    while at < calls.len() && calls[at].index != part.index
        invariant
            0 <= at <= calls@.len(),
            before == part_views(calls@),
            forall|i: int| 0 <= i < at ==> (#[trigger] before[i]).index != part.index,
        decreases calls@.len() - at,
    {
        assert(before[at as int] == calls@[at as int]@);
        at += 1;
    }
    proof {
        if at < calls@.len() {
            assert(before[at as int] == calls@[at as int]@);
        }
        lemma_with_part(before, part@, at as int);
    }
    if at < calls.len() {
        let call = &calls[at];
        let longer = PartialCall {
            index: call.index,
            id: text::text2(call.id.as_str(), part.id.as_str()),
            name: text::text2(call.name.as_str(), part.name.as_str()),
            arguments: text::text2(call.arguments.as_str(), part.arguments.as_str()),
        };
        let ghost new = longer@;
        calls.set(at, longer);
        assert(part_views(calls@) =~= before.update(at as int, new));
    } else {
        let ghost new = part@;
        calls.push(part);
        assert(part_views(calls@) =~= before.push(new));
    }
}

/// The calls after the pieces that values are.
pub open spec fn with_parts(calls: Seq<PartView>, values: Seq<JsonView>) -> Seq<PartView>
    decreases values.len(),
{
    if values.len() == 0 {
        calls
    } else {
        with_part(with_parts(calls, values.drop_last()), part_in(values.last()))
    }
}

/// An answer that is coming in.
#[derive(Debug, PartialEq, Eq)]
pub struct AnswerStream {
    pub text: String,
    pub calls: Vec<PartialCall>,
    pub stop: Option<ModelStop>,
    pub usage: ModelUsage,
    pub done: bool,
}

/// What such an answer stands for.
pub struct StreamView {
    pub text: Seq<char>,
    pub calls: Seq<PartView>,
    pub stop: Option<ModelStop>,
    pub usage: ModelUsage,
    pub done: bool,
}

/// Why an answer stopped, by the name that the provider gives.
pub open spec fn stop_named(name: Seq<char>) -> Option<ModelStop> {
    if name == "stop"@ {
        Some(ModelStop::EndTurn)
    } else if name == "tool_calls"@ {
        Some(ModelStop::ToolUse)
    } else if name == "length"@ {
        Some(ModelStop::MaxOutput)
    } else if name == "content_filter"@ {
        Some(ModelStop::ContentFilter)
    } else {
        None
    }
}

fn read_stop(name: &str) -> (r: Option<ModelStop>)
    ensures
        r == stop_named(name@),
{
    if text::same_text(name, "stop") {
        Some(ModelStop::EndTurn)
    } else if text::same_text(name, "tool_calls") {
        Some(ModelStop::ToolUse)
    } else if text::same_text(name, "length") {
        Some(ModelStop::MaxOutput)
    } else if text::same_text(name, "content_filter") {
        Some(ModelStop::ContentFilter)
    } else {
        None
    }
}

/// The tokens that a member tells of; none where it tells of none that fit.
pub open spec fn tokens_of(value: JsonView, name: Seq<char>) -> u32 {
    match json::u64_in(json::member_of(value, name)) {
        Some(n) => if n <= u32::MAX {
            n as u32
        } else {
            0
        },
        None => 0,
    }
}

fn read_tokens(value: &Json, name: &str) -> (r: u32)
    ensures
        r == tokens_of(value@, name@),
{
    match value.number_member(name) {
        Some(n) => if n <= 0xffff_ffff {
            n as u32
        } else {
            0
        },
        None => 0,
    }
}

/// The first choice of a chunk.
pub open spec fn first_choice(chunk: JsonView) -> JsonView {
    match json::member_of(chunk, "choices"@) {
        Some(JsonView::Array(choices)) => if choices.len() > 0 {
            choices[0]
        } else {
            JsonView::Null
        },
        _ => JsonView::Null,
    }
}

/// What a choice adds.
pub open spec fn delta_of(choice: JsonView) -> JsonView {
    match json::member_of(choice, "delta"@) {
        Some(delta) => delta,
        None => JsonView::Null,
    }
}

/// The pieces of calls that a choice adds.
pub open spec fn parts_of(delta: JsonView) -> Seq<JsonView> {
    match json::member_of(delta, "tool_calls"@) {
        Some(JsonView::Array(parts)) => parts,
        _ => Seq::empty(),
    }
}

/// An answer after a chunk of it.
pub open spec fn chunk_taken(stream: StreamView, chunk: JsonView) -> StreamView {
    let choice = first_choice(chunk);
    let delta = delta_of(choice);
    let usage = json::value_in(json::member_of(chunk, "usage"@));
    StreamView {
        text: stream.text + text_or_none(delta, "content"@),
        calls: with_parts(stream.calls, parts_of(delta)),
        stop: match json::text_in(json::member_of(choice, "finish_reason"@)) {
            Some(name) => match stop_named(name) {
                Some(stop) => Some(stop),
                None => stream.stop,
            },
            None => stream.stop,
        },
        usage: match usage {
            Some(usage) => ModelUsage {
                input_tokens: tokens_of(usage, "prompt_tokens"@),
                output_tokens: tokens_of(usage, "completion_tokens"@),
            },
            None => stream.usage,
        },
        done: stream.done,
    }
}

/// The data that a line of a stream holds.
pub open spec fn data_of(line: Seq<char>) -> Option<Seq<char>> {
    if text::starts_with(line, "data:"@) {
        Some(text::trim(line.skip(5)))
    } else {
        None
    }
}

/// What a line does to an answer: the answer after it, or what is wrong with the line.
pub open spec fn line_taken(stream: StreamView, line: Seq<char>) -> Result<StreamView, Seq<char>> {
    match data_of(line) {
        None => Ok(stream),
        Some(data) => if data == "[DONE]"@ {
            Ok(StreamView { done: true, ..stream })
        } else {
            match json::json_parsed(data) {
                Ok(chunk) => Ok(chunk_taken(stream, chunk)),
                Err(message) => Err(message),
            }
        },
    }
}

/// The input that a call's arguments are; none at all are an empty object.
pub open spec fn input_of(arguments: Seq<char>) -> Result<JsonView, Seq<char>> {
    if arguments.len() == 0 {
        Ok(JsonView::Object(json::no_members()))
    } else {
        json::json_parsed(arguments)
    }
}

/// The blocks of an answer: its text, and then its calls.
pub open spec fn blocks_of(text: Seq<char>, calls: Seq<PartView>) -> Result<
    Seq<BlockView>,
    Seq<char>,
>
    decreases calls.len(),
{
    if calls.len() == 0 {
        if text.len() == 0 {
            Ok(Seq::empty())
        } else {
            Ok(seq![BlockView::Text { text }])
        }
    } else {
        match blocks_of(text, calls.drop_last()) {
            Err(message) => Err(message),
            Ok(before) => {
                let call = calls.last();
                match input_of(call.arguments) {
                    Ok(input) => Ok(
                        before.push(
                            BlockView::ToolUse { id: call.id, name: inner_name(call.name), input },
                        ),
                    ),
                    Err(message) => Err(message),
                }
            },
        }
    }
}

proof fn lemma_first_bad_call(text: Seq<char>, calls: Seq<PartView>, k: int)
    requires
        0 < k <= calls.len(),
        blocks_of(text, calls.take(k)) is Err,
    ensures
        blocks_of(text, calls) == blocks_of(text, calls.take(k)),
    decreases calls.len(),
{
    if k == calls.len() {
        assert(calls.take(k) =~= calls);
    } else {
        assert(calls.drop_last().take(k) =~= calls.take(k));
        lemma_first_bad_call(text, calls.drop_last(), k);
    }
}

impl AnswerStream {
    /// The answer that `self` stands for.
    pub open spec fn view(&self) -> StreamView {
        StreamView {
            text: self.text@,
            calls: part_views(self.calls@),
            stop: self.stop,
            usage: self.usage,
            done: self.done,
        }
    }

    /// An answer of which nothing has come in. A provider that does not tell has used no tokens.
    pub fn new() -> (r: AnswerStream)
        ensures
            r@ == (StreamView {
                text: Seq::empty(),
                calls: Seq::empty(),
                stop: None,
                usage: ModelUsage { input_tokens: 0, output_tokens: 0 },
                done: false,
            }),
    {
        let r = AnswerStream {
            text: String::new(),
            calls: Vec::new(),
            stop: None,
            usage: ModelUsage { input_tokens: 0, output_tokens: 0 },
            done: false,
        };
        assert(part_views(r.calls@) =~= Seq::empty());
        assert(r.text@ =~= Seq::empty());
        r
    }

    fn take_delta(&mut self, delta: &Json) -> (r: String)
        ensures
            r@ == text_or_none(delta@, "content"@),
            final(self)@ == (StreamView {
                text: old(self)@.text + text_or_none(delta@, "content"@),
                calls: with_parts(old(self)@.calls, parts_of(delta@)),
                ..old(self)@
            }),
    {
        let ghost before = self@;
        let piece = member_or_none(delta, "content");
        self.text = text::text2(self.text.as_str(), piece.as_str());
        if let Some(parts) = delta.array_member("tool_calls") {
            let ghost values = json::json_views(parts@);
            assert(values.take(0) =~= Seq::empty());
            let mut i: usize = 0;
            while i < parts.len()
                invariant
                    0 <= i <= parts@.len(),
                    values == json::json_views(parts@),
                    self@ == (StreamView {
                        text: before.text + piece@,
                        calls: with_parts(before.calls, values.take(i as int)),
                        ..before
                    }),
                decreases parts@.len() - i,
            {
                proof {
                    assert(values.take(i + 1).drop_last() =~= values.take(i as int));
                    assert(values.take(i + 1).last() == parts@[i as int]@);
                }
                let part = read_part(&parts[i]);
                add_part(&mut self.calls, part);
                i += 1;
            }
            assert(values.take(values.len() as int) =~= values);
        }
        piece
    }

    fn take_chunk(&mut self, chunk: &Json) -> (r: String)
        ensures
            r@ == text_or_none(delta_of(first_choice(chunk@)), "content"@),
            final(self)@ == chunk_taken(old(self)@, chunk@),
    {
        if let Some(usage) = chunk.get("usage") {
            if let Json::Null = usage {
            } else {
                self.usage = ModelUsage {
                    input_tokens: read_tokens(usage, "prompt_tokens"),
                    output_tokens: read_tokens(usage, "completion_tokens"),
                };
            }
        }
        let null = Json::Null;
        let choices: Vec<Json> = match chunk.array_member("choices") {
            Some(choices) => choices,
            None => Vec::new(),
        };
        let choice = if choices.len() > 0 {
            assert(json::json_views(choices@)[0] == choices@[0]@);
            &choices[0]
        } else {
            assert(json::json_views(choices@).len() == 0);
            &null
        };
        assert(choice@ == first_choice(chunk@));
        if let Some(name) = choice.text_member("finish_reason") {
            if let Some(stop) = read_stop(name.as_str()) {
                self.stop = Some(stop);
            }
        }
        match choice.get("delta") {
            Some(delta) => self.take_delta(delta),
            None => self.take_delta(&null),
        }
    }

    /// Takes a line of the stream; the piece of text that came with it.
    pub fn take_line(&mut self, line: &str) -> (r: AppResult<String>)
        ensures
            match line_taken(old(self)@, line@) {
                Ok(after) => final(self)@ == after && (r matches Ok(piece) && after.text
                    == old(self)@.text + piece@),
                Err(message) => final(self)@ == old(self)@ && (r matches Err(
                    AppError::Provider(detail),
                ) && detail@ == message),
            },
    {
        if !text::has_prefix(line, "data:") {
            assert(self@.text + Seq::<char>::empty() =~= self@.text);
            return Ok(String::new());
        }
        proof {
            reveal_strlit("data:");
            assert("data:"@.len() == 5);
        }
        let chars = text::chars_of(line);
        let rest = text::text_between(&chars, 5, chars.len());
        assert(rest@ =~= line@.skip(5));
        let data = text::trimmed(rest.as_str());
        if text::same_text(data.as_str(), "[DONE]") {
            self.done = true;
            assert(self@.text + Seq::<char>::empty() =~= self@.text);
            return Ok(String::new());
        }
        match Json::parse(data.as_str()) {
            Ok(chunk) => Ok(self.take_chunk(&chunk)),
            Err(message) => Err(AppError::Provider(message)),
        }
    }

    /// The whole answer, once the provider has said why it stopped.
    pub fn finish(self) -> (r: AppResult<ModelResponse>)
        ensures
            match self@.stop {
                None => r matches Err(AppError::Provider(detail)) && detail@
                    == "provider ended the stream without a finish reason"@,
                Some(stop) => match blocks_of(self@.text, self@.calls) {
                    Ok(blocks) => r matches Ok(response) && response@ == (model::ResponseView {
                        content: blocks,
                        stop,
                        usage: self@.usage,
                    }),
                    Err(message) => r matches Err(AppError::Provider(detail)) && detail@ == message,
                },
            },
    {
        let stop = match self.stop {
            Some(stop) => stop,
            None => {
                return Err(
                    AppError::Provider(
                        "provider ended the stream without a finish reason".to_owned(),
                    ),
                );
            },
        };
        let ghost all = part_views(self.calls@);
        let mut content: Vec<ModelBlock> = Vec::new();
        assert(model::block_views(content@) =~= Seq::empty());
        if self.text.as_str().unicode_len() > 0 {
            content.push(ModelBlock::Text { text: self.text.clone() });
            assert(model::block_views(content@) =~= seq![BlockView::Text { text: self@.text }]);
        }
        assert(all.take(0) =~= Seq::empty());
        for i in 0..self.calls.len()
            invariant
                all == part_views(self.calls@),
                all == self@.calls,
                self@.stop == Some(stop),
                blocks_of(self@.text, all.take(i as int)) == Ok::<Seq<BlockView>, Seq<char>>(
                    model::block_views(content@),
                ),
        {
            proof {
                assert(all.take(i + 1).drop_last() =~= all.take(i as int));
                assert(all.take(i + 1).last() == self.calls@[i as int]@);
            }
            let call = &self.calls[i];
            let input = if call.arguments.as_str().unicode_len() == 0 {
                ObjectBuilder::new().build()
            } else {
                match Json::parse(call.arguments.as_str()) {
                    Ok(input) => input,
                    Err(message) => {
                        proof {
                            lemma_first_bad_call(self@.text, all, i + 1);
                        }
                        return Err(AppError::Provider(message));
                    },
                }
            };
            let name = match tool_catalog::internal_name_for_provider(call.name.as_str()) {
                Some(inner) => inner.to_owned(),
                None => call.name.clone(),
            };
            let ghost before = model::block_views(content@);
            let block = ModelBlock::ToolUse { id: call.id.clone(), name, input };
            let ghost added = block@;
            content.push(block);
            assert(model::block_views(content@) =~= before.push(added));
        }
        assert(all.take(all.len() as int) =~= all);
        Ok(ModelResponse { content, stop, usage: self.usage })
    }
}

/// What comes in is kept: a line makes an answer's text no shorter, and leaves what was there.
pub proof fn law_text_only_grows(stream: StreamView, line: Seq<char>)
    ensures
        line_taken(stream, line) matches Ok(after) ==> stream.text.len() <= after.text.len()
            && after.text.take(stream.text.len() as int) == stream.text,
{
    if let Ok(after) = line_taken(stream, line) {
        assert(after.text.take(stream.text.len() as int) =~= stream.text);
    }
}

/// A tool that is offered under its outer name is found again by it.
pub proof fn law_offered_tools_are_found(tool: tool_catalog::Tool)
    ensures
        inner_name(outer_name(tool.internal())) == tool.internal(),
{
    tool_catalog::law_names_find_their_tool(tool);
}

/// A tool is offered as a function under its name, with its description and the schema of its input.
pub proof fn law_tools_are_offered_as_functions(tools: Seq<ToolSpecView>, i: int)
    requires
        0 <= i < tools.len(),
    ensures
        tools_json(tools) matches JsonView::Array(items) && items.len() == tools.len() && (
        items[i] matches JsonView::Object(m) && m.len() == 2 && m[0] == (
            "type"@,
            JsonView::Text("function"@),
        ) && m[1].0 == "function"@ && (m[1].1 matches JsonView::Object(f) && f.len() == 3 && f[0]
            == ("name"@, JsonView::Text(tools[i].name)) && f[1] == (
            "description"@,
            JsonView::Text(tools[i].description),
        ) && f[2] == ("parameters"@, tools[i].input_schema))),
{
    let m = tool_json(tools[i])->Object_0;
    assert(m[0] == ("type"@, JsonView::Text("function"@)));
    let f = m[1].1->Object_0;
    assert(f[0] == ("name"@, JsonView::Text(tools[i].name)));
    assert(f[1] == ("description"@, JsonView::Text(tools[i].description)));
    assert(f[2] == ("parameters"@, tools[i].input_schema));
}

/// A call of the model is sent back under its id, with the name that the provider knows and its input as
/// text. Blocks that are no calls add none.
pub proof fn law_calls_are_sent_in_order(
    blocks: Seq<BlockView>,
    block: BlockView,
    id: Seq<char>,
    name: Seq<char>,
    input: JsonView,
)
    ensures
        calls_among(Seq::empty()) == Seq::<JsonView>::empty(),
        !(block is ToolUse) ==> calls_among(blocks.push(block)) == calls_among(blocks),
        block == (BlockView::ToolUse { id, name, input }) ==> {
            let more = calls_among(blocks.push(block));
            &&& more.len() == calls_among(blocks).len() + 1
            &&& more.drop_last() == calls_among(blocks)
            &&& more.last() matches JsonView::Object(m) && m.len() == 3 && m[0] == (
                "id"@,
                JsonView::Text(id),
            ) && m[1] == ("type"@, JsonView::Text("function"@)) && m[2].0 == "function"@ && (
            m[2].1 matches JsonView::Object(f) && f.len() == 2 && f[0] == (
                "name"@,
                JsonView::Text(outer_name(name)),
            ) && f[1] == ("arguments"@, JsonView::Text(json::json_text(input))))
        },
{
    assert(blocks.push(block).drop_last() =~= blocks);
    if block == (BlockView::ToolUse { id, name, input }) {
        assert(calls_among(blocks.push(block)).drop_last() =~= calls_among(blocks));
        let m = call_json(id, name, input)->Object_0;
        assert(m[0] == ("id"@, JsonView::Text(id)));
        assert(m[1] == ("type"@, JsonView::Text("function"@)));
        let f = m[2].1->Object_0;
        assert(f[0] == ("name"@, JsonView::Text(outer_name(name))));
        assert(f[1] == ("arguments"@, JsonView::Text(json::json_text(input))));
    }
}

/// What a tool gave back is sent as a message of the tool that names the call. Blocks that are no results
/// add none.
pub proof fn law_results_are_sent_in_order(
    blocks: Seq<BlockView>,
    block: BlockView,
    tool_call_id: Seq<char>,
    content: Seq<char>,
    is_error: bool,
)
    ensures
        results_among(Seq::empty()) == Seq::<JsonView>::empty(),
        !(block is ToolResult) ==> results_among(blocks.push(block)) == results_among(blocks),
        block == (BlockView::ToolResult { tool_call_id, content, is_error }) ==> {
            let more = results_among(blocks.push(block));
            &&& more.len() == results_among(blocks).len() + 1
            &&& more.drop_last() == results_among(blocks)
            &&& more.last() matches JsonView::Object(m) && m.len() == 3 && m[0] == (
                "role"@,
                JsonView::Text("tool"@),
            ) && m[1] == ("tool_call_id"@, JsonView::Text(tool_call_id)) && m[2] == (
                "content"@,
                JsonView::Text(content),
            )
        },
{
    assert(blocks.push(block).drop_last() =~= blocks);
    if block == (BlockView::ToolResult { tool_call_id, content, is_error }) {
        let more = results_among(blocks.push(block));
        assert(more.drop_last() =~= results_among(blocks));
        let m = more.last()->Object_0;
        assert(m[0] == ("role"@, JsonView::Text("tool"@)));
        assert(m[1] == ("tool_call_id"@, JsonView::Text(tool_call_id)));
        assert(m[2] == ("content"@, JsonView::Text(content)));
    }
}

/// A message is sent in its role with its text: one of the user as one message, one of the model as one
/// message with its calls where it has any, and one of the tools as one message for each result. Messages
/// are sent in their order.
pub proof fn law_messages_are_sent_in_their_role(messages: Seq<MessageView>, message: MessageView)
    ensures
        all_sent(messages.push(message)) == all_sent(messages) + sent_as(message),
        all_sent(Seq::empty()) == Seq::<JsonView>::empty(),
        ({
            let said = text::joined(model::texts_among(message.content), "\n"@);
            let calls = calls_among(message.content);
            let sent = sent_as(message);
            match message.role {
                ModelRole::User => sent.len() == 1 && (sent[0] matches JsonView::Object(m)
                    && m.len() == 2 && m[0] == ("role"@, JsonView::Text("user"@)) && m[1] == (
                    "content"@,
                    JsonView::Text(said),
                )),
                ModelRole::Assistant => sent.len() == 1 && (sent[0] matches JsonView::Object(m)
                    && m[0] == ("role"@, JsonView::Text("assistant"@)) && m[1] == (
                    "content"@,
                    JsonView::Text(said),
                ) && (calls.len() == 0 ==> m.len() == 2) && (calls.len() > 0 ==> m.len() == 3
                    && m[2] == ("tool_calls"@, JsonView::Array(calls)))),
                ModelRole::Tool => sent == results_among(message.content),
            }
        }),
{
    assert(messages.push(message).drop_last() =~= messages);
    if message.role != ModelRole::Tool {
        let m = sent_as(message)[0]->Object_0;
        let said = text::joined(model::texts_among(message.content), "\n"@);
        assert(m[1] == ("content"@, JsonView::Text(said)));
        if message.role == ModelRole::User {
            assert(m[0] == ("role"@, JsonView::Text("user"@)));
        } else {
            assert(m[0] == ("role"@, JsonView::Text("assistant"@)));
        }
    }
}

/// A request names the model, tells the prompt before all messages, offers the tools, and limits the
/// answer under the name that the provider takes. It asks for a stream, and for the usage with it, exactly
/// where one is wanted.
pub proof fn law_requests_tell_everything(
    request: RequestView,
    field: TokenLimitField,
    stream: bool,
)
    ensures
        request_json(request, field, stream) matches JsonView::Object(m) && m.len() == (if stream {
            6int
        } else {
            4int
        }) && m[0] == ("model"@, JsonView::Text(request.model)) && m[1].0 == "messages"@ && (
        m[1].1 matches JsonView::Array(sent) && sent.len() == all_sent(request.messages).len() + 1
            && sent.skip(1) == all_sent(request.messages) && (sent[0] matches JsonView::Object(s)
            && s.len() == 2 && s[0] == ("role"@, JsonView::Text("system"@)) && s[1] == (
            "content"@,
            JsonView::Text(request.system),
        ))) && m[2] == ("tools"@, tools_json(request.tools)) && m[3] == (
            (if field == TokenLimitField::MaxTokens {
                "max_tokens"@
            } else {
                "max_completion_tokens"@
            }),
            JsonView::Number(text::decimal(request.max_output_tokens as nat)),
        ) && (stream ==> m[4] == ("stream"@, JsonView::Bool(true)) && m[5].0 == "stream_options"@
            && (m[5].1 matches JsonView::Object(o) && o.len() == 1 && o[0] == (
            "include_usage"@,
            JsonView::Bool(true),
        ))),
{
    let m = request_json(request, field, stream)->Object_0;
    assert(m[0] == ("model"@, JsonView::Text(request.model)));
    let sent = m[1].1->Array_0;
    assert(sent.skip(1) =~= all_sent(request.messages));
    let s = sent[0]->Object_0;
    assert(s[0] == ("role"@, JsonView::Text("system"@)));
    assert(s[1] == ("content"@, JsonView::Text(request.system)));
    assert(m[2] == ("tools"@, tools_json(request.tools)));
    assert(m[3].1 == JsonView::Number(text::decimal(request.max_output_tokens as nat)));
    if stream {
        assert(m[4] == ("stream"@, JsonView::Bool(true)));
        let o = m[5].1->Object_0;
        assert(o[0] == ("include_usage"@, JsonView::Bool(true)));
    }
}

/// A piece of a call goes to the call of its index: its id, name and arguments are added behind those
/// that are there, and no other call is changed. A piece of a new index begins a call, behind the others.
pub proof fn law_pieces_go_to_their_call(calls: Seq<PartView>, part: PartView, i: int)
    requires
        0 <= i < calls.len(),
        forall|a: int, b: int|
            0 <= a < b < calls.len() ==> (#[trigger] calls[a]).index != (#[trigger] calls[b]).index,
    ensures
        ({
            let after = with_part(calls, part);
            let known = exists|k: int| 0 <= k < calls.len() && (#[trigger] calls[k]).index == part.index;
            &&& calls[i].index != part.index ==> after[i] == calls[i]
            &&& calls[i].index == part.index ==> after[i].index == part.index && after[i].id
                == calls[i].id + part.id && after[i].name == calls[i].name + part.name
                && after[i].arguments == calls[i].arguments + part.arguments
            &&& known ==> after.len() == calls.len()
            &&& !known ==> after == calls.push(part)
        }),
    decreases calls.len(),
{
    let after = with_part(calls, part);
    if calls[0].index == part.index {
        assert(calls[0].index == part.index);
        if i > 0 {
            assert(calls[0].index != calls[i].index);
        }
    } else {
        let rest = calls.drop_first();
        assert forall|a: int, b: int| 0 <= a < b < rest.len() implies (#[trigger] rest[a]).index
            != (#[trigger] rest[b]).index by {
            assert(calls[a + 1].index != calls[b + 1].index);
        }
        assert(after =~= seq![calls[0]] + with_part(rest, part));
        if rest.len() > 0 {
            let j = if i > 0 {
                i - 1
            } else {
                0
            };
            law_pieces_go_to_their_call(rest, part, j);
            if i > 0 {
                assert(rest[j] == calls[i]);
                assert(after[i] == with_part(rest, part)[j]);
            }
            if exists|k: int| 0 <= k < calls.len() && (#[trigger] calls[k]).index == part.index {
                let k = choose|k: int|
                    0 <= k < calls.len() && (#[trigger] calls[k]).index == part.index;
                assert(rest[k - 1].index == part.index);
            } else {
                assert forall|k: int| 0 <= k < rest.len() implies (#[trigger] rest[k]).index
                    != part.index by {
                    assert(calls[k + 1].index != part.index);
                }
                assert(after =~= calls.push(part));
            }
        } else {
            assert(rest =~= Seq::empty());
            assert(after =~= calls.push(part));
            assert forall|k: int| 0 <= k < calls.len() implies (#[trigger] calls[k]).index
                != part.index by {
                assert(k == 0);
            }
        }
    }
}

/// The words with which a provider ends an answer each mean their own end, and no other word means one.
pub proof fn law_ends_have_their_words(name: Seq<char>)
    ensures
        stop_named(name) == Some(ModelStop::EndTurn) <==> name == "stop"@,
        stop_named(name) == Some(ModelStop::ToolUse) <==> name == "tool_calls"@,
        stop_named(name) == Some(ModelStop::MaxOutput) <==> name == "length"@,
        stop_named(name) == Some(ModelStop::ContentFilter) <==> name == "content_filter"@,
        stop_named(name) is None <==> name != "stop"@ && name != "tool_calls"@ && name != "length"@
            && name != "content_filter"@,
{
    reveal_strlit("stop");
    reveal_strlit("tool_calls");
    reveal_strlit("length");
    reveal_strlit("content_filter");
    assert("stop"@.len() == 4 && "tool_calls"@.len() == 10);
    assert("length"@.len() == 6 && "content_filter"@.len() == 14);
}

/// A line of a stream that holds no data changes nothing, the last line marks the end and nothing else,
/// and a line whose data cannot be read is an error.
pub proof fn law_lines_of_a_stream(stream: StreamView, line: Seq<char>)
    ensures
        !text::starts_with(line, "data:"@) ==> line_taken(stream, line) == Ok::<
            StreamView,
            Seq<char>,
        >(stream),
        text::starts_with(line, "data:"@) && text::trim(line.skip(5)) == "[DONE]"@ ==> (line_taken(
            stream,
            line,
        ) matches Ok(after) && after.done && after.text == stream.text && after.calls
            == stream.calls && after.stop == stream.stop && after.usage == stream.usage),
        text::starts_with(line, "data:"@) && text::trim(line.skip(5)) != "[DONE]"@ ==> (line_taken(
            stream,
            line,
        ) is Ok <==> json::json_parsed(text::trim(line.skip(5))) is Ok) && (line_taken(
            stream,
            line,
        ) matches Ok(after) ==> after.done == stream.done),
{
}

/// A chunk adds its text behind what is there. An end and a usage are those of the latest chunk that tells
/// one; a chunk that tells none leaves them.
pub proof fn law_chunks_add_to_the_answer(stream: StreamView, chunk: JsonView)
    ensures
        ({
            let after = chunk_taken(stream, chunk);
            let choice = first_choice(chunk);
            let said = json::text_in(json::member_of(delta_of(choice), "content"@));
            let ended = json::text_in(json::member_of(choice, "finish_reason"@));
            let usage = json::value_in(json::member_of(chunk, "usage"@));
            &&& said is None ==> after.text == stream.text
            &&& said matches Some(text) ==> after.text == stream.text + text
            &&& ended == Some("stop"@) ==> after.stop == Some(ModelStop::EndTurn)
            &&& ended == Some("tool_calls"@) ==> after.stop == Some(ModelStop::ToolUse)
            &&& ended is None ==> after.stop == stream.stop
            &&& usage is None ==> after.usage == stream.usage
            &&& usage matches Some(told) ==> {
                &&& json::u64_in(json::member_of(told, "prompt_tokens"@)) matches Some(n) ==> (n
                    <= u32::MAX ==> after.usage.input_tokens == n)
                &&& json::u64_in(json::member_of(told, "completion_tokens"@)) matches Some(n) ==> (n
                    <= u32::MAX ==> after.usage.output_tokens == n)
            }
            &&& parts_of(delta_of(choice)).len() == 0 ==> after.calls == stream.calls
            &&& after.done == stream.done
        }),
{
    law_ends_have_their_words("stop"@);
    law_ends_have_their_words("tool_calls"@);
    assert(stream.text + Seq::empty() =~= stream.text);
}

/// The piece of a call is read from its index, its id, and the name and arguments of its function; what
/// is not there is empty.
pub proof fn law_pieces_are_read(value: JsonView, function: JsonView)
    requires
        json::member_of(value, "function"@) == Some(function),
    ensures
        ({
            let part = part_in(value);
            &&& json::u64_in(json::member_of(value, "index"@)) matches Some(index) ==> part.index
                == index
            &&& json::u64_in(json::member_of(value, "index"@)) is None ==> part.index == 0
            &&& json::text_in(json::member_of(value, "id"@)) matches Some(id) ==> part.id == id
            &&& json::text_in(json::member_of(function, "name"@)) matches Some(name) ==> part.name
                == name
            &&& json::text_in(json::member_of(function, "arguments"@)) matches Some(arguments)
                ==> part.arguments == arguments
            &&& json::text_in(json::member_of(function, "arguments"@)) is None
                ==> part.arguments.len() == 0
        }),
{
}

/// An answer holds its text, where there is any, before its calls, which stand in their order: each with
/// its id, the agent's name of its tool, and its arguments read as JSON, or an empty object where there
/// are none.
pub proof fn law_answers_hold_text_and_calls(said: Seq<char>, calls: Seq<PartView>, call: PartView)
    ensures
        blocks_of(Seq::empty(), Seq::empty()) == Ok::<Seq<BlockView>, Seq<char>>(Seq::empty()),
        said.len() > 0 ==> blocks_of(said, Seq::empty()) == Ok::<Seq<BlockView>, Seq<char>>(
            seq![BlockView::Text { text: said }],
        ),
        blocks_of(said, calls) matches Ok(before) ==> {
            let after = blocks_of(said, calls.push(call));
            &&& call.arguments.len() == 0 ==> after == Ok::<Seq<BlockView>, Seq<char>>(
                before.push(
                    BlockView::ToolUse {
                        id: call.id,
                        name: inner_name(call.name),
                        input: JsonView::Object(Seq::empty()),
                    },
                ),
            )
            &&& call.arguments.len() > 0 ==> match json::json_parsed(call.arguments) {
                Ok(input) => after == Ok::<Seq<BlockView>, Seq<char>>(
                    before.push(
                        BlockView::ToolUse { id: call.id, name: inner_name(call.name), input },
                    ),
                ),
                Err(message) => after == Err::<Seq<BlockView>, Seq<char>>(message),
            }
        },
        blocks_of(said, calls) is Err ==> blocks_of(said, calls.push(call)) == blocks_of(said, calls),
{
    assert(calls.push(call).drop_last() =~= calls);
    assert(json::no_members() =~= Seq::empty());
}

/// The name of a tool of the agent is sent as the provider's, and either name of it is taken as the
/// agent's; a name of no tool stays as it is.
pub proof fn law_names_are_changed_at_the_border(tool: tool_catalog::Tool, name: Seq<char>)
    ensures
        outer_name(tool.internal()) == tool.provider(),
        inner_name(tool.provider()) == tool.internal(),
        inner_name(tool.internal()) == tool.internal(),
        tool_catalog::named(name) is None ==> outer_name(name) == name,
        tool_catalog::provider_named(name) is None ==> inner_name(name) == name,
{
    tool_catalog::law_names_find_their_tool(tool);
    tool_catalog::law_providers_see_their_own_names(tool, tool.provider());
    tool_catalog::law_providers_see_their_own_names(tool, tool.internal());
}

} // verus!

//! What the requests of the protocol ask, and what their answers hold.
use crate::daemon::protocol;
use crate::daemon::protocol::RunStateName;
use crate::json;
use crate::json::{Field, FieldKind, Json, JsonView, ObjectBuilder};
use crate::text;
use vstd::prelude::*;

verus! {

/// The text of a member that is there.
fn required_text(value: &Json, name: &str) -> (r: String)
    requires
        json::text_in(json::member_of(value@, name@)) is Some,
    ensures
        Some(r@) == json::text_in(json::member_of(value@, name@)),
{
    match value.text_member(name) {
        Some(text) => text,
        None => String::new(),
    }
}

/// The text that a member must have.
pub open spec fn text_of(value: JsonView, name: Seq<char>) -> Seq<char> {
    json::text_in(json::member_of(value, name))->Some_0
}

/// An optional number as a value.
pub open spec fn number_or_null(number: Option<u64>) -> JsonView {
    match number {
        Some(n) => JsonView::Number(text::decimal(n as nat)),
        None => JsonView::Null,
    }
}

/// An optional truth value as a value.
pub open spec fn flag_or_null(flag: Option<bool>) -> JsonView {
    match flag {
        Some(flag) => JsonView::Bool(flag),
        None => JsonView::Null,
    }
}

/// An optional text as a value.
pub open spec fn text_or_null(text: Option<Seq<char>>) -> JsonView {
    match text {
        Some(text) => JsonView::Text(text),
        None => JsonView::Null,
    }
}

fn optional_number(number: Option<u64>) -> (r: Json)
    ensures
        r@ == number_or_null(number),
{
    match number {
        Some(n) => Json::unsigned(n),
        None => Json::Null,
    }
}

fn optional_flag(flag: Option<bool>) -> (r: Json)
    ensures
        r@ == flag_or_null(flag),
{
    match flag {
        Some(flag) => Json::Bool(flag),
        None => Json::Null,
    }
}

/// Who the client takes the daemon to serve.
#[derive(Clone, Debug, PartialEq, Eq)]
pub struct HelloParams {
    pub workspace_root: String,
    pub workspace_id: String,
}

/// The fields of `HelloParams`.
pub open spec fn hello_fields() -> Seq<Field> {
    seq![
        Field { name: "workspace_root", kind: FieldKind::Text },
        Field { name: "workspace_id", kind: FieldKind::Text },
    ]
}

impl HelloParams {
    /// Reads the parameters, or says what is wrong with them.
    pub fn decode(value: &Json) -> (r: Result<HelloParams, String>)
        ensures
            ({
                let named = json::by_name(value@, hello_fields(), 2);
                &&& r is Ok <==> json::complaint(
                    value@,
                    "HelloParams"@,
                    hello_fields(),
                    2,
                ) is None
                &&& r matches Err(message) ==> json::complaint(
                    value@,
                    "HelloParams"@,
                    hello_fields(),
                    2,
                ) == Some(message@)
                &&& r matches Ok(params) ==> params.workspace_root@ == text_of(named, "workspace_root"@)
                    && params.workspace_id@ == text_of(named, "workspace_id"@)
            }),
    {
        let fields = vec![
            Field { name: "workspace_root", kind: FieldKind::Text },
            Field { name: "workspace_id", kind: FieldKind::Text },
        ];
        assert(fields@ =~= hello_fields());
        if let Err(message) = value.check_fields("HelloParams", &fields, 2) {
            return Err(message);
        }
        let value = &value.by_name(&fields, 2);
        proof {
            assert(hello_fields()[0].name@ == "workspace_root"@);
            assert(hello_fields()[1].name@ == "workspace_id"@);
        }
        Ok(
            HelloParams {
                workspace_root: required_text(value, "workspace_root"),
                workspace_id: required_text(value, "workspace_id"),
            },
        )
    }

    /// The parameters as they are sent.
    pub fn to_json(&self) -> (r: Json)
        ensures
            r@ == JsonView::Object(
                json::no_members().push(
                    ("workspace_id"@, JsonView::Text(self.workspace_id@)),
                ).push(("workspace_root"@, JsonView::Text(self.workspace_root@))),
            ),
    {
        ObjectBuilder::new().text("workspace_id", self.workspace_id.as_str()).text(
            "workspace_root",
            self.workspace_root.as_str(),
        ).build()
    }
}

/// What a new run is to answer.
#[derive(Clone, Debug, PartialEq, Eq)]
pub struct RunStartParams {
    pub question: String,
    pub config_path: Option<String>,
    pub wait: Option<bool>,
}

/// The fields of `RunStartParams`.
pub open spec fn run_start_fields() -> Seq<Field> {
    seq![
        Field { name: "question", kind: FieldKind::Text },
        Field { name: "config_path", kind: FieldKind::OptionalText },
        Field { name: "wait", kind: FieldKind::OptionalFlag },
    ]
}

impl RunStartParams {
    /// Reads the parameters, or says what is wrong with them.
    pub fn decode(value: &Json) -> (r: Result<RunStartParams, String>)
        ensures
            ({
                let named = json::by_name(value@, run_start_fields(), 1);
                &&& r is Ok <==> json::complaint(
                    value@,
                    "RunStartParams"@,
                    run_start_fields(),
                    1,
                ) is None
                &&& r matches Err(message) ==> json::complaint(
                    value@,
                    "RunStartParams"@,
                    run_start_fields(),
                    1,
                ) == Some(
                    message@,
                )
                &&& r matches Ok(params) ==> params.question@ == text_of(named, "question"@)
                    && text::opt_view(params.config_path) == json::text_in(
                    json::member_of(named, "config_path"@),
                ) && params.wait == json::flag_in(json::member_of(named, "wait"@))
            }),
    {
        let fields = vec![
            Field { name: "question", kind: FieldKind::Text },
            Field { name: "config_path", kind: FieldKind::OptionalText },
            Field { name: "wait", kind: FieldKind::OptionalFlag },
        ];
        assert(fields@ =~= run_start_fields());
        if let Err(message) = value.check_fields("RunStartParams", &fields, 1) {
            return Err(message);
        }
        let value = &value.by_name(&fields, 1);
        proof {
            assert(run_start_fields()[0].name@ == "question"@);
        }
        Ok(
            RunStartParams {
                question: required_text(value, "question"),
                config_path: value.text_member("config_path"),
                wait: value.flag_member("wait"),
            },
        )
    }

    /// The parameters as they are sent.
    pub fn to_json(&self) -> (r: Json)
        ensures
            r@ == JsonView::Object(
                json::no_members().push(
                    ("config_path"@, text_or_null(text::opt_view(self.config_path))),
                ).push(("question"@, JsonView::Text(self.question@))).push(
                    ("wait"@, flag_or_null(self.wait)),
                ),
            ),
    {
        ObjectBuilder::new().with("config_path", Json::optional_text(&self.config_path)).text(
            "question",
            self.question.as_str(),
        ).with("wait", optional_flag(self.wait)).build()
    }
}

/// What a session is to be asked next.
#[derive(Clone, Debug, PartialEq, Eq)]
pub struct MessageAppendParams {
    pub message: String,
    pub session_id: Option<String>,
    pub config_path: Option<String>,
    pub wait: Option<bool>,
}

/// The fields of `MessageAppendParams`.
pub open spec fn message_append_fields() -> Seq<Field> {
    seq![
        Field { name: "message", kind: FieldKind::Text },
        Field { name: "session_id", kind: FieldKind::OptionalText },
        Field { name: "config_path", kind: FieldKind::OptionalText },
        Field { name: "wait", kind: FieldKind::OptionalFlag },
    ]
}

impl MessageAppendParams {
    /// Reads the parameters, or says what is wrong with them.
    pub fn decode(value: &Json) -> (r: Result<MessageAppendParams, String>)
        ensures
            ({
                let named = json::by_name(value@, message_append_fields(), 1);
                &&& r is Ok <==> json::complaint(
                    value@,
                    "MessageAppendParams"@,
                    message_append_fields(),
                    1,
                ) is None
                &&& r matches Err(message) ==> json::complaint(
                    value@,
                    "MessageAppendParams"@,
                    message_append_fields(),
                    1,
                ) == Some(
                    message@,
                )
                &&& r matches Ok(params) ==> params.message@ == text_of(named, "message"@)
                    && text::opt_view(params.session_id) == json::text_in(
                    json::member_of(named, "session_id"@),
                ) && text::opt_view(params.config_path) == json::text_in(
                    json::member_of(named, "config_path"@),
                ) && params.wait == json::flag_in(json::member_of(named, "wait"@))
            }),
    {
        let fields = vec![
            Field { name: "message", kind: FieldKind::Text },
            Field { name: "session_id", kind: FieldKind::OptionalText },
            Field { name: "config_path", kind: FieldKind::OptionalText },
            Field { name: "wait", kind: FieldKind::OptionalFlag },
        ];
        assert(fields@ =~= message_append_fields());
        if let Err(message) = value.check_fields("MessageAppendParams", &fields, 1) {
            return Err(message);
        }
        let value = &value.by_name(&fields, 1);
        proof {
            assert(message_append_fields()[0].name@ == "message"@);
        }
        Ok(
            MessageAppendParams {
                message: required_text(value, "message"),
                session_id: value.text_member("session_id"),
                config_path: value.text_member("config_path"),
                wait: value.flag_member("wait"),
            },
        )
    }

    /// The parameters as they are sent.
    pub fn to_json(&self) -> (r: Json)
        ensures
            r@ == JsonView::Object(
                json::no_members().push(
                    ("config_path"@, text_or_null(text::opt_view(self.config_path))),
                ).push(("message"@, JsonView::Text(self.message@))).push(
                    ("session_id"@, text_or_null(text::opt_view(self.session_id))),
                ).push(("wait"@, flag_or_null(self.wait))),
            ),
    {
        ObjectBuilder::new().with("config_path", Json::optional_text(&self.config_path)).text(
            "message",
            self.message.as_str(),
        ).with("session_id", Json::optional_text(&self.session_id)).with(
            "wait",
            optional_flag(self.wait),
        ).build()
    }
}

/// Which events of a run are wanted.
#[derive(Clone, Debug, PartialEq, Eq)]
pub struct EventsStreamParams {
    pub run_id: String,
    pub from_offset: Option<u64>,
    pub limit: Option<u64>,
}

/// The fields of `EventsStreamParams`.
pub open spec fn events_stream_fields() -> Seq<Field> {
    seq![
        Field { name: "run_id", kind: FieldKind::Text },
        Field { name: "from_offset", kind: FieldKind::OptionalNumber },
        Field { name: "limit", kind: FieldKind::OptionalSize },
    ]
}

impl EventsStreamParams {
    /// Reads the parameters, or says what is wrong with them.
    pub fn decode(value: &Json) -> (r: Result<EventsStreamParams, String>)
        ensures
            ({
                let named = json::by_name(value@, events_stream_fields(), 1);
                &&& r is Ok <==> json::complaint(
                    value@,
                    "EventsStreamParams"@,
                    events_stream_fields(),
                    1,
                ) is None
                &&& r matches Err(message) ==> json::complaint(
                    value@,
                    "EventsStreamParams"@,
                    events_stream_fields(),
                    1,
                ) == Some(
                    message@,
                )
                &&& r matches Ok(params) ==> params.run_id@ == text_of(named, "run_id"@)
                    && params.from_offset == json::u64_in(json::member_of(named, "from_offset"@))
                    && params.limit == json::u64_in(json::member_of(named, "limit"@))
            }),
    {
        let fields = vec![
            Field { name: "run_id", kind: FieldKind::Text },
            Field { name: "from_offset", kind: FieldKind::OptionalNumber },
            Field { name: "limit", kind: FieldKind::OptionalSize },
        ];
        assert(fields@ =~= events_stream_fields());
        if let Err(message) = value.check_fields("EventsStreamParams", &fields, 1) {
            return Err(message);
        }
        let value = &value.by_name(&fields, 1);
        proof {
            assert(events_stream_fields()[0].name@ == "run_id"@);
        }
        Ok(
            EventsStreamParams {
                run_id: required_text(value, "run_id"),
                from_offset: value.number_member("from_offset"),
                limit: value.number_member("limit"),
            },
        )
    }

    /// The parameters as they are sent; an offset that is not given is left out.
    pub fn to_json(&self) -> (r: Json)
        ensures
            r@ == JsonView::Object(
                (match self.from_offset {
                    Some(offset) => json::no_members().push(
                        ("from_offset"@, JsonView::Number(text::decimal(offset as nat))),
                    ),
                    None => json::no_members(),
                }).push(("limit"@, number_or_null(self.limit))).push(
                    ("run_id"@, JsonView::Text(self.run_id@)),
                ),
            ),
    {
        let mut object = ObjectBuilder::new();
        if let Some(offset) = self.from_offset {
            object = object.number("from_offset", offset);
        }
        object.with("limit", optional_number(self.limit)).text(
            "run_id",
            self.run_id.as_str(),
        ).build()
    }
}

/// What a client says of a tool call that waits for approval.
#[derive(Clone, Debug, PartialEq, Eq)]
pub struct ApprovalDecideParams {
    pub run_id: String,
    pub tool_call_id: String,
    pub decision: String,
    pub reason: Option<String>,
}

/// The fields of `ApprovalDecideParams`.
pub open spec fn approval_decide_fields() -> Seq<Field> {
    seq![
        Field { name: "run_id", kind: FieldKind::Text },
        Field { name: "tool_call_id", kind: FieldKind::Text },
        Field { name: "decision", kind: FieldKind::Text },
        Field { name: "reason", kind: FieldKind::OptionalText },
    ]
}

impl ApprovalDecideParams {
    /// Reads the parameters, or says what is wrong with them.
    pub fn decode(value: &Json) -> (r: Result<ApprovalDecideParams, String>)
        ensures
            ({
                let named = json::by_name(value@, approval_decide_fields(), 3);
                &&& r is Ok <==> json::complaint(
                    value@,
                    "ApprovalDecideParams"@,
                    approval_decide_fields(),
                    3,
                ) is None
                &&& r matches Err(message) ==> json::complaint(
                    value@,
                    "ApprovalDecideParams"@,
                    approval_decide_fields(),
                    3,
                ) == Some(
                    message@,
                )
                &&& r matches Ok(params) ==> params.run_id@ == text_of(named, "run_id"@)
                    && params.tool_call_id@ == text_of(named, "tool_call_id"@) && params.decision@
                    == text_of(named, "decision"@) && text::opt_view(params.reason) == json::text_in(
                    json::member_of(named, "reason"@),
                )
            }),
    {
        let fields = vec![
            Field { name: "run_id", kind: FieldKind::Text },
            Field { name: "tool_call_id", kind: FieldKind::Text },
            Field { name: "decision", kind: FieldKind::Text },
            Field { name: "reason", kind: FieldKind::OptionalText },
        ];
        assert(fields@ =~= approval_decide_fields());
        if let Err(message) = value.check_fields("ApprovalDecideParams", &fields, 3) {
            return Err(message);
        }
        let value = &value.by_name(&fields, 3);
        proof {
            assert(approval_decide_fields()[0].name@ == "run_id"@);
            assert(approval_decide_fields()[1].name@ == "tool_call_id"@);
            assert(approval_decide_fields()[2].name@ == "decision"@);
        }
        Ok(
            ApprovalDecideParams {
                run_id: required_text(value, "run_id"),
                tool_call_id: required_text(value, "tool_call_id"),
                decision: required_text(value, "decision"),
                reason: value.text_member("reason"),
            },
        )
    }

    /// The parameters as they are sent.
    pub fn to_json(&self) -> (r: Json)
        ensures
            r@ == JsonView::Object(
                json::no_members().push(("decision"@, JsonView::Text(self.decision@))).push(
                    ("reason"@, text_or_null(text::opt_view(self.reason))),
                ).push(("run_id"@, JsonView::Text(self.run_id@))).push(
                    ("tool_call_id"@, JsonView::Text(self.tool_call_id@)),
                ),
            ),
    {
        ObjectBuilder::new().text("decision", self.decision.as_str()).with(
            "reason",
            Json::optional_text(&self.reason),
        ).text("run_id", self.run_id.as_str()).text(
            "tool_call_id",
            self.tool_call_id.as_str(),
        ).build()
    }
}

/// Which run is to stop.
#[derive(Clone, Debug, PartialEq, Eq)]
pub struct RunCancelParams {
    pub run_id: String,
}

/// The fields of `RunCancelParams`.
pub open spec fn run_cancel_fields() -> Seq<Field> {
    seq![Field { name: "run_id", kind: FieldKind::Text }]
}

impl RunCancelParams {
    /// Reads the parameters, or says what is wrong with them.
    pub fn decode(value: &Json) -> (r: Result<RunCancelParams, String>)
        ensures
            ({
                let named = json::by_name(value@, run_cancel_fields(), 1);
                &&& r is Ok <==> json::complaint(
                    value@,
                    "RunCancelParams"@,
                    run_cancel_fields(),
                    1,
                ) is None
                &&& r matches Err(message) ==> json::complaint(
                    value@,
                    "RunCancelParams"@,
                    run_cancel_fields(),
                    1,
                ) == Some(
                    message@,
                )
                &&& r matches Ok(params) ==> params.run_id@ == text_of(named, "run_id"@)
            }),
    {
        let fields = vec![Field { name: "run_id", kind: FieldKind::Text }];
        assert(fields@ =~= run_cancel_fields());
        if let Err(message) = value.check_fields("RunCancelParams", &fields, 1) {
            return Err(message);
        }
        let value = &value.by_name(&fields, 1);
        proof {
            assert(run_cancel_fields()[0].name@ == "run_id"@);
        }
        Ok(RunCancelParams { run_id: required_text(value, "run_id") })
    }

    /// The parameters as they are sent.
    pub fn to_json(&self) -> (r: Json)
        ensures
            r@ == JsonView::Object(
                json::no_members().push(("run_id"@, JsonView::Text(self.run_id@))),
            ),
    {
        ObjectBuilder::new().text("run_id", self.run_id.as_str()).build()
    }
}

/// Which run, or which session, is to be read.
#[derive(Clone, Debug, PartialEq, Eq)]
pub struct TranscriptReadParams {
    pub run_id: Option<String>,
    pub session_id: Option<String>,
}

/// The fields of `TranscriptReadParams`.
pub open spec fn transcript_read_fields() -> Seq<Field> {
    seq![
        Field { name: "run_id", kind: FieldKind::OptionalText },
        Field { name: "session_id", kind: FieldKind::OptionalText },
    ]
}

impl TranscriptReadParams {
    /// Reads the parameters, or says what is wrong with them.
    pub fn decode(value: &Json) -> (r: Result<TranscriptReadParams, String>)
        ensures
            ({
                let named = json::by_name(value@, transcript_read_fields(), 0);
                &&& r is Ok <==> json::complaint(
                    value@,
                    "TranscriptReadParams"@,
                    transcript_read_fields(),
                    0,
                ) is None
                &&& r matches Err(message) ==> json::complaint(
                    value@,
                    "TranscriptReadParams"@,
                    transcript_read_fields(),
                    0,
                ) == Some(
                    message@,
                )
                &&& r matches Ok(params) ==> text::opt_view(params.run_id) == json::text_in(
                    json::member_of(named, "run_id"@),
                ) && text::opt_view(params.session_id) == json::text_in(
                    json::member_of(named, "session_id"@),
                )
            }),
    {
        let fields = vec![
            Field { name: "run_id", kind: FieldKind::OptionalText },
            Field { name: "session_id", kind: FieldKind::OptionalText },
        ];
        assert(fields@ =~= transcript_read_fields());
        if let Err(message) = value.check_fields("TranscriptReadParams", &fields, 0) {
            return Err(message);
        }
        let value = &value.by_name(&fields, 0);
        Ok(
            TranscriptReadParams {
                run_id: value.text_member("run_id"),
                session_id: value.text_member("session_id"),
            },
        )
    }

    /// The parameters as they are sent.
    pub fn to_json(&self) -> (r: Json)
        ensures
            r@ == JsonView::Object(
                json::no_members().push(
                    ("run_id"@, text_or_null(text::opt_view(self.run_id))),
                ).push(("session_id"@, text_or_null(text::opt_view(self.session_id)))),
            ),
    {
        ObjectBuilder::new().with("run_id", Json::optional_text(&self.run_id)).with(
            "session_id",
            Json::optional_text(&self.session_id),
        ).build()
    }
}

/// Who the daemon is, and what it can do.
#[derive(Clone, Debug, PartialEq, Eq)]
pub struct HelloResult {
    pub daemon_version: String,
    pub workspace_id: String,
    pub ledger_path: String,
    pub capabilities: Vec<String>,
}

/// Texts as an array.
pub open spec fn texts_json(texts: Seq<Seq<char>>) -> JsonView {
    JsonView::Array(Seq::new(texts.len(), |i: int| JsonView::Text(texts[i])))
}

fn texts_to_json(texts: &Vec<String>) -> (r: Json)
    ensures
        r@ == texts_json(text::views(texts@)),
{
    let mut items: Vec<Json> = Vec::new();
    for i in 0..texts.len()
        invariant
            items@.len() == i,
            forall|j: int| 0 <= j < i ==> (#[trigger] items@[j])@ == JsonView::Text(texts@[j]@),
    {
        items.push(Json::text(texts[i].as_str()));
    }
    proof {
        assert(json::json_views(items@) =~= Seq::new(
            texts@.len(),
            |i: int| JsonView::Text(text::views(texts@)[i]),
        ));
    }
    Json::array(items)
}

/// The texts of an array that holds nothing else.
pub open spec fn texts_in(value: Option<JsonView>) -> Option<Seq<Seq<char>>> {
    match value {
        Some(JsonView::Array(items)) => if forall|i: int|
            0 <= i < items.len() ==> (#[trigger] items[i]) is Text {
            Some(Seq::new(items.len(), |i: int| items[i]->Text_0))
        } else {
            None
        },
        _ => None,
    }
}

/// What optional texts stand for.
pub open spec fn opt_views(texts: Option<Vec<String>>) -> Option<Seq<Seq<char>>> {
    match texts {
        Some(texts) => Some(text::views(texts@)),
        None => None,
    }
}

fn texts_member(value: &Json, name: &str) -> (r: Option<Vec<String>>)
    ensures
        opt_views(r) == texts_in(json::member_of(value@, name@)),
{
    match value.get(name) {
        Some(Json::Array(items)) => {
            proof {
                json::lemma_array_view(*items);
            }
            let ghost all = json::json_views(items@);
            let mut texts: Vec<String> = Vec::new();
            for i in 0..items.len()
                invariant
                    all == json::json_views(items@),
                    texts@.len() == i,
                    json::member_of(value@, name@) == Some(JsonView::Array(all)),
                    forall|j: int|
                        0 <= j < i ==> all[j] == JsonView::Text((#[trigger] texts@[j])@),
            {
                assert(all[i as int] == items@[i as int]@);
                match items[i].as_str() {
                    Some(text) => texts.push(text.to_owned()),
                    None => {
                        return None;
                    },
                }
            }
            proof {
                assert(forall|i: int| 0 <= i < all.len() ==> (#[trigger] all[i]) is Text) by {
                    assert forall|i: int| 0 <= i < all.len() implies (#[trigger] all[i]) is Text by {
                        assert(all[i] == JsonView::Text(texts@[i]@));
                    }
                }
                assert(text::views(texts@) =~= Seq::new(all.len(), |i: int| all[i]->Text_0)) by {
                    assert forall|i: int| 0 <= i < all.len() implies text::views(texts@)[i]
                        == all[i]->Text_0 by {
                        assert(all[i] == JsonView::Text(texts@[i]@));
                    }
                }
            }
            Some(texts)
        },
        _ => None,
    }
}

/// What a greeting stands for.
pub struct HelloView {
    pub daemon_version: Seq<char>,
    pub workspace_id: Seq<char>,
    pub ledger_path: Seq<char>,
    pub capabilities: Seq<Seq<char>>,
}

/// A greeting as it is sent.
pub open spec fn hello_json(hello: HelloView) -> JsonView {
    JsonView::Object(
        json::no_members().push(("capabilities"@, texts_json(hello.capabilities))).push(
            ("daemon_version"@, JsonView::Text(hello.daemon_version)),
        ).push(("ledger_path"@, JsonView::Text(hello.ledger_path))).push(
            ("workspace_id"@, JsonView::Text(hello.workspace_id)),
        ),
    )
}

/// The names of the fields, in the order in which a list tells them.
pub open spec fn hello_names() -> Seq<Seq<char>> {
    text::str_views(seq!["daemon_version", "workspace_id", "ledger_path", "capabilities"])
}

/// The greeting that a value is.
pub open spec fn hello_in(value: JsonView) -> Option<HelloView> {
    let value = json::listed(value, hello_names());
    let version = json::text_in(json::member_of(value, "daemon_version"@));
    let workspace = json::text_in(json::member_of(value, "workspace_id"@));
    let ledger = json::text_in(json::member_of(value, "ledger_path"@));
    let capabilities = texts_in(json::member_of(value, "capabilities"@));
    if version is Some && workspace is Some && ledger is Some && capabilities is Some {
        Some(
            HelloView {
                daemon_version: version->Some_0,
                workspace_id: workspace->Some_0,
                ledger_path: ledger->Some_0,
                capabilities: capabilities->Some_0,
            },
        )
    } else {
        None
    }
}

/// What an optional greeting stands for.
pub open spec fn opt_hello(hello: Option<HelloResult>) -> Option<HelloView> {
    match hello {
        Some(hello) => Some(hello@),
        None => None,
    }
}

impl HelloResult {
    /// The greeting that `self` stands for.
    pub open spec fn view(&self) -> HelloView {
        HelloView {
            daemon_version: self.daemon_version@,
            workspace_id: self.workspace_id@,
            ledger_path: self.ledger_path@,
            capabilities: text::views(self.capabilities@),
        }
    }

    /// The greeting as it is sent.
    pub fn to_json(&self) -> (r: Json)
        ensures
            r@ == hello_json(self@),
    {
        ObjectBuilder::new().with("capabilities", texts_to_json(&self.capabilities)).text(
            "daemon_version",
            self.daemon_version.as_str(),
        ).text("ledger_path", self.ledger_path.as_str()).text(
            "workspace_id",
            self.workspace_id.as_str(),
        ).build()
    }

    /// The greeting that a value is.
    pub fn decode(value: &Json) -> (r: Option<HelloResult>)
        ensures
            opt_hello(r) == hello_in(value@),
    {
        let names = vec!["daemon_version", "workspace_id", "ledger_path", "capabilities"];
        assert(text::str_views(names@) =~= hello_names());
        let value = &value.listed(&names);
        match (
            value.text_member("daemon_version"),
            value.text_member("workspace_id"),
            value.text_member("ledger_path"),
            texts_member(value, "capabilities"),
        ) {
            (Some(daemon_version), Some(workspace_id), Some(ledger_path), Some(capabilities)) => {
                Some(HelloResult { daemon_version, workspace_id, ledger_path, capabilities })
            },
            _ => None,
        }
    }
}

/// The state that a member names.
pub open spec fn state_in(value: JsonView) -> Option<RunStateName> {
    match json::variant_in(json::member_of(value, "status"@)) {
        Some(name) => protocol::state_named(name),
        None => None,
    }
}

/// The state that a member names.
pub fn state_member(value: &Json) -> (r: Option<RunStateName>)
    ensures
        r == state_in(value@),
{
    match value.variant_member("status") {
        Some(name) => RunStateName::from_name(name.as_str()),
        None => None,
    }
}

/// A run that has been started.
#[derive(Clone, Debug, PartialEq, Eq)]
pub struct RunStartResult {
    pub run_id: String,
    pub session_id: String,
    pub ledger_path: String,
    pub status: RunStateName,
    pub final_answer: Option<String>,
}

/// What a started run stands for.
pub struct StartedView {
    pub run_id: Seq<char>,
    pub session_id: Seq<char>,
    pub ledger_path: Seq<char>,
    pub status: RunStateName,
    pub final_answer: Option<Seq<char>>,
}

/// A started run as it is sent.
pub open spec fn started_json(started: StartedView) -> JsonView {
    JsonView::Object(
        json::no_members().push(("final_answer"@, text_or_null(started.final_answer))).push(
            ("ledger_path"@, JsonView::Text(started.ledger_path)),
        ).push(("run_id"@, JsonView::Text(started.run_id))).push(
            ("session_id"@, JsonView::Text(started.session_id)),
        ).push(("status"@, JsonView::Text(started.status.wire()))),
    )
}

/// The names of the fields, in the order in which a list tells them.
pub open spec fn started_names() -> Seq<Seq<char>> {
    text::str_views(seq!["run_id", "session_id", "ledger_path", "status", "final_answer"])
}

/// The started run that a value is.
pub open spec fn started_in(value: JsonView) -> Option<StartedView> {
    let value = json::listed(value, started_names());
    let run_id = json::text_in(json::member_of(value, "run_id"@));
    let session_id = json::text_in(json::member_of(value, "session_id"@));
    let ledger = json::text_in(json::member_of(value, "ledger_path"@));
    let status = state_in(value);
    let answer = json::member_of(value, "final_answer"@);
    if run_id is Some && session_id is Some && ledger is Some && status is Some
        && json::field_fits(answer, FieldKind::OptionalText) {
        Some(
            StartedView {
                run_id: run_id->Some_0,
                session_id: session_id->Some_0,
                ledger_path: ledger->Some_0,
                status: status->Some_0,
                final_answer: json::text_in(answer),
            },
        )
    } else {
        None
    }
}

/// What an optional started run stands for.
pub open spec fn opt_started(started: Option<RunStartResult>) -> Option<StartedView> {
    match started {
        Some(started) => Some(started@),
        None => None,
    }
}

impl RunStartResult {
    /// The started run that `self` stands for.
    pub open spec fn view(&self) -> StartedView {
        StartedView {
            run_id: self.run_id@,
            session_id: self.session_id@,
            ledger_path: self.ledger_path@,
            status: self.status,
            final_answer: text::opt_view(self.final_answer),
        }
    }

    /// The started run as it is sent.
    pub fn to_json(&self) -> (r: Json)
        ensures
            r@ == started_json(self@),
    {
        ObjectBuilder::new().with("final_answer", Json::optional_text(&self.final_answer)).text(
            "ledger_path",
            self.ledger_path.as_str(),
        ).text("run_id", self.run_id.as_str()).text("session_id", self.session_id.as_str()).text(
            "status",
            self.status.as_str(),
        ).build()
    }

    /// The started run that a value is.
    pub fn decode(value: &Json) -> (r: Option<RunStartResult>)
        ensures
            opt_started(r) == started_in(value@),
    {
        let names = vec!["run_id", "session_id", "ledger_path", "status", "final_answer"];
        assert(text::str_views(names@) =~= started_names());
        let value = &value.listed(&names);
        if !value.fits(&Field { name: "final_answer", kind: FieldKind::OptionalText }) {
            return None;
        }
        match (
            value.text_member("run_id"),
            value.text_member("session_id"),
            value.text_member("ledger_path"),
            state_member(value),
        ) {
            (Some(run_id), Some(session_id), Some(ledger_path), Some(status)) => Some(
                RunStartResult {
                    run_id,
                    session_id,
                    ledger_path,
                    status,
                    final_answer: value.text_member("final_answer"),
                },
            ),
            _ => None,
        }
    }
}

/// A page of the events of a run.
#[derive(Debug, PartialEq, Eq)]
pub struct EventsStreamResult {
    pub run_id: String,
    pub from_offset: u64,
    pub next_offset: u64,
    pub status: RunStateName,
    pub events: Vec<Json>,
}

/// What a page of events stands for.
pub struct PageView {
    pub run_id: Seq<char>,
    pub from_offset: u64,
    pub next_offset: u64,
    pub status: RunStateName,
    pub events: Seq<JsonView>,
}

/// A page of events as it is sent.
pub open spec fn page_json(page: PageView) -> JsonView {
    JsonView::Object(
        json::no_members().push(("events"@, JsonView::Array(page.events))).push(
            ("from_offset"@, JsonView::Number(text::decimal(page.from_offset as nat))),
        ).push(
            ("next_offset"@, JsonView::Number(text::decimal(page.next_offset as nat))),
        ).push(("run_id"@, JsonView::Text(page.run_id))).push(
            ("status"@, JsonView::Text(page.status.wire())),
        ),
    )
}

/// The names of the fields, in the order in which a list tells them.
pub open spec fn page_names() -> Seq<Seq<char>> {
    text::str_views(seq!["run_id", "from_offset", "next_offset", "status", "events"])
}

/// The page of events that a value is.
pub open spec fn page_in(value: JsonView) -> Option<PageView> {
    let value = json::listed(value, page_names());
    let run_id = json::text_in(json::member_of(value, "run_id"@));
    let from = json::u64_in(json::member_of(value, "from_offset"@));
    let next = json::u64_in(json::member_of(value, "next_offset"@));
    let status = state_in(value);
    match json::member_of(value, "events"@) {
        Some(JsonView::Array(events)) => if run_id is Some && from is Some && next is Some
            && status is Some {
            Some(
                PageView {
                    run_id: run_id->Some_0,
                    from_offset: from->Some_0,
                    next_offset: next->Some_0,
                    status: status->Some_0,
                    events,
                },
            )
        } else {
            None
        },
        _ => None,
    }
}

/// What an optional page stands for.
pub open spec fn opt_page(page: Option<EventsStreamResult>) -> Option<PageView> {
    match page {
        Some(page) => Some(page@),
        None => None,
    }
}

impl EventsStreamResult {
    /// The page that `self` stands for.
    pub open spec fn view(&self) -> PageView {
        PageView {
            run_id: self.run_id@,
            from_offset: self.from_offset,
            next_offset: self.next_offset,
            status: self.status,
            events: json::json_views(self.events@),
        }
    }

    /// The page as it is sent.
    pub fn to_json(self) -> (r: Json)
        ensures
            r@ == page_json(self@),
    {
        ObjectBuilder::new().with("events", Json::array(self.events)).number(
            "from_offset",
            self.from_offset,
        ).number("next_offset", self.next_offset).text("run_id", self.run_id.as_str()).text(
            "status",
            self.status.as_str(),
        ).build()
    }

    /// The page that a value is.
    pub fn decode(value: &Json) -> (r: Option<EventsStreamResult>)
        ensures
            opt_page(r) == page_in(value@),
    {
        let names = vec!["run_id", "from_offset", "next_offset", "status", "events"];
        assert(text::str_views(names@) =~= page_names());
        let value = &value.listed(&names);
        match (
            value.text_member("run_id"),
            value.number_member("from_offset"),
            value.number_member("next_offset"),
            state_member(value),
            value.array_member("events"),
        ) {
            (Some(run_id), Some(from_offset), Some(next_offset), Some(status), Some(events)) => {
                Some(EventsStreamResult { run_id, from_offset, next_offset, status, events })
            },
            _ => None,
        }
    }
}

/// That a request on a run was taken.
#[derive(Clone, Debug, PartialEq, Eq)]
pub struct CommandAcceptedResult {
    pub run_id: String,
    pub status: RunStateName,
}

/// That a request was taken, as it is sent.
pub open spec fn accepted_json(run_id: Seq<char>, status: RunStateName) -> JsonView {
    JsonView::Object(
        json::no_members().push(("run_id"@, JsonView::Text(run_id))).push(
            ("status"@, JsonView::Text(status.wire())),
        ),
    )
}

/// The names of the fields, in the order in which a list tells them.
pub open spec fn accepted_names() -> Seq<Seq<char>> {
    text::str_views(seq!["run_id", "status"])
}

/// That a request was taken, as a value says it.
pub open spec fn accepted_in(value: JsonView) -> Option<(Seq<char>, RunStateName)> {
    let value = json::listed(value, accepted_names());
    match (json::text_in(json::member_of(value, "run_id"@)), state_in(value)) {
        (Some(run_id), Some(status)) => Some((run_id, status)),
        _ => None,
    }
}

impl CommandAcceptedResult {
    /// The answer as it is sent.
    pub fn to_json(&self) -> (r: Json)
        ensures
            r@ == accepted_json(self.run_id@, self.status),
    {
        ObjectBuilder::new().text("run_id", self.run_id.as_str()).text(
            "status",
            self.status.as_str(),
        ).build()
    }

    /// The answer that a value is.
    pub fn decode(value: &Json) -> (r: Option<CommandAcceptedResult>)
        ensures
            (match r {
                Some(accepted) => Some((accepted.run_id@, accepted.status)),
                None => None,
            }) == accepted_in(value@),
    {
        let names = vec!["run_id", "status"];
        assert(text::str_views(names@) =~= accepted_names());
        let value = &value.listed(&names);
        match (value.text_member("run_id"), state_member(value)) {
            (Some(run_id), Some(status)) => Some(CommandAcceptedResult { run_id, status }),
            _ => None,
        }
    }
}

/// A session, as its latest run leaves it.
#[derive(Debug, PartialEq, Eq)]
pub struct SessionSummary {
    pub session_id: String,
    pub run_id: String,
    pub status: RunStateName,
    pub latest_question: String,
    pub ledger_path: String,
}

/// What a summary stands for.
pub struct SummaryView {
    pub session_id: Seq<char>,
    pub run_id: Seq<char>,
    pub status: RunStateName,
    pub latest_question: Seq<char>,
    pub ledger_path: Seq<char>,
}

/// What summaries stand for.
pub open spec fn summary_views(sessions: Seq<SessionSummary>) -> Seq<SummaryView> {
    Seq::new(sessions.len(), |i: int| sessions[i]@)
}

/// A summary as it is sent.
pub open spec fn summary_json(summary: SummaryView) -> JsonView {
    JsonView::Object(
        json::no_members().push(
            ("latest_question"@, JsonView::Text(summary.latest_question)),
        ).push(("ledger_path"@, JsonView::Text(summary.ledger_path))).push(
            ("run_id"@, JsonView::Text(summary.run_id)),
        ).push(("session_id"@, JsonView::Text(summary.session_id))).push(
            ("status"@, JsonView::Text(summary.status.wire())),
        ),
    )
}

/// The names of the fields, in the order in which a list tells them.
pub open spec fn summary_names() -> Seq<Seq<char>> {
    text::str_views(seq!["session_id", "run_id", "status", "latest_question", "ledger_path"])
}

/// The summary that a value is.
pub open spec fn summary_in(value: JsonView) -> Option<SummaryView> {
    let value = json::listed(value, summary_names());
    let session_id = json::text_in(json::member_of(value, "session_id"@));
    let run_id = json::text_in(json::member_of(value, "run_id"@));
    let question = json::text_in(json::member_of(value, "latest_question"@));
    let ledger = json::text_in(json::member_of(value, "ledger_path"@));
    let status = state_in(value);
    if session_id is Some && run_id is Some && question is Some && ledger is Some && status
        is Some {
        Some(
            SummaryView {
                session_id: session_id->Some_0,
                run_id: run_id->Some_0,
                status: status->Some_0,
                latest_question: question->Some_0,
                ledger_path: ledger->Some_0,
            },
        )
    } else {
        None
    }
}

/// What an optional summary stands for.
pub open spec fn opt_summary(summary: Option<SessionSummary>) -> Option<SummaryView> {
    match summary {
        Some(summary) => Some(summary@),
        None => None,
    }
}

impl Clone for SessionSummary {
    fn clone(&self) -> (r: SessionSummary)
        ensures
            r == *self,
    {
        SessionSummary {
            session_id: self.session_id.clone(),
            run_id: self.run_id.clone(),
            status: self.status,
            latest_question: self.latest_question.clone(),
            ledger_path: self.ledger_path.clone(),
        }
    }
}

impl SessionSummary {
    /// The summary that `self` stands for.
    pub open spec fn view(&self) -> SummaryView {
        SummaryView {
            session_id: self.session_id@,
            run_id: self.run_id@,
            status: self.status,
            latest_question: self.latest_question@,
            ledger_path: self.ledger_path@,
        }
    }

    /// The summary as it is sent.
    pub fn to_json(&self) -> (r: Json)
        ensures
            r@ == summary_json(self@),
    {
        ObjectBuilder::new().text("latest_question", self.latest_question.as_str()).text(
            "ledger_path",
            self.ledger_path.as_str(),
        ).text("run_id", self.run_id.as_str()).text("session_id", self.session_id.as_str()).text(
            "status",
            self.status.as_str(),
        ).build()
    }

    /// The summary that a value is.
    pub fn decode(value: &Json) -> (r: Option<SessionSummary>)
        ensures
            opt_summary(r) == summary_in(value@),
    {
        let names = vec!["session_id", "run_id", "status", "latest_question", "ledger_path"];
        assert(text::str_views(names@) =~= summary_names());
        let value = &value.listed(&names);
        match (
            value.text_member("session_id"),
            value.text_member("run_id"),
            value.text_member("latest_question"),
            value.text_member("ledger_path"),
            state_member(value),
        ) {
            (
                Some(session_id),
                Some(run_id),
                Some(latest_question),
                Some(ledger_path),
                Some(status),
            ) => Some(SessionSummary { session_id, run_id, status, latest_question, ledger_path }),
            _ => None,
        }
    }
}

/// The sessions of a workspace.
#[derive(Debug, PartialEq, Eq)]
pub struct SessionsListResult {
    pub sessions: Vec<SessionSummary>,
}

/// The sessions as they are sent.
pub open spec fn sessions_json(sessions: Seq<SummaryView>) -> JsonView {
    JsonView::Object(
        json::no_members().push(
            (
                "sessions"@,
                JsonView::Array(Seq::new(sessions.len(), |i: int| summary_json(sessions[i]))),
            ),
        ),
    )
}

/// The names of the fields, in the order in which a list tells them.
pub open spec fn sessions_names() -> Seq<Seq<char>> {
    text::str_views(seq!["sessions"])
}

/// The sessions that a value lists.
pub open spec fn sessions_in(value: JsonView) -> Option<Seq<SummaryView>> {
    let value = json::listed(value, sessions_names());
    match json::member_of(value, "sessions"@) {
        Some(JsonView::Array(items)) => if forall|i: int|
            0 <= i < items.len() ==> summary_in(#[trigger] items[i]) is Some {
            Some(Seq::new(items.len(), |i: int| summary_in(items[i])->Some_0))
        } else {
            None
        },
        _ => None,
    }
}

/// What an optional list stands for.
pub open spec fn opt_sessions(list: Option<SessionsListResult>) -> Option<Seq<SummaryView>> {
    match list {
        Some(list) => Some(summary_views(list.sessions@)),
        None => None,
    }
}

impl SessionsListResult {
    /// The sessions as they are sent.
    pub fn to_json(&self) -> (r: Json)
        ensures
            r@ == sessions_json(summary_views(self.sessions@)),
    {
        let mut items: Vec<Json> = Vec::new();
        for i in 0..self.sessions.len()
            invariant
                items@.len() == i,
                forall|j: int|
                    0 <= j < i ==> (#[trigger] items@[j])@ == summary_json(self.sessions@[j]@),
        {
            items.push(self.sessions[i].to_json());
        }
        proof {
            assert(json::json_views(items@) =~= Seq::new(
                summary_views(self.sessions@).len(),
                |i: int| summary_json(summary_views(self.sessions@)[i]),
            ));
        }
        ObjectBuilder::new().with("sessions", Json::array(items)).build()
    }

    /// The sessions that a value lists.
    pub fn decode(value: &Json) -> (r: Option<SessionsListResult>)
        ensures
            opt_sessions(r) == sessions_in(value@),
    {
        let names = vec!["sessions"];
        assert(text::str_views(names@) =~= sessions_names());
        let named = value.listed(&names);
        match named.array_member("sessions") {
            Some(items) => {
                let ghost all = json::json_views(items@);
                let mut sessions: Vec<SessionSummary> = Vec::new();
                for i in 0..items.len()
                    invariant
                        all == json::json_views(items@),
                        json::member_of(json::listed(value@, sessions_names()), "sessions"@)
                            == Some(JsonView::Array(all)),
                        sessions@.len() == i,
                        forall|j: int|
                            0 <= j < i ==> summary_in(all[j]) == Some((#[trigger] sessions@[j])@),
                {
                    assert(all[i as int] == items@[i as int]@);
                    match SessionSummary::decode(&items[i]) {
                        Some(session) => sessions.push(session),
                        None => {
                            return None;
                        },
                    }
                }
                proof {
                    assert forall|i: int| 0 <= i < all.len() implies summary_in(
                        #[trigger] all[i],
                    ) is Some by {
                        assert(summary_in(all[i]) == Some(sessions@[i]@));
                    }
                    assert(summary_views(sessions@) =~= Seq::new(
                        all.len(),
                        |i: int| summary_in(all[i])->Some_0,
                    )) by {
                        assert forall|i: int| 0 <= i < all.len() implies summary_views(
                            sessions@,
                        )[i] == summary_in(all[i])->Some_0 by {
                            assert(summary_in(all[i]) == Some(sessions@[i]@));
                        }
                    }
                }
                Some(SessionsListResult { sessions })
            },
            None => None,
        }
    }
}

/// A greeting that was sent is read back as it was.
pub proof fn law_greetings_are_read_back(hello: HelloView)
    ensures
        hello_in(hello_json(hello)) == Some(hello),
{
    reveal_strlit("capabilities");
    reveal_strlit("daemon_version");
    reveal_strlit("ledger_path");
    reveal_strlit("workspace_id");
    assert("capabilities"@.len() == 12 && "capabilities"@[0] == 'c'
        && "daemon_version"@.len() == 14 && "daemon_version"@[0] == 'd'
        && "ledger_path"@.len() == 11 && "ledger_path"@[0] == 'l'
        && "workspace_id"@.len() == 12 && "workspace_id"@[0] == 'w');
    let names = seq!["capabilities"@, "daemon_version"@, "ledger_path"@, "workspace_id"@];
    let a0 = ("capabilities"@, texts_json(hello.capabilities));
    let a1 = ("daemon_version"@, JsonView::Text(hello.daemon_version));
    let a2 = ("ledger_path"@, JsonView::Text(hello.ledger_path));
    let a3 = ("workspace_id"@, JsonView::Text(hello.workspace_id));
    let m0 = json::no_members();
    let m1 = m0.push(a0);
    let m2 = m1.push(a1);
    let m3 = m2.push(a2);
    let m4 = m3.push(a3);
    assert(hello_json(hello) == JsonView::Object(m4));
    assert forall|k: int| 0 <= k < 4 implies json::first_member(m4, #[trigger] names[k]) == Some(
        if k == 0 { a0.1 } else if k == 1 { a1.1 } else if k == 2 { a2.1 } else { a3.1 },
    ) by {
        json::lemma_first_member_push(m0, a0, names[k]);
        json::lemma_first_member_push(m1, a1, names[k]);
        json::lemma_first_member_push(m2, a2, names[k]);
        json::lemma_first_member_push(m3, a3, names[k]);
    }
    assert(names[0] == "capabilities"@ && names[1] == "daemon_version"@
        && names[2] == "ledger_path"@ && names[3] == "workspace_id"@);
    let items = texts_json(hello.capabilities)->Array_0;
    assert(forall|i: int| 0 <= i < items.len() ==> (#[trigger] items[i]) is Text);
    assert(Seq::new(items.len(), |i: int| items[i]->Text_0) =~= hello.capabilities);
}

/// A started run that was sent is read back as it was.
pub proof fn law_started_runs_are_read_back(started: StartedView)
    ensures
        started_in(started_json(started)) == Some(started),
{
    reveal_strlit("final_answer");
    reveal_strlit("ledger_path");
    reveal_strlit("run_id");
    reveal_strlit("session_id");
    reveal_strlit("status");
    assert("final_answer"@.len() == 12 && "final_answer"@[0] == 'f'
        && "ledger_path"@.len() == 11 && "ledger_path"@[0] == 'l'
        && "run_id"@.len() == 6 && "run_id"@[0] == 'r'
        && "session_id"@.len() == 10 && "session_id"@[0] == 's'
        && "status"@.len() == 6 && "status"@[0] == 's');
    let names = seq!["final_answer"@, "ledger_path"@, "run_id"@, "session_id"@, "status"@];
    let a0 = ("final_answer"@, text_or_null(started.final_answer));
    let a1 = ("ledger_path"@, JsonView::Text(started.ledger_path));
    let a2 = ("run_id"@, JsonView::Text(started.run_id));
    let a3 = ("session_id"@, JsonView::Text(started.session_id));
    let a4 = ("status"@, JsonView::Text(started.status.wire()));
    let m0 = json::no_members();
    let m1 = m0.push(a0);
    let m2 = m1.push(a1);
    let m3 = m2.push(a2);
    let m4 = m3.push(a3);
    let m5 = m4.push(a4);
    assert(started_json(started) == JsonView::Object(m5));
    assert forall|k: int| 0 <= k < 5 implies json::first_member(m5, #[trigger] names[k]) == Some(
        if k == 0 { a0.1 } else if k == 1 { a1.1 } else if k == 2 { a2.1 } else if k == 3 { a3.1 } else { a4.1 },
    ) by {
        json::lemma_first_member_push(m0, a0, names[k]);
        json::lemma_first_member_push(m1, a1, names[k]);
        json::lemma_first_member_push(m2, a2, names[k]);
        json::lemma_first_member_push(m3, a3, names[k]);
        json::lemma_first_member_push(m4, a4, names[k]);
    }
    assert(names[0] == "final_answer"@ && names[1] == "ledger_path"@ && names[2] == "run_id"@
        && names[3] == "session_id"@ && names[4] == "status"@);
    protocol::law_states_keep_their_names(started.status);
}

/// A page of events that was sent is read back as it was.
pub proof fn law_pages_are_read_back(page: PageView)
    ensures
        page_in(page_json(page)) == Some(page),
{
    reveal_strlit("events");
    reveal_strlit("from_offset");
    reveal_strlit("next_offset");
    reveal_strlit("run_id");
    reveal_strlit("status");
    assert("events"@.len() == 6 && "events"@[0] == 'e'
        && "from_offset"@.len() == 11 && "from_offset"@[0] == 'f'
        && "next_offset"@.len() == 11 && "next_offset"@[0] == 'n'
        && "run_id"@.len() == 6 && "run_id"@[0] == 'r'
        && "status"@.len() == 6 && "status"@[0] == 's');
    let names = seq!["events"@, "from_offset"@, "next_offset"@, "run_id"@, "status"@];
    let a0 = ("events"@, JsonView::Array(page.events));
    let a1 = ("from_offset"@, JsonView::Number(text::decimal(page.from_offset as nat)));
    let a2 = ("next_offset"@, JsonView::Number(text::decimal(page.next_offset as nat)));
    let a3 = ("run_id"@, JsonView::Text(page.run_id));
    let a4 = ("status"@, JsonView::Text(page.status.wire()));
    let m0 = json::no_members();
    let m1 = m0.push(a0);
    let m2 = m1.push(a1);
    let m3 = m2.push(a2);
    let m4 = m3.push(a3);
    let m5 = m4.push(a4);
    assert(page_json(page) == JsonView::Object(m5));
    assert forall|k: int| 0 <= k < 5 implies json::first_member(m5, #[trigger] names[k]) == Some(
        if k == 0 { a0.1 } else if k == 1 { a1.1 } else if k == 2 { a2.1 } else if k == 3 { a3.1 } else { a4.1 },
    ) by {
        json::lemma_first_member_push(m0, a0, names[k]);
        json::lemma_first_member_push(m1, a1, names[k]);
        json::lemma_first_member_push(m2, a2, names[k]);
        json::lemma_first_member_push(m3, a3, names[k]);
        json::lemma_first_member_push(m4, a4, names[k]);
    }
    assert(names[0] == "events"@ && names[1] == "from_offset"@ && names[2] == "next_offset"@
        && names[3] == "run_id"@ && names[4] == "status"@);
    protocol::law_states_keep_their_names(page.status);
    json::lemma_decimal_is_read_back(page.from_offset as nat);
    json::lemma_decimal_is_read_back(page.next_offset as nat);
}

/// A summary that was sent is read back as it was.
pub proof fn law_summaries_are_read_back(summary: SummaryView)
    ensures
        summary_in(summary_json(summary)) == Some(summary),
{
    reveal_strlit("latest_question");
    reveal_strlit("ledger_path");
    reveal_strlit("run_id");
    reveal_strlit("session_id");
    reveal_strlit("status");
    assert("latest_question"@.len() == 15 && "latest_question"@[0] == 'l'
        && "ledger_path"@.len() == 11 && "ledger_path"@[0] == 'l'
        && "run_id"@.len() == 6 && "run_id"@[0] == 'r'
        && "session_id"@.len() == 10 && "session_id"@[0] == 's'
        && "status"@.len() == 6 && "status"@[0] == 's');
    let names = seq!["latest_question"@, "ledger_path"@, "run_id"@, "session_id"@, "status"@];
    let a0 = ("latest_question"@, JsonView::Text(summary.latest_question));
    let a1 = ("ledger_path"@, JsonView::Text(summary.ledger_path));
    let a2 = ("run_id"@, JsonView::Text(summary.run_id));
    let a3 = ("session_id"@, JsonView::Text(summary.session_id));
    let a4 = ("status"@, JsonView::Text(summary.status.wire()));
    let m0 = json::no_members();
    let m1 = m0.push(a0);
    let m2 = m1.push(a1);
    let m3 = m2.push(a2);
    let m4 = m3.push(a3);
    let m5 = m4.push(a4);
    assert(summary_json(summary) == JsonView::Object(m5));
    assert forall|k: int| 0 <= k < 5 implies json::first_member(m5, #[trigger] names[k]) == Some(
        if k == 0 { a0.1 } else if k == 1 { a1.1 } else if k == 2 { a2.1 } else if k == 3 { a3.1 } else { a4.1 },
    ) by {
        json::lemma_first_member_push(m0, a0, names[k]);
        json::lemma_first_member_push(m1, a1, names[k]);
        json::lemma_first_member_push(m2, a2, names[k]);
        json::lemma_first_member_push(m3, a3, names[k]);
        json::lemma_first_member_push(m4, a4, names[k]);
    }
    assert(names[0] == "latest_question"@ && names[1] == "ledger_path"@ && names[2] == "run_id"@
        && names[3] == "session_id"@ && names[4] == "status"@);
    protocol::law_states_keep_their_names(summary.status);
}

/// A list of sessions that was sent is read back as it was.
pub proof fn law_session_lists_are_read_back(sessions: Seq<SummaryView>)
    ensures
        sessions_in(sessions_json(sessions)) == Some(sessions),
{
    let items = Seq::new(sessions.len(), |i: int| summary_json(sessions[i]));
    json::lemma_first_member_push(
        json::no_members(),
        ("sessions"@, JsonView::Array(items)),
        "sessions"@,
    );
    assert forall|i: int| 0 <= i < items.len() implies summary_in(#[trigger] items[i]) == Some(
        sessions[i],
    ) by {
        law_summaries_are_read_back(sessions[i]);
    }
    assert(Seq::new(items.len(), |i: int| summary_in(items[i])->Some_0) =~= sessions);
}

/// A page of events is sent with its run, how the run stands, its events, the place of the first and the
/// place to go on from.
pub proof fn law_pages_are_sent_by_name(page: PageView)
    ensures
        page_json(page) matches JsonView::Object(m)
            && m.len() == 5
            && m[0] == ("events"@, JsonView::Array(page.events))
            && m[1] == ("from_offset"@, JsonView::Number(text::decimal(page.from_offset as nat)))
            && m[2] == ("next_offset"@, JsonView::Number(text::decimal(page.next_offset as nat)))
            && m[3] == ("run_id"@, JsonView::Text(page.run_id))
            && m[4] == ("status"@, JsonView::Text(page.status.wire())),
{
    let m = page_json(page)->Object_0;
    assert(m[0] == ("events"@, JsonView::Array(page.events)));
    assert(m[1] == ("from_offset"@, JsonView::Number(text::decimal(page.from_offset as nat))));
    assert(m[2] == ("next_offset"@, JsonView::Number(text::decimal(page.next_offset as nat))));
    assert(m[3] == ("run_id"@, JsonView::Text(page.run_id)));
    assert(m[4] == ("status"@, JsonView::Text(page.status.wire())));
}

/// A run that was started is told with its session, where it is kept, how it stands and its answer, or
/// nothing in place of one.
pub proof fn law_started_runs_are_sent_by_name(started: StartedView)
    ensures
        started_json(started) matches JsonView::Object(m)
            && m.len() == 5
            && m[0] == ("final_answer"@, match started.final_answer {
            Some(answer) => JsonView::Text(answer),
            None => JsonView::Null,
        })
            && m[1] == ("ledger_path"@, JsonView::Text(started.ledger_path))
            && m[2] == ("run_id"@, JsonView::Text(started.run_id))
            && m[3] == ("session_id"@, JsonView::Text(started.session_id))
            && m[4] == ("status"@, JsonView::Text(started.status.wire())),
{
    let m = started_json(started)->Object_0;
    assert(m[0] == ("final_answer"@, match started.final_answer {
            Some(answer) => JsonView::Text(answer),
            None => JsonView::Null,
        }));
    assert(m[1] == ("ledger_path"@, JsonView::Text(started.ledger_path)));
    assert(m[2] == ("run_id"@, JsonView::Text(started.run_id)));
    assert(m[3] == ("session_id"@, JsonView::Text(started.session_id)));
    assert(m[4] == ("status"@, JsonView::Text(started.status.wire())));
}

/// A command that was accepted is told with its run and how that stands.
pub proof fn law_accepted_commands_are_sent_by_name(run_id: Seq<char>, status: RunStateName)
    ensures
        accepted_json(run_id, status) matches JsonView::Object(m)
            && m.len() == 2
            && m[0] == ("run_id"@, JsonView::Text(run_id))
            && m[1] == ("status"@, JsonView::Text(status.wire())),
{
    let m = accepted_json(run_id, status)->Object_0;
    assert(m[0] == ("run_id"@, JsonView::Text(run_id)));
    assert(m[1] == ("status"@, JsonView::Text(status.wire())));
}

/// A session is told with its latest run, how that stands, what was asked last and where it is kept.
pub proof fn law_summaries_are_sent_by_name(summary: SummaryView)
    ensures
        summary_json(summary) matches JsonView::Object(m)
            && m.len() == 5
            && m[0] == ("latest_question"@, JsonView::Text(summary.latest_question))
            && m[1] == ("ledger_path"@, JsonView::Text(summary.ledger_path))
            && m[2] == ("run_id"@, JsonView::Text(summary.run_id))
            && m[3] == ("session_id"@, JsonView::Text(summary.session_id))
            && m[4] == ("status"@, JsonView::Text(summary.status.wire())),
{
    let m = summary_json(summary)->Object_0;
    assert(m[0] == ("latest_question"@, JsonView::Text(summary.latest_question)));
    assert(m[1] == ("ledger_path"@, JsonView::Text(summary.ledger_path)));
    assert(m[2] == ("run_id"@, JsonView::Text(summary.run_id)));
    assert(m[3] == ("session_id"@, JsonView::Text(summary.session_id)));
    assert(m[4] == ("status"@, JsonView::Text(summary.status.wire())));
}

/// A greeting tells the version of the daemon, its workspace, its ledger and what it can do.
pub proof fn law_greetings_are_sent_by_name(hello: HelloView)
    ensures
        hello_json(hello) matches JsonView::Object(m)
            && m.len() == 4
            && m[0] == ("capabilities"@, JsonView::Array(
            Seq::new(hello.capabilities.len(), |i: int| JsonView::Text(hello.capabilities[i])),
        ))
            && m[1] == ("daemon_version"@, JsonView::Text(hello.daemon_version))
            && m[2] == ("ledger_path"@, JsonView::Text(hello.ledger_path))
            && m[3] == ("workspace_id"@, JsonView::Text(hello.workspace_id)),
{
    let m = hello_json(hello)->Object_0;
    assert(m[0] == ("capabilities"@, JsonView::Array(
            Seq::new(hello.capabilities.len(), |i: int| JsonView::Text(hello.capabilities[i])),
        )));
    assert(m[1] == ("daemon_version"@, JsonView::Text(hello.daemon_version)));
    assert(m[2] == ("ledger_path"@, JsonView::Text(hello.ledger_path)));
    assert(m[3] == ("workspace_id"@, JsonView::Text(hello.workspace_id)));
}

/// Accepted commands are read back as they were sent.
pub proof fn law_accepted_commands_are_read_back(run_id: Seq<char>, status: RunStateName)
    ensures
        accepted_in(accepted_json(run_id, status)) == Some((run_id, status)),
{
    law_accepted_commands_are_sent_by_name(run_id, status);
    let m = accepted_json(run_id, status)->Object_0;
    reveal_strlit("run_id");
    reveal_strlit("status");
    assert("run_id"@[0] == 'r' && "status"@[0] == 's');
    assert(m[0].0 == "run_id"@ && m[1].0 == "status"@);
    json::lemma_distinct_members(m);
    protocol::law_states_keep_their_names(status);
}

} // verus!

//! The line protocol between the daemon and its clients.
use crate::error::ProtocolError;
use crate::json;
use crate::json::{Field, FieldKind, Json, JsonView, ObjectBuilder};
use crate::members;
use crate::text;
use vstd::prelude::*;

verus! {

pub const PROTOCOL_VERSION: u32 = 1;

pub const ERROR_MALFORMED_REQUEST: &'static str = "malformed_request";

pub const ERROR_LAGGED: &'static str = "lagged";

pub const ERROR_INTERNAL: &'static str = "internal_error";

pub const ERROR_NOT_FOUND: &'static str = "not_found";

pub const ERROR_OVERLOAD: &'static str = "overload";

pub const ERROR_RUN_FAILED: &'static str = "run_failed";

pub const ERROR_SESSIONS_LIST_FAILED: &'static str = "sessions_list_failed";

pub const ERROR_UNSUPPORTED_METHOD: &'static str = "unsupported_method";

pub const ERROR_UNSUPPORTED_VERSION: &'static str = "unsupported_version";

pub const ERROR_WORKSPACE_MISMATCH: &'static str = "workspace_mismatch";

/// The state of a run.
#[derive(Clone, Copy, Debug, PartialEq, Eq, Structural)]
pub enum RunStateName {
    Running,
    Finished,
    Failed,
    Canceled,
    CancelRequested,
    Interrupted,
}

impl RunStateName {
    /// The name of the state in the protocol and in the ledger.
    pub open spec fn wire(self) -> Seq<char> {
        match self {
            RunStateName::Running => "running"@,
            RunStateName::Finished => "finished"@,
            RunStateName::Failed => "failed"@,
            RunStateName::Canceled => "canceled"@,
            RunStateName::CancelRequested => "cancel_requested"@,
            RunStateName::Interrupted => "interrupted"@,
        }
    }

    /// The name of the state in the protocol and in the ledger.
    pub fn as_str(self) -> (r: &'static str)
        ensures
            r@ == self.wire(),
    {
        match self {
            RunStateName::Running => "running",
            RunStateName::Finished => "finished",
            RunStateName::Failed => "failed",
            RunStateName::Canceled => "canceled",
            RunStateName::CancelRequested => "cancel_requested",
            RunStateName::Interrupted => "interrupted",
        }
    }

    /// The state that goes by `name`.
    pub fn from_name(name: &str) -> (r: Option<RunStateName>)
        ensures
            r == state_named(name@),
    {
        if text::same_text(name, "running") {
            Some(RunStateName::Running)
        } else if text::same_text(name, "finished") {
            Some(RunStateName::Finished)
        } else if text::same_text(name, "failed") {
            Some(RunStateName::Failed)
        } else if text::same_text(name, "canceled") {
            Some(RunStateName::Canceled)
        } else if text::same_text(name, "cancel_requested") {
            Some(RunStateName::CancelRequested)
        } else if text::same_text(name, "interrupted") {
            Some(RunStateName::Interrupted)
        } else {
            None
        }
    }
}

/// The state that goes by `name`.
pub open spec fn state_named(name: Seq<char>) -> Option<RunStateName> {
    if name == RunStateName::Running.wire() {
        Some(RunStateName::Running)
    } else if name == RunStateName::Finished.wire() {
        Some(RunStateName::Finished)
    } else if name == RunStateName::Failed.wire() {
        Some(RunStateName::Failed)
    } else if name == RunStateName::Canceled.wire() {
        Some(RunStateName::Canceled)
    } else if name == RunStateName::CancelRequested.wire() {
        Some(RunStateName::CancelRequested)
    } else if name == RunStateName::Interrupted.wire() {
        Some(RunStateName::Interrupted)
    } else {
        None
    }
}

/// A state is read back from its name.
pub proof fn law_states_keep_their_names(state: RunStateName)
    ensures
        state_named(state.wire()) == Some(state),
{
    reveal_strlit("running");
    reveal_strlit("finished");
    reveal_strlit("failed");
    reveal_strlit("canceled");
    reveal_strlit("cancel_requested");
    reveal_strlit("interrupted");
    assert("running"@.len() == 7 && "finished"@.len() == 8 && "failed"@.len() == 6
        && "canceled"@.len() == 8 && "cancel_requested"@.len() == 16 && "interrupted"@.len() == 11);
    assert("finished"@[0] == 'f' && "canceled"@[0] == 'c');
}

/// What an envelope carries.
#[derive(Clone, Copy, Debug, PartialEq, Eq, Structural)]
pub enum EnvelopeKind {
    Request,
    Response,
    Event,
    Error,
}

impl EnvelopeKind {
    /// The name of the kind.
    pub open spec fn wire(self) -> Seq<char> {
        match self {
            EnvelopeKind::Request => "request"@,
            EnvelopeKind::Response => "response"@,
            EnvelopeKind::Event => "event"@,
            EnvelopeKind::Error => "error"@,
        }
    }

    /// The name of the kind.
    pub fn as_str(self) -> (r: &'static str)
        ensures
            r@ == self.wire(),
    {
        match self {
            EnvelopeKind::Request => "request",
            EnvelopeKind::Response => "response",
            EnvelopeKind::Event => "event",
            EnvelopeKind::Error => "error",
        }
    }

    fn from_name(name: &str) -> (r: Option<EnvelopeKind>)
        ensures
            r == kind_named(name@),
    {
        if text::same_text(name, "request") {
            Some(EnvelopeKind::Request)
        } else if text::same_text(name, "response") {
            Some(EnvelopeKind::Response)
        } else if text::same_text(name, "event") {
            Some(EnvelopeKind::Event)
        } else if text::same_text(name, "error") {
            Some(EnvelopeKind::Error)
        } else {
            None
        }
    }
}

/// The kind that goes by `name`.
pub open spec fn kind_named(name: Seq<char>) -> Option<EnvelopeKind> {
    if name == EnvelopeKind::Request.wire() {
        Some(EnvelopeKind::Request)
    } else if name == EnvelopeKind::Response.wire() {
        Some(EnvelopeKind::Response)
    } else if name == EnvelopeKind::Event.wire() {
        Some(EnvelopeKind::Event)
    } else if name == EnvelopeKind::Error.wire() {
        Some(EnvelopeKind::Error)
    } else {
        None
    }
}

/// One line of the protocol.
#[derive(Debug, PartialEq, Eq)]
pub struct Envelope {
    pub v: u32,
    pub id: Option<String>,
    pub kind: EnvelopeKind,
    pub method: Option<String>,
    pub params: Option<Json>,
    pub result: Option<Json>,
    pub error: Option<ProtocolError>,
}

/// What an envelope stands for.
pub struct EnvelopeView {
    pub v: u32,
    pub id: Option<Seq<char>>,
    pub kind: EnvelopeKind,
    pub method: Option<Seq<char>>,
    pub params: Option<JsonView>,
    pub result: Option<JsonView>,
    pub error: Option<(Seq<char>, Seq<char>)>,
}

/// An answer to the request `id` with `result`.
pub open spec fn response_to(
    id: Option<Seq<char>>,
    method: Option<Seq<char>>,
    result: JsonView,
) -> EnvelopeView {
    EnvelopeView {
        v: PROTOCOL_VERSION,
        id,
        kind: EnvelopeKind::Response,
        method,
        params: None,
        result: Some(result),
        error: None,
    }
}

/// An answer to the request `id` that says what is wrong.
pub open spec fn error_to(
    id: Option<Seq<char>>,
    method: Option<Seq<char>>,
    code: Seq<char>,
    message: Seq<char>,
) -> EnvelopeView {
    EnvelopeView {
        v: PROTOCOL_VERSION,
        id,
        kind: EnvelopeKind::Error,
        method,
        params: None,
        result: None,
        error: Some((code, message)),
    }
}

/// The members of an envelope as it is sent.
pub open spec fn envelope_json(envelope: EnvelopeView) -> JsonView {
    let start = json::no_members().push(
        ("v"@, JsonView::Number(text::decimal(envelope.v as nat))),
    ).push(
        (
            "id"@,
            match envelope.id {
                Some(id) => JsonView::Text(id),
                None => JsonView::Null,
            },
        ),
    ).push(("kind"@, JsonView::Text(envelope.kind.wire())));
    let with_method = match envelope.method {
        Some(method) => start.push(("method"@, JsonView::Text(method))),
        None => start,
    };
    let with_params = match envelope.params {
        Some(params) => with_method.push(("params"@, params)),
        None => with_method,
    };
    let with_result = match envelope.result {
        Some(result) => with_params.push(("result"@, result)),
        None => with_params,
    };
    JsonView::Object(
        match envelope.error {
            Some((code, message)) => with_result.push(("error"@, error_json(code, message))),
            None => with_result,
        },
    )
}

/// An error as it is sent.
pub open spec fn error_json(code: Seq<char>, message: Seq<char>) -> JsonView {
    JsonView::Object(
        json::no_members().push(("code"@, JsonView::Text(code))).push(
            ("message"@, JsonView::Text(message)),
        ),
    )
}

impl Envelope {
    /// The envelope that `self` stands for.
    pub open spec fn view(&self) -> EnvelopeView {
        EnvelopeView {
            v: self.v,
            id: text::opt_view(self.id),
            kind: self.kind,
            method: text::opt_view(self.method),
            params: json::opt_json(self.params),
            result: json::opt_json(self.result),
            error: match self.error {
                Some(error) => Some((error.code@, error.message@)),
                None => None,
            },
        }
    }

    /// An answer to the request `id`.
    pub fn response(id: Option<String>, method: Option<String>, result: Json) -> (r: Envelope)
        ensures
            r@ == response_to(text::opt_view(id), text::opt_view(method), result@),
    {
        Envelope {
            v: PROTOCOL_VERSION,
            id,
            kind: EnvelopeKind::Response,
            method,
            params: None,
            result: Some(result),
            error: None,
        }
    }

    /// An answer to the request `id` that says what is wrong.
    pub fn error(
        id: Option<String>,
        method: Option<String>,
        code: &str,
        message: String,
    ) -> (r: Envelope)
        ensures
            r@ == error_to(text::opt_view(id), text::opt_view(method), code@, message@),
    {
        Envelope {
            v: PROTOCOL_VERSION,
            id,
            kind: EnvelopeKind::Error,
            method,
            params: None,
            result: None,
            error: Some(ProtocolError { code: code.to_owned(), message }),
        }
    }

    /// A request.
    pub fn request(id: String, method: &str, params: Option<Json>) -> (r: Envelope)
        ensures
            r@ == (EnvelopeView {
                v: PROTOCOL_VERSION,
                id: Some(id@),
                kind: EnvelopeKind::Request,
                method: Some(method@),
                params: json::opt_json(params),
                result: None,
                error: None,
            }),
    {
        Envelope {
            v: PROTOCOL_VERSION,
            id: Some(id),
            kind: EnvelopeKind::Request,
            method: Some(method.to_owned()),
            params,
            result: None,
            error: None,
        }
    }

    /// The envelope as it is sent.
    pub fn to_json(&self) -> (r: Json)
        ensures
            r@ == envelope_json(self@),
    {
        let mut object = ObjectBuilder::new().number("v", self.v as u64).with(
            "id",
            Json::optional_text(&self.id),
        ).text("kind", self.kind.as_str());
        if let Some(method) = &self.method {
            object = object.text("method", method.as_str());
        }
        if let Some(params) = &self.params {
            object = object.with("params", params.clone());
        }
        if let Some(result) = &self.result {
            object = object.with("result", result.clone());
        }
        if let Some(error) = &self.error {
            object =
            object.with(
                "error",
                ObjectBuilder::new().text("code", error.code.as_str()).text(
                    "message",
                    error.message.as_str(),
                ).build(),
            );
        }
        object.build()
    }
}

/// The fields of an envelope.
pub open spec fn envelope_fields() -> Seq<Field> {
    seq![
        Field { name: "v", kind: FieldKind::Number32 },
        Field { name: "id", kind: FieldKind::OptionalText },
        Field { name: "kind", kind: FieldKind::Variant },
        Field { name: "method", kind: FieldKind::OptionalText },
        Field { name: "params", kind: FieldKind::OptionalValue },
        Field { name: "result", kind: FieldKind::OptionalValue },
        Field { name: "error", kind: FieldKind::OptionalValue },
    ]
}

/// The fields of an error.
pub open spec fn error_fields() -> Seq<Field> {
    seq![
        Field { name: "code", kind: FieldKind::Text },
        Field { name: "message", kind: FieldKind::Text },
    ]
}

/// The member that is an error, where it is there and not null.
pub open spec fn told_error(value: JsonView) -> Option<JsonView> {
    match json::value_in(json::member_of(value, "error"@)) {
        Some(error) => Some(json::by_name(error, error_fields(), 2)),
        None => None,
    }
}

/// The name of the kind of an envelope.
pub open spec fn kind_in(value: JsonView) -> Seq<char> {
    json::variant_in(json::member_of(value, "kind"@))->Some_0
}

/// What is said of a name that no kind of envelope has.
pub open spec fn unknown_kind(name: Seq<char>) -> Seq<char> {
    "unknown variant `"@ + name
        + "`, expected one of `request`, `response`, `event`, `error`"@
}

/// The error that a member is, where it is there and not null.
pub open spec fn error_in(value: JsonView) -> Option<(Seq<char>, Seq<char>)> {
    match told_error(value) {
        Some(error) => Some(
            (
                json::text_in(json::member_of(error, "code"@))->Some_0,
                json::text_in(json::member_of(error, "message"@))->Some_0,
            ),
        ),
        None => None,
    }
}

/// What is wrong with a value that should be an envelope; nothing where it is one. Where in a text the
/// fault stands is not told.
pub open spec fn envelope_complaint(value: JsonView) -> Option<Seq<char>> {
    let named = json::by_name(value, envelope_fields(), 3);
    match json::complaint(value, "Envelope"@, envelope_fields(), 3) {
        Some(message) => Some(message),
        None => if kind_named(kind_in(named)) is None {
            Some(unknown_kind(kind_in(named)))
        } else {
            match json::value_in(json::member_of(named, "error"@)) {
                Some(error) => json::complaint(error, "ProtocolError"@, error_fields(), 2),
                None => None,
            }
        },
    }
}

/// The names of the fields of an envelope.
pub open spec fn envelope_names() -> Seq<Seq<char>> {
    text::str_views(seq!["v", "id", "kind", "method", "params", "result", "error"])
}

/// The names of the fields of an error.
pub open spec fn error_names() -> Seq<Seq<char>> {
    text::str_views(seq!["code", "message"])
}

/// What is wrong with a line that should hold an envelope, given the value that it holds; nothing where
/// it does. No field may stand in it twice.
pub open spec fn line_complaint(line: Seq<char>, value: JsonView) -> Option<Seq<char>> {
    match members::repeated_within(line, envelope_names(), "error"@, error_names()) {
        Some(name) => Some(members::repeated_words(name)),
        None => envelope_complaint(value),
    }
}

/// The envelope that a value is.
pub open spec fn envelope_in(value: JsonView) -> EnvelopeView {
    let value = json::by_name(value, envelope_fields(), 3);
    EnvelopeView {
        v: json::u64_in(json::member_of(value, "v"@))->Some_0 as u32,
        id: json::text_in(json::member_of(value, "id"@)),
        kind: kind_named(kind_in(value))->Some_0,
        method: json::text_in(json::member_of(value, "method"@)),
        params: json::value_in(json::member_of(value, "params"@)),
        result: json::value_in(json::member_of(value, "result"@)),
        error: error_in(value),
    }
}

/// The envelope that a value is, or what is wrong with it.
pub fn decode_envelope(value: &Json) -> (r: Result<Envelope, String>)
    ensures
        r is Ok <==> envelope_complaint(value@) is None,
        r matches Ok(envelope) ==> envelope@ == envelope_in(value@),
        r matches Err(message) ==> envelope_complaint(value@) == Some(message@),
{
    let fields = vec![
        Field { name: "v", kind: FieldKind::Number32 },
        Field { name: "id", kind: FieldKind::OptionalText },
        Field { name: "kind", kind: FieldKind::Variant },
        Field { name: "method", kind: FieldKind::OptionalText },
        Field { name: "params", kind: FieldKind::OptionalValue },
        Field { name: "result", kind: FieldKind::OptionalValue },
        Field { name: "error", kind: FieldKind::OptionalValue },
    ];
    assert(fields@ =~= envelope_fields());
    if let Err(message) = value.check_fields("Envelope", &fields, 3) {
        return Err(message);
    }
    let value = &value.by_name(&fields, 3);
    proof {
        assert(envelope_fields()[0].name@ == "v"@);
        assert(envelope_fields()[2].name@ == "kind"@);
    }
    let v: u32 = match value.number_member("v") {
        Some(n) => n as u32,
        None => 0,
    };
    let kind = match value.variant_member("kind") {
        Some(name) => match EnvelopeKind::from_name(name.as_str()) {
            Some(kind) => kind,
            None => {
                return Err(
                    text::text3(
                        "unknown variant `",
                        name.as_str(),
                        "`, expected one of `request`, `response`, `event`, `error`",
                    ),
                );
            },
        },
        None => EnvelopeKind::Error,
    };
    let error = match value.value_member("error") {
        Some(error) => {
            let error_schema = vec![
                Field { name: "code", kind: FieldKind::Text },
                Field { name: "message", kind: FieldKind::Text },
            ];
            assert(error_schema@ =~= error_fields());
            if let Err(message) = error.check_fields("ProtocolError", &error_schema, 2) {
                return Err(message);
            }
            let error = error.by_name(&error_schema, 2);
            proof {
                assert(error_fields()[0].name@ == "code"@);
                assert(error_fields()[1].name@ == "message"@);
            }
            match (error.text_member("code"), error.text_member("message")) {
                (Some(code), Some(message)) => Some(ProtocolError { code, message }),
                _ => None,
            }
        },
        None => None,
    };
    Ok(
        Envelope {
            v,
            id: value.text_member("id"),
            kind,
            method: value.text_member("method"),
            params: value.value_member("params"),
            result: value.value_member("result"),
            error,
        },
    )
}

proof fn lemma_envelope_names()
    ensures
        "v"@.len() == 1,
        "id"@.len() == 2,
        "kind"@.len() == 4,
        "error"@.len() == 5,
        "method"@.len() == 6,
        "params"@.len() == 6,
        "result"@.len() == 6,
        "method"@[0] == 'm',
        "params"@[0] == 'p',
        "result"@[0] == 'r',
        "code"@.len() == 4,
        "message"@.len() == 7,
{
    reveal_strlit("v");
    reveal_strlit("id");
    reveal_strlit("kind");
    reveal_strlit("error");
    reveal_strlit("method");
    reveal_strlit("params");
    reveal_strlit("result");
    reveal_strlit("code");
    reveal_strlit("message");
}

proof fn lemma_kind_is_read_back(kind: EnvelopeKind)
    ensures
        kind_named(kind.wire()) == Some(kind),
{
    reveal_strlit("request");
    reveal_strlit("response");
    reveal_strlit("event");
    reveal_strlit("error");
    assert("request"@.len() == 7 && "response"@.len() == 8 && "event"@.len() == 5
        && "error"@.len() == 5);
    assert("event"@[1] == 'v' && "error"@[1] == 'r');
}

proof fn lemma_error_is_read_back(code: Seq<char>, message: Seq<char>)
    ensures
        json::complaint(error_json(code, message), "ProtocolError"@, error_fields(), 2) is None,
        json::text_in(json::member_of(error_json(code, message), "code"@)) == Some(code),
        json::text_in(json::member_of(error_json(code, message), "message"@)) == Some(message),
{
    lemma_envelope_names();
    let value = error_json(code, message);
    let m0 = json::no_members();
    let m1 = m0.push(("code"@, JsonView::Text(code)));
    json::lemma_first_member_push(m0, ("code"@, JsonView::Text(code)), "code"@);
    json::lemma_first_member_push(m0, ("code"@, JsonView::Text(code)), "message"@);
    json::lemma_first_member_push(m1, ("message"@, JsonView::Text(message)), "code"@);
    json::lemma_first_member_push(m1, ("message"@, JsonView::Text(message)), "message"@);
    json::lemma_complaint(value, "ProtocolError"@, error_fields(), 2);
    assert(error_fields()[0].name@ == "code"@);
    assert(error_fields()[1].name@ == "message"@);
    assert(value->Object_0.len() == 2);
    assert forall|i: int| 0 <= i < value->Object_0.len() implies json::has_field(
        error_fields(),
        (#[trigger] value->Object_0[i]).0,
    ) by {
        assert(error_fields()[i].name@ == value->Object_0[i].0);
    }
    assert(json::conforms(value, error_fields()));
}

proof fn lemma_envelope_members(envelope: EnvelopeView)
    ensures
        ({
            let value = envelope_json(envelope);
            &&& json::member_of(value, "v"@) == Some(
                JsonView::Number(text::decimal(envelope.v as nat)),
            )
            &&& json::member_of(value, "id"@) == Some(
                match envelope.id {
                    Some(id) => JsonView::Text(id),
                    None => JsonView::Null,
                },
            )
            &&& json::member_of(value, "kind"@) == Some(JsonView::Text(envelope.kind.wire()))
            &&& json::member_of(value, "method"@) == match envelope.method {
                Some(method) => Some(JsonView::Text(method)),
                None => None,
            }
            &&& json::member_of(value, "params"@) == envelope.params
            &&& json::member_of(value, "result"@) == envelope.result
            &&& json::member_of(value, "error"@) == match envelope.error {
                Some((code, message)) => Some(error_json(code, message)),
                None => None,
            }
        }),
        forall|i: int|
            0 <= i < envelope_json(envelope)->Object_0.len() ==> json::has_field(
                envelope_fields(),
                (#[trigger] envelope_json(envelope)->Object_0[i]).0,
            ),
{
    lemma_envelope_names();
    let names = seq!["v"@, "id"@, "kind"@, "method"@, "params"@, "result"@, "error"@];
    let a0 = ("v"@, JsonView::Number(text::decimal(envelope.v as nat)));
    let a1 = (
        "id"@,
        match envelope.id {
            Some(id) => JsonView::Text(id),
            None => JsonView::Null,
        },
    );
    let a2 = ("kind"@, JsonView::Text(envelope.kind.wire()));
    let a3 = ("method"@, JsonView::Text(envelope.method->Some_0));
    let a4 = ("params"@, envelope.params->Some_0);
    let a5 = ("result"@, envelope.result->Some_0);
    let a6 = ("error"@, error_json(envelope.error->Some_0.0, envelope.error->Some_0.1));
    let m0 = json::no_members();
    let m1 = m0.push(a0);
    let m2 = m1.push(a1);
    let m3 = m2.push(a2);
    let m4 = if envelope.method is Some {
        m3.push(a3)
    } else {
        m3
    };
    let m5 = if envelope.params is Some {
        m4.push(a4)
    } else {
        m4
    };
    let m6 = if envelope.result is Some {
        m5.push(a5)
    } else {
        m5
    };
    let m7 = if envelope.error is Some {
        m6.push(a6)
    } else {
        m6
    };
    assert(envelope_json(envelope) == JsonView::Object(m7));
    assert forall|k: int| 0 <= k < 7 implies json::first_member(m7, #[trigger] names[k])
        == if k == 0 {
        Some(a0.1)
    } else if k == 1 {
        Some(a1.1)
    } else if k == 2 {
        Some(a2.1)
    } else if k == 3 {
        if envelope.method is Some {
            Some(a3.1)
        } else {
            None
        }
    } else if k == 4 {
        envelope.params
    } else if k == 5 {
        envelope.result
    } else if envelope.error is Some {
        Some(a6.1)
    } else {
        None
    } by {
        let name = names[k];
        json::lemma_first_member_push(m0, a0, name);
        json::lemma_first_member_push(m1, a1, name);
        json::lemma_first_member_push(m2, a2, name);
        json::lemma_first_member_push(m3, a3, name);
        json::lemma_first_member_push(m4, a4, name);
        json::lemma_first_member_push(m5, a5, name);
        json::lemma_first_member_push(m6, a6, name);
    }
    assert(names[0] == "v"@ && names[1] == "id"@ && names[2] == "kind"@ && names[3] == "method"@
        && names[4] == "params"@ && names[5] == "result"@ && names[6] == "error"@);
    let fields = envelope_fields();
    assert(fields[0].name@ == "v"@ && fields[1].name@ == "id"@ && fields[2].name@ == "kind"@
        && fields[3].name@ == "method"@ && fields[4].name@ == "params"@ && fields[5].name@
        == "result"@ && fields[6].name@ == "error"@);
    assert(forall|i: int| 0 <= i < m3.len() ==> json::has_field(fields, (#[trigger] m3[i]).0));
    assert(forall|i: int| 0 <= i < m4.len() ==> json::has_field(fields, (#[trigger] m4[i]).0));
    assert(forall|i: int| 0 <= i < m5.len() ==> json::has_field(fields, (#[trigger] m5[i]).0));
    assert(forall|i: int| 0 <= i < m6.len() ==> json::has_field(fields, (#[trigger] m6[i]).0));
}

/// An envelope that was sent is read back as it was, where neither its parameters nor its result
/// are null.
pub proof fn law_envelopes_are_read_back(envelope: EnvelopeView)
    requires
        envelope.params != Some(JsonView::Null),
        envelope.result != Some(JsonView::Null),
    ensures
        envelope_complaint(envelope_json(envelope)) is None,
        envelope_in(envelope_json(envelope)) == envelope,
{
    let value = envelope_json(envelope);
    let fields = envelope_fields();
    lemma_envelope_members(envelope);
    json::lemma_decimal_is_read_back(envelope.v as nat);
    lemma_kind_is_read_back(envelope.kind);
    if let Some((code, message)) = envelope.error {
        lemma_error_is_read_back(code, message);
    }
    json::lemma_complaint(value, "Envelope"@, fields, 3);
    assert forall|i: int| 0 <= i < fields.len() implies json::field_fits(
        json::member_of(value, (#[trigger] fields[i]).name@),
        fields[i].kind,
    ) by {
        assert(fields[0].name@ == "v"@ && fields[1].name@ == "id"@ && fields[2].name@ == "kind"@
            && fields[3].name@ == "method"@ && fields[4].name@ == "params"@ && fields[5].name@
            == "result"@ && fields[6].name@ == "error"@);
    }
    assert(json::conforms(value, fields));
}

/// The request that stands in a line, or the answer to one that cannot be taken: a line that is no
/// envelope, one of another version, one that is no request, and one without a method.
pub open spec fn request_in(line: Seq<char>) -> Result<EnvelopeView, EnvelopeView> {
    match json::json_parsed(line) {
        Err(message) => Err(
            error_to(
                None,
                None,
                ERROR_MALFORMED_REQUEST@,
                "request is not a valid protocol envelope: "@ + message,
            ),
        ),
        Ok(value) => match line_complaint(line, value) {
            Some(message) => Err(
                error_to(
                    None,
                    None,
                    ERROR_MALFORMED_REQUEST@,
                    "request is not a valid protocol envelope: "@ + message,
                ),
            ),
            None => {
                let envelope = envelope_in(value);
                if envelope.v != PROTOCOL_VERSION {
                    Err(
                        error_to(
                            envelope.id,
                            envelope.method,
                            ERROR_UNSUPPORTED_VERSION@,
                            "unsupported protocol version: "@ + text::decimal(envelope.v as nat),
                        ),
                    )
                } else if envelope.kind != EnvelopeKind::Request {
                    Err(
                        error_to(
                            envelope.id,
                            envelope.method,
                            ERROR_MALFORMED_REQUEST@,
                            "envelope kind must be request"@,
                        ),
                    )
                } else if envelope.method is None {
                    Err(
                        error_to(
                            envelope.id,
                            None,
                            ERROR_MALFORMED_REQUEST@,
                            "request method is required"@,
                        ),
                    )
                } else {
                    Ok(envelope)
                }
            },
        },
    }
}

/// What a decoded request stands for.
pub open spec fn request_view(answer: Result<Envelope, Envelope>) -> Result<
    EnvelopeView,
    EnvelopeView,
> {
    match answer {
        Ok(request) => Ok(request@),
        Err(refusal) => Err(refusal@),
    }
}

/// The answer to a decoded envelope that is no request that can be taken.
pub fn check_request(envelope: Envelope) -> (r: Result<Envelope, Envelope>)
    ensures
        request_view(r) == if envelope.v != PROTOCOL_VERSION {
            Err::<EnvelopeView, EnvelopeView>(
                error_to(
                    envelope@.id,
                    envelope@.method,
                    ERROR_UNSUPPORTED_VERSION@,
                    "unsupported protocol version: "@ + text::decimal(envelope.v as nat),
                ),
            )
        } else if envelope.kind != EnvelopeKind::Request {
            Err(
                error_to(
                    envelope@.id,
                    envelope@.method,
                    ERROR_MALFORMED_REQUEST@,
                    "envelope kind must be request"@,
                ),
            )
        } else if envelope.method is None {
            Err(
                error_to(
                    envelope@.id,
                    None,
                    ERROR_MALFORMED_REQUEST@,
                    "request method is required"@,
                ),
            )
        } else {
            Ok(envelope@)
        },
{
    if envelope.v != PROTOCOL_VERSION {
        let message = text::text2(
            "unsupported protocol version: ",
            text::decimal_u64(envelope.v as u64).as_str(),
        );
        return Err(
            Envelope::error(envelope.id, envelope.method, ERROR_UNSUPPORTED_VERSION, message),
        );
    }
    if envelope.kind != EnvelopeKind::Request {
        return Err(
            Envelope::error(
                envelope.id,
                envelope.method,
                ERROR_MALFORMED_REQUEST,
                "envelope kind must be request".to_owned(),
            ),
        );
    }
    if envelope.method.is_none() {
        return Err(
            Envelope::error(
                envelope.id,
                None,
                ERROR_MALFORMED_REQUEST,
                "request method is required".to_owned(),
            ),
        );
    }
    Ok(envelope)
}

/// Whether an optional value is another but for the order of members.
pub open spec fn same_option(a: Option<JsonView>, b: Option<JsonView>) -> bool {
    match (a, b) {
        (Some(x), Some(y)) => json::same_value(x, y),
        (None, None) => true,
        _ => false,
    }
}

/// Whether two envelopes say the same; the members of what they carry may be in another order.
pub open spec fn same_envelope(a: EnvelopeView, b: EnvelopeView) -> bool {
    &&& a.v == b.v
    &&& a.id == b.id
    &&& a.kind == b.kind
    &&& a.method == b.method
    &&& same_option(a.params, b.params)
    &&& same_option(a.result, b.result)
    &&& a.error == b.error
}

/// Whether an envelope survives being written: it carries nothing that is null, and what it carries
/// is read back from its text.
pub open spec fn sendable(envelope: EnvelopeView) -> bool {
    &&& envelope.params != Some(JsonView::Null)
    &&& envelope.result != Some(JsonView::Null)
    &&& json::printable(envelope_json(envelope), json::depth_limit())
}

proof fn lemma_same_envelope(a: JsonView, b: JsonView)
    requires
        a is Object,
        json::member_of(a, "error"@) matches Some(error) ==> error is Object,
        json::member_of(a, "kind"@) matches Some(kind) ==> kind is Text,
        json::same_value(a, b),
        envelope_complaint(a) is None,
    ensures
        envelope_complaint(b) is None,
        same_envelope(envelope_in(a), envelope_in(b)),
{
    let fields = envelope_fields();
    assert(fields[2].name@ == "kind"@);
    json::lemma_complaint(a, "Envelope"@, fields, 3);
    json::lemma_complaint(b, "Envelope"@, fields, 3);
    assert(json::field_fits(json::member_of(a, fields[2].name@), fields[2].kind));
    json::lemma_same_fields(a, b, fields);
    json::lemma_same_members(a, b, "v"@);
    json::lemma_same_members(a, b, "id"@);
    json::lemma_same_members(a, b, "kind"@);
    json::lemma_same_members(a, b, "method"@);
    json::lemma_same_members(a, b, "params"@);
    json::lemma_same_members(a, b, "result"@);
    json::lemma_same_members(a, b, "error"@);
    if let (Some(x), Some(y)) = (
        json::value_in(json::member_of(a, "error"@)),
        json::value_in(json::member_of(b, "error"@)),
    ) {
        json::lemma_complaint(x, "ProtocolError"@, error_fields(), 2);
        json::lemma_complaint(y, "ProtocolError"@, error_fields(), 2);
        json::lemma_same_fields(x, y, error_fields());
        json::lemma_same_members(x, y, "code"@);
        json::lemma_same_members(x, y, "message"@);
    }
}

/// An envelope that was written is in what is read from its text.
pub proof fn lemma_written_envelopes(
    line: Seq<char>,
    read: Result<JsonView, Seq<char>>,
    envelope: EnvelopeView,
)
    requires
        json::reads_back(line, read),
        sendable(envelope),
        json::json_text(envelope_json(envelope)) == line,
    ensures
        read is Ok,
        envelope_complaint(read->Ok_0) is None,
        same_envelope(envelope, envelope_in(read->Ok_0)),
{
    law_envelopes_are_read_back(envelope);
    lemma_envelope_members(envelope);
    lemma_same_envelope(envelope_json(envelope), read->Ok_0);
}

/// The envelope that stands in a line, given the value that the line holds; or what is wrong with it.
/// No field of an envelope that was written stands in its line twice.
pub fn read_envelope(line: &str, value: &Json) -> (r: Result<Envelope, String>)
    ensures
        r is Ok <==> line_complaint(line@, value@) is None,
        r matches Ok(envelope) ==> envelope@ == envelope_in(value@),
        r matches Err(message) ==> line_complaint(line@, value@) == Some(message@),
        forall|envelope: EnvelopeView|
            sendable(envelope) && #[trigger] json::json_text(envelope_json(envelope)) == line@
                ==> line_complaint(line@, value@) == envelope_complaint(value@),
{
    let outer = vec!["v", "id", "kind", "method", "params", "result", "error"];
    let inner = vec!["code", "message"];
    assert(text::str_views(outer@) =~= envelope_names());
    assert(text::str_views(inner@) =~= error_names());
    let repeated = members::repeated_members(line, &outer, "error", &inner);
    proof {
        assert forall|envelope: EnvelopeView|
            sendable(envelope) && #[trigger] json::json_text(envelope_json(envelope))
                == line@ implies repeated is None by {
            lemma_envelope_members(envelope);
        }
    }
    match repeated {
        Some(name) => Err(text::text3("duplicate field `", name.as_str(), "`")),
        None => decode_envelope(value),
    }
}

/// The request that stands in a line, or the answer to one that cannot be taken. A request that a
/// client wrote is taken as it was meant.
pub fn decode_request(line: &str) -> (r: Result<Envelope, Envelope>)
    ensures
        request_view(r) == request_in(line@),
        forall|request: EnvelopeView|
            sendable(request) && request.v == PROTOCOL_VERSION && request.kind
                == EnvelopeKind::Request && request.method is Some && #[trigger] json::json_text(
                envelope_json(request),
            ) == line@ ==> (r matches Ok(given) && same_envelope(request, given@)),
{
    let parsed = Json::parse(line);
    proof {
        assert forall|request: EnvelopeView|
            sendable(request) && #[trigger] json::json_text(envelope_json(request))
                == line@ implies parsed is Ok && envelope_complaint(parsed->Ok_0@) is None
            && same_envelope(request, envelope_in(parsed->Ok_0@)) by {
            lemma_written_envelopes(line@, json::parse_view(parsed), request);
        }
    }
    let value = match parsed {
        Ok(value) => value,
        Err(message) => {
            return Err(
                Envelope::error(
                    None,
                    None,
                    ERROR_MALFORMED_REQUEST,
                    text::text2("request is not a valid protocol envelope: ", message.as_str()),
                ),
            );
        },
    };
    match read_envelope(line, &value) {
        Ok(envelope) => check_request(envelope),
        Err(message) => Err(
            Envelope::error(
                None,
                None,
                ERROR_MALFORMED_REQUEST,
                text::text2("request is not a valid protocol envelope: ", message.as_str()),
            ),
        ),
    }
}

/// The states of a run are sent under their own names.
pub proof fn law_states_have_their_words(state: RunStateName, name: Seq<char>)
    ensures
        name == "running"@ ==> state_named(name) == Some(RunStateName::Running),
        name == "finished"@ ==> state_named(name) == Some(RunStateName::Finished),
        name == "failed"@ ==> state_named(name) == Some(RunStateName::Failed),
        name == "canceled"@ ==> state_named(name) == Some(RunStateName::Canceled),
        name == "cancel_requested"@ ==> state_named(name) == Some(RunStateName::CancelRequested),
        name == "interrupted"@ ==> state_named(name) == Some(RunStateName::Interrupted),
        state_named(name) matches Some(found) ==> found.wire() == name,
        state_named(name) is None ==> state.wire() != name,
{
    law_states_keep_their_names(RunStateName::Running);
    law_states_keep_their_names(RunStateName::Finished);
    law_states_keep_their_names(RunStateName::Failed);
    law_states_keep_their_names(RunStateName::Canceled);
    law_states_keep_their_names(RunStateName::CancelRequested);
    law_states_keep_their_names(RunStateName::Interrupted);
}

/// An answer carries the id and the method of its request, and either a result or an error, never both.
pub proof fn law_answers_succeed_or_fail(
    id: Option<Seq<char>>,
    method: Option<Seq<char>>,
    result: JsonView,
    code: Seq<char>,
    message: Seq<char>,
)
    ensures
        ({
            let answer = response_to(id, method, result);
            answer.v == 1 && answer.id == id && answer.method == method && answer.kind
                == EnvelopeKind::Response && answer.params is None && answer.result == Some(result)
                && answer.error is None
        }),
        ({
            let answer = error_to(id, method, code, message);
            answer.v == 1 && answer.id == id && answer.method == method && answer.kind
                == EnvelopeKind::Error && answer.params is None && answer.result is None
                && answer.error == Some((code, message))
        }),
{
}

/// A line is taken as a request exactly where it holds an envelope of the first version that is a request
/// and has a method; what is refused is told under the id that could be read.
pub proof fn law_only_requests_are_taken(line: Seq<char>, value: JsonView)
    requires
        json::json_parsed(line) == Ok::<JsonView, Seq<char>>(value),
        line_complaint(line, value) is None,
    ensures
        ({
            let envelope = envelope_in(value);
            let fits = envelope.v == 1 && envelope.kind == EnvelopeKind::Request && envelope.method
                is Some;
            &&& fits ==> request_in(line) == Ok::<EnvelopeView, EnvelopeView>(envelope)
            &&& !fits ==> (request_in(line) matches Err(refusal) && refusal.id == envelope.id
                && refusal.kind == EnvelopeKind::Error && refusal.result is None)
            &&& envelope.v != 1 ==> (request_in(line) matches Err(refusal)
                && refusal.error->Some_0.0 == "unsupported_version"@)
            &&& envelope.v == 1 && !fits ==> (request_in(line) matches Err(refusal)
                && refusal.error->Some_0.0 == "malformed_request"@)
        }),
{
}

/// A line that holds no envelope is refused as malformed, under no id.
pub proof fn law_other_lines_are_malformed(line: Seq<char>)
    requires
        json::json_parsed(line) is Err || line_complaint(line, json::json_parsed(line)->Ok_0)
            is Some,
    ensures
        request_in(line) matches Err(refusal) && refusal.id is None && (
        refusal.error matches Some(error) && error.0 == "malformed_request"@),
{
}

/// An envelope is sent with its version, its id, its kind, and then with what it holds, by name; what it
/// does not hold is left out, but for the id.
pub proof fn law_envelopes_are_sent_by_name(envelope: EnvelopeView)
    ensures
        envelope_json(envelope) matches JsonView::Object(m) && m.len() >= 3 && m[0] == (
            "v"@,
            JsonView::Number(text::decimal(envelope.v as nat)),
        ) && m[1] == (
            "id"@,
            match envelope.id {
                Some(id) => JsonView::Text(id),
                None => JsonView::Null,
            },
        ) && m[2] == (
            "kind"@,
            JsonView::Text(
                match envelope.kind {
                    EnvelopeKind::Request => "request"@,
                    EnvelopeKind::Response => "response"@,
                    EnvelopeKind::Event => "event"@,
                    EnvelopeKind::Error => "error"@,
                },
            ),
        ) && (envelope.method matches Some(method) ==> m[3] == ("method"@, JsonView::Text(method)))
            && (envelope.error matches Some((code, message)) ==> m.last().0 == "error"@ && (
        m.last().1 matches JsonView::Object(e) && e.len() == 2 && e[0] == (
            "code"@,
            JsonView::Text(code),
        ) && e[1] == ("message"@, JsonView::Text(message)))) && (envelope.result is Some
            && envelope.error is None ==> m.last() == ("result"@, envelope.result->Some_0)) && (
        envelope.params is Some && envelope.result is None && envelope.error is None ==> m.last()
            == ("params"@, envelope.params->Some_0)),
{
    let m = envelope_json(envelope)->Object_0;
    assert(m[0] == ("v"@, JsonView::Number(text::decimal(envelope.v as nat))));
    assert(m[1].0 == "id"@);
    assert(m[2].0 == "kind"@);
    if let Some((code, message)) = envelope.error {
        let e = error_json(code, message)->Object_0;
        assert(e[0] == ("code"@, JsonView::Text(code)));
        assert(e[1] == ("message"@, JsonView::Text(message)));
    }
}

} // verus!

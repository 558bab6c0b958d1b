//! The requests that a client makes of the daemon.
use crate::daemon::messages;
use crate::daemon::messages::{
    ApprovalDecideParams, EventsStreamParams, HelloParams, MessageAppendParams, RunCancelParams,
    RunStartParams, TranscriptReadParams,
};
use crate::daemon::protocol;
use crate::daemon::protocol::{Envelope, EnvelopeKind, EnvelopeView, PROTOCOL_VERSION};
use crate::json;
use crate::json::{Json, JsonView};
use crate::paths;
use crate::text;
use vstd::prelude::*;

verus! {

/// What is asked of the daemon: a method, and what it needs to know.
#[derive(Debug, PartialEq, Eq)]
pub struct ClientRequest {
    pub method: &'static str,
    pub params: Option<Json>,
}

/// What a request stands for.
pub struct RequestView {
    pub method: Seq<char>,
    pub params: Option<JsonView>,
}

/// A greeting from the workspace at `workspace_root`.
pub open spec fn hello_view(workspace_root: Seq<char>) -> RequestView {
    RequestView {
        method: "hello"@,
        params: Some(
            JsonView::Object(
                json::no_members().push(
                    (
                        "workspace_id"@,
                        JsonView::Text(paths::workspace_identity(workspace_root)),
                    ),
                ).push(("workspace_root"@, JsonView::Text(workspace_root))),
            ),
        ),
    }
}

/// A question for the sessions.
pub open spec fn sessions_view() -> RequestView {
    RequestView { method: "sessions.list"@, params: None }
}

/// A question for the transcript of a run.
pub open spec fn transcript_view(run_id: Seq<char>) -> RequestView {
    RequestView {
        method: "transcript.read"@,
        params: Some(
            JsonView::Object(
                json::no_members().push(("run_id"@, JsonView::Text(run_id))).push(
                    ("session_id"@, JsonView::Null),
                ),
            ),
        ),
    }
}

/// A question for the transcript of a session.
pub open spec fn session_transcript_view(session_id: Seq<char>) -> RequestView {
    RequestView {
        method: "transcript.read"@,
        params: Some(
            JsonView::Object(
                json::no_members().push(("run_id"@, JsonView::Null)).push(
                    ("session_id"@, JsonView::Text(session_id)),
                ),
            ),
        ),
    }
}

/// An order for a new run.
pub open spec fn run_start_view(
    question: Seq<char>,
    config_path: Option<Seq<char>>,
    wait: bool,
) -> RequestView {
    RequestView {
        method: "run.start"@,
        params: Some(
            JsonView::Object(
                json::no_members().push(("config_path"@, messages::text_or_null(config_path))).push(
                    ("question"@, JsonView::Text(question)),
                ).push(("wait"@, JsonView::Bool(wait))),
            ),
        ),
    }
}

/// An order for the next run of a session.
pub open spec fn message_append_view(
    message: Seq<char>,
    session_id: Option<Seq<char>>,
    config_path: Option<Seq<char>>,
    wait: bool,
) -> RequestView {
    RequestView {
        method: "message.append"@,
        params: Some(
            JsonView::Object(
                json::no_members().push(("config_path"@, messages::text_or_null(config_path))).push(
                    ("message"@, JsonView::Text(message)),
                ).push(("session_id"@, messages::text_or_null(session_id))).push(
                    ("wait"@, JsonView::Bool(wait)),
                ),
            ),
        ),
    }
}

/// A question for the events of a run: those from an offset on, or those that are still to come.
pub open spec fn events_view(run_id: Seq<char>, from_offset: Option<u64>, limit: u64) -> RequestView {
    RequestView {
        method: "events.stream"@,
        params: Some(
            JsonView::Object(
                (match from_offset {
                    Some(offset) => json::no_members().push(
                        ("from_offset"@, JsonView::Number(text::decimal(offset as nat))),
                    ),
                    None => json::no_members(),
                }).push(("limit"@, JsonView::Number(text::decimal(limit as nat)))).push(
                    ("run_id"@, JsonView::Text(run_id)),
                ),
            ),
        ),
    }
}

/// A decision on a call that waits for approval.
pub open spec fn decide_view(
    run_id: Seq<char>,
    call_id: Seq<char>,
    decision: Seq<char>,
    reason: Option<Seq<char>>,
) -> RequestView {
    RequestView {
        method: "approval.decide"@,
        params: Some(
            JsonView::Object(
                json::no_members().push(("decision"@, JsonView::Text(decision))).push(
                    ("reason"@, messages::text_or_null(reason)),
                ).push(("run_id"@, JsonView::Text(run_id))).push(
                    ("tool_call_id"@, JsonView::Text(call_id)),
                ),
            ),
        ),
    }
}

/// An order to stop a run.
pub open spec fn cancel_view(run_id: Seq<char>) -> RequestView {
    RequestView {
        method: "run.cancel"@,
        params: Some(
            JsonView::Object(json::no_members().push(("run_id"@, JsonView::Text(run_id)))),
        ),
    }
}

/// The envelope of a request that goes by the name `id`.
pub open spec fn request_envelope(request: RequestView, id: Seq<char>) -> EnvelopeView {
    EnvelopeView {
        v: PROTOCOL_VERSION,
        id: Some(id),
        kind: EnvelopeKind::Request,
        method: Some(request.method),
        params: request.params,
        result: None,
        error: None,
    }
}

impl ClientRequest {
    /// The request that `self` stands for.
    pub open spec fn view(&self) -> RequestView {
        RequestView { method: self.method@, params: json::opt_json(self.params) }
    }

    /// Greets the daemon from the workspace at the canonical path `workspace_root`.
    pub fn hello(workspace_root: &str) -> (r: ClientRequest)
        ensures
            r@ == hello_view(workspace_root@),
    {
        let params = HelloParams {
            workspace_root: workspace_root.to_owned(),
            workspace_id: paths::workspace_id_from_canonical_path(workspace_root),
        };
        ClientRequest { method: "hello", params: Some(params.to_json()) }
    }

    /// Asks for the sessions.
    pub fn sessions_list() -> (r: ClientRequest)
        ensures
            r@ == sessions_view(),
    {
        ClientRequest { method: "sessions.list", params: None }
    }

    /// Asks for the transcript of a run.
    pub fn transcript_read(run_id: &str) -> (r: ClientRequest)
        ensures
            r@ == transcript_view(run_id@),
    {
        let params = TranscriptReadParams { run_id: Some(run_id.to_owned()), session_id: None };
        ClientRequest { method: "transcript.read", params: Some(params.to_json()) }
    }

    /// Asks for the transcript of a session.
    pub fn transcript_read_session(session_id: &str) -> (r: ClientRequest)
        ensures
            r@ == session_transcript_view(session_id@),
    {
        let params = TranscriptReadParams { run_id: None, session_id: Some(session_id.to_owned()) };
        ClientRequest { method: "transcript.read", params: Some(params.to_json()) }
    }

    /// Orders a new run.
    pub fn run_start(question: String, config_path: Option<String>, wait: bool) -> (r:
        ClientRequest)
        ensures
            r@ == run_start_view(question@, text::opt_view(config_path), wait),
    {
        let params = RunStartParams { question, config_path, wait: Some(wait) };
        ClientRequest { method: "run.start", params: Some(params.to_json()) }
    }

    /// Orders the next run of a session.
    pub fn message_append(
        message: String,
        session_id: Option<String>,
        config_path: Option<String>,
        wait: bool,
    ) -> (r: ClientRequest)
        ensures
            r@ == message_append_view(
                message@,
                text::opt_view(session_id),
                text::opt_view(config_path),
                wait,
            ),
    {
        let params = MessageAppendParams { message, session_id, config_path, wait: Some(wait) };
        ClientRequest { method: "message.append", params: Some(params.to_json()) }
    }

    /// Asks for the events of a run: those from an offset on, or those that are still to come.
    pub fn events_stream(run_id: &str, from_offset: Option<u64>, limit: u64) -> (r: ClientRequest)
        ensures
            r@ == events_view(run_id@, from_offset, limit),
    {
        let params = EventsStreamParams {
            run_id: run_id.to_owned(),
            from_offset,
            limit: Some(limit),
        };
        ClientRequest { method: "events.stream", params: Some(params.to_json()) }
    }

    /// Grants a call that waits for approval.
    pub fn approval_grant(run_id: &str, call_id: &str) -> (r: ClientRequest)
        ensures
            r@ == decide_view(run_id@, call_id@, "grant"@, None),
    {
        let params = ApprovalDecideParams {
            run_id: run_id.to_owned(),
            tool_call_id: call_id.to_owned(),
            decision: "grant".to_owned(),
            reason: None,
        };
        ClientRequest { method: "approval.decide", params: Some(params.to_json()) }
    }

    /// Denies a call that waits for approval.
    pub fn approval_deny(run_id: &str, call_id: &str, reason: String) -> (r: ClientRequest)
        ensures
            r@ == decide_view(run_id@, call_id@, "deny"@, Some(reason@)),
    {
        let params = ApprovalDecideParams {
            run_id: run_id.to_owned(),
            tool_call_id: call_id.to_owned(),
            decision: "deny".to_owned(),
            reason: Some(reason),
        };
        ClientRequest { method: "approval.decide", params: Some(params.to_json()) }
    }

    /// Orders a run to stop.
    pub fn run_cancel(run_id: &str) -> (r: ClientRequest)
        ensures
            r@ == cancel_view(run_id@),
    {
        let params = RunCancelParams { run_id: run_id.to_owned() };
        ClientRequest { method: "run.cancel", params: Some(params.to_json()) }
    }

    /// The line that asks it, under the name `id`: one line, with a line feed behind it.
    pub fn to_line(self, id: String) -> (r: String)
        ensures
            r@ == json::json_text(protocol::envelope_json(request_envelope(self@, id@))) + "\n"@,
            json::printable(
                protocol::envelope_json(request_envelope(self@, id@)),
                json::depth_limit(),
            ) ==> text::is_plain(r@.drop_last()),
    {
        let envelope = Envelope::request(id, self.method, self.params);
        let mut line = envelope.to_json().render();
        let ghost written = line@;
        line.append("\n");
        proof {
            reveal_strlit("\n");
            assert(line@.drop_last() =~= written);
        }
        line
    }
}

/// A decision that a client sends is one that the daemon reads as it was meant.
pub proof fn law_decisions_are_understood(
    run_id: Seq<char>,
    call_id: Seq<char>,
    decision: Seq<char>,
    reason: Option<Seq<char>>,
)
    ensures
        ({
            let params = decide_view(run_id, call_id, decision, reason).params->Some_0;
            &&& json::complaint(
                params,
                "ApprovalDecideParams"@,
                messages::approval_decide_fields(),
                3,
            ) is None
            &&& messages::text_of(params, "run_id"@) == run_id
            &&& messages::text_of(params, "tool_call_id"@) == call_id
            &&& messages::text_of(params, "decision"@) == decision
            &&& json::text_in(json::member_of(params, "reason"@)) == reason
        }),
{
    reveal_strlit("decision");
    reveal_strlit("reason");
    reveal_strlit("run_id");
    reveal_strlit("tool_call_id");
    let a = ("decision"@, JsonView::Text(decision));
    let b = ("reason"@, messages::text_or_null(reason));
    let c = ("run_id"@, JsonView::Text(run_id));
    let d = ("tool_call_id"@, JsonView::Text(call_id));
    let m0 = json::no_members();
    let m1 = m0.push(a);
    let m2 = m1.push(b);
    let m3 = m2.push(c);
    let m4 = m3.push(d);
    let names = seq!["decision"@, "reason"@, "run_id"@, "tool_call_id"@];
    assert("decision"@[0] == 'd' && "reason"@[0] == 'r' && "run_id"@[0] == 'r' && "tool_call_id"@[0]
        == 't' && "reason"@[1] == 'e' && "run_id"@[1] == 'u');
    assert forall|k: int| 0 <= k < 4 implies json::first_member(m4, #[trigger] names[k]) == Some(
        m4[k].1,
    ) by {
        json::lemma_first_member_push(m0, a, names[k]);
        json::lemma_first_member_push(m1, b, names[k]);
        json::lemma_first_member_push(m2, c, names[k]);
        json::lemma_first_member_push(m3, d, names[k]);
    }
    assert(names[0] == "decision"@ && names[1] == "reason"@ && names[2] == "run_id"@ && names[3]
        == "tool_call_id"@);
    let value = decide_view(run_id, call_id, decision, reason).params->Some_0;
    let title = "ApprovalDecideParams"@;
    let fields = messages::approval_decide_fields();
    assert(fields[0].name@ == "run_id"@ && fields[1].name@ == "tool_call_id"@ && fields[2].name@
        == "decision"@ && fields[3].name@ == "reason"@);
    assert(value == JsonView::Object(m4));
    assert forall|i: int| 0 <= i < m4.len() implies json::has_field(
        fields,
        (#[trigger] m4[i]).0,
    ) by {
        assert(m4[0] == a && m4[1] == b && m4[2] == c && m4[3] == d);
        assert(fields[2].name@ == m4[0].0);
        assert(fields[3].name@ == m4[1].0);
        assert(fields[0].name@ == m4[2].0);
        assert(fields[1].name@ == m4[3].0);
    }
    assert(json::conforms(value, fields));
    json::lemma_complaint(value, title, fields, 3);
}

/// An order for a run that a client sends is one that the daemon reads as it was meant.
pub proof fn law_orders_are_understood(
    question: Seq<char>,
    config_path: Option<Seq<char>>,
    wait: bool,
)
    ensures
        ({
            let params = run_start_view(question, config_path, wait).params->Some_0;
            &&& json::complaint(params, "RunStartParams"@, messages::run_start_fields(), 1) is None
            &&& messages::text_of(params, "question"@) == question
            &&& json::text_in(json::member_of(params, "config_path"@)) == config_path
            &&& json::flag_in(json::member_of(params, "wait"@)) == Some(wait)
        }),
{
    reveal_strlit("config_path");
    reveal_strlit("question");
    reveal_strlit("wait");
    let a = ("config_path"@, messages::text_or_null(config_path));
    let b = ("question"@, JsonView::Text(question));
    let c = ("wait"@, JsonView::Bool(wait));
    let m0 = json::no_members();
    let m1 = m0.push(a);
    let m2 = m1.push(b);
    let m3 = m2.push(c);
    let names = seq!["config_path"@, "question"@, "wait"@];
    assert("config_path"@[0] == 'c' && "question"@[0] == 'q' && "wait"@[0] == 'w');
    assert forall|k: int| 0 <= k < 3 implies json::first_member(m3, #[trigger] names[k]) == Some(
        m3[k].1,
    ) by {
        json::lemma_first_member_push(m0, a, names[k]);
        json::lemma_first_member_push(m1, b, names[k]);
        json::lemma_first_member_push(m2, c, names[k]);
    }
    assert(names[0] == "config_path"@ && names[1] == "question"@ && names[2] == "wait"@);
    let value = run_start_view(question, config_path, wait).params->Some_0;
    let title = "RunStartParams"@;
    let fields = messages::run_start_fields();
    assert(fields[0].name@ == "question"@ && fields[1].name@ == "config_path"@ && fields[2].name@
        == "wait"@);
    assert(value == JsonView::Object(m3));
    assert forall|i: int| 0 <= i < m3.len() implies json::has_field(
        fields,
        (#[trigger] m3[i]).0,
    ) by {
        assert(m3[0] == a && m3[1] == b && m3[2] == c);
        assert(fields[1].name@ == m3[0].0);
        assert(fields[0].name@ == m3[1].0);
        assert(fields[2].name@ == m3[2].0);
    }
    assert(json::conforms(value, fields));
    json::lemma_complaint(value, title, fields, 1);
}

/// What a client sends to a session is what the daemon reads.
pub proof fn law_messages_are_understood(
    message: Seq<char>,
    session_id: Option<Seq<char>>,
    config_path: Option<Seq<char>>,
    wait: bool,
)
    ensures
        ({
            let params = message_append_view(message, session_id, config_path, wait).params->Some_0;
            &&& json::complaint(params, "MessageAppendParams"@, messages::message_append_fields(), 1) is None
            &&& messages::text_of(params, "message"@) == message
            &&& json::text_in(json::member_of(params, "session_id"@)) == session_id
            &&& json::text_in(json::member_of(params, "config_path"@)) == config_path
            &&& json::flag_in(json::member_of(params, "wait"@)) == Some(wait)
        }),
{
    reveal_strlit("config_path");
    reveal_strlit("message");
    reveal_strlit("session_id");
    reveal_strlit("wait");
    assert("config_path"@.len() == 11);
    assert("message"@.len() == 7);
    assert("session_id"@.len() == 10);
    assert("wait"@.len() == 4);
    let value = message_append_view(message, session_id, config_path, wait).params->Some_0;
    let m = value->Object_0;
    assert(m[0] == ("config_path"@, messages::text_or_null(config_path)));
    assert(m[1] == ("message"@, JsonView::Text(message)));
    assert(m[2] == ("session_id"@, messages::text_or_null(session_id)));
    assert(m[3] == ("wait"@, JsonView::Bool(wait)));
    json::lemma_distinct_members(m);
    let fields = messages::message_append_fields();
    assert(fields[0].name@ == "message"@);
    assert(fields[1].name@ == "session_id"@);
    assert(fields[2].name@ == "config_path"@);
    assert(fields[3].name@ == "wait"@);
    assert forall|i: int| 0 <= i < m.len() implies json::has_field(
        fields,
        (#[trigger] m[i]).0,
    ) by {
        assert(fields[2].name@ == m[0].0);
        assert(fields[0].name@ == m[1].0);
        assert(fields[1].name@ == m[2].0);
        assert(fields[3].name@ == m[3].0);
    }
    json::lemma_complaint(value, "MessageAppendParams"@, fields, 1);
}

/// The run that a client cancels is the one that the daemon reads.
pub proof fn law_cancellations_are_understood(run_id: Seq<char>)
    ensures
        ({
            let params = cancel_view(run_id).params->Some_0;
            &&& json::complaint(params, "RunCancelParams"@, messages::run_cancel_fields(), 1) is None
            &&& messages::text_of(params, "run_id"@) == run_id
            &&& params is Object
        }),
{
    reveal_strlit("run_id");
    assert("run_id"@.len() == 6);
    let value = cancel_view(run_id).params->Some_0;
    let m = value->Object_0;
    assert(m[0] == ("run_id"@, JsonView::Text(run_id)));
    json::lemma_distinct_members(m);
    let fields = messages::run_cancel_fields();
    assert(fields[0].name@ == "run_id"@);
    assert forall|i: int| 0 <= i < m.len() implies json::has_field(
        fields,
        (#[trigger] m[i]).0,
    ) by {
        assert(fields[0].name@ == m[0].0);
    }
    json::lemma_complaint(value, "RunCancelParams"@, fields, 1);
}

/// The run, the place and the number of events that a client asks for are those that the daemon reads.
pub proof fn law_streams_are_understood(run_id: Seq<char>, from_offset: u64, limit: u64)
    ensures
        ({
            let params = events_view(run_id, Some(from_offset), limit).params->Some_0;
            &&& json::complaint(params, "EventsStreamParams"@, messages::events_stream_fields(), 1) is None
            &&& messages::text_of(params, "run_id"@) == run_id
            &&& json::u64_in(json::member_of(params, "from_offset"@)) == Some(from_offset)
            &&& json::u64_in(json::member_of(params, "limit"@)) == Some(limit)
        }),
{
    reveal_strlit("from_offset");
    reveal_strlit("limit");
    reveal_strlit("run_id");
    assert("from_offset"@.len() == 11);
    assert("limit"@.len() == 5);
    assert("run_id"@.len() == 6);
    let value = events_view(run_id, Some(from_offset), limit).params->Some_0;
    let m = value->Object_0;
    assert(m[0] == ("from_offset"@, JsonView::Number(text::decimal(from_offset as nat))));
    assert(m[1] == ("limit"@, JsonView::Number(text::decimal(limit as nat))));
    assert(m[2] == ("run_id"@, JsonView::Text(run_id)));
    json::lemma_distinct_members(m);
    let fields = messages::events_stream_fields();
    assert(fields[0].name@ == "run_id"@);
    assert(fields[1].name@ == "from_offset"@);
    assert(fields[2].name@ == "limit"@);
    assert forall|i: int| 0 <= i < m.len() implies json::has_field(
        fields,
        (#[trigger] m[i]).0,
    ) by {
        assert(fields[1].name@ == m[0].0);
        assert(fields[2].name@ == m[1].0);
        assert(fields[0].name@ == m[2].0);
    }
    json::lemma_decimal_is_read_back(from_offset as nat);
    json::lemma_decimal_is_read_back(limit as nat);
    json::lemma_complaint(value, "EventsStreamParams"@, fields, 1);
}

/// A client that names no place asks for none.
pub proof fn law_tips_are_understood(run_id: Seq<char>, limit: u64)
    ensures
        ({
            let params = events_view(run_id, None, limit).params->Some_0;
            &&& json::complaint(params, "EventsStreamParams"@, messages::events_stream_fields(), 1) is None
            &&& messages::text_of(params, "run_id"@) == run_id
            &&& json::member_of(params, "from_offset"@) is None
            &&& json::u64_in(json::member_of(params, "limit"@)) == Some(limit)
        }),
{
    reveal_strlit("limit");
    reveal_strlit("run_id");
    assert("limit"@.len() == 5);
    assert("run_id"@.len() == 6);
    let value = events_view(run_id, None, limit).params->Some_0;
    let m = value->Object_0;
    assert(m[0] == ("limit"@, JsonView::Number(text::decimal(limit as nat))));
    assert(m[1] == ("run_id"@, JsonView::Text(run_id)));
    json::lemma_distinct_members(m);
    let fields = messages::events_stream_fields();
    assert(fields[0].name@ == "run_id"@);
    assert(fields[1].name@ == "from_offset"@);
    assert(fields[2].name@ == "limit"@);
    assert forall|i: int| 0 <= i < m.len() implies json::has_field(
        fields,
        (#[trigger] m[i]).0,
    ) by {
        assert(fields[2].name@ == m[0].0);
        assert(fields[0].name@ == m[1].0);
    }
    reveal_strlit("from_offset");
    assert("from_offset"@.len() == 11);
    json::lemma_no_member(m, "from_offset"@);
    json::lemma_decimal_is_read_back(limit as nat);
    json::lemma_complaint(value, "EventsStreamParams"@, fields, 1);
}

/// The run whose transcript a client reads is the one that the daemon reads.
pub proof fn law_run_transcripts_are_understood(run_id: Seq<char>)
    ensures
        ({
            let params = transcript_view(run_id).params->Some_0;
            &&& json::complaint(params, "TranscriptReadParams"@, messages::transcript_read_fields(), 0) is None
            &&& json::text_in(json::member_of(params, "run_id"@)) == Some(run_id)
            &&& json::text_in(json::member_of(params, "session_id"@)) is None
        }),
{
    reveal_strlit("run_id");
    reveal_strlit("session_id");
    assert("run_id"@.len() == 6);
    assert("session_id"@.len() == 10);
    let value = transcript_view(run_id).params->Some_0;
    let m = value->Object_0;
    assert(m[0] == ("run_id"@, JsonView::Text(run_id)));
    assert(m[1] == ("session_id"@, JsonView::Null));
    json::lemma_distinct_members(m);
    let fields = messages::transcript_read_fields();
    assert(fields[0].name@ == "run_id"@);
    assert(fields[1].name@ == "session_id"@);
    assert forall|i: int| 0 <= i < m.len() implies json::has_field(
        fields,
        (#[trigger] m[i]).0,
    ) by {
        assert(fields[0].name@ == m[0].0);
        assert(fields[1].name@ == m[1].0);
    }
    json::lemma_complaint(value, "TranscriptReadParams"@, fields, 0);
}

/// The session whose transcript a client reads is the one that the daemon reads.
pub proof fn law_session_transcripts_are_understood(run_id: Seq<char>)
    ensures
        ({
            let params = session_transcript_view(run_id).params->Some_0;
            &&& json::complaint(params, "TranscriptReadParams"@, messages::transcript_read_fields(), 0) is None
            &&& json::text_in(json::member_of(params, "session_id"@)) == Some(run_id)
            &&& json::text_in(json::member_of(params, "run_id"@)) is None
        }),
{
    reveal_strlit("run_id");
    reveal_strlit("session_id");
    assert("run_id"@.len() == 6);
    assert("session_id"@.len() == 10);
    let value = session_transcript_view(run_id).params->Some_0;
    let m = value->Object_0;
    assert(m[0] == ("run_id"@, JsonView::Null));
    assert(m[1] == ("session_id"@, JsonView::Text(run_id)));
    json::lemma_distinct_members(m);
    let fields = messages::transcript_read_fields();
    assert(fields[0].name@ == "run_id"@);
    assert(fields[1].name@ == "session_id"@);
    assert forall|i: int| 0 <= i < m.len() implies json::has_field(
        fields,
        (#[trigger] m[i]).0,
    ) by {
        assert(fields[0].name@ == m[0].0);
        assert(fields[1].name@ == m[1].0);
    }
    json::lemma_complaint(value, "TranscriptReadParams"@, fields, 0);
}

/// A client greets the daemon of its workspace: by its root, and by the name that the root has.
pub proof fn law_greetings_are_understood(root: Seq<char>)
    ensures
        ({
            let params = hello_view(root).params->Some_0;
            &&& json::complaint(params, "HelloParams"@, messages::hello_fields(), 2) is None
            &&& messages::text_of(params, "workspace_root"@) == root
            &&& messages::text_of(params, "workspace_id"@) == paths::workspace_identity(root)
        }),
{
    reveal_strlit("workspace_id");
    reveal_strlit("workspace_root");
    assert("workspace_id"@.len() == 12);
    assert("workspace_root"@.len() == 14);
    let value = hello_view(root).params->Some_0;
    let m = value->Object_0;
    assert(m[0] == ("workspace_id"@, JsonView::Text(paths::workspace_identity(root))));
    assert(m[1] == ("workspace_root"@, JsonView::Text(root)));
    json::lemma_distinct_members(m);
    let fields = messages::hello_fields();
    assert(fields[0].name@ == "workspace_root"@);
    assert(fields[1].name@ == "workspace_id"@);
    assert forall|i: int| 0 <= i < m.len() implies json::has_field(
        fields,
        (#[trigger] m[i]).0,
    ) by {
        assert(fields[1].name@ == m[0].0);
        assert(fields[0].name@ == m[1].0);
    }
    json::lemma_complaint(value, "HelloParams"@, fields, 2);
}

/// Every request goes out under its own method: each under the one that the daemon serves it by, as a
/// request of the first version, under its id.
pub proof fn law_requests_go_out_under_their_method(
    request: RequestView,
    id: Seq<char>,
    a: Seq<char>,
    b: Seq<char>,
    option: Option<Seq<char>>,
    offset: Option<u64>,
    limit: u64,
    wait: bool,
)
    ensures
        hello_view(a).method == "hello"@,
        sessions_view().method == "sessions.list"@,
        transcript_view(a).method == "transcript.read"@,
        session_transcript_view(a).method == "transcript.read"@,
        run_start_view(a, option, wait).method == "run.start"@,
        message_append_view(a, option, option, wait).method == "message.append"@,
        events_view(a, offset, limit).method == "events.stream"@,
        decide_view(a, b, b, option).method == "approval.decide"@,
        cancel_view(a).method == "run.cancel"@,
        ({
            let sent = request_envelope(request, id);
            sent.v == 1 && sent.id == Some(id) && sent.kind == EnvelopeKind::Request && sent.method
                == Some(request.method) && sent.params == request.params && sent.result is None
                && sent.error is None
        }),
{
}

} // verus!

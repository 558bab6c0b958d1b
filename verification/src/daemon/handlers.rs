//! What the daemon does with a request.
use crate::app::RunEvent;
use crate::daemon::messages;
use crate::daemon::messages::{
    ApprovalDecideParams, CommandAcceptedResult, EventsStreamParams, EventsStreamResult,
    HelloParams, HelloResult, MessageAppendParams, RunCancelParams, RunStartParams, RunStartResult,
    SessionSummary, SessionsListResult, SummaryView, TranscriptReadParams,
};
use crate::daemon::protocol;
use crate::daemon::protocol::{
    decode_request, Envelope, EnvelopeView, RunStateName, ERROR_INTERNAL, ERROR_LAGGED,
    ERROR_MALFORMED_REQUEST, ERROR_NOT_FOUND, ERROR_OVERLOAD, ERROR_RUN_FAILED,
    ERROR_SESSIONS_LIST_FAILED, ERROR_UNSUPPORTED_METHOD, ERROR_WORKSPACE_MISMATCH,
};
use crate::daemon::runtime;
use crate::daemon::runtime::{RecordView, RunRecord, StatusView};
use crate::daemon::server::DaemonPaths;
use crate::daemon::transcript;
use crate::daemon::transcript::TranscriptReadResult;
use crate::error;
use crate::error::AppError;
use crate::harness;
use crate::json;
use crate::json::{Field, FieldKind, Json, JsonView};
use crate::ledger::PersistedSessionSummary;
use crate::table;
use crate::text;
use crate::tools::{ApprovalOutcome, OutcomeView};
use vstd::prelude::*;

verus! {

/// The events of a page where the client asks for no number.
pub const DEFAULT_EVENT_LIMIT: u64 = 64;

/// The most events of a page.
pub const MAX_EVENT_LIMIT: u64 = 128;

/// The most characters that a summary shows of a question.
pub const LATEST_QUESTION_MAX_CHARS: usize = 120;

/// The version that the daemon gives of itself.
pub const DAEMON_VERSION: &'static str = "0.1.0";

/// The daemon: where it lives, and the runs it holds.
#[derive(Debug)]
pub struct DaemonRuntime {
    pub paths: DaemonPaths,
    pub runs: Vec<RunRecord>,
}

/// What held runs stand for.
pub open spec fn record_views(runs: Seq<RunRecord>) -> Seq<RecordView> {
    Seq::new(runs.len(), |i: int| runs[i]@)
}

/// Held runs by their names.
pub open spec fn run_rows(runs: Seq<RecordView>) -> Seq<(Seq<char>, RecordView)> {
    Seq::new(runs.len(), |i: int| (runs[i].run_id, runs[i]))
}

/// Whether a run is under way in a session.
pub open spec fn runs_in_session(record: RecordView, session_id: Seq<char>) -> bool {
    record.session_id == session_id && record.status.state == RunStateName::Running
}

/// The first run that is under way in a session.
pub open spec fn active_run(runs: Seq<RecordView>, session_id: Seq<char>) -> Option<Seq<char>>
    decreases runs.len(),
{
    if runs.len() == 0 {
        None
    } else if runs_in_session(runs[0], session_id) {
        Some(runs[0].run_id)
    } else {
        active_run(runs.drop_first(), session_id)
    }
}

/// Whether no session has two runs under way.
pub open spec fn one_run_per_session(runs: Seq<RecordView>) -> bool {
    forall|i: int, j: int|
        0 <= i < j < runs.len() ==> !(runs_in_session(#[trigger] runs[i], runs[i].session_id)
            && runs_in_session(#[trigger] runs[j], runs[i].session_id))
}

/// Whether the held runs are as the daemon leaves them.
pub open spec fn runs_ok(runs: Seq<RecordView>) -> bool {
    &&& forall|i: int| 0 <= i < runs.len() ==> runtime::record_ok(#[trigger] runs[i])
    &&& table::distinct_keys(run_rows(runs))
    &&& one_run_per_session(runs)
}

/// Which session a run belongs to.
#[derive(Debug, PartialEq, Eq)]
pub enum RunTarget {
    /// A session of its own.
    NewSession,
    /// The session of the latest run.
    LatestSession,
    /// The session of this name.
    Session(String),
}

/// Which session a run belongs to, as a value.
pub enum TargetView {
    NewSession,
    LatestSession,
    Session(Seq<char>),
}

/// A run that a client asks for.
#[derive(Debug, PartialEq, Eq)]
pub struct RunOrder {
    pub id: Option<String>,
    pub method: &'static str,
    pub question: String,
    pub target: RunTarget,
    pub config_path: Option<String>,
    pub wait: bool,
}

/// What an order stands for.
pub struct OrderView {
    pub id: Option<Seq<char>>,
    pub method: Seq<char>,
    pub question: Seq<char>,
    pub target: TargetView,
    pub config_path: Option<Seq<char>>,
    pub wait: bool,
}

impl RunOrder {
    /// The order that `self` stands for.
    pub open spec fn view(&self) -> OrderView {
        OrderView {
            id: text::opt_view(self.id),
            method: self.method@,
            question: self.question@,
            target: match self.target {
                RunTarget::NewSession => TargetView::NewSession,
                RunTarget::LatestSession => TargetView::LatestSession,
                RunTarget::Session(name) => TargetView::Session(name@),
            },
            config_path: text::opt_view(self.config_path),
            wait: self.wait,
        }
    }
}

/// What a request comes to: its answer, or what must be done first.
#[derive(Debug, PartialEq, Eq)]
pub enum Work {
    /// The request is answered.
    Answer(Envelope),
    /// The directory is to be resolved; then `answer_hello` gives the answer.
    Greet { id: Option<String>, workspace_root: String },
    /// A run is to be started; `reserve_run` takes its place first.
    Start(RunOrder),
    /// The stored sessions are to be read; then `answer_sessions` gives the answer.
    ListSessions { id: Option<String> },
    /// A run is to be read; then `answer_transcript` gives the answer.
    ReadRun { id: Option<String>, run_id: String },
    /// A session is to be read; then `answer_transcript` gives the answer.
    ReadSession { id: Option<String>, session_id: String },
}

/// What a request comes to, as a value.
pub enum WorkView {
    Answer(EnvelopeView),
    Greet { id: Option<Seq<char>>, workspace_root: Seq<char> },
    Start(OrderView),
    ListSessions { id: Option<Seq<char>> },
    ReadRun { id: Option<Seq<char>>, run_id: Seq<char> },
    ReadSession { id: Option<Seq<char>>, session_id: Seq<char> },
}

impl Work {
    /// What `self` stands for.
    pub open spec fn view(&self) -> WorkView {
        match self {
            Work::Answer(answer) => WorkView::Answer(answer@),
            Work::Greet { id, workspace_root } => WorkView::Greet {
                id: text::opt_view(*id),
                workspace_root: workspace_root@,
            },
            Work::Start(order) => WorkView::Start(order@),
            Work::ListSessions { id } => WorkView::ListSessions { id: text::opt_view(*id) },
            Work::ReadRun { id, run_id } => WorkView::ReadRun {
                id: text::opt_view(*id),
                run_id: run_id@,
            },
            Work::ReadSession { id, session_id } => WorkView::ReadSession {
                id: text::opt_view(*id),
                session_id: session_id@,
            },
        }
    }
}

/// The parameters of a request, a `title` with the given fields, or the answer to one that has none, or
/// others.
pub open spec fn params_of(
    request: EnvelopeView,
    method: Seq<char>,
    title: Seq<char>,
    fields: Seq<Field>,
    least: nat,
) -> Result<JsonView, EnvelopeView> {
    match request.params {
        None => Err(
            protocol::error_to(
                request.id,
                Some(method),
                ERROR_MALFORMED_REQUEST@,
                method + " params are required"@,
            ),
        ),
        Some(params) => match json::complaint(params, title, fields, least) {
            Some(message) => Err(
                protocol::error_to(
                    request.id,
                    Some(method),
                    ERROR_MALFORMED_REQUEST@,
                    method + " params are invalid: "@ + message,
                ),
            ),
            None => Ok(json::by_name(params, fields, least)),
        },
    }
}

fn params_required(id: Option<String>, method: &str) -> (r: Envelope)
    ensures
        r@ == protocol::error_to(
            text::opt_view(id),
            Some(method@),
            ERROR_MALFORMED_REQUEST@,
            method@ + " params are required"@,
        ),
{
    let message = text::text2(method, " params are required");
    Envelope::error(id, Some(method.to_owned()), ERROR_MALFORMED_REQUEST, message)
}

fn params_invalid(id: Option<String>, method: &str, message: String) -> (r: Envelope)
    ensures
        r@ == protocol::error_to(
            text::opt_view(id),
            Some(method@),
            ERROR_MALFORMED_REQUEST@,
            method@ + " params are invalid: "@ + message@,
        ),
{
    let message = text::text3(method, " params are invalid: ", message.as_str());
    Envelope::error(id, Some(method.to_owned()), ERROR_MALFORMED_REQUEST, message)
}

/// The answer to a request on a run that the daemon does not hold.
pub open spec fn run_missing(
    id: Option<Seq<char>>,
    method: Seq<char>,
    run_id: Seq<char>,
) -> EnvelopeView {
    protocol::error_to(id, Some(method), ERROR_NOT_FOUND@, "run not found: "@ + run_id)
}

fn run_not_found(id: Option<String>, method: &str, run_id: &str) -> (r: Envelope)
    ensures
        r@ == run_missing(text::opt_view(id), method@, run_id@),
{
    Envelope::error(
        id,
        Some(method.to_owned()),
        ERROR_NOT_FOUND,
        text::text2("run not found: ", run_id),
    )
}

/// What a greeting comes to: who greets another workspace is turned away; else the directory is to
/// be resolved.
pub open spec fn hello_work(paths: DaemonPaths, request: EnvelopeView) -> WorkView {
    match params_of(
        request,
        "hello"@,
        "HelloParams"@,
        messages::hello_fields(),
        2,
    ) {
        Err(answer) => WorkView::Answer(answer),
        Ok(params) => {
            let workspace_id = messages::text_of(params, "workspace_id"@);
            if workspace_id != paths.workspace_id@ {
                WorkView::Answer(
                    protocol::error_to(
                        request.id,
                        Some("hello"@),
                        ERROR_WORKSPACE_MISMATCH@,
                        "workspace_id mismatch: expected "@ + paths.workspace_id@ + ", got "@
                            + workspace_id,
                    ),
                )
            } else {
                WorkView::Greet {
                    id: request.id,
                    workspace_root: messages::text_of(params, "workspace_root"@),
                }
            }
        },
    }
}

/// What the daemon can do.
pub open spec fn capability_names() -> Seq<Seq<char>> {
    seq![
        "hello"@,
        "run.start"@,
        "message.append"@,
        "events.stream"@,
        "approval.decide"@,
        "run.cancel"@,
        "sessions.list"@,
        "transcript.read"@,
        "transcript.read.typed"@,
    ]
}

/// The answer to a greeting whose directory was resolved, or could not be.
pub open spec fn hello_answer(
    paths: DaemonPaths,
    id: Option<Seq<char>>,
    resolved: Result<Seq<char>, Seq<char>>,
) -> EnvelopeView {
    match resolved {
        Err(detail) => protocol::error_to(
            id,
            Some("hello"@),
            ERROR_WORKSPACE_MISMATCH@,
            "workspace_root cannot be resolved: "@ + detail,
        ),
        Ok(root) => if root != paths.workspace_root@ {
            protocol::error_to(
                id,
                Some("hello"@),
                ERROR_WORKSPACE_MISMATCH@,
                "workspace_root mismatch: expected "@ + paths.workspace_root@ + ", got "@ + root,
            )
        } else {
            protocol::response_to(
                id,
                Some("hello"@),
                messages::hello_json(
                    messages::HelloView {
                        daemon_version: DAEMON_VERSION@,
                        workspace_id: paths.workspace_id@,
                        ledger_path: paths.ledger_path@,
                        capabilities: capability_names(),
                    },
                ),
            )
        },
    }
}

/// What a request for a new run comes to.
pub open spec fn run_start_work(request: EnvelopeView) -> WorkView {
    match params_of(
        request,
        "run.start"@,
        "RunStartParams"@,
        messages::run_start_fields(),
        1,
    ) {
        Err(answer) => WorkView::Answer(answer),
        Ok(params) => WorkView::Start(
            OrderView {
                id: request.id,
                method: "run.start"@,
                question: messages::text_of(params, "question"@),
                target: TargetView::NewSession,
                config_path: json::text_in(json::member_of(params, "config_path"@)),
                wait: json::flag_in(json::member_of(params, "wait"@)) == Some(true),
            },
        ),
    }
}

/// What a request to go on with a session comes to.
pub open spec fn message_append_work(request: EnvelopeView) -> WorkView {
    match params_of(
        request,
        "message.append"@,
        "MessageAppendParams"@,
        messages::message_append_fields(),
        1,
    ) {
        Err(answer) => WorkView::Answer(answer),
        Ok(params) => WorkView::Start(
            OrderView {
                id: request.id,
                method: "message.append"@,
                question: messages::text_of(params, "message"@),
                target: match json::text_in(json::member_of(params, "session_id"@)) {
                    Some(session_id) => TargetView::Session(session_id),
                    None => TargetView::LatestSession,
                },
                config_path: json::text_in(json::member_of(params, "config_path"@)),
                wait: json::flag_in(json::member_of(params, "wait"@)) == Some(true),
            },
        ),
    }
}

/// The answer to a request for events: a page of them, or that there is no such run, that too many
/// are asked for, or that they are no longer held. Without an offset the page starts after the
/// latest event, and is empty.
pub open spec fn events_answer(runs: Seq<RecordView>, request: EnvelopeView) -> EnvelopeView {
    match params_of(
        request,
        "events.stream"@,
        "EventsStreamParams"@,
        messages::events_stream_fields(),
        1,
    ) {
        Err(answer) => answer,
        Ok(params) => {
            let run_id = messages::text_of(params, "run_id"@);
            match table::lookup(run_rows(runs), run_id) {
                None => run_missing(request.id, "events.stream"@, run_id),
                Some(record) => {
                    let limit = match json::u64_in(json::member_of(params, "limit"@)) {
                        Some(limit) => limit,
                        None => DEFAULT_EVENT_LIMIT,
                    };
                    let from = match json::u64_in(json::member_of(params, "from_offset"@)) {
                        Some(offset) => offset as nat,
                        None => record.events.next_offset,
                    };
                    let page = runtime::page_of(
                        record.events.events,
                        (from - record.events.first_offset) as nat,
                        limit as nat,
                    );
                    if limit > MAX_EVENT_LIMIT {
                        protocol::error_to(
                            request.id,
                            Some("events.stream"@),
                            ERROR_OVERLOAD@,
                            "event stream limit exceeds maximum "@ + text::decimal(
                                MAX_EVENT_LIMIT as nat,
                            ) + ": "@ + text::decimal(limit as nat),
                        )
                    } else if from < record.events.first_offset {
                        protocol::error_to(
                            request.id,
                            Some("events.stream"@),
                            ERROR_LAGGED@,
                            "requested offset "@ + text::decimal(from)
                                + " is no longer buffered; first available is "@ + text::decimal(
                                record.events.first_offset,
                            ),
                        )
                    } else {
                        protocol::response_to(
                            request.id,
                            Some("events.stream"@),
                            messages::page_json(
                                messages::PageView {
                                    run_id: record.run_id,
                                    from_offset: from as u64,
                                    next_offset: (from + page.len()) as u64,
                                    status: record.status.state,
                                    events: page,
                                },
                            ),
                        )
                    }
                },
            }
        },
    }
}

/// The runs with `record` in the place of the run of its name.
pub open spec fn with_record(runs: Seq<RecordView>, record: RecordView) -> Seq<RecordView> {
    runs.update(table::position(run_rows(runs), record.run_id), record)
}

/// What a decision on an approval comes to: it is put beside the approval, where the run waits for
/// it and the decision is one.
pub open spec fn decided(runs: Seq<RecordView>, request: EnvelopeView) -> (
    Seq<RecordView>,
    EnvelopeView,
) {
    let method = "approval.decide"@;
    match params_of(
        request,
        method,
        "ApprovalDecideParams"@,
        messages::approval_decide_fields(),
        3,
    ) {
        Err(answer) => (runs, answer),
        Ok(params) => {
            let run_id = messages::text_of(params, "run_id"@);
            let call_id = messages::text_of(params, "tool_call_id"@);
            let decision = messages::text_of(params, "decision"@);
            match table::lookup(run_rows(runs), run_id) {
                None => (runs, run_missing(request.id, method, run_id)),
                Some(record) => if table::lookup(record.approvals, call_id) is None {
                    (
                        runs,
                        protocol::error_to(
                            request.id,
                            Some(method),
                            ERROR_NOT_FOUND@,
                            "pending approval not found: "@ + call_id,
                        ),
                    )
                } else if decision != "grant"@ && decision != "deny"@ {
                    (
                        runs,
                        protocol::error_to(
                            request.id,
                            Some(method),
                            ERROR_MALFORMED_REQUEST@,
                            "approval decision must be grant or deny, got "@ + decision,
                        ),
                    )
                } else {
                    let outcome = if decision == "grant"@ {
                        OutcomeView::Granted
                    } else {
                        OutcomeView::Denied {
                            reason: match json::text_in(json::member_of(params, "reason"@)) {
                                Some(reason) => reason,
                                None => "approval denied by daemon client"@,
                            },
                        }
                    };
                    (
                        with_record(
                            runs,
                            RecordView {
                                approvals: table::with_row(
                                    record.approvals,
                                    call_id,
                                    Some(outcome),
                                ),
                                ..record
                            },
                        ),
                        protocol::response_to(
                            request.id,
                            Some(method),
                            messages::accepted_json(record.run_id, record.status.state),
                        ),
                    )
                },
            }
        },
    }
}

/// What a request to stop a run comes to.
pub open spec fn canceled(runs: Seq<RecordView>, request: EnvelopeView) -> (
    Seq<RecordView>,
    EnvelopeView,
) {
    let method = "run.cancel"@;
    match params_of(
        request,
        method,
        "RunCancelParams"@,
        messages::run_cancel_fields(),
        1,
    ) {
        Err(answer) => (runs, answer),
        Ok(params) => {
            let run_id = messages::text_of(params, "run_id"@);
            match table::lookup(run_rows(runs), run_id) {
                None => (runs, run_missing(request.id, method, run_id)),
                Some(record) => (
                    with_record(
                        runs,
                        RecordView {
                            cancel: true,
                            events: runtime::pushed(
                                record.events,
                                runtime::canceled_event(record.run_id),
                            ),
                            ..record
                        },
                    ),
                    protocol::response_to(
                        request.id,
                        Some(method),
                        messages::accepted_json(record.run_id, RunStateName::CancelRequested),
                    ),
                ),
            }
        },
    }
}

/// What a request to read a transcript comes to.
pub open spec fn transcript_work(request: EnvelopeView) -> WorkView {
    match params_of(
        request,
        "transcript.read"@,
        "TranscriptReadParams"@,
        messages::transcript_read_fields(),
        0,
    ) {
        Err(answer) => WorkView::Answer(answer),
        Ok(params) => match json::text_in(json::member_of(params, "run_id"@)) {
            Some(run_id) => WorkView::ReadRun { id: request.id, run_id },
            None => match json::text_in(json::member_of(params, "session_id"@)) {
                Some(session_id) => WorkView::ReadSession { id: request.id, session_id },
                None => WorkView::Answer(
                    protocol::error_to(
                        request.id,
                        Some("transcript.read"@),
                        ERROR_MALFORMED_REQUEST@,
                        "run_id or session_id is required"@,
                    ),
                ),
            },
        },
    }
}

/// What a request comes to, and the runs after it.
pub open spec fn handled(paths: DaemonPaths, runs: Seq<RecordView>, request: EnvelopeView) -> (
    Seq<RecordView>,
    WorkView,
) {
    match request.method {
        None => (
            runs,
            WorkView::Answer(
                protocol::error_to(
                    request.id,
                    None,
                    ERROR_MALFORMED_REQUEST@,
                    "request method is required"@,
                ),
            ),
        ),
        Some(method) => if method == "hello"@ {
            (runs, hello_work(paths, request))
        } else if method == "run.start"@ {
            (runs, run_start_work(request))
        } else if method == "message.append"@ {
            (runs, message_append_work(request))
        } else if method == "events.stream"@ {
            (runs, WorkView::Answer(events_answer(runs, request)))
        } else if method == "approval.decide"@ {
            let (after, answer) = decided(runs, request);
            (after, WorkView::Answer(answer))
        } else if method == "run.cancel"@ {
            let (after, answer) = canceled(runs, request);
            (after, WorkView::Answer(answer))
        } else if method == "sessions.list"@ {
            (runs, WorkView::ListSessions { id: request.id })
        } else if method == "transcript.read"@ {
            (runs, transcript_work(request))
        } else {
            (
                runs,
                WorkView::Answer(
                    protocol::error_to(
                        request.id,
                        Some(method),
                        ERROR_UNSUPPORTED_METHOD@,
                        "unsupported method: "@ + method,
                    ),
                ),
            )
        },
    }
}

/// What a line comes to, and the runs after it.
pub open spec fn line_handled(paths: DaemonPaths, runs: Seq<RecordView>, line: Seq<char>) -> (
    Seq<RecordView>,
    WorkView,
) {
    match protocol::request_in(line) {
        Ok(request) => handled(paths, runs, request),
        Err(refusal) => (runs, WorkView::Answer(refusal)),
    }
}

/// What a run reports, as its clients see it.
pub open spec fn report_event(event: RunEvent) -> JsonView {
    match event {
        RunEvent::Ledger(record) => runtime::ledger_event(
            harness::record_json(record.seq, record.occurred_at_ms, record.event@),
        ),
        RunEvent::AssistantDelta(delta) => runtime::delta_event(delta@),
    }
}

/// The runs after one of them told its clients of an event.
pub open spec fn published(runs: Seq<RecordView>, run_id: Seq<char>, event: JsonView) -> Seq<
    RecordView,
> {
    match table::lookup(run_rows(runs), run_id) {
        Some(record) => with_record(
            runs,
            RecordView { events: runtime::pushed(record.events, event), ..record },
        ),
        None => runs,
    }
}

/// The runs after one of them ended with an answer or with an error: a run that was to stop is
/// canceled, another that met an error has failed.
pub open spec fn settled(
    runs: Seq<RecordView>,
    run_id: Seq<char>,
    outcome: Result<Seq<char>, Seq<char>>,
) -> Seq<RecordView> {
    match table::lookup(run_rows(runs), run_id) {
        Some(record) => with_record(
            runs,
            RecordView {
                status: match outcome {
                    Ok(answer) => StatusView {
                        state: RunStateName::Finished,
                        final_answer: Some(answer),
                        error: None,
                    },
                    Err(error) => StatusView {
                        state: if record.cancel {
                            RunStateName::Canceled
                        } else {
                            RunStateName::Failed
                        },
                        final_answer: None,
                        error: Some(error),
                    },
                },
                ..record
            },
        ),
        None => runs,
    }
}

/// The answer to a run that was asked for in a session that has one under way.
pub open spec fn session_busy(
    id: Option<Seq<char>>,
    method: Seq<char>,
    session_id: Seq<char>,
    run_id: Seq<char>,
) -> EnvelopeView {
    protocol::error_to(
        id,
        Some(method),
        ERROR_OVERLOAD@,
        "session already has an active run: "@ + session_id + " ("@ + run_id + ")"@,
    )
}

/// A run that took its place, as it is answered.
pub open spec fn started_answer(
    id: Option<Seq<char>>,
    method: Seq<char>,
    record: RecordView,
) -> EnvelopeView {
    protocol::response_to(
        id,
        Some(method),
        messages::started_json(
            messages::StartedView {
                run_id: record.run_id,
                session_id: record.session_id,
                ledger_path: record.ledger_path,
                status: record.status.state,
                final_answer: record.status.final_answer,
            },
        ),
    )
}

/// The first line of a question, cut where it is long.
pub open spec fn question_preview(question: Seq<char>) -> Seq<char> {
    let lines = text::lines_of(question);
    text::clipped(
        if lines.len() > 0 {
            lines[0]
        } else {
            Seq::empty()
        },
        LATEST_QUESTION_MAX_CHARS as nat,
        "..."@,
    )
}

/// The first line of a question, cut where it is long.
pub fn latest_question_preview(question: &str) -> (r: String)
    ensures
        r@ == question_preview(question@),
{
    let lines = text::lines(question);
    proof {
        reveal_strlit("");
        assert(""@ =~= Seq::empty());
        assert(text::views(lines@).len() == lines@.len());
    }
    if lines.len() > 0 {
        text::clip(lines[0].as_str(), LATEST_QUESTION_MAX_CHARS, "...")
    } else {
        text::clip("", LATEST_QUESTION_MAX_CHARS, "...")
    }
}

/// Whether a session has a run under way.
pub open spec fn session_is_active(runs: Seq<RecordView>, session_id: Seq<char>) -> bool {
    active_run(runs, session_id) is Some
}

/// A stored session as it is listed: one that was left running, and has no run under way, was
/// interrupted.
pub open spec fn listed(
    stored: PersistedSessionSummary,
    ledger_path: Seq<char>,
    runs: Seq<RecordView>,
) -> SummaryView {
    SummaryView {
        session_id: stored.session_id@,
        run_id: stored.run_id@,
        status: if stored.status == RunStateName::Running && !session_is_active(
            runs,
            stored.session_id@,
        ) {
            RunStateName::Interrupted
        } else {
            stored.status
        },
        latest_question: question_preview(stored.latest_question@),
        ledger_path,
    }
}

/// The place of a session in a list; the length of the list where it is not there.
pub open spec fn session_place(sessions: Seq<SummaryView>, session_id: Seq<char>) -> int
    decreases sessions.len(),
{
    if sessions.len() == 0 || sessions[0].session_id == session_id {
        0
    } else {
        1 + session_place(sessions.drop_first(), session_id)
    }
}

/// The list after a held run was laid over it: a run that is under way is what its session shows,
/// and a session that is not stored yet comes first.
pub open spec fn overlaid(sessions: Seq<SummaryView>, record: RecordView) -> Seq<SummaryView> {
    if record.status.state != RunStateName::Running {
        sessions
    } else {
        let place = session_place(sessions, record.session_id);
        if place < sessions.len() {
            sessions.update(
                place,
                SummaryView {
                    run_id: record.run_id,
                    status: RunStateName::Running,
                    ledger_path: record.ledger_path,
                    ..sessions[place]
                },
            )
        } else {
            seq![
                SummaryView {
                    session_id: record.session_id,
                    run_id: record.run_id,
                    status: RunStateName::Running,
                    latest_question: ""@,
                    ledger_path: record.ledger_path,
                },
            ] + sessions
        }
    }
}

/// The list after all held runs were laid over it, in their order.
pub open spec fn all_overlaid(sessions: Seq<SummaryView>, runs: Seq<RecordView>) -> Seq<SummaryView>
    decreases runs.len(),
{
    if runs.len() == 0 {
        sessions
    } else {
        overlaid(all_overlaid(sessions, runs.drop_last()), runs.last())
    }
}

/// The sessions of the workspace: those that are stored, with the held runs laid over them.
pub open spec fn summaries(
    paths: DaemonPaths,
    runs: Seq<RecordView>,
    stored: Seq<PersistedSessionSummary>,
) -> Seq<
    SummaryView,
> {
    all_overlaid(
        Seq::new(stored.len(), |i: int| listed(stored[i], paths.ledger_path@, runs)),
        runs,
    )
}

/// The code for an error that reading a transcript met.
pub open spec fn transcript_error_code(error: AppError) -> Seq<char> {
    match error {
        AppError::RunNotFound(_) => ERROR_NOT_FOUND@,
        AppError::SessionNotFound(_) => ERROR_NOT_FOUND@,
        AppError::NoSqliteRuns => ERROR_NOT_FOUND@,
        AppError::NoSqliteSessions => ERROR_NOT_FOUND@,
        _ => ERROR_INTERNAL@,
    }
}

/// The answer to a request to read a transcript.
pub open spec fn transcript_answer(
    id: Option<Seq<char>>,
    read: Result<TranscriptReadResult, AppError>,
) -> EnvelopeView {
    match read {
        Ok(read) => protocol::response_to(
            id,
            Some("transcript.read"@),
            transcript::read_json(read@),
        ),
        Err(error) => protocol::error_to(
            id,
            Some("transcript.read"@),
            transcript_error_code(error),
            error::app_message(error),
        ),
    }
}

/// Answers a request to read a transcript: what is not there is told from what could not be read.
pub fn answer_transcript(id: Option<String>, read: Result<TranscriptReadResult, AppError>) -> (r:
    Envelope)
    ensures
        r@ == transcript_answer(text::opt_view(id), read),
{
    match read {
        Ok(read) => Envelope::response(id, Some("transcript.read".to_owned()), read.to_json()),
        Err(error) => {
            let code = match &error {
                AppError::RunNotFound(_) => ERROR_NOT_FOUND,
                AppError::SessionNotFound(_) => ERROR_NOT_FOUND,
                AppError::NoSqliteRuns => ERROR_NOT_FOUND,
                AppError::NoSqliteSessions => ERROR_NOT_FOUND,
                _ => ERROR_INTERNAL,
            };
            Envelope::error(id, Some("transcript.read".to_owned()), code, error.message())
        },
    }
}

/// The answer to a run that was asked for in the latest session, where there is none.
pub open spec fn no_session_answer(
    id: Option<Seq<char>>,
    method: Seq<char>,
    error: AppError,
) -> EnvelopeView {
    protocol::error_to(
        id,
        Some(method),
        ERROR_NOT_FOUND@,
        match error {
            AppError::NoSqliteSessions => "no previous session exists"@,
            AppError::NoSqliteRuns => "no previous session exists"@,
            _ => error::app_message(error),
        },
    )
}

/// Answers a run that was asked for in the latest session, where there is none.
pub fn answer_no_session(id: Option<String>, method: &str, error: AppError) -> (r: Envelope)
    ensures
        r@ == no_session_answer(text::opt_view(id), method@, error),
{
    let message = match &error {
        AppError::NoSqliteSessions => "no previous session exists".to_owned(),
        AppError::NoSqliteRuns => "no previous session exists".to_owned(),
        _ => error.message(),
    };
    Envelope::error(id, Some(method.to_owned()), ERROR_NOT_FOUND, message)
}

/// Answers a run that failed while its client waited for it.
pub fn answer_failed_run(id: Option<String>, method: &str, error: &AppError) -> (r: Envelope)
    ensures
        r@ == protocol::error_to(
            text::opt_view(id),
            Some(method@),
            ERROR_RUN_FAILED@,
            error::app_message(*error),
        ),
{
    Envelope::error(id, Some(method.to_owned()), ERROR_RUN_FAILED, error.message())
}

/// Answers a run that took its place.
pub fn run_start_response(id: Option<String>, method: &str, record: &RunRecord) -> (r: Envelope)
    ensures
        r@ == started_answer(text::opt_view(id), method@, record@),
{
    let status = record.status();
    let result = RunStartResult {
        run_id: record.run_id.clone(),
        session_id: record.session_id.clone(),
        ledger_path: record.ledger_path.clone(),
        status: status.state,
        final_answer: status.final_answer,
    };
    Envelope::response(id, Some(method.to_owned()), result.to_json())
}

/// What a resolved directory stands for.
pub open spec fn resolved_view(resolved: Result<String, String>) -> Result<Seq<char>, Seq<char>> {
    match resolved {
        Ok(root) => Ok(root@),
        Err(detail) => Err(detail@),
    }
}

fn capabilities() -> (r: Vec<String>)
    ensures
        text::views(r@) == capability_names(),
{
    let r = vec![
        "hello".to_owned(),
        "run.start".to_owned(),
        "message.append".to_owned(),
        "events.stream".to_owned(),
        "approval.decide".to_owned(),
        "run.cancel".to_owned(),
        "sessions.list".to_owned(),
        "transcript.read".to_owned(),
        "transcript.read.typed".to_owned(),
    ];
    assert(text::views(r@) =~= capability_names());
    r
}

proof fn lemma_active_run_step(runs: Seq<RecordView>, session_id: Seq<char>, i: int)
    requires
        0 <= i < runs.len(),
    ensures
        active_run(runs.skip(i), session_id) == if runs_in_session(runs[i], session_id) {
            Some(runs[i].run_id)
        } else {
            active_run(runs.skip(i + 1), session_id)
        },
{
    assert(runs.skip(i)[0] == runs[i]);
    assert(runs.skip(i).drop_first() =~= runs.skip(i + 1));
}

proof fn lemma_no_active_run(runs: Seq<RecordView>, session_id: Seq<char>)
    ensures
        active_run(runs, session_id) is None <==> (forall|i: int|
            0 <= i < runs.len() ==> !runs_in_session(#[trigger] runs[i], session_id)),
    decreases runs.len(),
{
    if runs.len() > 0 {
        let rest = runs.drop_first();
        lemma_no_active_run(rest, session_id);
        if runs_in_session(runs[0], session_id) {
            assert(active_run(runs, session_id) is Some);
        } else {
            if active_run(rest, session_id) is None {
                assert forall|i: int| 0 <= i < runs.len() implies !runs_in_session(
                    #[trigger] runs[i],
                    session_id,
                ) by {
                    if i > 0 {
                        assert(rest[i - 1] == runs[i]);
                    }
                }
            } else {
                let i = choose|i: int|
                    0 <= i < rest.len() && runs_in_session(#[trigger] rest[i], session_id);
                assert(runs[i + 1] == rest[i]);
            }
        }
    }
}

proof fn lemma_session_place(sessions: Seq<SummaryView>, session_id: Seq<char>, at: int)
    requires
        0 <= at <= sessions.len(),
        forall|j: int| 0 <= j < at ==> (#[trigger] sessions[j]).session_id != session_id,
        at < sessions.len() ==> sessions[at].session_id == session_id,
    ensures
        session_place(sessions, session_id) == at,
    decreases at,
{
    if at > 0 {
        assert(sessions[0].session_id != session_id);
        let rest = sessions.drop_first();
        assert forall|j: int| 0 <= j < at - 1 implies (#[trigger] rest[j]).session_id
            != session_id by {
            assert(rest[j] == sessions[j + 1]);
        }
        assert(at < sessions.len() ==> rest[at - 1] == sessions[at]);
        lemma_session_place(rest, session_id, at - 1);
    }
}

/// A held run takes the place of the run of its name: the runs stay sound, where the new one is, and
/// its session and state are those of the old one.
proof fn lemma_with_record(runs: Seq<RecordView>, at: int, record: RecordView)
    requires
        runs_ok(runs),
        0 <= at < runs.len(),
        runtime::record_ok(record),
        record.run_id == runs[at].run_id,
        record.session_id == runs[at].session_id,
        record.status.state == runs[at].status.state || record.status.state
            != RunStateName::Running,
    ensures
        runs_ok(runs.update(at, record)),
{
    let after = runs.update(at, record);
    assert(forall|i: int|
        0 <= i < after.len() ==> (#[trigger] run_rows(after)[i]).0 == run_rows(runs)[i].0);
    assert forall|i: int, j: int| 0 <= i < j < after.len() implies !(runs_in_session(
        #[trigger] after[i],
        after[i].session_id,
    ) && runs_in_session(#[trigger] after[j], after[i].session_id)) by {
        assert(!(runs_in_session(runs[i], runs[i].session_id) && runs_in_session(
            runs[j],
            runs[i].session_id,
        )));
    }
}

impl DaemonRuntime {
    /// Whether the held runs are as the daemon leaves them.
    pub open spec fn wf(&self) -> bool {
        runs_ok(record_views(self.runs@))
    }

    /// Whether every held run can take one more event.
    pub open spec fn has_room(&self) -> bool {
        forall|i: int| 0 <= i < self.runs@.len() ==> (#[trigger] self.runs@[i]).events.next_offset
            < u64::MAX
    }

    /// A daemon without runs.
    pub fn new(paths: DaemonPaths) -> (r: DaemonRuntime)
        ensures
            r.wf(),
            r.has_room(),
            r.paths == paths,
            record_views(r.runs@) == Seq::<RecordView>::empty(),
    {
        let r = DaemonRuntime { paths, runs: Vec::new() };
        assert(record_views(r.runs@) =~= Seq::<RecordView>::empty());
        r
    }

    /// The place of a run; the number of runs where it is not held.
    pub fn run_index(&self, run_id: &str) -> (r: usize)
        ensures
            r == table::position(run_rows(record_views(self.runs@)), run_id@),
            r <= self.runs@.len(),
    {
        let ghost rows = run_rows(record_views(self.runs@));
        let mut i: usize = 0;
        while i < self.runs.len()
            invariant
                0 <= i <= self.runs@.len(),
                rows == run_rows(record_views(self.runs@)),
                forall|j: int| 0 <= j < i ==> (#[trigger] rows[j]).0 != run_id@,
            decreases self.runs@.len() - i,
        {
            if text::same_text(self.runs[i].run_id.as_str(), run_id) {
                proof {
                    table::lemma_position(rows, run_id@, i as int);
                }
                return i;
            }
            i += 1;
        }
        proof {
            table::lemma_position(rows, run_id@, i as int);
        }
        i
    }

    fn active_run_id(&self, session_id: &str) -> (r: Option<String>)
        ensures
            text::opt_view(r) == active_run(record_views(self.runs@), session_id@),
    {
        let ghost runs = record_views(self.runs@);
        assert(runs.skip(0) =~= runs);
        let mut i: usize = 0;
        while i < self.runs.len()
            invariant
                0 <= i <= self.runs@.len(),
                runs == record_views(self.runs@),
                active_run(runs, session_id@) == active_run(runs.skip(i as int), session_id@),
            decreases self.runs@.len() - i,
        {
            proof {
                lemma_active_run_step(runs, session_id@, i as int);
            }
            if text::same_text(self.runs[i].session_id.as_str(), session_id)
                && self.runs[i].status.state == RunStateName::Running {
                return Some(self.runs[i].run_id.clone());
            }
            i += 1;
        }
        None
    }

    /// Takes the place of a new run in a session, unless the session has a run under way: then that
    /// is the answer.
    pub fn reserve_run(
        &mut self,
        id: Option<String>,
        method: &str,
        session_id: &str,
        run_id: &str,
    ) -> (r: Option<Envelope>)
        requires
            old(self).wf(),
            old(self).has_room(),
            table::lookup(run_rows(record_views(old(self).runs@)), run_id@) is None,
        ensures
            final(self).wf(),
            final(self).has_room(),
            final(self).paths == old(self).paths,
            match active_run(record_views(old(self).runs@), session_id@) {
                Some(active) => (r matches Some(answer) && answer@ == session_busy(
                    text::opt_view(id),
                    method@,
                    session_id@,
                    active,
                )) && record_views(final(self).runs@) == record_views(old(self).runs@),
                None => r is None && record_views(final(self).runs@) == record_views(
                    old(self).runs@,
                ).push(
                    runtime::fresh_record(run_id@, session_id@, old(self).paths.ledger_path@),
                ),
            },
    {
        let ghost runs = record_views(self.runs@);
        if let Some(active) = self.active_run_id(session_id) {
            let mut message = text::text3("session already has an active run: ", session_id, " (");
            message.append(active.as_str());
            message.append(")");
            return Some(Envelope::error(id, Some(method.to_owned()), ERROR_OVERLOAD, message));
        }
        let record = RunRecord::new(
            run_id.to_owned(),
            session_id.to_owned(),
            self.paths.ledger_path.clone(),
        );
        let ghost added = record@;
        self.runs.push(record);
        proof {
            let after = runs.push(added);
            assert(record_views(self.runs@) =~= after);
            lemma_no_active_run(runs, session_id@);
            table::lemma_position_bounds(run_rows(runs), run_id@);
            assert(forall|i: int| 0 <= i < runs.len() ==> (#[trigger] run_rows(after)[i]).0
                == run_rows(runs)[i].0);
            assert forall|i: int, j: int| 0 <= i < j < after.len() implies !(runs_in_session(
                #[trigger] after[i],
                after[i].session_id,
            ) && runs_in_session(#[trigger] after[j], after[i].session_id)) by {
                if j < runs.len() {
                    assert(!(runs_in_session(runs[i], runs[i].session_id) && runs_in_session(
                        runs[j],
                        runs[i].session_id,
                    )));
                } else {
                    assert(after[i] == runs[i]);
                    assert(!runs_in_session(runs[i], session_id@));
                }
            }
        }
        None
    }

    /// Whether every held run can take one more event.
    pub fn can_take_events(&self) -> (r: bool)
        ensures
            r == self.has_room(),
    {
        let mut i: usize = 0;
        while i < self.runs.len()
            invariant
                0 <= i <= self.runs@.len(),
                forall|j: int| 0 <= j < i ==> (#[trigger] self.runs@[j]).events.next_offset
                    < u64::MAX,
            decreases self.runs@.len() - i,
        {
            if self.runs[i].events.next_offset == u64::MAX {
                return false;
            }
            i += 1;
        }
        true
    }

    /// Tells the clients of a run what it reports; a run that is not held reports to nobody.
    pub fn publish(&mut self, run_id: &str, event: RunEvent)
        requires
            old(self).wf(),
            old(self).has_room(),
        ensures
            final(self).wf(),
            final(self).paths == old(self).paths,
            record_views(final(self).runs@) == published(
                record_views(old(self).runs@),
                run_id@,
                report_event(event),
            ),
    {
        let ghost runs = record_views(self.runs@);
        let index = self.run_index(run_id);
        if index < self.runs.len() {
            proof {
                table::lemma_position_bounds(run_rows(runs), run_id@);
                assert(runs[index as int] == self.runs@[index as int]@);
                assert(runtime::record_ok(runs[index as int]));
            }
            match event {
                RunEvent::Ledger(record) => self.runs[index].push_recorded_event(&record),
                RunEvent::AssistantDelta(delta) => self.runs[index].push_assistant_delta(&delta),
            }
            proof {
                let record = self.runs@[index as int]@;
                assert(record_views(self.runs@) =~= runs.update(index as int, record));
                lemma_with_record(runs, index as int, record);
            }
        }
    }

    /// Notes how a run ended; a run that is not held ends unnoticed.
    pub fn settle_run(&mut self, run_id: &str, outcome: Result<String, String>)
        requires
            old(self).wf(),
            old(self).has_room(),
        ensures
            final(self).wf(),
            final(self).has_room(),
            final(self).paths == old(self).paths,
            record_views(final(self).runs@) == settled(
                record_views(old(self).runs@),
                run_id@,
                resolved_view(outcome),
            ),
    {
        let ghost runs = record_views(self.runs@);
        let ghost before = self.runs@;
        let index = self.run_index(run_id);
        if index < self.runs.len() {
            proof {
                table::lemma_position_bounds(run_rows(runs), run_id@);
                assert(runs[index as int] == self.runs@[index as int]@);
                assert(runtime::record_ok(runs[index as int]));
            }
            match outcome {
                Ok(answer) => self.runs[index].set_finished(answer),
                Err(error) => self.runs[index].set_failed(error),
            }
            proof {
                let record = self.runs@[index as int]@;
                assert(record_views(self.runs@) =~= runs.update(index as int, record));
                lemma_with_record(runs, index as int, record);
                assert(record.events == runs[index as int].events);
                assert forall|i: int| 0 <= i < self.runs@.len() implies (
                #[trigger] self.runs@[i]).events.next_offset < u64::MAX by {
                    assert(before[i].events.next_offset < u64::MAX);
                    assert(self.runs@[i]@.events.next_offset == before[i]@.events.next_offset);
                }
            }
        }
    }

    /// What a line comes to.
    pub fn handle_line(&mut self, line: &str) -> (r: Work)
        requires
            old(self).wf(),
            old(self).has_room(),
        ensures
            final(self).wf(),
            final(self).paths == old(self).paths,
            (record_views(final(self).runs@), r@) == line_handled(
                old(self).paths,
                record_views(old(self).runs@),
                line@,
            ),
    {
        match decode_request(line) {
            Ok(request) => self.handle_request(request),
            Err(refusal) => Work::Answer(refusal),
        }
    }

    /// What a request comes to.
    pub fn handle_request(&mut self, request: Envelope) -> (r: Work)
        requires
            old(self).wf(),
            old(self).has_room(),
        ensures
            final(self).wf(),
            final(self).paths == old(self).paths,
            (record_views(final(self).runs@), r@) == handled(
                old(self).paths,
                record_views(old(self).runs@),
                request@,
            ),
    {
        let method = match &request.method {
            Some(method) => method.clone(),
            None => {
                return Work::Answer(
                    Envelope::error(
                        request.id,
                        None,
                        ERROR_MALFORMED_REQUEST,
                        "request method is required".to_owned(),
                    ),
                );
            },
        };
        let name = method.as_str();
        if text::same_text(name, "hello") {
            self.handle_hello(request)
        } else if text::same_text(name, "run.start") {
            handle_run_start(request)
        } else if text::same_text(name, "message.append") {
            handle_message_append(request)
        } else if text::same_text(name, "events.stream") {
            Work::Answer(self.handle_events_stream(request))
        } else if text::same_text(name, "approval.decide") {
            Work::Answer(self.handle_approval_decide(request))
        } else if text::same_text(name, "run.cancel") {
            Work::Answer(self.handle_run_cancel(request))
        } else if text::same_text(name, "sessions.list") {
            Work::ListSessions { id: request.id }
        } else if text::same_text(name, "transcript.read") {
            handle_transcript_read(request)
        } else {
            let message = text::text2("unsupported method: ", name);
            Work::Answer(
                Envelope::error(request.id, Some(method), ERROR_UNSUPPORTED_METHOD, message),
            )
        }
    }

    fn handle_hello(&self, request: Envelope) -> (r: Work)
        ensures
            r@ == hello_work(self.paths, request@),
    {
        let params = match &request.params {
            Some(params) => match HelloParams::decode(params) {
                Ok(params) => params,
                Err(message) => {
                    return Work::Answer(params_invalid(request.id, "hello", message));
                },
            },
            None => {
                return Work::Answer(params_required(request.id, "hello"));
            },
        };
        if !text::same_text(params.workspace_id.as_str(), self.paths.workspace_id.as_str()) {
            let message = text::text4(
                "workspace_id mismatch: expected ",
                self.paths.workspace_id.as_str(),
                ", got ",
                params.workspace_id.as_str(),
            );
            return Work::Answer(
                Envelope::error(
                    request.id,
                    Some("hello".to_owned()),
                    ERROR_WORKSPACE_MISMATCH,
                    message,
                ),
            );
        }
        Work::Greet { id: request.id, workspace_root: params.workspace_root }
    }

    /// Answers a greeting once its directory was resolved, or could not be.
    pub fn answer_hello(&self, id: Option<String>, resolved: Result<String, String>) -> (r: Envelope)
        ensures
            r@ == hello_answer(self.paths, text::opt_view(id), resolved_view(resolved)),
    {
        let method = Some("hello".to_owned());
        match resolved {
            Err(detail) => Envelope::error(
                id,
                method,
                ERROR_WORKSPACE_MISMATCH,
                text::text2("workspace_root cannot be resolved: ", detail.as_str()),
            ),
            Ok(root) => if !text::same_text(root.as_str(), self.paths.workspace_root.as_str()) {
                let message = text::text4(
                    "workspace_root mismatch: expected ",
                    self.paths.workspace_root.as_str(),
                    ", got ",
                    root.as_str(),
                );
                Envelope::error(id, method, ERROR_WORKSPACE_MISMATCH, message)
            } else {
                let hello = HelloResult {
                    daemon_version: DAEMON_VERSION.to_owned(),
                    workspace_id: self.paths.workspace_id.clone(),
                    ledger_path: self.paths.ledger_path.clone(),
                    capabilities: capabilities(),
                };
                Envelope::response(id, method, hello.to_json())
            },
        }
    }

    fn handle_events_stream(&self, request: Envelope) -> (r: Envelope)
        requires
            self.wf(),
        ensures
            r@ == events_answer(record_views(self.runs@), request@),
    {
        let params = match &request.params {
            Some(params) => match EventsStreamParams::decode(params) {
                Ok(params) => params,
                Err(message) => {
                    return params_invalid(request.id, "events.stream", message);
                },
            },
            None => {
                return params_required(request.id, "events.stream");
            },
        };
        let ghost runs = record_views(self.runs@);
        let index = self.run_index(params.run_id.as_str());
        if index >= self.runs.len() {
            return run_not_found(request.id, "events.stream", params.run_id.as_str());
        }
        let record = &self.runs[index];
        proof {
            table::lemma_position_bounds(run_rows(runs), params.run_id@);
            assert(runs[index as int] == record@);
            assert(runtime::record_ok(runs[index as int]));
        }
        let limit: u64 = match params.limit {
            Some(limit) => limit,
            None => DEFAULT_EVENT_LIMIT,
        };
        if limit > MAX_EVENT_LIMIT {
            let message = text::text4(
                "event stream limit exceeds maximum ",
                text::decimal_u64(MAX_EVENT_LIMIT).as_str(),
                ": ",
                text::decimal_u64(limit).as_str(),
            );
            return Envelope::error(
                request.id,
                Some("events.stream".to_owned()),
                ERROR_OVERLOAD,
                message,
            );
        }
        let from: u64 = match params.from_offset {
            Some(offset) => offset,
            None => record.events.next_offset,
        };
        if from < record.events.first_offset {
            let message = text::text4(
                "requested offset ",
                text::decimal_u64(from).as_str(),
                " is no longer buffered; first available is ",
                text::decimal_u64(record.events.first_offset).as_str(),
            );
            return Envelope::error(
                request.id,
                Some("events.stream".to_owned()),
                ERROR_LAGGED,
                message,
            );
        }
        let ahead: u64 = from - record.events.first_offset;
        let start: usize = if ahead > record.events.events.len() as u64 {
            record.events.events.len()
        } else {
            ahead as usize
        };
        let events = record.events.page(start, limit as usize);
        assert(json::json_views(events@) == runtime::page_of(
            record@.events.events,
            ahead as nat,
            limit as nat,
        ));
        assert(json::json_views(events@).len() == events@.len());
        let next: u64 = from + events.len() as u64;
        let result = EventsStreamResult {
            run_id: record.run_id.clone(),
            from_offset: from,
            next_offset: next,
            status: record.status.state,
            events,
        };
        Envelope::response(request.id, Some("events.stream".to_owned()), result.to_json())
    }

    fn handle_approval_decide(&mut self, request: Envelope) -> (r: Envelope)
        requires
            old(self).wf(),
        ensures
            final(self).wf(),
            final(self).paths == old(self).paths,
            (record_views(final(self).runs@), r@) == decided(
                record_views(old(self).runs@),
                request@,
            ),
    {
        let params = match &request.params {
            Some(params) => match ApprovalDecideParams::decode(params) {
                Ok(params) => params,
                Err(message) => {
                    return params_invalid(request.id, "approval.decide", message);
                },
            },
            None => {
                return params_required(request.id, "approval.decide");
            },
        };
        let ghost runs = record_views(self.runs@);
        let index = self.run_index(params.run_id.as_str());
        if index >= self.runs.len() {
            return run_not_found(request.id, "approval.decide", params.run_id.as_str());
        }
        proof {
            table::lemma_position_bounds(run_rows(runs), params.run_id@);
            assert(runs[index as int] == self.runs@[index as int]@);
            assert(runtime::record_ok(runs[index as int]));
        }
        if !self.runs[index].awaits(params.tool_call_id.as_str()) {
            let message = text::text2(
                "pending approval not found: ",
                params.tool_call_id.as_str(),
            );
            return Envelope::error(
                request.id,
                Some("approval.decide".to_owned()),
                ERROR_NOT_FOUND,
                message,
            );
        }
        let outcome = if text::same_text(params.decision.as_str(), "grant") {
            ApprovalOutcome::Granted
        } else if text::same_text(params.decision.as_str(), "deny") {
            ApprovalOutcome::Denied {
                reason: match params.reason {
                    Some(reason) => reason,
                    None => "approval denied by daemon client".to_owned(),
                },
            }
        } else {
            let message = text::text2(
                "approval decision must be grant or deny, got ",
                params.decision.as_str(),
            );
            return Envelope::error(
                request.id,
                Some("approval.decide".to_owned()),
                ERROR_MALFORMED_REQUEST,
                message,
            );
        };
        let result = CommandAcceptedResult {
            run_id: self.runs[index].run_id.clone(),
            status: self.runs[index].status.state,
        };
        let _taken = self.runs[index].decide_approval(params.tool_call_id.as_str(), outcome);
        proof {
            let record = self.runs@[index as int]@;
            assert(record_views(self.runs@) =~= runs.update(index as int, record));
            lemma_with_record(runs, index as int, record);
        }
        Envelope::response(request.id, Some("approval.decide".to_owned()), result.to_json())
    }

    fn handle_run_cancel(&mut self, request: Envelope) -> (r: Envelope)
        requires
            old(self).wf(),
            old(self).has_room(),
        ensures
            final(self).wf(),
            final(self).paths == old(self).paths,
            (record_views(final(self).runs@), r@) == canceled(
                record_views(old(self).runs@),
                request@,
            ),
    {
        let params = match &request.params {
            Some(params) => match RunCancelParams::decode(params) {
                Ok(params) => params,
                Err(message) => {
                    return params_invalid(request.id, "run.cancel", message);
                },
            },
            None => {
                return params_required(request.id, "run.cancel");
            },
        };
        let ghost runs = record_views(self.runs@);
        let index = self.run_index(params.run_id.as_str());
        if index >= self.runs.len() {
            return run_not_found(request.id, "run.cancel", params.run_id.as_str());
        }
        proof {
            table::lemma_position_bounds(run_rows(runs), params.run_id@);
            assert(runs[index as int] == self.runs@[index as int]@);
            assert(runtime::record_ok(runs[index as int]));
        }
        let result = CommandAcceptedResult {
            run_id: self.runs[index].run_id.clone(),
            status: RunStateName::CancelRequested,
        };
        self.runs[index].request_cancel();
        proof {
            let record = self.runs@[index as int]@;
            assert(record_views(self.runs@) =~= runs.update(index as int, record));
            lemma_with_record(runs, index as int, record);
        }
        Envelope::response(request.id, Some("run.cancel".to_owned()), result.to_json())
    }

    /// The sessions of the workspace: those that are stored, with the held runs laid over them.
    pub fn session_summaries(&self, stored: &Vec<PersistedSessionSummary>) -> (r: Vec<SessionSummary>)
        ensures
            messages::summary_views(r@) == summaries(
                self.paths,
                record_views(self.runs@),
                stored@,
            ),
    {
        let ghost runs = record_views(self.runs@);
        let mut sessions: Vec<SessionSummary> = Vec::new();
        for i in 0..stored.len()
            invariant
                runs == record_views(self.runs@),
                sessions@.len() == i,
                forall|j: int|
                    0 <= j < i ==> (#[trigger] sessions@[j])@ == listed(
                        stored@[j],
                        self.paths.ledger_path@,
                        runs,
                    ),
        {
            let row = &stored[i];
            let left_running = row.status == RunStateName::Running && self.active_run_id(
                row.session_id.as_str(),
            ).is_none();
            sessions.push(
                SessionSummary {
                    session_id: row.session_id.clone(),
                    run_id: row.run_id.clone(),
                    status: if left_running {
                        RunStateName::Interrupted
                    } else {
                        row.status
                    },
                    latest_question: latest_question_preview(row.latest_question.as_str()),
                    ledger_path: self.paths.ledger_path.clone(),
                },
            );
        }
        let ghost base = Seq::new(
            stored@.len(),
            |i: int| listed(stored@[i], self.paths.ledger_path@, runs),
        );
        assert(messages::summary_views(sessions@) =~= base);
        assert(runs.take(0) =~= Seq::empty());
        for i in 0..self.runs.len()
            invariant
                runs == record_views(self.runs@),
                messages::summary_views(sessions@) == all_overlaid(base, runs.take(i as int)),
        {
            proof {
                assert(runs.take(i + 1).drop_last() =~= runs.take(i as int));
                assert(runs.take(i + 1).last() == runs[i as int]);
            }
            overlay(&mut sessions, &self.runs[i]);
        }
        assert(runs.take(runs.len() as int) =~= runs);
        sessions
    }

    /// Answers a request for the sessions of the workspace.
    pub fn answer_sessions(
        &self,
        id: Option<String>,
        stored: Result<Vec<PersistedSessionSummary>, AppError>,
    ) -> (r: Envelope)
        ensures
            r@ == match stored {
                Ok(stored) => protocol::response_to(
                    text::opt_view(id),
                    Some("sessions.list"@),
                    messages::sessions_json(
                        summaries(self.paths, record_views(self.runs@), stored@),
                    ),
                ),
                Err(error) => protocol::error_to(
                    text::opt_view(id),
                    Some("sessions.list"@),
                    ERROR_SESSIONS_LIST_FAILED@,
                    error::app_message(error),
                ),
            },
    {
        match stored {
            Ok(stored) => {
                let sessions = self.session_summaries(&stored);
                let result = SessionsListResult { sessions };
                Envelope::response(id, Some("sessions.list".to_owned()), result.to_json())
            },
            Err(error) => Envelope::error(
                id,
                Some("sessions.list".to_owned()),
                ERROR_SESSIONS_LIST_FAILED,
                error.message(),
            ),
        }
    }
}

fn overlay(sessions: &mut Vec<SessionSummary>, record: &RunRecord)
    ensures
        messages::summary_views(final(sessions)@) == overlaid(
            messages::summary_views(old(sessions)@),
            record@,
        ),
{
    if record.status.state != RunStateName::Running {
        return;
    }
    let ghost before = messages::summary_views(sessions@);
    let mut i: usize = 0;
    while i < sessions.len()
        invariant
            0 <= i <= sessions@.len(),
            sessions@ == old(sessions)@,
            before == messages::summary_views(sessions@),
            record.status.state == RunStateName::Running,
            forall|j: int| 0 <= j < i ==> (#[trigger] before[j]).session_id != record.session_id@,
        decreases sessions@.len() - i,
    {
        if text::same_text(sessions[i].session_id.as_str(), record.session_id.as_str()) {
            proof {
                lemma_session_place(before, record.session_id@, i as int);
            }
            let merged = SessionSummary {
                session_id: sessions[i].session_id.clone(),
                run_id: record.run_id.clone(),
                status: RunStateName::Running,
                latest_question: sessions[i].latest_question.clone(),
                ledger_path: record.ledger_path.clone(),
            };
            sessions.set(i, merged);
            assert(messages::summary_views(sessions@) =~= overlaid(before, record@));
            return;
        }
        i += 1;
    }
    proof {
        lemma_session_place(before, record.session_id@, i as int);
    }
    let first = SessionSummary {
        session_id: record.session_id.clone(),
        run_id: record.run_id.clone(),
        status: RunStateName::Running,
        latest_question: "".to_owned(),
        ledger_path: record.ledger_path.clone(),
    };
    sessions.insert(0, first);
    assert(messages::summary_views(sessions@) =~= overlaid(before, record@));
}

fn handle_run_start(request: Envelope) -> (r: Work)
    ensures
        r@ == run_start_work(request@),
{
    let params = match &request.params {
        Some(params) => match RunStartParams::decode(params) {
            Ok(params) => params,
            Err(message) => {
                return Work::Answer(params_invalid(request.id, "run.start", message));
            },
        },
        None => {
            return Work::Answer(params_required(request.id, "run.start"));
        },
    };
    Work::Start(
        RunOrder {
            id: request.id,
            method: "run.start",
            question: params.question,
            target: RunTarget::NewSession,
            config_path: params.config_path,
            wait: match params.wait {
                Some(wait) => wait,
                None => false,
            },
        },
    )
}

fn handle_message_append(request: Envelope) -> (r: Work)
    ensures
        r@ == message_append_work(request@),
{
    let params = match &request.params {
        Some(params) => match MessageAppendParams::decode(params) {
            Ok(params) => params,
            Err(message) => {
                return Work::Answer(params_invalid(request.id, "message.append", message));
            },
        },
        None => {
            return Work::Answer(params_required(request.id, "message.append"));
        },
    };
    Work::Start(
        RunOrder {
            id: request.id,
            method: "message.append",
            question: params.message,
            target: match params.session_id {
                Some(session_id) => RunTarget::Session(session_id),
                None => RunTarget::LatestSession,
            },
            config_path: params.config_path,
            wait: match params.wait {
                Some(wait) => wait,
                None => false,
            },
        },
    )
}

fn handle_transcript_read(request: Envelope) -> (r: Work)
    ensures
        r@ == transcript_work(request@),
{
    let params = match &request.params {
        Some(params) => match TranscriptReadParams::decode(params) {
            Ok(params) => params,
            Err(message) => {
                return Work::Answer(params_invalid(request.id, "transcript.read", message));
            },
        },
        None => {
            return Work::Answer(params_required(request.id, "transcript.read"));
        },
    };
    match params.run_id {
        Some(run_id) => Work::ReadRun { id: request.id, run_id },
        None => match params.session_id {
            Some(session_id) => Work::ReadSession { id: request.id, session_id },
            None => Work::Answer(
                Envelope::error(
                    request.id,
                    Some("transcript.read".to_owned()),
                    ERROR_MALFORMED_REQUEST,
                    "run_id or session_id is required".to_owned(),
                ),
            ),
        },
    }
}

/// A request is answered under its own id, and under its own method where it has one.
pub proof fn law_answers_carry_their_request(
    paths: DaemonPaths,
    runs: Seq<RecordView>,
    request: EnvelopeView,
)
    ensures
        match handled(paths, runs, request).1 {
            WorkView::Answer(answer) => answer.id == request.id && answer.method == request.method
                && answer.params is None && (answer.result is Some <==> answer.error is None)
                && answer.v == 1,
            WorkView::Greet { id, .. } => id == request.id && request.method == Some("hello"@),
            WorkView::Start(order) => order.id == request.id && request.method == Some(
                order.method,
            ) && (order.method == "run.start"@ || order.method == "message.append"@),
            WorkView::ListSessions { id } => id == request.id && request.method == Some(
                "sessions.list"@,
            ),
            WorkView::ReadRun { id, .. } => id == request.id && request.method == Some(
                "transcript.read"@,
            ),
            WorkView::ReadSession { id, .. } => id == request.id && request.method == Some(
                "transcript.read"@,
            ),
        },
{
}

/// Only a decision on an approval and a cancellation change the runs that the daemon holds; a method
/// that the daemon does not have is refused by name.
pub proof fn law_other_requests_change_nothing(
    paths: DaemonPaths,
    runs: Seq<RecordView>,
    request: EnvelopeView,
)
    ensures
        request.method != Some("approval.decide"@) && request.method != Some("run.cancel"@)
            ==> handled(paths, runs, request).0 == runs,
        request.method is Some && !capability_names().contains(request.method->Some_0) ==> handled(
            paths,
            runs,
            request,
        ) == (
            runs,
            WorkView::Answer(
                protocol::error_to(
                    request.id,
                    request.method,
                    "unsupported_method"@,
                    "unsupported method: "@ + request.method->Some_0,
                ),
            ),
        ),
{
    let names = capability_names();
    assert(names[0] == "hello"@ && names[1] == "run.start"@ && names[2] == "message.append"@
        && names[3] == "events.stream"@ && names[4] == "approval.decide"@ && names[5]
        == "run.cancel"@ && names[6] == "sessions.list"@ && names[7] == "transcript.read"@);
}

/// A client is greeted only where it speaks of this workspace: by its name, and by a root that resolves
/// to that of the daemon.
pub proof fn law_only_this_workspace_is_greeted(
    paths: DaemonPaths,
    request: EnvelopeView,
    id: Option<Seq<char>>,
    resolved: Result<Seq<char>, Seq<char>>,
)
    ensures
        hello_work(paths, request) is Greet ==> (request.params matches Some(params) && (
        params is Object ==> messages::text_of(params, "workspace_id"@) == paths.workspace_id@)),
        hello_answer(paths, id, resolved).error is None <==> resolved == Ok::<Seq<char>, Seq<char>>(
            paths.workspace_root@,
        ),
        hello_answer(paths, id, resolved).error matches Some(error) ==> error.0
            == "workspace_mismatch"@,
{
}

/// A run that is started is asked what the request asks, in a new session; one that is appended in the
/// session that is named, or else in the latest. It is waited for only where the request says so.
pub proof fn law_orders_follow_the_request(request: EnvelopeView, params: JsonView)
    requires
        request.params == Some(params),
        params is Object,
    ensures
        run_start_work(request) matches WorkView::Start(order) ==> {
            &&& order.question == messages::text_of(params, "question"@)
            &&& order.target is NewSession
            &&& order.config_path == json::text_in(json::member_of(params, "config_path"@))
            &&& order.wait <==> json::flag_in(json::member_of(params, "wait"@)) == Some(true)
        },
        message_append_work(request) matches WorkView::Start(order) ==> {
            &&& order.question == messages::text_of(params, "message"@)
            &&& json::text_in(json::member_of(params, "session_id"@)) matches Some(session_id)
                ==> order.target == TargetView::Session(session_id)
            &&& json::text_in(json::member_of(params, "session_id"@)) is None
                ==> order.target is LatestSession
            &&& order.config_path == json::text_in(json::member_of(params, "config_path"@))
            &&& order.wait <==> json::flag_in(json::member_of(params, "wait"@)) == Some(true)
        },
        transcript_work(request) matches WorkView::ReadRun { run_id, .. } ==> json::text_in(
            json::member_of(params, "run_id"@),
        ) == Some(run_id),
        transcript_work(request) matches WorkView::ReadSession { session_id, .. } ==> json::text_in(
            json::member_of(params, "run_id"@),
        ) is None && json::text_in(json::member_of(params, "session_id"@)) == Some(session_id),
{
}

/// A request without parameters, or with others than it should have, is answered as malformed, and
/// starts nothing.
pub proof fn law_malformed_requests_are_refused(
    request: EnvelopeView,
    method: Seq<char>,
    title: Seq<char>,
    fields: Seq<Field>,
    least: nat,
)
    ensures
        params_of(request, method, title, fields, least) is Ok <==> (request.params matches Some(
            params,
        ) && json::complaint(params, title, fields, least) is None),
        params_of(request, method, title, fields, least) matches Err(answer) ==> answer.id
            == request.id && (answer.error matches Some(error) && error.0 == "malformed_request"@),
        request.params is None ==> (params_of(request, method, title, fields, least) matches Err(
            answer,
        ) && answer.error->Some_0.1 == method + " params are required"@),
{
}

proof fn lemma_found(runs: Seq<RecordView>, run_id: Seq<char>)
    ensures
        table::lookup(run_rows(runs), run_id) matches Some(record) ==> {
            let p = table::position(run_rows(runs), run_id);
            0 <= p < runs.len() && runs[p] == record && record.run_id == run_id
        },
        table::lookup(run_rows(runs), run_id) is None <==> forall|i: int|
            0 <= i < runs.len() ==> (#[trigger] runs[i]).run_id != run_id,
{
    let rows = run_rows(runs);
    table::lemma_position_bounds(rows, run_id);
    let p = table::position(rows, run_id);
    if p < rows.len() {
        assert(rows[p] == (runs[p].run_id, runs[p]));
    } else {
        assert forall|i: int| 0 <= i < runs.len() implies (#[trigger] runs[i]).run_id
            != run_id by {
            assert(rows[i].0 != run_id);
        }
    }
}

/// What is done to a run changes no run of another name, and no run comes or goes: this holds of a
/// decision, of a cancellation, of an event and of the end of a run.
pub proof fn law_only_the_named_run_changes(
    runs: Seq<RecordView>,
    request: EnvelopeView,
    params: JsonView,
    run_id: Seq<char>,
    event: JsonView,
    outcome: Result<Seq<char>, Seq<char>>,
    i: int,
)
    requires
        request.params == Some(params),
        params is Object,
        messages::text_of(params, "run_id"@) == run_id,
        0 <= i < runs.len(),
    ensures
        decided(runs, request).0.len() == runs.len(),
        canceled(runs, request).0.len() == runs.len(),
        published(runs, run_id, event).len() == runs.len(),
        settled(runs, run_id, outcome).len() == runs.len(),
        runs[i].run_id != run_id ==> decided(runs, request).0[i] == runs[i],
        runs[i].run_id != run_id ==> canceled(runs, request).0[i] == runs[i],
        runs[i].run_id != run_id ==> published(runs, run_id, event)[i] == runs[i],
        runs[i].run_id != run_id ==> settled(runs, run_id, outcome)[i] == runs[i],
{
    lemma_found(runs, run_id);
}

/// A decision that is granted is kept as granted and one that is denied as denied, with the reason that
/// was given; what is neither, or is for a call that waits for no approval, changes nothing.
pub proof fn law_decisions_are_kept(
    runs: Seq<RecordView>,
    request: EnvelopeView,
    params: JsonView,
    i: int,
)
    requires
        table::distinct_keys(run_rows(runs)),
        request.params == Some(params),
        params is Object,
        json::complaint(params, "ApprovalDecideParams"@, messages::approval_decide_fields(), 3)
            is None,
        0 <= i < runs.len(),
        messages::text_of(params, "run_id"@) == runs[i].run_id,
    ensures
        ({
            let (after, answer) = decided(runs, request);
            let call_id = messages::text_of(params, "tool_call_id"@);
            let decision = messages::text_of(params, "decision"@);
            let waits = table::lookup(runs[i].approvals, call_id) is Some;
            &&& waits && decision == "grant"@ ==> table::lookup(after[i].approvals, call_id) == Some(
                Some(OutcomeView::Granted),
            ) && answer.error is None
            &&& waits && decision == "deny"@ ==> table::lookup(after[i].approvals, call_id) == Some(
                Some(
                    OutcomeView::Denied {
                        reason: match json::text_in(json::member_of(params, "reason"@)) {
                            Some(reason) => reason,
                            None => "approval denied by daemon client"@,
                        },
                    },
                ),
            ) && answer.error is None
            &&& !waits || (decision != "grant"@ && decision != "deny"@) ==> after == runs
                && answer.error is Some
            &&& after[i].run_id == runs[i].run_id && after[i].status == runs[i].status
                && after[i].cancel == runs[i].cancel && after[i].events == runs[i].events
        }),
{
    let rows = run_rows(runs);
    let run_id = runs[i].run_id;
    lemma_found(runs, run_id);
    let p = table::position(rows, run_id);
    assert(rows[i].0 == run_id && rows[p].0 == run_id);
    assert(p == i);
    let call_id = messages::text_of(params, "tool_call_id"@);
    let reason = match json::text_in(json::member_of(params, "reason"@)) {
        Some(reason) => reason,
        None => "approval denied by daemon client"@,
    };
    table::law_reads_what_was_written(
        runs[i].approvals,
        call_id,
        Some(OutcomeView::Granted),
        call_id,
    );
    table::law_reads_what_was_written(
        runs[i].approvals,
        call_id,
        Some(OutcomeView::Denied { reason }),
        call_id,
    );
    reveal_strlit("grant");
    reveal_strlit("deny");
    assert("grant"@.len() == 5 && "deny"@.len() == 4);
}

/// A run that is canceled is marked so, and says so in its events; it is not yet over.
pub proof fn law_cancellations_are_kept(
    runs: Seq<RecordView>,
    request: EnvelopeView,
    params: JsonView,
    i: int,
)
    requires
        table::distinct_keys(run_rows(runs)),
        request.params == Some(params),
        params is Object,
        json::complaint(params, "RunCancelParams"@, messages::run_cancel_fields(), 1) is None,
        0 <= i < runs.len(),
        messages::text_of(params, "run_id"@) == runs[i].run_id,
    ensures
        ({
            let (after, answer) = canceled(runs, request);
            &&& after[i].cancel
            &&& after[i].status == runs[i].status
            &&& after[i].approvals == runs[i].approvals
            &&& after[i].events == runtime::pushed(
                runs[i].events,
                runtime::canceled_event(runs[i].run_id),
            )
            &&& answer.error is None && answer.result == Some(
                messages::accepted_json(runs[i].run_id, RunStateName::CancelRequested),
            )
        }),
{
    let rows = run_rows(runs);
    let run_id = runs[i].run_id;
    lemma_found(runs, run_id);
    let p = table::position(rows, run_id);
    assert(rows[i].0 == run_id && rows[p].0 == run_id);
    assert(p == i);
}

/// A run that ends with an answer is finished and has it; one that ends with an error has failed, or was
/// canceled where that was asked for, and has the error.
pub proof fn law_runs_settle_as_they_ended(
    runs: Seq<RecordView>,
    i: int,
    outcome: Result<Seq<char>, Seq<char>>,
)
    requires
        table::distinct_keys(run_rows(runs)),
        0 <= i < runs.len(),
    ensures
        ({
            let status = settled(runs, runs[i].run_id, outcome)[i].status;
            &&& outcome matches Ok(answer) ==> status.state == RunStateName::Finished
                && status.final_answer == Some(answer) && status.error is None
            &&& outcome matches Err(error) ==> status.final_answer is None && status.error == Some(
                error,
            ) && (status.state == RunStateName::Canceled <==> runs[i].cancel) && (status.state
                == RunStateName::Failed <==> !runs[i].cancel)
            &&& settled(runs, runs[i].run_id, outcome)[i].events == runs[i].events
        }),
{
    let rows = run_rows(runs);
    let run_id = runs[i].run_id;
    lemma_found(runs, run_id);
    let p = table::position(rows, run_id);
    assert(rows[i].0 == run_id && rows[p].0 == run_id);
    assert(p == i);
}

/// What a run reports stands at the end of its own events.
pub proof fn law_reports_reach_their_run(runs: Seq<RecordView>, i: int, event: JsonView)
    requires
        table::distinct_keys(run_rows(runs)),
        0 <= i < runs.len(),
    ensures
        ({
            let after = published(runs, runs[i].run_id, event)[i];
            &&& after.events == runtime::pushed(runs[i].events, event)
            &&& after.status == runs[i].status && after.cancel == runs[i].cancel
                && after.approvals == runs[i].approvals
        }),
{
    let rows = run_rows(runs);
    let run_id = runs[i].run_id;
    lemma_found(runs, run_id);
    let p = table::position(rows, run_id);
    assert(rows[i].0 == run_id && rows[p].0 == run_id);
    assert(p == i);
}

/// Events are streamed from the place that is asked for, or from the tip; a page tells how the run
/// stands, holds the run's own events one after the other and says where to go on. A place whose event
/// is gone, a page of more than a hundred and twenty-eight and a run that is not held are refused.
pub proof fn law_streams_go_on_where_they_ended(
    runs: Seq<RecordView>,
    request: EnvelopeView,
    params: JsonView,
    i: int,
)
    requires
        runs_ok(runs),
        request.params == Some(params),
        params is Object,
        json::complaint(params, "EventsStreamParams"@, messages::events_stream_fields(), 1) is None,
        0 <= i < runs.len(),
        messages::text_of(params, "run_id"@) == runs[i].run_id,
    ensures
        ({
            let answer = events_answer(runs, request);
            let buffer = runs[i].events;
            let asked = json::u64_in(json::member_of(params, "from_offset"@));
            let from = match asked {
                Some(offset) => offset as nat,
                None => buffer.next_offset,
            };
            let limit = match json::u64_in(json::member_of(params, "limit"@)) {
                Some(limit) => limit,
                None => 64u64,
            };
            &&& limit > 128 ==> (answer.error matches Some(error) && error.0 == "overload"@)
            &&& limit <= 128 && from < buffer.first_offset ==> (answer.error matches Some(error)
                && error.0 == "lagged"@)
            &&& limit <= 128 && from >= buffer.first_offset ==> {
                let page = runtime::page_of(
                    buffer.events,
                    (from - buffer.first_offset) as nat,
                    limit as nat,
                );
                answer.error is None && answer.result == Some(
                    messages::page_json(
                        messages::PageView {
                            run_id: runs[i].run_id,
                            from_offset: from as u64,
                            next_offset: (from + page.len()) as u64,
                            status: runs[i].status.state,
                            events: page,
                        },
                    ),
                )
            }
        }),
{
    let rows = run_rows(runs);
    let run_id = runs[i].run_id;
    lemma_found(runs, run_id);
    let p = table::position(rows, run_id);
    assert(rows[i].0 == run_id && rows[p].0 == run_id);
    assert(p == i);
}

/// A request on a run that the daemon does not hold is answered as not found, and changes nothing.
pub proof fn law_unknown_runs_are_not_found(
    runs: Seq<RecordView>,
    request: EnvelopeView,
    params: JsonView,
)
    requires
        request.params == Some(params),
        params is Object,
        forall|i: int|
            0 <= i < runs.len() ==> (#[trigger] runs[i]).run_id != messages::text_of(
                params,
                "run_id"@,
            ),
    ensures
        json::complaint(params, "EventsStreamParams"@, messages::events_stream_fields(), 1) is None
            ==> (events_answer(runs, request).error matches Some(error) && error.0 == "not_found"@),
        json::complaint(params, "RunCancelParams"@, messages::run_cancel_fields(), 1) is None ==> (
        canceled(runs, request).1.error matches Some(error) && error.0 == "not_found"@),
        json::complaint(params, "ApprovalDecideParams"@, messages::approval_decide_fields(), 3)
            is None ==> (decided(runs, request).1.error matches Some(error) && error.0
            == "not_found"@),
        canceled(runs, request).0 == runs,
        decided(runs, request).0 == runs,
{
    lemma_found(runs, messages::text_of(params, "run_id"@));
}

/// The active run of a session is one that is under way in it, and there is none only where none is.
pub proof fn law_active_runs_are_running(runs: Seq<RecordView>, session_id: Seq<char>)
    ensures
        active_run(runs, session_id) matches Some(run_id) ==> exists|i: int|
            0 <= i < runs.len() && (#[trigger] runs[i]).run_id == run_id && runs[i].session_id
                == session_id && runs[i].status.state == RunStateName::Running,
        active_run(runs, session_id) is None <==> forall|i: int|
            0 <= i < runs.len() && (#[trigger] runs[i]).session_id == session_id
                ==> runs[i].status.state != RunStateName::Running,
        session_is_active(runs, session_id) <==> active_run(runs, session_id) is Some,
    decreases runs.len(),
{
    if runs.len() > 0 {
        let rest = runs.drop_first();
        law_active_runs_are_running(rest, session_id);
        assert forall|i: int| 0 < i < runs.len() implies #[trigger] runs[i] == rest[i - 1] by {}
        if runs[0].session_id == session_id && runs[0].status.state == RunStateName::Running {
            assert(runs[0].run_id == runs[0].run_id);
        } else if let Some(run_id) = active_run(rest, session_id) {
            let i = choose|i: int|
                0 <= i < rest.len() && (#[trigger] rest[i]).run_id == run_id && rest[i].session_id
                    == session_id && rest[i].status.state == RunStateName::Running;
            assert(runs[i + 1] == rest[i]);
        } else {
            assert forall|i: int|
                0 <= i < runs.len() && (#[trigger] runs[i]).session_id == session_id implies
                runs[i].status.state != RunStateName::Running by {
                if i > 0 {
                    assert(runs[i] == rest[i - 1]);
                }
            }
        }
    }
}

/// A stored session is listed as it stands, but one that is stored as under way and has no active run
/// here was interrupted. Of its question the first line is shown, up to a hundred and twenty characters.
pub proof fn law_dead_runs_are_listed_as_interrupted(
    stored: PersistedSessionSummary,
    ledger_path: Seq<char>,
    runs: Seq<RecordView>,
)
    ensures
        ({
            let row = listed(stored, ledger_path, runs);
            let alive = exists|i: int|
                0 <= i < runs.len() && (#[trigger] runs[i]).session_id == stored.session_id@
                    && runs[i].status.state == RunStateName::Running;
            &&& row.session_id == stored.session_id@ && row.run_id == stored.run_id@
                && row.ledger_path == ledger_path
            &&& stored.status == RunStateName::Running && !alive ==> row.status
                == RunStateName::Interrupted
            &&& stored.status != RunStateName::Running || alive ==> row.status == stored.status
            &&& row.latest_question.len() <= 123
            &&& text::lines_of(stored.latest_question@).len() > 0 && text::lines_of(
                stored.latest_question@,
            )[0].len() <= 120 ==> row.latest_question == text::lines_of(stored.latest_question@)[0]
        }),
{
    law_active_runs_are_running(runs, stored.session_id@);
    reveal_strlit("...");
    if let Some(run_id) = active_run(runs, stored.session_id@) {
        let i = choose|i: int|
            0 <= i < runs.len() && (#[trigger] runs[i]).run_id == run_id && runs[i].session_id
                == stored.session_id@ && runs[i].status.state == RunStateName::Running;
        assert(runs[i].session_id == stored.session_id@);
    }
}

proof fn lemma_session_found(sessions: Seq<SummaryView>, session_id: Seq<char>)
    ensures
        0 <= session_place(sessions, session_id) <= sessions.len(),
        session_place(sessions, session_id) < sessions.len() ==> sessions[session_place(
            sessions,
            session_id,
        )].session_id == session_id,
        session_place(sessions, session_id) == sessions.len() ==> forall|i: int|
            0 <= i < sessions.len() ==> (#[trigger] sessions[i]).session_id != session_id,
    decreases sessions.len(),
{
    if sessions.len() > 0 && sessions[0].session_id != session_id {
        let rest = sessions.drop_first();
        lemma_session_found(rest, session_id);
        let at = session_place(rest, session_id);
        if at == rest.len() {
            assert forall|i: int| 0 <= i < sessions.len() implies (
            #[trigger] sessions[i]).session_id != session_id by {
                if i > 0 {
                    assert(rest[i - 1] == sessions[i]);
                }
            }
        }
    }
}

/// The session of a run that is under way is listed as running, with that run; one that is not listed
/// yet comes first. A run that is over, and the other sessions, leave the list as it is.
pub proof fn law_running_sessions_are_listed(sessions: Seq<SummaryView>, record: RecordView)
    ensures
        ({
            let after = overlaid(sessions, record);
            let known = exists|i: int|
                0 <= i < sessions.len() && (#[trigger] sessions[i]).session_id == record.session_id;
            let running = record.status.state == RunStateName::Running;
            &&& !running ==> after == sessions
            &&& running && known ==> after.len() == sessions.len() && forall|i: int|
                0 <= i < sessions.len() ==> (#[trigger] after[i]).session_id == sessions[i].session_id
                    && after[i].latest_question == sessions[i].latest_question
                    && (sessions[i].session_id != record.session_id ==> after[i] == sessions[i])
            &&& running && !known ==> after.len() == sessions.len() + 1 && after.skip(1) == sessions
                && after[0].session_id == record.session_id
            &&& running ==> exists|i: int|
                0 <= i < after.len() && (#[trigger] after[i]).session_id == record.session_id
                    && after[i].run_id == record.run_id && after[i].status == RunStateName::Running
                    && after[i].ledger_path == record.ledger_path
        }),
{
    lemma_session_found(sessions, record.session_id);
    let after = overlaid(sessions, record);
    let place = session_place(sessions, record.session_id);
    if record.status.state == RunStateName::Running {
        if place < sessions.len() {
            assert(sessions[place].session_id == record.session_id);
            assert(after[place].session_id == record.session_id);
        } else {
            assert(after.skip(1) =~= sessions);
            assert(after[0].session_id == record.session_id);
        }
    }
}

/// A transcript that was read is answered with it; where it could not be, what is not there is not
/// found, and everything else is an error of the daemon, told in words.
pub proof fn law_missing_transcripts_are_not_found(
    id: Option<Seq<char>>,
    read: Result<TranscriptReadResult, AppError>,
)
    ensures
        ({
            let answer = transcript_answer(id, read);
            &&& read matches Ok(given) ==> answer.error is None && answer.result == Some(
                transcript::read_json(given@),
            )
            &&& read matches Err(error) ==> answer.result is None && (answer.error matches Some(told)
                && told.1 == error::app_message(error) && (told.0 == "not_found"@
                <==> error is RunNotFound || error is SessionNotFound || error is NoSqliteRuns
                || error is NoSqliteSessions) && (told.0 == "not_found"@ || told.0 == "internal_error"@))
        }),
{
    reveal_strlit("not_found");
    reveal_strlit("internal_error");
    assert("not_found"@.len() == 9 && "internal_error"@.len() == 14);
}

/// A run that was started is answered with its name, its session, its ledger, how it stands and its
/// answer; a session that has a run under way refuses another, and names both.
pub proof fn law_starts_are_answered(
    id: Option<Seq<char>>,
    method: Seq<char>,
    record: RecordView,
    session_id: Seq<char>,
    run_id: Seq<char>,
)
    ensures
        ({
            let answer = started_answer(id, method, record);
            answer.id == id && answer.method == Some(method) && answer.error is None && answer.result
                == Some(
                messages::started_json(
                    messages::StartedView {
                        run_id: record.run_id,
                        session_id: record.session_id,
                        ledger_path: record.ledger_path,
                        status: record.status.state,
                        final_answer: record.status.final_answer,
                    },
                ),
            )
        }),
        ({
            let answer = session_busy(id, method, session_id, run_id);
            answer.id == id && answer.result is None && answer.error == Some(
                (
                    "overload"@,
                    "session already has an active run: "@ + session_id + " ("@ + run_id + ")"@,
                ),
            )
        }),
{
}

proof fn lemma_overlaid(sessions: Seq<SummaryView>, record: RecordView, id: Seq<char>)
    ensures
        (exists|i: int| 0 <= i < sessions.len() && (#[trigger] sessions[i]).session_id == id)
            ==> exists|i: int|
            0 <= i < overlaid(sessions, record).len() && (#[trigger] overlaid(
                sessions,
                record,
            )[i]).session_id == id,
        overlaid(sessions, record).len() >= sessions.len(),
{
    law_running_sessions_are_listed(sessions, record);
    let after = overlaid(sessions, record);
    if exists|i: int| 0 <= i < sessions.len() && (#[trigger] sessions[i]).session_id == id {
        let i = choose|i: int| 0 <= i < sessions.len() && (#[trigger] sessions[i]).session_id == id;
        if after.len() == sessions.len() {
            assert(after[i].session_id == id);
        } else {
            assert(after.skip(1)[i] == after[i + 1]);
            assert(after[i + 1].session_id == id);
        }
    }
}

/// The list of sessions holds every session that is stored, and every session that has a run under way.
pub proof fn law_no_session_is_left_out(
    sessions: Seq<SummaryView>,
    runs: Seq<RecordView>,
    id: Seq<char>,
)
    requires
        (exists|i: int| 0 <= i < sessions.len() && (#[trigger] sessions[i]).session_id == id) || (
        exists|i: int|
            0 <= i < runs.len() && (#[trigger] runs[i]).session_id == id && runs[i].status.state
                == RunStateName::Running),
    ensures
        exists|i: int|
            0 <= i < all_overlaid(sessions, runs).len() && (#[trigger] all_overlaid(
                sessions,
                runs,
            )[i]).session_id == id,
    decreases runs.len(),
{
    if runs.len() > 0 {
        let rest = runs.drop_last();
        let record = runs.last();
        let before = all_overlaid(sessions, rest);
        if record.session_id == id && record.status.state == RunStateName::Running {
            law_running_sessions_are_listed(before, record);
            let after = overlaid(before, record);
            let i = choose|i: int|
                0 <= i < after.len() && (#[trigger] after[i]).session_id == record.session_id;
            assert(all_overlaid(sessions, runs)[i].session_id == id);
        } else {
            if !(exists|i: int| 0 <= i < sessions.len() && (#[trigger] sessions[i]).session_id == id) {
                let i = choose|i: int|
                    0 <= i < runs.len() && (#[trigger] runs[i]).session_id == id
                        && runs[i].status.state == RunStateName::Running;
                assert(rest[i] == runs[i]);
            }
            law_no_session_is_left_out(sessions, rest, id);
            lemma_overlaid(before, record, id);
            let after = overlaid(before, record);
            let i = choose|i: int| 0 <= i < after.len() && (#[trigger] after[i]).session_id == id;
            assert(all_overlaid(sessions, runs)[i].session_id == id);
        }
    } else {
        let i = choose|i: int| 0 <= i < sessions.len() && (#[trigger] sessions[i]).session_id == id;
        assert(all_overlaid(sessions, runs)[i].session_id == id);
    }
}

} // verus!

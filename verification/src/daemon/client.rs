//! The client's side of the protocol: how requests are named, and what answers mean.
use crate::daemon::messages;
use crate::daemon::messages::{
    CommandAcceptedResult, EventsStreamResult, HelloResult, RunStartResult, SessionsListResult,
};
use crate::daemon::protocol;
use crate::daemon::protocol::{read_envelope, Envelope, EnvelopeKind, EnvelopeView};
use crate::daemon::transcript;
use crate::daemon::transcript::TranscriptReadResult;
use crate::error::{AppError, AppResult, ProtocolError};
use crate::json;
use crate::json::{Field, FieldKind, Json, JsonView};
use crate::paths;
use crate::text;
use vstd::prelude::*;

verus! {

/// The workspace that a client speaks for, and the socket of its daemon.
#[derive(Clone, Debug, PartialEq, Eq)]
pub struct DaemonConnectionConfig {
    pub workspace_root: String,
    pub socket_path: String,
}

impl DaemonConnectionConfig {
    /// The connection to the daemon of the workspace at the canonical path `workspace_root`.
    pub fn resolve(
        workspace_root: String,
        socket_path: Option<String>,
        runtime_home: &str,
    ) -> (r: DaemonConnectionConfig)
        ensures
            r.workspace_root == workspace_root,
            r.socket_path@ == match socket_path {
                Some(path) => path@,
                None => paths::joined_path(
                    paths::workspace_directory(
                        runtime_home@,
                        paths::workspace_identity(workspace_root@),
                    ),
                    "agent.sock"@,
                ),
            },
    {
        let socket_path = match socket_path {
            Some(path) => path,
            None => {
                let workspace_id = paths::workspace_id_from_canonical_path(
                    workspace_root.as_str(),
                );
                paths::default_socket_path(runtime_home, workspace_id.as_str())
            },
        };
        DaemonConnectionConfig { workspace_root, socket_path }
    }
}

/// The name of a request: its method, with underscores, and its number.
pub open spec fn request_name(method: Seq<char>, number: u64) -> Seq<char> {
    text::replaced(method, '.', '_') + "_"@ + text::decimal(number as nat)
}

/// The name of a request: its method, with underscores, and its number.
pub fn request_id(method: &str, number: u64) -> (r: String)
    ensures
        r@ == request_name(method@, number),
{
    text::text3(
        text::replace_char(method, '.', '_').as_str(),
        "_",
        text::decimal_u64(number).as_str(),
    )
}

/// Requests of one method have different names.
pub proof fn law_request_names_differ(method: Seq<char>, first: u64, second: u64)
    requires
        first != second,
    ensures
        request_name(method, first) != request_name(method, second),
{
    let head = text::replaced(method, '.', '_') + "_"@;
    json::lemma_decimal_is_read_back(first as nat);
    json::lemma_decimal_is_read_back(second as nat);
    if request_name(method, first) == request_name(method, second) {
        assert(request_name(method, first).skip(head.len() as int) =~= text::decimal(
            first as nat,
        ));
        assert(request_name(method, second).skip(head.len() as int) =~= text::decimal(
            second as nat,
        ));
    }
}

/// What a client numbers its requests by.
#[derive(Debug, PartialEq, Eq)]
pub struct RequestCounter {
    pub next_id: u64,
}

impl RequestCounter {
    /// A client that has asked nothing yet.
    pub fn new() -> (r: RequestCounter)
        ensures
            r.next_id == 1,
    {
        RequestCounter { next_id: 1 }
    }

    /// The name of the next request.
    pub fn next_request_id(&mut self, method: &str) -> (r: String)
        requires
            old(self).next_id < u64::MAX,
        ensures
            r@ == request_name(method@, old(self).next_id),
            final(self).next_id == old(self).next_id + 1,
    {
        let id = request_id(method, self.next_id);
        self.next_id = self.next_id + 1;
        id
    }
}

/// The name of an answer as it is shown.
pub open spec fn shown_id(id: Option<Seq<char>>) -> Seq<char> {
    match id {
        Some(id) => "Some("@ + text::debug_quoted(id) + ")"@,
        None => "None"@,
    }
}

/// The name of a kind as it is shown.
pub open spec fn shown_kind(kind: EnvelopeKind) -> Seq<char> {
    match kind {
        EnvelopeKind::Request => "Request"@,
        EnvelopeKind::Response => "Response"@,
        EnvelopeKind::Event => "Event"@,
        EnvelopeKind::Error => "Error"@,
    }
}

/// The result that an answer to the request `id` carries, or the error: one of the protocol where
/// the answer is to another request, lacks what its kind must have, or has a kind that no answer has;
/// else the daemon's own.
pub open spec fn answered(response: EnvelopeView, id: Seq<char>, method: Seq<char>) -> Result<
    JsonView,
    ErrorView,
> {
    if response.id != Some(id) {
        Err(
            ErrorView::Protocol(
                "response id mismatch: expected "@ + id + ", got "@ + shown_id(response.id),
            ),
        )
    } else {
        match response.kind {
            EnvelopeKind::Response => match response.result {
                Some(result) => Ok(result),
                None => Err(ErrorView::Protocol(method + " response missing result"@)),
            },
            EnvelopeKind::Error => match response.error {
                Some((code, message)) => Err(ErrorView::Daemon { code, message }),
                None => Err(ErrorView::Protocol(method + " error missing payload"@)),
            },
            other => Err(
                ErrorView::Protocol(
                    method + " returned unexpected envelope kind "@ + shown_kind(other),
                ),
            ),
        }
    }
}

/// What can be wrong with an answer.
pub enum ErrorView {
    /// The answer breaks the protocol.
    Protocol(Seq<char>),
    /// The daemon refused the request.
    Daemon { code: Seq<char>, message: Seq<char> },
    /// The answer cannot be read.
    Unreadable(Seq<char>),
}

/// What an error of the client stands for.
pub open spec fn client_error(error: AppError) -> Option<ErrorView> {
    match error {
        AppError::DaemonProtocol(message) => Some(ErrorView::Protocol(message@)),
        AppError::DaemonResponse(refusal) => Some(
            ErrorView::Daemon { code: refusal.code@, message: refusal.message@ },
        ),
        AppError::Json(message) => Some(ErrorView::Unreadable(message@)),
        _ => None,
    }
}

/// Whether a result is what it should be, value or error.
pub open spec fn result_is(result: AppResult<Json>, wanted: Result<JsonView, ErrorView>) -> bool {
    match wanted {
        Ok(value) => result matches Ok(json) && json@ == value,
        Err(wanted) => result matches Err(error) && client_error(error) == Some(wanted),
    }
}

/// The result that an answer to the request `id` carries, or the error.
pub fn check_response(response: Envelope, id: &str, method: &str) -> (r: AppResult<Json>)
    ensures
        result_is(r, answered(response@, id@, method@)),
{
    if !text::is_text(&response.id, id) {
        let shown = match &response.id {
            Some(other) => text::text3("Some(", text::debug_text(other.as_str()).as_str(), ")"),
            None => "None".to_owned(),
        };
        let message = text::text4(
            "response id mismatch: expected ",
            id,
            ", got ",
            shown.as_str(),
        );
        return Err(AppError::DaemonProtocol(message));
    }
    match response.kind {
        EnvelopeKind::Response => match response.result {
            Some(result) => Ok(result),
            None => Err(AppError::DaemonProtocol(text::text2(method, " response missing result"))),
        },
        EnvelopeKind::Error => match response.error {
            Some(error) => Err(AppError::DaemonResponse(error)),
            None => Err(AppError::DaemonProtocol(text::text2(method, " error missing payload"))),
        },
        EnvelopeKind::Request => Err(
            AppError::DaemonProtocol(
                text::text3(method, " returned unexpected envelope kind ", "Request"),
            ),
        ),
        EnvelopeKind::Event => Err(
            AppError::DaemonProtocol(
                text::text3(method, " returned unexpected envelope kind ", "Event"),
            ),
        ),
    }
}

/// The result that the line of an answer carries, or the error. An end of the connection is an empty
/// line.
pub open spec fn line_answered(line: Seq<char>, id: Seq<char>, method: Seq<char>) -> Result<
    JsonView,
    ErrorView,
> {
    if line.len() == 0 {
        Err(ErrorView::Protocol("daemon connection closed before response"@))
    } else {
        match json::json_parsed(text::trim(line)) {
            Err(message) => Err(ErrorView::Unreadable(message)),
            Ok(value) => match protocol::line_complaint(text::trim(line), value) {
                Some(message) => Err(ErrorView::Unreadable(message)),
                None => answered(protocol::envelope_in(value), id, method),
            },
        }
    }
}

/// Whether an answer is what the daemon wrote: its result, but for the order of members, or its
/// refusal.
pub open spec fn answer_is(result: AppResult<Json>, response: EnvelopeView) -> bool {
    match (response.kind, response.result, response.error) {
        (EnvelopeKind::Response, Some(value), _) => result matches Ok(given) && json::same_value(
            value,
            given@,
        ),
        (EnvelopeKind::Error, _, Some((code, message))) => result matches Err(error)
            && client_error(error) == Some(ErrorView::Daemon { code, message }),
        _ => true,
    }
}

/// The result that the line of an answer carries, or the error. What the daemon wrote in answer to the
/// request `id` arrives as it was.
pub fn read_response(line: &str, id: &str, method: &str) -> (r: AppResult<Json>)
    ensures
        result_is(r, line_answered(line@, id@, method@)),
        forall|response: EnvelopeView|
            protocol::sendable(response) && response.id == Some(id@) && #[trigger] json::json_text(
                protocol::envelope_json(response),
            ) == text::trim(line@) ==> answer_is(r, response),
{
    let trimmed = text::trimmed(line);
    let parsed = Json::parse(trimmed.as_str());
    proof {
        assert forall|response: EnvelopeView|
            protocol::sendable(response) && #[trigger] json::json_text(
                protocol::envelope_json(response),
            ) == text::trim(line@) implies parsed is Ok && protocol::envelope_complaint(
            parsed->Ok_0@,
        ) is None && protocol::same_envelope(
            response,
            protocol::envelope_in(parsed->Ok_0@),
        ) && line@.len() > 0 by {
            protocol::lemma_written_envelopes(trimmed@, json::parse_view(parsed), response);
            reveal_strlit("{");
            assert(json::json_text(protocol::envelope_json(response)).len() > 0);
        }
    }
    if line.unicode_len() == 0 {
        return Err(AppError::DaemonProtocol("daemon connection closed before response".to_owned()));
    }
    let value = match parsed {
        Ok(value) => value,
        Err(message) => {
            return Err(AppError::Json(message));
        },
    };
    match read_envelope(trimmed.as_str(), &value) {
        Ok(response) => check_response(response, id, method),
        Err(message) => Err(AppError::Json(message)),
    }
}

/// The message of a result of a method that is no `title` with the given fields. Where the fault lies
/// deeper than in a field, the words are this library's own.
pub open spec fn unreadable(
    result: JsonView,
    method: Seq<char>,
    title: Seq<char>,
    fields: Seq<Field>,
    least: nat,
) -> Seq<char> {
    match json::complaint(json::known(result, fields), title, fields, least) {
        Some(message) => message,
        None => method + " result is invalid"@,
    }
}

fn unreadable_error(
    result: &Json,
    method: &str,
    title: &str,
    fields: &Vec<Field>,
    least: usize,
) -> (r: AppError)
    ensures
        client_error(r) == Some(
            ErrorView::Unreadable(
                unreadable(result@, method@, title@, fields@, least as nat),
            ),
        ),
{
    match result.known(fields).check_fields(title, fields, least) {
        Err(message) => AppError::Json(message),
        Ok(_) => AppError::Json(text::text2(method, " result is invalid")),
    }
}

/// The fields of a greeting.
pub open spec fn hello_fields() -> Seq<Field> {
    seq![
        Field { name: "daemon_version", kind: FieldKind::Text },
        Field { name: "workspace_id", kind: FieldKind::Text },
        Field { name: "ledger_path", kind: FieldKind::Text },
        Field { name: "capabilities", kind: FieldKind::Texts },
    ]
}

/// The fields of a started run.
pub open spec fn started_fields() -> Seq<Field> {
    seq![
        Field { name: "run_id", kind: FieldKind::Text },
        Field { name: "session_id", kind: FieldKind::Text },
        Field { name: "ledger_path", kind: FieldKind::Text },
        Field { name: "status", kind: FieldKind::State },
        Field { name: "final_answer", kind: FieldKind::OptionalText },
    ]
}

/// The fields of a page of events.
pub open spec fn page_fields() -> Seq<Field> {
    seq![
        Field { name: "run_id", kind: FieldKind::Text },
        Field { name: "from_offset", kind: FieldKind::Number },
        Field { name: "next_offset", kind: FieldKind::Number },
        Field { name: "status", kind: FieldKind::State },
        Field { name: "events", kind: FieldKind::Values },
    ]
}

/// The fields of a request on a run that was taken.
pub open spec fn accepted_fields() -> Seq<Field> {
    seq![
        Field { name: "run_id", kind: FieldKind::Text },
        Field { name: "status", kind: FieldKind::State },
    ]
}

/// The field of a list of sessions.
pub open spec fn sessions_fields() -> Seq<Field> {
    seq![Field { name: "sessions", kind: FieldKind::Values }]
}

/// The fields of a session in a list.
pub open spec fn summary_fields() -> Seq<Field> {
    seq![
        Field { name: "session_id", kind: FieldKind::Text },
        Field { name: "run_id", kind: FieldKind::Text },
        Field { name: "status", kind: FieldKind::State },
        Field { name: "latest_question", kind: FieldKind::Text },
        Field { name: "ledger_path", kind: FieldKind::Text },
    ]
}

/// What is wrong with the first of items that is no session of a list.
pub open spec fn items_complaint(items: Seq<JsonView>) -> Option<Seq<char>>
    decreases items.len(),
{
    if items.len() == 0 {
        None
    } else {
        match items_complaint(items.drop_last()) {
            Some(message) => Some(message),
            None => json::complaint(
                json::known(items.last(), summary_fields()),
                "SessionSummary"@,
                summary_fields(),
                5,
            ),
        }
    }
}

/// The items of a list of sessions.
pub open spec fn items_in(result: JsonView) -> Seq<JsonView> {
    match json::member_of(json::listed(result, messages::sessions_names()), "sessions"@) {
        Some(JsonView::Array(items)) => items,
        _ => Seq::empty(),
    }
}

/// The message of a result that is no list of sessions.
pub open spec fn unreadable_sessions(result: JsonView) -> Seq<char> {
    match items_complaint(items_in(result)) {
        Some(message) => message,
        None => unreadable(
            result,
            "sessions.list"@,
            "SessionsListResult"@,
            sessions_fields(),
            1,
        ),
    }
}

fn sessions_error(result: &Json) -> (r: AppError)
    ensures
        client_error(r) == Some(ErrorView::Unreadable(unreadable_sessions(result@))),
{
    let names = vec!["sessions"];
    assert(text::str_views(names@) =~= messages::sessions_names());
    let named = result.listed(&names);
    let inner = vec![
        Field { name: "session_id", kind: FieldKind::Text },
        Field { name: "run_id", kind: FieldKind::Text },
        Field { name: "status", kind: FieldKind::State },
        Field { name: "latest_question", kind: FieldKind::Text },
        Field { name: "ledger_path", kind: FieldKind::Text },
    ];
    assert(inner@ =~= summary_fields());
    let items = match named.array_member("sessions") {
        Some(items) => items,
        None => Vec::new(),
    };
    let ghost all = json::json_views(items@);
    assert(all =~= items_in(result@));
    let mut failure: Option<String> = None;
    assert(all.take(0) =~= Seq::empty());
    for i in 0..items.len()
        invariant
            all == json::json_views(items@),
            inner@ == summary_fields(),
            text::opt_view(failure) == items_complaint(all.take(i as int)),
    {
        assert(all.take(i + 1).drop_last() =~= all.take(i as int));
        assert(all.take(i + 1).last() == items@[i as int]@);
        if failure.is_none() {
            let item = items[i].known(&inner);
            if let Err(message) = item.check_fields("SessionSummary", &inner, 5) {
                failure = Some(message);
            }
        }
    }
    assert(all.take(all.len() as int) =~= all);
    if let Some(message) = failure {
        return AppError::Json(message);
    }
    let fields = vec![Field { name: "sessions", kind: FieldKind::Values }];
    assert(fields@ =~= sessions_fields());
    unreadable_error(result, "sessions.list", "SessionsListResult", &fields, 1)
}

/// The greeting in a result.
pub fn hello_result(result: &Json) -> (r: AppResult<HelloResult>)
    ensures
        match messages::hello_in(result@) {
            Some(hello) => r matches Ok(given) && given@ == hello,
            None => r matches Err(error) && client_error(error) == Some(
                ErrorView::Unreadable(
                    unreadable(result@, "hello"@, "HelloResult"@, hello_fields(), 4),
                ),
            ),
        },
{
    match HelloResult::decode(result) {
        Some(hello) => Ok(hello),
        None => {
            let fields = vec![
                Field { name: "daemon_version", kind: FieldKind::Text },
                Field { name: "workspace_id", kind: FieldKind::Text },
                Field { name: "ledger_path", kind: FieldKind::Text },
                Field { name: "capabilities", kind: FieldKind::Texts },
            ];
            assert(fields@ =~= hello_fields());
            Err(unreadable_error(result, "hello", "HelloResult", &fields, 4))
        },
    }
}

/// The started run in the result of a method.
pub fn started_result(result: &Json, method: &str) -> (r: AppResult<RunStartResult>)
    ensures
        match messages::started_in(result@) {
            Some(started) => r matches Ok(given) && given@ == started,
            None => r matches Err(error) && client_error(error) == Some(
                ErrorView::Unreadable(
                    unreadable(result@, method@, "RunStartResult"@, started_fields(), 5),
                ),
            ),
        },
{
    match RunStartResult::decode(result) {
        Some(started) => Ok(started),
        None => {
            let fields = vec![
                Field { name: "run_id", kind: FieldKind::Text },
                Field { name: "session_id", kind: FieldKind::Text },
                Field { name: "ledger_path", kind: FieldKind::Text },
                Field { name: "status", kind: FieldKind::State },
                Field { name: "final_answer", kind: FieldKind::OptionalText },
            ];
            assert(fields@ =~= started_fields());
            Err(unreadable_error(result, method, "RunStartResult", &fields, 5))
        },
    }
}

/// The page of events in a result.
pub fn events_result(result: &Json) -> (r: AppResult<EventsStreamResult>)
    ensures
        match messages::page_in(result@) {
            Some(page) => r matches Ok(given) && given@ == page,
            None => r matches Err(error) && client_error(error) == Some(
                ErrorView::Unreadable(
                    unreadable(result@, "events.stream"@, "EventsStreamResult"@, page_fields(), 5),
                ),
            ),
        },
{
    match EventsStreamResult::decode(result) {
        Some(page) => Ok(page),
        None => {
            let fields = vec![
                Field { name: "run_id", kind: FieldKind::Text },
                Field { name: "from_offset", kind: FieldKind::Number },
                Field { name: "next_offset", kind: FieldKind::Number },
                Field { name: "status", kind: FieldKind::State },
                Field { name: "events", kind: FieldKind::Values },
            ];
            assert(fields@ =~= page_fields());
            Err(unreadable_error(result, "events.stream", "EventsStreamResult", &fields, 5))
        },
    }
}

/// The sessions in a result.
pub fn sessions_result(result: &Json) -> (r: AppResult<SessionsListResult>)
    ensures
        match messages::sessions_in(result@) {
            Some(sessions) => r matches Ok(given) && messages::summary_views(given.sessions@)
                == sessions,
            None => r matches Err(error) && client_error(error) == Some(
                ErrorView::Unreadable(unreadable_sessions(result@)),
            ),
        },
{
    match SessionsListResult::decode(result) {
        Some(sessions) => Ok(sessions),
        None => Err(sessions_error(result)),
    }
}

/// The transcript in a result.
pub fn transcript_result(result: &Json) -> (r: AppResult<TranscriptReadResult>)
    ensures
        match transcript::read_in(result@) {
            Some(read) => r matches Ok(given) && given@ == read,
            None => r matches Err(error) && client_error(error) == Some(
                ErrorView::Unreadable(
                    unreadable(
                        result@,
                        "transcript.read"@,
                        "TranscriptReadResult"@,
                        transcript::read_fields(),
                        4,
                    ),
                ),
            ),
        },
{
    match TranscriptReadResult::decode(result) {
        Some(read) => Ok(read),
        None => {
            let fields = vec![
                Field { name: "run_id", kind: FieldKind::Text },
                Field { name: "status", kind: FieldKind::State },
                Field { name: "final_answer", kind: FieldKind::OptionalText },
                Field { name: "transcript", kind: FieldKind::Text },
                Field { name: "typed", kind: FieldKind::OptionalValue },
                Field { name: "pending_approval", kind: FieldKind::OptionalValue },
            ];
            assert(fields@ =~= transcript::read_fields());
            Err(unreadable_error(result, "transcript.read", "TranscriptReadResult", &fields, 4))
        },
    }
}

/// That a request on a run was taken, in the result of a method.
pub fn accepted_result(result: &Json, method: &str) -> (r: AppResult<CommandAcceptedResult>)
    ensures
        match messages::accepted_in(result@) {
            Some((run_id, status)) => r matches Ok(given) && given.run_id@ == run_id
                && given.status == status,
            None => r matches Err(error) && client_error(error) == Some(
                ErrorView::Unreadable(
                    unreadable(result@, method@, "CommandAcceptedResult"@, accepted_fields(), 2),
                ),
            ),
        },
{
    match CommandAcceptedResult::decode(result) {
        Some(accepted) => Ok(accepted),
        None => {
            let fields = vec![
                Field { name: "run_id", kind: FieldKind::Text },
                Field { name: "status", kind: FieldKind::State },
            ];
            assert(fields@ =~= accepted_fields());
            Err(unreadable_error(result, method, "CommandAcceptedResult", &fields, 2))
        },
    }
}

proof fn lemma_known_member(members: Seq<(Seq<char>, JsonView)>, fields: Seq<Field>, name: Seq<char>)
    requires
        json::field_named(fields, name) is Some,
    ensures
        json::first_member(json::known_members(members, fields), name) == json::first_member(
            members,
            name,
        ),
    decreases members.len(),
{
    if members.len() > 0 {
        let rest = members.drop_last();
        let last = members.last();
        lemma_known_member(rest, fields, name);
        json::lemma_first_member_push(rest, last, name);
        assert(rest.push(last) =~= members);
        json::lemma_first_member_push(json::known_members(rest, fields), last, name);
    }
}

proof fn lemma_named_result(result: JsonView, fields: Seq<Field>, names: Seq<Seq<char>>)
    requires
        names.len() == fields.len(),
        forall|i: int| 0 <= i < fields.len() ==> names[i] == (#[trigger] fields[i]).name@,
        json::conforms(json::by_name(json::known(result, fields), fields, fields.len()), fields),
    ensures
        forall|i: int|
            0 <= i < fields.len() ==> json::field_fits(
                json::member_of(json::listed(result, names), (#[trigger] fields[i]).name@),
                fields[i].kind,
            ),
{
    let named = json::by_name(json::known(result, fields), fields, fields.len());
    assert forall|i: int| 0 <= i < fields.len() implies json::field_fits(
        json::member_of(json::listed(result, names), (#[trigger] fields[i]).name@),
        fields[i].kind,
    ) by {
        assert(json::field_fits(json::member_of(named, fields[i].name@), fields[i].kind));
        match result {
            JsonView::Object(members) => {
                json::lemma_field_named(fields, fields[i].name@);
                assert(json::has_field(fields, fields[i].name@));
                lemma_known_member(members, fields, fields[i].name@);
            },
            JsonView::Array(items) => {
                if items.len() == fields.len() {
                    assert(named->Object_0 =~= json::listed(result, names)->Object_0);
                }
            },
            _ => {},
        }
    }
}

proof fn lemma_all_texts(items: Seq<JsonView>)
    requires
        json::first_not_text(items) is None,
    ensures
        messages::texts_in(Some(JsonView::Array(items))) is Some,
    decreases items.len(),
{
    if items.len() > 0 {
        let rest = items.drop_first();
        lemma_all_texts(rest);
        assert forall|i: int| 0 <= i < items.len() implies (#[trigger] items[i]) is Text by {
            if i > 0 {
                assert(rest[i - 1] == items[i]);
            }
        }
    }
}

proof fn lemma_hello_fault(result: JsonView)
    ensures
        messages::hello_in(result) is None ==> json::complaint(
            json::known(result, hello_fields()),
            "HelloResult"@,
            hello_fields(),
            4,
        ) is Some,
{
    let fields = hello_fields();
    let names = messages::hello_names();
    json::lemma_complaint(json::known(result, fields), "HelloResult"@, fields, 4);
    assert(fields[0].name@ == "daemon_version"@
        && fields[1].name@ == "workspace_id"@
        && fields[2].name@ == "ledger_path"@
        && fields[3].name@ == "capabilities"@);
    if json::conforms(json::by_name(json::known(result, fields), fields, 4), fields) {
        lemma_named_result(result, fields, names);
        let named = json::listed(result, names);
        assert(json::field_fits(json::member_of(named, fields[0].name@), fields[0].kind));
        assert(json::field_fits(json::member_of(named, fields[1].name@), fields[1].kind));
        assert(json::field_fits(json::member_of(named, fields[2].name@), fields[2].kind));
        assert(json::field_fits(json::member_of(named, fields[3].name@), fields[3].kind));
        lemma_all_texts(json::member_of(named, "capabilities"@)->Some_0->Array_0);
    }
}

proof fn lemma_started_fault(result: JsonView)
    ensures
        messages::started_in(result) is None ==> json::complaint(
            json::known(result, started_fields()),
            "RunStartResult"@,
            started_fields(),
            5,
        ) is Some,
{
    let fields = started_fields();
    let names = messages::started_names();
    json::lemma_complaint(json::known(result, fields), "RunStartResult"@, fields, 5);
    assert(fields[0].name@ == "run_id"@
        && fields[1].name@ == "session_id"@
        && fields[2].name@ == "ledger_path"@
        && fields[3].name@ == "status"@
        && fields[4].name@ == "final_answer"@);
    if json::conforms(json::by_name(json::known(result, fields), fields, 5), fields) {
        lemma_named_result(result, fields, names);
        let named = json::listed(result, names);
        assert(json::field_fits(json::member_of(named, fields[0].name@), fields[0].kind));
        assert(json::field_fits(json::member_of(named, fields[1].name@), fields[1].kind));
        assert(json::field_fits(json::member_of(named, fields[2].name@), fields[2].kind));
        assert(json::field_fits(json::member_of(named, fields[3].name@), fields[3].kind));
        assert(json::field_fits(json::member_of(named, fields[4].name@), fields[4].kind));
    }
}

proof fn lemma_page_fault(result: JsonView)
    ensures
        messages::page_in(result) is None ==> json::complaint(
            json::known(result, page_fields()),
            "EventsStreamResult"@,
            page_fields(),
            5,
        ) is Some,
{
    let fields = page_fields();
    let names = messages::page_names();
    json::lemma_complaint(json::known(result, fields), "EventsStreamResult"@, fields, 5);
    assert(fields[0].name@ == "run_id"@
        && fields[1].name@ == "from_offset"@
        && fields[2].name@ == "next_offset"@
        && fields[3].name@ == "status"@
        && fields[4].name@ == "events"@);
    if json::conforms(json::by_name(json::known(result, fields), fields, 5), fields) {
        lemma_named_result(result, fields, names);
        let named = json::listed(result, names);
        assert(json::field_fits(json::member_of(named, fields[0].name@), fields[0].kind));
        assert(json::field_fits(json::member_of(named, fields[1].name@), fields[1].kind));
        assert(json::field_fits(json::member_of(named, fields[2].name@), fields[2].kind));
        assert(json::field_fits(json::member_of(named, fields[3].name@), fields[3].kind));
        assert(json::field_fits(json::member_of(named, fields[4].name@), fields[4].kind));
    }
}

proof fn lemma_accepted_fault(result: JsonView)
    ensures
        messages::accepted_in(result) is None ==> json::complaint(
            json::known(result, accepted_fields()),
            "CommandAcceptedResult"@,
            accepted_fields(),
            2,
        ) is Some,
{
    let fields = accepted_fields();
    let names = messages::accepted_names();
    json::lemma_complaint(json::known(result, fields), "CommandAcceptedResult"@, fields, 2);
    assert(fields[0].name@ == "run_id"@
        && fields[1].name@ == "status"@);
    if json::conforms(json::by_name(json::known(result, fields), fields, 2), fields) {
        lemma_named_result(result, fields, names);
        let named = json::listed(result, names);
        assert(json::field_fits(json::member_of(named, fields[0].name@), fields[0].kind));
        assert(json::field_fits(json::member_of(named, fields[1].name@), fields[1].kind));
    }
}

/// A greeting, a started run, a page of events or a request that was taken which cannot be read has a
/// field, or a want of one, that is to blame.
pub proof fn law_unreadable_results_have_a_fault(result: JsonView)
    ensures
        messages::hello_in(result) is None ==> json::complaint(
            json::known(result, hello_fields()),
            "HelloResult"@,
            hello_fields(),
            4,
        ) is Some,
        messages::started_in(result) is None ==> json::complaint(
            json::known(result, started_fields()),
            "RunStartResult"@,
            started_fields(),
            5,
        ) is Some,
        messages::page_in(result) is None ==> json::complaint(
            json::known(result, page_fields()),
            "EventsStreamResult"@,
            page_fields(),
            5,
        ) is Some,
        messages::accepted_in(result) is None ==> json::complaint(
            json::known(result, accepted_fields()),
            "CommandAcceptedResult"@,
            accepted_fields(),
            2,
        ) is Some,
{
    lemma_hello_fault(result);
    lemma_started_fault(result);
    lemma_page_fault(result);
    lemma_accepted_fault(result);
}

/// The daemon's answer to the request `id` reaches the client as it was: a result as a result, a
/// refusal with its code and message.
pub proof fn law_answers_reach_the_client(
    id: Seq<char>,
    method: Seq<char>,
    result: JsonView,
    code: Seq<char>,
    message: Seq<char>,
)
    requires
        result != JsonView::Null,
    ensures
        ({
            let response = protocol::response_to(Some(id), Some(method), result);
            let refusal = protocol::error_to(Some(id), Some(method), code, message);
            &&& answered(
                protocol::envelope_in(protocol::envelope_json(response)),
                id,
                method,
            ) == Ok::<JsonView, ErrorView>(result)
            &&& answered(protocol::envelope_in(protocol::envelope_json(refusal)), id, method)
                == Err::<JsonView, ErrorView>(ErrorView::Daemon { code, message })
        }),
{
    protocol::law_envelopes_are_read_back(
        protocol::response_to(Some(id), Some(method), result),
    );
    protocol::law_envelopes_are_read_back(
        protocol::error_to(Some(id), Some(method), code, message),
    );
}

/// An answer counts only under the id of the request: a response gives its result, an error what the
/// daemon said, and everything else breaks the protocol.
pub proof fn law_answers_are_taken_by_id(response: EnvelopeView, id: Seq<char>, method: Seq<char>)
    ensures
        response.id != Some(id) ==> answered(response, id, method) matches Err(ErrorView::Protocol(_)),
        answered(response, id, method) matches Ok(result) ==> response.id == Some(id)
            && response.kind == EnvelopeKind::Response && response.result == Some(result),
        answered(response, id, method) matches Err(ErrorView::Daemon { code, message }) ==> response.id
            == Some(id) && response.kind == EnvelopeKind::Error && response.error == Some(
            (code, message),
        ),
        response.id == Some(id) && response.kind == EnvelopeKind::Response && response.result
            is Some ==> answered(response, id, method) is Ok,
        response.id == Some(id) && response.kind == EnvelopeKind::Error && response.error is Some
            ==> answered(response, id, method) matches Err(ErrorView::Daemon { .. }),
        !(answered(response, id, method) matches Err(ErrorView::Unreadable(_))),
{
}

/// A line without a character is a connection that was closed, and one that holds no envelope cannot be
/// read.
pub proof fn law_lines_are_read_as_answers(line: Seq<char>, id: Seq<char>, method: Seq<char>)
    ensures
        line.len() == 0 ==> line_answered(line, id, method) == Err::<JsonView, ErrorView>(
            ErrorView::Protocol("daemon connection closed before response"@),
        ),
        line.len() > 0 ==> (json::json_parsed(text::trim(line)) matches Err(message)
            ==> line_answered(line, id, method) == Err::<JsonView, ErrorView>(
            ErrorView::Unreadable(message),
        )),
        line.len() > 0 ==> (json::json_parsed(text::trim(line)) matches Ok(value) ==> (
        protocol::line_complaint(text::trim(line), value) is None ==> line_answered(line, id, method)
            == answered(protocol::envelope_in(value), id, method))),
{
}

/// A request is named after its method, with underscores in place of dots, and its number.
pub proof fn law_requests_are_named_after_their_method(method: Seq<char>, number: u64)
    ensures
        ({
            let name = request_name(method, number);
            &&& name.len() == method.len() + 1 + text::decimal(number as nat).len()
            &&& forall|i: int|
                0 <= i < method.len() ==> (#[trigger] name[i]) == if method[i] == '.' {
                    '_'
                } else {
                    method[i]
                }
            &&& name[method.len() as int] == '_'
            &&& name.skip(method.len() as int + 1) == text::decimal(number as nat)
        }),
{
    reveal_strlit("_");
    let name = request_name(method, number);
    assert(name.skip(method.len() as int + 1) =~= text::decimal(number as nat));
}

} // verus!

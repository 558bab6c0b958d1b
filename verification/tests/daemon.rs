//! The daemon: what it answers, and what its clients make of that.
use plato_agent::app::{ApprovalRequest, AssistantDeltaEvent, RunEvent};
use plato_agent::daemon::client::{
    accepted_result, events_result, hello_result, read_response, sessions_result, started_result,
    transcript_result,
    DaemonConnectionConfig, RequestCounter,
};
use plato_agent::daemon::handlers::{
    answer_failed_run, answer_no_session, answer_transcript, latest_question_preview,
    run_start_response, DaemonRuntime, RunOrder, RunTarget, Work,
};
use plato_agent::daemon::lock::{
    ensure_workspace_unlocked, lock_conflict_error, read_conflict, LockFile, LockMetadata,
    WorkspaceLock,
};
use plato_agent::daemon::messages::{CommandAcceptedResult, HelloParams, SessionSummary};
use plato_agent::daemon::protocol::{
    decode_request, Envelope, EnvelopeKind, RunStateName, ERROR_INTERNAL, ERROR_LAGGED,
    ERROR_MALFORMED_REQUEST, ERROR_NOT_FOUND, ERROR_OVERLOAD, ERROR_RUN_FAILED,
    ERROR_SESSIONS_LIST_FAILED, ERROR_UNSUPPORTED_METHOD, ERROR_UNSUPPORTED_VERSION,
    ERROR_WORKSPACE_MISMATCH,
};
use plato_agent::daemon::request::ClientRequest;
use plato_agent::daemon::runtime::{
    approval_requested_event, PendingApproval, RunRecord, MAX_EVENT_BUFFER,
};
use plato_agent::daemon::server::{
    private_directories, runtime_directories, socket_directories, verify_mode, DaemonPaths,
    PRIVATE_DIRECTORY_MODE, SOCKET_MODE,
};
use plato_agent::error::ProtocolError;
use plato_agent::harness::{ContextPack, EffectClass, HarnessEvent, ModelUsage, RecordedEvent};
use plato_agent::json::Json;
use plato_agent::ledger::{SqliteLedger, StoredRecord, ORPHANED_RUN};
use plato_agent::paths::workspace_id_from_canonical_path;
use plato_agent::replay::{read_run_transcript, read_session_transcript};
use plato_agent::tools::ApprovalOutcome;
use plato_agent::AppError;

fn json(text: &str) -> Json {
    Json::parse(text).unwrap()
}

fn paths() -> DaemonPaths {
    DaemonPaths::resolve("/tmp/work".into(), None, "/state", "/run")
}

fn server() -> DaemonRuntime {
    DaemonRuntime::new(paths())
}

fn with_run(run_id: &str, session_id: &str) -> DaemonRuntime {
    let mut server = server();
    server.runs.push(RunRecord::new(
        run_id.into(),
        session_id.into(),
        "/tmp/agent.db".into(),
    ));
    server
}

fn answer(work: Work) -> Envelope {
    match work {
        Work::Answer(envelope) => envelope,
        other => panic!("unexpected work: {other:?}"),
    }
}

fn order(work: Work) -> RunOrder {
    match work {
        Work::Start(order) => order,
        other => panic!("unexpected work: {other:?}"),
    }
}

/// Carries out what a line asks for, against tables.
fn served(server: &mut DaemonRuntime, tables: &SqliteLedger, line: &str) -> Envelope {
    match server.handle_line(line) {
        Work::Answer(envelope) => envelope,
        Work::Greet { id, workspace_root } => server.answer_hello(id, Ok(workspace_root)),
        Work::ListSessions { id } => server.answer_sessions(id, Ok(tables.session_summaries())),
        Work::ReadRun { id, run_id } => answer_transcript(id, read_run_transcript(tables, &run_id)),
        Work::ReadSession { id, session_id } => {
            answer_transcript(id, read_session_transcript(tables, &session_id))
        }
        Work::Start(order) => panic!("unexpected order: {order:?}"),
    }
}

fn code(envelope: &Envelope) -> &str {
    &envelope.error.as_ref().unwrap().code
}

#[test]
fn bind_sets_private_socket_permissions() {
    assert_eq!(PRIVATE_DIRECTORY_MODE, 0o700);
    assert_eq!(SOCKET_MODE, 0o600);
    let paths = paths();
    let id = workspace_id_from_canonical_path("/tmp/work");

    assert_eq!(paths.workspace_id, id);
    assert!(paths.ledger_path.starts_with("/state"));
    assert!(paths.lock_path.starts_with("/run"));
    let custom = DaemonPaths::resolve(
        "/tmp/work".into(),
        Some("/elsewhere/agent.sock".into()),
        "/state",
        "/run",
    );
    assert_eq!(custom.socket_path, "/elsewhere/agent.sock");
}

#[test]
fn mode_verification_rejects_wide_permissions() {
    let error = verify_mode("/tmp/shared", 0o40755, PRIVATE_DIRECTORY_MODE).unwrap_err();

    assert!(error.contains("expected 0700, got 0755"));
    assert_eq!(
        verify_mode("/tmp/private", 0o40700, PRIVATE_DIRECTORY_MODE),
        Ok(())
    );
}

#[test]
fn bind_restricts_preexisting_wide_custom_socket_parent() {
    assert_eq!(
        socket_directories("/run/user/7", "/tmp/shared/agent.sock"),
        Ok(vec!["/tmp/shared".into()])
    );
    assert_eq!(
        socket_directories("/run/user/7", "/run/user/7/plato/agent.sock"),
        Ok(vec!["/run/user/7/plato".into(), "/run/user/7".into()])
    );
    assert_eq!(
        socket_directories("/run", "/"),
        Err("socket path has no parent".into())
    );
}

#[test]
fn runtime_permission_hardening_covers_the_private_chain() {
    let root = "/tmp/root/user";
    let leaf = "/tmp/root/user/plato-agent/workspaces/workspace-1";

    assert_eq!(
        private_directories(leaf, &Some(root.into())),
        Ok(vec![
            leaf.into(),
            "/tmp/root/user/plato-agent/workspaces".into(),
            "/tmp/root/user/plato-agent".into(),
            root.into(),
        ])
    );
    assert_eq!(
        private_directories("/elsewhere", &Some(root.into())),
        Err("private directory is outside its runtime root".into())
    );
    assert_eq!(
        runtime_directories(root, "/tmp/root/user/agent.lock"),
        Ok(vec![root.into()])
    );
    assert_eq!(
        runtime_directories(root, "/"),
        Err("runtime path has no parent".into())
    );
}

fn greeting(root: &str, id: &str) -> String {
    format!(
        r#"{{"v":1,"id":"req_1","kind":"request","method":"hello","params":{{"workspace_root":"{root}","workspace_id":"{id}"}}}}"#
    )
}

#[test]
fn hello_round_trip_over_unix_socket() {
    let mut server = server();
    let id = server.paths.workspace_id.clone();
    let response = served(
        &mut server,
        &SqliteLedger::new(),
        &greeting("/tmp/work", &id),
    );

    assert_eq!(response.kind, EnvelopeKind::Response);
    assert_eq!(response.id.as_deref(), Some("req_1"));
    assert_eq!(response.method.as_deref(), Some("hello"));
    let result = response.result.unwrap();
    assert_eq!(result.text_member("workspace_id"), Some(id));
    assert_eq!(
        result.get("capabilities"),
        Some(&json(
            r#"["hello", "run.start", "message.append", "events.stream", "approval.decide",
                "run.cancel", "sessions.list", "transcript.read", "transcript.read.typed"]"#
        ))
    );
}

#[test]
fn hello_rejects_workspace_mismatch() {
    let mut server = server();
    let response = served(
        &mut server,
        &SqliteLedger::new(),
        &greeting("/tmp/work", "wrong"),
    );

    assert_eq!(response.kind, EnvelopeKind::Error);
    assert_eq!(code(&response), ERROR_WORKSPACE_MISMATCH);

    let id = server.paths.workspace_id.clone();
    let elsewhere = server.answer_hello(Some("req_1".into()), Ok("/tmp/other".into()));
    assert_eq!(code(&elsewhere), ERROR_WORKSPACE_MISMATCH);
    assert_eq!(id, server.paths.workspace_id);
}

#[test]
fn run_start_reports_shared_driver_error() {
    let mut server = server();
    let order = order(server.handle_line(
        r#"{"v":1,"id":"run_1","kind":"request","method":"run.start","params":{"question":"hello","config_path":"/tmp/work/plato.toml","wait":true}}"#,
    ));
    assert!(order.wait);
    assert_eq!(order.config_path.as_deref(), Some("/tmp/work/plato.toml"));
    let response = answer_failed_run(
        order.id,
        order.method,
        &AppError::MissingApiKey("PLATO_AGENT_TEST_MISSING_KEY".into()),
    );
    let error = response.error.unwrap();

    assert_eq!(response.kind, EnvelopeKind::Error);
    assert_eq!(response.method.as_deref(), Some("run.start"));
    assert_eq!(error.code, ERROR_RUN_FAILED);
    assert!(error.message.contains("PLATO_AGENT_TEST_MISSING_KEY"));
}

fn approval() -> ApprovalRequest {
    ApprovalRequest {
        run_id: "run_1".into(),
        call_id: "call_1".into(),
        tool_name: "file.write".into(),
        effect: EffectClass::WorkspaceWrite,
        reason: "file.write requires approval".into(),
        approval_preview: None,
        diff_preview: None,
    }
}

fn holds_approval(events: &Json) -> bool {
    match events {
        Json::Array(entries) => entries.iter().any(|entry| {
            entry.text_at(&vec!["event", "kind"]) == Some("approval_requested".into())
                && entry.text_at(&vec!["event", "tool_call_id"]) == Some("call_1".into())
        }),
        _ => false,
    }
}

#[test]
fn run_start_without_wait_returns_while_approval_is_pending_on_same_connection() {
    let mut server = server();
    let order = order(server.handle_line(
        r#"{"v":1,"id":"run_1","kind":"request","method":"run.start","params":{"question":"write a file"}}"#,
    ));
    assert!(!order.wait);
    assert_eq!(order.target, RunTarget::NewSession);
    assert!(server
        .reserve_run(order.id.clone(), order.method, "session_1", "run_1")
        .is_none());
    let response = run_start_response(order.id, order.method, &server.runs[0]);
    assert_eq!(response.kind, EnvelopeKind::Response);
    let result = response.result.unwrap();
    assert_eq!(result.text_member("status"), Some("running".into()));
    assert_eq!(result.get("final_answer"), Some(&Json::Null));

    server.runs[0].begin_approval(&approval());
    let tables = SqliteLedger::new();
    let response = served(
        &mut server,
        &tables,
        r#"{"v":1,"id":"events_0","kind":"request","method":"events.stream","params":{"run_id":"run_1","from_offset":0,"limit":32}}"#,
    );
    assert!(holds_approval(
        response.result.unwrap().get("events").unwrap()
    ));
    let response = served(
        &mut server,
        &tables,
        r#"{"v":1,"id":"deny_1","kind":"request","method":"approval.decide","params":{"run_id":"run_1","tool_call_id":"call_1","decision":"deny","reason":"test done"}}"#,
    );
    assert_eq!(response.kind, EnvelopeKind::Response);
    assert_eq!(
        response.result.unwrap().text_member("status"),
        Some("running".into())
    );
    assert_eq!(
        server.runs[0].poll_approval("call_1"),
        Some(ApprovalOutcome::Denied {
            reason: "test done".into()
        })
    );
}

fn cancel(server: &mut DaemonRuntime) -> Envelope {
    answer(server.handle_line(
        r#"{"v":1,"id":"cancel_1","kind":"request","method":"run.cancel","params":{"run_id":"run_1"}}"#,
    ))
}

#[test]
fn run_cancel_unblocks_pending_approval_within_bound() {
    let mut server = with_run("run_1", "session_1");
    server.runs[0].begin_approval(&approval());
    assert_eq!(server.runs[0].poll_approval("call_1"), None);

    let response = cancel(&mut server);

    assert_eq!(response.kind, EnvelopeKind::Response);
    assert!(matches!(
        server.runs[0].poll_approval("call_1"),
        Some(ApprovalOutcome::Denied { .. })
    ));
    server.settle_run("run_1", Err("run canceled".into()));
    assert_eq!(server.runs[0].status().state, RunStateName::Canceled);
}

#[test]
fn run_cancel_synchronizes_with_pending_approval() {
    let mut server = with_run("run_1", "session_1");
    server.runs[0]
        .approvals
        .push(PendingApproval::new("call_1".into()));

    let response = cancel(&mut server);

    assert_eq!(response.kind, EnvelopeKind::Response);
    assert_eq!(
        response.result.unwrap().text_member("status"),
        Some("cancel_requested".into())
    );
    assert!(server.runs[0].cancel);
}

#[test]
fn different_sessions_run_concurrently_with_separate_ledgers() {
    let mut server = server();
    for (session_id, run_id) in [("session_1", "run_1"), ("session_2", "run_2")] {
        assert!(server
            .reserve_run(Some("req".into()), "run.start", session_id, run_id)
            .is_none());
    }
    assert_eq!(server.runs.len(), 2);
    let mut tables = SqliteLedger::new();
    for (session_id, run_id, question) in [
        ("session_1", "run_1", "question one"),
        ("session_2", "run_2", "question two"),
    ] {
        tables
            .begin_session_run(1, session_id, run_id, question, true)
            .unwrap();
    }
    tables.finish_session_run(2, "run_2", "answer two").unwrap();
    tables.finish_session_run(3, "run_1", "answer one").unwrap();

    for (session_id, question, answer) in [
        ("session_1", "question one", "answer one"),
        ("session_2", "question two", "answer two"),
    ] {
        let turns = tables.session_turns(session_id).unwrap();
        assert_eq!(turns.len(), 1);
        assert_eq!(turns[0].question, question);
        assert_eq!(turns[0].final_answer, answer);
    }
}

#[test]
fn concurrent_message_append_reserves_only_one_session_run() {
    const CLIENTS: usize = 64;

    let mut server = server();
    let answers: Vec<Option<Envelope>> = (0..CLIENTS)
        .map(|index| {
            let line = format!(
                r#"{{"v":1,"id":"append_{index}","kind":"request","method":"message.append","params":{{"message":"write a file","session_id":"shared_session"}}}}"#
            );
            let order = order(server.handle_line(&line));
            assert_eq!(order.target, RunTarget::Session("shared_session".into()));
            server.reserve_run(
                order.id,
                order.method,
                "shared_session",
                &format!("run_{index}"),
            )
        })
        .collect();

    assert_eq!(answers.iter().filter(|answer| answer.is_none()).count(), 1);
    assert_eq!(
        answers
            .iter()
            .flatten()
            .filter(|answer| code(answer) == ERROR_OVERLOAD)
            .count(),
        CLIENTS - 1
    );
}

#[test]
fn run_start_rejects_invalid_params_before_driver() {
    let response = answer(server().handle_line(
        r#"{"v":1,"id":"run_1","kind":"request","method":"run.start","params":{}}"#,
    ));

    assert_eq!(response.kind, EnvelopeKind::Error);
    assert_eq!(code(&response), ERROR_MALFORMED_REQUEST);
}

#[test]
fn unknown_methods_are_refused() {
    let response = answer(
        server().handle_line(r#"{"v":1,"id":"x_1","kind":"request","method":"dance"}"#),
    );

    assert_eq!(code(&response), ERROR_UNSUPPORTED_METHOD);
}

fn page(server: &mut DaemonRuntime, from: u64) -> Json {
    answer(server.handle_line(&format!(
        r#"{{"v":1,"id":"events_1","kind":"request","method":"events.stream","params":{{"run_id":"run_1","from_offset":{from},"limit":1}}}}"#
    )))
    .result
    .unwrap()
}

#[test]
fn events_stream_returns_buffered_events() {
    let mut server = with_run("run_1", "session_1");
    server.runs[0].push_event(json(r#"{"kind": "test"}"#));

    let result = page(&mut server, 0);

    assert_eq!(result.text_member("run_id"), Some("run_1".into()));
    assert_eq!(result.array_member("events").unwrap().len(), 1);
    assert_eq!(result.number_member("next_offset"), Some(1));
}

#[test]
fn events_stream_next_offset_advances_by_returned_page() {
    let mut server = with_run("run_1", "session_1");
    server.runs[0].push_event(json(r#"{"kind": "first"}"#));
    server.runs[0].push_event(json(r#"{"kind": "second"}"#));

    let first = page(&mut server, 0);
    let second = page(&mut server, 1);

    assert_eq!(first.number_member("next_offset"), Some(1));
    assert_eq!(
        first.array_member("events").unwrap()[0].text_at(&vec!["event", "kind"]),
        Some("first".into())
    );
    assert_eq!(second.number_member("next_offset"), Some(2));
    assert_eq!(
        second.array_member("events").unwrap()[0].text_at(&vec!["event", "kind"]),
        Some("second".into())
    );
}

fn lagging() -> DaemonRuntime {
    let mut server = with_run("run_1", "session_1");
    for index in 0..(MAX_EVENT_BUFFER + 1) {
        server.runs[0].push_event(json(&format!(r#"{{"index": {index}}}"#)));
    }
    server
}

#[test]
fn events_stream_reports_lagged_offsets() {
    let response = answer(lagging().handle_line(
        r#"{"v":1,"id":"events_1","kind":"request","method":"events.stream","params":{"run_id":"run_1","from_offset":0}}"#,
    ));

    assert_eq!(response.kind, EnvelopeKind::Error);
    assert_eq!(code(&response), ERROR_LAGGED);
}

/// What a client makes of a request that is served.
fn asked(
    server: &mut DaemonRuntime,
    tables: &SqliteLedger,
    request: ClientRequest,
) -> Result<Json, AppError> {
    let method = request.method;
    let line = request.to_line("req_1".into());
    let response = served(server, tables, &line).to_json().render();
    read_response(&response, "req_1", method)
}

#[test]
fn client_recovers_from_lag_at_tip_with_typed_final_state() {
    let mut server = with_run("run_1", "session_1");
    server.runs[0].set_finished("done".into());
    let finished = server.runs[0].events.next_offset;
    for index in 0..(MAX_EVENT_BUFFER + 1) {
        server.runs[0].push_event(json(&format!(r#"{{"index": {index}}}"#)));
    }
    let mut tables = SqliteLedger::new();
    seed_finished_session(&mut tables, "run_1", "session_1", "done");

    let error = asked(
        &mut server,
        &tables,
        ClientRequest::events_stream("run_1", Some(0), 16),
    )
    .unwrap_err();
    assert!(matches!(
        error,
        AppError::DaemonResponse(ProtocolError { code, .. }) if code == ERROR_LAGGED
    ));

    let tail = asked(
        &mut server,
        &tables,
        ClientRequest::events_stream("run_1", None, 16),
    )
    .unwrap();
    let tail = events_result(&tail).unwrap();
    assert_eq!(tail.from_offset, finished + (MAX_EVENT_BUFFER + 1) as u64);
    assert_eq!(tail.next_offset, tail.from_offset);
    assert!(tail.events.is_empty());
    assert_eq!(tail.status, RunStateName::Finished);

    let read = asked(
        &mut server,
        &tables,
        ClientRequest::transcript_read("run_1"),
    )
    .unwrap();
    let transcript = transcript_result(&read).unwrap();
    assert_eq!(transcript.status, RunStateName::Finished);
    assert_eq!(transcript.final_answer.as_deref(), Some("done"));
}

#[test]
fn client_recovers_typed_final_answer_after_daemon_restart() {
    let mut tables = SqliteLedger::new();
    seed_finished_session(&mut tables, "run_1", "session_1", "persisted answer");
    let mut restarted = server();

    let listed = asked(&mut restarted, &tables, ClientRequest::sessions_list()).unwrap();
    let sessions = sessions_result(&listed).unwrap().sessions;
    assert_eq!(sessions[0].session_id, "session_1");
    assert_eq!(sessions[0].status, RunStateName::Finished);

    let read = asked(
        &mut restarted,
        &tables,
        ClientRequest::transcript_read_session("session_1"),
    )
    .unwrap();
    let transcript = transcript_result(&read).unwrap();
    assert_eq!(transcript.run_id, "run_1");
    assert_eq!(transcript.status, RunStateName::Finished);
    assert_eq!(transcript.final_answer.as_deref(), Some("persisted answer"));
}

#[test]
fn transcript_read_returns_one_typed_run_or_all_session_runs_in_order() {
    let mut tables = SqliteLedger::new();
    seed_finished_session_run(
        &mut tables,
        "run_1",
        "session_1",
        "first question",
        "first answer",
        true,
    );
    seed_finished_session_run(
        &mut tables,
        "run_2",
        "session_1",
        "second question",
        "second answer",
        false,
    );
    let mut server = server();

    let run = served(
        &mut server,
        &tables,
        r#"{"v":1,"id":"run_read","kind":"request","method":"transcript.read","params":{"run_id":"run_2"}}"#,
    );
    assert_eq!(run.kind, EnvelopeKind::Response);
    assert_eq!(
        json(&run.result.unwrap().render()),
        json(
            r#"{
                "run_id": "run_2",
                "status": "finished",
                "final_answer": "second answer",
                "transcript": "final_phase: Finished\nnext_seq: 5\n[turn_run_2] assistant: second answer",
                "typed": {
                    "runs": [{
                        "run_id": "run_2",
                        "session_index": 1,
                        "status": "finished",
                        "entries": [
                            {"kind": "user", "text": "second question"},
                            {"kind": "assistant", "text": "second answer"}
                        ]
                    }]
                }
            }"#
        )
    );

    let session = served(
        &mut server,
        &tables,
        r#"{"v":1,"id":"session_read","kind":"request","method":"transcript.read","params":{"session_id":"session_1"}}"#,
    );
    assert_eq!(session.kind, EnvelopeKind::Response);
    assert_eq!(
        json(&session.result.unwrap().render()),
        json(
            r#"{
                "run_id": "run_2",
                "status": "finished",
                "final_answer": "second answer",
                "transcript": "session_id: session_1\nrun_id: run_1\nfinal_phase: Finished\nnext_seq: 5\n[turn_run_1] assistant: first answer\nrun_id: run_2\nfinal_phase: Finished\nnext_seq: 5\n[turn_run_2] assistant: second answer",
                "typed": {
                    "runs": [
                        {
                            "run_id": "run_1",
                            "session_index": 0,
                            "status": "finished",
                            "entries": [
                                {"kind": "user", "text": "first question"},
                                {"kind": "assistant", "text": "first answer"}
                            ]
                        },
                        {
                            "run_id": "run_2",
                            "session_index": 1,
                            "status": "finished",
                            "entries": [
                                {"kind": "user", "text": "second question"},
                                {"kind": "assistant", "text": "second answer"}
                            ]
                        }
                    ]
                }
            }"#
        )
    );
}

#[test]
fn transcript_read_distinguishes_missing_from_internal_failures() {
    let missing = served(
        &mut server(),
        &SqliteLedger::new(),
        r#"{"v":1,"id":"transcript_1","kind":"request","method":"transcript.read","params":{"run_id":"run_missing"}}"#,
    );
    assert_eq!(missing.kind, EnvelopeKind::Error);
    assert_eq!(code(&missing), ERROR_NOT_FOUND);

    let corrupt = answer_transcript(
        Some("transcript_2".into()),
        Err(AppError::Sqlite("file is not a database".into())),
    );
    assert_eq!(corrupt.kind, EnvelopeKind::Error);
    assert_eq!(code(&corrupt), ERROR_INTERNAL);
}

#[test]
fn approval_decide_updates_pending_request() {
    let mut server = with_run("run_1", "session_1");
    server.runs[0]
        .approvals
        .push(PendingApproval::new("call_1".into()));

    let response = answer(server.handle_line(
        r#"{"v":1,"id":"approval_1","kind":"request","method":"approval.decide","params":{"run_id":"run_1","tool_call_id":"call_1","decision":"grant"}}"#,
    ));

    assert_eq!(response.kind, EnvelopeKind::Response);
    assert_eq!(
        server.runs[0].approvals[0].decision,
        Some(ApprovalOutcome::Granted)
    );
}

#[test]
fn decisions_are_grant_or_deny() {
    let mut server = with_run("run_1", "session_1");
    server.runs[0]
        .approvals
        .push(PendingApproval::new("call_1".into()));

    let response = answer(server.handle_line(
        r#"{"v":1,"id":"approval_1","kind":"request","method":"approval.decide","params":{"run_id":"run_1","tool_call_id":"call_1","decision":"maybe"}}"#,
    ));

    assert_eq!(code(&response), ERROR_MALFORMED_REQUEST);
    assert_eq!(server.runs[0].approvals[0].decision, None);
}

fn list(server: &mut DaemonRuntime, tables: &SqliteLedger) -> Vec<SessionSummary> {
    let response = served(
        server,
        tables,
        r#"{"v":1,"id":"sessions_1","kind":"request","method":"sessions.list"}"#,
    );
    assert_eq!(response.kind, EnvelopeKind::Response);
    sessions_result(&response.result.unwrap()).unwrap().sessions
}

#[test]
fn sessions_list_reports_run_projection() {
    let sessions = list(
        &mut with_run("run_1", "session_1"),
        &SqliteLedger::new(),
    );

    assert_eq!(sessions[0].session_id, "session_1");
    assert_eq!(sessions[0].run_id, "run_1");
    assert_eq!(sessions[0].status, RunStateName::Running);
}

#[test]
fn sessions_list_reports_persisted_sessions_after_restart() {
    let mut tables = SqliteLedger::new();
    tables
        .begin_session_run(1, "session_1", "run_1", "first question", true)
        .unwrap();
    tables
        .finish_session_run(2, "run_1", "first answer")
        .unwrap();

    let sessions = list(&mut server(), &tables);

    assert_eq!(sessions[0].session_id, "session_1");
    assert_eq!(sessions[0].run_id, "run_1");
    assert_eq!(sessions[0].status, RunStateName::Finished);
    assert_eq!(sessions[0].latest_question, "first question");
}

#[test]
fn sessions_list_empty_fresh_workspace_does_not_create_ledger() {
    assert_eq!(list(&mut server(), &SqliteLedger::new()).len(), 0);
}

#[test]
fn sessions_list_failure_uses_dedicated_error_code() {
    let response = server().answer_sessions(
        Some("sessions_1".into()),
        Err(AppError::Sqlite("file is not a database".into())),
    );

    assert_eq!(response.kind, EnvelopeKind::Error);
    assert_eq!(response.method.as_deref(), Some("sessions.list"));
    assert_eq!(code(&response), ERROR_SESSIONS_LIST_FAILED);
}

#[test]
fn sessions_list_marks_orphaned_running_session_interrupted_after_restart() {
    let mut tables = SqliteLedger::new();
    tables
        .begin_session_run(1, "session_1", "run_1", "first question", true)
        .unwrap();

    let sessions = list(&mut server(), &tables);

    assert_eq!(sessions[0].session_id, "session_1");
    assert_eq!(sessions[0].run_id, "run_1");
    assert_eq!(sessions[0].status, RunStateName::Interrupted);
}

#[test]
fn daemon_startup_reconciles_orphaned_running_session_for_resume() {
    let mut tables = SqliteLedger::new();
    tables
        .begin_session_run(1, "session_1", "run_1", "first question", true)
        .unwrap();

    assert_eq!(
        tables.interrupt_running_session_runs(2, ORPHANED_RUN),
        Ok(1)
    );

    assert_eq!(
        tables.session_summaries()[0].status,
        RunStateName::Interrupted
    );
    tables
        .begin_session_run(3, "session_1", "run_2", "follow up", false)
        .unwrap();
}

#[test]
fn sessions_list_reports_latest_question_preview() {
    let long_question = format!("{}\nsecond line", "x".repeat(130));
    let mut tables = SqliteLedger::new();
    tables
        .begin_session_run(1, "session_1", "run_1", &long_question, true)
        .unwrap();
    tables
        .finish_session_run(2, "run_1", "first answer")
        .unwrap();

    let sessions = list(&mut server(), &tables);

    assert_eq!(
        sessions[0].latest_question,
        format!("{}...", "x".repeat(120))
    );
    assert_eq!(latest_question_preview("short\nsecond"), "short");
}

#[test]
fn message_append_rejects_active_session_run() {
    let mut server = with_run("run_1", "session_1");
    let order = order(server.handle_line(
        r#"{"v":1,"id":"append_1","kind":"request","method":"message.append","params":{"session_id":"session_1","message":"again"}}"#,
    ));
    let response = server
        .reserve_run(order.id, order.method, "session_1", "run_2")
        .unwrap();
    let error = response.error.unwrap();

    assert_eq!(response.kind, EnvelopeKind::Error);
    assert_eq!(error.code, ERROR_OVERLOAD);
    assert!(error.message.contains("session already has an active run"));
}

#[test]
fn message_append_without_wait_returns_running_by_default() {
    let mut server = server();
    let order = order(server.handle_line(
        r#"{"v":1,"id":"append_1","kind":"request","method":"message.append","params":{"session_id":"session_1","message":"follow up"}}"#,
    ));
    assert!(!order.wait);
    assert!(server
        .reserve_run(order.id.clone(), order.method, "session_1", "run_2")
        .is_none());
    let response = run_start_response(order.id, order.method, &server.runs[0]);

    assert_eq!(response.kind, EnvelopeKind::Response);
    let result = started_result(&response.result.unwrap(), order.method).unwrap();
    assert_eq!(result.status, RunStateName::Running);
    assert_eq!(result.run_id, "run_2");
}

#[test]
fn a_message_without_a_session_goes_to_the_latest() {
    let order = order(server().handle_line(
        r#"{"v":1,"id":"append_1","kind":"request","method":"message.append","params":{"message":"follow up"}}"#,
    ));
    assert_eq!(order.target, RunTarget::LatestSession);
    let response = answer_no_session(order.id, order.method, AppError::NoSqliteSessions);
    assert_eq!(code(&response), ERROR_NOT_FOUND);
}

#[test]
fn finished_runs_tell_their_answer() {
    let mut server = with_run("run_1", "session_1");
    server.publish(
        "run_1",
        RunEvent::AssistantDelta(AssistantDeltaEvent {
            run_id: "run_1".into(),
            turn_id: "turn_1".into(),
            step: 0,
            delta_index: 0,
            text: "Hel".into(),
        }),
    );
    server.settle_run("run_1", Ok("Hello".into()));

    assert_eq!(server.runs[0].status().state, RunStateName::Finished);
    let response = run_start_response(None, "run.start", &server.runs[0]);
    assert_eq!(
        response.result.unwrap().text_member("final_answer"),
        Some("Hello".into())
    );
    let first = page(&mut server, 0);
    let event = &first.array_member("events").unwrap()[0];
    assert_eq!(
        event.text_at(&vec!["event", "kind"]),
        Some("assistant_delta".into())
    );
    assert_eq!(event.text_at(&vec!["event", "run_id"]), Some("run_1".into()));
    assert_eq!(event.text_at(&vec!["event", "text"]), Some("Hel".into()));
}

#[test]
fn approval_requested_event_carries_diff_preview_when_present() {
    let mut request = approval();
    request.tool_name = "file.edit".into();
    request.reason = "file.edit requires approval".into();
    request.diff_preview = Some("--- a/note.txt\n+++ b/note.txt\n".into());
    let event = approval_requested_event(&request);

    assert_eq!(event.text_member("kind"), Some("approval_requested".into()));
    assert_eq!(
        event.text_member("diff_preview"),
        Some("--- a/note.txt\n+++ b/note.txt\n".into())
    );
}

#[test]
fn approval_requested_event_omits_diff_preview_when_absent() {
    let event = approval_requested_event(&approval());

    assert!(event.get("diff_preview").is_none());
}

#[test]
fn run_state_names_keep_wire_values() {
    let cases = [
        (RunStateName::Running, "running"),
        (RunStateName::Finished, "finished"),
        (RunStateName::Failed, "failed"),
        (RunStateName::Canceled, "canceled"),
        (RunStateName::CancelRequested, "cancel_requested"),
        (RunStateName::Interrupted, "interrupted"),
    ];

    for (state, wire_value) in cases {
        assert_eq!(state.as_str(), wire_value);
        let sent = CommandAcceptedResult {
            run_id: "run_1".into(),
            status: state,
        };
        assert_eq!(
            sent.to_json().text_member("status"),
            Some(wire_value.into())
        );
        assert_eq!(RunStateName::from_name(wire_value), Some(state));
    }
    assert_eq!(RunStateName::from_name("dancing"), None);
}

#[test]
fn decodes_request_envelope() {
    let envelope = decode_request(
        r#"{"v":1,"id":"req_1","kind":"request","method":"hello","params":{"workspace_root":"/tmp/work","workspace_id":"work-1234"}}"#,
    )
    .unwrap();

    assert_eq!(envelope.id.as_deref(), Some("req_1"));
    assert_eq!(envelope.method.as_deref(), Some("hello"));
}

#[test]
fn rejects_unsupported_version_with_typed_error() {
    let error =
        decode_request(r#"{"v":2,"id":"req_1","kind":"request","method":"hello","params":{}}"#)
            .unwrap_err();

    assert_eq!(error.kind, EnvelopeKind::Error);
    assert_eq!(
        error.error.unwrap().code,
        ERROR_UNSUPPORTED_VERSION.to_string()
    );
}

#[test]
fn response_serializes_without_request_params() {
    let response = Envelope::response(
        Some("req_1".into()),
        Some("hello".into()),
        json(r#"{"workspace_id":"work-1234"}"#),
    );

    let raw = response.to_json().render();

    assert!(raw.contains(r#""kind":"response""#));
    assert!(!raw.contains("params"));
}

#[test]
fn lines_that_are_no_requests_are_refused() {
    for line in [
        "nonsense",
        r#"{"v":1}"#,
        r#"{"v":1,"kind":"response","method":"hello"}"#,
        r#"{"v":1,"kind":"request"}"#,
    ] {
        let error = decode_request(line).unwrap_err();
        assert_eq!(code(&error), ERROR_MALFORMED_REQUEST);
    }
}

fn metadata() -> LockMetadata {
    LockMetadata::for_workspace(
        42,
        Some("/usr/bin/plato-agentd".into()),
        "/tmp/work".into(),
        "work-1234".into(),
        "/tmp/agent.sock".into(),
    )
}

#[test]
fn lock_conflict_reports_owner_metadata() {
    let held = WorkspaceLock::acquire("/tmp/agent.lock".into(), LockFile::Made).unwrap();
    assert_eq!(held.path, "/tmp/agent.lock");
    let raw = metadata().to_json().render() + "\n";
    let conflict = WorkspaceLock::acquire("/tmp/agent.lock".into(), LockFile::Exists(Ok(raw)))
        .expect_err("second lock must conflict");

    assert_eq!(conflict.metadata, Some(metadata()));
    assert!(conflict.owner_summary().contains("pid="));
    assert!(conflict.owner_summary().contains("workspace_id="));
    assert!(conflict.owner_summary().contains("socket_path="));
    match lock_conflict_error(conflict) {
        AppError::DaemonLockHeld { path, owner } => {
            assert_eq!(path, "/tmp/agent.lock");
            assert!(owner.contains("pid=42"));
        }
        other => panic!("unexpected error: {other:?}"),
    }
}

#[test]
fn lock_conflict_reports_unreadable_metadata_without_stealing() {
    let conflict = WorkspaceLock::acquire(
        "/tmp/agent.lock".into(),
        LockFile::Exists(Ok("not json".into())),
    )
    .expect_err("corrupt existing lock still conflicts");

    assert!(conflict.owner_summary().contains("metadata unreadable"));
    assert_eq!(conflict.metadata, None);
    let unread = read_conflict("/tmp/agent.lock".into(), Err("denied".into()));
    assert!(unread.owner_summary().contains("denied"));
    let failed = WorkspaceLock::acquire("/l".into(), LockFile::Failed("read-only".into()));
    assert_eq!(
        failed.unwrap_err().owner_summary(),
        "metadata unreadable: read-only"
    );
}

#[test]
fn a_workspace_with_a_lock_file_is_locked() {
    assert!(ensure_workspace_unlocked("/tmp/agent.lock".into(), None).is_ok());
    let raw = metadata().to_json().render();
    match ensure_workspace_unlocked("/tmp/agent.lock".into(), Some(Ok(raw))) {
        Err(AppError::DaemonLockHeld { path, owner }) => {
            assert_eq!(path, "/tmp/agent.lock");
            assert_eq!(owner, metadata().summary());
        }
        other => panic!("unexpected answer: {other:?}"),
    }
}

#[test]
fn client_sends_hello_and_sessions_requests() {
    let id = workspace_id_from_canonical_path("/tmp/work");
    let mut counter = RequestCounter::new();
    let first = counter.next_request_id("hello");
    let hello = decode_request(&ClientRequest::hello("/tmp/work").to_line(first.clone())).unwrap();
    assert_eq!(hello.method.as_deref(), Some("hello"));
    let params = hello.params.unwrap();
    assert_eq!(params.text_member("workspace_id"), Some(id.clone()));
    assert_eq!(params.text_member("workspace_root"), Some("/tmp/work".into()));
    let greeted = Envelope::response(
        Some(first.clone()),
        Some("hello".into()),
        json(&format!(
            r#"{{"daemon_version": "0.1.0", "workspace_id": "{id}", "ledger_path": "/tmp/agent.db",
                "capabilities": ["hello", "sessions.list"]}}"#
        )),
    )
    .to_json()
    .render();
    let result = read_response(&greeted, &first, "hello").unwrap();
    assert_eq!(hello_result(&result).unwrap().workspace_id, id);

    let second = counter.next_request_id("sessions.list");
    assert_ne!(first, second);
    let sessions =
        decode_request(&ClientRequest::sessions_list().to_line(second.clone())).unwrap();
    assert_eq!(sessions.method.as_deref(), Some("sessions.list"));
    let listed = Envelope::response(
        Some(second.clone()),
        Some("sessions.list".into()),
        json(
            r#"{"sessions": [{"session_id": "run_1", "run_id": "run_1", "status": "finished",
                "latest_question": "why?", "ledger_path": "/tmp/agent.db"}]}"#,
        ),
    )
    .to_json()
    .render();
    let result = read_response(&listed, &second, "sessions.list").unwrap();
    assert_eq!(
        sessions_result(&result).unwrap().sessions,
        vec![SessionSummary {
            session_id: "run_1".into(),
            run_id: "run_1".into(),
            status: RunStateName::Finished,
            latest_question: "why?".into(),
            ledger_path: "/tmp/agent.db".into(),
        }]
    );
}

#[test]
fn client_maps_protocol_errors() {
    let line = Envelope::error(
        Some("req_1".into()),
        Some("sessions.list".into()),
        "not_found",
        "missing".into(),
    )
    .to_json()
    .render();
    let error = read_response(&line, "req_1", "sessions.list").unwrap_err();

    assert!(error.message().contains("not_found: missing"));
}

#[test]
fn answers_to_another_request_are_refused() {
    let line = Envelope::response(Some("req_1".into()), Some("hello".into()), json("{}"))
        .to_json()
        .render();

    assert!(matches!(
        read_response(&line, "req_2", "hello"),
        Err(AppError::DaemonProtocol(_))
    ));
    assert!(read_response(&line, "req_1", "hello").is_ok());
}

#[test]
fn client_sends_run_start_and_events_stream_requests() {
    let run_start = ClientRequest::run_start(
        "summarize this".into(),
        Some("plato.toml".into()),
        false,
    );
    assert_eq!(run_start.method, "run.start");
    let params = run_start.params.unwrap();
    assert_eq!(params.text_member("question"), Some("summarize this".into()));
    assert_eq!(params.flag_member("wait"), Some(false));
    let run = started_result(
        &json(
            r#"{"run_id": "run_1", "session_id": "run_1", "ledger_path": "/tmp/agent.db",
                "status": "running", "final_answer": null}"#,
        ),
        "run.start",
    )
    .unwrap();

    let events = ClientRequest::events_stream(&run.run_id, Some(2), 16);
    assert_eq!(events.method, "events.stream");
    let params = events.params.unwrap();
    assert_eq!(params.text_member("run_id"), Some("run_1".into()));
    assert_eq!(params.number_member("from_offset"), Some(2));
    assert_eq!(params.number_member("limit"), Some(16));
    let page = events_result(&json(
        r#"{"run_id": "run_1", "from_offset": 2, "next_offset": 3, "status": "running",
            "events": [{"offset": 2, "event": {"kind": "test"}}]}"#,
    ))
    .unwrap();

    assert_eq!(run.run_id, "run_1");
    assert_eq!(page.next_offset, 3);
    assert_eq!(page.events.len(), 1);
}

#[test]
fn clients_look_for_the_socket_of_the_workspace() {
    let found = DaemonConnectionConfig::resolve("/tmp/work".into(), None, "/run");

    assert_eq!(found.socket_path, paths().socket_path);
    let given =
        DaemonConnectionConfig::resolve("/tmp/work".into(), Some("/a.sock".into()), "/run");
    assert_eq!(given.socket_path, "/a.sock");
}

fn seed_finished_session(tables: &mut SqliteLedger, run_id: &str, session_id: &str, answer: &str) {
    seed_finished_session_run(tables, run_id, session_id, "question", answer, true);
}

fn seed_finished_session_run(
    tables: &mut SqliteLedger,
    run_id: &str,
    session_id: &str,
    question: &str,
    answer: &str,
    create_session: bool,
) {
    let turn_id = format!("turn_{run_id}");
    tables
        .begin_session_run(1, session_id, run_id, question, create_session)
        .unwrap();
    let events = vec![
        HarnessEvent::RunStarted {
            run_id: run_id.into(),
            agent_id: "agent_1".into(),
        },
        HarnessEvent::ContextBuilt {
            run_id: run_id.into(),
            turn_id: turn_id.clone(),
            context: ContextPack {
                token_budget: 0,
                fragments: vec![],
            },
        },
        HarnessEvent::ModelRequested {
            run_id: run_id.into(),
            turn_id: turn_id.clone(),
            step: 0,
            model: "model_1".into(),
        },
        HarnessEvent::ModelResponded {
            run_id: run_id.into(),
            turn_id,
            step: 0,
            output: answer.into(),
            proposed_calls: vec![],
            usage: ModelUsage {
                input_tokens: 0,
                output_tokens: 0,
            },
        },
        HarnessEvent::RunFinished {
            run_id: run_id.into(),
        },
    ];
    for (seq, event) in events.into_iter().enumerate() {
        let record = RecordedEvent {
            seq: seq as u64,
            occurred_at_ms: seq as u64,
            event,
        };
        tables.append(run_id, StoredRecord::of(&record)).unwrap();
    }
    tables.finish_session_run(2, run_id, answer).unwrap();
}

#[test]
fn envelopes_and_parameters_are_told_in_lists() {
    let told = decode_request(r#"[1, "req_1", "request", "hello", ["/tmp/work", "work-1"]]"#).unwrap();
    assert_eq!(told.method.as_deref(), Some("hello"));

    assert_eq!(
        HelloParams::decode(&told.params.unwrap()),
        Ok(HelloParams {
            workspace_root: "/tmp/work".into(),
            workspace_id: "work-1".into(),
        })
    );
    for line in [
        r#"[1, "req_1"]"#,
        r#"[1, "req_1", "request", "hello", null, null, null, null]"#,
    ] {
        let refusal = decode_request(line).unwrap_err();
        assert_eq!(refusal.error.unwrap().code, ERROR_MALFORMED_REQUEST);
    }
}

#[test]
fn fields_stand_in_an_envelope_once() {
    let line = r#"{"v":1,"id":"req_1","kind":"request","method":"hello","\u0076":1}"#;
    let refusal = decode_request(line).unwrap_err();
    assert_eq!(
        refusal.error.unwrap().message,
        "request is not a valid protocol envelope: duplicate field `v`"
    );

    let inner = r#"{"v":1,"id":null,"kind":"error","error":{"code":"a","message":"b","code":"c"}}"#;
    assert_eq!(
        read_response(inner, "req_1", "hello"),
        Err(AppError::Json("duplicate field `code`".into()))
    );

    let carried = r#"{"v":1,"id":"req_1","kind":"request","method":"hello","params":{"v":1,"v":2}}"#;
    assert!(decode_request(carried).is_ok());
}

#[test]
fn strings_are_escaped_in_what_is_sent() {
    let text = "\u{1}\u{8}\t\n\u{c}\r\u{1f}\"\\/\u{7f}\u{e9}";
    let written = Json::text(text).render();

    assert_eq!(
        written,
        "\"\\u0001\\b\\t\\n\\f\\r\\u001f\\\"\\\\/\u{7f}\u{e9}\""
    );
    assert_eq!(Json::parse(&written), Ok(Json::text(text)));
}

fn complaint_about(method: &str, params: &str) -> String {
    let line = format!(r#"{{"v":1,"id":"r","kind":"request","method":"{method}","params":{params}}}"#);
    answer(server().handle_line(&line)).error.unwrap().message
}

#[test]
fn parameters_that_do_not_fit_are_told_in_words() {
    assert_eq!(
        complaint_about("events.stream", r#"{"run_id": "run_1", "limit": true}"#),
        "events.stream params are invalid: invalid type: boolean `true`, expected usize"
    );
    assert_eq!(
        complaint_about("run.start", r#"{"question": "why", "x": 1}"#),
        "run.start params are invalid: unknown field `x`, expected one of `question`, `config_path`, `wait`"
    );
    assert_eq!(
        complaint_about("approval.decide", r#"["run_1", "call_1"]"#),
        "approval.decide params are invalid: invalid length 2, expected struct ApprovalDecideParams with 4 elements"
    );
    assert_eq!(
        complaint_about("run.cancel", r#""run_1""#),
        "run.cancel params are invalid: invalid type: string \"run_1\", expected struct RunCancelParams"
    );
    assert_eq!(
        decode_request(r#"{"v":1,"id":null,"kind":"reply"}"#)
            .unwrap_err()
            .error
            .unwrap()
            .message,
        "request is not a valid protocol envelope: unknown variant `reply`, expected one of `request`, `response`, `event`, `error`"
    );
}

#[test]
fn names_may_be_told_as_the_member_of_an_object() {
    let request = decode_request(
        r#"{"v":1,"id":"r","kind":{"request":null},"method":"sessions.list"}"#,
    )
    .unwrap();
    assert_eq!(request.kind, EnvelopeKind::Request);
    assert!(decode_request(r#"{"v":1,"id":"r","kind":{"request":1},"method":"m"}"#).is_err());
    assert!(decode_request(r#"{"v":1,"id":"r","kind":{},"method":"m"}"#).is_err());
}

#[test]
fn transcripts_may_be_told_in_lists() {
    let told = transcript_result(&json(
        r#"["run_1", "finished", null, "text", [[["run_1", 0, {"finished": null}, [["user", "why"],
            ["tool_call", "call_1", "file.read", {}], ["approval", "call_1", "granted", "ann", null],
            ["tool_failed", "call_1", "gone"]]]]]]"#,
    ))
    .unwrap();
    let named = transcript_result(&json(
        r#"{"run_id": "run_1", "status": "finished", "final_answer": null, "transcript": "text",
            "typed": {"runs": [{"run_id": "run_1", "session_index": 0, "status": "finished",
            "entries": [{"kind": "user", "text": "why"},
            {"kind": "tool_call", "call_id": "call_1", "tool": "file.read", "input": {}},
            {"kind": "approval", "call_id": "call_1", "decision": "granted", "actor_id": "ann",
             "reason": null},
            {"kind": "tool_failed", "call_id": "call_1", "error": "gone"}]}]}}"#,
    ))
    .unwrap();

    assert_eq!(told, named);
    assert_eq!(told.typed.unwrap().runs[0].entries.len(), 4);
    assert!(transcript_result(&json(r#"["run_1", "finished", null]"#)).is_err());
}

#[test]
fn results_that_do_not_fit_are_told_in_words() {
    let said = |wrong: &str| AppError::Json(wrong.into());

    assert_eq!(
        hello_result(&json("{}")).unwrap_err(),
        said("missing field `daemon_version`")
    );
    assert_eq!(
        hello_result(&json(r#"{"capabilities": ["hello", 1], "x": 1}"#)).unwrap_err(),
        said("invalid type: integer `1`, expected a string")
    );
    assert_eq!(
        hello_result(&json(r#"{"capabilities": "hello"}"#)).unwrap_err(),
        said("invalid type: string \"hello\", expected a sequence")
    );
    assert_eq!(
        started_result(&json(r#"{"status": "lost"}"#), "run.start").unwrap_err(),
        said(
            "unknown variant `lost`, expected one of `running`, `finished`, `failed`, `canceled`, `cancel_requested`, `interrupted`"
        )
    );
    for (status, wrong) in [
        (r#"{"running": 5}"#, "invalid type: integer `5`, expected unit"),
        ("{}", "invalid value: map, expected map with a single key"),
        ("null", "invalid type: null, expected string or map"),
    ] {
        let result = json(&format!(r#"{{"run_id": "run_1", "status": {status}}}"#));
        assert_eq!(accepted_result(&result, "run.cancel").unwrap_err(), said(wrong));
    }
    assert_eq!(
        events_result(&json(r#"["run_1", -1, 0, "running", []]"#)).unwrap_err(),
        said("invalid value: integer `-1`, expected u64")
    );
    assert_eq!(
        sessions_result(&json(r#"{"sessions": [{}]}"#)).unwrap_err(),
        said("missing field `session_id`")
    );
    assert_eq!(
        sessions_result(&json(r#"{"sessions": 1}"#)).unwrap_err(),
        said("invalid type: integer `1`, expected a sequence")
    );
    assert_eq!(
        transcript_result(&json(r#"["run_1", "finished", null]"#)).unwrap_err(),
        said("invalid length 3, expected struct TranscriptReadResult with 6 elements")
    );
}

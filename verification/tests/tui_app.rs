//! Keys, commands and answers of the terminal interface.
use plato_agent::daemon::messages::{
    CommandAcceptedResult, EventsStreamResult, HelloResult, RunStartResult, SessionSummary,
};
use plato_agent::daemon::protocol::RunStateName;
use plato_agent::daemon::transcript::TranscriptReadResult;
use plato_agent::error::ProtocolError;
use plato_agent::json::Json;
use plato_agent::tui::app::{
    apply_events_result, apply_loaded_state, decide_approval, drain_client_events, handle_client_answer,
    handle_key_press, is_connection_error, loaded_state, maybe_poll_events, push_live_event, request_cancel,
    selected_run, shown_transcript, submit_composer, ApprovalAction, ClientCommand, ClientEvent,
    Key, KeyCode, Outbox, UiRuntime, ACTIVE_POLL_INTERVAL, EVENT_LIMIT, MAX_LIVE_EVENT_LINES,
};
use plato_agent::tui::{
    ActiveRunView, ApprovalModalView, ConnectionState, TranscriptState, TuiState,
};
use plato_agent::AppError;

fn json(text: &str) -> Json {
    Json::parse(text).unwrap()
}

fn test_state() -> TuiState {
    TuiState::connected(
        "/tmp/workspace".into(),
        "/tmp/agent.sock".into(),
        HelloResult {
            daemon_version: "0.1.0".into(),
            workspace_id: "workspace-1234".into(),
            ledger_path: "/tmp/agent.db".into(),
            capabilities: vec![],
        },
        Vec::new(),
        TranscriptState::Empty,
    )
}

fn polling(poll_in_flight: bool) -> UiRuntime {
    UiRuntime {
        active_run_id: Some("run_1".into()),
        next_offset: 0,
        poll_in_flight,
        polling: true,
        last_poll: Some(0),
        tool_inputs: Vec::new(),
    }
}

fn press(
    key: Key,
    state: &mut TuiState,
    outbox: &mut Outbox,
    initial_run_id: Option<String>,
) -> bool {
    let runtime = UiRuntime::from_state(state, 0);
    handle_key_press(key, state, &runtime, outbox, initial_run_id, None)
}

fn start_when_idle() {
    let mut outbox = Outbox::new();
    let mut state = test_state();
    state.composer = "start work".into();
    let runtime = UiRuntime::from_state(&state, 0);

    submit_composer(&mut outbox, &mut state, &runtime, Some("plato.toml".into()));

    match &outbox.sent[0] {
        ClientCommand::RunStart {
            question,
            config_path,
        } => {
            assert_eq!(question, "start work");
            assert_eq!(config_path.as_deref(), Some("plato.toml"));
        }
        other => panic!("unexpected command: {other:?}"),
    }
    assert!(state.composer.is_empty());
}

#[test]
fn app_submit_composer_uses_run_start_when_idle() {
    start_when_idle();
}

#[test]
fn submit_composer_uses_run_start_when_idle() {
    start_when_idle();
}

#[test]
fn submit_composer_rejects_follow_up_while_run_is_polling() {
    let mut outbox = Outbox::new();
    let mut state = test_state();
    state.composer = "next turn".into();
    let runtime = polling(false);

    submit_composer(&mut outbox, &mut state, &runtime, None);

    assert!(outbox.sent.is_empty());
    assert_eq!(state.composer, "next turn");
    assert_eq!(state.status_message.as_deref(), Some("run already active"));
}

#[test]
fn blank_text_is_not_submitted() {
    let mut outbox = Outbox::new();
    let mut state = test_state();
    state.composer = " \n".into();
    let runtime = UiRuntime::from_state(&state, 0);

    submit_composer(&mut outbox, &mut state, &runtime, None);

    assert!(outbox.sent.is_empty());
    assert_eq!(state.composer, " \n");
}

#[test]
fn printable_r_is_composer_text_when_connected() {
    let mut outbox = Outbox::new();
    let mut state = test_state();

    for ch in "read write current target/current".chars() {
        assert!(press(
            Key::plain(KeyCode::Char(ch)),
            &mut state,
            &mut outbox,
            None
        ));
    }

    assert_eq!(state.composer, "read write current target/current");
    assert!(outbox.sent.is_empty());
}

#[test]
fn backspace_takes_the_last_character_away() {
    let mut outbox = Outbox::new();
    let mut state = test_state();
    for ch in "a\u{e9}".chars() {
        press(
            Key::plain(KeyCode::Char(ch)),
            &mut state,
            &mut outbox,
            None,
        );
    }
    press(
        Key::plain(KeyCode::Backspace),
        &mut state,
        &mut outbox,
        None,
    );

    assert_eq!(state.composer, "a");
}

#[test]
fn r_reconnects_from_disconnected_state() {
    let mut outbox = Outbox::new();
    let mut state = test_state();
    state.connection = ConnectionState::Disconnected {
        error: "connection closed".into(),
    };

    assert!(press(
        Key::plain(KeyCode::Char('r')),
        &mut state,
        &mut outbox,
        Some("run_1".into())
    ));

    assert_eq!(state.status_message.as_deref(), Some("reconnecting"));
    match &outbox.sent[0] {
        ClientCommand::Load { run_id } => assert_eq!(run_id.as_deref(), Some("run_1")),
        other => panic!("unexpected command: {other:?}"),
    }
}

fn finished_page() -> EventsStreamResult {
    EventsStreamResult {
        run_id: "run_1".into(),
        from_offset: 0,
        next_offset: 2,
        status: RunStateName::Finished,
        events: vec![json(
            r#"{"offset": 1, "event": {"kind": "ledger",
                "record": {"event": {"event": "run_finished"}}}}"#,
        )],
    }
}

fn reload_on_finish() {
    let mut outbox = Outbox::new();
    let mut state = test_state();
    let mut runtime = polling(true);

    apply_events_result(&mut state, &mut runtime, &mut outbox, finished_page());

    assert_eq!(runtime.next_offset, 2);
    assert!(!runtime.polling);
    assert_eq!(state.live_events[0].text, "run finished");
    match &outbox.sent[0] {
        ClientCommand::Load { run_id } => assert_eq!(run_id.as_deref(), Some("run_1")),
        other => panic!("unexpected command: {other:?}"),
    }
}

#[test]
fn app_events_result_updates_live_state_and_requests_reload_on_finish() {
    reload_on_finish();
}

#[test]
fn events_result_updates_live_state_and_requests_reload_on_finish() {
    reload_on_finish();
}

#[test]
fn stream_connection_failure_enters_disconnected_and_stops_polling() {
    let mut outbox = Outbox::new();
    let mut state = test_state();
    state.active_run = Some(ActiveRunView {
        run_id: "run_1".into(),
        status: "running".into(),
    });
    let mut runtime = polling(true);
    runtime.next_offset = 7;
    let failed = ClientEvent::Failed {
        context: "events.stream",
        error: "io error: Connection refused (os error 111)".into(),
    };

    drain_client_events(
        &mut state,
        &mut runtime,
        vec![failed],
        &mut outbox,
        ACTIVE_POLL_INTERVAL,
    );
    maybe_poll_events(&mut runtime, &mut outbox, ACTIVE_POLL_INTERVAL);

    assert!(!runtime.polling);
    assert!(!runtime.poll_in_flight);
    assert!(state.is_disconnected());
    assert!(outbox.sent.is_empty());
}

#[test]
fn approval_preview_updates_when_tool_input_arrives_after_request() {
    let mut outbox = Outbox::new();
    let mut state = test_state();
    let mut runtime = polling(true);
    let result = EventsStreamResult {
        run_id: "run_1".into(),
        from_offset: 0,
        next_offset: 2,
        status: RunStateName::Running,
        events: vec![
            json(
                r#"{"offset": 1, "event": {"kind": "approval_requested", "run_id": "run_1",
                    "tool_call_id": "call_1", "tool_name": "file.write",
                    "effect": "WorkspaceWrite", "reason": "file.write requires approval"}}"#,
            ),
            json(
                r#"{"offset": 2, "event": {"kind": "ledger", "record": {"event": {
                    "event": "tool_call_proposed", "call": {"id": "call_1", "tool": "file.write",
                    "effect": "WorkspaceWrite", "input": {"path": "scratch/tui-preview.txt",
                    "content": "preview body"}}}}}}"#,
            ),
        ],
    };

    apply_events_result(&mut state, &mut runtime, &mut outbox, result);

    let approval = state.approval.as_ref().expect("approval modal");
    assert_eq!(approval.tool_call_id, "call_1");
    assert!(approval.input_preview.contains("scratch/tui-preview.txt"));
    assert!(approval.input_preview.contains("preview body"));
}

fn modal(run_id: &str, tool_call_id: &str) -> ApprovalModalView {
    ApprovalModalView {
        run_id: run_id.into(),
        tool_call_id: tool_call_id.into(),
        tool_name: "file.write".into(),
        effect: "WorkspaceWrite".into(),
        reason: "requires approval".into(),
        input_preview: "{}".into(),
        approval_preview: None,
        diff_preview: None,
    }
}

#[test]
fn approval_decisions_send_daemon_commands() {
    let mut outbox = Outbox::new();
    let mut state = test_state();
    state.approval = Some(modal("run_1", "call_1"));

    decide_approval(&mut outbox, &mut state, ApprovalAction::Grant);

    assert!(state.approval.is_none());
    match &outbox.sent[0] {
        ClientCommand::ApprovalGrant {
            run_id,
            tool_call_id,
        } => {
            assert_eq!(run_id, "run_1");
            assert_eq!(tool_call_id, "call_1");
        }
        other => panic!("unexpected command: {other:?}"),
    }

    state.approval = Some(modal("run_2", "call_2"));

    decide_approval(&mut outbox, &mut state, ApprovalAction::Deny);

    match &outbox.sent[1] {
        ClientCommand::ApprovalDeny {
            run_id,
            tool_call_id,
            reason,
        } => {
            assert_eq!(run_id, "run_2");
            assert_eq!(tool_call_id, "call_2");
            assert_eq!(reason, "denied by plato-tui");
        }
        other => panic!("unexpected command: {other:?}"),
    }
    decide_approval(&mut outbox, &mut state, ApprovalAction::Deny);
    assert_eq!(outbox.sent.len(), 2);
}

#[test]
fn first_cancel_requests_daemon_and_second_cancel_quits() {
    let mut outbox = Outbox::new();
    let mut state = test_state();
    state.active_run = Some(ActiveRunView {
        run_id: "run_1".into(),
        status: "running".into(),
    });

    assert!(request_cancel(&mut outbox, &mut state));
    assert!(state.cancel_requested);
    match &outbox.sent[0] {
        ClientCommand::RunCancel { run_id } => assert_eq!(run_id, "run_1"),
        other => panic!("unexpected command: {other:?}"),
    }

    assert!(!request_cancel(&mut outbox, &mut state));
}

#[test]
fn a_closed_outbox_says_that_the_worker_stopped() {
    let mut outbox = Outbox::new();
    outbox.open = false;
    let mut state = test_state();
    state.composer = "start work".into();
    let runtime = UiRuntime::from_state(&state, 0);

    submit_composer(&mut outbox, &mut state, &runtime, None);

    assert!(outbox.sent.is_empty());
    assert_eq!(
        state.status_message.as_deref(),
        Some("daemon client worker stopped")
    );
}

#[test]
fn one_question_is_asked_at_a_time() {
    let mut outbox = Outbox::new();
    let mut runtime = polling(false);

    maybe_poll_events(&mut runtime, &mut outbox, ACTIVE_POLL_INTERVAL - 1);
    assert!(outbox.sent.is_empty());
    maybe_poll_events(&mut runtime, &mut outbox, ACTIVE_POLL_INTERVAL);
    assert_eq!(
        outbox.sent,
        vec![ClientCommand::PollEvents {
            run_id: "run_1".into(),
            from_offset: 0
        }]
    );
    maybe_poll_events(&mut runtime, &mut outbox, 9 * ACTIVE_POLL_INTERVAL);
    assert_eq!(outbox.sent.len(), 1);
}

#[test]
fn only_the_last_live_events_are_kept() {
    let mut state = test_state();
    for index in 0..(MAX_LIVE_EVENT_LINES as u64 + 5) {
        push_live_event(&mut state, Some(index), "line");
    }

    assert_eq!(state.live_events.len(), MAX_LIVE_EVENT_LINES);
    assert_eq!(state.live_events[0].offset, Some(5));
}

#[test]
fn commands_are_requests_to_the_daemon() {
    let poll = ClientCommand::PollEvents {
        run_id: "run_1".into(),
        from_offset: 3,
    };
    let request = poll.request().unwrap();

    assert_eq!(request.method, "events.stream");
    let params = request.params.unwrap();
    assert_eq!(params.number_member("from_offset"), Some(3));
    assert_eq!(params.number_member("limit"), Some(EVENT_LIMIT));
    assert!(ClientCommand::Load { run_id: None }.request().is_none());
}

#[test]
fn answers_become_events() {
    let cancel = ClientCommand::RunCancel {
        run_id: "run_1".into(),
    };
    let accepted = json(r#"{"run_id": "run_1", "status": "cancel_requested"}"#);

    assert_eq!(
        handle_client_answer(&cancel, Ok(accepted)),
        Some(ClientEvent::RunCanceled(CommandAcceptedResult {
            run_id: "run_1".into(),
            status: RunStateName::CancelRequested
        }))
    );
    assert!(matches!(
        handle_client_answer(&cancel, Err(AppError::DaemonProtocol("closed".into()))),
        Some(ClientEvent::Failed {
            context: "run.cancel",
            ..
        })
    ));
    let start = ClientCommand::RunStart {
        question: "hi".into(),
        config_path: None,
    };
    let started = json(
        r#"{"run_id": "run_1", "session_id": "session_1", "ledger_path": "/db",
            "status": "running"}"#,
    );
    assert_eq!(
        handle_client_answer(&start, Ok(started)),
        Some(ClientEvent::RunStarted(RunStartResult {
            run_id: "run_1".into(),
            session_id: "session_1".into(),
            ledger_path: "/db".into(),
            status: RunStateName::Running,
            final_answer: None,
        }))
    );
}

#[test]
fn a_lagging_stream_is_reloaded() {
    let mut outbox = Outbox::new();
    let mut state = test_state();
    let mut runtime = polling(true);
    let poll = ClientCommand::PollEvents {
        run_id: "run_1".into(),
        from_offset: 0,
    };
    let answer = Err(AppError::DaemonResponse(ProtocolError {
        code: "lagged".into(),
        message: "offset 0 is no longer held".into(),
    }));
    let event = handle_client_answer(&poll, answer).unwrap();

    drain_client_events(&mut state, &mut runtime, vec![event], &mut outbox, 0);

    assert!(state.stream_warning.is_some());
    assert!(!state.is_disconnected());
}

#[test]
fn connection_errors_are_told_by_their_words() {
    assert!(is_connection_error(
        "io error: Connection refused (os error 111)"
    ));
    assert!(!is_connection_error("run not found: run_1"));
}

#[test]
fn the_newest_session_is_shown_unless_another_is_asked_for() {
    let session = |run_id: &str| SessionSummary {
        session_id: "session_1".into(),
        run_id: run_id.into(),
        status: RunStateName::Finished,
        latest_question: "".into(),
        ledger_path: "/db".into(),
    };
    let sessions = vec![session("run_2"), session("run_1")];

    assert_eq!(selected_run(None, &sessions), Some("run_2".into()));
    assert_eq!(
        selected_run(Some("run_1".into()), &sessions),
        Some("run_1".into())
    );
    assert_eq!(selected_run(None, &Vec::new()), None);
}

#[test]
fn a_transcript_that_cannot_be_read_is_shown_as_unavailable() {
    assert_eq!(
        shown_transcript("run_1".into(), Err("run not found: run_1".into())),
        TranscriptState::Unavailable {
            run_id: "run_1".into(),
            error: "run not found: run_1".into()
        }
    );
    let read = TranscriptReadResult {
        run_id: "run_1".into(),
        status: RunStateName::Finished,
        final_answer: None,
        transcript: "final_phase: Finished".into(),
        typed: None,
        pending_approval: None,
    };
    match shown_transcript("run_1".into(), Ok(read)) {
        TranscriptState::Loaded(shown) => {
            assert_eq!(shown.content, "final_phase: Finished")
        }
        other => panic!("unexpected transcript: {other:?}"),
    }
}

fn listed(session_id: &str, run_id: &str) -> SessionSummary {
    SessionSummary {
        session_id: session_id.into(),
        run_id: run_id.into(),
        status: RunStateName::Finished,
        latest_question: "why".into(),
        ledger_path: "/tmp/agent.db".into(),
    }
}

fn attached(transcript: TranscriptState) -> TuiState {
    loaded_state(
        "/tmp/workspace".into(),
        "/tmp/agent.sock".into(),
        HelloResult {
            daemon_version: "0.1.0".into(),
            workspace_id: "workspace-1234".into(),
            ledger_path: "/tmp/agent.db".into(),
            capabilities: vec![],
        },
        vec![listed("session_2", "run_9"), listed("session_1", "run_3")],
        transcript,
    )
}

fn submit(text: &str, state: &mut TuiState, outbox: &mut Outbox) {
    state.composer = text.into();
    assert!(press(Key::plain(KeyCode::Enter), state, outbox, None));
}

#[test]
fn messages_continue_the_latest_session_until_the_selection_is_cleared() {
    let mut outbox = Outbox::new();
    let mut state = attached(TranscriptState::Empty);

    submit("go on", &mut state, &mut outbox);
    submit(" /new ", &mut state, &mut outbox);
    assert_eq!(state.selected_session, None);
    assert_eq!(state.composer, "");
    let again = attached(TranscriptState::Empty);
    apply_loaded_state(&mut state, again);
    submit("begin", &mut state, &mut outbox);

    assert_eq!(
        outbox.sent,
        vec![
            ClientCommand::MessageAppend {
                message: "go on".into(),
                session_id: "session_2".into(),
                config_path: None,
            },
            ClientCommand::RunStart {
                question: "begin".into(),
                config_path: None,
            },
        ]
    );
}

#[test]
fn the_session_of_the_shown_run_is_selected() {
    let shown = TranscriptState::Unavailable {
        run_id: "run_3".into(),
        error: "gone".into(),
    };
    let other = TranscriptState::Unavailable {
        run_id: "run_0".into(),
        error: "gone".into(),
    };

    assert_eq!(
        attached(shown).selected_session.as_deref(),
        Some("session_1")
    );
    assert_eq!(
        attached(other).selected_session.as_deref(),
        Some("session_2")
    );
}

#[test]
fn a_session_is_resumed_from_the_list() {
    let mut outbox = Outbox::new();
    let mut state = attached(TranscriptState::Empty);

    submit("/sessions", &mut state, &mut outbox);
    assert_eq!(state.picker, Some(0));
    for (key, focus) in [
        (KeyCode::Up, 0),
        (KeyCode::Down, 1),
        (KeyCode::Down, 1),
        (KeyCode::Char('q'), 1),
    ] {
        assert!(press(Key::plain(key), &mut state, &mut outbox, None));
        assert_eq!(state.picker, Some(focus));
    }
    assert!(press(
        Key::plain(KeyCode::Enter),
        &mut state,
        &mut outbox,
        None
    ));

    assert_eq!(state.picker, None);
    assert_eq!(state.selected_session.as_deref(), Some("session_1"));
    assert_eq!(
        outbox.sent,
        vec![ClientCommand::Load {
            run_id: Some("run_3".into())
        }]
    );
}

#[test]
fn a_list_of_sessions_is_closed_without_a_choice() {
    let mut outbox = Outbox::new();
    let mut state = attached(TranscriptState::Empty);

    submit("/sessions", &mut state, &mut outbox);
    assert!(press(
        Key::plain(KeyCode::Esc),
        &mut state,
        &mut outbox,
        None
    ));

    assert_eq!(state, attached(TranscriptState::Empty));
    assert!(outbox.sent.is_empty());
    assert!(!press(
        Key::plain(KeyCode::Esc),
        &mut state,
        &mut outbox,
        None
    ));
}

#[test]
fn the_session_of_a_started_run_is_continued() {
    let mut outbox = Outbox::new();
    let mut state = test_state();
    let mut runtime = UiRuntime::from_state(&state, 0);
    let command = ClientCommand::MessageAppend {
        message: "go on".into(),
        session_id: "session_1".into(),
        config_path: Some("plato.toml".into()),
    };
    let request = command.request().unwrap();
    assert_eq!(request.method, "message.append");
    assert_eq!(
        request.params,
        Some(json(
            r#"{"config_path": "plato.toml", "message": "go on", "session_id": "session_1",
                "wait": false}"#
        ))
    );
    let answer = json(
        r#"{"run_id": "run_4", "session_id": "session_1", "ledger_path": "/tmp/agent.db",
            "status": "finished", "final_answer": null}"#,
    );
    let event = handle_client_answer(&command, Ok(answer)).unwrap();

    drain_client_events(&mut state, &mut runtime, vec![event], &mut outbox, 0);

    assert_eq!(
        state.status_message.as_deref(),
        Some("message appended: run_4")
    );
    assert_eq!(state.selected_session.as_deref(), Some("session_1"));
    let refused = handle_client_answer(&command, Ok(Json::Null)).unwrap();
    assert!(matches!(
        refused,
        ClientEvent::Failed { context: "message.append", .. }
    ));
}

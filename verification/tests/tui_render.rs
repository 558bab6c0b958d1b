//! What the terminal interface shows.
use plato_agent::daemon::messages::{HelloResult, SessionSummary};
use plato_agent::daemon::protocol::RunStateName;
use plato_agent::daemon::transcript::TranscriptReadResult;
use plato_agent::json::Json;
use plato_agent::tui::lines::{composer_with_cursor, format_elapsed, visible_lines};
use plato_agent::tui::{
    approval_from_event, live_event_line, render_snapshot, tool_input_preview_from_event,
    ActiveRunView, ApprovalModalView, LiveEventLine, TranscriptState, TranscriptView, TuiState,
};

fn json(text: &str) -> Json {
    Json::parse(text).unwrap()
}

fn connected(sessions: Vec<SessionSummary>, transcript: TranscriptState) -> TuiState {
    TuiState::connected(
        "/tmp/work".into(),
        "/tmp/agent.sock".into(),
        HelloResult {
            daemon_version: "0.1.0".into(),
            workspace_id: "work-1234".into(),
            ledger_path: "/tmp/agent.db".into(),
            capabilities: vec![],
        },
        sessions,
        transcript,
    )
}

fn session(status: RunStateName) -> SessionSummary {
    SessionSummary {
        session_id: "run_1".into(),
        run_id: "run_1".into(),
        status,
        latest_question: String::new(),
        ledger_path: "/tmp/agent.db".into(),
    }
}

fn idle() -> TuiState {
    connected(Vec::new(), TranscriptState::Empty)
}

fn modal(tool_name: &str, effect: &str, reason: &str, input_preview: &str) -> ApprovalModalView {
    ApprovalModalView {
        run_id: "run_1".into(),
        tool_call_id: "call_1".into(),
        tool_name: tool_name.into(),
        effect: effect.into(),
        reason: reason.into(),
        input_preview: input_preview.into(),
        approval_preview: None,
        diff_preview: None,
    }
}

fn render_to_text(state: &TuiState) -> String {
    render_snapshot(state, 100, 24).unwrap()
}

#[test]
fn renders_intro_as_chat_surface() {
    let output = render_to_text(&idle());

    assert!(output.contains("Plato Agent"));
    assert!(output.contains("Local Rust agent runtime"));
    assert!(output.contains("work-1234"));
    assert!(output.contains("model pending"));
    assert!(output.contains("ready | plato"));
    assert!(output.contains("Try \"read README.md and summarize it\""));
    assert!(!output.contains("Status"));
    assert!(!output.contains("Sessions"));
    assert!(!output.contains("Live Events"));
    assert!(!output.contains("Composer"));
}

#[test]
fn snapshots_have_the_size_that_is_asked_for() {
    let output = render_snapshot(&idle(), 40, 10).unwrap();
    let lines: Vec<&str> = output.lines().collect();

    assert_eq!(lines.len(), 10);
    assert!(lines.iter().all(|line| line.chars().count() <= 40));
}

#[test]
fn render_renders_connected_sessions_and_transcript() {
    let read = TranscriptReadResult {
        run_id: "run_1".into(),
        status: RunStateName::Finished,
        final_answer: None,
        transcript: "final_phase: Finished".into(),
        typed: None,
        pending_approval: None,
    };
    let state = connected(
        vec![session(RunStateName::Finished)],
        TranscriptState::Loaded(TranscriptView::from_result(read)),
    );

    let output = render_to_text(&state);

    assert!(output.contains("ready"));
    assert!(output.contains("run_1"));
    assert!(output.contains("final_phase"));
}

#[test]
fn render_renders_transcript_error_for_selected_run() {
    let state = connected(
        vec![session(RunStateName::Failed)],
        TranscriptState::Unavailable {
            run_id: "run_1".into(),
            error: "run not found: run_1".into(),
        },
    );

    let output = render_to_text(&state);

    assert!(output.contains("transcript unavailable"));
    assert!(output.contains("run_1"));
}

#[test]
fn render_renders_daemon_unavailable_guidance() {
    let state = TuiState::disconnected(
        "/tmp/work".into(),
        "/tmp/agent.sock".into(),
        "connection refused".into(),
    );

    let output = render_to_text(&state);

    assert!(output.contains("daemon unavailable"));
    assert!(output.contains("cargo run --bin plato-agentd"));
    assert!(output.contains("press r to reconnect"));
    assert!(output.contains("offline | plato"));
}

#[test]
fn render_renders_active_run_composer_and_live_events() {
    let mut state = idle();
    state.active_run = Some(ActiveRunView {
        run_id: "run_1".into(),
        status: "running".into(),
    });
    state.composer = "summarize this file".into();
    state.composer_cursor = "summarize".len();
    state
        .live_events
        .push(LiveEventLine::assistant(Some(2), "assistant response"));

    let output = render_to_text(&state);

    assert!(output.contains("running"));
    assert!(output.contains("run_1"));
    assert!(output.contains("assistant response"));
    assert!(output.contains("> summarize| this file"));
}

#[test]
fn renders_queue_preview_and_multiline_composer() {
    let mut state = idle();
    state.queued_messages = vec!["queued next".into()];
    state.composer = "first line\nsecond line".into();
    state.composer_cursor = state.composer.len();

    let output = render_to_text(&state);

    assert!(output.contains("queued"));
    assert!(output.contains("queued 1"));
    assert!(output.contains("1 queued next"));
    assert!(output.contains("> first line"));
    assert!(output.contains("| second line|"));
}

#[test]
fn renders_typed_tool_and_status_rows() {
    let mut state = idle();
    state.active_model = Some("openrouter/auto".into());
    state.active_run_elapsed_secs = Some(65);
    state.live_events = vec![
        LiveEventLine::user("read README"),
        LiveEventLine::tool(Some(3), "file.read finished"),
        LiveEventLine::warning(Some(4), "approval pending shell.exec"),
    ];

    let output = render_to_text(&state);

    assert!(output.contains("1m05s"));
    assert!(output.contains("openrouter/auto"));
    assert!(output.contains("user"));
    assert!(output.contains("read README"));
    assert!(output.contains("tool"));
    assert!(output.contains("file.read finished"));
    assert!(output.contains("warning"));
    assert!(output.contains("approval pending shell.exec"));
}

#[test]
fn renders_scrolled_transcript_window() {
    let mut state = idle();
    state.live_events = (0..30)
        .map(|index| LiveEventLine::status(Some(index), &format!("line {index}")))
        .collect();
    state.scroll_offset = 10;

    let output = render_snapshot(&state, 100, 12).unwrap();

    assert!(output.contains("line 15"));
    assert!(!output.contains("line 29"));
}

fn stream_warning() {
    let mut state = idle();
    state.stream_warning = Some("lagged; transcript recovered".into());

    let output = render_to_text(&state);

    assert!(output.contains("stream warning"));
    assert!(output.contains("lagged"));
}

#[test]
fn render_renders_stream_warning() {
    stream_warning();
}

#[test]
fn tui_renders_stream_warning() {
    stream_warning();
}

fn approval_modal() {
    let mut state = idle();
    state.approval = Some(modal(
        "file.write",
        "WorkspaceWrite",
        "file.write requires approval",
        r#"{"path":"scratch.txt"}"#,
    ));

    let output = render_to_text(&state);

    assert!(output.contains("Approval"));
    assert!(output.contains("file.write"));
    assert!(output.contains("WorkspaceWrite"));
    assert!(output.contains("scratch.txt"));
    assert!(output.contains("g grant"));
    assert!(output.contains("d deny"));
}

#[test]
fn render_renders_approval_modal() {
    approval_modal();
}

#[test]
fn tui_renders_approval_modal() {
    approval_modal();
}

#[test]
fn renders_approval_modal_diff_preview_when_present() {
    let mut state = idle();
    let mut approval = modal(
        "file.edit",
        "WorkspaceWrite",
        "file.edit requires approval",
        r#"{"path":"scratch.txt"}"#,
    );
    approval.diff_preview = Some("--- a/scratch.txt\n+++ b/scratch.txt\n-old\n+new\n".into());
    state.approval = Some(approval);

    let output = render_to_text(&state);

    assert!(output.contains("diff preview"));
    assert!(output.contains("--- a/scratch.txt"));
    assert!(output.contains("-old"));
    assert!(output.contains("+new"));
    assert!(!output.contains("input preview:"));
}

#[test]
fn renders_approval_modal_controls_with_long_diff_preview() {
    let mut state = idle();
    let body = (0..40)
        .map(|line| format!("-old-{line}\n+new-{line}\n"))
        .collect::<String>();
    let mut approval = modal(
        "file.edit",
        "WorkspaceWrite",
        "file.edit requires approval",
        r#"{"path":"scratch.txt"}"#,
    );
    approval.diff_preview = Some(format!("--- a/scratch.txt\n+++ b/scratch.txt\n{body}"));
    state.approval = Some(approval);

    let output = render_to_text(&state);

    assert!(output.contains("g grant"));
    assert!(output.contains("d deny"));
    assert!(output.contains("diff preview"));
    assert!(output.contains("--- a/scratch.txt"));
}

#[test]
fn renders_approval_modal_approval_preview_when_present() {
    let mut state = idle();
    let mut approval = modal(
        "shell.exec",
        "ExternalSideEffect",
        "shell.exec requires approval",
        r#"{"command":"cargo test"}"#,
    );
    approval.approval_preview = Some("command: cargo test\ncwd: /tmp/work".into());
    state.approval = Some(approval);

    let output = render_to_text(&state);

    assert!(output.contains("approval preview"));
    assert!(output.contains("command: cargo test"));
    assert!(output.contains("cwd: /tmp/work"));
    assert!(!output.contains("input preview:"));
}

fn event_lines() {
    let approval = live_event_line(&json(
        r#"{"offset": 4, "event": {"kind": "approval_requested", "tool_name": "file.write",
            "effect": "WorkspaceWrite"}}"#,
    ));
    let ledger = live_event_line(&json(
        r#"{"offset": 5, "event": {"kind": "ledger", "record": {"event": {
            "event": "tool_call_proposed", "call": {"tool": "file.read"}}}}}"#,
    ));

    assert_eq!(
        approval,
        LiveEventLine::new(Some(4), "approval pending file.write (WorkspaceWrite)")
    );
    assert_eq!(
        ledger,
        LiveEventLine::new(Some(5), "tool proposed file.read")
    );
}

#[test]
fn modal_formats_daemon_event_lines() {
    event_lines();
}

#[test]
fn tui_formats_daemon_event_lines() {
    event_lines();
}

fn previews_from_events() {
    let proposed = json(
        r#"{"offset": 3, "event": {"kind": "ledger", "record": {"event": {
            "event": "tool_call_proposed", "call": {"id": "call_1", "tool": "file.write",
            "effect": "WorkspaceWrite", "input": {"path": "scratch.txt", "content": "hello"}}}}}}"#,
    );
    let approval = json(
        r#"{"offset": 4, "event": {"kind": "approval_requested", "run_id": "run_1",
            "tool_call_id": "call_1", "tool_name": "file.write", "effect": "WorkspaceWrite",
            "reason": "file.write requires approval"}}"#,
    );
    let (call_id, input_preview) = tool_input_preview_from_event(&proposed).unwrap();
    let modal = approval_from_event(&approval, Some(input_preview)).unwrap();

    assert_eq!(call_id, "call_1");
    assert_eq!(modal.run_id, "run_1");
    assert!(modal.input_preview.contains("scratch.txt"));
    assert!(modal.input_preview.contains("hello"));
}

#[test]
fn modal_extracts_tool_input_preview_and_approval_modal_from_events() {
    previews_from_events();
}

#[test]
fn tui_extracts_tool_input_preview_and_approval_modal_from_events() {
    previews_from_events();
}

#[test]
fn elapsed_time_is_told_in_minutes_and_seconds() {
    assert_eq!(format_elapsed(5), "5s");
    assert_eq!(format_elapsed(65), "1m05s");
}

#[test]
fn the_cursor_stands_where_the_next_character_goes() {
    assert_eq!(composer_with_cursor("abc", 1), "a|bc");
    assert_eq!(composer_with_cursor("abc", 9), "abc|");
}

#[test]
fn windows_show_the_last_lines() {
    let mut state = idle();
    state.live_events = (0..30)
        .map(|index| LiveEventLine::status(Some(index), &format!("line {index}")))
        .collect();
    let lines = plato_agent::tui::lines::history_lines(&state);
    let last = format!("{:?}", lines.last());
    let shown = visible_lines(lines, 5, 0);

    assert_eq!(shown.len(), 5);
    assert_eq!(format!("{:?}", shown.last()), last);
}

fn symbol_at(screen: &str, x: usize, y: usize) -> char {
    screen.lines().nth(y).unwrap().chars().nth(x).unwrap()
}

#[test]
fn approvals_stand_in_the_middle_of_every_screen() {
    let mut state = idle();
    state.approval = Some(modal("file.write", "WorkspaceWrite", "reason", "{}"));

    for width in [20usize, 33, 50, 77, 80, 100, 131, 200, 255] {
        for height in [12usize, 13, 19, 24, 25, 31, 50, 75] {
            let screen = render_snapshot(&state, width as u16, height as u16).unwrap();
            let left = (width * 13 + 50) / 100;
            let right = (width * 87 + 50) / 100;
            let top = (height * 18 + 50) / 100;
            let bottom = (height * 82 + 50) / 100;

            assert_eq!(symbol_at(&screen, left, top), '┌', "{width}x{height}");
            assert_eq!(symbol_at(&screen, right - 1, top), '┐', "{width}x{height}");
            assert_eq!(symbol_at(&screen, left, bottom - 1), '└', "{width}x{height}");
            assert_eq!(symbol_at(&screen, right - 1, bottom - 1), '┘', "{width}x{height}");
        }
    }
}

#[test]
fn rows_stand_one_below_another() {
    for (composer, rows) in [("", 2usize), ("one", 2), ("one\ntwo", 3), ("1\n2\n3\n4\n5\n6", 6)] {
        let mut state = idle();
        state.composer = composer.into();
        for height in [10 + rows, 20, 24, 61] {
            let screen = render_snapshot(&state, 120, height as u16).unwrap();
            let lines: Vec<&str> = screen.lines().collect();

            assert!(!lines[0].trim().is_empty());
            assert!(lines[height - rows].starts_with('>'), "{composer:?} at {height}");
            assert!(!lines[height - rows - 1].trim().is_empty());
        }
    }
}

#[test]
fn sessions_are_listed_from_the_focused_one_on() {
    let mut state = connected(
        vec![
            session(RunStateName::Finished),
            session(RunStateName::Interrupted),
            session(RunStateName::Failed),
        ],
        TranscriptState::Empty,
    );
    state.picker = Some(1);

    let output = render_to_text(&state);

    assert!(output.contains("sessions 3 | Enter resumes | Esc closes"));
    assert!(output.contains("> run_1 interrupted"));
    assert!(output.contains("  run_1 failed"));
    assert!(!output.contains("run_1 finished"));
}

#[test]
fn lines_that_run_over_the_edge_are_cut_there() {
    let mut state = idle();
    state.transcript = TranscriptState::Unavailable {
        run_id: "run_1".into(),
        error: "a\u{200b}bcde\u{6f22}x".into(),
    };
    let output = render_snapshot(&state, 6, 24).unwrap();

    assert!(output.contains("\nbcde\u{6f22} \n"));

    for width in 1..40u16 {
        let inner = usize::from(width);
        let line = format!("\u{2060}\u{200b}{}\u{6f22}x", "b".repeat(inner));
        state.approval = Some(modal("file.write", "write", &line, &line));
        assert_eq!(
            render_snapshot(&state, width, 24).unwrap().lines().count(),
            24
        );
    }
}

#[test]
fn nothing_is_seen_behind_a_wide_symbol() {
    let mut state = idle();
    state.transcript = TranscriptState::Unavailable {
        run_id: "run_1".into(),
        error: "\u{6f22}".repeat(50),
    };
    state.approval = Some(modal("file.write", "write", "why", "what"));
    let output = render_snapshot(&state, 100, 24).unwrap();

    assert!(output.lines().all(|line| line.chars().count() == 100));
    assert!(output.contains("\u{6f22} \u{6f22} "));
}

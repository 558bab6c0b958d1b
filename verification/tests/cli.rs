//! The command line.
use plato_agent::app::{RunLedger, RunOutcome, RunSession};
use plato_agent::cli::{
    check_replay, daemon_finished_before_ready, embedded_daemon_step, question_of, replay_ledger,
    run_ledger, run_session, run_success_output, shell_quote, sqlite_path, tui_options_from_cli,
    Cli, DaemonEnd, DaemonWait, ReplayLedger,
};
use plato_agent::ledger::SqliteLedger;
use plato_agent::AppError;

fn cli() -> Cli {
    Cli {
        config: None,
        events: None,
        db: None,
        yolo: false,
        continue_session: false,
        tui: false,
        command: None,
        question: Vec::new(),
    }
}

fn outcome() -> RunOutcome {
    RunOutcome {
        run_id: "run_1".into(),
        final_answer: "done".into(),
    }
}

fn held() -> AppError {
    AppError::DaemonLockHeld {
        path: "/run/agent.lock".into(),
        owner: "pid=42".into(),
    }
}

const DEFAULT: &str = "/state/plato-agent/workspaces/work-1234/agent.db";

#[test]
fn sqlite_success_hint_goes_to_stderr_without_changing_stdout() {
    let ledger = RunLedger::Sqlite("/tmp/plato proof/agent.db".into());

    let (stdout, stderr) = run_success_output(&outcome(), &ledger);

    assert_eq!(stdout, "done\n");
    assert_eq!(
        stderr,
        "run_id: run_1\nledger_path: /tmp/plato proof/agent.db\nreplay: plato replay --db='/tmp/plato proof/agent.db' --run run_1\n"
    );
}

#[test]
fn jsonl_success_does_not_print_replay_hint() {
    let ledger = RunLedger::Jsonl("events.jsonl".into());

    let (stdout, stderr) = run_success_output(&outcome(), &ledger);

    assert_eq!(stdout, "done\n");
    assert!(stderr.is_empty());
}

#[test]
fn tui_flag_builds_tui_options_with_config() {
    let mut cli = cli();
    cli.tui = true;
    cli.config = Some("custom.toml".into());

    let options = tui_options_from_cli(&cli, "/tmp/work").unwrap();

    assert_eq!(options.workspace, "/tmp/work");
    assert_eq!(options.config.as_deref(), Some("custom.toml"));
    assert_eq!(options.socket, None);
    assert_eq!(options.run, None);
    assert!(!options.snapshot);
}

#[test]
fn tui_flag_rejects_one_shot_only_options() {
    let mut cli = cli();
    cli.tui = true;
    cli.yolo = true;

    let error = tui_options_from_cli(&cli, "/tmp/work").unwrap_err();

    assert!(matches!(
        error,
        AppError::Config(message)
            if message == "plato --tui cannot be combined with --events, --db, --yolo, or -c"
    ));
}

#[test]
fn tui_flag_rejects_questions() {
    let mut cli = cli();
    cli.tui = true;
    cli.question = vec!["hello".into()];

    let error = tui_options_from_cli(&cli, "/tmp/work").unwrap_err();

    assert!(matches!(
        error,
        AppError::Config(message) if message == "plato --tui cannot be combined with a question"
    ));
}

#[test]
fn questions_are_the_words_of_the_line() {
    let mut cli = cli();
    cli.question = vec!["what".into(), "is".into(), "this".into()];

    assert_eq!(question_of(&cli), "what is this");
}

#[test]
fn explicit_sqlite_path_is_resolved_against_workspace_root() {
    let path = sqlite_path(
        Some(Some("agent.db".into())),
        "/tmp/work",
        Ok(DEFAULT.into()),
    )
    .unwrap();

    assert_eq!(path, "/tmp/work/agent.db");
}

#[test]
fn default_run_uses_default_sqlite_path() {
    let ledger = run_ledger(None, None, "/tmp/work", Ok(DEFAULT.into()), Ok(())).unwrap();

    assert_eq!(ledger, RunLedger::Sqlite(DEFAULT.into()));
}

#[test]
fn default_sqlite_run_fails_closed_when_daemon_lock_exists() {
    let error =
        run_ledger(None, None, "/tmp/work", Ok(DEFAULT.into()), Err(held())).unwrap_err();

    assert!(matches!(error, AppError::DaemonLockHeld { .. }));
}

#[test]
fn jsonl_run_does_not_check_daemon_lock() {
    let ledger = run_ledger(
        Some("events.jsonl".into()),
        None,
        "/tmp/work",
        Ok(DEFAULT.into()),
        Err(held()),
    )
    .unwrap();

    assert_eq!(ledger, RunLedger::Jsonl("events.jsonl".into()));
}

#[test]
fn default_sqlite_run_starts_fresh_session() {
    let ledger = RunLedger::Sqlite(DEFAULT.into());

    let session = run_session(
        false,
        &ledger,
        Err(AppError::NoSqliteSessions),
        "session_new".into(),
    )
    .unwrap()
    .unwrap();

    assert!(matches!(session, RunSession::Fresh { .. }));
}

#[test]
fn continue_rejects_jsonl_ledger() {
    let ledger = RunLedger::Jsonl("events.jsonl".into());

    let error = run_session(true, &ledger, Ok("session_1".into()), "session_new".into())
        .unwrap_err();

    assert!(matches!(
        error,
        AppError::Config(message)
            if message == "plato -c requires the SQLite ledger; remove --events"
    ));
}

#[test]
fn continue_uses_latest_sqlite_session() {
    let mut ledger = SqliteLedger::new();
    ledger
        .begin_session_run(1, "session_1", "run_1", "hello", true)
        .unwrap();
    ledger.finish_session_run(2, "run_1", "hi").unwrap();

    let session = run_session(
        true,
        &RunLedger::Sqlite("/tmp/work/agent.db".into()),
        ledger.latest_session_id(),
        "session_new".into(),
    )
    .unwrap()
    .unwrap();

    assert_eq!(
        session,
        RunSession::Continue {
            session_id: "session_1".into()
        }
    );
}

#[test]
fn bare_replay_uses_default_sqlite_path() {
    let ledger = replay_ledger(None, None, "/tmp/work", Ok(DEFAULT.into())).unwrap();

    assert_eq!(ledger, ReplayLedger::Sqlite(DEFAULT.into()));
}

#[test]
fn replay_file_stays_explicit_jsonl() {
    let ledger = replay_ledger(
        None,
        Some("events.jsonl".into()),
        "/tmp/work",
        Ok(DEFAULT.into()),
    )
    .unwrap();

    assert_eq!(ledger, ReplayLedger::Jsonl("events.jsonl".into()));
}

#[test]
fn default_sqlite_replay_fails_closed_when_daemon_lock_exists() {
    let ledger = ReplayLedger::Sqlite(DEFAULT.into());

    let error = check_replay(&ledger, &None, Err(held())).unwrap_err();

    assert!(matches!(error, AppError::DaemonLockHeld { .. }));
}

#[test]
fn values_are_quoted_where_a_shell_would_split_them() {
    assert_eq!(shell_quote("/tmp/agent.db"), "/tmp/agent.db");
    assert_eq!(shell_quote("it's"), r"'it'\''s'");
    assert_eq!(shell_quote(""), "");
}

#[test]
fn the_embedded_daemon_is_waited_for() {
    assert_eq!(
        embedded_daemon_step(true, true, 9, 5, "/run/agent.sock"),
        DaemonWait::Ready
    );
    assert_eq!(
        embedded_daemon_step(false, true, 0, 5, "/run/agent.sock"),
        DaemonWait::Stopped
    );
    assert_eq!(
        embedded_daemon_step(false, false, 0, 5, "/run/agent.sock"),
        DaemonWait::Wait
    );
    assert!(matches!(
        embedded_daemon_step(false, false, 5, 5, "/run/agent.sock"),
        DaemonWait::TimedOut(_)
    ));
    assert_eq!(
        daemon_finished_before_ready(DaemonEnd::Returned(Err(held()))),
        held()
    );
}

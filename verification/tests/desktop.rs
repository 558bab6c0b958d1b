//! The desktop bridge.
use plato_agent::daemon::client::{hello_result, sessions_result, transcript_result};
use plato_agent::daemon::messages::HelloResult;
use plato_agent::daemon::protocol::RunStateName;
use plato_agent::daemon::request::ClientRequest;
use plato_agent::daemon::transcript::{TranscriptReadResult, TypedRun, TypedTranscript};
use plato_agent::desktop::{
    attempt_failed, bootstrap_choice, desktop_sessions, extract_typed_run, persisted_workspace,
    read_saved_root, require_capabilities, run_workspace, saved_workspace, validate_hello, Attempt,
    BootstrapView, SavedFile, SavedWorkspaceState,
};
use plato_agent::json::Json;
use plato_agent::paths::workspace_id_from_canonical_path;

fn json(text: &str) -> Json {
    Json::parse(text).unwrap()
}

fn load(file: SavedFile, found: Option<(String, bool)>) -> SavedWorkspaceState {
    match read_saved_root(file) {
        Ok(_) => saved_workspace(found),
        Err(state) => state,
    }
}

#[test]
fn missing_invalid_and_persisted_workspaces_have_stable_states() {
    assert_eq!(load(SavedFile::Missing, None), SavedWorkspaceState::Missing);
    assert_eq!(
        bootstrap_choice(load(SavedFile::Missing, None)),
        Err(BootstrapView::NeedsWorkspace { reason: None })
    );

    let (canonical, saved) =
        persisted_workspace(Ok((Some("/tmp/work".into()), true))).unwrap();
    assert_eq!(canonical, "/tmp/work");
    assert_eq!(
        read_saved_root(SavedFile::Read(Some(saved.clone()))),
        Ok("/tmp/work".into())
    );
    assert_eq!(
        load(
            SavedFile::Read(Some(saved.clone())),
            Some(("/tmp/work".into(), true))
        ),
        SavedWorkspaceState::Ready("/tmp/work".into())
    );

    assert_eq!(
        load(SavedFile::Read(Some(saved.clone())), None),
        SavedWorkspaceState::Invalid("Saved workspace no longer exists".into())
    );
    assert_eq!(
        bootstrap_choice(load(SavedFile::Read(Some(saved)), None)),
        Err(BootstrapView::NeedsWorkspace {
            reason: Some("Saved workspace no longer exists".into())
        })
    );
}

#[test]
fn files_cannot_be_persisted_as_workspaces() {
    let error = persisted_workspace(Ok((Some("/tmp/not-a-workspace".into()), false))).unwrap_err();

    assert_eq!(error, "Selected workspace is not a directory");
}

#[test]
fn unreadable_choices_are_told() {
    assert!(matches!(
        load(SavedFile::Failed("denied".into()), None),
        SavedWorkspaceState::Invalid(_)
    ));
    assert!(matches!(
        load(SavedFile::Read(Some("nonsense".into())), None),
        SavedWorkspaceState::Invalid(_)
    ));
    assert!(run_workspace(SavedWorkspaceState::Missing).is_err());
    assert_eq!(
        run_workspace(SavedWorkspaceState::Ready("/tmp/work".into())),
        Ok("/tmp/work".into())
    );
    assert!(attempt_failed(&Attempt::Connect, "refused").contains("refused"));
}

fn capable() -> Vec<String> {
    ["hello", "sessions.list", "transcript.read", "transcript.read.typed"]
        .iter()
        .map(ToString::to_string)
        .collect()
}

#[test]
fn desktop_bridge_returns_only_typed_presentation_data() {
    let id = workspace_id_from_canonical_path("/tmp/work");
    let hello = hello_result(&json(&format!(
        r#"{{"daemon_version": "0.1.0", "workspace_id": "{id}", "ledger_path": "/secret/ledger.db",
            "capabilities": ["hello", "sessions.list", "transcript.read", "transcript.read.typed"]}}"#
    )))
    .unwrap();
    assert_eq!(validate_hello("/tmp/work", &hello), Ok(()));
    let sessions = desktop_sessions(
        sessions_result(&json(
            r#"{"sessions": [{"session_id": "session_1", "run_id": "run_1", "status": "finished",
                "latest_question": "hello", "ledger_path": "/secret/ledger.db"}]}"#,
        ))
        .unwrap()
        .sessions,
    );
    let request = ClientRequest::transcript_read(&sessions[0].run_id);
    assert_eq!(
        request.params.unwrap().text_member("run_id"),
        Some("run_1".into())
    );
    let transcript = transcript_result(&json(
        r#"{"run_id": "run_1", "status": "finished", "final_answer": "hi",
            "transcript": "POISON_LEGACY_TRANSCRIPT",
            "typed": {"runs": [{"run_id": "run_1", "session_index": 0, "status": "finished",
                "entries": [{"kind": "user", "text": "hello"},
                    {"kind": "assistant", "text": "hi"}]}]}}"#,
    ))
    .unwrap();
    let view = BootstrapView::Ready {
        workspace_root: "/tmp/work".into(),
        daemon_version: hello.daemon_version,
        sessions,
        selected_run: Some(extract_typed_run("run_1", transcript).unwrap()),
    };
    let serialized = view.to_json().render();

    assert!(serialized.contains("/tmp/work"));
    assert!(serialized.contains("\"kind\":\"assistant\""));
    for forbidden in [
        "POISON_LEGACY_TRANSCRIPT",
        "/secret/ledger.db",
        "ledgerPath",
        "socketPath",
        "transcript",
    ] {
        assert!(!serialized.contains(forbidden), "found {forbidden}");
    }
}

#[test]
fn missing_typed_capability_stops_before_session_or_transcript_reads() {
    let hello = HelloResult {
        daemon_version: "old".into(),
        workspace_id: workspace_id_from_canonical_path("/tmp/work"),
        ledger_path: "/tmp/ledger.db".into(),
        capabilities: vec![
            "hello".into(),
            "sessions.list".into(),
            "transcript.read".into(),
        ],
    };

    assert_eq!(
        validate_hello("/tmp/work", &hello).unwrap_err(),
        "Incompatible daemon: missing required capability transcript.read.typed"
    );
    assert_eq!(require_capabilities(&capable()), Ok(()));
}

#[test]
fn hello_validation_rejects_a_different_workspace() {
    let hello = HelloResult {
        daemon_version: "0.1.0".into(),
        workspace_id: "other-workspace".into(),
        ledger_path: "/secret/ledger.db".into(),
        capabilities: capable(),
    };

    let error = validate_hello("/tmp/work", &hello).unwrap_err();

    assert!(error.starts_with("Incompatible daemon: expected workspace "));
    assert!(error.ends_with(", got other-workspace"));
    assert!(!error.contains("ledger.db"));
}

fn typed_run(run_id: &str) -> TypedRun {
    TypedRun {
        run_id: run_id.into(),
        session_index: 0,
        status: RunStateName::Finished,
        entries: vec![],
    }
}

fn base(typed: Option<TypedTranscript>) -> TranscriptReadResult {
    TranscriptReadResult {
        run_id: "run_1".into(),
        status: RunStateName::Finished,
        final_answer: Some("answer".into()),
        transcript: "legacy".into(),
        typed,
        pending_approval: None,
    }
}

#[test]
fn exact_run_typed_payload_fails_closed_on_missing_or_wrong_boundaries() {
    assert_eq!(
        extract_typed_run("run_1", base(None)).unwrap_err(),
        "Incompatible daemon: transcript.read returned no typed payload"
    );

    let multiple = base(Some(TypedTranscript {
        runs: vec![typed_run("run_1"), typed_run("run_2")],
    }));
    assert_eq!(
        extract_typed_run("run_1", multiple).unwrap_err(),
        "Incompatible daemon: exact-run transcript returned 2 runs"
    );

    let wrong = base(Some(TypedTranscript {
        runs: vec![typed_run("run_2")],
    }));
    assert_eq!(
        extract_typed_run("run_1", wrong).unwrap_err(),
        "Incompatible daemon: requested run run_1, got run_2"
    );
}

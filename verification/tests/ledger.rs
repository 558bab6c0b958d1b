//! What runs leave behind, and what is read of it.
use plato_agent::harness::{
    ContextFragment, ContextLane, ContextPack, EffectClass, HarnessEvent, ModelUsage,
    PolicyDecision, RecordedEvent, ToolCall, ToolProposal, ToolResult,
};
use plato_agent::json::Json;
use plato_agent::ledger::{
    ledger_line, read_line, read_records, read_sqlite_records, row_u64, schema_step, sqlite_i64, EventRow, RunRow,
    SchemaStep, SessionRow, SessionTurn, SqliteLedger, StoredRecord, PersistedSessionSummary, LEDGER_VERSION, MAX_SQLITE_INTEGER,
    SQLITE_SCHEMA_VERSION,
};
use plato_agent::daemon::protocol::RunStateName;
use plato_agent::daemon::transcript::{ApprovalDecisionName, TypedTranscriptEntry};
use plato_agent::recorder::{Created, EventRecorder, JsonlEventRecorder, SqliteEventRecorder};
use plato_agent::replay::{
    format_readback, replay, replay_file, replay_sqlite, replay_sqlite_session, typed_run, Readback,
    ReplayEntry,
};
use plato_agent::AppError;

fn record(seq: u64, occurred_at_ms: u64, event: HarnessEvent) -> RecordedEvent {
    RecordedEvent {
        seq,
        occurred_at_ms,
        event,
    }
}

fn started(run_id: &str) -> HarnessEvent {
    HarnessEvent::RunStarted {
        run_id: run_id.into(),
        agent_id: "plato".into(),
    }
}

fn failed(run_id: &str) -> HarnessEvent {
    HarnessEvent::RunFailed {
        run_id: run_id.into(),
        reason: "synthetic failure".into(),
    }
}

fn started_record(run_id: &str, seq: u64, occurred_at_ms: u64) -> StoredRecord {
    StoredRecord::of(&record(seq, occurred_at_ms, started(run_id)))
}

#[test]
fn writes_and_reads_versioned_jsonl_records() {
    let mut recorder = JsonlEventRecorder::create("events.jsonl", Created::Made).unwrap();
    let (_, line) = recorder.record(0, started("run_1")).unwrap();
    let records = read_records(&(line + "\n")).unwrap();

    assert_eq!(records.len(), 1);
    assert_eq!(records[0].seq, 0);
}

#[test]
fn rejects_wrong_ledger_version() {
    let contents = r#"{"v":2,"record":{"seq":0,"occurred_at_ms":0,"event":{"event":"run_started","run_id":"run_1","agent_id":"plato"}}}"#;

    assert!(matches!(
        read_records(contents),
        Err(AppError::LedgerVersion {
            expected: LEDGER_VERSION,
            actual: 2
        })
    ));
}

#[test]
fn empty_and_broken_files_are_told_apart() {
    assert_eq!(read_records("\n"), Ok(Vec::new()));
    assert!(matches!(read_records("{"), Err(AppError::Json(_))));
    assert!(matches!(
        read_line(r#"{"v":1,"record":{"seq":0,"occurred_at_ms":0,"event":{"event":"dance"}}}"#),
        Err(AppError::Json(_))
    ));
}

#[test]
fn refuses_to_overwrite_existing_jsonl_ledger() {
    assert!(matches!(
        JsonlEventRecorder::create("events.jsonl", Created::Exists),
        Err(AppError::LedgerExists(path)) if path == "events.jsonl"
    ));
    assert!(matches!(
        JsonlEventRecorder::create("", Created::Made),
        Err(AppError::EmptyLedger)
    ));
    assert!(matches!(
        EventRecorder::create_jsonl("events.jsonl", Created::Failed("denied".into())),
        Err(AppError::Io(message)) if message == "denied"
    ));
    assert!(matches!(
        EventRecorder::create_sqlite("", "run_1".into()),
        Err(AppError::EmptyLedger)
    ));
}

#[test]
fn events_that_the_kernel_turns_down_are_not_written() {
    let mut tables = SqliteLedger::new();
    let mut recorder = EventRecorder::create_sqlite("agent.db", "run_1".into()).unwrap();

    assert!(matches!(
        recorder.record(&mut tables, 1, failed("run_1")),
        Err(AppError::Core(_))
    ));
    assert!(tables.events.is_empty());
    assert!(recorder.record(&mut tables, 1, started("run_1")).is_ok());
    assert!(matches!(
        recorder.record(&mut tables, 2, started("run_1")),
        Err(AppError::Core(_))
    ));
    let (second, line) = recorder.record(&mut tables, 3, failed("run_1")).unwrap();
    assert_eq!(second.seq, 1);
    assert_eq!(line, None);
    assert_eq!(tables.read_run("run_1").unwrap().len(), 2);
}

#[test]
fn migrates_empty_sqlite_database() {
    assert_eq!(schema_step(0), Ok(SchemaStep::CreateAll));
    assert_eq!(schema_step(1), Ok(SchemaStep::CreateSessions));
    assert_eq!(schema_step(SQLITE_SCHEMA_VERSION), Ok(SchemaStep::Ready));
    assert!(schema_step(SQLITE_SCHEMA_VERSION + 1).is_err());
}

#[test]
fn numbers_fit_the_database() {
    assert_eq!(sqlite_i64(MAX_SQLITE_INTEGER, "seq"), Ok(()));
    assert!(sqlite_i64(MAX_SQLITE_INTEGER + 1, "seq").is_err());
}

#[test]
fn sqlite_append_is_idempotent_and_conflict_checked() {
    let mut ledger = SqliteLedger::new();
    let record = started_record("run_1", 0, 10);

    ledger.append("run_1", record.clone()).unwrap();
    ledger.append("run_1", record.clone()).unwrap();
    assert_eq!(ledger.events.len(), 1);

    let mut changed = record.clone();
    changed.occurred_at_ms = 11;
    assert!(matches!(
        ledger.append("run_1", changed),
        Err(AppError::LedgerConflict { .. })
    ));
}

#[test]
fn sqlite_reads_latest_run_when_run_is_omitted() {
    let mut ledger = SqliteLedger::new();
    ledger
        .append("run_old", started_record("run_old", 0, 10))
        .unwrap();
    ledger
        .append("run_new", started_record("run_new", 0, 20))
        .unwrap();

    let (run_id, records) = ledger.read_latest_run().unwrap();

    assert_eq!(run_id, "run_new");
    assert_eq!(records.len(), 1);
    assert_eq!(read_sqlite_records(&ledger, None), Ok(records));
    assert_eq!(
        read_sqlite_records(&ledger, Some("run_old")).unwrap()[0].occurred_at_ms,
        10
    );
}

#[test]
fn an_empty_database_has_no_runs_and_no_sessions() {
    let ledger = SqliteLedger::new();

    assert_eq!(ledger.latest_run_id(), Err(AppError::NoSqliteRuns));
    assert_eq!(ledger.latest_session_id(), Err(AppError::NoSqliteSessions));
    assert_eq!(
        ledger.read_run("run_1"),
        Err(AppError::RunNotFound("run_1".into()))
    );
    assert_eq!(
        ledger.session_turns("session_1"),
        Err(AppError::SessionNotFound("session_1".into()))
    );
}

#[test]
fn sqlite_sessions_track_finished_turns_and_latest_session() {
    let mut ledger = SqliteLedger::new();

    let turns = ledger
        .begin_session_run(1, "session_1", "run_1", "hello", true)
        .unwrap();
    assert!(turns.is_empty());
    ledger.finish_session_run(2, "run_1", "hi").unwrap();

    assert_eq!(ledger.latest_session_id().unwrap(), "session_1");
    assert_eq!(
        ledger.session_turns("session_1").unwrap(),
        vec![SessionTurn {
            question: "hello".into(),
            final_answer: "hi".into(),
        }]
    );
}

#[test]
fn sqlite_session_summaries_report_latest_session_run() {
    let mut ledger = SqliteLedger::new();

    ledger
        .begin_session_run(1, "session_1", "run_1", "first question", true)
        .unwrap();
    ledger
        .finish_session_run(2, "run_1", "first answer")
        .unwrap();
    ledger
        .begin_session_run(3, "session_1", "run_2", "second question", false)
        .unwrap();

    assert_eq!(
        ledger.session_summaries(),
        vec![PersistedSessionSummary {
            session_id: "session_1".into(),
            run_id: "run_2".into(),
            status: RunStateName::Running,
            latest_question: "second question".into(),
        }]
    );
}

#[test]
fn sqlite_interrupts_running_session_runs() {
    let mut ledger = SqliteLedger::new();

    ledger
        .begin_session_run(1, "session_1", "run_1", "first question", true)
        .unwrap();

    assert_eq!(
        ledger
            .interrupt_running_session_runs(2, "daemon restarted")
            .unwrap(),
        1
    );
    assert_eq!(
        ledger.session_summaries()[0].status,
        RunStateName::Interrupted
    );
    ledger
        .begin_session_run(3, "session_1", "run_2", "follow up", false)
        .unwrap();
}

#[test]
fn sqlite_session_begin_rejects_active_run() {
    let mut ledger = SqliteLedger::new();

    ledger
        .begin_session_run(1, "session_1", "run_active", "hello", true)
        .unwrap();
    let error = ledger
        .begin_session_run(2, "session_1", "run_next", "again", false)
        .unwrap_err();

    assert!(matches!(
        error,
        AppError::SessionActive {
            session_id,
            run_id
        } if session_id == "session_1" && run_id == "run_active"
    ));
}

#[test]
fn rows_of_a_database_become_tables_again() {
    let mut ledger = SqliteLedger::new();
    ledger
        .begin_session_run(1, "session_1", "run_1", "hello", true)
        .unwrap();
    ledger.append("run_1", started_record("run_1", 0, 1)).unwrap();
    let again = SqliteLedger::load(ledger.events, ledger.sessions, ledger.runs).unwrap();
    assert_eq!(again.read_run("run_1").unwrap().len(), 1);
    assert_eq!(again.latest_session_id(), Ok("session_1".into()));

    let session = |at: u64| SessionRow {
        session_id: "session_1".into(),
        created_at_ms: at,
        updated_at_ms: at,
    };
    let twice = vec![session(1), session(2)];
    assert_eq!(
        SqliteLedger::load(again.events, twice, again.runs),
        Err(AppError::Sqlite("ledger rows contradict one another".into()))
    );
}

fn event_row(run_id: &str, seq: u64) -> EventRow {
    EventRow {
        run_id: run_id.into(),
        version: LEDGER_VERSION,
        record: started_record(run_id, seq, 1),
    }
}

fn run_row(run_id: &str, session_index: u64) -> RunRow {
    RunRow {
        session_id: "session_1".into(),
        run_id: run_id.into(),
        session_index,
        question: "why".into(),
        final_answer: None,
        status: RunStateName::Running,
        error: None,
        created_at_ms: 1,
        updated_at_ms: 1,
    }
}

#[test]
fn rows_of_a_database_are_put_in_order() {
    let mut written = SqliteLedger::new();
    written.append("run_1", started_record("run_1", 2, 1)).unwrap();
    written.append("run_1", started_record("run_1", 1, 1)).unwrap();

    let ledger = SqliteLedger::load(
        vec![
            event_row("run_1", 2),
            event_row("run_2", 0),
            event_row("run_1", 1),
        ],
        Vec::new(),
        vec![run_row("run_2", 1), run_row("run_1", 0)],
    )
    .unwrap();

    assert_eq!(ledger.read_run("run_1"), written.read_run("run_1"));
    let seqs: Vec<u64> = ledger
        .read_run("run_1")
        .unwrap()
        .iter()
        .map(|record| record.seq)
        .collect();
    assert_eq!(seqs, vec![1, 2]);
    assert_eq!(
        ledger
            .latest_session_run_status("session_1")
            .unwrap()
            .run_id,
        "run_2"
    );
    assert_eq!(
        ledger.read_session("session_1"),
        Err(AppError::SessionNotFound("session_1".into()))
    );
}

#[test]
fn rows_with_the_same_key_are_turned_down() {
    let refused = Err(AppError::Sqlite("ledger rows contradict one another".into()));

    assert_eq!(
        SqliteLedger::load(
            vec![event_row("run_1", 1), event_row("run_1", 1)],
            Vec::new(),
            Vec::new()
        ),
        refused
    );
    assert_eq!(
        SqliteLedger::load(
            Vec::new(),
            Vec::new(),
            vec![run_row("run_1", 0), run_row("run_2", 0)]
        ),
        refused
    );
    assert_eq!(
        SqliteLedger::load(
            Vec::new(),
            Vec::new(),
            vec![run_row("run_1", 0), run_row("run_1", 1)]
        ),
        refused
    );
}

#[test]
fn lines_are_told_in_lists_and_without_repetition() {
    let line = ledger_line(&record(3, 7, started("run_1")));
    let event = started_record("run_1", 3, 7).event_json;
    let list = format!("[{LEDGER_VERSION},[3,7,{event}]]");
    let twice = line.replace("\"seq\":3", "\"seq\":3,\"seq\":3");

    assert_eq!(read_line(&list), read_line(&line));
    assert_ne!(twice, line);
    assert_eq!(
        read_line(&twice),
        Err(AppError::Json("duplicate field `seq`".into()))
    );
}

#[test]
fn numbers_of_rows_are_not_negative() {
    assert_eq!(row_u64(7, 0, "seq"), Ok(7));
    assert_eq!(
        row_u64(-1, 0, "seq"),
        Err(AppError::Sqlite(
            "Conversion error from type Integer at index: 0, ledger seq is negative: -1".into()
        ))
    );
}

#[test]
fn failed_runs_are_no_turns() {
    let mut ledger = SqliteLedger::new();
    ledger
        .begin_session_run(1, "session_1", "run_1", "hello", true)
        .unwrap();
    ledger
        .fail_session_run(2, "run_1", "no model", false)
        .unwrap();

    assert_eq!(
        ledger.run_status("run_1").unwrap().status,
        RunStateName::Failed
    );
    assert!(ledger.session_turns("session_1").unwrap().is_empty());
    assert!(ledger
        .begin_session_run(3, "session_2", "run_2", "hello", false)
        .is_err());
}

#[test]
fn jsonl_and_sqlite_reconstruct_same_record() {
    let mut tables = SqliteLedger::new();
    let mut jsonl_recorder = JsonlEventRecorder::create("events.jsonl", Created::Made).unwrap();
    let mut sqlite_recorder =
        SqliteEventRecorder::create("events.db", "run_1".into()).unwrap();
    let (jsonl_record, line) = jsonl_recorder.record(5, started("run_1")).unwrap();
    let sqlite_record = sqlite_recorder
        .record(&mut tables, 5, started("run_1"))
        .unwrap();
    assert_eq!(jsonl_record, sqlite_record);
    let jsonl = read_records(&(line + "\n")).unwrap();
    let sqlite = tables.read_run("run_1").unwrap();

    assert_eq!(jsonl[0].seq, sqlite[0].seq);
    assert_eq!(
        plato_agent::json::Json::parse(&jsonl[0].event_json),
        plato_agent::json::Json::parse(&sqlite[0].event_json)
    );
}

#[test]
fn sqlite_replay_without_run_reads_latest_session() {
    let mut ledger = SqliteLedger::new();
    for (run_id, question, first) in [("run_1", "first", true), ("run_2", "second", false)] {
        ledger
            .begin_session_run(1, "session_1", run_id, question, first)
            .unwrap();
        ledger
            .append(run_id, StoredRecord::of(&record(0, 0, started(run_id))))
            .unwrap();
        ledger
            .append(run_id, StoredRecord::of(&record(1, 1, failed(run_id))))
            .unwrap();
        ledger
            .finish_session_run(2, run_id, &format!("{question} answer"))
            .unwrap();
    }

    let replay = replay_sqlite(&ledger, None).unwrap();

    assert!(replay.contains("session_id: session_1"));
    assert!(replay.contains("run_id: run_1"));
    assert!(replay.contains("run_id: run_2"));
    assert_eq!(replay.matches("final_phase: Failed").count(), 2);
    assert_eq!(replay_sqlite_session(&ledger, "session_1"), Ok(replay));
    assert_eq!(ledger.read_latest_session().unwrap().runs.len(), 2);
    assert_eq!(
        replay_sqlite_session(&ledger, "session_9"),
        Err(AppError::SessionNotFound("session_9".into()))
    );
}

fn entries() -> Vec<ReplayEntry> {
    vec![
        ReplayEntry::ModelMessage {
            turn_id: "turn_1".into(),
            role: "assistant".into(),
            content: "let me see".into(),
        },
        ReplayEntry::ToolCall {
            turn_id: "turn_1".into(),
            call_id: "call_1".into(),
            tool: "file.read".into(),
            input: r#"{"path":"a"}"#.into(),
        },
        ReplayEntry::ApprovalDenied {
            call_id: "call_1".into(),
            actor_id: "operator".into(),
            reason: "no".into(),
        },
    ]
}

#[test]
fn readbacks_are_told_in_lines() {
    let readback = Readback {
        entries: entries(),
        final_phase: "Finished".into(),
        next_seq: 4,
    };
    let text = format_readback(&readback);

    assert!(text.contains("assistant: let me see"));
    assert!(text.contains("file.read"));
    assert!(text.contains("operator"));
    assert!(text.contains("final_phase: Finished"));
}

#[test]
fn typed_runs_hold_the_question_and_the_entries() {
    let readback = Readback {
        entries: entries(),
        final_phase: "Finished".into(),
        next_seq: 4,
    };
    let run = typed_run("run_1", 2, RunStateName::Finished, "why?", &readback);

    assert_eq!(run.run_id, "run_1");
    assert_eq!(run.session_index, 2);
    assert_eq!(
        run.entries[0],
        TypedTranscriptEntry::User {
            text: "why?".into()
        }
    );
    assert!(run.entries.iter().any(|entry| matches!(
        entry,
        TypedTranscriptEntry::Approval {
            decision: ApprovalDecisionName::Denied,
            ..
        }
    )));
}

#[test]
fn a_whole_run_is_played_back() {
    let context = plato_agent::app::context_pack(
        "be brief",
        &vec![plato_agent::model::ModelMessage::user_text("hi".into())],
        &Vec::new(),
        4_000,
    );
    let run_id = || "run_1".to_string();
    let turn_id = || "turn_1".to_string();
    let events = vec![
        started("run_1"),
        HarnessEvent::ContextBuilt {
            run_id: run_id(),
            turn_id: turn_id(),
            context,
        },
        HarnessEvent::ModelRequested {
            run_id: run_id(),
            turn_id: turn_id(),
            step: 0,
            model: "a-model".into(),
        },
        HarnessEvent::ModelResponded {
            run_id: run_id(),
            turn_id: turn_id(),
            step: 0,
            output: "hello there".into(),
            proposed_calls: Vec::new(),
            usage: ModelUsage {
                input_tokens: 1,
                output_tokens: 2,
            },
        },
        HarnessEvent::RunFinished { run_id: run_id() },
    ];
    let records: Vec<RecordedEvent> = events
        .into_iter()
        .enumerate()
        .map(|(seq, event)| record(seq as u64, seq as u64, event))
        .collect();
    let stored: Vec<StoredRecord> = records.iter().map(StoredRecord::of).collect();
    let readback = replay(&stored).unwrap();

    assert_eq!(readback.final_phase, "Finished");
    assert_eq!(readback.next_seq, 5);
    let file: String = records
        .iter()
        .map(|record| ledger_line(record) + "\n")
        .collect();
    let text = replay_file(&file).unwrap();
    assert!(text.contains("assistant: hello there"));
    assert!(replay(&stored[1..].to_vec()).is_err());
}

fn call_events(run_id: &str) -> Vec<HarnessEvent> {
    let input = || Json::parse(r#"{"z":[1,-2],"a":"b\nc"}"#).unwrap();
    vec![
        started(run_id),
        HarnessEvent::ContextBuilt {
            run_id: run_id.into(),
            turn_id: "turn_1".into(),
            context: ContextPack {
                token_budget: 100,
                fragments: vec![ContextFragment {
                    lane: ContextLane::RecentTurns,
                    source: "session".into(),
                    content: "first\nsecond".into(),
                    estimated_tokens: 4,
                }],
            },
        },
        HarnessEvent::ModelRequested {
            run_id: run_id.into(),
            turn_id: "turn_1".into(),
            step: 0,
            model: "a-model".into(),
        },
        HarnessEvent::ModelResponded {
            run_id: run_id.into(),
            turn_id: "turn_1".into(),
            step: 0,
            output: "let me see".into(),
            proposed_calls: vec![ToolProposal {
                tool: "file.write".into(),
                input: input(),
            }],
            usage: ModelUsage {
                input_tokens: 1,
                output_tokens: 2,
            },
        },
        HarnessEvent::ToolCallProposed {
            run_id: run_id.into(),
            turn_id: "turn_1".into(),
            call: ToolCall {
                id: "call_1".into(),
                tool: "file.write".into(),
                effect: EffectClass::WorkspaceWrite,
                input: input(),
            },
        },
        HarnessEvent::PolicyEvaluated {
            run_id: run_id.into(),
            call_id: "call_1".into(),
            decision: PolicyDecision::RequireApproval {
                reason: "ask".into(),
            },
        },
        HarnessEvent::ApprovalGranted {
            run_id: run_id.into(),
            call_id: "call_1".into(),
            actor_id: "stdin".into(),
        },
        HarnessEvent::ToolStarted {
            run_id: run_id.into(),
            call_id: "call_1".into(),
        },
        HarnessEvent::ToolFinished {
            run_id: run_id.into(),
            result: ToolResult {
                call_id: "call_1".into(),
                summary: "wrote it".into(),
                data: Json::Null,
            },
        },
    ]
}

#[test]
fn what_was_recorded_is_shown_from_either_ledger() {
    let mut jsonl = JsonlEventRecorder::create("events.jsonl", Created::Made).unwrap();
    let mut sqlite = SqliteEventRecorder::create("events.db", "run_1".into()).unwrap();
    let mut tables = SqliteLedger::new();
    let mut file = String::new();
    for (at, event) in call_events("run_1").into_iter().enumerate() {
        let (_, line) = jsonl.record(at as u64, event).unwrap();
        assert!(!line.contains('\n'));
        file.push_str(&line);
        file.push('\n');
    }
    for (at, event) in call_events("run_1").into_iter().enumerate() {
        sqlite.record(&mut tables, at as u64, event).unwrap();
    }
    let expected = vec![
        ReplayEntry::ContextFragment {
            turn_id: "turn_1".into(),
            lane: "RecentTurns".into(),
            source: "session".into(),
            content: "first\nsecond".into(),
        },
        ReplayEntry::ModelMessage {
            turn_id: "turn_1".into(),
            role: "Assistant".into(),
            content: "let me see".into(),
        },
        ReplayEntry::ToolCall {
            turn_id: "turn_1".into(),
            call_id: "call_1".into(),
            tool: "file.write".into(),
            input: r#"{"a":"b\nc","z":[1,-2]}"#.into(),
        },
        ReplayEntry::ApprovalGranted {
            call_id: "call_1".into(),
            actor_id: "stdin".into(),
        },
        ReplayEntry::ToolResult {
            call_id: "call_1".into(),
            summary: "wrote it".into(),
        },
    ];

    let read = replay(&read_records(&file).unwrap()).unwrap();
    assert_eq!(read.entries, expected);
    let read = replay(&tables.read_run("run_1").unwrap()).unwrap();
    assert_eq!(read.entries, expected);
    assert_eq!(
        replay_file(&file).unwrap(),
        replay_sqlite(&tables, Some("run_1")).unwrap()
    );
}

#[test]
fn denials_and_failures_are_shown() {
    let mut recorder = JsonlEventRecorder::create("events.jsonl", Created::Made).unwrap();
    let mut file = String::new();
    let mut events = call_events("run_1");
    events.truncate(5);
    events.push(HarnessEvent::PolicyEvaluated {
        run_id: "run_1".into(),
        call_id: "call_1".into(),
        decision: PolicyDecision::Deny {
            reason: "not enabled".into(),
        },
    });
    for event in events {
        let (_, line) = recorder.record(1, event).unwrap();
        file.push_str(&line);
        file.push('\n');
    }
    let read = replay(&read_records(&file).unwrap()).unwrap();
    assert_eq!(
        read.entries.last(),
        Some(&ReplayEntry::PolicyDenied {
            call_id: "call_1".into(),
            reason: "not enabled".into(),
        })
    );

    let mut recorder = JsonlEventRecorder::create("events.jsonl", Created::Made).unwrap();
    let mut file = String::new();
    let mut events = call_events("run_1");
    events.truncate(8);
    events.push(HarnessEvent::ToolFailed {
        run_id: "run_1".into(),
        call_id: "call_1".into(),
        reason: "broke".into(),
    });
    for event in events {
        let (_, line) = recorder.record(1, event).unwrap();
        file.push_str(&line);
        file.push('\n');
    }
    let read = replay(&read_records(&file).unwrap()).unwrap();
    assert_eq!(
        read.entries.last(),
        Some(&ReplayEntry::ToolFailed {
            call_id: "call_1".into(),
            reason: "broke".into(),
        })
    );
}

#[test]
fn an_approval_that_was_denied_is_shown() {
    let mut recorder = JsonlEventRecorder::create("events.jsonl", Created::Made).unwrap();
    let mut file = String::new();
    let mut events = call_events("run_1");
    events.truncate(6);
    events.push(HarnessEvent::ApprovalDenied {
        run_id: "run_1".into(),
        call_id: "call_1".into(),
        actor_id: "stdin".into(),
        reason: "no".into(),
    });
    for event in events {
        let (_, line) = recorder.record(1, event).unwrap();
        file.push_str(&line);
        file.push('\n');
    }
    let read = replay(&read_records(&file).unwrap()).unwrap();
    assert_eq!(
        read.entries.last(),
        Some(&ReplayEntry::ApprovalDenied {
            call_id: "call_1".into(),
            actor_id: "stdin".into(),
            reason: "no".into(),
        })
    );
}

#[test]
fn the_first_row_that_cannot_be_read_is_the_error() {
    let mut unreadable = event_row("run_1", 1);
    unreadable.record.event_json = "nonsense".into();
    let mut old = event_row("run_1", 2);
    old.version = LEDGER_VERSION + 1;
    let ledger = SqliteLedger::load(
        vec![
            event_row("run_1", 0),
            unreadable.clone(),
            old.clone(),
            event_row("run_2", 0),
        ],
        Vec::new(),
        Vec::new(),
    )
    .unwrap();

    let expected = "expected ident at line 1 column 2";
    let error = AppError::Sqlite(format!(
        "Conversion error from type Text at index: 3, {expected}"
    ));
    assert_eq!(ledger.read_run("run_1"), Err(error));
    assert_eq!(ledger.read_run("run_2").unwrap().len(), 1);
    assert!(matches!(
        replay_sqlite(&ledger, Some("run_1")),
        Err(AppError::Sqlite(_))
    ));

    old.record.seq = 0;
    let ledger = SqliteLedger::load(vec![unreadable, old], Vec::new(), Vec::new()).unwrap();
    assert_eq!(
        ledger.read_run("run_1"),
        Err(AppError::Sqlite("Query is not read-only".into()))
    );
}

#[test]
fn lines_of_a_ledger_say_what_is_wrong_with_them() {
    let event = r#"{"type":"run_started","run_id":"run_1","agent_id":"plato"}"#;
    for (line, wrong) in [
        (
            r#"{"v":1,"record":{},"x":1}"#.to_owned(),
            "unknown field `x`, expected `v` or `record`",
        ),
        (r#"{"v":1}"#.to_owned(), "missing field `record`"),
        (
            r#"{"v":1,"record":null}"#.to_owned(),
            "invalid type: null, expected struct RecordedEvent",
        ),
        (
            format!(r#"{{"v":4294967296,"record":{{"seq":0,"occurred_at_ms":1,"event":{event}}}}}"#),
            "invalid value: integer `4294967296`, expected u32",
        ),
    ] {
        assert_eq!(read_line(&line), Err(AppError::Json(wrong.into())));
    }
}

#[test]
fn an_event_with_a_member_twice_is_refused() {
    let written = ledger_line(&record(0, 1, started("run_1")));
    assert!(read_line(&written).is_ok());

    let twice = written.replace(r#""agent_id":"plato""#, r#""agent_id":"x","agent_id":"plato""#);
    assert_ne!(written, twice);
    let error = match read_line(&twice) {
        Err(AppError::Json(error)) => error,
        other => panic!("read as {other:?}"),
    };
    assert!(error.starts_with("duplicate field `agent_id`"), "{error}");
}

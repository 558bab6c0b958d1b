//! Policy, the context of a run, and whole runs.
use plato_agent::app::{
    check_question, check_session_ledger, context_pack, estimate_tokens, evaluate_policy,
    hydrated_messages, new_run_id, new_session_id, proposals_from_response, token_limit_field,
    tool_call, tool_result_is_error, ApprovalMode, AssistantDeltaEvent, RunLedger, RunSession,
    TokenLimitField, SESSION_TRUNCATION_MARKER,
};
use plato_agent::config::{Config, LimitsConfig, ProviderKind};
use plato_agent::harness::{
    CoreError, EffectClass, HarnessEvent, ModelUsage, PolicyDecision, RecordedEvent, RunLog,
    ToolCall, ToolResult,
};
use plato_agent::json::Json;
use plato_agent::ledger::{ledger_line, SessionTurn, SqliteLedger, StoredRecord};
use plato_agent::model::{
    messages_to_json, ModelBlock, ModelMessage, ModelRequest, ModelResponse, ModelStop,
};
use plato_agent::provider::{completions_url, request_body, AnswerStream};
use plato_agent::replay::{replay_file, replay_sqlite};
use plato_agent::run::{RunAction, RunError, RunMachine, RunStep, SessionClose};
use plato_agent::session::{ActiveSessionRun, LEFT_OPEN};
use plato_agent::tool_catalog::{tool_specs, SHELL_EXEC};
use plato_agent::tools::ApprovalOutcome;
use plato_agent::AppError;

fn json(text: &str) -> Json {
    Json::parse(text).unwrap()
}

fn call(tool: &str, effect: EffectClass, input: &str) -> ToolCall {
    ToolCall {
        id: "call_1".into(),
        tool: tool.into(),
        effect,
        input: json(input),
    }
}

fn write_call() -> ToolCall {
    call(
        "file.write",
        EffectClass::WorkspaceWrite,
        r#"{"path": "out.txt", "content": "hello"}"#,
    )
}

fn shell_call() -> ToolCall {
    call(
        SHELL_EXEC,
        EffectClass::ExternalSideEffect,
        r#"{"command": "cargo test"}"#,
    )
}

fn required() -> PolicyDecision {
    PolicyDecision::RequireApproval {
        reason: "requires approval".into(),
    }
}

#[test]
fn yolo_auto_grants_required_approval() {
    let policy = required();
    let call = write_call();

    assert_eq!(
        ApprovalMode::AutoApprove.auto_grant_actor(&call, &policy),
        Some("yolo")
    );
    assert_eq!(ApprovalMode::Prompt.auto_grant_actor(&call, &policy), None);
    assert_eq!(
        (ApprovalMode::Deny { actor: "daemon" }).auto_grant_actor(&call, &policy),
        None
    );
}

#[test]
fn yolo_does_not_auto_grant_shell_exec() {
    assert_eq!(
        ApprovalMode::AutoApprove.auto_grant_actor(&shell_call(), &required()),
        None
    );
}

#[test]
fn yolo_does_not_auto_grant_network_tools() {
    let call = call(
        "http.fetch",
        EffectClass::Network,
        r#"{"url": "https://example.com"}"#,
    );
    let policy = evaluate_policy(&vec!["http.fetch".into()], &call);

    assert!(matches!(policy, PolicyDecision::RequireApproval { .. }));
    assert_eq!(
        ApprovalMode::AutoApprove.auto_grant_actor(&call, &policy),
        None
    );
}

#[test]
fn yolo_does_not_auto_grant_secret_or_external_effects() {
    for effect in [EffectClass::ExternalSideEffect, EffectClass::SecretAccess] {
        let call = call("custom.effect", effect, "{}");

        assert_eq!(
            ApprovalMode::AutoApprove.auto_grant_actor(&call, &required()),
            None
        );
    }
}

#[test]
fn deny_mode_marks_required_approval_as_denied() {
    let policy = required();

    assert_eq!(
        (ApprovalMode::Deny { actor: "daemon" }).deny_actor(&policy),
        Some("daemon")
    );
    assert_eq!(ApprovalMode::Prompt.deny_actor(&policy), None);
}

#[test]
fn yolo_does_not_auto_grant_denials() {
    let policy = PolicyDecision::Deny {
        reason: "disabled".into(),
    };

    assert_eq!(
        ApprovalMode::AutoApprove.auto_grant_actor(&write_call(), &policy),
        None
    );
}

#[test]
fn disabled_tools_still_deny() {
    assert!(matches!(
        evaluate_policy(&vec!["file.read".into()], &write_call()),
        PolicyDecision::Deny { .. }
    ));
}

#[test]
fn enabled_file_read_is_allowed() {
    let call = call(
        "file.read",
        EffectClass::ReadOnly,
        r#"{"path": "README.md"}"#,
    );

    assert_eq!(
        evaluate_policy(&vec!["file.read".into()], &call),
        PolicyDecision::Allow
    );
}

#[test]
fn enabled_file_list_is_allowed() {
    let call = call("file.list", EffectClass::ReadOnly, r#"{"path": "."}"#);

    assert_eq!(
        evaluate_policy(&vec!["file.list".into()], &call),
        PolicyDecision::Allow
    );
}

#[test]
fn enabled_file_write_requires_approval() {
    assert!(matches!(
        evaluate_policy(&vec!["file.write".into()], &write_call()),
        PolicyDecision::RequireApproval { .. }
    ));
}

#[test]
fn enabled_file_edit_requires_approval() {
    let call = call(
        "file.edit",
        EffectClass::WorkspaceWrite,
        r#"{"path": "out.txt", "content": "hello"}"#,
    );

    assert!(matches!(
        evaluate_policy(&vec!["file.edit".into()], &call),
        PolicyDecision::RequireApproval { .. }
    ));
}

#[test]
fn enabled_shell_exec_requires_approval() {
    assert!(matches!(
        evaluate_policy(&vec![SHELL_EXEC.into()], &shell_call()),
        PolicyDecision::RequireApproval { reason }
            if reason == "shell.exec requires explicit local approval"
    ));
}

#[test]
fn disabled_shell_exec_denies() {
    assert!(matches!(
        evaluate_policy(&vec!["file.read".into()], &shell_call()),
        PolicyDecision::Deny { reason } if reason == "tool is not enabled: shell.exec"
    ));
}

#[test]
fn unknown_tools_have_outside_effects() {
    let call = tool_call("call_1".into(), "browser.open".into(), json("{}")).unwrap();

    assert_eq!(call.effect, EffectClass::ExternalSideEffect);
    assert_eq!(
        tool_call("call_1".into(), " ".into(), json("{}")),
        Err(CoreError::EmptyIdentifier("ToolName".into()))
    );
}

fn text(message: &ModelMessage) -> &str {
    match &message.content[0] {
        ModelBlock::Text { text } => text,
        block => panic!("expected text block, got {block:?}"),
    }
}

#[test]
fn session_hydration_includes_prior_turns_and_current_question() {
    let config = Config::default();
    let tools = tool_specs(&config.tools.enabled);
    let turns = vec![SessionTurn {
        question: "first question".into(),
        final_answer: "first answer".into(),
    }];

    let messages = hydrated_messages(&turns, "second question", &config, &tools);

    assert_eq!(messages.len(), 3);
    assert_eq!(text(&messages[0]), "first question");
    assert_eq!(text(&messages[1]), "first answer");
    assert_eq!(text(&messages[2]), "second question");
}

#[test]
fn session_hydration_drops_oldest_turns_with_marker() {
    let mut config = Config::default();
    config.limits.token_budget = 1_000;
    let tools = tool_specs(&config.tools.enabled);
    let turns = vec![
        SessionTurn {
            question: "old question ".repeat(400),
            final_answer: "old answer ".repeat(400),
        },
        SessionTurn {
            question: "recent question".into(),
            final_answer: "recent answer".into(),
        },
    ];

    let messages = hydrated_messages(&turns, "current question", &config, &tools);
    let serialized = messages_to_json(&messages).render();

    assert!(serialized.contains(SESSION_TRUNCATION_MARKER));
    assert!(!serialized.contains("old question"));
    assert!(serialized.contains("recent question"));
    assert!(serialized.contains("current question"));
}

/// Drives a run: keeps its records, and answers with what it was given.
struct Driver {
    log: RunLog,
    records: Vec<RecordedEvent>,
    answers: Vec<ModelResponse>,
    requests: Vec<ModelRequest>,
    outcomes: Vec<ApprovalOutcome>,
    results: Vec<Result<ToolResult, String>>,
    asked: Vec<(ToolCall, String)>,
    ran: Vec<ToolCall>,
    notices: Vec<String>,
    pieces: Vec<String>,
    deltas: Vec<AssistantDeltaEvent>,
    canceled: bool,
}

fn driver() -> Driver {
    Driver {
        log: RunLog::new(),
        records: Vec::new(),
        answers: Vec::new(),
        requests: Vec::new(),
        outcomes: Vec::new(),
        results: Vec::new(),
        asked: Vec::new(),
        ran: Vec::new(),
        notices: Vec::new(),
        pieces: Vec::new(),
        deltas: Vec::new(),
        canceled: false,
    }
}

impl Driver {
    fn drive(&mut self, start: (RunMachine, RunStep)) -> Result<String, (RunError, SessionClose)> {
        let (mut machine, mut step) = start;
        loop {
            if let Some(notice) = step.notice {
                self.notices.push(notice);
            }
            let next = match step.action {
                RunAction::Record(event) => {
                    let at = self.records.len() as u64;
                    let answer = match self.log.next_record(at, event) {
                        Ok(record) => {
                            self.records.push(record);
                            Ok(())
                        }
                        Err(error) => Err(error),
                    };
                    machine.recorded(answer, self.canceled)
                }
                RunAction::CallModel(request) => {
                    self.requests.push(request);
                    let mut stream = machine.deltas();
                    for piece in &self.pieces {
                        self.deltas.extend(stream.take(piece));
                    }
                    if self.answers.is_empty() {
                        machine.model_failed("no answer".into())
                    } else {
                        machine.model_answered(self.answers.remove(0), false)
                    }
                }
                RunAction::AskApproval { call, reason } => {
                    self.asked.push((call, reason));
                    machine.approval_decided(self.outcomes.remove(0))
                }
                RunAction::RunTool(call) => {
                    self.ran.push(call);
                    match self.results.remove(0) {
                        Ok(result) => machine.tool_returned(result),
                        Err(reason) => machine.tool_failed(reason),
                    }
                }
                RunAction::Finish { answer } => return Ok(answer),
                RunAction::Fail { error, close } => return Err((error, close)),
            };
            machine = next.0;
            step = next.1;
        }
    }

    fn file(&self) -> String {
        self.records
            .iter()
            .map(|record| ledger_line(record) + "\n")
            .collect()
    }

    fn tables(&self, run_id: &str) -> SqliteLedger {
        let mut tables = SqliteLedger::new();
        for record in &self.records {
            tables.append(run_id, StoredRecord::of(record)).unwrap();
        }
        tables
    }
}

fn limits(token_budget: u32, max_turns: u32) -> LimitsConfig {
    LimitsConfig {
        token_budget,
        max_output_tokens: 1,
        max_turns,
    }
}

fn start(run_id: &str, limits: LimitsConfig, approval: ApprovalMode) -> (RunMachine, RunStep) {
    RunMachine::start(
        run_id.into(),
        "test-model".into(),
        limits,
        vec!["file.read".into(), "file.write".into()],
        approval,
        vec![ModelMessage::user_text("hello".into())],
    )
    .unwrap()
}

fn answer(text: &str) -> ModelResponse {
    ModelResponse {
        content: vec![ModelBlock::Text { text: text.into() }],
        stop: ModelStop::EndTurn,
        usage: ModelUsage {
            input_tokens: 7,
            output_tokens: 3,
        },
    }
}

fn wants_tool(name: &str, input: &str) -> ModelResponse {
    ModelResponse {
        content: vec![ModelBlock::ToolUse {
            id: "call_1".into(),
            name: name.into(),
            input: json(input),
        }],
        stop: ModelStop::ToolUse,
        usage: ModelUsage {
            input_tokens: 1,
            output_tokens: 1,
        },
    }
}

fn read_result(content: &str) -> ToolResult {
    ToolResult {
        call_id: "call_1".into(),
        summary: "read 5 bytes from README.md".into(),
        data: plato_agent::json::ObjectBuilder::new()
            .text("content", content)
            .build(),
    }
}

fn over_budget(run_id: &str) -> Driver {
    let mut driver = driver();
    let (error, close) = driver
        .drive(start(
            run_id,
            limits(1, 8),
            ApprovalMode::Deny { actor: "test" },
        ))
        .unwrap_err();

    match error {
        RunError::Core(error) => {
            assert!(error.message().contains("context budget exceeded: used "));
        }
        other => panic!("unexpected error: {other:?}"),
    }
    assert_eq!(close, SessionClose::Left);
    assert_eq!(driver.records.len(), 2);
    assert!(matches!(
        driver.records[0].event,
        HarnessEvent::RunStarted { .. }
    ));
    match &driver.records[1].event {
        HarnessEvent::RunFailed { reason, .. } => {
            assert!(reason.contains("context budget exceeded: used "));
            assert!(reason.contains("budget 1"));
        }
        event => panic!("expected run_failed, got {event:?}"),
    }
    driver
}

#[test]
fn jsonl_context_budget_abort_records_terminal_run_failed() {
    let driver = over_budget("run_budget_jsonl");

    let replay = replay_file(&driver.file()).unwrap();
    assert!(replay.contains("final_phase: Failed"));
}

#[test]
fn sqlite_context_budget_abort_records_terminal_run_failed() {
    let driver = over_budget("run_budget_sqlite");

    let tables = driver.tables("run_budget_sqlite");
    let replay = replay_sqlite(&tables, Some("run_budget_sqlite")).unwrap();
    assert!(replay.contains("final_phase: Failed"));
}

fn concat(lines: &[&str]) -> String {
    lines.concat()
}

/// The pieces and the whole of an answer whose stream is `body`.
fn streamed(body: String) -> (Vec<String>, ModelResponse) {
    let mut stream = AnswerStream::new();
    let pieces = body
        .lines()
        .map(|line| stream.take_line(line).unwrap())
        .collect();
    assert!(stream.done);
    (pieces, stream.finish().unwrap())
}

#[test]
fn tool_calls_come_in_piece_by_piece() {
    let (_, response) = streamed(concat(&[
        "data: {\"choices\":[{\"index\":0,\"delta\":{\"tool_calls\":[{\"index\":0,\"id\":\"call_1\",\"function\":{\"name\":\"file_write\",\"arguments\":\"{\\\"path\\\":\"}}]},\"finish_reason\":null}]}\n\n",
        "data: {\"choices\":[{\"index\":0,\"delta\":{\"tool_calls\":[{\"index\":0,\"function\":{\"arguments\":\"\\\"out.txt\\\"}\"}}]},\"finish_reason\":null}]}\n\n",
        "data: {\"choices\":[{\"index\":0,\"delta\":{},\"finish_reason\":\"tool_calls\"}]}\n\n",
        "data: [DONE]\n\n",
    ]));

    assert_eq!(response.stop, ModelStop::ToolUse);
    assert_eq!(response.usage.input_tokens, 0);
    assert_eq!(
        response.content,
        vec![ModelBlock::ToolUse {
            id: "call_1".into(),
            name: "file.write".into(),
            input: json(r#"{"path": "out.txt"}"#),
        }]
    );
}

#[test]
fn streams_that_break_off_are_errors() {
    let mut stream = AnswerStream::new();
    assert_eq!(stream.take_line(": comment"), Ok(String::new()));
    assert!(matches!(
        stream.take_line("data: nonsense"),
        Err(AppError::Provider(_))
    ));
    assert!(matches!(stream.finish(), Err(AppError::Provider(_))));
}

#[test]
fn conversations_are_sent_with_their_calls_and_results() {
    let config = Config::default();
    let request = ModelRequest {
        model: "a-model".into(),
        system: "be brief".into(),
        max_output_tokens: 32,
        messages: vec![
            ModelMessage::user_text("hello".into()),
            ModelMessage::assistant_blocks(
                wants_tool("file.read", r#"{"path": "a"}"#).content,
            ),
            ModelMessage::tool_result("call_1".into(), "contents".into(), false),
        ],
        tools: tool_specs(&config.tools.enabled),
    };
    let body = request_body(&request, TokenLimitField::MaxTokens, false);

    assert_eq!(body.number_member("max_tokens"), Some(32));
    assert!(body.get("stream").is_none());
    let messages = body.array_member("messages").unwrap();
    assert_eq!(messages.len(), 4);
    assert_eq!(messages[0].text_member("role"), Some("system".into()));
    let calls = messages[2].array_member("tool_calls").unwrap();
    assert_eq!(
        calls[0].text_at(&vec!["function", "name"]),
        Some("file_read".into())
    );
    assert_eq!(
        messages[3].text_member("tool_call_id"),
        Some("call_1".into())
    );
    assert_eq!(body.array_member("tools").unwrap().len(), 5);
    assert_eq!(
        completions_url("https://openrouter.ai/api/v1/"),
        "https://openrouter.ai/api/v1/chat/completions"
    );
}

#[test]
fn assistant_deltas_are_live_only_not_jsonl_ledger() {
    let mut driver = driver();
    let (pieces, response) = streamed(concat(&[
        "data: {\"choices\":[{\"index\":0,\"delta\":{\"content\":\"Hel\"},\"finish_reason\":null}]}\n\n",
        "data: {\"choices\":[{\"index\":0,\"delta\":{\"content\":\"lo\"},\"finish_reason\":null}]}\n\n",
        "data: {\"choices\":[{\"index\":0,\"delta\":{},\"finish_reason\":\"stop\"}]}\n\n",
        "data: {\"choices\":[],\"usage\":{\"prompt_tokens\":7,\"completion_tokens\":3}}\n\n",
        "data: [DONE]\n\n",
    ]));
    driver.answers = vec![response];
    driver.pieces = pieces;

    let outcome = driver
        .drive(start(
            "run_stream_jsonl",
            limits(4_000, 1),
            ApprovalMode::Deny { actor: "test" },
        ))
        .unwrap();

    assert_eq!(outcome, "Hello");
    let sent = request_body(&driver.requests[0], TokenLimitField::MaxCompletionTokens, true);
    let sent = sent.render();
    assert!(sent.contains(r#""stream":true"#));
    assert!(sent.contains(r#""stream_options":{"include_usage":true}"#));
    let texts: Vec<&str> = driver
        .deltas
        .iter()
        .map(|delta| delta.text.as_str())
        .collect();
    assert_eq!(texts, vec!["Hel", "lo"]);
    assert_eq!(driver.deltas[1].delta_index, 1);
    assert_eq!(driver.deltas[1].turn_id, "turn_1");
    let file = driver.file();
    assert!(!file.contains("assistant_delta"));
    let replay = replay_file(&file).unwrap();
    assert_eq!(
        replay
            .lines()
            .filter(|line| line.contains("assistant:"))
            .count(),
        1
    );
    assert!(replay.contains("assistant: Hello"));
    let usage = driver
        .records
        .iter()
        .find_map(|record| match &record.event {
            HarnessEvent::ModelResponded { usage, .. } => Some(*usage),
            _ => None,
        })
        .expect("model response should record usage");
    assert_eq!(usage.input_tokens, 7);
    assert_eq!(usage.output_tokens, 3);
}

#[test]
fn an_allowed_tool_runs_and_its_result_is_sent_back() {
    let mut driver = driver();
    driver.answers = vec![
        wants_tool("file.read", r#"{"path": "README.md"}"#),
        answer("done"),
    ];
    driver.results = vec![Ok(read_result("hello"))];

    let outcome = driver.drive(start(
        "run_1",
        limits(4_000, 8),
        ApprovalMode::Deny { actor: "test" },
    ));

    assert_eq!(outcome, Ok("done".into()));
    assert_eq!(driver.ran.len(), 1);
    assert_eq!(driver.ran[0].tool, "file.read");
    assert!(driver.asked.is_empty());
    let second = messages_to_json(&driver.requests[1].messages).render();
    assert!(second.contains("hello"));
    assert_eq!(driver.requests[1].messages.len(), 3);
}

#[test]
fn a_denied_approval_is_told_to_the_model() {
    let mut driver = driver();
    driver.answers = vec![
        wants_tool("file.write", r#"{"path": "a", "content": "b"}"#),
        answer("as you wish"),
    ];
    driver.outcomes = vec![ApprovalOutcome::Denied {
        reason: "not now".into(),
    }];

    let outcome = driver.drive(start("run_1", limits(4_000, 8), ApprovalMode::Prompt));

    assert_eq!(outcome, Ok("as you wish".into()));
    assert_eq!(driver.asked.len(), 1);
    assert!(driver.ran.is_empty());
    assert!(driver
        .records
        .iter()
        .any(|record| matches!(&record.event, HarnessEvent::ApprovalDenied { reason, .. }
            if reason == "not now")));
    assert!(messages_to_json(&driver.requests[1].messages)
        .render()
        .contains("not now"));
}

#[test]
fn a_granted_approval_runs_the_tool() {
    let mut driver = driver();
    driver.answers = vec![
        wants_tool("file.write", r#"{"path": "a", "content": "b"}"#),
        answer("written"),
    ];
    driver.outcomes = vec![ApprovalOutcome::Granted];
    driver.results = vec![Err("disk full".into())];

    let outcome = driver.drive(start("run_1", limits(4_000, 8), ApprovalMode::Prompt));

    assert_eq!(outcome, Ok("written".into()));
    assert_eq!(driver.ran.len(), 1);
    assert!(driver
        .records
        .iter()
        .any(|record| matches!(&record.event, HarnessEvent::ToolFailed { reason, .. }
            if reason == "disk full")));
}

#[test]
fn turns_are_bounded() {
    let mut driver = driver();
    for _ in 0..3 {
        driver
            .answers
            .push(wants_tool("file.read", r#"{"path": "README.md"}"#));
        driver.results.push(Ok(read_result("hello")));
    }

    let (error, close) = driver
        .drive(start(
            "run_1",
            limits(4_000, 2),
            ApprovalMode::Deny { actor: "test" },
        ))
        .unwrap_err();

    assert!(matches!(error, RunError::Failed(_)));
    assert!(matches!(close, SessionClose::Failed(_)));
    assert_eq!(driver.requests.len(), 2);
}

#[test]
fn a_canceled_run_stops() {
    let mut driver = driver();
    driver.answers = vec![answer("never")];
    driver.canceled = true;

    let (error, _) = driver
        .drive(start(
            "run_1",
            limits(4_000, 2),
            ApprovalMode::Deny { actor: "test" },
        ))
        .unwrap_err();

    assert!(matches!(error, RunError::Failed(_)));
    assert!(driver.requests.is_empty());
    assert!(matches!(
        driver.records.last().unwrap().event,
        HarnessEvent::RunFailed { .. }
    ));
}

#[test]
fn a_model_that_fails_fails_the_run() {
    let mut driver = driver();

    let (error, _) = driver
        .drive(start(
            "run_1",
            limits(4_000, 2),
            ApprovalMode::Deny { actor: "test" },
        ))
        .unwrap_err();

    assert_eq!(error, RunError::Model);
}

#[test]
fn the_kernel_turns_events_out_of_order_down() {
    let mut log = RunLog::new();
    let event = HarnessEvent::RunFinished {
        run_id: "run_1".into(),
    };

    assert!(log.next_record(0, event).is_err());
}

#[test]
fn questions_are_not_blank() {
    assert_eq!(check_question(" \n"), Err(AppError::EmptyQuestion));
    assert_eq!(check_question("hi"), Ok(()));
}

#[test]
fn sessions_need_a_database() {
    let session = Some(RunSession::Fresh {
        session_id: "session_1".into(),
    });

    assert!(check_session_ledger(&RunLedger::Jsonl("a.jsonl".into()), &session).is_err());
    assert!(check_session_ledger(&RunLedger::Jsonl("a.jsonl".into()), &None).is_ok());
    assert!(check_session_ledger(&RunLedger::Sqlite("a.db".into()), &session).is_ok());
}

#[test]
fn identifiers_hold_the_time_and_the_process() {
    assert_eq!(new_run_id(17, 4), "run_17_4");
    assert_eq!(new_session_id(17, 4), "session_17_4");
}

#[test]
fn tokens_are_estimated_by_characters() {
    assert_eq!(estimate_tokens(""), 1);
    assert_eq!(estimate_tokens("abc"), 1);
    assert_eq!(estimate_tokens("\u{e9}\u{e9}\u{e9}\u{e9}"), 2);
}

#[test]
fn the_context_holds_what_is_sent() {
    let config = Config::default();
    let tools = tool_specs(&config.tools.enabled);
    let messages = vec![ModelMessage::user_text("hello".into())];
    let pack = context_pack("be brief", &messages, &tools, 4_000);

    assert_eq!(pack.token_budget, 4_000);
    assert_eq!(pack.fragments[0].content, "be brief");
    assert!(pack
        .fragments
        .iter()
        .any(|fragment| fragment.content.contains("hello")));
}

#[test]
fn failed_commands_are_errors_to_the_model() {
    assert!(tool_result_is_error(
        SHELL_EXEC,
        &json(r#"{"exit_code": 7}"#)
    ));
    assert!(!tool_result_is_error(
        SHELL_EXEC,
        &json(r#"{"exit_code": 0}"#)
    ));
    assert!(!tool_result_is_error(
        "file.read",
        &json(r#"{"exit_code": 7}"#)
    ));
}

#[test]
fn proposals_name_the_tools_that_are_asked_for() {
    let response = wants_tool("file.read", r#"{"path": "a"}"#);
    let proposals = proposals_from_response(&response).unwrap();

    assert_eq!(proposals.len(), 1);
    assert_eq!(proposals[0].tool, "file.read");
}

#[test]
fn providers_name_the_token_limit_differently() {
    assert_eq!(
        token_limit_field(&ProviderKind::OpenAi),
        TokenLimitField::MaxCompletionTokens
    );
    assert_eq!(
        token_limit_field(&ProviderKind::OpenRouter),
        TokenLimitField::MaxTokens
    );
}

fn begin(tables: &mut SqliteLedger, session: RunSession, run_id: &str, question: &str) -> (ActiveSessionRun, Vec<ModelMessage>) {
    let config = Config::default();
    let tools = tool_specs(&config.tools.enabled);
    ActiveSessionRun::begin(tables, 1, &session, run_id, question, &config, &tools).unwrap()
}

#[test]
fn a_session_goes_on_from_what_was_answered() {
    let mut tables = SqliteLedger::new();
    let fresh = RunSession::Fresh {
        session_id: "session_1".into(),
    };
    let (mut run, messages) = begin(&mut tables, fresh, "run_1", "first question");
    assert_eq!(messages, vec![ModelMessage::user_text("first question".into())]);
    run.finish(&mut tables, 2, "first answer").unwrap();
    assert!(run.closed);
    run.leave(&mut tables, 3);
    assert_eq!(tables.runs[0].final_answer.as_deref(), Some("first answer"));

    let again = RunSession::Continue {
        session_id: "session_1".into(),
    };
    let (run, messages) = begin(&mut tables, again, "run_2", "second question");
    assert_eq!(messages.len(), 3);
    assert_eq!(messages[0], ModelMessage::user_text("first question".into()));
    assert_eq!(messages[2], ModelMessage::user_text("second question".into()));
    run.leave(&mut tables, 4);
    assert_eq!(tables.runs[1].error.as_deref(), Some(LEFT_OPEN));
    assert_eq!(tables.run_status("run_2").unwrap().status.as_str(), "failed");
}

#[test]
fn a_run_of_a_session_is_refused_or_closed_in_every_case() {
    let mut tables = SqliteLedger::new();
    let config = Config::default();
    let tools = tool_specs(&config.tools.enabled);
    let missing = RunSession::Continue {
        session_id: "session_1".into(),
    };
    assert!(matches!(
        ActiveSessionRun::begin(&mut tables, 1, &missing, "run_1", "hello", &config, &tools),
        Err(AppError::SessionNotFound(name)) if name == "session_1"
    ));
    let fresh = RunSession::Fresh {
        session_id: "session_1".into(),
    };
    let (mut run, _) = begin(&mut tables, fresh, "run_1", "hello");
    assert!(matches!(
        ActiveSessionRun::begin(&mut tables, 1, &missing, "run_2", "hello", &config, &tools),
        Err(AppError::SessionActive { run_id, .. }) if run_id == "run_1"
    ));
    assert!(matches!(
        run.fail(&mut tables, u64::MAX, "late", false),
        Err(AppError::Config(_))
    ));
    assert!(!run.closed);
    run.fail(&mut tables, 2, "run canceled", true).unwrap();
    assert_eq!(tables.run_status("run_1").unwrap().status.as_str(), "canceled");
}

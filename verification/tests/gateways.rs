//! The chat gateways.
use plato_agent::config::Config;
use plato_agent::daemon::messages::{EventsStreamResult, HelloResult, SessionSummary};
use plato_agent::daemon::protocol::RunStateName;
use plato_agent::daemon::transcript::TranscriptReadResult;
use plato_agent::discord_gateway;
use plato_agent::discord_gateway::{
    authorization, close_control, connection_url, discord_chunks, discovery_url, gateway_address,
    heartbeat_jitter, hello_interval, hello_missing, message_body, messages_url, opening_payload,
    parse_snowflake, read_discovery, read_gateway_payload, session_after, DiscordConnection,
    DiscordGateway, DiscordGatewayConfig, DiscordMessage, DiscordSession, GatewayControl,
    GatewayPayload, SocketRead, Step, Tick, DISCORD_INTENTS,
};
use plato_agent::error::ProtocolError;
use plato_agent::gateway::{
    chunks, reconnectable, request_error, require_capabilities, terminal_answer, EnvVar, RunWatch,
    WatchAction, WatchEvent, RECONNECT_ATTEMPTS,
};
use plato_agent::json::Json;
use plato_agent::telegram_gateway;
use plato_agent::telegram_gateway::{
    check_sent, endpoint, read_updates, send_body, telegram_chunks, updates_query, Conversation,
    TelegramGateway, TelegramGatewayConfig, TelegramMessage, TelegramUpdate,
};
use plato_agent::{AppError, AppResult};

fn json(text: &str) -> Json {
    Json::parse(text).unwrap()
}

fn env(vars: &[(&str, &str)]) -> Vec<EnvVar> {
    vars.iter()
        .map(|(name, value)| EnvVar {
            name: name.to_string(),
            value: Some(value.to_string()),
        })
        .collect()
}

fn telegram_config() -> TelegramGatewayConfig {
    TelegramGatewayConfig {
        api_key_env: "TELEGRAM_BOT_TOKEN".into(),
        owner_user_ids: vec![42],
    }
}

fn discord_config() -> DiscordGatewayConfig {
    DiscordGatewayConfig {
        api_key_env: "DISCORD_BOT_TOKEN".into(),
        owner_user_ids: vec![42],
    }
}

#[test]
fn telegram_gateway_gateway_environment_rejects_provider_credentials() {
    let config = Config::default();
    let error = telegram_config()
        .token(
            &config.provider.api_key_env,
            &env(&[
                ("TELEGRAM_BOT_TOKEN", "telegram-secret"),
                ("OPENROUTER_API_KEY", "provider-secret"),
            ]),
        )
        .unwrap_err();

    assert!(error.message().contains("OPENROUTER_API_KEY"));
    assert!(!error.message().contains("provider-secret"));
    assert!(!error.message().contains("telegram-secret"));
}

#[test]
fn discord_gateway_gateway_environment_rejects_provider_credentials() {
    let config = Config::default();
    let error = discord_config()
        .token(
            &config.provider.api_key_env,
            &env(&[
                ("DISCORD_BOT_TOKEN", "discord-secret"),
                ("OPENROUTER_API_KEY", "provider-secret"),
            ]),
        )
        .unwrap_err();

    assert!(error.message().contains("OPENROUTER_API_KEY"));
    assert!(!error.message().contains("provider-secret"));
    assert!(!error.message().contains("discord-secret"));
}

#[test]
fn a_gateway_needs_its_token() {
    let provider = &Config::default().provider.api_key_env;

    assert_eq!(
        telegram_config().token(provider, &env(&[("TELEGRAM_BOT_TOKEN", "telegram-secret")])),
        Ok("telegram-secret".into())
    );
    assert!(telegram_config().token(provider, &Vec::new()).is_err());
}

fn update(
    update_id: i64,
    sender: i64,
    chat_id: i64,
    thread_id: Option<i64>,
    text: &str,
) -> TelegramUpdate {
    TelegramUpdate {
        update_id,
        message: Some(TelegramMessage {
            sender: Some(sender),
            chat_id,
            thread_id,
            text: Some(text.into()),
        }),
    }
}

fn finished_page(status: RunStateName) -> EventsStreamResult {
    EventsStreamResult {
        run_id: "run_1".into(),
        from_offset: 0,
        next_offset: 1,
        status,
        events: Vec::new(),
    }
}

fn transcript(answer: &str) -> TranscriptReadResult {
    TranscriptReadResult {
        run_id: "run_1".into(),
        status: RunStateName::Finished,
        final_answer: Some(answer.into()),
        transcript: "rendered text must not be parsed".into(),
        typed: None,
        pending_approval: None,
    }
}

fn finished_session() -> SessionSummary {
    SessionSummary {
        session_id: "session_1".into(),
        run_id: "run_1".into(),
        status: RunStateName::Finished,
        latest_question: "hello".into(),
        ledger_path: "/tmp/agent.db".into(),
    }
}

/// Watches a run whose daemon answers as given.
fn watched(answers: Vec<WatchEvent>) -> (AppResult<String>, Vec<WatchAction>) {
    let mut watch = RunWatch::new("session_1");
    let mut taken = Vec::new();
    for answer in answers {
        match watch.step(answer) {
            WatchAction::Finish(result) => return (result, taken),
            action => taken.push(action),
        }
    }
    panic!("the run is still watched after {taken:?}");
}

fn finished_watch(answer: &str) -> AppResult<String> {
    watched(vec![
        WatchEvent::Events(Ok(finished_page(RunStateName::Finished))),
        WatchEvent::Transcript(Ok(transcript(answer))),
    ])
    .0
}

fn closed() -> AppError {
    AppError::DaemonProtocol("daemon closed connection".into())
}

fn restarted_watch(answer: &str) -> AppResult<String> {
    let (result, actions) = watched(vec![
        WatchEvent::Events(Err(closed())),
        WatchEvent::Connected(Ok(())),
        WatchEvent::Sessions(Ok(vec![finished_session()])),
        WatchEvent::Transcript(Ok(transcript(answer))),
    ]);
    assert!(matches!(actions[0], WatchAction::Connect { .. }));
    assert_eq!(actions[1], WatchAction::ListSessions);
    assert_eq!(actions[2], WatchAction::ReadTranscript);
    result
}

fn lagged_watch(answer: &str) -> AppResult<String> {
    let lagged = AppError::DaemonResponse(ProtocolError {
        code: "lagged".into(),
        message: "test error".into(),
    });
    let (result, actions) = watched(vec![
        WatchEvent::Events(Err(lagged)),
        WatchEvent::Events(Ok(finished_page(RunStateName::Finished))),
        WatchEvent::Transcript(Ok(transcript(answer))),
    ]);
    assert_eq!(
        actions[0],
        WatchAction::AskEvents {
            from_offset: None,
            pause: false
        }
    );
    result
}

#[test]
fn non_owner_updates_are_silently_ignored() {
    let mut gateway = TelegramGateway::new(None, telegram_config());

    assert_eq!(
        gateway.take_update(update(7, 99, 200, None, "ignore me")),
        None
    );
    assert!(gateway.sessions.is_empty());
    assert_eq!(gateway.next_update_id, Some(8));
}

#[test]
fn telegram_gateway_owner_message_replies_with_typed_final_answer() {
    let mut gateway = TelegramGateway::new(None, telegram_config());
    let (conversation, text) = gateway
        .take_update(update(7, 42, 200, Some(9), "hello"))
        .unwrap();
    let order = gateway.order(conversation, text);
    assert_eq!(order.method, "message.append");
    let params = order.params.unwrap();
    assert_eq!(params.text_member("message"), Some("hello".into()));
    assert_eq!(params.get("session_id"), Some(&Json::Null));
    assert_eq!(params.flag_member("wait"), Some(false));
    gateway.note_session(conversation, "session_1");
    let answer = finished_watch("final answer").unwrap();
    let body = send_body(conversation, &answer);

    assert_eq!(body.number_member("chat_id"), Some(200));
    assert_eq!(body.number_member("message_thread_id"), Some(9));
    assert_eq!(body.text_member("text"), Some("final answer".into()));
    assert_eq!(gateway.sessions[0].session_id, "session_1");
    assert_eq!(
        gateway.sessions[0].conversation,
        Conversation {
            chat_id: 200,
            thread_id: Some(9)
        }
    );
}

#[test]
fn conversations_go_on() {
    let mut gateway = TelegramGateway::new(Some("plato.toml".into()), telegram_config());
    let conversation = Conversation {
        chat_id: 200,
        thread_id: None,
    };
    gateway.note_session(conversation, "session_1");
    gateway.note_session(conversation, "session_2");
    let params = gateway
        .order(conversation, "more".into())
        .params
        .unwrap();

    assert_eq!(params.text_member("session_id"), Some("session_2".into()));
    assert_eq!(params.text_member("config_path"), Some("plato.toml".into()));
    assert_eq!(gateway.sessions.len(), 1);
}

#[test]
fn telegram_gateway_daemon_restart_recovers_final_answer_from_typed_transcript() {
    assert_eq!(
        restarted_watch("recovered answer"),
        Ok("recovered answer".into())
    );
}

#[test]
fn telegram_gateway_lag_resumes_at_tip_and_reads_typed_final_answer() {
    assert_eq!(
        lagged_watch("answer after lag"),
        Ok("answer after lag".into())
    );
}

#[test]
fn discord_gateway_daemon_restart_recovers_final_answer_from_typed_transcript() {
    let answer = restarted_watch("recovered answer").unwrap();

    assert_eq!(
        message_body(&answer).text_member("content"),
        Some("recovered answer".into())
    );
}

#[test]
fn discord_gateway_lag_resumes_at_tip_and_reads_typed_final_answer() {
    let answer = lagged_watch("answer after lag").unwrap();

    assert_eq!(
        message_body(&answer).text_member("content"),
        Some("answer after lag".into())
    );
}

#[test]
fn a_daemon_that_stays_away_is_given_up() {
    let mut answers = vec![WatchEvent::Events(Err(closed()))];
    for _ in 0..RECONNECT_ATTEMPTS {
        answers.push(WatchEvent::Connected(Err(AppError::Io(
            "connection refused".into(),
        ))));
    }
    let (result, actions) = watched(answers);

    assert!(result.is_err());
    assert_eq!(actions.len(), RECONNECT_ATTEMPTS as usize);
}

#[test]
fn runs_without_an_answer_are_errors() {
    let mut failed = transcript("ignored");
    failed.status = RunStateName::Failed;
    failed.final_answer = None;
    assert_eq!(
        terminal_answer(failed).unwrap_err().message(),
        "run did not finish: run run_1 ended with status failed without a final answer"
    );
    assert!(reconnectable(&closed()));
    assert!(!reconnectable(&AppError::EmptyQuestion));
}

#[test]
fn telegram_errors_never_include_the_token() {
    let error = request_error("telegram", "sendMessage", Some(401));

    assert!(!error.message().contains("secret-token"));
    assert!(error.message().contains("401"));
    assert!(endpoint("https://api.telegram.org", "secret-token", "sendMessage")
        .contains("secret-token"));
}

#[test]
fn discord_http_errors_never_include_the_token() {
    let error = request_error("discord", "create message", Some(401));

    assert!(!error.message().contains("secret-token"));
    assert_eq!(authorization("secret-token"), "Bot secret-token");
}

#[test]
fn updates_are_read_from_the_api() {
    let updates = read_updates(
        r#"{"ok": true, "result": [{"update_id": 7, "message": {"from": {"id": 42},
            "chat": {"id": 200}, "message_thread_id": 9, "text": "hello"}}]}"#,
    )
    .unwrap();

    assert_eq!(updates, vec![update(7, 42, 200, Some(9), "hello")]);
    assert!(read_updates(r#"{"ok": false}"#).is_err());
    assert!(read_updates("nonsense").is_err());
    assert!(check_sent(r#"{"ok": true, "result": {}}"#).is_ok());
    assert!(check_sent(r#"{"ok": false}"#).is_err());
}

#[test]
fn updates_are_asked_for_once() {
    let query = updates_query(30, Some(8));

    assert!(query.contains(&("offset".into(), "8".into())));
    assert!(query.contains(&("timeout".into(), "30".into())));
    assert!(!updates_query(30, None)
        .iter()
        .any(|(name, _)| name == "offset"));
}

#[test]
fn long_answers_are_sent_in_pieces() {
    let text = "ab\u{e9}".repeat(2_000);
    let pieces = telegram_chunks(&text);

    assert_eq!(pieces.len(), 2);
    assert_eq!(pieces.concat(), text);
    assert_eq!(discord_chunks(&text).len(), 3);
    assert_eq!(chunks("abcde", 2), vec!["ab", "cd", "e"]);
}

#[test]
fn daemons_must_do_what_a_gateway_needs() {
    let mut hello = HelloResult {
        daemon_version: "test".into(),
        workspace_id: "workspace_1".into(),
        ledger_path: "/tmp/agent.db".into(),
        capabilities: telegram_gateway::required_capabilities()
            .iter()
            .map(ToString::to_string)
            .collect(),
    };
    assert!(
        require_capabilities(&hello, &telegram_gateway::required_capabilities()).is_ok()
    );
    hello.capabilities.pop();
    assert!(
        require_capabilities(&hello, &telegram_gateway::required_capabilities()).is_err()
    );
    assert!(discord_gateway::required_capabilities().contains(&"run.start"));
}

fn discord_message(author_id: u64, channel_id: u64, content: &str) -> DiscordMessage {
    DiscordMessage {
        channel_id,
        author_id,
        content: content.into(),
    }
}

#[test]
fn non_owner_messages_are_silently_ignored() {
    let gateway = DiscordGateway::new(None, discord_config());

    assert!(!gateway.takes(&discord_message(99, 200, "ignore me")));
    assert!(gateway.sessions.is_empty());
}

#[test]
fn discord_gateway_owner_message_replies_with_typed_final_answer() {
    let mut gateway = DiscordGateway::new(None, discord_config());
    let message = discord_message(42, 200, "hello");
    assert!(gateway.takes(&message));
    let order = gateway.order(message.channel_id, message.content);
    assert_eq!(order.method, "run.start");
    let params = order.params.unwrap();
    assert_eq!(params.text_member("question"), Some("hello".into()));
    assert!(params.get("session_id").is_none());
    assert_eq!(params.flag_member("wait"), Some(false));
    gateway.note_session(200, "session_1");
    let answer = finished_watch("final answer").unwrap();
    let body = message_body(&answer);

    assert!(messages_url("http://127.0.0.1:1", 200).ends_with("/channels/200/messages"));
    assert_eq!(authorization("test-token"), "Bot test-token");
    assert_eq!(body.text_member("content"), Some("final answer".into()));
    assert_eq!(
        body.at(&vec!["allowed_mentions", "parse"]),
        Some(&json("[]"))
    );
    assert_eq!(gateway.sessions[0].session_id, "session_1");
    assert_eq!(gateway.sessions[0].channel_id, 200);
}

#[test]
fn owner_followup_appends_to_channel_session() {
    let mut gateway = DiscordGateway::new(None, discord_config());
    gateway.note_session(200, "session_existing");
    let order = gateway.order(200, "follow up".into());
    assert_eq!(order.method, "message.append");
    let params = order.params.unwrap();

    assert_eq!(params.text_member("message"), Some("follow up".into()));
    assert_eq!(
        params.text_member("session_id"),
        Some("session_existing".into())
    );
    assert_eq!(params.flag_member("wait"), Some(false));
    gateway.note_session(200, "session_existing");
    assert_eq!(finished_watch("next answer"), Ok("next answer".into()));
    assert_eq!(gateway.sessions[0].session_id, "session_existing");
}

fn payload(text: &str) -> GatewayPayload {
    read_gateway_payload(SocketRead::Text(text.into()))
        .unwrap()
        .unwrap()
}

#[test]
fn websocket_identifies_and_receives_messages() {
    let hello = payload(r#"{"op": 10, "d": {"heartbeat_interval": 20}}"#);
    let interval = hello_interval(&hello).unwrap();
    assert_eq!(interval, 20);
    let identify = opening_payload("test-token", &None, "linux");
    assert_eq!(identify.number_member("op"), Some(2));
    assert_eq!(
        identify.text_at(&vec!["d", "token"]),
        Some("test-token".into())
    );
    assert_eq!(
        identify.at(&vec!["d", "intents"]).unwrap().as_u64(),
        Some(DISCORD_INTENTS)
    );

    let mut connection = DiscordConnection::open(None, interval, 0, 0);
    let ready = payload(
        r#"{"op": 0, "s": 1, "t": "READY", "d": {"session_id": "discord_session",
            "resume_gateway_url": "ws://127.0.0.1:1"}}"#,
    );
    assert_eq!(connection.take_payload(ready), Step::Continue);
    let created = payload(
        r#"{"op": 0, "s": 2, "t": "MESSAGE_CREATE", "d": {"channel_id": "200",
            "author": {"id": "42", "bot": false}, "content": "hello"}}"#,
    );
    assert_eq!(
        connection.take_payload(created),
        Step::Deliver(discord_message(42, 200, "hello"))
    );
    match connection.tick(20, false) {
        Tick::Heartbeat(heartbeat) => {
            assert_eq!(heartbeat.number_member("op"), Some(1));
            assert_eq!(heartbeat.number_member("d"), Some(2));
        }
        other => panic!("discord gateway did not send a heartbeat: {other:?}"),
    }
    assert_eq!(connection.note_heartbeat(true, 20), None);
    let acknowledged = payload(r#"{"op": 11, "d": null}"#);
    assert_eq!(connection.take_payload(acknowledged), Step::Continue);
    assert!(connection.acknowledged);

    assert_eq!(
        discovery_url("https://discord.com/api/v10"),
        "https://discord.com/api/v10/gateway/bot"
    );
    assert_eq!(
        read_discovery(r#"{"url": "ws://127.0.0.1:1"}"#),
        Ok("ws://127.0.0.1:1".into())
    );
}

#[test]
fn messages_of_bots_are_not_heard() {
    let mut connection = DiscordConnection::open(None, 20, 0, 0);
    let created = payload(
        r#"{"op": 0, "s": 2, "t": "MESSAGE_CREATE", "d": {"channel_id": "200",
            "author": {"id": "42", "bot": true}, "content": "hello"}}"#,
    );

    assert_eq!(connection.take_payload(created), Step::Continue);
}

#[test]
fn a_silent_gateway_is_left() {
    let mut connection = DiscordConnection::open(None, 20, 0, 0);
    connection.acknowledged = false;

    assert!(matches!(
        connection.tick(20, false),
        Tick::Leave(GatewayControl::Resume)
    ));
    assert!(matches!(
        connection.tick(0, true),
        Tick::Leave(GatewayControl::Stop)
    ));
    assert!(matches!(hello_missing(true), GatewayControl::Stop));
}

fn session() -> DiscordSession {
    DiscordSession {
        session_id: "discord_session".into(),
        resume_gateway_url: "wss://resume.test".into(),
        sequence: 7,
    }
}

#[test]
fn sessions_are_resumed() {
    let resume = opening_payload("test-token", &Some(session()), "linux");

    assert_eq!(resume.number_member("op"), Some(6));
    assert_eq!(resume.at(&vec!["d", "seq"]).unwrap().as_u64(), Some(7));
    assert_eq!(
        connection_url(&Some(session()), "wss://first.test"),
        Ok("wss://resume.test/?v=10&encoding=json".into())
    );
    assert_eq!(
        connection_url(&None, "wss://first.test"),
        Ok("wss://first.test/?v=10&encoding=json".into())
    );
    assert!(connection_url(&None, "no address").is_err());
    assert_eq!(
        session_after(Some(session()), &GatewayControl::Resume),
        Some(session())
    );
    assert_eq!(
        session_after(Some(session()), &GatewayControl::Reidentify),
        None
    );
}

#[test]
fn some_endings_are_final() {
    assert!(matches!(
        close_control(Some(4004)),
        GatewayControl::Fatal(_)
    ));
    assert!(matches!(
        close_control(Some(4009)),
        GatewayControl::Reidentify
    ));
    assert!(matches!(close_control(None), GatewayControl::Resume));
    assert!(gateway_address(None).is_err());
}

#[test]
fn snowflakes_are_numbers() {
    assert_eq!(parse_snowflake("200"), Ok(200));
    assert!(parse_snowflake("two hundred").is_err());
    assert!(heartbeat_jitter(20, 1_234_567) <= 20);
}

#[test]
fn payloads_are_told_in_lists_and_without_repetition() {
    let told = read_gateway_payload(SocketRead::Text(r#"[11, null, 3, "X"]"#.into()))
        .ok()
        .flatten()
        .unwrap();
    assert_eq!((told.op, told.s, told.t.as_deref()), (11, Some(3), Some("X")));

    for text in [r#"{"op":11,"op":11}"#, "[11, null]"] {
        assert!(read_gateway_payload(SocketRead::Text(text.into())).is_err());
    }
    assert!(read_gateway_payload(SocketRead::Text(r#"{"op":11,"x":1,"x":2}"#.into())).is_ok());
}

#[test]
fn what_is_not_known_of_a_payload_is_passed_over() {
    let deep = format!("{}{}", "[".repeat(300), "]".repeat(300));
    for value in ["1e999", r#""\ud800""#, deep.as_str()] {
        let payload = read_gateway_payload(SocketRead::Text(format!(
            r#"{{"op": 11, "trace": {value}, "s": 3}}"#
        )))
        .ok()
        .flatten()
        .unwrap();
        assert_eq!((payload.op, payload.s), (11, Some(3)));
        let known = format!(r#"{{"op": 11, "d": {value}}}"#);
        assert!(read_gateway_payload(SocketRead::Text(known)).is_err());
        let update = format!(
            r#"{{"ok": true, "x": {value}, "result": [{{"update_id": 7, "x": {value}, "message":
                {{"from": {{"id": 42, "x": {value}}}, "chat": {{"id": 200}}, "text": "hello",
                "message_thread_id": 9, "x": {value}}}}}]}}"#
        );
        assert_eq!(
            read_updates(&update).unwrap(),
            vec![update_of_hello()]
        );
    }
}

fn update_of_hello() -> TelegramUpdate {
    update(7, 42, 200, Some(9), "hello")
}

#[test]
fn updates_tell_nothing_twice() {
    let taken = r#"{"ok": true, "result": [{"update_id": 7, "message": {"from": {"id": 42},
        "chat": {"id": 200}, "message_thread_id": 9, "text": "hello"}}]}"#;
    assert_eq!(read_updates(taken).unwrap(), vec![update_of_hello()]);
    for (once, twice) in [
        (r#""ok": true"#, r#""ok": true, "ok": true"#),
        (r#""update_id": 7"#, r#""update_id": 7, "update_id": 7"#),
        (r#""text": "hello""#, r#""text": "hello", "text": "hello""#),
        (r#""id": 42"#, r#""id": 42, "id": 42"#),
        (r#""id": 200"#, r#""id": 200, "id": 200"#),
    ] {
        assert!(read_updates(&taken.replace(once, twice)).is_err(), "{twice}");
    }
    let listed = r#"[true, [[7, [[42], [200], 9, "hello"]]]]"#;
    assert_eq!(read_updates(listed).unwrap(), vec![update_of_hello()]);
    let listed = r#"[true, [[7, [{"id": 42, "id": 42}, [200], 9, "hello"]]]]"#;
    assert!(read_updates(listed).is_err());
}

#[test]
fn the_address_of_the_gateway_may_be_told_in_a_list() {
    assert_eq!(read_discovery(r#"["ws://127.0.0.1:1"]"#), Ok("ws://127.0.0.1:1".into()));
    assert_eq!(
        read_discovery(r#"{"shards": 1e999, "url": "ws://127.0.0.1:1"}"#),
        Ok("ws://127.0.0.1:1".into())
    );
    let invalid = "discord gateway discovery returned invalid JSON";
    for body in [r#"{"url": "a", "url": "a"}"#, r#"["a", "b"]"#, "[]"] {
        assert_eq!(read_discovery(body), Err(AppError::Provider(invalid.into())));
    }
}

#[test]
fn a_watch_ends_with_the_error_that_it_was_handed() {
    let given = || AppError::Config("broken".into());
    let ended = |answers| watched(answers).0.unwrap_err();

    assert_eq!(ended(vec![WatchEvent::Events(Err(given()))]), given());
    assert_eq!(
        ended(vec![
            WatchEvent::Events(Err(closed())),
            WatchEvent::Connected(Err(given())),
        ]),
        given()
    );
    let sought = || {
        vec![
            WatchEvent::Events(Err(closed())),
            WatchEvent::Connected(Ok(())),
        ]
    };
    let mut answers = sought();
    answers.push(WatchEvent::Sessions(Err(closed())));
    assert_eq!(ended(answers), closed());
    let mut answers = sought();
    answers.push(WatchEvent::Sessions(Ok(Vec::new())));
    assert_eq!(ended(answers), AppError::SessionNotFound("session_1".into()));

    let mut answers = vec![WatchEvent::Events(Err(closed()))];
    answers.extend((0..64).map(|_| WatchEvent::Connected(Err(closed()))));
    assert_eq!(
        ended(answers),
        AppError::DaemonProtocol("daemon unavailable during gateway recovery".into())
    );

    let mut silent = transcript("unused");
    silent.final_answer = None;
    assert_eq!(
        ended(vec![
            WatchEvent::Events(Ok(finished_page(RunStateName::Finished))),
            WatchEvent::Transcript(Ok(silent)),
        ]),
        AppError::RunFailed("run run_1 ended with status finished without a final answer".into())
    );
}

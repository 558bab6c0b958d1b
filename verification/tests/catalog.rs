//! The tools, and what models say.
use plato_agent::anthropic;
use plato_agent::anthropic::{
    read_answer, request_body, AnthropicBlock, AnthropicClient, AnthropicContent, AnthropicMessage,
    AnthropicResponse, AnthropicRole, Sent,
};
use plato_agent::harness::{EffectClass, ModelUsage};
use plato_agent::json::Json;
use plato_agent::model::{ModelBlock, ModelResponse, ModelStop};
use plato_agent::tool_catalog::{
    bootstrap_tools, default_enabled_tools, effect_for_tool, internal_name_for_provider,
    is_known_tool, provider_name_for_internal, tool_specs, FILE_READ, FILE_WRITE,
};
use plato_agent::AppError;

fn json(text: &str) -> Json {
    Json::parse(text).unwrap()
}

#[test]
fn unknown_tool_effect_fails_closed() {
    assert_eq!(
        effect_for_tool("shell.exec"),
        EffectClass::ExternalSideEffect
    );
    assert_eq!(
        effect_for_tool("shell.delete"),
        EffectClass::ExternalSideEffect
    );
}

#[test]
fn emits_provider_tool_specs_from_catalog() {
    let specs = tool_specs(&vec![FILE_READ.into(), FILE_WRITE.into()]);

    assert_eq!(specs.len(), 2);
    assert_eq!(specs[0].name, "file_read");
    assert_eq!(specs[1].name, "file_write");
}

#[test]
fn names_are_found_both_ways() {
    assert_eq!(default_enabled_tools().len(), bootstrap_tools().len());
    for tool in bootstrap_tools() {
        assert!(is_known_tool(tool.internal_name));
        assert_eq!(
            provider_name_for_internal(tool.internal_name),
            Some(tool.provider_name)
        );
        assert_eq!(
            internal_name_for_provider(tool.provider_name),
            Some(tool.internal_name)
        );
        assert_eq!(effect_for_tool(tool.internal_name), tool.effect);
        assert_ne!(tool.effect, EffectClass::Network);
    }
    assert_eq!(internal_name_for_provider("browser_open"), None);
}

#[test]
fn unknown_names_have_no_spec() {
    assert!(tool_specs(&vec!["browser.open".into()]).is_empty());
}

#[test]
fn schemas_name_what_is_required() {
    let specs = tool_specs(&vec![FILE_WRITE.into()]);

    assert_eq!(
        specs[0].input_schema,
        json(
            r#"{"additionalProperties": false,
                "properties": {
                    "content": {"description": "UTF-8 content to write.", "type": "string"},
                    "path": {"description": "Relative path inside the current workspace.",
                        "type": "string"}},
                "required": ["path", "content"],
                "type": "object"}"#
        )
    );
}

#[test]
fn model_extracts_text_and_tool_uses_from_response() {
    let response = ModelResponse {
        content: vec![
            ModelBlock::Text {
                text: "I will read it.".into(),
            },
            ModelBlock::ToolUse {
                id: "toolu_1".into(),
                name: "file.read".into(),
                input: json(r#"{"path": "README.md"}"#),
            },
        ],
        stop: ModelStop::ToolUse,
        usage: ModelUsage {
            input_tokens: 10,
            output_tokens: 5,
        },
    };

    assert_eq!(response.text(), "I will read it.");
    assert_eq!(response.tool_uses().len(), 1);
}

#[test]
fn anthropic_extracts_text_and_tool_uses_from_response() {
    let response = AnthropicResponse::decode(&json(
        r#"{"id": "msg_1", "type": "message", "role": "assistant", "model": "a-model",
            "stop_reason": "tool_use",
            "content": [
                {"type": "text", "text": "I will read it."},
                {"type": "tool_use", "id": "toolu_1", "name": "file.read",
                    "input": {"path": "README.md"}}],
            "usage": {"input_tokens": 10, "output_tokens": 5}}"#,
    ))
    .unwrap();

    assert_eq!(response.text(), "I will read it.");
    assert_eq!(response.tool_uses().len(), 1);
    assert_eq!(response.usage.input_tokens, 10);
}

#[test]
fn texts_stand_one_under_the_other() {
    let text = |text: &str| AnthropicBlock::Text { text: text.into() };
    let response = AnthropicResponse {
        content: vec![text("one"), text("two")],
        usage: anthropic::AnthropicUsage {
            input_tokens: 1,
            output_tokens: 1,
        },
    };

    assert_eq!(response.text(), "one\ntwo");
}

#[test]
fn only_failures_of_tools_are_marked() {
    let failed = AnthropicMessage::tool_result("toolu_1".into(), "gone".into(), true);
    let fine = AnthropicMessage::tool_result("toolu_1".into(), "here".into(), false);

    assert_eq!(failed.role, AnthropicRole::User);
    assert_eq!(
        failed.content,
        AnthropicContent::Blocks(vec![AnthropicBlock::ToolResult {
            tool_use_id: "toolu_1".into(),
            content: "gone".into(),
            is_error: Some(true)
        }])
    );
    let body = request_body("a-model", "be brief", &vec![failed, fine], &Vec::new()).render();
    assert_eq!(body.matches("is_error").count(), 1);
}

#[test]
fn requests_hold_the_messages_and_the_tools() {
    let messages = vec![AnthropicMessage::user_text("hello".into())];
    let enabled = vec!["file.read".into(), "shell.exec".into()];
    let body = request_body("a-model", anthropic::system_prompt(), &messages, &enabled);

    assert_eq!(body.text_member("model"), Some("a-model".into()));
    assert_eq!(body.number_member("max_tokens"), Some(1_024));
    assert_eq!(
        body.get("messages").unwrap().render(),
        r#"[{"role":"user","content":"hello"}]"#
    );
    let tools = body.array_member("tools").unwrap();
    assert_eq!(tools.len(), 1);
    assert_eq!(tools[0].text_member("name"), Some("file.read".into()));
}

#[test]
fn answers_of_the_api_are_read_or_told() {
    let answer = r#"{"content": [], "usage": {"input_tokens": 1, "output_tokens": 2}}"#;
    assert_eq!(
        read_answer(Sent::Answer(answer.into()))
            .unwrap()
            .usage
            .output_tokens,
        2
    );
    assert_eq!(
        read_answer(Sent::Refused {
            status: 529,
            body: "overloaded".into()
        }),
        Err(AppError::Provider(
            "anthropic returned http 529: overloaded".into()
        ))
    );
    assert_eq!(
        read_answer(Sent::Failed("timed out".into())),
        Err(AppError::Provider("timed out".into()))
    );
    assert!(matches!(
        read_answer(Sent::Answer("{}".into())),
        Err(AppError::Provider(_))
    ));
    assert!(matches!(
        read_answer(Sent::Answer("nonsense".into())),
        Err(AppError::Provider(_))
    ));
}

#[test]
fn a_client_needs_a_key() {
    assert_eq!(
        AnthropicClient::from_env("ANTHROPIC_API_KEY", None),
        Err(AppError::MissingApiKey("ANTHROPIC_API_KEY".into()))
    );
    let client = AnthropicClient::from_env("ANTHROPIC_API_KEY", Some("key".into())).unwrap();
    assert_eq!(client.headers()[0], ("x-api-key", "key".into()));
}

#[test]
fn answers_of_the_api_may_be_told_in_lists() {
    let answer = r#"[[["text", "hi"], ["tool_use", "call_1", "file_read", {"path": "a"}],
        ["tool_result", "call_1", "done", null]], [1, 2]]"#;
    let response = read_answer(Sent::Answer(answer.into())).unwrap();

    assert_eq!(response.text(), "hi");
    assert_eq!(
        response.tool_uses(),
        vec![("call_1".into(), "file_read".into(), json(r#"{"path": "a"}"#))]
    );
    assert_eq!(response.content.len(), 3);
    assert_eq!(response.usage.output_tokens, 2);
    for short in [r#"[[["text"]], [1, 2]]"#, r#"[[["text", "hi"]], [1]]"#, "[[]]"] {
        assert!(read_answer(Sent::Answer(short.into())).is_err());
    }
}

#[test]
fn answers_of_the_api_tell_nothing_twice() {
    let usage = r#""usage": {"input_tokens": 1, "output_tokens": 2}"#;
    for (answer, taken) in [
        (format!(r#"{{"content": [], {usage}, {usage}}}"#), false),
        (
            r#"{"content": [], "usage": {"input_tokens": 1, "input_tokens": 1, "output_tokens": 2}}"#
                .to_owned(),
            false,
        ),
        (
            format!(r#"{{"content": [{{"type": "text", "text": "a", "text": "b"}}], {usage}}}"#),
            false,
        ),
        (
            format!(r#"{{"content": [{{"type": "text", "type": "text", "text": "b"}}], {usage}}}"#),
            false,
        ),
        (
            format!(r#"{{"content": [{{"type": "text", "text": "b", "id": 1, "id": 2}}], {usage}}}"#),
            true,
        ),
        (format!(r#"{{"content": [], "x": 1, "x": 2, {usage}}}"#), true),
    ] {
        assert_eq!(read_answer(Sent::Answer(answer.clone())).is_ok(), taken, "{answer}");
    }
    assert_eq!(
        read_answer(Sent::Answer(format!(r#"{{"content": [], {usage}, {usage}}}"#))),
        Err(AppError::Provider(
            "Failed to read JSON: duplicate field `usage`".into()
        ))
    );
}

#[test]
fn what_is_not_known_of_an_answer_is_passed_over() {
    let usage = r#""usage": {"input_tokens": 1, "output_tokens": 2}"#;
    let deep = format!("{}{}", "[".repeat(300), "]".repeat(300));
    for value in ["1e999", r#""\ud800""#, deep.as_str()] {
        let answer = format!(r#"{{"x": {value}, "content": [], {usage}}}"#);
        assert!(read_answer(Sent::Answer(answer)).is_ok());
        let answer = format!(r#"{{"content": [{{"type": "text", "text": "a", "x": {value}}}], {usage}}}"#);
        assert!(read_answer(Sent::Answer(answer)).is_err());
    }
    assert!(read_answer(Sent::Answer(format!(r#"{{"x": tru, "content": [], {usage}}}"#))).is_err());
    assert!(read_answer(Sent::Answer(format!(r#"{{"\ud800": 1, "content": [], {usage}}}"#))).is_err());
}

//! What tools may do, and what comes back of them.
use plato_agent::diff::{DIFF_PREVIEW_CHARS, DIFF_TRUNCATED_MARKER};
use plato_agent::json::Json;
use plato_agent::tool_catalog::{FILE_EDIT, FILE_LIST, FILE_READ, FILE_WRITE, SHELL_EXEC};
use plato_agent::tools::{
    approval_answer, approval_command_preview, approval_diff_preview, approval_input_preview,
    approval_prompt, check_resolved, check_write, diff_target, file_kind, is_allowed_env_name,
    is_credential_env_name, list_result, normalize_timeout_seconds, not_a_directory, plan_tool,
    read_capped_output, read_result, shell_child_env_from, shell_result, watch_shell, write_result,
    ApprovalOutcome, CappedOutput, CurrentFile, ListEntry, OutputCap, ShellEnding, ShellStep,
    ToolExecutionContext, ToolPlan, WriteTarget, APPROVAL_PREVIEW_CHARS, MAX_LIST_ENTRIES,
    MAX_READ_BYTES, SHELL_OUTPUT_BYTES, SHELL_OUTPUT_TRUNCATED_MARKER,
};
use plato_agent::AppError;

fn json(text: &str) -> Json {
    Json::parse(text).unwrap()
}

fn content(path: &str, content: &str) -> Json {
    plato_agent::json::ObjectBuilder::new()
        .text("path", path)
        .text("content", content)
        .build()
}

#[test]
fn read_file_rejects_paths_outside_workspace() {
    let err = plan_tool("file.read", &json(r#"{"path": "../outside.txt"}"#)).unwrap_err();

    assert!(matches!(err, AppError::PathEscapesWorkspace(_)));
}

#[test]
fn write_file_requires_parent_inside_workspace() {
    let input = json(r#"{"path": "note.txt", "content": "hello"}"#);
    let plan = plan_tool("file.write", &input).unwrap();
    assert_eq!(
        plan,
        ToolPlan::Write {
            path: "note.txt".into(),
            content: "hello".into()
        }
    );
    assert!(check_write("/work", "/work/note.txt", WriteTarget::Missing, "/work").is_ok());
    assert!(matches!(
        check_write("/work", "/work/a/note.txt", WriteTarget::Missing, "/elsewhere"),
        Err(AppError::PathEscapesWorkspace(_))
    ));
    let result = write_result("call_1".into(), "note.txt".into(), "hello", false);

    assert_eq!(result.summary, "wrote 5 bytes to note.txt");
}

#[test]
fn edit_file_writes_full_proposed_content() {
    let input = json(r#"{"path": "note.txt", "content": "new"}"#);
    assert_eq!(
        plan_tool("file.edit", &input),
        Ok(ToolPlan::Edit {
            path: "note.txt".into(),
            content: "new".into()
        })
    );
    let target = WriteTarget::Existing {
        resolved: "/work/note.txt".into(),
    };
    assert!(check_write("/work", "/work/note.txt", target, "/work").is_ok());
    let result = write_result("call_1".into(), "note.txt".into(), "new", true);

    assert_eq!(result.summary, "edited 3 bytes at note.txt");
}

#[test]
fn edit_file_rejects_paths_outside_workspace() {
    let input = json(r#"{"path": "../outside.txt", "content": "hello"}"#);
    let err = plan_tool("file.edit", &input).unwrap_err();

    assert!(matches!(err, AppError::PathEscapesWorkspace(_)));
}

#[test]
fn edit_file_rejects_unknown_input_fields() {
    let input = json(r#"{"path": "note.txt", "content": "hello", "anchor": "old"}"#);
    let err = plan_tool("file.edit", &input).unwrap_err();

    assert!(matches!(err, AppError::Json(_)));
}

#[test]
fn read_file_truncates_on_utf8_boundary() {
    let result = read_result(
        "call_1".into(),
        "note.txt".into(),
        &"\u{e9}".repeat(MAX_READ_BYTES),
    );

    let content = result.data.get("content").unwrap().as_str().unwrap();
    assert!(content.is_char_boundary(content.len()));
    assert!(result.data.flag_member("truncated").unwrap());
    assert_eq!(content, "\u{e9}".repeat(MAX_READ_BYTES / 2));

    let odd = format!("a{}", "\u{e9}".repeat(MAX_READ_BYTES));
    let result = read_result("call_1".into(), "note.txt".into(), &odd);
    let content = result.data.get("content").unwrap().as_str().unwrap();
    assert_eq!(content.len(), MAX_READ_BYTES - 1);
}

#[test]
fn short_files_are_read_whole() {
    let result = read_result("call_1".into(), "note.txt".into(), "hello");

    assert_eq!(result.call_id, "call_1");
    assert_eq!(result.data.text_member("content"), Some("hello".into()));
    assert_eq!(result.data.flag_member("truncated"), Some(false));
}

#[test]
fn list_directory_lists_single_level_entries_in_sorted_order() {
    let entries = vec![
        ListEntry {
            name: "b.txt".into(),
            kind: file_kind(false, false, true),
        },
        ListEntry {
            name: "nested".into(),
            kind: file_kind(false, true, false),
        },
        ListEntry {
            name: "a.txt".into(),
            kind: file_kind(false, false, true),
        },
    ];
    assert_eq!(
        plan_tool("file.list", &json(r#"{"path": "."}"#)),
        Ok(ToolPlan::List { path: ".".into() })
    );
    let result = list_result("call_1".into(), ".".into(), entries);

    assert_eq!(result.summary, "listed 3 of 3 entries in .");
    assert_eq!(result.data.flag_member("truncated"), Some(false));
    assert_eq!(result.data.number_member("entry_count"), Some(3));
    assert_eq!(result.data.number_member("returned_count"), Some(3));
    let entries = result.data.array_member("entries").unwrap();
    let shown: Vec<(Option<String>, Option<String>)> = entries
        .iter()
        .map(|entry| (entry.text_member("name"), entry.text_member("kind")))
        .collect();
    assert_eq!(
        shown,
        vec![
            (Some("a.txt".into()), Some("file".into())),
            (Some("b.txt".into()), Some("file".into())),
            (Some("nested".into()), Some("directory".into())),
        ]
    );
}

#[test]
fn list_directory_rejects_paths_outside_workspace() {
    let err = plan_tool("file.list", &json(r#"{"path": "../outside"}"#)).unwrap_err();

    assert!(matches!(err, AppError::PathEscapesWorkspace(_)));
}

#[test]
fn list_directory_rejects_file_paths() {
    let err = not_a_directory("note.txt");

    assert!(matches!(
        err,
        AppError::Tool(message) if message == "not a directory: note.txt"
    ));
}

#[test]
fn list_directory_truncates_after_max_entries() {
    let entries = (0..=MAX_LIST_ENTRIES)
        .map(|index| ListEntry {
            name: format!("file_{index:03}.txt"),
            kind: "file",
        })
        .collect();
    let result = list_result("call_1".into(), ".".into(), entries);

    assert_eq!(result.data.flag_member("truncated"), Some(true));
    assert_eq!(
        result.data.number_member("entry_count"),
        Some(MAX_LIST_ENTRIES as u64 + 1)
    );
    assert_eq!(
        result.data.number_member("returned_count"),
        Some(MAX_LIST_ENTRIES as u64)
    );
    assert_eq!(
        result.data.array_member("entries").unwrap().len(),
        MAX_LIST_ENTRIES
    );
}

#[test]
fn list_directory_rejects_symlink_escape() {
    let err = check_resolved("/work", "/elsewhere".into()).unwrap_err();

    assert!(matches!(err, AppError::PathEscapesWorkspace(_)));
    assert_eq!(
        check_resolved("/work", "/work/nested".into()),
        Ok("/work/nested".into())
    );
}

#[test]
fn write_file_rejects_existing_symlink() {
    let input = json(r#"{"path": "link.txt", "content": "hello"}"#);
    assert!(plan_tool("file.write", &input).is_ok());
    let err = check_write("/work", "/work/link.txt", WriteTarget::Symlink, "/work").unwrap_err();

    assert!(matches!(err, AppError::PathEscapesWorkspace(_)));
}

#[test]
fn edit_file_rejects_existing_symlink() {
    let input = json(r#"{"path": "link.txt", "content": "hello"}"#);
    assert!(plan_tool("file.edit", &input).is_ok());
    let err = check_write("/work", "/work/link.txt", WriteTarget::Symlink, "/work").unwrap_err();

    assert!(matches!(err, AppError::PathEscapesWorkspace(_)));
}

#[test]
fn existing_files_are_written_inside_the_workspace_only() {
    let target = WriteTarget::Existing {
        resolved: "/elsewhere/note.txt".into(),
    };

    assert!(matches!(
        check_write("/work", "/work/note.txt", target, "/work"),
        Err(AppError::PathEscapesWorkspace(_))
    ));
}

#[test]
fn unknown_tools_are_not_planned() {
    assert!(matches!(
        plan_tool("browser.open", &json("{}")),
        Err(AppError::Tool(_))
    ));
    assert!(matches!(
        plan_tool(FILE_READ, &json(r#"{"path": 3}"#)),
        Err(AppError::Json(_))
    ));
}

#[test]
fn approval_input_preview_is_bounded() {
    let input = json(&format!(r#"{{"content": "{}"}}"#, "x".repeat(2_000)));
    let preview = approval_input_preview(&input);

    assert!(preview.ends_with("...(truncated)"));
    assert_eq!(
        preview
            .strip_suffix("...(truncated)")
            .unwrap()
            .chars()
            .count(),
        APPROVAL_PREVIEW_CHARS
    );
}

#[test]
fn short_inputs_are_shown_whole() {
    assert_eq!(
        approval_input_preview(&json(r#"{"path": "a"}"#)),
        r#"{"path":"a"}"#
    );
}

#[test]
fn file_edit_diff_preview_shows_current_vs_proposed() {
    let (path, proposed) = diff_target(FILE_EDIT, &content("note.txt", "new\nsame\n")).unwrap();
    let current = CurrentFile::Content("old\nsame\n".into());
    let diff = approval_diff_preview(&path, &proposed, current).unwrap();

    assert!(diff.contains("--- a/note.txt"));
    assert!(diff.contains("+++ b/note.txt"));
    assert!(diff.contains("-old\n"));
    assert!(diff.contains("+new\n"));
    assert!(diff.contains(" same\n"));
}

#[test]
fn file_edit_diff_preview_for_missing_file_is_whole_file_add() {
    let (path, proposed) = diff_target(FILE_EDIT, &content("created.txt", "hello\n")).unwrap();
    let diff = approval_diff_preview(&path, &proposed, CurrentFile::Missing).unwrap();

    assert!(diff.contains("@@ -0,0 +1,1 @@"));
    assert!(diff.contains("+hello\n"));
}

#[test]
fn file_edit_diff_preview_skips_unreadable_current_file() {
    let (path, proposed) = diff_target(FILE_EDIT, &content("note.txt", "hello\n")).unwrap();
    let diff = approval_diff_preview(&path, &proposed, CurrentFile::Unreadable);

    assert_eq!(diff, None);
}

#[test]
fn file_edit_diff_preview_truncates_huge_diff_with_marker() {
    let input = content("note.txt", &"new\n".repeat(DIFF_PREVIEW_CHARS));
    let (path, proposed) = diff_target(FILE_EDIT, &input).unwrap();
    let current = CurrentFile::Content("old\n".into());
    let diff = approval_diff_preview(&path, &proposed, current).unwrap();

    assert!(diff.contains(DIFF_TRUNCATED_MARKER));
    assert!(diff.chars().count() < DIFF_PREVIEW_CHARS + DIFF_TRUNCATED_MARKER.len() + 4);
}

#[test]
fn file_edit_diff_preview_truncation_keeps_proposed_content() {
    let middle = (0..2000)
        .map(|line| format!("same-{line:04}\n"))
        .collect::<String>();
    let input = content("note.txt", &format!("new top\n{middle}new bottom\n"));
    let (path, proposed) = diff_target(FILE_EDIT, &input).unwrap();
    let current = CurrentFile::Content(format!("old top\n{middle}old bottom\n"));
    let diff = approval_diff_preview(&path, &proposed, current).unwrap();

    assert!(diff.contains("-old top\n"));
    assert!(diff.contains("+new top\n"));
    assert!(diff.contains(" same-0000\n"));
    assert!(diff.contains(DIFF_TRUNCATED_MARKER));
    assert!(diff.find("+new top").unwrap() < diff.find(DIFF_TRUNCATED_MARKER).unwrap());
}

#[test]
fn only_edits_have_a_diff() {
    let input = content("note.txt", "hello\n");

    assert_eq!(diff_target(FILE_WRITE, &input), None);
    assert_eq!(diff_target(FILE_LIST, &input), None);
}

#[test]
fn stdin_approval_prompt_keeps_json_preview_for_file_edit() {
    let prompt = approval_prompt(FILE_EDIT, &content("note.txt", "new\n"), None);

    assert!(prompt.contains(r#""path":"note.txt""#));
    assert!(prompt.contains(r#""content":"new\n""#));
    assert!(!prompt.contains("--- a/note.txt"));
}

#[test]
fn only_a_yes_grants() {
    assert_eq!(approval_answer("y\n"), ApprovalOutcome::Granted);
    assert_eq!(approval_answer("yes\n"), ApprovalOutcome::Granted);
    assert!(matches!(
        approval_answer("\n"),
        ApprovalOutcome::Denied { .. }
    ));
    assert!(matches!(
        approval_answer("no\n"),
        ApprovalOutcome::Denied { .. }
    ));
}

#[test]
fn shell_approval_preview_includes_command_cwd_timeout_effect_and_env_posture() {
    let preview = approval_command_preview(
        "/work",
        SHELL_EXEC,
        &json(r#"{"command": "cargo test", "timeout_seconds": 700}"#),
        Some("OPENROUTER_API_KEY"),
    )
    .unwrap();

    assert!(preview.contains("command: cargo test"));
    assert!(preview.contains("cwd: /work"));
    assert!(preview.contains("timeout: 600s"));
    assert!(preview.contains("effect: ExternalSideEffect"));
    assert!(preview.contains("env: scrubbed allowlist"));
    assert!(preview.contains("OPENROUTER_API_KEY removed"));
    assert_eq!(
        approval_command_preview("/work", FILE_EDIT, &json(r#"{"command": "ls"}"#), None),
        None
    );
}

#[test]
fn shell_timeout_defaults_and_clamps() {
    assert_eq!(normalize_timeout_seconds(None), 120);
    assert_eq!(normalize_timeout_seconds(Some(0)), 1);
    assert_eq!(normalize_timeout_seconds(Some(10)), 10);
    assert_eq!(normalize_timeout_seconds(Some(700)), 600);
}

#[test]
fn shell_env_keeps_only_allowlisted_non_credentials() {
    let env = shell_child_env_from(
        vec![
            ("PATH".into(), "/bin".into()),
            ("HOME".into(), "/home/user".into()),
            ("OPENROUTER_API_KEY".into(), "secret".into()),
            ("CARGO_AUTH_TOKEN".into(), "secret".into()),
            ("HTTP_PROXY".into(), "http://proxy".into()),
            ("RUSTUP_HOME".into(), "/rustup".into()),
        ],
        Some("OPENROUTER_API_KEY"),
    );

    assert_eq!(
        env,
        vec![
            ("PATH".to_string(), "/bin".to_string()),
            ("HOME".into(), "/home/user".into()),
            ("RUSTUP_HOME".into(), "/rustup".into())
        ]
    );
    assert!(is_allowed_env_name("PATH"));
    assert!(!is_allowed_env_name("HTTP_PROXY"));
    assert!(is_credential_env_name("CARGO_AUTH_TOKEN"));
    assert!(!is_credential_env_name("RUSTUP_HOME"));
}

#[test]
fn capped_output_marks_truncation() {
    let output = read_capped_output(b"abcdef", 3);

    assert_eq!(output.text, format!("abc{SHELL_OUTPUT_TRUNCATED_MARKER}"));
    assert!(output.truncated);
}

#[test]
fn output_in_pieces_is_capped_as_a_whole() {
    let mut cap = OutputCap::new(5);
    cap.take(b"ab");
    cap.take(b"cd");
    cap.take(b"ef");
    let output = cap.finish();

    assert_eq!(output.text, format!("abcde{SHELL_OUTPUT_TRUNCATED_MARKER}"));
    assert!(output.truncated);

    let mut cap = OutputCap::new(5);
    cap.take(b"abcde");
    assert_eq!(
        cap.finish(),
        CappedOutput {
            text: "abcde".into(),
            truncated: false
        }
    );
}

#[test]
fn bytes_that_are_no_text_are_replaced() {
    assert_eq!(read_capped_output(b"a\xffb", 10).text, "a\u{fffd}b");
}

fn output(text: &str) -> CappedOutput {
    read_capped_output(text.as_bytes(), SHELL_OUTPUT_BYTES)
}

#[test]
fn shell_exec_runs_from_workspace_root() {
    let plan = plan_tool(SHELL_EXEC, &json(r#"{"command": "pwd"}"#)).unwrap();
    assert_eq!(
        plan,
        ToolPlan::Shell {
            command: "pwd".into(),
            timeout_seconds: 120
        }
    );
    let context = ToolExecutionContext::new("/work".into());
    let result = shell_result(
        "call_1".into(),
        "pwd",
        &context.workspace_root,
        120,
        ShellEnding::Exited(Some(0)),
        3,
        output("/work\n"),
        output(""),
    )
    .unwrap();

    assert_eq!(result.data.number_member("exit_code"), Some(0));
    assert_eq!(result.data.text_member("cwd"), Some("/work".into()));
    assert_eq!(
        result.data.text_member("stdout").unwrap().trim(),
        "/work"
    );
    assert_eq!(result.summary, "shell.exec exited 0 in 3ms");
}

#[test]
fn shell_exec_records_nonzero_exit_as_finished_result() {
    let result = shell_result(
        "call_1".into(),
        "printf fail >&2; exit 7",
        "/work",
        120,
        ShellEnding::Exited(Some(7)),
        3,
        output(""),
        output("fail"),
    )
    .unwrap();

    assert_eq!(result.data.number_member("exit_code"), Some(7));
    assert_eq!(result.data.text_member("stderr"), Some("fail".into()));
    assert!(result.data.get("timed_out").is_none());
}

#[test]
fn a_command_that_a_signal_ended_has_no_code() {
    let result = shell_result(
        "call_1".into(),
        "kill -9 $$",
        "/work",
        120,
        ShellEnding::Exited(None),
        3,
        output(""),
        output(""),
    )
    .unwrap();

    assert_eq!(result.data.get("exit_code"), Some(&Json::Null));
    assert_eq!(result.summary, "shell.exec exited signal in 3ms");
}

#[test]
fn shell_exec_caps_stdout_and_stderr_independently() {
    let result = shell_result(
        "call_1".into(),
        "yes out | head -c 33000; yes err | head -c 33000 >&2",
        "/work",
        120,
        ShellEnding::Exited(Some(0)),
        3,
        output(&"out\n".repeat(8_250)),
        output(&"err\n".repeat(8_250)),
    )
    .unwrap();
    let stdout = result.data.text_member("stdout").unwrap();
    let stderr = result.data.text_member("stderr").unwrap();

    assert!(stdout.len() > SHELL_OUTPUT_BYTES);
    assert!(stderr.len() > SHELL_OUTPUT_BYTES);
    assert!(stdout.contains(SHELL_OUTPUT_TRUNCATED_MARKER));
    assert!(stderr.contains(SHELL_OUTPUT_TRUNCATED_MARKER));
    assert_eq!(result.data.flag_member("stdout_truncated"), Some(true));
    assert_eq!(result.data.flag_member("stderr_truncated"), Some(true));
}

#[test]
fn shell_exec_times_out() {
    let plan = plan_tool(
        SHELL_EXEC,
        &json(r#"{"command": "sleep 2", "timeout_seconds": 1}"#),
    )
    .unwrap();
    assert!(matches!(plan, ToolPlan::Shell { timeout_seconds: 1, .. }));
    assert_eq!(watch_shell(false, false, 999, 1), ShellStep::Wait);
    assert_eq!(watch_shell(false, false, 1_000, 1), ShellStep::KillTimedOut);
    assert_eq!(watch_shell(true, true, 1_000, 1), ShellStep::Ended);
    let err = shell_result(
        "call_1".into(),
        "sleep 2",
        "/work",
        1,
        ShellEnding::TimedOut,
        1_000,
        output(""),
        output(""),
    )
    .unwrap_err();

    assert!(matches!(
        err,
        AppError::Tool(message) if message == "shell.exec timed out after 1s"
    ));
}

#[test]
fn shell_exec_observes_cancel_flag() {
    let mut context = ToolExecutionContext::new("/work".into());
    context.cancel = true;
    assert_eq!(
        watch_shell(false, context.cancel, 0, 120),
        ShellStep::KillCanceled
    );
    let err = shell_result(
        "call_1".into(),
        "sleep 5",
        &context.workspace_root,
        120,
        ShellEnding::Canceled,
        0,
        output(""),
        output(""),
    )
    .unwrap_err();

    assert!(matches!(
        err,
        AppError::Tool(message) if message == "shell.exec canceled"
    ));
}

#[test]
fn inputs_are_told_in_lists() {
    assert_eq!(
        plan_tool(FILE_READ, &json(r#"["note.txt"]"#)),
        Ok(ToolPlan::Read {
            path: "note.txt".into()
        })
    );
    assert_eq!(
        plan_tool(SHELL_EXEC, &json(r#"["ls", null]"#)),
        plan_tool(SHELL_EXEC, &json(r#"{"command": "ls"}"#))
    );
    for input in [r#"["ls"]"#, r#"["ls", 1, 2]"#, "[]"] {
        assert!(matches!(
            plan_tool(SHELL_EXEC, &json(input)),
            Err(AppError::Json(_))
        ));
    }
}

#[test]
fn output_that_is_cut_is_decoded_up_to_the_cut() {
    assert_eq!(
        read_capped_output("h\u{e9}llo".as_bytes(), 3),
        CappedOutput {
            text: format!("h\u{e9}{SHELL_OUTPUT_TRUNCATED_MARKER}"),
            truncated: true,
        }
    );
}

#[test]
fn inputs_that_do_not_fit_are_told_in_words() {
    for (tool, input, wrong) in [
        ("file.read", r#"{}"#, "missing field `path`"),
        ("file.read", r#"{"path": 5}"#, "invalid type: integer `5`, expected a string"),
        ("file.read", r#"{"path": 1.5}"#, "invalid type: floating point `1.5`, expected a string"),
        ("file.read", r#"{"path": null}"#, "invalid type: null, expected a string"),
        ("file.read", r#"{"path": []}"#, "invalid type: sequence, expected a string"),
        ("file.read", r#"{"path": {}}"#, "invalid type: map, expected a string"),
        ("file.read", r#"{"path": true}"#, "invalid type: boolean `true`, expected a string"),
        ("file.read", r#"{"path": "a", "x": 1}"#, "unknown field `x`, expected `path`"),
        ("file.read", r#""a""#, "invalid type: string \"a\", expected struct FileReadInput"),
        ("file.list", "7", "invalid type: integer `7`, expected struct FileListInput"),
        ("file.read", "[]", "invalid length 0, expected struct FileReadInput with 1 element"),
        ("file.write", r#"["a"]"#, "invalid length 1, expected struct FileContentInput with 2 elements"),
        ("file.read", r#"["a", "b"]"#, "invalid length 2, expected fewer elements in array"),
        ("file.read", r#"[1, "b"]"#, "invalid type: integer `1`, expected a string"),
        (
            "shell.exec",
            r#"{"command": "ls", "timeout_seconds": -1}"#,
            "invalid value: integer `-1`, expected u64",
        ),
        (
            "shell.exec",
            r#"{"command": "ls", "timeout_seconds": "1"}"#,
            "invalid type: string \"1\", expected u64",
        ),
        (
            "shell.exec",
            r#"{"command": "ls", "cwd": "/"}"#,
            "unknown field `cwd`, expected `command` or `timeout_seconds`",
        ),
    ] {
        assert_eq!(
            plan_tool(tool, &json(input)),
            Err(AppError::Json(wrong.into())),
            "{input}"
        );
    }
}

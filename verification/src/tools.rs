//! The tools: what a call asks for, what it gives back, and what an approver is shown of it.
use crate::diff;
use crate::error::{AppError, AppResult};
use crate::harness::{ResultView, ToolResult};
use crate::json;
use crate::json::{Field, FieldKind, Json, JsonView, ObjectBuilder};
use crate::paths;
use crate::text;
use crate::tool_catalog;
use crate::tool_catalog::{FILE_EDIT, FILE_LIST, FILE_READ, FILE_WRITE, SHELL_EXEC};
use vstd::prelude::*;

verus! {

/// The most bytes that are shown of a file.
pub const MAX_READ_BYTES: usize = 65536;

/// The most entries that are shown of a directory.
pub const MAX_LIST_ENTRIES: usize = 200;

/// The most bytes that the entries of a directory may take.
pub const MAX_LIST_DATA_BYTES: usize = 32768;

/// The most bytes that are kept of each output of a command.
pub const SHELL_OUTPUT_BYTES: usize = 32768;

/// What stands under an output that was cut.
pub const SHELL_OUTPUT_TRUNCATED_MARKER: &'static str = "\n... output truncated";

/// The seconds that a command has where the call says nothing.
pub const SHELL_DEFAULT_TIMEOUT_SECONDS: u64 = 120;

/// The most seconds that a command has.
pub const SHELL_MAX_TIMEOUT_SECONDS: u64 = 600;

/// The most characters that an approver is shown of an input.
pub const APPROVAL_PREVIEW_CHARS: usize = 1000;

/// What an approver answered.
#[derive(Debug, PartialEq, Eq)]
pub enum ApprovalOutcome {
    Granted,
    Denied { reason: String },
}

/// What an answer stands for.
pub enum OutcomeView {
    Granted,
    Denied { reason: Seq<char> },
}

impl ApprovalOutcome {
    /// The answer that `self` stands for.
    pub open spec fn view(&self) -> OutcomeView {
        match self {
            ApprovalOutcome::Granted => OutcomeView::Granted,
            ApprovalOutcome::Denied { reason } => OutcomeView::Denied { reason: reason@ },
        }
    }
}

impl Clone for ApprovalOutcome {
    fn clone(&self) -> (r: ApprovalOutcome)
        ensures
            r == *self,
    {
        match self {
            ApprovalOutcome::Granted => ApprovalOutcome::Granted,
            ApprovalOutcome::Denied { reason } => ApprovalOutcome::Denied {
                reason: reason.clone(),
            },
        }
    }
}

/// Where tools work, and what they must keep from a command.
#[derive(Clone, Debug, PartialEq, Eq)]
pub struct ToolExecutionContext {
    pub workspace_root: String,
    pub provider_api_key_env: Option<String>,
    pub cancel: bool,
}

impl ToolExecutionContext {
    /// Tools that work in a directory, and nothing else.
    pub fn new(workspace_root: String) -> (r: ToolExecutionContext)
        ensures
            r.workspace_root == workspace_root,
            r.provider_api_key_env is None,
            !r.cancel,
    {
        ToolExecutionContext { workspace_root, provider_api_key_env: None, cancel: false }
    }
}

/// What a tool call asks for.
#[derive(Debug, PartialEq, Eq)]
pub enum ToolPlan {
    /// A file is to be read.
    Read { path: String },
    /// A directory is to be listed.
    List { path: String },
    /// A file is to be written.
    Write { path: String, content: String },
    /// A file is to be replaced.
    Edit { path: String, content: String },
    /// A command is to be run.
    Shell { command: String, timeout_seconds: u64 },
}

/// What a tool call asks for, as a value.
pub enum PlanView {
    Read { path: Seq<char> },
    List { path: Seq<char> },
    Write { path: Seq<char>, content: Seq<char> },
    Edit { path: Seq<char>, content: Seq<char> },
    Shell { command: Seq<char>, timeout_seconds: u64 },
}

/// Why a tool call cannot be carried out, whatever the files are.
pub enum PlanErrorView {
    /// There is no such tool, or its command is empty.
    Tool(Seq<char>),
    /// The input is not what the tool takes.
    Input(Seq<char>),
    /// The path leads out of the workspace.
    Escapes(Seq<char>),
}

impl ToolPlan {
    /// What `self` stands for.
    pub open spec fn view(&self) -> PlanView {
        match self {
            ToolPlan::Read { path } => PlanView::Read { path: path@ },
            ToolPlan::List { path } => PlanView::List { path: path@ },
            ToolPlan::Write { path, content } => PlanView::Write {
                path: path@,
                content: content@,
            },
            ToolPlan::Edit { path, content } => PlanView::Edit { path: path@, content: content@ },
            ToolPlan::Shell { command, timeout_seconds } => PlanView::Shell {
                command: command@,
                timeout_seconds: *timeout_seconds,
            },
        }
    }
}

/// The fields of a call that names a path.
pub open spec fn path_fields() -> Seq<Field> {
    seq![Field { name: "path", kind: FieldKind::Text }]
}

/// The fields of a call that names a path and a content.
pub open spec fn content_fields() -> Seq<Field> {
    seq![
        Field { name: "path", kind: FieldKind::Text },
        Field { name: "content", kind: FieldKind::Text },
    ]
}

/// The fields of a call that names a command.
pub open spec fn shell_fields() -> Seq<Field> {
    seq![
        Field { name: "command", kind: FieldKind::Text },
        Field { name: "timeout_seconds", kind: FieldKind::OptionalNumber },
    ]
}

/// An input with its members named; a list tells all of them.
pub open spec fn named_input(input: JsonView, fields: Seq<Field>) -> JsonView {
    json::by_name(input, fields, fields.len())
}

/// The text of a member.
pub open spec fn member_text(input: JsonView, name: Seq<char>) -> Seq<char> {
    json::text_in(json::member_of(input, name))->Some_0
}

/// The path of an input, a `title` that names one, if it stays in the workspace.
pub open spec fn path_in(
    given: JsonView,
    title: Seq<char>,
    fields: Seq<Field>,
) -> Result<Seq<char>, PlanErrorView> {
    let input = named_input(given, fields);
    match json::complaint(given, title, fields, fields.len()) {
        Some(message) => Err(PlanErrorView::Input(message)),
        None => if paths::escapes(member_text(input, "path"@)) {
            Err(PlanErrorView::Escapes(member_text(input, "path"@)))
        } else {
            Ok(member_text(input, "path"@))
        },
    }
}

/// The seconds that a command has.
pub open spec fn timeout_of(given: Option<u64>) -> u64 {
    match given {
        None => SHELL_DEFAULT_TIMEOUT_SECONDS,
        Some(seconds) => if seconds < 1 {
            1
        } else if seconds > SHELL_MAX_TIMEOUT_SECONDS {
            SHELL_MAX_TIMEOUT_SECONDS
        } else {
            seconds
        },
    }
}

/// The seconds that a command has: what the call says, within bounds.
pub fn normalize_timeout_seconds(timeout_seconds: Option<u64>) -> (r: u64)
    ensures
        r == timeout_of(timeout_seconds),
        1 <= r <= SHELL_MAX_TIMEOUT_SECONDS,
{
    match timeout_seconds {
        None => SHELL_DEFAULT_TIMEOUT_SECONDS,
        Some(seconds) => if seconds < 1 {
            1
        } else if seconds > SHELL_MAX_TIMEOUT_SECONDS {
            SHELL_MAX_TIMEOUT_SECONDS
        } else {
            seconds
        },
    }
}

/// What a tool call asks for, or why it cannot be carried out.
pub open spec fn planned(tool: Seq<char>, input: JsonView) -> Result<PlanView, PlanErrorView> {
    if tool == FILE_READ@ {
        match path_in(input, "FileReadInput"@, path_fields()) {
            Ok(path) => Ok(PlanView::Read { path }),
            Err(error) => Err(error),
        }
    } else if tool == FILE_LIST@ {
        match path_in(input, "FileListInput"@, path_fields()) {
            Ok(path) => Ok(PlanView::List { path }),
            Err(error) => Err(error),
        }
    } else if tool == FILE_WRITE@ {
        match path_in(input, "FileContentInput"@, content_fields()) {
            Ok(path) => Ok(
                PlanView::Write {
                    path,
                    content: member_text(named_input(input, content_fields()), "content"@),
                },
            ),
            Err(error) => Err(error),
        }
    } else if tool == FILE_EDIT@ {
        match path_in(input, "FileContentInput"@, content_fields()) {
            Ok(path) => Ok(
                PlanView::Edit {
                    path,
                    content: member_text(named_input(input, content_fields()), "content"@),
                },
            ),
            Err(error) => Err(error),
        }
    } else if tool == SHELL_EXEC@ {
        let given = input;
        let input = named_input(given, shell_fields());
        match json::complaint(given, "ShellExecInput"@, shell_fields(), 2) {
            Some(message) => Err(PlanErrorView::Input(message)),
            None => if text::is_blank(member_text(input, "command"@)) {
                Err(PlanErrorView::Tool("shell.exec command is empty"@))
            } else {
                Ok(
                    PlanView::Shell {
                        command: member_text(input, "command"@),
                        timeout_seconds: timeout_of(
                            json::u64_in(json::member_of(input, "timeout_seconds"@)),
                        ),
                    },
                )
            },
        }
    } else {
        Err(PlanErrorView::Tool("unknown tool: "@ + tool))
    }
}

/// Whether an error says why a call cannot be carried out.
pub open spec fn plan_error_is(error: AppError, due: PlanErrorView) -> bool {
    match due {
        PlanErrorView::Tool(message) => error matches AppError::Tool(given) && given@ == message,
        PlanErrorView::Input(message) => error matches AppError::Json(given) && given@ == message,
        PlanErrorView::Escapes(path) => error matches AppError::PathEscapesWorkspace(given)
            && given@ == path,
    }
}

fn plan_path(input: &Json, title: &str) -> (r: AppResult<String>)
    ensures
        match path_in(input@, title@, path_fields()) {
            Ok(path) => r matches Ok(given) && given@ == path,
            Err(due) => r matches Err(error) && plan_error_is(error, due),
        },
{
    let fields = vec![Field { name: "path", kind: FieldKind::Text }];
    assert(fields@ =~= path_fields());
    if let Err(message) = input.check_fields(title, &fields, 1) {
        return Err(AppError::Json(message));
    }
    let input = &input.by_name(&fields, 1);
    proof {
        assert(path_fields()[0].name@ == "path"@);
    }
    stays_inside(input)
}

fn stays_inside(input: &Json) -> (r: AppResult<String>)
    requires
        json::text_in(json::member_of(input@, "path"@)) is Some,
    ensures
        if paths::escapes(member_text(input@, "path"@)) {
            r matches Err(AppError::PathEscapesWorkspace(given)) && given@ == member_text(
                input@,
                "path"@,
            )
        } else {
            r matches Ok(given) && given@ == member_text(input@, "path"@)
        },
{
    let path = match input.text_member("path") {
        Some(path) => path,
        None => String::new(),
    };
    if paths::path_escapes(path.as_str()) {
        Err(AppError::PathEscapesWorkspace(path))
    } else {
        Ok(path)
    }
}

fn plan_content(input: &Json) -> (r: AppResult<(String, String)>)
    ensures
        match path_in(input@, "FileContentInput"@, content_fields()) {
            Ok(path) => r matches Ok(given) && given.0@ == path && given.1@ == member_text(
                named_input(input@, content_fields()),
                "content"@,
            ),
            Err(due) => r matches Err(error) && plan_error_is(error, due),
        },
{
    let fields = vec![
        Field { name: "path", kind: FieldKind::Text },
        Field { name: "content", kind: FieldKind::Text },
    ];
    assert(fields@ =~= content_fields());
    if let Err(message) = input.check_fields("FileContentInput", &fields, 2) {
        return Err(AppError::Json(message));
    }
    let input = &input.by_name(&fields, 2);
    proof {
        assert(content_fields()[0].name@ == "path"@);
        assert(content_fields()[1].name@ == "content"@);
    }
    let content = match input.text_member("content") {
        Some(content) => content,
        None => String::new(),
    };
    match stays_inside(input) {
        Ok(path) => Ok((path, content)),
        Err(error) => Err(error),
    }
}

/// What a call of `shell.exec` stands for: its command and its seconds.
fn shell_input(input: &Json) -> (r: Result<(String, u64), String>)
    ensures
        ({
            let given = input@;
            let input = named_input(given, shell_fields());
            match json::complaint(given, "ShellExecInput"@, shell_fields(), 2) {
                Some(message) => r matches Err(given) && given@ == message,
                None => r matches Ok(given) && given.0@ == member_text(input, "command"@) && given.1
                    == timeout_of(json::u64_in(json::member_of(input, "timeout_seconds"@))),
            }
        }),
{
    let fields = vec![
        Field { name: "command", kind: FieldKind::Text },
        Field { name: "timeout_seconds", kind: FieldKind::OptionalNumber },
    ];
    assert(fields@ =~= shell_fields());
    if let Err(message) = input.check_fields("ShellExecInput", &fields, 2) {
        return Err(message);
    }
    let input = &input.by_name(&fields, 2);
    proof {
        assert(shell_fields()[0].name@ == "command"@);
    }
    let command = match input.text_member("command") {
        Some(command) => command,
        None => String::new(),
    };
    Ok((command, normalize_timeout_seconds(input.number_member("timeout_seconds"))))
}

/// What a tool call asks for, or why it cannot be carried out.
pub fn plan_tool(tool_name: &str, input: &Json) -> (r: AppResult<ToolPlan>)
    ensures
        match planned(tool_name@, input@) {
            Ok(plan) => r matches Ok(given) && given@ == plan,
            Err(due) => r matches Err(error) && plan_error_is(error, due),
        },
{
    if text::same_text(tool_name, FILE_READ) {
        match plan_path(input, "FileReadInput") {
            Ok(path) => Ok(ToolPlan::Read { path }),
            Err(error) => Err(error),
        }
    } else if text::same_text(tool_name, FILE_LIST) {
        match plan_path(input, "FileListInput") {
            Ok(path) => Ok(ToolPlan::List { path }),
            Err(error) => Err(error),
        }
    } else if text::same_text(tool_name, FILE_WRITE) {
        match plan_content(input) {
            Ok((path, content)) => Ok(ToolPlan::Write { path, content }),
            Err(error) => Err(error),
        }
    } else if text::same_text(tool_name, FILE_EDIT) {
        match plan_content(input) {
            Ok((path, content)) => Ok(ToolPlan::Edit { path, content }),
            Err(error) => Err(error),
        }
    } else if text::same_text(tool_name, SHELL_EXEC) {
        match shell_input(input) {
            Err(message) => Err(AppError::Json(message)),
            Ok((command, timeout_seconds)) => if text::blank(command.as_str()) {
                Err(AppError::Tool("shell.exec command is empty".to_owned()))
            } else {
                Ok(ToolPlan::Shell { command, timeout_seconds })
            },
        }
    } else {
        Err(AppError::Tool(text::text2("unknown tool: ", tool_name)))
    }
}

/// No call is carried out whose path is absolute or climbs out through `..`.
pub proof fn law_plans_stay_in_the_workspace(tool: Seq<char>, input: JsonView)
    ensures
        match planned(tool, input) {
            Ok(PlanView::Read { path }) => !paths::escapes(path),
            Ok(PlanView::List { path }) => !paths::escapes(path),
            Ok(PlanView::Write { path, content }) => !paths::escapes(path),
            Ok(PlanView::Edit { path, content }) => !paths::escapes(path),
            _ => true,
        },
{
}

/// Whether a resolved path lies in the workspace; if not, that it leads out.
pub fn check_resolved(root: &str, resolved: String) -> (r: AppResult<String>)
    ensures
        if paths::lies_in(resolved@, root@) {
            r matches Ok(given) && given@ == resolved@
        } else {
            r matches Err(AppError::PathEscapesWorkspace(given)) && given@ == resolved@
        },
{
    if paths::path_lies_in(resolved.as_str(), root) {
        Ok(resolved)
    } else {
        Err(AppError::PathEscapesWorkspace(resolved))
    }
}

/// What stands where a file is to be written.
#[derive(Debug, PartialEq, Eq)]
pub enum WriteTarget {
    /// Nothing.
    Missing,
    /// A link.
    Symlink,
    /// A file or a directory, at this resolved path.
    Existing { resolved: String },
}

/// What leads a file that is to be written out of the workspace, if anything does: a link in its
/// place, the place it is resolved to, or the directory it stands in.
pub open spec fn write_escape(
    root: Seq<char>,
    candidate: Seq<char>,
    target: WriteTarget,
    parent: Seq<char>,
) -> Option<Seq<char>> {
    match target {
        WriteTarget::Symlink => Some(candidate),
        WriteTarget::Existing { resolved } => if !paths::lies_in(resolved@, root) {
            Some(resolved@)
        } else if !paths::lies_in(parent, root) {
            Some(parent)
        } else {
            None
        },
        WriteTarget::Missing => if !paths::lies_in(parent, root) {
            Some(parent)
        } else {
            None
        },
    }
}

/// Whether a file may be written; if not, what leads it out of the workspace.
pub fn check_write(root: &str, candidate: &str, target: WriteTarget, parent: &str) -> (r: AppResult<
    (),
>)
    ensures
        match write_escape(root@, candidate@, target, parent@) {
            None => r is Ok,
            Some(path) => r matches Err(AppError::PathEscapesWorkspace(given)) && given@ == path,
        },
{
    match target {
        WriteTarget::Symlink => {
            return Err(AppError::PathEscapesWorkspace(candidate.to_owned()));
        },
        WriteTarget::Existing { resolved } => {
            if !paths::path_lies_in(resolved.as_str(), root) {
                return Err(AppError::PathEscapesWorkspace(resolved));
            }
        },
        WriteTarget::Missing => {},
    }
    if !paths::path_lies_in(parent, root) {
        return Err(AppError::PathEscapesWorkspace(parent.to_owned()));
    }
    Ok(())
}

/// What a read file gives back.
pub open spec fn read_answer(
    call_id: Seq<char>,
    path: Seq<char>,
    content: Seq<char>,
    visible: Seq<char>,
) -> ResultView {
    let bytes = text::decimal(text::byte_len(content));
    ResultView {
        call_id,
        summary: "read "@ + bytes + " bytes from "@ + path,
        data: JsonView::Object(
            json::no_members().push(("bytes"@, JsonView::Number(bytes))).push(
                ("content"@, JsonView::Text(visible)),
            ).push(("path"@, JsonView::Text(path))).push(
                ("truncated"@, JsonView::Bool(text::byte_len(content) > MAX_READ_BYTES)),
            ),
        ),
    }
}

/// What a read file gives back: the longest beginning of it that is not too long.
pub fn read_result(call_id: String, path: String, content: &str) -> (r: ToolResult)
    ensures
        exists|visible: Seq<char>|
            text::is_byte_prefix(visible, content@, MAX_READ_BYTES as nat) && r@
                == #[trigger] read_answer(call_id@, path@, content@, visible),
{
    let bytes: usize = text::bytes_in(content);
    let visible = text::truncate_utf8(content, MAX_READ_BYTES);
    let summary = text::text4(
        "read ",
        text::decimal_usize(bytes).as_str(),
        " bytes from ",
        path.as_str(),
    );
    let data = ObjectBuilder::new().number("bytes", bytes as u64).text(
        "content",
        visible.as_str(),
    ).text("path", path.as_str()).flag("truncated", bytes > MAX_READ_BYTES).build();
    let r = ToolResult { call_id, summary, data };
    assert(r@ == read_answer(call_id@, path@, content@, visible@));
    r
}

/// What a written file gives back.
pub open spec fn write_answer(
    call_id: Seq<char>,
    path: Seq<char>,
    content: Seq<char>,
    edited: bool,
) -> ResultView {
    let bytes = text::decimal(text::byte_len(content));
    ResultView {
        call_id,
        summary: (if edited {
            "edited "@ + bytes + " bytes at "@
        } else {
            "wrote "@ + bytes + " bytes to "@
        }) + path,
        data: JsonView::Object(
            json::no_members().push(("bytes"@, JsonView::Number(bytes))).push(
                ("path"@, JsonView::Text(path)),
            ),
        ),
    }
}

/// What a written or replaced file gives back.
pub fn write_result(call_id: String, path: String, content: &str, edited: bool) -> (r: ToolResult)
    ensures
        r@ == write_answer(call_id@, path@, content@, edited),
{
    let bytes: usize = text::bytes_in(content);
    let shown = text::decimal_usize(bytes);
    let summary = if edited {
        text::text4("edited ", shown.as_str(), " bytes at ", path.as_str())
    } else {
        text::text4("wrote ", shown.as_str(), " bytes to ", path.as_str())
    };
    let data = ObjectBuilder::new().number("bytes", bytes as u64).text(
        "path",
        path.as_str(),
    ).build();
    ToolResult { call_id, summary, data }
}

/// An entry of a directory.
#[derive(Debug, PartialEq, Eq)]
pub struct ListEntry {
    pub name: String,
    pub kind: &'static str,
}

/// What entries stand for.
pub open spec fn entry_pairs(entries: Seq<ListEntry>) -> Seq<(Seq<char>, Seq<char>)> {
    Seq::new(entries.len(), |i: int| (entries[i].name@, entries[i].kind@))
}

/// What kind of entry a directory holds.
pub fn file_kind(is_symlink: bool, is_dir: bool, is_file: bool) -> (r: &'static str)
    ensures
        r@ == if is_symlink {
            "symlink"@
        } else if is_dir {
            "directory"@
        } else if is_file {
            "file"@
        } else {
            "other"@
        },
{
    if is_symlink {
        "symlink"
    } else if is_dir {
        "directory"
    } else if is_file {
        "file"
    } else {
        "other"
    }
}

/// Entries in the order of their names, with one more at its place.
pub open spec fn placed(entries: Seq<(Seq<char>, Seq<char>)>, entry: (Seq<char>, Seq<char>)) -> Seq<
    (Seq<char>, Seq<char>),
>
    decreases entries.len(),
{
    if entries.len() > 0 && text::before(entry.0, entries.last().0) {
        placed(entries.drop_last(), entry).push(entries.last())
    } else {
        entries.push(entry)
    }
}

/// Entries in the order of their names.
pub open spec fn by_name(entries: Seq<(Seq<char>, Seq<char>)>) -> Seq<(Seq<char>, Seq<char>)>
    decreases entries.len(),
{
    if entries.len() == 0 {
        Seq::empty()
    } else {
        placed(by_name(entries.drop_last()), entries.last())
    }
}

/// Whether entries stand in the order of their names.
pub open spec fn in_name_order(entries: Seq<(Seq<char>, Seq<char>)>) -> bool {
    forall|i: int, j: int|
        0 <= i < j < entries.len() ==> !text::before(
            (#[trigger] entries[j]).0,
            (#[trigger] entries[i]).0,
        )
}

proof fn lemma_placed_in_order(
    entries: Seq<(Seq<char>, Seq<char>)>,
    entry: (Seq<char>, Seq<char>),
)
    requires
        in_name_order(entries),
    ensures
        in_name_order(placed(entries, entry)),
        placed(entries, entry).len() == entries.len() + 1,
        forall|k: int|
            0 <= k <= entries.len() ==> (#[trigger] placed(entries, entry)[k]) == entry
                || entries.contains(placed(entries, entry)[k]),
    decreases entries.len(),
{
    let after = placed(entries, entry);
    if entries.len() > 0 && text::before(entry.0, entries.last().0) {
        let rest = entries.drop_last();
        let last = entries.last();
        assert(in_name_order(rest)) by {
            assert forall|i: int, j: int| 0 <= i < j < rest.len() implies !text::before(
                (#[trigger] rest[j]).0,
                (#[trigger] rest[i]).0,
            ) by {
                assert(rest[i] == entries[i] && rest[j] == entries[j]);
            }
        }
        lemma_placed_in_order(rest, entry);
        let inner = placed(rest, entry);
        assert(after == inner.push(last));
        assert forall|i: int, j: int| 0 <= i < j < after.len() implies !text::before(
            (#[trigger] after[j]).0,
            (#[trigger] after[i]).0,
        ) by {
            if j == inner.len() {
                assert(after[i] == inner[i]);
                if inner[i] == entry {
                    text::lemma_before_one_way(entry.0, last.0);
                } else {
                    let k = choose|k: int| 0 <= k < rest.len() && rest[k] == inner[i];
                    assert(entries[k] == inner[i]);
                    assert(!text::before(entries[entries.len() - 1].0, entries[k].0));
                }
            } else {
                assert(after[i] == inner[i] && after[j] == inner[j]);
            }
        }
        assert forall|k: int| 0 <= k <= entries.len() implies (#[trigger] after[k]) == entry
            || entries.contains(after[k]) by {
            if k < inner.len() {
                assert(after[k] == inner[k]);
                if inner[k] != entry {
                    let m = choose|m: int| 0 <= m < rest.len() && rest[m] == inner[k];
                    assert(entries[m] == after[k]);
                }
            } else {
                assert(entries[entries.len() - 1] == after[k]);
            }
        }
    } else {
        assert forall|i: int, j: int| 0 <= i < j < after.len() implies !text::before(
            (#[trigger] after[j]).0,
            (#[trigger] after[i]).0,
        ) by {
            if j == entries.len() {
                let last = entries[entries.len() - 1];
                assert(after[i] == entries[i]);
                if text::before(entry.0, entries[i].0) {
                    if i < entries.len() - 1 {
                        assert(!text::before(last.0, entries[i].0));
                    } else if text::before(last.0, entries[i].0) {
                        text::lemma_before_one_way(last.0, entries[i].0);
                    }
                    text::lemma_before_chain(entry.0, entries[i].0, last.0);
                }
            } else {
                assert(after[i] == entries[i] && after[j] == entries[j]);
            }
        }
        assert forall|k: int| 0 <= k <= entries.len() implies (#[trigger] after[k]) == entry
            || entries.contains(after[k]) by {
            if k < entries.len() {
                assert(after[k] == entries[k]);
            }
        }
    }
}

/// A listing stands in the order of the names, and leaves no entry out.
pub proof fn law_listings_are_sorted(entries: Seq<(Seq<char>, Seq<char>)>)
    ensures
        in_name_order(by_name(entries)),
        by_name(entries).len() == entries.len(),
        by_name(entries).to_multiset() =~= entries.to_multiset(),
    decreases entries.len(),
{
    broadcast use vstd::seq_lib::group_to_multiset_ensures;

    if entries.len() > 0 {
        let rest = entries.drop_last();
        law_listings_are_sorted(rest);
        lemma_placed_in_order(by_name(rest), entries.last());
        lemma_placed_multiset(by_name(rest), entries.last());
        assert(rest.push(entries.last()) =~= entries);
    }
}

proof fn lemma_placed_multiset(
    entries: Seq<(Seq<char>, Seq<char>)>,
    entry: (Seq<char>, Seq<char>),
)
    ensures
        placed(entries, entry).to_multiset() =~= entries.to_multiset().insert(entry),
    decreases entries.len(),
{
    broadcast use vstd::seq_lib::group_to_multiset_ensures;

    if entries.len() > 0 && text::before(entry.0, entries.last().0) {
        lemma_placed_multiset(entries.drop_last(), entry);
        assert(entries.drop_last().push(entries.last()) =~= entries);
    }
}

/// The bytes that an entry is taken to need.
pub open spec fn entry_bytes(entry: (Seq<char>, Seq<char>)) -> nat {
    text::byte_len(entry.0) + text::byte_len(entry.1) + 32
}

/// The bytes that entries are taken to need.
pub open spec fn total_bytes(entries: Seq<(Seq<char>, Seq<char>)>) -> nat
    decreases entries.len(),
{
    if entries.len() == 0 {
        0
    } else {
        total_bytes(entries.drop_last()) + entry_bytes(entries.last())
    }
}

/// Whether the first `n` entries can be shown.
pub open spec fn listing_fits(entries: Seq<(Seq<char>, Seq<char>)>, n: int) -> bool {
    n <= MAX_LIST_ENTRIES && total_bytes(entries.take(n)) <= MAX_LIST_DATA_BYTES
}

/// Whether as many entries are shown as can be: no fewer, and no more.
pub open spec fn is_listing_cut(entries: Seq<(Seq<char>, Seq<char>)>, n: int) -> bool {
    0 <= n <= entries.len() && listing_fits(entries, n) && (n < entries.len() ==> !listing_fits(
        entries,
        n + 1,
    ))
}

/// An entry as it is given back.
pub open spec fn entry_json(entry: (Seq<char>, Seq<char>)) -> JsonView {
    JsonView::Object(
        json::no_members().push(("kind"@, JsonView::Text(entry.1))).push(
            ("name"@, JsonView::Text(entry.0)),
        ),
    )
}

/// What a listed directory gives back, where `shown` of its entries are shown.
pub open spec fn list_answer(
    call_id: Seq<char>,
    path: Seq<char>,
    entries: Seq<(Seq<char>, Seq<char>)>,
    shown: nat,
) -> ResultView {
    let sorted = by_name(entries);
    ResultView {
        call_id,
        summary: "listed "@ + text::decimal(shown) + " of "@ + text::decimal(entries.len())
            + " entries in "@ + path,
        data: JsonView::Object(
            json::no_members().push(
                (
                    "entries"@,
                    JsonView::Array(Seq::new(shown, |i: int| entry_json(sorted[i]))),
                ),
            ).push(("entry_count"@, JsonView::Number(text::decimal(entries.len())))).push(
                ("path"@, JsonView::Text(path)),
            ).push(("returned_count"@, JsonView::Number(text::decimal(shown)))).push(
                ("truncated"@, JsonView::Bool(shown < entries.len())),
            ),
        ),
    }
}

fn sort_entries(entries: Vec<ListEntry>) -> (r: Vec<ListEntry>)
    ensures
        entry_pairs(r@) == by_name(entry_pairs(entries@)),
        r@.len() == entries@.len(),
{
    let ghost all = entry_pairs(entries@);
    let mut sorted: Vec<ListEntry> = Vec::new();
    assert(entry_pairs(sorted@) =~= Seq::empty());
    assert(all.take(0) =~= Seq::empty());
    for i in 0..entries.len()
        invariant
            all == entry_pairs(entries@),
            entry_pairs(sorted@) == by_name(all.take(i as int)),
            sorted@.len() == i,
    {
        proof {
            assert(all.take(i + 1).drop_last() =~= all.take(i as int));
            assert(all.take(i + 1).last() == all[i as int]);
        }
        let ghost pairs = entry_pairs(sorted@);
        let ghost added = all[i as int];
        let mut at: usize = sorted.len();
        assert(pairs.take(at as int) =~= pairs);
        assert(placed(pairs, added) =~= placed(pairs.take(at as int), added) + pairs.skip(
            at as int,
        ));
        while at > 0 && text::text_before(entries[i].name.as_str(), sorted[at - 1].name.as_str())
            invariant
                i < entries@.len(),
                0 <= at <= sorted@.len(),
                pairs == entry_pairs(sorted@),
                added == (entries@[i as int].name@, entries@[i as int].kind@),
                placed(pairs, added) == placed(pairs.take(at as int), added) + pairs.skip(
                    at as int,
                ),
            decreases at,
        {
            proof {
                let shorter = pairs.take(at as int);
                assert(shorter.drop_last() =~= pairs.take(at - 1));
                assert(shorter.last() == pairs[at - 1]);
                assert(placed(pairs.take(at - 1), added).push(pairs[at - 1]) + pairs.skip(
                    at as int,
                ) =~= placed(pairs.take(at - 1), added) + pairs.skip(at - 1));
            }
            at -= 1;
        }
        proof {
            let shorter = pairs.take(at as int);
            if at > 0 {
                assert(shorter.last() == pairs[at - 1]);
            }
            assert(placed(shorter, added) == shorter.push(added));
            assert(shorter.push(added) + pairs.skip(at as int) =~= pairs.insert(
                at as int,
                added,
            ));
        }
        let copy = ListEntry { name: entries[i].name.clone(), kind: entries[i].kind };
        sorted.insert(at, copy);
        assert(entry_pairs(sorted@) =~= pairs.insert(at as int, added));
    }
    assert(all.take(all.len() as int) =~= all);
    sorted
}

/// What a listed directory gives back: its entries in the order of their names, as many as fit.
pub fn list_result(call_id: String, path: String, entries: Vec<ListEntry>) -> (r: ToolResult)
    ensures
        exists|shown: nat|
            is_listing_cut(by_name(entry_pairs(entries@)), shown as int) && r@
                == #[trigger] list_answer(call_id@, path@, entry_pairs(entries@), shown),
{
    let count: usize = entries.len();
    let ghost given = entry_pairs(entries@);
    let sorted = sort_entries(entries);
    let ghost pairs = by_name(given);
    let mut items: Vec<Json> = Vec::new();
    let mut used: usize = 0;
    let mut shown: usize = 0;
    assert(pairs.take(0) =~= Seq::empty());
    while shown < sorted.len()
        invariant_except_break
            shown <= sorted@.len(),
        invariant
            pairs == entry_pairs(sorted@),
            shown <= sorted@.len(),
            shown <= MAX_LIST_ENTRIES,
            used == total_bytes(pairs.take(shown as int)),
            used <= MAX_LIST_DATA_BYTES,
            items@.len() == shown,
            forall|j: int| 0 <= j < shown ==> (#[trigger] items@[j])@ == entry_json(pairs[j]),
        ensures
            shown < sorted@.len() ==> !listing_fits(pairs, shown + 1),
        decreases sorted@.len() - shown,
    {
        let entry = &sorted[shown];
        proof {
            assert(pairs.take(shown + 1).drop_last() =~= pairs.take(shown as int));
            assert(pairs.take(shown + 1).last() == pairs[shown as int]);
        }
        let name_bytes: usize = text::bytes_in(entry.name.as_str());
        let kind_bytes: usize = text::bytes_in(entry.kind);
        let room: usize = MAX_LIST_DATA_BYTES - used;
        if shown >= MAX_LIST_ENTRIES || name_bytes > room || kind_bytes > room || 32 > room
            || name_bytes + kind_bytes + 32 > room {
            break;
        }
        used = used + (name_bytes + kind_bytes + 32);
        items.push(
            ObjectBuilder::new().text("kind", entry.kind).text("name", entry.name.as_str()).build(),
        );
        shown += 1;
    }
    let mut summary = text::text4(
        "listed ",
        text::decimal_usize(shown).as_str(),
        " of ",
        text::decimal_usize(count).as_str(),
    );
    summary.append(" entries in ");
    summary.append(path.as_str());
    let truncated = shown < count;
    proof {
        assert(json::json_views(items@) =~= Seq::new(
            shown as nat,
            |i: int| entry_json(pairs[i]),
        ));
        assert(entry_pairs(sorted@).len() == sorted@.len());
        assert(given.len() == count);
    }
    let data = ObjectBuilder::new().with("entries", Json::array(items)).number(
        "entry_count",
        count as u64,
    ).text("path", path.as_str()).number("returned_count", shown as u64).flag(
        "truncated",
        truncated,
    ).build();
    let r = ToolResult { call_id, summary, data };
    assert(is_listing_cut(pairs, shown as int));
    assert(r@ == list_answer(call_id@, path@, given, shown as nat));
    r
}

/// A path that should be a directory and is none.
pub fn not_a_directory(path: &str) -> (r: AppError)
    ensures
        r matches AppError::Tool(message) && message@ == "not a directory: "@ + path@,
{
    AppError::Tool(text::text2("not a directory: ", path))
}

/// Whether a command may see a variable of the environment.
pub open spec fn env_allowed(name: Seq<char>) -> bool {
    ||| name == "PATH"@
    ||| name == "HOME"@
    ||| name == "USER"@
    ||| name == "LOGNAME"@
    ||| name == "SHELL"@
    ||| name == "TERM"@
    ||| name == "COLORTERM"@
    ||| name == "NO_COLOR"@
    ||| name == "LANG"@
    ||| name == "LC_ALL"@
    ||| name == "TMPDIR"@
    ||| name == "TEMP"@
    ||| name == "TMP"@
    ||| name == "CARGO_HOME"@
    ||| name == "RUSTUP_HOME"@
}

/// Whether the name of a variable looks like that of a secret.
pub open spec fn env_secret(name: Seq<char>) -> bool {
    let upper = text::upper_text(name);
    ||| text::contains_text(upper, "KEY"@)
    ||| text::contains_text(upper, "TOKEN"@)
    ||| text::contains_text(upper, "SECRET"@)
    ||| text::contains_text(upper, "PASSWORD"@)
    ||| text::contains_text(upper, "CREDENTIAL"@)
    ||| text::contains_text(upper, "AUTH"@)
}

/// Whether a command is given a variable: it is one of those that are allowed, does not look like a
/// secret, and is not the one that holds the key of the provider.
pub open spec fn env_kept(name: Seq<char>, provider_key: Option<Seq<char>>) -> bool {
    env_allowed(name) && !env_secret(name) && provider_key != Some(name)
}

/// Whether a command may see a variable of the environment.
pub fn is_allowed_env_name(name: &str) -> (r: bool)
    ensures
        r == env_allowed(name@),
{
    text::same_text(name, "PATH") || text::same_text(name, "HOME") || text::same_text(name, "USER")
        || text::same_text(name, "LOGNAME") || text::same_text(name, "SHELL") || text::same_text(
        name,
        "TERM",
    ) || text::same_text(name, "COLORTERM") || text::same_text(name, "NO_COLOR")
        || text::same_text(name, "LANG") || text::same_text(name, "LC_ALL") || text::same_text(
        name,
        "TMPDIR",
    ) || text::same_text(name, "TEMP") || text::same_text(name, "TMP") || text::same_text(
        name,
        "CARGO_HOME",
    ) || text::same_text(name, "RUSTUP_HOME")
}

/// Whether the name of a variable looks like that of a secret.
pub fn is_credential_env_name(name: &str) -> (r: bool)
    ensures
        r == env_secret(name@),
{
    let upper = text::to_upper(name);
    let upper = upper.as_str();
    text::has_text(upper, "KEY") || text::has_text(upper, "TOKEN") || text::has_text(
        upper,
        "SECRET",
    ) || text::has_text(upper, "PASSWORD") || text::has_text(upper, "CREDENTIAL")
        || text::has_text(upper, "AUTH")
}

/// A variable as a value.
pub open spec fn var_view(var: (String, String)) -> (Seq<char>, Seq<char>) {
    (var.0@, var.1@)
}

/// What variables stand for.
pub open spec fn var_views(vars: Seq<(String, String)>) -> Seq<(Seq<char>, Seq<char>)> {
    Seq::new(vars.len(), |i: int| var_view(vars[i]))
}

/// The variables that a command is given, in the order in which they came.
pub open spec fn child_env(vars: Seq<(Seq<char>, Seq<char>)>, provider_key: Option<Seq<char>>) -> Seq<
    (Seq<char>, Seq<char>),
>
    decreases vars.len(),
{
    if vars.len() == 0 {
        Seq::empty()
    } else {
        let before = child_env(vars.drop_last(), provider_key);
        if env_kept(vars.last().0, provider_key) {
            before.push(vars.last())
        } else {
            before
        }
    }
}

/// An optional name as a value.
pub open spec fn opt_str(name: Option<&str>) -> Option<Seq<char>> {
    match name {
        Some(name) => Some(name@),
        None => None,
    }
}

/// The variables that a command is given.
pub fn shell_child_env_from(
    vars: Vec<(String, String)>,
    provider_api_key_env: Option<&str>,
) -> (r: Vec<(String, String)>)
    ensures
        var_views(r@) == child_env(var_views(vars@), opt_str(provider_api_key_env)),
{
    let ghost all = var_views(vars@);
    let ghost key = opt_str(provider_api_key_env);
    let mut kept: Vec<(String, String)> = Vec::new();
    assert(all.take(0) =~= Seq::empty());
    assert(var_views(kept@) =~= Seq::empty());
    for i in 0..vars.len()
        invariant
            all == var_views(vars@),
            key == opt_str(provider_api_key_env),
            var_views(kept@) == child_env(all.take(i as int), key),
    {
        proof {
            assert(all.take(i + 1).drop_last() =~= all.take(i as int));
            assert(all.take(i + 1).last() == all[i as int]);
        }
        let name = vars[i].0.as_str();
        let is_provider_key = match provider_api_key_env {
            Some(key) => text::same_text(key, name),
            None => false,
        };
        if is_allowed_env_name(name) && !is_credential_env_name(name) && !is_provider_key {
            let ghost before = var_views(kept@);
            kept.push((vars[i].0.clone(), vars[i].1.clone()));
            assert(var_views(kept@) =~= before.push(all[i as int]));
        }
    }
    assert(all.take(all.len() as int) =~= all);
    kept
}

/// A command sees no variable that looks like a secret, and not the key of the provider.
pub proof fn law_commands_see_no_secrets(
    vars: Seq<(Seq<char>, Seq<char>)>,
    provider_key: Option<Seq<char>>,
)
    ensures
        forall|i: int|
            0 <= i < child_env(vars, provider_key).len() ==> {
                let name = (#[trigger] child_env(vars, provider_key)[i]).0;
                env_allowed(name) && !env_secret(name) && provider_key != Some(name)
            },
    decreases vars.len(),
{
    if vars.len() > 0 {
        law_commands_see_no_secrets(vars.drop_last(), provider_key);
        let before = child_env(vars.drop_last(), provider_key);
        let all = child_env(vars, provider_key);
        assert forall|i: int| 0 <= i < all.len() implies env_allowed((#[trigger] all[i]).0)
            && !env_secret(all[i].0) && provider_key != Some(all[i].0) by {
            if i < before.len() {
                assert(all[i] == before[i]);
            }
        }
    }
}

/// What `String::from_utf8_lossy` makes of bytes.
pub uninterp spec fn utf8_lossy(bytes: Seq<u8>) -> Seq<char>;

/// `String::from_utf8_lossy`: bytes that are UTF-8 as the text they are, and others with a
/// replacement character for what is none. It depends on the bytes alone.
#[verifier::external_body]
fn from_utf8_lossy(bytes: &Vec<u8>) -> (r: String)
    ensures
        r@ == utf8_lossy(bytes@),
        vstd::utf8::valid_utf8(bytes@) ==> r@ == vstd::utf8::decode_utf8(bytes@),
{
    String::from_utf8_lossy(bytes).into_owned()
}

/// What is kept of an output.
#[derive(Clone, Debug, PartialEq, Eq)]
pub struct CappedOutput {
    pub text: String,
    pub truncated: bool,
}

/// The text that is kept of an output: its first bytes, and a mark where there were more.
pub open spec fn capped_text(output: Seq<u8>, max: nat) -> Seq<char> {
    if output.len() > max {
        utf8_lossy(output.take(max as int)) + SHELL_OUTPUT_TRUNCATED_MARKER@
    } else {
        utf8_lossy(output)
    }
}

/// An output that comes in piece by piece, and of which no more than some bytes are kept.
pub struct OutputCap {
    bytes: Vec<u8>,
    max_bytes: usize,
    truncated: bool,
    all: Ghost<Seq<u8>>,
}

impl OutputCap {
    /// All that has come in.
    pub closed spec fn view(&self) -> Seq<u8> {
        self.all@
    }

    /// The most bytes that are kept.
    pub closed spec fn limit(&self) -> nat {
        self.max_bytes as nat
    }

    /// Whether the first bytes of what has come in are kept.
    pub closed spec fn wf(&self) -> bool {
        &&& self.bytes@ == if self.all@.len() > self.max_bytes {
            self.all@.take(self.max_bytes as int)
        } else {
            self.all@
        }
        &&& self.truncated == (self.all@.len() > self.max_bytes)
    }

    /// An output of which nothing has come in.
    pub fn new(max_bytes: usize) -> (r: OutputCap)
        ensures
            r.wf(),
            r@ == Seq::<u8>::empty(),
            r.limit() == max_bytes,
    {
        OutputCap { bytes: Vec::new(), max_bytes, truncated: false, all: Ghost(Seq::empty()) }
    }

    /// Takes a piece in.
    pub fn take(&mut self, piece: &[u8])
        requires
            old(self).wf(),
        ensures
            final(self).wf(),
            final(self)@ == old(self)@ + piece@,
            final(self).limit() == old(self).limit(),
    {
        let ghost before = self.all@;
        self.all = Ghost(before + piece@);
        if self.truncated {
            assert((before + piece@).take(self.max_bytes as int) =~= before.take(
                self.max_bytes as int,
            ));
            return;
        }
        let room: usize = self.max_bytes - self.bytes.len();
        let mut i: usize = 0;
        while i < piece.len() && i < room
            invariant
                0 <= i <= piece@.len(),
                i <= room,
                room == self.max_bytes - before.len(),
                self.max_bytes == old(self).max_bytes,
                self.all@ == before + piece@,
                !self.truncated,
                self.bytes@ == before + piece@.take(i as int),
            decreases piece@.len() - i,
        {
            self.bytes.push(piece[i]);
            i += 1;
            assert(self.bytes@ =~= before + piece@.take(i as int));
        }
        if i < piece.len() {
            self.truncated = true;
            assert(self.bytes@ =~= (before + piece@).take(self.max_bytes as int));
        } else {
            assert(self.bytes@ =~= before + piece@);
        }
    }

    /// What is kept of the output. Text that is short enough comes out as it is; of other text, what
    /// fits, with a mark behind it.
    pub fn finish(self) -> (r: CappedOutput)
        requires
            self.wf(),
        ensures
            r.text@ == capped_text(self@, self.limit()),
            r.truncated == (self@.len() > self.limit()),
            self@.len() <= self.limit() && vstd::utf8::valid_utf8(self@) ==> r.text@
                == vstd::utf8::decode_utf8(self@),
            self@.len() > self.limit() && vstd::utf8::valid_utf8(self@.take(self.limit() as int))
                ==> r.text@ == vstd::utf8::decode_utf8(self@.take(self.limit() as int))
                + SHELL_OUTPUT_TRUNCATED_MARKER@,
    {
        let mut text = from_utf8_lossy(&self.bytes);
        if self.truncated {
            text.append(SHELL_OUTPUT_TRUNCATED_MARKER);
        }
        CappedOutput { text, truncated: self.truncated }
    }
}

/// What is kept of an output that is there whole. Text that is short enough comes out as it is; of
/// other text, what fits, with a mark behind it.
pub fn read_capped_output(output: &[u8], max_bytes: usize) -> (r: CappedOutput)
    ensures
        r.text@ == capped_text(output@, max_bytes as nat),
        r.truncated == (output@.len() > max_bytes),
        output@.len() <= max_bytes && vstd::utf8::valid_utf8(output@) ==> r.text@
            == vstd::utf8::decode_utf8(output@),
        output@.len() > max_bytes && vstd::utf8::valid_utf8(output@.take(max_bytes as int))
            ==> r.text@ == vstd::utf8::decode_utf8(output@.take(max_bytes as int))
            + SHELL_OUTPUT_TRUNCATED_MARKER@,
{
    let mut cap = OutputCap::new(max_bytes);
    cap.take(output);
    assert(cap@ =~= output@);
    cap.finish()
}

/// What to do about a command that was started.
#[derive(Clone, Copy, Debug, PartialEq, Eq, Structural)]
pub enum ShellStep {
    /// It has ended.
    Ended,
    /// It is to be killed, for the run is to stop.
    KillCanceled,
    /// It is to be killed, for its time is over.
    KillTimedOut,
    /// It goes on; look again a little later.
    Wait,
}

/// What to do about a command: one that has ended is left alone, whatever else holds; and that the
/// run is to stop comes before that its time is over.
pub fn watch_shell(ended: bool, canceled: bool, elapsed_ms: u64, timeout_seconds: u64) -> (r:
    ShellStep)
    ensures
        r == if ended {
            ShellStep::Ended
        } else if canceled {
            ShellStep::KillCanceled
        } else if elapsed_ms >= timeout_seconds * 1000 {
            ShellStep::KillTimedOut
        } else {
            ShellStep::Wait
        },
{
    if ended {
        ShellStep::Ended
    } else if canceled {
        ShellStep::KillCanceled
    } else if elapsed_ms / 1000 >= timeout_seconds {
        assert(elapsed_ms >= timeout_seconds * 1000) by (nonlinear_arith)
            requires
                elapsed_ms / 1000 >= timeout_seconds,
        ;
        ShellStep::KillTimedOut
    } else {
        assert(elapsed_ms < timeout_seconds * 1000) by (nonlinear_arith)
            requires
                elapsed_ms / 1000 < timeout_seconds,
        ;
        ShellStep::Wait
    }
}

/// How a command ended.
#[derive(Clone, Copy, Debug, PartialEq, Eq, Structural)]
pub enum ShellEnding {
    /// By itself, with a code, or by a signal without one.
    Exited(Option<i32>),
    /// It was killed, for the run was to stop.
    Canceled,
    /// It was killed, for its time was over.
    TimedOut,
}

/// The code of a command as it is shown.
pub open spec fn exit_label(code: Option<i32>) -> Seq<char> {
    match code {
        Some(code) => text::decimal_int(code as int),
        None => "signal"@,
    }
}

/// What a command that ended by itself gives back.
pub open spec fn shell_answer(
    call_id: Seq<char>,
    command: Seq<char>,
    cwd: Seq<char>,
    code: Option<i32>,
    duration_ms: u64,
    stdout: CappedOutput,
    stderr: CappedOutput,
) -> ResultView {
    let duration = text::decimal(duration_ms as nat);
    ResultView {
        call_id,
        summary: "shell.exec exited "@ + exit_label(code) + " in "@ + duration + "ms"@,
        data: JsonView::Object(
            json::no_members().push(("command"@, JsonView::Text(command))).push(
                ("cwd"@, JsonView::Text(cwd)),
            ).push(("duration_ms"@, JsonView::Number(duration))).push(
                (
                    "exit_code"@,
                    match code {
                        Some(code) => JsonView::Number(text::decimal_int(code as int)),
                        None => JsonView::Null,
                    },
                ),
            ).push(("stderr"@, JsonView::Text(stderr.text@))).push(
                ("stderr_truncated"@, JsonView::Bool(stderr.truncated)),
            ).push(("stdout"@, JsonView::Text(stdout.text@))).push(
                ("stdout_truncated"@, JsonView::Bool(stdout.truncated)),
            ),
        ),
    }
}

/// What a command gives back: its outputs where it ended by itself, whatever its code, and else that
/// it was killed.
pub fn shell_result(
    call_id: String,
    command: &str,
    cwd: &str,
    timeout_seconds: u64,
    ending: ShellEnding,
    duration_ms: u64,
    stdout: CappedOutput,
    stderr: CappedOutput,
) -> (r: AppResult<ToolResult>)
    ensures
        match ending {
            ShellEnding::Exited(code) => r matches Ok(result) && result@ == shell_answer(
                call_id@,
                command@,
                cwd@,
                code,
                duration_ms,
                stdout,
                stderr,
            ),
            ShellEnding::Canceled => r matches Err(AppError::Tool(message)) && message@
                == "shell.exec canceled"@,
            ShellEnding::TimedOut => r matches Err(AppError::Tool(message)) && message@
                == "shell.exec timed out after "@ + text::decimal(timeout_seconds as nat) + "s"@,
        },
{
    let code: Option<i32> = match ending {
        ShellEnding::TimedOut => {
            return Err(
                AppError::Tool(
                    text::text3(
                        "shell.exec timed out after ",
                        text::decimal_u64(timeout_seconds).as_str(),
                        "s",
                    ),
                ),
            );
        },
        ShellEnding::Canceled => {
            return Err(AppError::Tool("shell.exec canceled".to_owned()));
        },
        ShellEnding::Exited(code) => code,
    };
    let label = match code {
        Some(code) => text::decimal_i64(code as i64),
        None => "signal".to_owned(),
    };
    let exit_code = match code {
        Some(code) => Json::signed(code as i64),
        None => Json::Null,
    };
    let mut summary = text::text4(
        "shell.exec exited ",
        label.as_str(),
        " in ",
        text::decimal_u64(duration_ms).as_str(),
    );
    summary.append("ms");
    let data = ObjectBuilder::new().text("command", command).text("cwd", cwd).number(
        "duration_ms",
        duration_ms,
    ).with("exit_code", exit_code).text("stderr", stderr.text.as_str()).flag(
        "stderr_truncated",
        stderr.truncated,
    ).text("stdout", stdout.text.as_str()).flag("stdout_truncated", stdout.truncated).build();
    Ok(ToolResult { call_id, summary, data })
}

/// What an approver is shown of an input.
pub open spec fn input_preview(input: JsonView) -> Seq<char> {
    text::clipped(json::json_text(input), APPROVAL_PREVIEW_CHARS as nat, "...(truncated)"@)
}

/// What an approver is shown of an input.
pub fn approval_input_preview(input: &Json) -> (r: String)
    ensures
        r@ == input_preview(input@),
{
    text::clip(input.render().as_str(), APPROVAL_PREVIEW_CHARS, "...(truncated)")
}

/// What an approver at the terminal is asked.
pub open spec fn prompt_text(
    tool: Seq<char>,
    input: JsonView,
    preview: Option<Seq<char>>,
) -> Seq<char> {
    match preview {
        Some(preview) => "Approve "@ + tool + "?\n"@ + preview + "\n[y/N] "@,
        None => "Approve "@ + tool + " "@ + input_preview(input) + "? [y/N] "@,
    }
}

/// What an approver at the terminal is asked.
pub fn approval_prompt(tool_name: &str, input: &Json, approval_preview: Option<&str>) -> (r: String)
    ensures
        r@ == prompt_text(tool_name@, input@, opt_str(approval_preview)),
{
    match approval_preview {
        Some(preview) => {
            let mut r = text::text4("Approve ", tool_name, "?\n", preview);
            r.append("\n[y/N] ");
            r
        },
        None => {
            let preview = approval_input_preview(input);
            let mut r = text::text4("Approve ", tool_name, " ", preview.as_str());
            r.append("? [y/N] ");
            r
        },
    }
}

/// What an answer at the terminal means: only a clear yes is one.
pub fn approval_answer(line: &str) -> (r: ApprovalOutcome)
    ensures
        r@ == ({
            let answer = text::lower_text(text::trim(line@));
            if answer == "y"@ || answer == "yes"@ {
                OutcomeView::Granted
            } else {
                OutcomeView::Denied { reason: "approval denied by stdin"@ }
            }
        }),
{
    let answer = text::to_lower(text::trimmed(line).as_str());
    if text::same_text(answer.as_str(), "y") || text::same_text(answer.as_str(), "yes") {
        ApprovalOutcome::Granted
    } else {
        ApprovalOutcome::Denied { reason: "approval denied by stdin".to_owned() }
    }
}

/// The file whose replacement an approver is shown, and what it would hold; nothing where the call
/// replaces none.
pub fn diff_target(tool_name: &str, input: &Json) -> (r: Option<(String, String)>)
    ensures
        r is Some <==> tool_name@ == FILE_EDIT@ && path_in(
            input@,
            "FileContentInput"@,
            content_fields(),
        ) is Ok,
        r matches Some(target) ==> Ok::<Seq<char>, PlanErrorView>(target.0@) == path_in(
            input@,
            "FileContentInput"@,
            content_fields(),
        ) && target.1@ == member_text(named_input(input@, content_fields()), "content"@),
{
    if !text::same_text(tool_name, FILE_EDIT) {
        return None;
    }
    match plan_content(input) {
        Ok(target) => Some(target),
        Err(_) => None,
    }
}

/// What stands in the file that is to be replaced.
#[derive(Debug, PartialEq, Eq)]
pub enum CurrentFile {
    /// A text.
    Content(String),
    /// There is no file.
    Missing,
    /// It cannot be read, or may not be replaced.
    Unreadable,
}

/// The difference that a replacement would make, as an approver is shown it.
pub open spec fn replacement_diff(path: Seq<char>, proposed: Seq<char>, current: CurrentFile) -> Option<
    Seq<char>,
> {
    match current {
        CurrentFile::Content(content) => Some(
            diff::diff_text(path, content@, proposed, diff::DIFF_PREVIEW_CHARS as nat),
        ),
        CurrentFile::Missing => Some(
            diff::diff_text(path, ""@, proposed, diff::DIFF_PREVIEW_CHARS as nat),
        ),
        CurrentFile::Unreadable => None,
    }
}

/// The difference that a replacement would make, as an approver is shown it.
pub fn approval_diff_preview(path: &str, proposed: &str, current: CurrentFile) -> (r: Option<
    String,
>)
    ensures
        text::opt_view(r) == replacement_diff(path@, proposed@, current),
{
    match current {
        CurrentFile::Content(content) => Some(
            diff::unified_diff(path, content.as_str(), proposed, diff::DIFF_PREVIEW_CHARS),
        ),
        CurrentFile::Missing => Some(
            diff::unified_diff(path, "", proposed, diff::DIFF_PREVIEW_CHARS),
        ),
        CurrentFile::Unreadable => None,
    }
}

/// What an approver is shown of a command.
pub open spec fn command_preview(
    tool: Seq<char>,
    input: JsonView,
    cwd: Seq<char>,
    provider_key: Option<Seq<char>>,
) -> Option<Seq<char>> {
    let given = input;
    let input = named_input(given, shell_fields());
    if tool != SHELL_EXEC@ || json::complaint(given, "ShellExecInput"@, shell_fields(), 2)
        is Some {
        None
    } else {
        Some(
            "command: "@ + member_text(input, "command"@) + "\ncwd: "@ + cwd + "\ntimeout: "@
                + text::decimal(
                timeout_of(json::u64_in(json::member_of(input, "timeout_seconds"@))) as nat,
            ) + "s\neffect: ExternalSideEffect\nenv: scrubbed allowlist; credential-like names and "@
                + match provider_key {
                Some(key) => key,
                None => "configured provider key"@,
            } + " removed"@,
        )
    }
}

/// What an approver is shown of a command: where it runs, how long, and what it does not see.
pub fn approval_command_preview(
    cwd: &str,
    tool_name: &str,
    input: &Json,
    provider_api_key_env: Option<&str>,
) -> (r: Option<String>)
    ensures
        text::opt_view(r) == command_preview(
            tool_name@,
            input@,
            cwd@,
            opt_str(provider_api_key_env),
        ),
{
    if !text::same_text(tool_name, SHELL_EXEC) {
        return None;
    }
    let (command, timeout_seconds) = match shell_input(input) {
        Ok(given) => given,
        Err(_) => {
            return None;
        },
    };
    let mut r = text::text4("command: ", command.as_str(), "\ncwd: ", cwd);
    r.append("\ntimeout: ");
    r.append(text::decimal_u64(timeout_seconds).as_str());
    r.append("s\neffect: ExternalSideEffect\nenv: scrubbed allowlist; credential-like names and ");
    match provider_api_key_env {
        Some(key) => r.append(key),
        None => r.append("configured provider key"),
    }
    r.append(" removed");
    Some(r)
}

/// Every tool has its own kind of plan, and a name that is no tool's has none and is named.
pub proof fn law_each_tool_has_its_plan(tool: Seq<char>, input: JsonView)
    ensures
        planned(tool, input) matches Ok(plan) ==> {
            &&& plan is Read <==> tool == "file.read"@
            &&& plan is List <==> tool == "file.list"@
            &&& plan is Write <==> tool == "file.write"@
            &&& plan is Edit <==> tool == "file.edit"@
            &&& plan is Shell <==> tool == "shell.exec"@
        },
        tool != "file.read"@ && tool != "file.list"@ && tool != "file.write"@ && tool
            != "file.edit"@ && tool != "shell.exec"@ ==> planned(tool, input) == Err::<
            PlanView,
            PlanErrorView,
        >(PlanErrorView::Tool("unknown tool: "@ + tool)),
{
    tool_catalog::law_tools_go_by_their_names(tool);
}

/// A plan does what its input says: the path and the content, or the command, are those that stand in
/// the input under those names.
pub proof fn law_plans_follow_their_input(tool: Seq<char>, input: JsonView)
    requires
        input is Object,
    ensures
        ({
            let path = json::text_in(json::member_of(input, "path"@));
            let content = json::text_in(json::member_of(input, "content"@));
            let command = json::text_in(json::member_of(input, "command"@));
            match planned(tool, input) {
                Ok(PlanView::Read { path: p }) => path->Some_0 == p,
                Ok(PlanView::List { path: p }) => path->Some_0 == p,
                Ok(PlanView::Write { path: p, content: c }) => path->Some_0 == p && content->Some_0
                    == c,
                Ok(PlanView::Edit { path: p, content: c }) => path->Some_0 == p && content->Some_0
                    == c,
                Ok(PlanView::Shell { command: c, timeout_seconds }) => command->Some_0 == c
                    && !text::is_blank(c) && 1 <= timeout_seconds <= 600,
                Err(PlanErrorView::Escapes(p)) => path->Some_0 == p && paths::escapes(p) && tool
                    != "shell.exec"@,
                _ => true,
            }
        }),
{
    tool_catalog::law_tools_go_by_their_names(tool);
}

/// A plan for a file is refused, once its input is as it should be, exactly where its path leads out of
/// the workspace: where it is absolute, or climbs.
pub proof fn law_only_escaping_paths_are_refused(input: JsonView)
    requires
        input is Object,
    ensures
        ({
            let path = json::text_in(json::member_of(input, "path"@))->Some_0;
            let outside = (path.len() > 0 && path[0] == '/') || paths::components_of(path).contains(
                ".."@,
            );
            &&& json::complaint(input, "FileReadInput"@, path_fields(), 1) is None ==> (planned(
                "file.read"@,
                input,
            ) is Ok <==> !outside)
            &&& json::complaint(input, "FileListInput"@, path_fields(), 1) is None ==> (planned(
                "file.list"@,
                input,
            ) is Ok <==> !outside)
            &&& json::complaint(input, "FileContentInput"@, content_fields(), 2) is None ==> (
            planned("file.write"@, input) is Ok <==> !outside) && (planned("file.edit"@, input)
                is Ok <==> !outside)
        }),
{
    tool_catalog::law_names_find_their_tool(tool_catalog::Tool::FileList);
    tool_catalog::law_names_find_their_tool(tool_catalog::Tool::FileWrite);
    tool_catalog::law_names_find_their_tool(tool_catalog::Tool::FileEdit);
    tool_catalog::law_names_find_their_tool(tool_catalog::Tool::ShellExec);
}

/// A command is stopped after the time that was asked for, but never later than ten minutes and never
/// before a second; where none was asked for it has two minutes.
pub proof fn law_commands_have_bounded_time(given: Option<u64>)
    ensures
        1 <= timeout_of(given) <= 600,
        given is None ==> timeout_of(given) == 120,
        given matches Some(seconds) ==> {
            &&& 1 <= seconds <= 600 ==> timeout_of(given) == seconds
            &&& seconds > 600 ==> timeout_of(given) == 600
            &&& seconds == 0 ==> timeout_of(given) == 1
        },
{
}

/// A file may be written exactly where it is no symbolic link, the directory it lies in is in the
/// workspace, and the file, if it is there, is in the workspace too.
pub proof fn law_writes_stay_in_the_workspace(
    root: Seq<char>,
    candidate: Seq<char>,
    target: WriteTarget,
    parent: Seq<char>,
)
    ensures
        write_escape(root, candidate, target, parent) is None <==> !(target is Symlink)
            && paths::lies_in(parent, root) && (target matches WriteTarget::Existing { resolved }
            ==> paths::lies_in(resolved@, root)),
        write_escape(root, candidate, target, parent) matches Some(path) ==> path == candidate || (
        !paths::lies_in(path, root) && (path == parent || (
        target matches WriteTarget::Existing { resolved } && path == resolved@))),
{
}

/// What was read is told with its path, the text that is shown, the number of its bytes, and whether
/// some were left out, which is so above sixty-four kibibytes.
pub proof fn law_reads_are_told(
    call_id: Seq<char>,
    path: Seq<char>,
    content: Seq<char>,
    visible: Seq<char>,
)
    ensures
        ({
            let answer = read_answer(call_id, path, content, visible);
            let bytes = text::decimal(text::byte_len(content));
            &&& answer.call_id == call_id
            &&& answer.summary == "read "@ + bytes + " bytes from "@ + path
            &&& json::member_of(answer.data, "content"@) == Some(JsonView::Text(visible))
            &&& json::member_of(answer.data, "path"@) == Some(JsonView::Text(path))
            &&& json::member_of(answer.data, "bytes"@) == Some(JsonView::Number(bytes))
            &&& json::member_of(answer.data, "truncated"@) == Some(
                JsonView::Bool(text::byte_len(content) > 65536),
            )
        }),
{
    let m = read_answer(call_id, path, content, visible).data->Object_0;
    lemma_read_names();
    assert(m[0].0 == "bytes"@ && m[1].0 == "content"@ && m[2].0 == "path"@ && m[3].0
        == "truncated"@);
    json::lemma_distinct_members(m);
    assert(m[0] == ("bytes"@, JsonView::Number(text::decimal(text::byte_len(content)))));
    assert(m[1] == ("content"@, JsonView::Text(visible)));
    assert(m[2] == ("path"@, JsonView::Text(path)));
    assert(m[3] == ("truncated"@, JsonView::Bool(text::byte_len(content) > 65536)));
}

proof fn lemma_read_names()
    ensures
        "bytes"@ != "content"@,
        "bytes"@ != "path"@,
        "bytes"@ != "truncated"@,
        "content"@ != "path"@,
        "content"@ != "truncated"@,
        "path"@ != "truncated"@,
{
    reveal_strlit("bytes");
    reveal_strlit("content");
    reveal_strlit("path");
    reveal_strlit("truncated");
    assert("bytes"@.len() == 5 && "content"@.len() == 7);
    assert("path"@.len() == 4 && "truncated"@.len() == 9);
}

/// What was written is told with its path and the number of its bytes, and as written or edited.
pub proof fn law_writes_are_told(
    call_id: Seq<char>,
    path: Seq<char>,
    content: Seq<char>,
    edited: bool,
)
    ensures
        ({
            let answer = write_answer(call_id, path, content, edited);
            let bytes = text::decimal(text::byte_len(content));
            &&& answer.call_id == call_id
            &&& !edited ==> answer.summary == "wrote "@ + bytes + " bytes to "@ + path
            &&& edited ==> answer.summary == "edited "@ + bytes + " bytes at "@ + path
            &&& json::member_of(answer.data, "path"@) == Some(JsonView::Text(path))
            &&& json::member_of(answer.data, "bytes"@) == Some(JsonView::Number(bytes))
        }),
{
    let m = write_answer(call_id, path, content, edited).data->Object_0;
    lemma_read_names();
    assert(m[0].0 == "bytes"@ && m[1].0 == "path"@);
    json::lemma_distinct_members(m);
    assert(m[0] == ("bytes"@, JsonView::Number(text::decimal(text::byte_len(content)))));
    assert(m[1] == ("path"@, JsonView::Text(path)));
}

/// A listing shows the first entries in the order of their names, each with its name and its kind; it
/// tells how many there are, how many it shows, and whether some were left out.
pub proof fn law_listings_are_told(
    call_id: Seq<char>,
    path: Seq<char>,
    entries: Seq<(Seq<char>, Seq<char>)>,
    shown: nat,
    i: int,
)
    requires
        0 <= i < shown <= entries.len(),
    ensures
        ({
            let answer = list_answer(call_id, path, entries, shown);
            &&& answer.call_id == call_id
            &&& answer.summary == "listed "@ + text::decimal(shown) + " of "@ + text::decimal(
                entries.len(),
            ) + " entries in "@ + path
            &&& json::member_of(answer.data, "entries"@) matches Some(JsonView::Array(items))
                && items.len() == shown && (items[i] matches JsonView::Object(m) && m.len() == 2
                && m[0] == ("kind"@, JsonView::Text(by_name(entries)[i].1)) && m[1] == (
                "name"@,
                JsonView::Text(by_name(entries)[i].0),
            ))
            &&& json::member_of(answer.data, "path"@) == Some(JsonView::Text(path))
            &&& json::member_of(answer.data, "entry_count"@) == Some(
                JsonView::Number(text::decimal(entries.len())),
            )
            &&& json::member_of(answer.data, "returned_count"@) == Some(
                JsonView::Number(text::decimal(shown)),
            )
            &&& json::member_of(answer.data, "truncated"@) == Some(
                JsonView::Bool(shown < entries.len()),
            )
        }),
{
    reveal_strlit("entries");
    reveal_strlit("entry_count");
    reveal_strlit("path");
    reveal_strlit("returned_count");
    reveal_strlit("truncated");
    let m = list_answer(call_id, path, entries, shown).data->Object_0;
    assert(m[0].0 == "entries"@ && m[1].0 == "entry_count"@ && m[2].0 == "path"@ && m[3].0
        == "returned_count"@ && m[4].0 == "truncated"@);
    json::lemma_distinct_members(m);
    assert(m[1] == ("entry_count"@, JsonView::Number(text::decimal(entries.len()))));
    assert(m[2] == ("path"@, JsonView::Text(path)));
    assert(m[3] == ("returned_count"@, JsonView::Number(text::decimal(shown))));
    assert(m[4] == ("truncated"@, JsonView::Bool(shown < entries.len())));
    assert(m[0].1 is Array);
    let e = entry_json(by_name(entries)[i])->Object_0;
    assert(m[0].1->Array_0[i] == entry_json(by_name(entries)[i]));
    assert(e[0] == ("kind"@, JsonView::Text(by_name(entries)[i].1)));
    assert(e[1] == ("name"@, JsonView::Text(by_name(entries)[i].0)));
}

/// A listing has at most two hundred entries, and leaves none out unless the next would make it too
/// long or too large: each entry counts the bytes of its name and its kind, and thirty-two more.
pub proof fn law_listings_are_cut_at_their_limits(entries: Seq<(Seq<char>, Seq<char>)>, n: int)
    requires
        is_listing_cut(entries, n),
    ensures
        0 <= n <= entries.len(),
        n <= 200,
        total_bytes(entries.take(n)) <= 32768,
        n < entries.len() ==> n == 200 || total_bytes(entries.take(n)) + text::byte_len(entries[n].0)
            + text::byte_len(entries[n].1) + 32 > 32768,
{
    if n < entries.len() {
        assert(entries.take(n + 1).drop_last() =~= entries.take(n));
        assert(entries.take(n + 1).last() == entries[n]);
    }
}

/// A command sees exactly those variables of the environment that are on a short list, do not look like
/// a secret and are not the provider's key, in their order and with their values.
pub proof fn law_commands_see_what_is_listed(
    vars: Seq<(Seq<char>, Seq<char>)>,
    var: (Seq<char>, Seq<char>),
    provider_key: Option<Seq<char>>,
)
    ensures
        ({
            let name = var.0;
            let upper = text::upper_text(name);
            let listed = name == "PATH"@ || name == "HOME"@ || name == "USER"@ || name == "LOGNAME"@
                || name == "SHELL"@ || name == "TERM"@ || name == "COLORTERM"@ || name
                == "NO_COLOR"@ || name == "LANG"@ || name == "LC_ALL"@ || name == "TMPDIR"@ || name
                == "TEMP"@ || name == "TMP"@ || name == "CARGO_HOME"@ || name == "RUSTUP_HOME"@;
            let secret = text::contains_text(upper, "KEY"@) || text::contains_text(upper, "TOKEN"@)
                || text::contains_text(upper, "SECRET"@) || text::contains_text(
                upper,
                "PASSWORD"@,
            ) || text::contains_text(upper, "CREDENTIAL"@) || text::contains_text(upper, "AUTH"@);
            child_env(vars.push(var), provider_key) == if listed && !secret && provider_key != Some(
                name,
            ) {
                child_env(vars, provider_key).push(var)
            } else {
                child_env(vars, provider_key)
            }
        }),
        child_env(Seq::empty(), provider_key) == Seq::<(Seq<char>, Seq<char>)>::empty(),
{
    assert(vars.push(var).drop_last() =~= vars);
}

/// What a command prints is shown whole up to its limit; of more, what fits, and then a line that says
/// that it was cut.
pub proof fn law_output_is_cut_at_its_limit(output: Seq<u8>, max: nat)
    ensures
        output.len() <= max ==> capped_text(output, max) == utf8_lossy(output),
        output.len() > max ==> capped_text(output, max) == utf8_lossy(output.take(max as int))
            + "\n... output truncated"@,
{
}

/// What a command gave is told with its exit code, or as ended by a signal, and with each of its outputs
/// under its own name.
pub proof fn law_commands_are_told(
    call_id: Seq<char>,
    command: Seq<char>,
    cwd: Seq<char>,
    code: Option<i32>,
    duration_ms: u64,
    stdout: CappedOutput,
    stderr: CappedOutput,
)
    ensures
        ({
            let answer = shell_answer(call_id, command, cwd, code, duration_ms, stdout, stderr);
            let duration = text::decimal(duration_ms as nat);
            let m = answer.data->Object_0;
            &&& answer.call_id == call_id
            &&& code matches Some(given) ==> answer.summary == "shell.exec exited "@
                + text::decimal_int(given as int) + " in "@ + duration + "ms"@ && m[3] == (
                "exit_code"@,
                JsonView::Number(text::decimal_int(given as int)),
            )
            &&& code is None ==> answer.summary == "shell.exec exited "@ + "signal"@ + " in "@
                + duration + "ms"@ && m[3] == ("exit_code"@, JsonView::Null)
            &&& answer.data is Object && m.len() == 8
            &&& m[0] == ("command"@, JsonView::Text(command))
            &&& m[1] == ("cwd"@, JsonView::Text(cwd))
            &&& m[2] == ("duration_ms"@, JsonView::Number(duration))
            &&& m[4] == ("stderr"@, JsonView::Text(stderr.text@))
            &&& m[5] == ("stderr_truncated"@, JsonView::Bool(stderr.truncated))
            &&& m[6] == ("stdout"@, JsonView::Text(stdout.text@))
            &&& m[7] == ("stdout_truncated"@, JsonView::Bool(stdout.truncated))
        }),
{
    let m = shell_answer(
        call_id,
        command,
        cwd,
        code,
        duration_ms,
        stdout,
        stderr,
    ).data->Object_0;
    assert(m[0] == ("command"@, JsonView::Text(command)));
    assert(m[1] == ("cwd"@, JsonView::Text(cwd)));
    assert(m[2] == ("duration_ms"@, JsonView::Number(text::decimal(duration_ms as nat))));
    assert(m[3].0 == "exit_code"@);
    assert(m[4] == ("stderr"@, JsonView::Text(stderr.text@)));
    assert(m[5] == ("stderr_truncated"@, JsonView::Bool(stderr.truncated)));
    assert(m[6] == ("stdout"@, JsonView::Text(stdout.text@)));
    assert(m[7] == ("stdout_truncated"@, JsonView::Bool(stdout.truncated)));
}

/// Whoever is asked to approve sees the tool, and what it would do: the preview where there is one, else
/// the first thousand characters of its input.
pub proof fn law_approvers_see_what_they_approve(
    tool: Seq<char>,
    input: JsonView,
    preview: Option<Seq<char>>,
)
    ensures
        preview matches Some(shown) ==> prompt_text(tool, input, preview) == "Approve "@ + tool
            + "?\n"@ + shown + "\n[y/N] "@,
        preview is None && json::json_text(input).len() <= 1000 ==> prompt_text(tool, input, preview)
            == "Approve "@ + tool + " "@ + json::json_text(input) + "? [y/N] "@,
        preview is None && json::json_text(input).len() > 1000 ==> prompt_text(tool, input, preview)
            == "Approve "@ + tool + " "@ + (json::json_text(input).take(1000) + "...(truncated)"@)
            + "? [y/N] "@,
{
}

/// Whoever is asked to approve a write sees the difference from what the file holds, from nothing where
/// there is no file, and none where the file cannot be read.
pub proof fn law_approvers_see_the_difference(
    path: Seq<char>,
    proposed: Seq<char>,
    current: CurrentFile,
)
    ensures
        current matches CurrentFile::Content(held) ==> replacement_diff(path, proposed, current)
            == Some(diff::diff_text(path, held@, proposed, 16384)),
        current is Missing ==> replacement_diff(path, proposed, current) == Some(
            diff::diff_text(path, ""@, proposed, 16384),
        ),
        current is Unreadable ==> replacement_diff(path, proposed, current) is None,
{
}

/// Whoever is asked to approve a command sees the command itself, where it runs and for how long: exactly
/// what the plan for it holds.
pub proof fn law_approvers_see_the_command(
    input: JsonView,
    cwd: Seq<char>,
    provider_key: Option<Seq<char>>,
)
    ensures
        planned("shell.exec"@, input) matches Ok(PlanView::Shell { command, timeout_seconds }) ==> (
        command_preview("shell.exec"@, input, cwd, provider_key) matches Some(shown) && shown
            == "command: "@ + command + "\ncwd: "@ + cwd + "\ntimeout: "@ + text::decimal(
            timeout_seconds as nat,
        ) + "s\neffect: ExternalSideEffect\nenv: scrubbed allowlist; credential-like names and "@
            + match provider_key {
            Some(key) => key,
            None => "configured provider key"@,
        } + " removed"@),
{
    tool_catalog::law_tools_go_by_their_names("shell.exec"@);
}

} // verus!

//! What the desktop shell shows: which workspace it opens, what it asks of the daemon there, and the
//! data that it hands to its window.
use crate::daemon::messages;
use crate::daemon::messages::{HelloResult, SessionSummary, SummaryView};
use crate::daemon::transcript;
use crate::daemon::transcript::{
    EntryView, TranscriptReadResult, TypedRun, TypedRunView, TypedTranscriptEntry,
};
use crate::gateway;
use crate::json;
use crate::json::{Field, FieldKind, Json, JsonView, ObjectBuilder};
use crate::paths;
use crate::members;
use crate::text;
use vstd::prelude::*;

verus! {

/// What the desktop shell needs a daemon to do.
pub open spec fn required_names() -> Seq<Seq<char>> {
    seq!["hello"@, "sessions.list"@, "transcript.read"@, "transcript.read.typed"@]
}

/// Whether a result is fine, or the error that it should be.
pub open spec fn error_is<T>(result: Result<T, String>, wanted: Option<Seq<char>>) -> bool {
    match wanted {
        None => result is Ok,
        Some(message) => result matches Err(error) && error@ == message,
    }
}

/// What is wrong with what a daemon can do.
pub open spec fn capability_complaint(capabilities: Seq<Seq<char>>) -> Option<Seq<char>> {
    match gateway::missing_capability(capabilities, required_names()) {
        Some(name) => Some("Incompatible daemon: missing required capability "@ + name),
        None => None,
    }
}

fn lacks(capabilities: &Vec<String>, name: &str) -> (r: bool)
    ensures
        r == !text::views(capabilities@).contains(name@),
{
    let there = text::contains(capabilities, name);
    proof {
        let views = text::views(capabilities@);
        if there {
            let k = choose|k: int|
                0 <= k < capabilities@.len() && (#[trigger] capabilities@[k])@ == name@;
            assert(views[k] == name@);
        } else if views.contains(name@) {
            let k = choose|k: int| 0 <= k < views.len() && views[k] == name@;
            assert(capabilities@[k]@ == name@);
        }
    }
    !there
}

/// Asks that a daemon can do all that the desktop shell needs.
pub fn require_capabilities(capabilities: &Vec<String>) -> (r: Result<(), String>)
    ensures
        error_is(r, capability_complaint(text::views(capabilities@))),
{
    let names = vec!["hello", "sessions.list", "transcript.read", "transcript.read.typed"];
    let ghost all = required_names();
    let ghost there = text::views(capabilities@);
    assert(gateway::name_views(names@) =~= all);
    assert(all.skip(0) =~= all);
    let mut i: usize = 0;
    while i < names.len()
        invariant
            0 <= i <= names@.len(),
            all == required_names(),
            all == gateway::name_views(names@),
            there == text::views(capabilities@),
            gateway::missing_capability(there, all) == gateway::missing_capability(
                there,
                all.skip(i as int),
            ),
        decreases names@.len() - i,
    {
        assert(all.skip(i as int)[0] == names@[i as int]@);
        assert(all.skip(i as int).skip(1) =~= all.skip(i + 1));
        if lacks(capabilities, names[i]) {
            return Err(
                text::text2("Incompatible daemon: missing required capability ", names[i]),
            );
        }
        i += 1;
    }
    assert(all.skip(all.len() as int).len() == 0);
    Ok(())
}

/// What is wrong with a greeting for the workspace at a canonical path.
pub open spec fn hello_complaint(
    workspace_root: Seq<char>,
    workspace_id: Seq<char>,
    capabilities: Seq<Seq<char>>,
) -> Option<Seq<char>> {
    let expected = paths::workspace_identity(workspace_root);
    if workspace_id != expected {
        Some(
            "Incompatible daemon: expected workspace "@ + expected + ", got "@ + workspace_id,
        )
    } else {
        capability_complaint(capabilities)
    }
}

/// Checks that a greeting is from the daemon of the workspace, and that it can do all that is needed.
pub fn validate_hello(workspace_root: &str, hello: &HelloResult) -> (r: Result<(), String>)
    ensures
        error_is(
            r,
            hello_complaint(workspace_root@, hello.workspace_id@, text::views(hello.capabilities@)),
        ),
{
    let expected = paths::workspace_id_from_canonical_path(workspace_root);
    if !text::same_text(hello.workspace_id.as_str(), expected.as_str()) {
        return Err(
            text::text4(
                "Incompatible daemon: expected workspace ",
                expected.as_str(),
                ", got ",
                hello.workspace_id.as_str(),
            ),
        );
    }
    require_capabilities(&hello.capabilities)
}

/// A session as the window shows it.
#[derive(Debug, PartialEq, Eq)]
pub struct DesktopSession {
    pub session_id: String,
    pub run_id: String,
    pub status: crate::daemon::protocol::RunStateName,
    pub latest_question: String,
}

/// A session as it is handed to the window: nothing is said of where its ledger lies.
pub open spec fn session_json(session: SummaryView) -> JsonView {
    JsonView::Object(
        json::no_members().push(("sessionId"@, JsonView::Text(session.session_id))).push(
            ("runId"@, JsonView::Text(session.run_id)),
        ).push(("status"@, JsonView::Text(session.status.wire()))).push(
            ("latestQuestion"@, JsonView::Text(session.latest_question)),
        ),
    )
}

impl DesktopSession {
    /// A session that the daemon listed, as the window shows it.
    pub fn from_summary(session: SessionSummary) -> (r: DesktopSession)
        ensures
            r.session_id == session.session_id,
            r.run_id == session.run_id,
            r.status == session.status,
            r.latest_question == session.latest_question,
    {
        DesktopSession {
            session_id: session.session_id,
            run_id: session.run_id,
            status: session.status,
            latest_question: session.latest_question,
        }
    }

    /// The session as it is handed to the window.
    pub fn to_json(&self) -> (r: Json)
        ensures
            forall|summary: SummaryView|
                summary.session_id == self.session_id@ && summary.run_id == self.run_id@
                    && summary.status == self.status && summary.latest_question
                    == self.latest_question@ ==> r@ == #[trigger] session_json(summary),
    {
        ObjectBuilder::new().text("sessionId", self.session_id.as_str()).text(
            "runId",
            self.run_id.as_str(),
        ).text("status", self.status.as_str()).text(
            "latestQuestion",
            self.latest_question.as_str(),
        ).build()
    }
}

/// An entry as it is handed to the window.
pub open spec fn entry_shown(entry: EntryView) -> JsonView {
    let none = json::no_members();
    JsonView::Object(
        match entry {
            EntryView::User { text } => none.push(("kind"@, JsonView::Text("user"@))).push(
                ("text"@, JsonView::Text(text)),
            ),
            EntryView::Assistant { text } => none.push(
                ("kind"@, JsonView::Text("assistant"@)),
            ).push(("text"@, JsonView::Text(text))),
            EntryView::ToolCall { call_id, tool, input } => none.push(
                ("kind"@, JsonView::Text("tool_call"@)),
            ).push(("callId"@, JsonView::Text(call_id))).push(
                ("tool"@, JsonView::Text(tool)),
            ).push(("input"@, input)),
            EntryView::ToolResult { call_id, summary } => none.push(
                ("kind"@, JsonView::Text("tool_result"@)),
            ).push(("callId"@, JsonView::Text(call_id))).push(
                ("summary"@, JsonView::Text(summary)),
            ),
            EntryView::Approval { call_id, decision, actor_id, reason } => none.push(
                ("kind"@, JsonView::Text("approval"@)),
            ).push(("callId"@, JsonView::Text(call_id))).push(
                ("decision"@, JsonView::Text(decision.wire())),
            ).push(("actorId"@, JsonView::Text(actor_id))).push(
                ("reason"@, messages::text_or_null(reason)),
            ),
            EntryView::PolicyDenied { call_id, reason } => none.push(
                ("kind"@, JsonView::Text("policy_denied"@)),
            ).push(("callId"@, JsonView::Text(call_id))).push(
                ("reason"@, JsonView::Text(reason)),
            ),
            EntryView::ToolFailed { call_id, error } => none.push(
                ("kind"@, JsonView::Text("tool_failed"@)),
            ).push(("callId"@, JsonView::Text(call_id))).push(("error"@, JsonView::Text(error))),
        },
    )
}

fn entry_to_json(entry: &TypedTranscriptEntry) -> (r: Json)
    ensures
        r@ == entry_shown(entry@),
{
    let object = ObjectBuilder::new();
    match entry {
        TypedTranscriptEntry::User { text } => object.text("kind", "user").text(
            "text",
            text.as_str(),
        ).build(),
        TypedTranscriptEntry::Assistant { text } => object.text("kind", "assistant").text(
            "text",
            text.as_str(),
        ).build(),
        TypedTranscriptEntry::ToolCall { call_id, tool, input } => object.text(
            "kind",
            "tool_call",
        ).text("callId", call_id.as_str()).text("tool", tool.as_str()).with(
            "input",
            input.clone(),
        ).build(),
        TypedTranscriptEntry::ToolResult { call_id, summary } => object.text(
            "kind",
            "tool_result",
        ).text("callId", call_id.as_str()).text("summary", summary.as_str()).build(),
        TypedTranscriptEntry::Approval { call_id, decision, actor_id, reason } => object.text(
            "kind",
            "approval",
        ).text("callId", call_id.as_str()).text("decision", decision.as_str()).text(
            "actorId",
            actor_id.as_str(),
        ).with("reason", Json::optional_text(reason)).build(),
        TypedTranscriptEntry::PolicyDenied { call_id, reason } => object.text(
            "kind",
            "policy_denied",
        ).text("callId", call_id.as_str()).text("reason", reason.as_str()).build(),
        TypedTranscriptEntry::ToolFailed { call_id, error } => object.text(
            "kind",
            "tool_failed",
        ).text("callId", call_id.as_str()).text("error", error.as_str()).build(),
    }
}

/// Entries as they are handed to the window.
pub open spec fn entries_shown(entries: Seq<EntryView>) -> Seq<JsonView> {
    Seq::new(entries.len(), |i: int| entry_shown(entries[i]))
}

/// A run as it is handed to the window.
pub open spec fn run_json(run: TypedRunView) -> JsonView {
    JsonView::Object(
        json::no_members().push(("runId"@, JsonView::Text(run.run_id))).push(
            ("sessionIndex"@, JsonView::Number(text::decimal(run.session_index as nat))),
        ).push(("status"@, JsonView::Text(run.status.wire()))).push(
            ("entries"@, JsonView::Array(entries_shown(run.entries))),
        ),
    )
}

/// A run as the window shows it.
#[derive(Debug, PartialEq, Eq)]
pub struct DesktopRun {
    pub run: TypedRun,
}

impl DesktopRun {
    /// The run as it is handed to the window.
    pub fn to_json(&self) -> (r: Json)
        ensures
            r@ == run_json(self.run@),
    {
        let ghost entries = self.run@.entries;
        let ghost wanted = entries_shown(entries);
        let mut shown: Vec<Json> = Vec::new();
        assert(json::json_views(shown@) =~= wanted.take(0));
        let mut i: usize = 0;
        assert(entries.len() == self.run.entries@.len());
        while i < self.run.entries.len()
            invariant
                0 <= i <= self.run.entries@.len(),
                entries == self.run@.entries,
                entries.len() == self.run.entries@.len(),
                wanted == entries_shown(entries),
                json::json_views(shown@) == wanted.take(i as int),
            decreases self.run.entries@.len() - i,
        {
            let ghost before = json::json_views(shown@);
            assert(entries[i as int] == self.run.entries@[i as int]@);
            shown.push(entry_to_json(&self.run.entries[i]));
            assert(json::json_views(shown@) =~= before.push(wanted[i as int]));
            assert(wanted.take(i + 1) =~= before.push(wanted[i as int]));
            i += 1;
        }
        assert(wanted.take(wanted.len() as int) =~= wanted);
        ObjectBuilder::new().text("runId", self.run.run_id.as_str()).number(
            "sessionIndex",
            self.run.session_index,
        ).text("status", self.run.status.as_str()).with("entries", Json::array(shown)).build()
    }
}

/// What is wrong with the typed runs that came for one run.
pub open spec fn runs_complaint(expected: Seq<char>, runs: Option<Seq<TypedRunView>>) -> Option<
    Seq<char>,
> {
    match runs {
        None => Some("Incompatible daemon: transcript.read returned no typed payload"@),
        Some(runs) => if runs.len() != 1 {
            Some(
                "Incompatible daemon: exact-run transcript returned "@ + text::decimal(runs.len())
                    + " runs"@,
            )
        } else if runs[0].run_id != expected {
            Some(
                "Incompatible daemon: requested run "@ + expected + ", got "@ + runs[0].run_id,
            )
        } else {
            None
        },
    }
}

/// The typed runs in a transcript.
pub open spec fn typed_runs(transcript: TranscriptReadResult) -> Option<Seq<TypedRunView>> {
    match transcript.typed {
        Some(typed) => Some(transcript::run_views(typed.runs@)),
        None => None,
    }
}

/// The run that was asked for, out of its transcript. Only a typed run will do, and only that one.
pub fn extract_typed_run(expected_run_id: &str, transcript: TranscriptReadResult) -> (r: Result<
    DesktopRun,
    String,
>)
    ensures
        error_is(r, runs_complaint(expected_run_id@, typed_runs(transcript))),
        r matches Ok(run) ==> run.run@ == typed_runs(transcript)->Some_0[0],
{
    let typed = match transcript.typed {
        Some(typed) => typed,
        None => {
            return Err(
                "Incompatible daemon: transcript.read returned no typed payload".to_owned(),
            );
        },
    };
    assert(transcript::run_views(typed.runs@).len() == typed.runs@.len());
    if typed.runs.len() != 1 {
        return Err(
            text::text3(
                "Incompatible daemon: exact-run transcript returned ",
                text::decimal_usize(typed.runs.len()).as_str(),
                " runs",
            ),
        );
    }
    let mut runs = typed.runs;
    assert(transcript::run_views(typed.runs@)[0] == runs@[0]@);
    let run = runs.remove(0);
    if !text::same_text(run.run_id.as_str(), expected_run_id) {
        return Err(
            text::text4(
                "Incompatible daemon: requested run ",
                expected_run_id,
                ", got ",
                run.run_id.as_str(),
            ),
        );
    }
    Ok(DesktopRun { run })
}

/// What the window shows first: that a workspace is needed, or what is in it.
#[derive(Debug, PartialEq, Eq)]
pub enum BootstrapView {
    NeedsWorkspace { reason: Option<String> },
    Ready {
        workspace_root: String,
        daemon_version: String,
        sessions: Vec<DesktopSession>,
        selected_run: Option<DesktopRun>,
    },
}

/// What the window is handed first.
pub open spec fn bootstrap_json(view: BootstrapView) -> JsonView {
    JsonView::Object(
        match view {
            BootstrapView::NeedsWorkspace { reason } => json::no_members().push(
                ("state"@, JsonView::Text("needs_workspace"@)),
            ).push(("reason"@, messages::text_or_null(text::opt_view(reason)))),
            BootstrapView::Ready { workspace_root, daemon_version, sessions, selected_run } => {
                json::no_members().push(("state"@, JsonView::Text("ready"@))).push(
                    ("workspaceRoot"@, JsonView::Text(workspace_root@)),
                ).push(("daemonVersion"@, JsonView::Text(daemon_version@))).push(
                    ("sessions"@, JsonView::Array(sessions_shown(sessions@))),
                ).push(
                    (
                        "selectedRun"@,
                        match selected_run {
                            Some(run) => run_json(run.run@),
                            None => JsonView::Null,
                        },
                    ),
                )
            },
        },
    )
}

/// Sessions as they are handed to the window.
pub open spec fn sessions_shown(sessions: Seq<DesktopSession>) -> Seq<JsonView> {
    Seq::new(
        sessions.len(),
        |i: int|
            session_json(
                SummaryView {
                    session_id: sessions[i].session_id@,
                    run_id: sessions[i].run_id@,
                    status: sessions[i].status,
                    latest_question: sessions[i].latest_question@,
                    ledger_path: Seq::empty(),
                },
            ),
    )
}

fn sessions_to_json(sessions: &Vec<DesktopSession>) -> (r: Json)
    ensures
        r@ == JsonView::Array(sessions_shown(sessions@)),
{
    let ghost wanted = sessions_shown(sessions@);
    let mut shown: Vec<Json> = Vec::new();
    assert(json::json_views(shown@) =~= wanted.take(0));
    let mut i: usize = 0;
    while i < sessions.len()
        invariant
            0 <= i <= sessions@.len(),
            wanted == sessions_shown(sessions@),
            json::json_views(shown@) == wanted.take(i as int),
        decreases sessions@.len() - i,
    {
        let ghost before = json::json_views(shown@);
        shown.push(sessions[i].to_json());
        assert(json::json_views(shown@) =~= before.push(wanted[i as int]));
        assert(wanted.take(i + 1) =~= before.push(wanted[i as int]));
        i += 1;
    }
    assert(wanted.take(wanted.len() as int) =~= wanted);
    Json::array(shown)
}

impl BootstrapView {
    /// The view as it is handed to the window.
    pub fn to_json(&self) -> (r: Json)
        ensures
            r@ == bootstrap_json(*self),
    {
        match self {
            BootstrapView::NeedsWorkspace { reason } => ObjectBuilder::new().text(
                "state",
                "needs_workspace",
            ).with("reason", Json::optional_text(reason)).build(),
            BootstrapView::Ready { workspace_root, daemon_version, sessions, selected_run } => {
                let selected = match selected_run {
                    Some(run) => run.to_json(),
                    None => Json::Null,
                };
                ObjectBuilder::new().text("state", "ready").text(
                    "workspaceRoot",
                    workspace_root.as_str(),
                ).text("daemonVersion", daemon_version.as_str()).with(
                    "sessions",
                    sessions_to_json(sessions),
                ).with("selectedRun", selected).build()
            },
        }
    }
}

/// The sessions of a list, in its order, as the window shows them.
pub fn desktop_sessions(summaries: Vec<SessionSummary>) -> (r: Vec<DesktopSession>)
    ensures
        r@.len() == summaries@.len(),
        forall|i: int|
            0 <= i < r@.len() ==> (#[trigger] r@[i]).session_id@ == summaries@[i].session_id@
                && r@[i].run_id@ == summaries@[i].run_id@ && r@[i].status == summaries@[i].status
                && r@[i].latest_question@ == summaries@[i].latest_question@,
{
    let mut r: Vec<DesktopSession> = Vec::new();
    let mut i: usize = 0;
    while i < summaries.len()
        invariant
            0 <= i <= summaries@.len(),
            r@.len() == i,
            forall|j: int|
                0 <= j < i ==> (#[trigger] r@[j]).session_id@ == summaries@[j].session_id@
                    && r@[j].run_id@ == summaries@[j].run_id@ && r@[j].status
                    == summaries@[j].status && r@[j].latest_question@
                    == summaries@[j].latest_question@,
        decreases summaries@.len() - i,
    {
        let summary = &summaries[i];
        r.push(
            DesktopSession {
                session_id: summary.session_id.clone(),
                run_id: summary.run_id.clone(),
                status: summary.status,
                latest_question: summary.latest_question.clone(),
            },
        );
        i += 1;
    }
    r
}

/// What was tried when something went wrong.
#[derive(Debug, PartialEq, Eq)]
pub enum Attempt {
    Resolve,
    Connect,
    Greet,
    ListSessions,
    ReadRun { run_id: String },
}

/// What is said of an attempt that failed.
pub open spec fn attempt_words(attempt: Attempt, error: Seq<char>) -> Seq<char> {
    match attempt {
        Attempt::Resolve => "Workspace is invalid: "@ + error,
        Attempt::Connect => "Unable to connect to plato-agentd: "@ + error,
        Attempt::Greet => "Daemon hello failed: "@ + error,
        Attempt::ListSessions => "Unable to list daemon sessions: "@ + error,
        Attempt::ReadRun { run_id } => "Unable to read run "@ + run_id@ + ": "@ + error,
    }
}

/// What is said of an attempt that failed.
pub fn attempt_failed(attempt: &Attempt, error: &str) -> (r: String)
    ensures
        r@ == attempt_words(*attempt, error@),
{
    match attempt {
        Attempt::Resolve => text::text2("Workspace is invalid: ", error),
        Attempt::Connect => text::text2("Unable to connect to plato-agentd: ", error),
        Attempt::Greet => text::text2("Daemon hello failed: ", error),
        Attempt::ListSessions => text::text2("Unable to list daemon sessions: ", error),
        Attempt::ReadRun { run_id } => text::text4(
            "Unable to read run ",
            run_id.as_str(),
            ": ",
            error,
        ),
    }
}

/// What came of reading the file with the chosen workspace.
#[derive(Debug, PartialEq, Eq)]
pub enum SavedFile {
    Missing,
    Failed(String),
    /// What the file holds; nothing where that is no Unicode.
    Read(Option<String>),
}

/// The chosen workspace: none, one that cannot be opened, or the path of one.
#[derive(Debug, PartialEq, Eq)]
pub enum SavedWorkspaceState {
    Missing,
    Invalid(String),
    Ready(String),
}

/// The fields of a chosen workspace.
pub open spec fn saved_fields() -> Seq<Field> {
    seq![Field { name: "workspace_root", kind: FieldKind::Text }]
}

/// The names of the fields of a chosen workspace; none may stand in it twice.
pub open spec fn saved_names() -> Seq<Seq<char>> {
    text::str_views(seq!["workspace_root"])
}

/// The path in the text of a chosen workspace.
pub open spec fn saved_root(text: Option<Seq<char>>) -> Option<Seq<char>> {
    match text {
        None => None,
        Some(text) => match json::json_parsed(text) {
            Err(_) => None,
            Ok(value) => {
                let value = json::by_name(value, saved_fields(), 1);
                if members::repeated_in(text, saved_names()) is None && json::conforms(
                    value,
                    saved_fields(),
                ) {
                    json::text_in(json::member_of(value, "workspace_root"@))
                } else {
                    None
                }
            },
        },
    }
}

/// A workspace as it is saved.
pub open spec fn saved_json(path: Seq<char>) -> JsonView {
    JsonView::Object(json::no_members().push(("workspace_root"@, JsonView::Text(path))))
}

proof fn lemma_saved_root(path: Seq<char>, read: JsonView)
    requires
        json::same_value(saved_json(path), read),
    ensures
        read is Object,
        json::conforms(read, saved_fields()),
        json::text_in(json::member_of(read, "workspace_root"@)) == Some(path),
{
    let value = saved_json(path);
    let members = json::no_members().push(("workspace_root"@, JsonView::Text(path)));
    json::lemma_first_member_push(
        json::no_members(),
        ("workspace_root"@, JsonView::Text(path)),
        "workspace_root"@,
    );
    let fields = saved_fields();
    assert(fields[0].name@ == "workspace_root"@);
    assert(value == JsonView::Object(members));
    assert forall|i: int| 0 <= i < members.len() implies json::has_field(
        fields,
        (#[trigger] members[i]).0,
    ) by {
        assert(fields[0].name@ == members[0].0);
    }
    assert(json::conforms(value, fields));
    json::lemma_same_fields(value, read, fields);
    json::lemma_same_members(value, read, "workspace_root"@);
}

/// The path in the file with the chosen workspace, or the state where there is none. A path that was
/// saved is read back.
pub fn read_saved_root(file: SavedFile) -> (r: Result<String, SavedWorkspaceState>)
    ensures
        match file {
            SavedFile::Missing => r == Err::<String, SavedWorkspaceState>(
                SavedWorkspaceState::Missing,
            ),
            SavedFile::Failed(error) => r matches Err(SavedWorkspaceState::Invalid(reason))
                && reason@ == "Saved workspace could not be read: "@ + error@,
            SavedFile::Read(text) => match saved_root(text::opt_view(text)) {
                Some(path) => r matches Ok(given) && given@ == path,
                None => r matches Err(SavedWorkspaceState::Invalid(reason)) && reason@
                    == "Saved workspace is invalid"@,
            },
        },
        file matches SavedFile::Read(Some(text)) ==> forall|path: Seq<char>| #[trigger]
            json::json_text(saved_json(path)) == text@ ==> (r matches Ok(given) && given@ == path),
{
    match file {
        SavedFile::Missing => Err(SavedWorkspaceState::Missing),
        SavedFile::Failed(error) => Err(
            SavedWorkspaceState::Invalid(
                text::text2("Saved workspace could not be read: ", error.as_str()),
            ),
        ),
        SavedFile::Read(None) => Err(
            SavedWorkspaceState::Invalid("Saved workspace is invalid".to_owned()),
        ),
        SavedFile::Read(Some(text)) => read_saved_text(text),
    }
}

fn read_saved_text(text: String) -> (r: Result<String, SavedWorkspaceState>)
    ensures
        match saved_root(Some(text@)) {
            Some(path) => r matches Ok(given) && given@ == path,
            None => r matches Err(SavedWorkspaceState::Invalid(reason)) && reason@
                == "Saved workspace is invalid"@,
        },
        forall|path: Seq<char>| #[trigger]
            json::json_text(saved_json(path)) == text@ ==> (r matches Ok(given) && given@ == path),
{
    let parsed = Json::parse(text.as_str());
    let known = vec!["workspace_root"];
    assert(text::str_views(known@) =~= saved_names());
    let repeated = members::repeated_member(text.as_str(), &known);
    proof {
        assert forall|path: Seq<char>| #[trigger]
            json::json_text(saved_json(path)) == text@ implies parsed is Ok && repeated is None
            && parsed->Ok_0@ is Object
            && json::conforms(parsed->Ok_0@, saved_fields()) && json::text_in(
            json::member_of(parsed->Ok_0@, "workspace_root"@),
        ) == Some(path) by {
            let value = saved_json(path);
            let members = value->Object_0;
            assert(members.len() == 1);
            assert(members[0].1 == JsonView::Text(path));
            assert(json::printable(members[0].1, (json::depth_limit() - 1) as nat));
            assert(json::printable(value, json::depth_limit()));
            lemma_saved_root(path, parsed->Ok_0@);
        }
    }
    match parsed {
        Err(_) => Err(SavedWorkspaceState::Invalid("Saved workspace is invalid".to_owned())),
        Ok(value) => {
            let fields = vec![Field { name: "workspace_root", kind: FieldKind::Text }];
            assert(fields@ =~= saved_fields());
            if repeated.is_some() || value.check_fields("SavedWorkspace", &fields, 1).is_err() {
                return Err(
                    SavedWorkspaceState::Invalid("Saved workspace is invalid".to_owned()),
                );
            }
            let value = value.by_name(&fields, 1);
            match value.text_member("workspace_root") {
                Some(path) => Ok(path),
                None => Err(
                    SavedWorkspaceState::Invalid("Saved workspace is invalid".to_owned()),
                ),
            }
        },
    }
}

/// The chosen workspace, once its path was followed: `found` is the canonical path and whether a
/// directory is there.
pub fn saved_workspace(found: Option<(String, bool)>) -> (r: SavedWorkspaceState)
    ensures
        match found {
            Some((path, true)) => r == SavedWorkspaceState::Ready(path),
            _ => r matches SavedWorkspaceState::Invalid(reason) && reason@
                == "Saved workspace no longer exists"@,
        },
{
    match found {
        Some((path, true)) => SavedWorkspaceState::Ready(path),
        _ => SavedWorkspaceState::Invalid("Saved workspace no longer exists".to_owned()),
    }
}

/// What the window shows where no workspace can be opened, or the path of the one that can.
pub fn bootstrap_choice(state: SavedWorkspaceState) -> (r: Result<String, BootstrapView>)
    ensures
        match state {
            SavedWorkspaceState::Ready(path) => r == Ok::<String, BootstrapView>(path),
            SavedWorkspaceState::Missing => r == Err::<String, BootstrapView>(
                BootstrapView::NeedsWorkspace { reason: None },
            ),
            SavedWorkspaceState::Invalid(reason) => r == Err::<String, BootstrapView>(
                BootstrapView::NeedsWorkspace { reason: Some(reason) },
            ),
        },
{
    match state {
        SavedWorkspaceState::Ready(path) => Ok(path),
        SavedWorkspaceState::Missing => Err(BootstrapView::NeedsWorkspace { reason: None }),
        SavedWorkspaceState::Invalid(reason) => Err(
            BootstrapView::NeedsWorkspace { reason: Some(reason) },
        ),
    }
}

/// The workspace in which a run is read.
pub fn run_workspace(state: SavedWorkspaceState) -> (r: Result<String, String>)
    ensures
        match state {
            SavedWorkspaceState::Ready(path) => r == Ok::<String, String>(path),
            _ => r matches Err(error) && error@ == "No valid workspace is selected"@,
        },
{
    match state {
        SavedWorkspaceState::Ready(path) => Ok(path),
        _ => Err("No valid workspace is selected".to_owned()),
    }
}

/// What is saved of a workspace that was picked. `found` is what came of following its path: the
/// canonical path, nothing where that is no Unicode, and whether a directory is there; or an error.
pub fn persisted_workspace(found: Result<(Option<String>, bool), String>) -> (r: Result<
    (String, String),
    String,
>)
    ensures
        match found {
            Err(error) => r matches Err(message) && message@ == "Workspace cannot be resolved: "@
                + error@,
            Ok((_, false)) => r matches Err(message) && message@
                == "Selected workspace is not a directory"@,
            Ok((None, true)) => r matches Err(message) && message@
                == "Workspace path must be valid UTF-8"@,
            Ok((Some(path), true)) => r matches Ok(saved) && saved.0 == path && saved.1@
                == json::json_text(saved_json(path@)),
        },
{
    match found {
        Err(error) => Err(text::text2("Workspace cannot be resolved: ", error.as_str())),
        Ok((path, is_dir)) => {
            if !is_dir {
                return Err("Selected workspace is not a directory".to_owned());
            }
            match path {
                None => Err("Workspace path must be valid UTF-8".to_owned()),
                Some(path) => {
                    let saved = ObjectBuilder::new().text("workspace_root", path.as_str()).build();
                    Ok((path, saved.render()))
                },
            }
        },
    }
}

/// What the window is handed of a session says nothing of where its ledger lies.
pub proof fn law_sessions_hide_their_ledger(first: SummaryView, second: SummaryView)
    requires
        first == (SummaryView { ledger_path: first.ledger_path, ..second }),
    ensures
        session_json(first) == session_json(second),
{
}

/// The desktop is told of each entry what it was and what it holds.
pub proof fn law_entries_are_shown_by_name(
    call_id: Seq<char>,
    said: Seq<char>,
    tool: Seq<char>,
    input: JsonView,
    decision: transcript::ApprovalDecisionName,
    actor_id: Seq<char>,
)
    ensures
        entry_shown(EntryView::User { text: said }) matches JsonView::Object(m)
            && m.len() == 2
            && m[0] == ("kind"@, JsonView::Text("user"@))
            && m[1] == ("text"@, JsonView::Text(said)),
        entry_shown(EntryView::Assistant { text: said }) matches JsonView::Object(m)
            && m.len() == 2
            && m[0] == ("kind"@, JsonView::Text("assistant"@))
            && m[1] == ("text"@, JsonView::Text(said)),
        entry_shown(EntryView::ToolCall { call_id, tool, input }) matches JsonView::Object(m)
            && m.len() == 4
            && m[0] == ("kind"@, JsonView::Text("tool_call"@))
            && m[1] == ("callId"@, JsonView::Text(call_id))
            && m[2] == ("tool"@, JsonView::Text(tool))
            && m[3] == ("input"@, input),
        entry_shown(EntryView::ToolResult { call_id, summary: said }) matches JsonView::Object(m)
            && m.len() == 3
            && m[0] == ("kind"@, JsonView::Text("tool_result"@))
            && m[1] == ("callId"@, JsonView::Text(call_id))
            && m[2] == ("summary"@, JsonView::Text(said)),
        entry_shown(EntryView::Approval { call_id, decision, actor_id, reason: Some(said) }) matches JsonView::Object(m)
            && m.len() == 5
            && m[0] == ("kind"@, JsonView::Text("approval"@))
            && m[1] == ("callId"@, JsonView::Text(call_id))
            && m[2] == (
                "decision"@,
                JsonView::Text(if decision == transcript::ApprovalDecisionName::Granted { "granted"@ } else { "denied"@ }),
            )
            && m[3] == ("actorId"@, JsonView::Text(actor_id))
            && m[4] == ("reason"@, JsonView::Text(said)),
        entry_shown(EntryView::PolicyDenied { call_id, reason: said }) matches JsonView::Object(m)
            && m.len() == 3
            && m[0] == ("kind"@, JsonView::Text("policy_denied"@))
            && m[1] == ("callId"@, JsonView::Text(call_id))
            && m[2] == ("reason"@, JsonView::Text(said)),
        entry_shown(EntryView::ToolFailed { call_id, error: said }) matches JsonView::Object(m)
            && m.len() == 3
            && m[0] == ("kind"@, JsonView::Text("tool_failed"@))
            && m[1] == ("callId"@, JsonView::Text(call_id))
            && m[2] == ("error"@, JsonView::Text(said)),
{
    let m0 = entry_shown(EntryView::User { text: said })->Object_0;
    assert(m0[0] == ("kind"@, JsonView::Text("user"@)));
    assert(m0[1] == ("text"@, JsonView::Text(said)));
    let m1 = entry_shown(EntryView::Assistant { text: said })->Object_0;
    assert(m1[0] == ("kind"@, JsonView::Text("assistant"@)));
    assert(m1[1] == ("text"@, JsonView::Text(said)));
    let m2 = entry_shown(EntryView::ToolCall { call_id, tool, input })->Object_0;
    assert(m2[0] == ("kind"@, JsonView::Text("tool_call"@)));
    assert(m2[1] == ("callId"@, JsonView::Text(call_id)));
    assert(m2[2] == ("tool"@, JsonView::Text(tool)));
    assert(m2[3] == ("input"@, input));
    let m3 = entry_shown(EntryView::ToolResult { call_id, summary: said })->Object_0;
    assert(m3[0] == ("kind"@, JsonView::Text("tool_result"@)));
    assert(m3[1] == ("callId"@, JsonView::Text(call_id)));
    assert(m3[2] == ("summary"@, JsonView::Text(said)));
    let m4 = entry_shown(EntryView::Approval { call_id, decision, actor_id, reason: Some(said) })->Object_0;
    assert(m4[0] == ("kind"@, JsonView::Text("approval"@)));
    assert(m4[1] == ("callId"@, JsonView::Text(call_id)));
    assert(m4[2] == (
        "decision"@,
        JsonView::Text(if decision == transcript::ApprovalDecisionName::Granted { "granted"@ } else { "denied"@ }),
    ));
    assert(m4[3] == ("actorId"@, JsonView::Text(actor_id)));
    assert(m4[4] == ("reason"@, JsonView::Text(said)));
    let m5 = entry_shown(EntryView::PolicyDenied { call_id, reason: said })->Object_0;
    assert(m5[0] == ("kind"@, JsonView::Text("policy_denied"@)));
    assert(m5[1] == ("callId"@, JsonView::Text(call_id)));
    assert(m5[2] == ("reason"@, JsonView::Text(said)));
    let m6 = entry_shown(EntryView::ToolFailed { call_id, error: said })->Object_0;
    assert(m6[0] == ("kind"@, JsonView::Text("tool_failed"@)));
    assert(m6[1] == ("callId"@, JsonView::Text(call_id)));
    assert(m6[2] == ("error"@, JsonView::Text(said)));
}

/// The desktop is told of each session its latest run, how that stands and what was asked last, and of a
/// run its place in the session and its entries in order.
pub proof fn law_sessions_are_shown_by_name(session: SummaryView, run: TypedRunView)
    ensures
        session_json(session) matches JsonView::Object(m)
            && m.len() == 4
            && m[0] == ("sessionId"@, JsonView::Text(session.session_id))
            && m[1] == ("runId"@, JsonView::Text(session.run_id))
            && m[2] == ("status"@, JsonView::Text(session.status.wire()))
            && m[3] == ("latestQuestion"@, JsonView::Text(session.latest_question)),
        run_json(run) matches JsonView::Object(m)
            && m.len() == 4
            && m[0] == ("runId"@, JsonView::Text(run.run_id))
            && m[1] == ("sessionIndex"@, JsonView::Number(text::decimal(run.session_index as nat)))
            && m[2] == ("status"@, JsonView::Text(run.status.wire()))
            && m[3] == (
                "entries"@,
                JsonView::Array(Seq::new(run.entries.len(), |i: int| entry_shown(run.entries[i]))),
            ),
{
    let m0 = session_json(session)->Object_0;
    assert(m0[0] == ("sessionId"@, JsonView::Text(session.session_id)));
    assert(m0[1] == ("runId"@, JsonView::Text(session.run_id)));
    assert(m0[2] == ("status"@, JsonView::Text(session.status.wire())));
    assert(m0[3] == ("latestQuestion"@, JsonView::Text(session.latest_question)));
    let m1 = run_json(run)->Object_0;
    assert(m1[0] == ("runId"@, JsonView::Text(run.run_id)));
    assert(m1[1] == ("sessionIndex"@, JsonView::Number(text::decimal(run.session_index as nat))));
    assert(m1[2] == ("status"@, JsonView::Text(run.status.wire())));
    assert(m1[3] == (
        "entries"@,
        JsonView::Array(Seq::new(run.entries.len(), |i: int| entry_shown(run.entries[i]))),
    ));
}

/// A daemon is taken exactly where it serves the workspace and can do all that the desktop needs.
pub proof fn law_only_fitting_daemons_are_taken(
    workspace_root: Seq<char>,
    workspace_id: Seq<char>,
    capabilities: Seq<Seq<char>>,
)
    ensures
        hello_complaint(workspace_root, workspace_id, capabilities) is None <==> workspace_id
            == paths::workspace_identity(workspace_root) && capabilities.contains("hello"@)
            && capabilities.contains("sessions.list"@) && capabilities.contains("transcript.read"@)
            && capabilities.contains("transcript.read.typed"@),
{
    let names = required_names();
    gateway::law_lacking_capabilities_are_named(capabilities, names);
    assert(names[0] == "hello"@ && names[1] == "sessions.list"@ && names[2] == "transcript.read"@
        && names[3] == "transcript.read.typed"@);
}

/// A transcript is taken exactly where it holds one run, which is the one that was asked for.
pub proof fn law_only_the_asked_run_is_taken(expected: Seq<char>, runs: Option<Seq<TypedRunView>>)
    ensures
        runs_complaint(expected, runs) is None <==> (runs matches Some(runs) && runs.len() == 1
            && runs[0].run_id == expected),
{
}

/// What failed is named before the error: the workspace, the connection, the greeting, the sessions, or
/// the run.
pub proof fn law_failed_attempts_are_named(attempt: Attempt, error: Seq<char>)
    ensures
        match attempt {
            Attempt::Resolve => attempt_words(attempt, error) == "Workspace is invalid: "@ + error,
            Attempt::Connect => attempt_words(attempt, error)
                == "Unable to connect to plato-agentd: "@ + error,
            Attempt::Greet => attempt_words(attempt, error) == "Daemon hello failed: "@ + error,
            Attempt::ListSessions => attempt_words(attempt, error)
                == "Unable to list daemon sessions: "@ + error,
            Attempt::ReadRun { run_id } => attempt_words(attempt, error) == "Unable to read run "@
                + run_id@ + ": "@ + error,
        },
{
}

/// The desktop is told that it needs a workspace, and why, or that it is ready, with the workspace, the
/// daemon, its sessions and the run that is selected.
pub proof fn law_the_desktop_is_told_its_state(view: BootstrapView)
    ensures
        bootstrap_json(view) matches JsonView::Object(m) && match view {
            BootstrapView::NeedsWorkspace { reason } => m.len() == 2 && m[0] == (
                "state"@,
                JsonView::Text("needs_workspace"@),
            ) && m[1] == (
                "reason"@,
                match reason {
                    Some(reason) => JsonView::Text(reason@),
                    None => JsonView::Null,
                },
            ),
            BootstrapView::Ready { workspace_root, daemon_version, sessions, selected_run } => m.len()
                == 5 && m[0] == ("state"@, JsonView::Text("ready"@)) && m[1] == (
                "workspaceRoot"@,
                JsonView::Text(workspace_root@),
            )
            && m[2] == ("daemonVersion"@, JsonView::Text(daemon_version@))
            && m[3].0 == "sessions"@
                && (m[3].1 matches JsonView::Array(items) && items.len() == sessions@.len()) && m[4]
                == (
                "selectedRun"@,
                match selected_run {
                    Some(run) => run_json(run.run@),
                    None => JsonView::Null,
                },
            ),
        },
{
    let m = bootstrap_json(view)->Object_0;
    match view {
        BootstrapView::NeedsWorkspace { reason } => {
            assert(m[0] == ("state"@, JsonView::Text("needs_workspace"@)));
            assert(m[1].0 == "reason"@);
        },
        BootstrapView::Ready { workspace_root, daemon_version, .. } => {
            assert(m[0] == ("state"@, JsonView::Text("ready"@)));
            assert(m[1] == ("workspaceRoot"@, JsonView::Text(workspace_root@)));
            assert(m[2] == ("daemonVersion"@, JsonView::Text(daemon_version@)));
            assert(m[3].0 == "sessions"@);
            assert(m[4].0 == "selectedRun"@);
        },
    }
}

/// The workspace that was saved is the one that is read: the path that the saved value holds, and none
/// where nothing was saved or it holds none.
pub proof fn law_saved_workspaces_are_read(saved: Seq<char>, value: JsonView, path: Seq<char>)
    requires
        json::json_parsed(saved) == Ok::<JsonView, Seq<char>>(value),
        value is Object,
    ensures
        saved_root(None) is None,
        saved_root(Some(saved)) matches Some(root) ==> json::text_in(
            json::member_of(value, "workspace_root"@),
        ) == Some(root),
        value == saved_json(path) && saved_root(Some(saved)) is Some ==> saved_root(Some(saved))
            == Some(path),
{
    if value == saved_json(path) {
        let m = saved_json(path)->Object_0;
        assert(m[0] == ("workspace_root"@, JsonView::Text(path)));
        json::lemma_distinct_members(m);
    }
}

} // verus!

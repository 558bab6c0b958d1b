//! The transcript of a run as the protocol carries it: as text, and entry by entry.
use crate::daemon::messages;
use crate::daemon::protocol;
use crate::daemon::protocol::RunStateName;
use crate::json;
use crate::json::{Field, FieldKind, Json, JsonView, ObjectBuilder};
use crate::shape;
use crate::shape::Kind;
use crate::text;
use vstd::prelude::*;

verus! {

/// What an approver said of a tool call.
#[derive(Clone, Copy, Debug, PartialEq, Eq, Structural)]
pub enum ApprovalDecisionName {
    Granted,
    Denied,
}

impl ApprovalDecisionName {
    /// The name of the decision.
    pub open spec fn wire(self) -> Seq<char> {
        match self {
            ApprovalDecisionName::Granted => "granted"@,
            ApprovalDecisionName::Denied => "denied"@,
        }
    }

    /// The name of the decision.
    pub fn as_str(self) -> (r: &'static str)
        ensures
            r@ == self.wire(),
    {
        match self {
            ApprovalDecisionName::Granted => "granted",
            ApprovalDecisionName::Denied => "denied",
        }
    }

    /// The decision that goes by `name`.
    pub fn from_name(name: &str) -> (r: Option<ApprovalDecisionName>)
        ensures
            r == decision_named(name@),
    {
        if text::same_text(name, "granted") {
            Some(ApprovalDecisionName::Granted)
        } else if text::same_text(name, "denied") {
            Some(ApprovalDecisionName::Denied)
        } else {
            None
        }
    }
}

/// The decision that goes by `name`.
pub open spec fn decision_named(name: Seq<char>) -> Option<ApprovalDecisionName> {
    if name == ApprovalDecisionName::Granted.wire() {
        Some(ApprovalDecisionName::Granted)
    } else if name == ApprovalDecisionName::Denied.wire() {
        Some(ApprovalDecisionName::Denied)
    } else {
        None
    }
}

/// One thing that was said or done in a run.
#[derive(Debug, PartialEq, Eq)]
pub enum TypedTranscriptEntry {
    User { text: String },
    Assistant { text: String },
    ToolCall { call_id: String, tool: String, input: Json },
    ToolResult { call_id: String, summary: String },
    Approval {
        call_id: String,
        decision: ApprovalDecisionName,
        actor_id: String,
        reason: Option<String>,
    },
    PolicyDenied { call_id: String, reason: String },
    ToolFailed { call_id: String, error: String },
}

/// What an entry stands for.
pub enum EntryView {
    User { text: Seq<char> },
    Assistant { text: Seq<char> },
    ToolCall { call_id: Seq<char>, tool: Seq<char>, input: JsonView },
    ToolResult { call_id: Seq<char>, summary: Seq<char> },
    Approval {
        call_id: Seq<char>,
        decision: ApprovalDecisionName,
        actor_id: Seq<char>,
        reason: Option<Seq<char>>,
    },
    PolicyDenied { call_id: Seq<char>, reason: Seq<char> },
    ToolFailed { call_id: Seq<char>, error: Seq<char> },
}

/// What entries stand for.
pub open spec fn entry_views(entries: Seq<TypedTranscriptEntry>) -> Seq<EntryView> {
    Seq::new(entries.len(), |i: int| entries[i]@)
}

/// An entry as it is sent.
pub open spec fn entry_json(entry: EntryView) -> JsonView {
    let none = json::no_members();
    JsonView::Object(
        match entry {
            EntryView::User { text } => none.push(("kind"@, JsonView::Text("user"@))).push(
                ("text"@, JsonView::Text(text)),
            ),
            EntryView::Assistant { text } => none.push(
                ("kind"@, JsonView::Text("assistant"@)),
            ).push(("text"@, JsonView::Text(text))),
            EntryView::ToolCall { call_id, tool, input } => none.push(
                ("call_id"@, JsonView::Text(call_id)),
            ).push(("input"@, input)).push(("kind"@, JsonView::Text("tool_call"@))).push(
                ("tool"@, JsonView::Text(tool)),
            ),
            EntryView::ToolResult { call_id, summary } => none.push(
                ("call_id"@, JsonView::Text(call_id)),
            ).push(("kind"@, JsonView::Text("tool_result"@))).push(
                ("summary"@, JsonView::Text(summary)),
            ),
            EntryView::Approval { call_id, decision, actor_id, reason } => none.push(
                ("actor_id"@, JsonView::Text(actor_id)),
            ).push(("call_id"@, JsonView::Text(call_id))).push(
                ("decision"@, JsonView::Text(decision.wire())),
            ).push(("kind"@, JsonView::Text("approval"@))).push(
                ("reason"@, messages::text_or_null(reason)),
            ),
            EntryView::PolicyDenied { call_id, reason } => none.push(
                ("call_id"@, JsonView::Text(call_id)),
            ).push(("kind"@, JsonView::Text("policy_denied"@))).push(
                ("reason"@, JsonView::Text(reason)),
            ),
            EntryView::ToolFailed { call_id, error } => none.push(
                ("call_id"@, JsonView::Text(call_id)),
            ).push(("error"@, JsonView::Text(error))).push(
                ("kind"@, JsonView::Text("tool_failed"@)),
            ),
        },
    )
}

/// The kinds of entries, and their fields in the order in which a list tells them.
pub open spec fn entry_kinds() -> Seq<(Seq<char>, Seq<Seq<char>>)> {
    seq![
        ("user"@, text::str_views(seq!["text"])),
        ("assistant"@, text::str_views(seq!["text"])),
        ("tool_call"@, text::str_views(seq!["call_id", "tool", "input"])),
        ("tool_result"@, text::str_views(seq!["call_id", "summary"])),
        ("approval"@, text::str_views(seq!["call_id", "decision", "actor_id", "reason"])),
        ("policy_denied"@, text::str_views(seq!["call_id", "reason"])),
        ("tool_failed"@, text::str_views(seq!["call_id", "error"])),
    ]
}

fn kinds_of_entries() -> (r: Vec<Kind>)
    ensures
        shape::kind_views(r@) == entry_kinds(),
{
    let r = vec![
        Kind { name: "user", fields: vec!["text"] },
        Kind { name: "assistant", fields: vec!["text"] },
        Kind { name: "tool_call", fields: vec!["call_id", "tool", "input"] },
        Kind { name: "tool_result", fields: vec!["call_id", "summary"] },
        Kind { name: "approval", fields: vec!["call_id", "decision", "actor_id", "reason"] },
        Kind { name: "policy_denied", fields: vec!["call_id", "reason"] },
        Kind { name: "tool_failed", fields: vec!["call_id", "error"] },
    ];
    proof {
        let rows = shape::kind_views(r@);
        let wanted = entry_kinds();
        assert forall|i: int| 0 <= i < 7 implies #[trigger] rows[i] == wanted[i] by {
            assert(rows[i].1 =~= wanted[i].1);
        }
        assert(rows =~= wanted);
    }
    r
}

/// The entry that a value is.
pub open spec fn entry_in(value: JsonView) -> Option<EntryView> {
    named_entry(shape::by_tag(value, "kind"@, entry_kinds()))
}

/// The entry that a value with its members named is.
pub open spec fn named_entry(value: JsonView) -> Option<EntryView> {
    let kind = json::text_in(json::member_of(value, "kind"@));
    let text = json::text_in(json::member_of(value, "text"@));
    let call_id = json::text_in(json::member_of(value, "call_id"@));
    let tool = json::text_in(json::member_of(value, "tool"@));
    let input = json::member_of(value, "input"@);
    let summary = json::text_in(json::member_of(value, "summary"@));
    let error = json::text_in(json::member_of(value, "error"@));
    let reason = json::member_of(value, "reason"@);
    let actor_id = json::text_in(json::member_of(value, "actor_id"@));
    let decision = match json::variant_in(json::member_of(value, "decision"@)) {
        Some(name) => decision_named(name),
        None => None,
    };
    if kind == Some("user"@) && text is Some {
        Some(EntryView::User { text: text->Some_0 })
    } else if kind == Some("assistant"@) && text is Some {
        Some(EntryView::Assistant { text: text->Some_0 })
    } else if kind == Some("tool_call"@) && call_id is Some && tool is Some && input is Some {
        Some(
            EntryView::ToolCall {
                call_id: call_id->Some_0,
                tool: tool->Some_0,
                input: input->Some_0,
            },
        )
    } else if kind == Some("tool_result"@) && call_id is Some && summary is Some {
        Some(EntryView::ToolResult { call_id: call_id->Some_0, summary: summary->Some_0 })
    } else if kind == Some("approval"@) && call_id is Some && decision is Some && actor_id is Some
        && json::field_fits(reason, FieldKind::OptionalText) {
        Some(
            EntryView::Approval {
                call_id: call_id->Some_0,
                decision: decision->Some_0,
                actor_id: actor_id->Some_0,
                reason: json::text_in(reason),
            },
        )
    } else if kind == Some("policy_denied"@) && call_id is Some && json::text_in(reason) is Some {
        Some(
            EntryView::PolicyDenied {
                call_id: call_id->Some_0,
                reason: json::text_in(reason)->Some_0,
            },
        )
    } else if kind == Some("tool_failed"@) && call_id is Some && error is Some {
        Some(EntryView::ToolFailed { call_id: call_id->Some_0, error: error->Some_0 })
    } else {
        None
    }
}

/// What an optional entry stands for.
pub open spec fn opt_entry(entry: Option<TypedTranscriptEntry>) -> Option<EntryView> {
    match entry {
        Some(entry) => Some(entry@),
        None => None,
    }
}

impl Clone for TypedTranscriptEntry {
    fn clone(&self) -> (r: TypedTranscriptEntry)
        ensures
            r@ == self@,
    {
        match self {
            TypedTranscriptEntry::User { text } => TypedTranscriptEntry::User {
                text: text.clone(),
            },
            TypedTranscriptEntry::Assistant { text } => TypedTranscriptEntry::Assistant {
                text: text.clone(),
            },
            TypedTranscriptEntry::ToolCall { call_id, tool, input } => {
                TypedTranscriptEntry::ToolCall {
                    call_id: call_id.clone(),
                    tool: tool.clone(),
                    input: input.clone(),
                }
            },
            TypedTranscriptEntry::ToolResult { call_id, summary } => {
                TypedTranscriptEntry::ToolResult {
                    call_id: call_id.clone(),
                    summary: summary.clone(),
                }
            },
            TypedTranscriptEntry::Approval { call_id, decision, actor_id, reason } => {
                TypedTranscriptEntry::Approval {
                    call_id: call_id.clone(),
                    decision: *decision,
                    actor_id: actor_id.clone(),
                    reason: text::copy_option(reason),
                }
            },
            TypedTranscriptEntry::PolicyDenied { call_id, reason } => {
                TypedTranscriptEntry::PolicyDenied {
                    call_id: call_id.clone(),
                    reason: reason.clone(),
                }
            },
            TypedTranscriptEntry::ToolFailed { call_id, error } => {
                TypedTranscriptEntry::ToolFailed { call_id: call_id.clone(), error: error.clone() }
            },
        }
    }
}

impl TypedTranscriptEntry {
    /// The entry that `self` stands for.
    pub open spec fn view(&self) -> EntryView {
        match self {
            TypedTranscriptEntry::User { text } => EntryView::User { text: text@ },
            TypedTranscriptEntry::Assistant { text } => EntryView::Assistant { text: text@ },
            TypedTranscriptEntry::ToolCall { call_id, tool, input } => EntryView::ToolCall {
                call_id: call_id@,
                tool: tool@,
                input: input@,
            },
            TypedTranscriptEntry::ToolResult { call_id, summary } => EntryView::ToolResult {
                call_id: call_id@,
                summary: summary@,
            },
            TypedTranscriptEntry::Approval { call_id, decision, actor_id, reason } => {
                EntryView::Approval {
                    call_id: call_id@,
                    decision: *decision,
                    actor_id: actor_id@,
                    reason: text::opt_view(*reason),
                }
            },
            TypedTranscriptEntry::PolicyDenied { call_id, reason } => EntryView::PolicyDenied {
                call_id: call_id@,
                reason: reason@,
            },
            TypedTranscriptEntry::ToolFailed { call_id, error } => EntryView::ToolFailed {
                call_id: call_id@,
                error: error@,
            },
        }
    }

    /// The entry as it is sent.
    pub fn to_json(&self) -> (r: Json)
        ensures
            r@ == entry_json(self@),
    {
        let object = ObjectBuilder::new();
        match self {
            TypedTranscriptEntry::User { text } => object.text("kind", "user").text(
                "text",
                text.as_str(),
            ).build(),
            TypedTranscriptEntry::Assistant { text } => object.text("kind", "assistant").text(
                "text",
                text.as_str(),
            ).build(),
            TypedTranscriptEntry::ToolCall { call_id, tool, input } => object.text(
                "call_id",
                call_id.as_str(),
            ).with("input", input.clone()).text("kind", "tool_call").text(
                "tool",
                tool.as_str(),
            ).build(),
            TypedTranscriptEntry::ToolResult { call_id, summary } => object.text(
                "call_id",
                call_id.as_str(),
            ).text("kind", "tool_result").text("summary", summary.as_str()).build(),
            TypedTranscriptEntry::Approval { call_id, decision, actor_id, reason } => object.text(
                "actor_id",
                actor_id.as_str(),
            ).text("call_id", call_id.as_str()).text("decision", decision.as_str()).text(
                "kind",
                "approval",
            ).with("reason", Json::optional_text(reason)).build(),
            TypedTranscriptEntry::PolicyDenied { call_id, reason } => object.text(
                "call_id",
                call_id.as_str(),
            ).text("kind", "policy_denied").text("reason", reason.as_str()).build(),
            TypedTranscriptEntry::ToolFailed { call_id, error } => object.text(
                "call_id",
                call_id.as_str(),
            ).text("error", error.as_str()).text("kind", "tool_failed").build(),
        }
    }

    /// The entry that a value is.
    pub fn decode(value: &Json) -> (r: Option<TypedTranscriptEntry>)
        ensures
            opt_entry(r) == entry_in(value@),
    {
        let named = shape::name_by_tag(value, "kind", &kinds_of_entries());
        let value = &named;
        let kind = match value.text_member("kind") {
            Some(kind) => kind,
            None => {
                return None;
            },
        };
        proof {
            lemma_entry_kinds();
        }
        if text::same_text(kind.as_str(), "user") {
            match value.text_member("text") {
                Some(text) => Some(TypedTranscriptEntry::User { text }),
                None => None,
            }
        } else if text::same_text(kind.as_str(), "assistant") {
            match value.text_member("text") {
                Some(text) => Some(TypedTranscriptEntry::Assistant { text }),
                None => None,
            }
        } else {
            let call_id = match value.text_member("call_id") {
                Some(call_id) => call_id,
                None => {
                    return None;
                },
            };
            if text::same_text(kind.as_str(), "tool_call") {
                match (value.text_member("tool"), value.get("input")) {
                    (Some(tool), Some(input)) => Some(
                        TypedTranscriptEntry::ToolCall { call_id, tool, input: input.clone() },
                    ),
                    _ => None,
                }
            } else if text::same_text(kind.as_str(), "tool_result") {
                match value.text_member("summary") {
                    Some(summary) => Some(TypedTranscriptEntry::ToolResult { call_id, summary }),
                    None => None,
                }
            } else if text::same_text(kind.as_str(), "approval") {
                if !value.fits(&Field { name: "reason", kind: FieldKind::OptionalText }) {
                    return None;
                }
                match (value.variant_member("decision"), value.text_member("actor_id")) {
                    (Some(name), Some(actor_id)) => match ApprovalDecisionName::from_name(
                        name.as_str(),
                    ) {
                        Some(decision) => Some(
                            TypedTranscriptEntry::Approval {
                                call_id,
                                decision,
                                actor_id,
                                reason: value.text_member("reason"),
                            },
                        ),
                        None => None,
                    },
                    _ => None,
                }
            } else if text::same_text(kind.as_str(), "policy_denied") {
                match value.text_member("reason") {
                    Some(reason) => Some(TypedTranscriptEntry::PolicyDenied { call_id, reason }),
                    None => None,
                }
            } else if text::same_text(kind.as_str(), "tool_failed") {
                match value.text_member("error") {
                    Some(error) => Some(TypedTranscriptEntry::ToolFailed { call_id, error }),
                    None => None,
                }
            } else {
                None
            }
        }
    }
}

proof fn lemma_entry_kinds()
    ensures
        "user"@.len() == 4,
        "assistant"@.len() == 9,
        "assistant"@[0] == 'a',
        "tool_call"@.len() == 9,
        "tool_call"@[0] == 't',
        "tool_result"@.len() == 11,
        "tool_result"@[5] == 'r',
        "approval"@.len() == 8,
        "policy_denied"@.len() == 13,
        "tool_failed"@.len() == 11,
        "tool_failed"@[5] == 'f',
{
    reveal_strlit("user");
    reveal_strlit("assistant");
    reveal_strlit("tool_call");
    reveal_strlit("tool_result");
    reveal_strlit("approval");
    reveal_strlit("policy_denied");
    reveal_strlit("tool_failed");
}

/// A run, entry by entry.
#[derive(Debug, PartialEq, Eq)]
pub struct TypedRun {
    pub run_id: String,
    pub session_index: u64,
    pub status: RunStateName,
    pub entries: Vec<TypedTranscriptEntry>,
}

/// What a run, entry by entry, stands for.
pub struct TypedRunView {
    pub run_id: Seq<char>,
    pub session_index: u64,
    pub status: RunStateName,
    pub entries: Seq<EntryView>,
}

/// What runs stand for.
pub open spec fn run_views(runs: Seq<TypedRun>) -> Seq<TypedRunView> {
    Seq::new(runs.len(), |i: int| runs[i]@)
}

/// A run as it is sent.
pub open spec fn run_json(run: TypedRunView) -> JsonView {
    JsonView::Object(
        json::no_members().push(
            (
                "entries"@,
                JsonView::Array(Seq::new(run.entries.len(), |i: int| entry_json(run.entries[i]))),
            ),
        ).push(("run_id"@, JsonView::Text(run.run_id))).push(
            ("session_index"@, JsonView::Number(text::decimal(run.session_index as nat))),
        ).push(("status"@, JsonView::Text(run.status.wire()))),
    )
}

/// The entries that a value lists.
pub open spec fn entries_in(value: Option<JsonView>) -> Option<Seq<EntryView>> {
    match value {
        Some(JsonView::Array(items)) => if forall|i: int|
            0 <= i < items.len() ==> entry_in(#[trigger] items[i]) is Some {
            Some(Seq::new(items.len(), |i: int| entry_in(items[i])->Some_0))
        } else {
            None
        },
        _ => None,
    }
}

/// The fields of a run, in the order in which a list tells them.
pub open spec fn run_names() -> Seq<Seq<char>> {
    text::str_views(seq!["run_id", "session_index", "status", "entries"])
}

/// The run that a value is.
pub open spec fn run_in(value: JsonView) -> Option<TypedRunView> {
    let value = json::listed(value, run_names());
    let run_id = json::text_in(json::member_of(value, "run_id"@));
    let index = json::u64_in(json::member_of(value, "session_index"@));
    let status = messages::state_in(value);
    let entries = entries_in(json::member_of(value, "entries"@));
    if run_id is Some && index is Some && status is Some && entries is Some {
        Some(
            TypedRunView {
                run_id: run_id->Some_0,
                session_index: index->Some_0,
                status: status->Some_0,
                entries: entries->Some_0,
            },
        )
    } else {
        None
    }
}

/// What an optional run stands for.
pub open spec fn opt_run(run: Option<TypedRun>) -> Option<TypedRunView> {
    match run {
        Some(run) => Some(run@),
        None => None,
    }
}

fn decode_entries(items: &Vec<Json>) -> (r: Option<Vec<TypedTranscriptEntry>>)
    ensures
        match r {
            Some(entries) => Some(entry_views(entries@)),
            None => None,
        } == entries_in(Some(JsonView::Array(json::json_views(items@)))),
{
    let ghost all = json::json_views(items@);
    let mut entries: Vec<TypedTranscriptEntry> = Vec::new();
    for i in 0..items.len()
        invariant
            all == json::json_views(items@),
            entries@.len() == i,
            forall|j: int| 0 <= j < i ==> entry_in(all[j]) == Some((#[trigger] entries@[j])@),
    {
        assert(all[i as int] == items@[i as int]@);
        match TypedTranscriptEntry::decode(&items[i]) {
            Some(entry) => entries.push(entry),
            None => {
                return None;
            },
        }
    }
    proof {
        assert forall|i: int| 0 <= i < all.len() implies entry_in(#[trigger] all[i]) is Some by {
            assert(entry_in(all[i]) == Some(entries@[i]@));
        }
        assert(entry_views(entries@) =~= Seq::new(all.len(), |i: int| entry_in(all[i])->Some_0))
            by {
            assert forall|i: int| 0 <= i < all.len() implies entry_views(entries@)[i] == entry_in(
                all[i],
            )->Some_0 by {
                assert(entry_in(all[i]) == Some(entries@[i]@));
            }
        }
    }
    Some(entries)
}

impl TypedRun {
    /// The run that `self` stands for.
    pub open spec fn view(&self) -> TypedRunView {
        TypedRunView {
            run_id: self.run_id@,
            session_index: self.session_index,
            status: self.status,
            entries: entry_views(self.entries@),
        }
    }

    /// The run as it is sent.
    pub fn to_json(&self) -> (r: Json)
        ensures
            r@ == run_json(self@),
    {
        let mut items: Vec<Json> = Vec::new();
        for i in 0..self.entries.len()
            invariant
                items@.len() == i,
                forall|j: int|
                    0 <= j < i ==> (#[trigger] items@[j])@ == entry_json(self.entries@[j]@),
        {
            items.push(self.entries[i].to_json());
        }
        proof {
            assert(json::json_views(items@) =~= Seq::new(
                self@.entries.len(),
                |i: int| entry_json(self@.entries[i]),
            ));
        }
        ObjectBuilder::new().with("entries", Json::array(items)).text(
            "run_id",
            self.run_id.as_str(),
        ).number("session_index", self.session_index).text("status", self.status.as_str()).build()
    }

    /// The run that a value is.
    pub fn decode(value: &Json) -> (r: Option<TypedRun>)
        ensures
            opt_run(r) == run_in(value@),
    {
        let names = vec!["run_id", "session_index", "status", "entries"];
        assert(text::str_views(names@) =~= run_names());
        let named = value.listed(&names);
        let value = &named;
        let entries = match value.array_member("entries") {
            Some(items) => match decode_entries(&items) {
                Some(entries) => entries,
                None => {
                    return None;
                },
            },
            None => {
                return None;
            },
        };
        match (
            value.text_member("run_id"),
            value.number_member("session_index"),
            messages::state_member(value),
        ) {
            (Some(run_id), Some(session_index), Some(status)) => Some(
                TypedRun { run_id, session_index, status, entries },
            ),
            _ => None,
        }
    }
}

/// Runs, entry by entry.
#[derive(Debug, PartialEq, Eq)]
pub struct TypedTranscript {
    pub runs: Vec<TypedRun>,
}

/// Runs as they are sent.
pub open spec fn runs_json(runs: Seq<TypedRunView>) -> JsonView {
    JsonView::Object(
        json::no_members().push(
            ("runs"@, JsonView::Array(Seq::new(runs.len(), |i: int| run_json(runs[i])))),
        ),
    )
}

/// The field of a list of runs.
pub open spec fn runs_names() -> Seq<Seq<char>> {
    text::str_views(seq!["runs"])
}

/// The runs that a value lists.
pub open spec fn runs_in(value: JsonView) -> Option<Seq<TypedRunView>> {
    match json::member_of(json::listed(value, runs_names()), "runs"@) {
        Some(JsonView::Array(items)) => if forall|i: int|
            0 <= i < items.len() ==> run_in(#[trigger] items[i]) is Some {
            Some(Seq::new(items.len(), |i: int| run_in(items[i])->Some_0))
        } else {
            None
        },
        _ => None,
    }
}

/// What an optional list of runs stands for.
pub open spec fn opt_runs(typed: Option<TypedTranscript>) -> Option<Seq<TypedRunView>> {
    match typed {
        Some(typed) => Some(run_views(typed.runs@)),
        None => None,
    }
}

impl TypedTranscript {
    /// The runs as they are sent.
    pub fn to_json(&self) -> (r: Json)
        ensures
            r@ == runs_json(run_views(self.runs@)),
    {
        let mut items: Vec<Json> = Vec::new();
        for i in 0..self.runs.len()
            invariant
                items@.len() == i,
                forall|j: int| 0 <= j < i ==> (#[trigger] items@[j])@ == run_json(self.runs@[j]@),
        {
            items.push(self.runs[i].to_json());
        }
        proof {
            assert(json::json_views(items@) =~= Seq::new(
                run_views(self.runs@).len(),
                |i: int| run_json(run_views(self.runs@)[i]),
            ));
        }
        ObjectBuilder::new().with("runs", Json::array(items)).build()
    }

    /// The runs that a value lists.
    pub fn decode(value: &Json) -> (r: Option<TypedTranscript>)
        ensures
            opt_runs(r) == runs_in(value@),
    {
        let names = vec!["runs"];
        assert(text::str_views(names@) =~= runs_names());
        let named = value.listed(&names);
        match named.array_member("runs") {
            Some(items) => {
                let ghost all = json::json_views(items@);
                let mut runs: Vec<TypedRun> = Vec::new();
                for i in 0..items.len()
                    invariant
                        all == json::json_views(items@),
                        named@ == json::listed(value@, runs_names()),
                        json::member_of(named@, "runs"@) == Some(JsonView::Array(all)),
                        runs@.len() == i,
                        forall|j: int|
                            0 <= j < i ==> run_in(all[j]) == Some((#[trigger] runs@[j])@),
                {
                    assert(all[i as int] == items@[i as int]@);
                    match TypedRun::decode(&items[i]) {
                        Some(run) => runs.push(run),
                        None => {
                            return None;
                        },
                    }
                }
                proof {
                    assert forall|i: int| 0 <= i < all.len() implies run_in(
                        #[trigger] all[i],
                    ) is Some by {
                        assert(run_in(all[i]) == Some(runs@[i]@));
                    }
                    assert(run_views(runs@) =~= Seq::new(
                        all.len(),
                        |i: int| run_in(all[i])->Some_0,
                    )) by {
                        assert forall|i: int| 0 <= i < all.len() implies run_views(runs@)[i]
                            == run_in(all[i])->Some_0 by {
                            assert(run_in(all[i]) == Some(runs@[i]@));
                        }
                    }
                }
                Some(TypedTranscript { runs })
            },
            None => None,
        }
    }
}

/// The transcript of a run or of a session.
#[derive(Debug, PartialEq, Eq)]
pub struct TranscriptReadResult {
    pub run_id: String,
    pub status: RunStateName,
    pub final_answer: Option<String>,
    pub transcript: String,
    pub typed: Option<TypedTranscript>,
    pub pending_approval: Option<Json>,
}

/// What a transcript stands for.
pub struct ReadView {
    pub run_id: Seq<char>,
    pub status: RunStateName,
    pub final_answer: Option<Seq<char>>,
    pub transcript: Seq<char>,
    pub typed: Option<Seq<TypedRunView>>,
    pub pending_approval: Option<JsonView>,
}

/// A transcript as it is sent.
pub open spec fn read_json(read: ReadView) -> JsonView {
    let start = json::no_members().push(
        ("final_answer"@, messages::text_or_null(read.final_answer)),
    );
    let pending = match read.pending_approval {
        Some(pending) => start.push(("pending_approval"@, pending)),
        None => start,
    };
    let members = pending.push(("run_id"@, JsonView::Text(read.run_id))).push(
        ("status"@, JsonView::Text(read.status.wire())),
    ).push(("transcript"@, JsonView::Text(read.transcript)));
    JsonView::Object(
        match read.typed {
            Some(runs) => members.push(("typed"@, runs_json(runs))),
            None => members,
        },
    )
}

/// The fields of a transcript, in the order in which a list tells them; the last two may be missing
/// there.
pub open spec fn read_fields() -> Seq<Field> {
    seq![
        Field { name: "run_id", kind: FieldKind::Text },
        Field { name: "status", kind: FieldKind::State },
        Field { name: "final_answer", kind: FieldKind::OptionalText },
        Field { name: "transcript", kind: FieldKind::Text },
        Field { name: "typed", kind: FieldKind::OptionalValue },
        Field { name: "pending_approval", kind: FieldKind::OptionalValue },
    ]
}

/// The transcript that a value is.
pub open spec fn read_in(value: JsonView) -> Option<ReadView> {
    let value = json::by_name(value, read_fields(), 4);
    let run_id = json::text_in(json::member_of(value, "run_id"@));
    let status = messages::state_in(value);
    let transcript = json::text_in(json::member_of(value, "transcript"@));
    let answer = json::member_of(value, "final_answer"@);
    let typed = json::value_in(json::member_of(value, "typed"@));
    if run_id is Some && status is Some && transcript is Some && json::field_fits(
        answer,
        FieldKind::OptionalText,
    ) && (typed is Some ==> runs_in(typed->Some_0) is Some) {
        Some(
            ReadView {
                run_id: run_id->Some_0,
                status: status->Some_0,
                final_answer: json::text_in(answer),
                transcript: transcript->Some_0,
                typed: match typed {
                    Some(typed) => runs_in(typed),
                    None => None,
                },
                pending_approval: json::value_in(json::member_of(value, "pending_approval"@)),
            },
        )
    } else {
        None
    }
}

/// What an optional transcript stands for.
pub open spec fn opt_read(read: Option<TranscriptReadResult>) -> Option<ReadView> {
    match read {
        Some(read) => Some(read@),
        None => None,
    }
}

impl TranscriptReadResult {
    /// The transcript that `self` stands for.
    pub open spec fn view(&self) -> ReadView {
        ReadView {
            run_id: self.run_id@,
            status: self.status,
            final_answer: text::opt_view(self.final_answer),
            transcript: self.transcript@,
            typed: opt_runs(self.typed),
            pending_approval: json::opt_json(self.pending_approval),
        }
    }

    /// The transcript as it is sent.
    pub fn to_json(&self) -> (r: Json)
        ensures
            r@ == read_json(self@),
    {
        let mut object = ObjectBuilder::new().with(
            "final_answer",
            Json::optional_text(&self.final_answer),
        );
        if let Some(pending) = &self.pending_approval {
            object = object.with("pending_approval", pending.clone());
        }
        object =
        object.text("run_id", self.run_id.as_str()).text("status", self.status.as_str()).text(
            "transcript",
            self.transcript.as_str(),
        );
        if let Some(typed) = &self.typed {
            object = object.with("typed", typed.to_json());
        }
        object.build()
    }

    /// The transcript that a value is.
    pub fn decode(value: &Json) -> (r: Option<TranscriptReadResult>)
        ensures
            opt_read(r) == read_in(value@),
    {
        let fields = vec![
            Field { name: "run_id", kind: FieldKind::Text },
            Field { name: "status", kind: FieldKind::State },
            Field { name: "final_answer", kind: FieldKind::OptionalText },
            Field { name: "transcript", kind: FieldKind::Text },
            Field { name: "typed", kind: FieldKind::OptionalValue },
            Field { name: "pending_approval", kind: FieldKind::OptionalValue },
        ];
        assert(fields@ =~= read_fields());
        let named = value.by_name(&fields, 4);
        let value = &named;
        if !value.fits(&Field { name: "final_answer", kind: FieldKind::OptionalText }) {
            return None;
        }
        let typed = match value.value_member("typed") {
            Some(typed) => match TypedTranscript::decode(&typed) {
                Some(typed) => Some(typed),
                None => {
                    return None;
                },
            },
            None => None,
        };
        match (
            value.text_member("run_id"),
            messages::state_member(value),
            value.text_member("transcript"),
        ) {
            (Some(run_id), Some(status), Some(transcript)) => Some(
                TranscriptReadResult {
                    run_id,
                    status,
                    final_answer: value.text_member("final_answer"),
                    transcript,
                    typed,
                    pending_approval: value.value_member("pending_approval"),
                },
            ),
            _ => None,
        }
    }
}

proof fn lemma_entry_names()
    ensures
        "kind"@.len() == 4,
        "kind"@[0] == 'k',
        "text"@.len() == 4,
        "text"@[0] == 't',
        "call_id"@.len() == 7,
        "call_id"@[0] == 'c',
        "input"@.len() == 5,
        "input"@[0] == 'i',
        "tool"@.len() == 4,
        "tool"@[0] == 't',
        "summary"@.len() == 7,
        "summary"@[0] == 's',
        "actor_id"@.len() == 8,
        "actor_id"@[0] == 'a',
        "decision"@.len() == 8,
        "decision"@[0] == 'd',
        "reason"@.len() == 6,
        "reason"@[0] == 'r',
        "error"@.len() == 5,
        "error"@[0] == 'e',
{
    reveal_strlit("kind");
    reveal_strlit("text");
    reveal_strlit("call_id");
    reveal_strlit("input");
    reveal_strlit("tool");
    reveal_strlit("summary");
    reveal_strlit("actor_id");
    reveal_strlit("decision");
    reveal_strlit("reason");
    reveal_strlit("error");
}

/// An entry that was sent is read back as it was.
pub proof fn law_entries_are_read_back(entry: EntryView)
    ensures
        entry_in(entry_json(entry)) == Some(entry),
{
    lemma_entry_kinds();
    lemma_entry_names();
    let m0 = json::no_members();
    match entry {
        EntryView::User { text } => {
            let a0 = ("kind"@, JsonView::Text("user"@));
            let a1 = ("text"@, JsonView::Text(text));
            let m1 = m0.push(a0);
            assert(entry_json(entry) == JsonView::Object(m1.push(a1)));
            let names = seq!["kind"@, "text"@];
            assert forall|k: int| 0 <= k < 2 implies json::member_of(
                entry_json(entry),
                #[trigger] names[k],
            ) == Some(if k == 0 { a0.1 } else { a1.1 }) by {
                json::lemma_first_member_push(m0, a0, names[k]);
                json::lemma_first_member_push(m1, a1, names[k]);
            }
            assert(names[0] == "kind"@ && names[1] == "text"@);
        },
        EntryView::Assistant { text } => {
            let a0 = ("kind"@, JsonView::Text("assistant"@));
            let a1 = ("text"@, JsonView::Text(text));
            let m1 = m0.push(a0);
            assert(entry_json(entry) == JsonView::Object(m1.push(a1)));
            let names = seq!["kind"@, "text"@];
            assert forall|k: int| 0 <= k < 2 implies json::member_of(
                entry_json(entry),
                #[trigger] names[k],
            ) == Some(if k == 0 { a0.1 } else { a1.1 }) by {
                json::lemma_first_member_push(m0, a0, names[k]);
                json::lemma_first_member_push(m1, a1, names[k]);
            }
            assert(names[0] == "kind"@ && names[1] == "text"@);
        },
        EntryView::ToolCall { call_id, tool, input } => {
            let a0 = ("call_id"@, JsonView::Text(call_id));
            let a1 = ("input"@, input);
            let a2 = ("kind"@, JsonView::Text("tool_call"@));
            let a3 = ("tool"@, JsonView::Text(tool));
            let m1 = m0.push(a0);
            let m2 = m1.push(a1);
            let m3 = m2.push(a2);
            assert(entry_json(entry) == JsonView::Object(m3.push(a3)));
            let names = seq!["call_id"@, "input"@, "kind"@, "tool"@];
            assert forall|k: int| 0 <= k < 4 implies json::member_of(
                entry_json(entry),
                #[trigger] names[k],
            ) == Some(if k == 0 { a0.1 } else if k == 1 { a1.1 } else if k == 2 { a2.1 } else { a3.1 }) by {
                json::lemma_first_member_push(m0, a0, names[k]);
                json::lemma_first_member_push(m1, a1, names[k]);
                json::lemma_first_member_push(m2, a2, names[k]);
                json::lemma_first_member_push(m3, a3, names[k]);
            }
            assert(names[0] == "call_id"@ && names[1] == "input"@ && names[2] == "kind"@
                && names[3] == "tool"@);
        },
        EntryView::ToolResult { call_id, summary } => {
            let a0 = ("call_id"@, JsonView::Text(call_id));
            let a1 = ("kind"@, JsonView::Text("tool_result"@));
            let a2 = ("summary"@, JsonView::Text(summary));
            let m1 = m0.push(a0);
            let m2 = m1.push(a1);
            assert(entry_json(entry) == JsonView::Object(m2.push(a2)));
            let names = seq!["call_id"@, "kind"@, "summary"@];
            assert forall|k: int| 0 <= k < 3 implies json::member_of(
                entry_json(entry),
                #[trigger] names[k],
            ) == Some(if k == 0 { a0.1 } else if k == 1 { a1.1 } else { a2.1 }) by {
                json::lemma_first_member_push(m0, a0, names[k]);
                json::lemma_first_member_push(m1, a1, names[k]);
                json::lemma_first_member_push(m2, a2, names[k]);
            }
            assert(names[0] == "call_id"@ && names[1] == "kind"@ && names[2] == "summary"@);
        },
        EntryView::Approval { call_id, decision, actor_id, reason } => {
            let a0 = ("actor_id"@, JsonView::Text(actor_id));
            let a1 = ("call_id"@, JsonView::Text(call_id));
            let a2 = ("decision"@, JsonView::Text(decision.wire()));
            let a3 = ("kind"@, JsonView::Text("approval"@));
            let a4 = ("reason"@, messages::text_or_null(reason));
            let m1 = m0.push(a0);
            let m2 = m1.push(a1);
            let m3 = m2.push(a2);
            let m4 = m3.push(a3);
            assert(entry_json(entry) == JsonView::Object(m4.push(a4)));
            let names = seq!["actor_id"@, "call_id"@, "decision"@, "kind"@, "reason"@];
            assert forall|k: int| 0 <= k < 5 implies json::member_of(
                entry_json(entry),
                #[trigger] names[k],
            ) == Some(if k == 0 { a0.1 } else if k == 1 { a1.1 } else if k == 2 { a2.1 } else if k == 3 { a3.1 } else { a4.1 }) by {
                json::lemma_first_member_push(m0, a0, names[k]);
                json::lemma_first_member_push(m1, a1, names[k]);
                json::lemma_first_member_push(m2, a2, names[k]);
                json::lemma_first_member_push(m3, a3, names[k]);
                json::lemma_first_member_push(m4, a4, names[k]);
            }
            assert(names[0] == "actor_id"@ && names[1] == "call_id"@ && names[2] == "decision"@
                && names[3] == "kind"@ && names[4] == "reason"@);
            reveal_strlit("granted");
            reveal_strlit("denied");
            assert("granted"@.len() == 7 && "denied"@.len() == 6);
        },
        EntryView::PolicyDenied { call_id, reason } => {
            let a0 = ("call_id"@, JsonView::Text(call_id));
            let a1 = ("kind"@, JsonView::Text("policy_denied"@));
            let a2 = ("reason"@, JsonView::Text(reason));
            let m1 = m0.push(a0);
            let m2 = m1.push(a1);
            assert(entry_json(entry) == JsonView::Object(m2.push(a2)));
            let names = seq!["call_id"@, "kind"@, "reason"@];
            assert forall|k: int| 0 <= k < 3 implies json::member_of(
                entry_json(entry),
                #[trigger] names[k],
            ) == Some(if k == 0 { a0.1 } else if k == 1 { a1.1 } else { a2.1 }) by {
                json::lemma_first_member_push(m0, a0, names[k]);
                json::lemma_first_member_push(m1, a1, names[k]);
                json::lemma_first_member_push(m2, a2, names[k]);
            }
            assert(names[0] == "call_id"@ && names[1] == "kind"@ && names[2] == "reason"@);
        },
        EntryView::ToolFailed { call_id, error } => {
            let a0 = ("call_id"@, JsonView::Text(call_id));
            let a1 = ("error"@, JsonView::Text(error));
            let a2 = ("kind"@, JsonView::Text("tool_failed"@));
            let m1 = m0.push(a0);
            let m2 = m1.push(a1);
            assert(entry_json(entry) == JsonView::Object(m2.push(a2)));
            let names = seq!["call_id"@, "error"@, "kind"@];
            assert forall|k: int| 0 <= k < 3 implies json::member_of(
                entry_json(entry),
                #[trigger] names[k],
            ) == Some(if k == 0 { a0.1 } else if k == 1 { a1.1 } else { a2.1 }) by {
                json::lemma_first_member_push(m0, a0, names[k]);
                json::lemma_first_member_push(m1, a1, names[k]);
                json::lemma_first_member_push(m2, a2, names[k]);
            }
            assert(names[0] == "call_id"@ && names[1] == "error"@ && names[2] == "kind"@);
        },
    }
}

/// A run that was sent is read back as it was.
pub proof fn law_runs_are_read_back(run: TypedRunView)
    ensures
        run_in(run_json(run)) == Some(run),
{
    reveal_strlit("entries");
    reveal_strlit("run_id");
    reveal_strlit("session_index");
    reveal_strlit("status");
    assert("entries"@.len() == 7 && "run_id"@.len() == 6 && "session_index"@.len() == 13
        && "status"@.len() == 6);
    assert("run_id"@[0] == 'r' && "status"@[0] == 's');
    let items = Seq::new(run.entries.len(), |i: int| entry_json(run.entries[i]));
    let names = seq!["entries"@, "run_id"@, "session_index"@, "status"@];
    let a0 = ("entries"@, JsonView::Array(items));
    let a1 = ("run_id"@, JsonView::Text(run.run_id));
    let a2 = ("session_index"@, JsonView::Number(text::decimal(run.session_index as nat)));
    let a3 = ("status"@, JsonView::Text(run.status.wire()));
    let m0 = json::no_members();
    let m1 = m0.push(a0);
    let m2 = m1.push(a1);
    let m3 = m2.push(a2);
    assert(run_json(run) == JsonView::Object(m3.push(a3)));
    assert forall|k: int| 0 <= k < 4 implies json::member_of(run_json(run), #[trigger] names[k])
        == Some(
        if k == 0 {
            a0.1
        } else if k == 1 {
            a1.1
        } else if k == 2 {
            a2.1
        } else {
            a3.1
        },
    ) by {
        json::lemma_first_member_push(m0, a0, names[k]);
        json::lemma_first_member_push(m1, a1, names[k]);
        json::lemma_first_member_push(m2, a2, names[k]);
        json::lemma_first_member_push(m3, a3, names[k]);
    }
    assert(names[0] == "entries"@ && names[1] == "run_id"@ && names[2] == "session_index"@
        && names[3] == "status"@);
    protocol::law_states_keep_their_names(run.status);
    json::lemma_decimal_is_read_back(run.session_index as nat);
    assert forall|i: int| 0 <= i < items.len() implies entry_in(#[trigger] items[i]) == Some(
        run.entries[i],
    ) by {
        law_entries_are_read_back(run.entries[i]);
    }
    assert(Seq::new(items.len(), |i: int| entry_in(items[i])->Some_0) =~= run.entries);
}

/// A transcript that was sent is read back as it was, where no null stands for an approval.
pub proof fn law_transcripts_are_read_back(read: ReadView)
    requires
        read.pending_approval != Some(JsonView::Null),
    ensures
        read_in(read_json(read)) == Some(read),
{
    reveal_strlit("final_answer");
    reveal_strlit("pending_approval");
    reveal_strlit("run_id");
    reveal_strlit("status");
    reveal_strlit("transcript");
    reveal_strlit("typed");
    assert("final_answer"@.len() == 12 && "pending_approval"@.len() == 16 && "run_id"@.len() == 6
        && "status"@.len() == 6 && "transcript"@.len() == 10 && "typed"@.len() == 5);
    assert("run_id"@[0] == 'r' && "status"@[0] == 's');
    let names = seq![
        "final_answer"@,
        "pending_approval"@,
        "run_id"@,
        "status"@,
        "transcript"@,
        "typed"@,
    ];
    let runs = read.typed->Some_0;
    let items = Seq::new(runs.len(), |i: int| run_json(runs[i]));
    let a0 = ("final_answer"@, messages::text_or_null(read.final_answer));
    let a1 = ("pending_approval"@, read.pending_approval->Some_0);
    let a2 = ("run_id"@, JsonView::Text(read.run_id));
    let a3 = ("status"@, JsonView::Text(read.status.wire()));
    let a4 = ("transcript"@, JsonView::Text(read.transcript));
    let a5 = ("typed"@, runs_json(runs));
    let m0 = json::no_members();
    let m1 = m0.push(a0);
    let m2 = if read.pending_approval is Some {
        m1.push(a1)
    } else {
        m1
    };
    let m3 = m2.push(a2);
    let m4 = m3.push(a3);
    let m5 = m4.push(a4);
    let m6 = if read.typed is Some {
        m5.push(a5)
    } else {
        m5
    };
    assert(read_json(read) == JsonView::Object(m6));
    assert forall|k: int| 0 <= k < 6 implies json::member_of(read_json(read), #[trigger] names[k])
        == if k == 0 {
        Some(a0.1)
    } else if k == 1 {
        read.pending_approval
    } else if k == 2 {
        Some(a2.1)
    } else if k == 3 {
        Some(a3.1)
    } else if k == 4 {
        Some(a4.1)
    } else if read.typed is Some {
        Some(a5.1)
    } else {
        None
    } by {
        json::lemma_first_member_push(m0, a0, names[k]);
        json::lemma_first_member_push(m1, a1, names[k]);
        json::lemma_first_member_push(m2, a2, names[k]);
        json::lemma_first_member_push(m3, a3, names[k]);
        json::lemma_first_member_push(m4, a4, names[k]);
        json::lemma_first_member_push(m5, a5, names[k]);
    }
    assert(names[0] == "final_answer"@ && names[1] == "pending_approval"@ && names[2] == "run_id"@
        && names[3] == "status"@ && names[4] == "transcript"@ && names[5] == "typed"@);
    protocol::law_states_keep_their_names(read.status);
    if read.typed is Some {
        json::lemma_first_member_push(m0, ("runs"@, JsonView::Array(items)), "runs"@);
        assert forall|i: int| 0 <= i < items.len() implies run_in(#[trigger] items[i]) == Some(
            runs[i],
        ) by {
            law_runs_are_read_back(runs[i]);
        }
        assert(Seq::new(items.len(), |i: int| run_in(items[i])->Some_0) =~= runs);
    }
}

/// The entries of a transcript tell their kind and what they hold: what was asked and answered, what was
/// called and with what, what it gave, who decided and how, why it was refused, and why it failed.
pub proof fn law_entries_are_sent_by_name(
    call_id: Seq<char>,
    said: Seq<char>,
    tool: Seq<char>,
    input: JsonView,
    decision: ApprovalDecisionName,
    actor_id: Seq<char>,
)
    ensures
        entry_json(EntryView::User { text: said }) matches JsonView::Object(m)
            && m.len() == 2
            && m[0] == ("kind"@, JsonView::Text("user"@))
            && m[1] == ("text"@, JsonView::Text(said)),
        entry_json(EntryView::Assistant { text: said }) matches JsonView::Object(m)
            && m.len() == 2
            && m[0] == ("kind"@, JsonView::Text("assistant"@))
            && m[1] == ("text"@, JsonView::Text(said)),
        entry_json(EntryView::ToolCall { call_id, tool, input }) matches JsonView::Object(m)
            && m.len() == 4
            && m[0] == ("call_id"@, JsonView::Text(call_id))
            && m[1] == ("input"@, input)
            && m[2] == ("kind"@, JsonView::Text("tool_call"@))
            && m[3] == ("tool"@, JsonView::Text(tool)),
        entry_json(EntryView::ToolResult { call_id, summary: said }) matches JsonView::Object(m)
            && m.len() == 3
            && m[0] == ("call_id"@, JsonView::Text(call_id))
            && m[1] == ("kind"@, JsonView::Text("tool_result"@))
            && m[2] == ("summary"@, JsonView::Text(said)),
        entry_json(EntryView::Approval { call_id, decision, actor_id, reason: Some(said) }) matches JsonView::Object(m)
            && m.len() == 5
            && m[0] == ("actor_id"@, JsonView::Text(actor_id))
            && m[1] == ("call_id"@, JsonView::Text(call_id))
            && m[2] == (
                "decision"@,
                JsonView::Text(if decision == ApprovalDecisionName::Granted { "granted"@ } else { "denied"@ }),
            )
            && m[3] == ("kind"@, JsonView::Text("approval"@))
            && m[4] == ("reason"@, JsonView::Text(said)),
        entry_json(EntryView::Approval { call_id, decision, actor_id, reason: None }) matches JsonView::Object(m)
            && m.len() == 5
            && m[0] == ("actor_id"@, JsonView::Text(actor_id))
            && m[1] == ("call_id"@, JsonView::Text(call_id))
            && m[2] == (
                "decision"@,
                JsonView::Text(if decision == ApprovalDecisionName::Granted { "granted"@ } else { "denied"@ }),
            )
            && m[3] == ("kind"@, JsonView::Text("approval"@))
            && m[4] == ("reason"@, JsonView::Null),
        entry_json(EntryView::PolicyDenied { call_id, reason: said }) matches JsonView::Object(m)
            && m.len() == 3
            && m[0] == ("call_id"@, JsonView::Text(call_id))
            && m[1] == ("kind"@, JsonView::Text("policy_denied"@))
            && m[2] == ("reason"@, JsonView::Text(said)),
        entry_json(EntryView::ToolFailed { call_id, error: said }) matches JsonView::Object(m)
            && m.len() == 3
            && m[0] == ("call_id"@, JsonView::Text(call_id))
            && m[1] == ("error"@, JsonView::Text(said))
            && m[2] == ("kind"@, JsonView::Text("tool_failed"@)),
{
    let m0 = entry_json(EntryView::User { text: said })->Object_0;
    assert(m0[0] == ("kind"@, JsonView::Text("user"@)));
    assert(m0[1] == ("text"@, JsonView::Text(said)));
    let m1 = entry_json(EntryView::Assistant { text: said })->Object_0;
    assert(m1[0] == ("kind"@, JsonView::Text("assistant"@)));
    assert(m1[1] == ("text"@, JsonView::Text(said)));
    let m2 = entry_json(EntryView::ToolCall { call_id, tool, input })->Object_0;
    assert(m2[0] == ("call_id"@, JsonView::Text(call_id)));
    assert(m2[1] == ("input"@, input));
    assert(m2[2] == ("kind"@, JsonView::Text("tool_call"@)));
    assert(m2[3] == ("tool"@, JsonView::Text(tool)));
    let m3 = entry_json(EntryView::ToolResult { call_id, summary: said })->Object_0;
    assert(m3[0] == ("call_id"@, JsonView::Text(call_id)));
    assert(m3[1] == ("kind"@, JsonView::Text("tool_result"@)));
    assert(m3[2] == ("summary"@, JsonView::Text(said)));
    let m4 = entry_json(EntryView::Approval { call_id, decision, actor_id, reason: Some(said) })->Object_0;
    assert(m4[0] == ("actor_id"@, JsonView::Text(actor_id)));
    assert(m4[1] == ("call_id"@, JsonView::Text(call_id)));
    assert(m4[2] == (
        "decision"@,
        JsonView::Text(if decision == ApprovalDecisionName::Granted { "granted"@ } else { "denied"@ }),
    ));
    assert(m4[3] == ("kind"@, JsonView::Text("approval"@)));
    assert(m4[4] == ("reason"@, JsonView::Text(said)));
    let m5 = entry_json(EntryView::Approval { call_id, decision, actor_id, reason: None })->Object_0;
    assert(m5[0] == ("actor_id"@, JsonView::Text(actor_id)));
    assert(m5[1] == ("call_id"@, JsonView::Text(call_id)));
    assert(m5[2] == (
        "decision"@,
        JsonView::Text(if decision == ApprovalDecisionName::Granted { "granted"@ } else { "denied"@ }),
    ));
    assert(m5[3] == ("kind"@, JsonView::Text("approval"@)));
    assert(m5[4] == ("reason"@, JsonView::Null));
    let m6 = entry_json(EntryView::PolicyDenied { call_id, reason: said })->Object_0;
    assert(m6[0] == ("call_id"@, JsonView::Text(call_id)));
    assert(m6[1] == ("kind"@, JsonView::Text("policy_denied"@)));
    assert(m6[2] == ("reason"@, JsonView::Text(said)));
    let m7 = entry_json(EntryView::ToolFailed { call_id, error: said })->Object_0;
    assert(m7[0] == ("call_id"@, JsonView::Text(call_id)));
    assert(m7[1] == ("error"@, JsonView::Text(said)));
    assert(m7[2] == ("kind"@, JsonView::Text("tool_failed"@)));
}

/// The run of a transcript tells its name, its place in the session, how it stands and its entries.
pub proof fn law_runs_are_sent_by_name(run: TypedRunView)
    ensures
        run_json(run) matches JsonView::Object(m)
            && m.len() == 4
            && m[0] == (
                "entries"@,
                JsonView::Array(Seq::new(run.entries.len(), |i: int| entry_json(run.entries[i]))),
            )
            && m[1] == ("run_id"@, JsonView::Text(run.run_id))
            && m[2] == ("session_index"@, JsonView::Number(text::decimal(run.session_index as nat)))
            && m[3] == ("status"@, JsonView::Text(run.status.wire())),
{
    let m0 = run_json(run)->Object_0;
    assert(m0[0] == (
        "entries"@,
        JsonView::Array(Seq::new(run.entries.len(), |i: int| entry_json(run.entries[i]))),
    ));
    assert(m0[1] == ("run_id"@, JsonView::Text(run.run_id)));
    assert(m0[2] == ("session_index"@, JsonView::Number(text::decimal(run.session_index as nat))));
    assert(m0[3] == ("status"@, JsonView::Text(run.status.wire())));
}

/// A transcript tells its run, how it stands, its answer or that there is none, what it shows, and its
/// entries where they are known.
pub proof fn law_transcripts_are_sent_by_name(read: ReadView)
    requires
        read.pending_approval is None,
    ensures
        read_json(read) matches JsonView::Object(m) && m[0] == (
            "final_answer"@,
            match read.final_answer {
                Some(answer) => JsonView::Text(answer),
                None => JsonView::Null,
            },
        ) && m[1] == ("run_id"@, JsonView::Text(read.run_id)) && m[2] == (
            "status"@,
            JsonView::Text(read.status.wire()),
        ) && m[3] == ("transcript"@, JsonView::Text(read.transcript)) && (read.typed is None
            ==> m.len() == 4) && (read.typed is Some ==> m.len() == 5 && m[4] == (
            "typed"@,
            runs_json(read.typed->Some_0),
        )),
{
    let m = read_json(read)->Object_0;
    assert(m[0].0 == "final_answer"@);
    assert(m[1] == ("run_id"@, JsonView::Text(read.run_id)));
    assert(m[2] == ("status"@, JsonView::Text(read.status.wire())));
    assert(m[3] == ("transcript"@, JsonView::Text(read.transcript)));
    if read.typed is Some {
        assert(m[4] == ("typed"@, runs_json(read.typed->Some_0)));
    }
}

} // verus!

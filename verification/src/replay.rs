//! What a ledger tells of its runs when they are played again.
use crate::daemon::protocol::RunStateName;
use crate::daemon::transcript;
use crate::daemon::transcript::{
    ApprovalDecisionName, EntryView, ReadView, TranscriptReadResult, TypedRun, TypedRunView,
    TypedTranscript, TypedTranscriptEntry,
};
use crate::error::{AppError, AppResult};
use crate::harness;
use crate::harness::{ContextLane, CoreError, CoreErrorView, EventView, PolicyView};
use crate::json;
use crate::json::{Json, JsonView};
use crate::ledger;
use crate::ledger::{SessionRecords, SqliteLedger, StoredRecord, StoredView};
use crate::text;
use platonic_core::Error as KernelError;
use platonic_core::ReadbackEntry as CoreEntry;
use platonic_core::RecordedEvent as CoreRecord;
use platonic_core::RunReadback;
use vstd::prelude::*;

verus! {

/// The readback of `platonic_core`.
#[verifier::external_type_specification]
#[verifier::external_body]
pub struct ExRunReadback(platonic_core::RunReadback);

/// One thing that a played run shows.
#[derive(Debug, PartialEq, Eq)]
pub enum ReplayEntry {
    ContextFragment { turn_id: String, lane: String, source: String, content: String },
    ModelMessage { turn_id: String, role: String, content: String },
    ToolCall { turn_id: String, call_id: String, tool: String, input: String },
    ToolResult { call_id: String, summary: String },
    PolicyDenied { call_id: String, reason: String },
    ApprovalGranted { call_id: String, actor_id: String },
    ApprovalDenied { call_id: String, actor_id: String, reason: String },
    ToolFailed { call_id: String, reason: String },
}

/// What an entry stands for.
pub enum ReplayView {
    ContextFragment { turn_id: Seq<char>, lane: Seq<char>, source: Seq<char>, content: Seq<char> },
    ModelMessage { turn_id: Seq<char>, role: Seq<char>, content: Seq<char> },
    ToolCall { turn_id: Seq<char>, call_id: Seq<char>, tool: Seq<char>, input: Seq<char> },
    ToolResult { call_id: Seq<char>, summary: Seq<char> },
    PolicyDenied { call_id: Seq<char>, reason: Seq<char> },
    ApprovalGranted { call_id: Seq<char>, actor_id: Seq<char> },
    ApprovalDenied { call_id: Seq<char>, actor_id: Seq<char>, reason: Seq<char> },
    ToolFailed { call_id: Seq<char>, reason: Seq<char> },
}

impl ReplayEntry {
    /// The entry that `self` stands for.
    pub open spec fn view(&self) -> ReplayView {
        match self {
            ReplayEntry::ContextFragment { turn_id, lane, source, content } => {
                ReplayView::ContextFragment {
                    turn_id: turn_id@,
                    lane: lane@,
                    source: source@,
                    content: content@,
                }
            },
            ReplayEntry::ModelMessage { turn_id, role, content } => ReplayView::ModelMessage {
                turn_id: turn_id@,
                role: role@,
                content: content@,
            },
            ReplayEntry::ToolCall { turn_id, call_id, tool, input } => ReplayView::ToolCall {
                turn_id: turn_id@,
                call_id: call_id@,
                tool: tool@,
                input: input@,
            },
            ReplayEntry::ToolResult { call_id, summary } => ReplayView::ToolResult {
                call_id: call_id@,
                summary: summary@,
            },
            ReplayEntry::PolicyDenied { call_id, reason } => ReplayView::PolicyDenied {
                call_id: call_id@,
                reason: reason@,
            },
            ReplayEntry::ApprovalGranted { call_id, actor_id } => ReplayView::ApprovalGranted {
                call_id: call_id@,
                actor_id: actor_id@,
            },
            ReplayEntry::ApprovalDenied { call_id, actor_id, reason } => {
                ReplayView::ApprovalDenied {
                    call_id: call_id@,
                    actor_id: actor_id@,
                    reason: reason@,
                }
            },
            ReplayEntry::ToolFailed { call_id, reason } => ReplayView::ToolFailed {
                call_id: call_id@,
                reason: reason@,
            },
        }
    }
}

/// What entries stand for.
pub open spec fn replay_views(entries: Seq<ReplayEntry>) -> Seq<ReplayView> {
    Seq::new(entries.len(), |i: int| entries[i]@)
}

/// What a played run shows, the phase it ended in, and the place of its next event.
pub struct ReadbackView {
    pub entries: Seq<ReplayView>,
    pub final_phase: Seq<char>,
    pub next_seq: nat,
}

/// A played run.
#[derive(Debug, PartialEq, Eq)]
pub struct Readback {
    pub entries: Vec<ReplayEntry>,
    pub final_phase: String,
    pub next_seq: u64,
}

impl Readback {
    /// The played run that `self` stands for.
    pub open spec fn view(&self) -> ReadbackView {
        ReadbackView {
            entries: replay_views(self.entries@),
            final_phase: self.final_phase@,
            next_seq: self.next_seq as nat,
        }
    }
}

/// What a readback of the kernel holds. A lane, a role and a phase are taken in their `Debug` form, an
/// input as its JSON text.
pub uninterp spec fn readback_contents(readback: RunReadback) -> ReadbackView;

/// What `platonic_core::RunReadback::from_events` gives for records.
pub uninterp spec fn replayed(records: Seq<StoredView>) -> Result<ReadbackView, CoreErrorView>;

/// What a readback, or an error in its place, stands for.
pub open spec fn replay_answer(answer: Result<RunReadback, CoreError>) -> Result<
    ReadbackView,
    CoreErrorView,
> {
    match answer {
        Ok(readback) => Ok(readback_contents(readback)),
        Err(error) => Err(error@),
    }
}

/// The events of records.
pub open spec fn events_of(records: Seq<StoredView>) -> Seq<Seq<char>> {
    Seq::new(records.len(), |i: int| records[i].event)
}

/// Whether the kernel takes every event of a history, each after those before it.
pub open spec fn accepted(history: Seq<Seq<char>>) -> bool {
    forall|i: int|
        0 <= i < history.len() ==> harness::apply_error(history.take(i), #[trigger] history[i])
            is None
}

/// Whether records stand at the places from the first on, and the kernel takes their events.
pub open spec fn replays(records: Seq<StoredView>) -> bool {
    &&& forall|i: int| 0 <= i < records.len() ==> (#[trigger] records[i]).seq == i
    &&& accepted(events_of(records))
}

/// The name of a lane in its `Debug` form.
pub open spec fn lane_name(lane: ContextLane) -> Seq<char> {
    match lane {
        ContextLane::SystemContract => "SystemContract"@,
        ContextLane::RecentTurns => "RecentTurns"@,
        ContextLane::ToolSchemas => "ToolSchemas"@,
    }
}

/// What an event shows when it is played. The input of a call is written as its text is read.
pub open spec fn event_shown(event: EventView) -> Seq<ReplayView> {
    match event {
        EventView::ContextBuilt { turn_id, context, .. } => Seq::new(
            context.fragments.len(),
            |i: int|
                ReplayView::ContextFragment {
                    turn_id,
                    lane: lane_name(context.fragments[i].lane),
                    source: context.fragments[i].source,
                    content: context.fragments[i].content,
                },
        ),
        EventView::ModelResponded { turn_id, output, .. } => seq![
            ReplayView::ModelMessage { turn_id, role: "Assistant"@, content: output },
        ],
        EventView::ToolCallProposed { turn_id, call, .. } => seq![
            ReplayView::ToolCall {
                turn_id,
                call_id: call.id,
                tool: call.tool,
                input: json::json_text(json::json_parsed(json::json_text(call.input))->Ok_0),
            },
        ],
        EventView::ToolFinished { result, .. } => seq![
            ReplayView::ToolResult { call_id: result.call_id, summary: result.summary },
        ],
        EventView::PolicyEvaluated { call_id, decision: PolicyView::Deny { reason }, .. } => seq![
            ReplayView::PolicyDenied { call_id, reason },
        ],
        EventView::ApprovalGranted { call_id, actor_id, .. } => seq![
            ReplayView::ApprovalGranted { call_id, actor_id },
        ],
        EventView::ApprovalDenied { call_id, actor_id, reason, .. } => seq![
            ReplayView::ApprovalDenied { call_id, actor_id, reason },
        ],
        EventView::ToolFailed { call_id, reason, .. } => seq![
            ReplayView::ToolFailed { call_id, reason },
        ],
        _ => Seq::empty(),
    }
}

/// What events show when they are played, one after the other.
pub open spec fn shown(events: Seq<EventView>) -> Seq<ReplayView>
    decreases events.len(),
{
    if events.len() == 0 {
        Seq::empty()
    } else {
        shown(events.drop_last()) + event_shown(events.last())
    }
}

/// `platonic_core::RunReadback::from_events` on the records whose events `serde_json::from_str`
/// reads. It plays the records from a new run state on, and gives a readback exactly where each
/// stands at its place and is accepted; the readback's next place is then the number of records, and
/// its entries are what the events show.
#[verifier::external_body]
fn replay_records(records: &Vec<StoredRecord>) -> (r: Result<RunReadback, CoreError>)
    ensures
        replay_answer(r) == replayed(ledger::stored_views(records@)),
        r is Ok <==> replays(ledger::stored_views(records@)),
        r matches Ok(readback) ==> readback_contents(readback).next_seq == records@.len(),
        r matches Ok(readback) ==> forall|events: Seq<EventView>| #[trigger]
            ledger::records_hold(ledger::stored_views(records@), events) ==> readback_contents(
                readback,
            ).entries == shown(events),
{
    let mut events = Vec::new();
    for record in records {
        let event = serde_json::from_str(&record.event_json);
        let event = event.map_err(|e| CoreError::Rejected(e.to_string()))?;
        events.push(CoreRecord { seq: record.seq, occurred_at_ms: record.occurred_at_ms, event });
    }
    RunReadback::from_events(&events).map_err(
        |error| match error {
            KernelError::EmptyIdentifier(kind) => CoreError::EmptyIdentifier(kind.to_owned()),
            KernelError::ContextBudgetExceeded { used, budget } =>
                CoreError::ContextBudgetExceeded { used, budget },
            other => CoreError::Rejected(other.to_string()),
        },
    )
}

/// The number of entries of a `platonic_core::RunReadback`.
#[verifier::external_body]
fn entry_count(readback: &RunReadback) -> (r: usize)
    ensures
        r == readback_contents(*readback).entries.len(),
{
    readback.entries.len()
}

/// The `Debug` form of the final phase of a `platonic_core::RunReadback`.
#[verifier::external_body]
fn final_phase(readback: &RunReadback) -> (r: String)
    ensures
        r@ == readback_contents(*readback).final_phase,
{
    format!("{:?}", readback.final_phase)
}

/// The next place of a `platonic_core::RunReadback`.
#[verifier::external_body]
fn next_place(readback: &RunReadback) -> (r: u64)
    ensures
        r == readback_contents(*readback).next_seq,
{
    readback.next_seq
}

/// The entries that belong to a turn.
pub open spec fn turn_entry_of(entry: ReplayView) -> Option<ReplayView> {
    match entry {
        ReplayView::ContextFragment { .. } => Some(entry),
        ReplayView::ModelMessage { .. } => Some(entry),
        ReplayView::ToolCall { .. } => Some(entry),
        _ => None,
    }
}

/// The entries that belong to a call.
pub open spec fn call_entry_of(entry: ReplayView) -> Option<ReplayView> {
    match turn_entry_of(entry) {
        Some(_) => None,
        None => Some(entry),
    }
}

/// What an optional entry stands for.
pub open spec fn opt_replay(entry: Option<ReplayEntry>) -> Option<ReplayView> {
    match entry {
        Some(entry) => Some(entry@),
        None => None,
    }
}

/// An entry of a `platonic_core::RunReadback` that belongs to a turn: a context fragment, a message
/// of the model or a tool call.
#[verifier::external_body]
fn turn_entry(readback: &RunReadback, index: usize) -> (r: Option<ReplayEntry>)
    requires
        index < readback_contents(*readback).entries.len(),
    ensures
        opt_replay(r) == turn_entry_of(readback_contents(*readback).entries[index as int]),
{
    match &readback.entries[index] {
        CoreEntry::ContextFragment { turn_id, fragment } => Some(ReplayEntry::ContextFragment {
            turn_id: turn_id.to_string(), lane: format!("{:?}", fragment.lane),
            source: fragment.source.clone(), content: fragment.content.clone() }),
        CoreEntry::ModelMessage { turn_id, message } => Some(ReplayEntry::ModelMessage {
            turn_id: turn_id.to_string(), role: format!("{:?}", message.role), content: message.content.clone() }),
        CoreEntry::ToolCall { turn_id, call } => Some(ReplayEntry::ToolCall { turn_id: turn_id.to_string(),
            call_id: call.id.to_string(), tool: call.tool.to_string(), input: call.input.to_string() }),
        _ => None,
    }
}

/// An entry of a `platonic_core::RunReadback` that belongs to a call: its result, its denial, its
/// approval or its failure.
#[verifier::external_body]
fn call_entry(readback: &RunReadback, index: usize) -> (r: Option<ReplayEntry>)
    requires
        index < readback_contents(*readback).entries.len(),
    ensures
        opt_replay(r) == call_entry_of(readback_contents(*readback).entries[index as int]),
{
    match readback.entries[index].clone() {
        CoreEntry::ToolResult { result } => Some(ReplayEntry::ToolResult {
            call_id: result.call_id.to_string(), summary: result.summary }),
        CoreEntry::PolicyDenied { call_id, reason } => Some(ReplayEntry::PolicyDenied {
            call_id: call_id.to_string(), reason }),
        CoreEntry::ApprovalGranted { call_id, actor_id } => Some(ReplayEntry::ApprovalGranted {
            call_id: call_id.to_string(), actor_id: actor_id.to_string() }),
        CoreEntry::ApprovalDenied { call_id, actor_id, reason } => Some(ReplayEntry::ApprovalDenied {
            call_id: call_id.to_string(), actor_id: actor_id.to_string(), reason }),
        CoreEntry::ToolFailed { call_id, reason } => Some(ReplayEntry::ToolFailed {
            call_id: call_id.to_string(), reason }),
        _ => None,
    }
}

/// Whether an answer is what playing the records gives.
pub open spec fn plays(r: AppResult<Readback>, records: Seq<StoredView>) -> bool {
    match replayed(records) {
        Ok(readback) => r matches Ok(given) && given@ == readback,
        Err(due) => r matches Err(AppError::Core(error)) && error@ == due,
    }
}

/// Whether playing records shows the events that they hold.
pub open spec fn tells(records: Seq<StoredView>) -> bool {
    replayed(records) matches Ok(readback) ==> forall|events: Seq<EventView>| #[trigger]
        ledger::records_hold(records, events) ==> readback.entries == shown(events)
}

/// Plays records again. What comes out shows the events that the records hold.
pub fn replay(records: &Vec<StoredRecord>) -> (r: AppResult<Readback>)
    ensures
        plays(r, ledger::stored_views(records@)),
        tells(ledger::stored_views(records@)),
        r is Ok <==> replays(ledger::stored_views(records@)),
        r matches Ok(readback) ==> readback.next_seq == records@.len(),
{
    let readback = match replay_records(records) {
        Ok(readback) => readback,
        Err(error) => {
            return Err(AppError::Core(error));
        },
    };
    let ghost contents = readback_contents(readback);
    let mut entries: Vec<ReplayEntry> = Vec::new();
    let count: usize = entry_count(&readback);
    for i in 0..count
        invariant
            contents == readback_contents(readback),
            count == contents.entries.len(),
            entries@.len() == i,
            forall|j: int| 0 <= j < i ==> (#[trigger] entries@[j])@ == contents.entries[j],
    {
        let entry = match turn_entry(&readback, i) {
            Some(entry) => Some(entry),
            None => call_entry(&readback, i),
        };
        if let Some(entry) = entry {
            entries.push(entry);
        }
    }
    assert(replay_views(entries@) =~= contents.entries);
    Ok(
        Readback {
            entries,
            final_phase: final_phase(&readback),
            next_seq: next_place(&readback),
        },
    )
}

/// An entry in one line.
pub open spec fn entry_line(entry: ReplayView) -> Seq<char> {
    match entry {
        ReplayView::ContextFragment { turn_id, lane, source, content } => "["@ + turn_id
            + "] context "@ + lane + " "@ + source + ": "@ + content,
        ReplayView::ModelMessage { turn_id, role, content } => "["@ + turn_id + "] "@
            + text::lower_text(role) + ": "@ + content,
        ReplayView::ToolCall { turn_id, call_id, tool, input } => "["@ + turn_id + "] tool_call "@
            + tool + " "@ + input,
        ReplayView::ToolResult { call_id, summary } => "tool_result "@ + call_id + ": "@ + summary,
        ReplayView::PolicyDenied { call_id, reason } => "policy_denied "@ + call_id + ": "@
            + reason,
        ReplayView::ApprovalGranted { call_id, actor_id } => "approval_granted "@ + call_id
            + " by "@ + actor_id,
        ReplayView::ApprovalDenied { call_id, actor_id, reason } => "approval_denied "@ + call_id
            + " by "@ + actor_id + ": "@ + reason,
        ReplayView::ToolFailed { call_id, reason } => "tool_failed "@ + call_id + ": "@ + reason,
    }
}

/// The lines of a played run.
pub open spec fn readback_lines(readback: ReadbackView) -> Seq<Seq<char>> {
    seq![
        "final_phase: "@ + readback.final_phase,
        "next_seq: "@ + text::decimal(readback.next_seq),
    ] + Seq::new(readback.entries.len(), |i: int| entry_line(readback.entries[i]))
}

/// A played run as text.
pub open spec fn readback_text(readback: ReadbackView) -> Seq<char> {
    text::joined(readback_lines(readback), "\n"@)
}

fn line_of(entry: &ReplayEntry) -> (r: String)
    ensures
        r@ == entry_line(entry@),
{
    match entry {
        ReplayEntry::ContextFragment { turn_id, lane, source, content } => {
            let mut line = text::text4("[", turn_id.as_str(), "] context ", lane.as_str());
            line.append(" ");
            line.append(source.as_str());
            line.append(": ");
            line.append(content.as_str());
            line
        },
        ReplayEntry::ModelMessage { turn_id, role, content } => {
            let name = text::to_lower(role.as_str());
            let mut line = text::text4("[", turn_id.as_str(), "] ", name.as_str());
            line.append(": ");
            line.append(content.as_str());
            line
        },
        ReplayEntry::ToolCall { turn_id, call_id: _, tool, input } => {
            let mut line = text::text4("[", turn_id.as_str(), "] tool_call ", tool.as_str());
            line.append(" ");
            line.append(input.as_str());
            line
        },
        ReplayEntry::ToolResult { call_id, summary } => text::text4(
            "tool_result ",
            call_id.as_str(),
            ": ",
            summary.as_str(),
        ),
        ReplayEntry::PolicyDenied { call_id, reason } => text::text4(
            "policy_denied ",
            call_id.as_str(),
            ": ",
            reason.as_str(),
        ),
        ReplayEntry::ApprovalGranted { call_id, actor_id } => text::text4(
            "approval_granted ",
            call_id.as_str(),
            " by ",
            actor_id.as_str(),
        ),
        ReplayEntry::ApprovalDenied { call_id, actor_id, reason } => {
            let mut line = text::text4(
                "approval_denied ",
                call_id.as_str(),
                " by ",
                actor_id.as_str(),
            );
            line.append(": ");
            line.append(reason.as_str());
            line
        },
        ReplayEntry::ToolFailed { call_id, reason } => text::text4(
            "tool_failed ",
            call_id.as_str(),
            ": ",
            reason.as_str(),
        ),
    }
}

/// A played run as text.
pub fn format_readback(readback: &Readback) -> (r: String)
    ensures
        r@ == readback_text(readback@),
{
    let mut lines: Vec<String> = Vec::new();
    lines.push(text::text2("final_phase: ", readback.final_phase.as_str()));
    lines.push(text::text2("next_seq: ", text::decimal_u64(readback.next_seq).as_str()));
    for i in 0..readback.entries.len()
        invariant
            lines@.len() == i + 2,
            lines@[0]@ == "final_phase: "@ + readback@.final_phase,
            lines@[1]@ == "next_seq: "@ + text::decimal(readback@.next_seq),
            forall|j: int|
                0 <= j < i ==> (#[trigger] lines@[j + 2])@ == entry_line(readback.entries@[j]@),
    {
        let line = line_of(&readback.entries[i]);
        let ghost before = lines@;
        lines.push(line);
        proof {
            assert forall|j: int| 0 <= j < i + 1 implies (#[trigger] lines@[j + 2])@ == entry_line(
                readback.entries@[j]@,
            ) by {
                if j < i {
                    assert(lines@[j + 2] == before[j + 2]);
                }
            }
        }
    }
    proof {
        let wanted = readback_lines(readback@);
        assert(text::views(lines@) =~= wanted) by {
            assert forall|k: int| 0 <= k < wanted.len() implies text::views(lines@)[k]
                == wanted[k] by {
                if k >= 2 {
                    assert(lines@[(k - 2) + 2]@ == entry_line(readback.entries@[k - 2]@));
                }
            }
        }
    }
    text::join(&lines, "\n")
}

/// The lines of the runs of a session that are played: for each its name, and then what it shows.
pub open spec fn session_lines(names: Seq<Seq<char>>, texts: Seq<Seq<char>>) -> Seq<Seq<char>>
    decreases names.len(),
{
    if names.len() == 0 || texts.len() == 0 {
        Seq::empty()
    } else {
        session_lines(names.drop_last(), texts.drop_last()).push("run_id: "@ + names.last()).push(
            texts.last(),
        )
    }
}

/// The names of the runs of a session.
pub open spec fn session_names(session: SessionRecords) -> Seq<Seq<char>> {
    Seq::new(session.runs@.len(), |i: int| session.runs@[i].run_id@)
}

/// The records of a run of a session.
pub open spec fn session_records(session: SessionRecords, i: int) -> Seq<StoredView> {
    ledger::stored_views(session.runs@[i].records@)
}

/// The texts of the first `n` runs of a session, played.
pub open spec fn session_texts(session: SessionRecords, n: nat) -> Seq<Seq<char>> {
    Seq::new(n, |i: int| readback_text(replayed(session_records(session, i))->Ok_0))
}

/// A played session as text.
pub open spec fn session_text(session: SessionRecords) -> Seq<char> {
    text::joined(
        seq!["session_id: "@ + session.session_id@] + session_lines(
            session_names(session),
            session_texts(session, session.runs@.len()),
        ),
        "\n"@,
    )
}

/// The runs of a session, played, as text; the first run that cannot be played is the error.
pub fn format_session_readback(session: &SessionRecords) -> (r: AppResult<String>)
    ensures
        r is Ok <==> forall|i: int|
            0 <= i < session.runs@.len() ==> replays(#[trigger] session_records(*session, i)),
        r matches Ok(shown) ==> shown@ == session_text(*session),
        r is Ok ==> forall|i: int|
            0 <= i < session.runs@.len() ==> tells(#[trigger] session_records(*session, i)),
        r matches Err(error) ==> exists|i: int|
            0 <= i < session.runs@.len() && (error matches AppError::Core(core) && replayed(
                #[trigger] session_records(*session, i),
            ) == Err::<ReadbackView, CoreErrorView>(core@)) && !replays(
                session_records(*session, i),
            ) && forall|j: int| 0 <= j < i ==> replays(#[trigger] session_records(*session, j)),
{
    let ghost names = session_names(*session);
    let mut lines: Vec<String> = Vec::new();
    lines.push(text::text2("session_id: ", session.session_id.as_str()));
    let ghost head = seq!["session_id: "@ + session.session_id@];
    assert(names.take(0) =~= Seq::empty());
    assert(text::views(lines@) =~= head + session_lines(
        names.take(0),
        session_texts(*session, 0),
    ));
    for i in 0..session.runs.len()
        invariant
            names == session_names(*session),
            head == seq!["session_id: "@ + session.session_id@],
            text::views(lines@) == head + session_lines(
                names.take(i as int),
                session_texts(*session, i as nat),
            ),
            forall|j: int| 0 <= j < i ==> replays(#[trigger] session_records(*session, j)),
            forall|j: int| 0 <= j < i ==> tells(#[trigger] session_records(*session, j)),
    {
        proof {
            assert(names.take(i + 1).drop_last() =~= names.take(i as int));
            assert(names.take(i + 1).last() == names[i as int]);
            assert(session_texts(*session, (i + 1) as nat).drop_last() =~= session_texts(
                *session,
                i as nat,
            ));
        }
        let ghost before = text::views(lines@);
        let run = &session.runs[i];
        assert(session_records(*session, i as int) == ledger::stored_views(run.records@));
        lines.push(text::text2("run_id: ", run.run_id.as_str()));
        match replay(&run.records) {
            Ok(readback) => {
                lines.push(format_readback(&readback));
                proof {
                    let shown = readback_text(readback@);
                    assert(session_texts(*session, (i + 1) as nat).last() == shown);
                    assert(text::views(lines@) =~= before.push("run_id: "@ + run.run_id@).push(
                        shown,
                    ));
                    assert(text::views(lines@) =~= head + session_lines(
                        names.take(i + 1),
                        session_texts(*session, (i + 1) as nat),
                    ));
                }
            },
            Err(error) => {
                assert(!replays(session_records(*session, i as int)));
                return Err(error);
            },
        }
    }
    assert(names.take(names.len() as int) =~= names);
    Ok(text::join(&lines, "\n"))
}

/// The entries of a played run for its transcript: what was asked comes first; context and messages
/// without text are left out.
pub open spec fn typed_entry(entry: ReplayView) -> Option<EntryView> {
    match entry {
        ReplayView::ContextFragment { .. } => None,
        ReplayView::ModelMessage { turn_id, role, content } => if content.len() == 0 {
            None
        } else {
            Some(EntryView::Assistant { text: content })
        },
        ReplayView::ToolCall { turn_id, call_id, tool, input } => Some(
            EntryView::ToolCall {
                call_id,
                tool,
                input: match json::json_parsed(input) {
                    Ok(value) => value,
                    Err(_) => JsonView::Text(input),
                },
            },
        ),
        ReplayView::ToolResult { call_id, summary } => Some(
            EntryView::ToolResult { call_id, summary },
        ),
        ReplayView::PolicyDenied { call_id, reason } => Some(
            EntryView::PolicyDenied { call_id, reason },
        ),
        ReplayView::ApprovalGranted { call_id, actor_id } => Some(
            EntryView::Approval {
                call_id,
                decision: ApprovalDecisionName::Granted,
                actor_id,
                reason: None,
            },
        ),
        ReplayView::ApprovalDenied { call_id, actor_id, reason } => Some(
            EntryView::Approval {
                call_id,
                decision: ApprovalDecisionName::Denied,
                actor_id,
                reason: Some(reason),
            },
        ),
        ReplayView::ToolFailed { call_id, reason } => Some(
            EntryView::ToolFailed { call_id, error: reason },
        ),
    }
}

/// The entries of a played run for its transcript, after the question.
pub open spec fn typed_entries(question: Seq<char>, entries: Seq<ReplayView>) -> Seq<EntryView>
    decreases entries.len(),
{
    if entries.len() == 0 {
        seq![EntryView::User { text: question }]
    } else {
        let before = typed_entries(question, entries.drop_last());
        match typed_entry(entries.last()) {
            Some(entry) => before.push(entry),
            None => before,
        }
    }
}

fn typed_of(entry: &ReplayEntry) -> (r: Option<TypedTranscriptEntry>)
    ensures
        transcript::opt_entry(r) == typed_entry(entry@),
{
    match entry {
        ReplayEntry::ContextFragment { .. } => None,
        ReplayEntry::ModelMessage { turn_id: _, role: _, content } => {
            if content.as_str().unicode_len() == 0 {
                None
            } else {
                Some(TypedTranscriptEntry::Assistant { text: content.clone() })
            }
        },
        ReplayEntry::ToolCall { turn_id: _, call_id, tool, input } => {
            let value = match Json::parse(input.as_str()) {
                Ok(value) => value,
                Err(_) => Json::text(input.as_str()),
            };
            Some(
                TypedTranscriptEntry::ToolCall {
                    call_id: call_id.clone(),
                    tool: tool.clone(),
                    input: value,
                },
            )
        },
        ReplayEntry::ToolResult { call_id, summary } => Some(
            TypedTranscriptEntry::ToolResult { call_id: call_id.clone(), summary: summary.clone() },
        ),
        ReplayEntry::PolicyDenied { call_id, reason } => Some(
            TypedTranscriptEntry::PolicyDenied { call_id: call_id.clone(), reason: reason.clone() },
        ),
        ReplayEntry::ApprovalGranted { call_id, actor_id } => Some(
            TypedTranscriptEntry::Approval {
                call_id: call_id.clone(),
                decision: ApprovalDecisionName::Granted,
                actor_id: actor_id.clone(),
                reason: None,
            },
        ),
        ReplayEntry::ApprovalDenied { call_id, actor_id, reason } => Some(
            TypedTranscriptEntry::Approval {
                call_id: call_id.clone(),
                decision: ApprovalDecisionName::Denied,
                actor_id: actor_id.clone(),
                reason: Some(reason.clone()),
            },
        ),
        ReplayEntry::ToolFailed { call_id, reason } => Some(
            TypedTranscriptEntry::ToolFailed { call_id: call_id.clone(), error: reason.clone() },
        ),
    }
}

/// A played run for its transcript.
pub fn typed_run(
    run_id: &str,
    session_index: u64,
    status: RunStateName,
    question: &str,
    readback: &Readback,
) -> (r: TypedRun)
    ensures
        r@ == (TypedRunView {
            run_id: run_id@,
            session_index,
            status,
            entries: typed_entries(question@, readback@.entries),
        }),
{
    let ghost all = readback@.entries;
    let mut entries: Vec<TypedTranscriptEntry> = Vec::new();
    entries.push(TypedTranscriptEntry::User { text: question.to_owned() });
    assert(all.take(0) =~= Seq::empty());
    assert(transcript::entry_views(entries@) =~= typed_entries(question@, all.take(0)));
    for i in 0..readback.entries.len()
        invariant
            all == readback@.entries,
            transcript::entry_views(entries@) == typed_entries(question@, all.take(i as int)),
    {
        proof {
            assert(all.take(i + 1).drop_last() =~= all.take(i as int));
            assert(all.take(i + 1).last() == all[i as int]);
        }
        let ghost before = transcript::entry_views(entries@);
        if let Some(entry) = typed_of(&readback.entries[i]) {
            let ghost added = entry@;
            entries.push(entry);
            assert(transcript::entry_views(entries@) =~= before.push(added));
        }
    }
    assert(all.take(all.len() as int) =~= all);
    TypedRun { run_id: run_id.to_owned(), session_index, status, entries }
}

/// The text of a run, played, or of the latest session where no run is named; where there is no
/// session yet, that of the latest run. It shows the events that the records hold.
pub fn replay_sqlite(tables: &SqliteLedger, run_id: Option<&str>) -> (r: AppResult<String>)
    ensures
        run_id matches Some(name) ==> shows_run(r, *tables, name@),
        run_id is None ==> match ledger::latest_session(tables@.sessions) {
            Some(row) => shows_session(r, *tables, row.session_id),
            None => match ledger::latest_event(tables@.events) {
                Some(row) => shows_run(r, *tables, row.run_id),
                None => r matches Err(AppError::NoSqliteRuns),
            },
        },
        r is Ok ==> match (run_id, ledger::latest_session(tables@.sessions)) {
            (Some(name), _) => tells(run_records(tables@, name@)),
            (None, Some(row)) => runs_tell(tables@, row.session_id),
            (None, None) => tells(
                run_records(tables@, ledger::latest_event(tables@.events)->Some_0.run_id),
            ),
        },
{
    match run_id {
        Some(run_id) => replay_run(tables, run_id),
        None => match tables.latest_session_id() {
            Ok(session_id) => replay_sqlite_session(tables, session_id.as_str()),
            Err(AppError::NoSqliteSessions) => match tables.latest_run_id() {
                Ok(run_id) => replay_run(tables, run_id.as_str()),
                Err(error) => Err(error),
            },
            Err(error) => Err(error),
        },
    }
}

/// Whether an answer is the text of a run, played, or why it cannot be played.
pub open spec fn shows_run(r: AppResult<String>, tables: SqliteLedger, run_id: Seq<char>) -> bool {
    let rows = ledger::events_of(tables@.events, run_id);
    if ledger::readable(rows) && rows.len() > 0 {
        match replayed(ledger::records_of(rows)) {
            Ok(readback) => r matches Ok(shown) && shown@ == readback_text(readback),
            Err(due) => r matches Err(AppError::Core(error)) && error@ == due,
        }
    } else {
        r matches Err(error) && ledger::reads_run(Err(error), tables@.events, run_id)
    }
}

/// Whether an answer is the text of a session, played, or why it cannot be played.
pub open spec fn shows_session(
    r: AppResult<String>,
    tables: SqliteLedger,
    session_id: Seq<char>,
) -> bool {
    if !ledger::has_session(tables@.sessions, session_id) {
        r matches Err(AppError::SessionNotFound(name)) && name@ == session_id
    } else {
        let own = ledger::runs_of(tables@.runs, session_id);
        if forall|k: int|
            0 <= k < own.len() ==> run_plays(tables@, (#[trigger] own[k]).run_id) {
            r matches Ok(shown) && shown@ == text::joined(
                seq!["session_id: "@ + session_id] + session_lines(
                    Seq::new(own.len(), |k: int| own[k].run_id),
                    Seq::new(
                        own.len(),
                        |k: int| readback_text(replayed(run_records(tables@, own[k].run_id))->Ok_0),
                    ),
                ),
                "\n"@,
            )
        } else {
            r matches Err(error) && exists|k: int|
                0 <= k < own.len() && #[trigger] breaks_at(tables@, own, k) && shows_run(
                    Err(error),
                    tables,
                    own[k].run_id,
                )
        }
    }
}

/// Whether the records of a run can be read.
pub open spec fn run_reads(tables: ledger::LedgerView, run_id: Seq<char>) -> bool {
    let rows = ledger::events_of(tables.events, run_id);
    ledger::readable(rows) && rows.len() > 0
}

/// Whether the run at `k` is the one that keeps a session from being shown: the first that cannot be
/// read, or the first that cannot be played where all can be read.
pub open spec fn breaks_at(
    tables: ledger::LedgerView,
    own: Seq<ledger::RunRowView>,
    k: int,
) -> bool {
    if forall|j: int| 0 <= j < own.len() ==> run_reads(tables, (#[trigger] own[j]).run_id) {
        !run_plays(tables, own[k].run_id) && forall|j: int|
            0 <= j < k ==> run_plays(tables, (#[trigger] own[j]).run_id)
    } else {
        !run_reads(tables, own[k].run_id) && forall|j: int|
            0 <= j < k ==> run_reads(tables, (#[trigger] own[j]).run_id)
    }
}

/// The records of a run.
pub open spec fn run_records(tables: ledger::LedgerView, run_id: Seq<char>) -> Seq<StoredView> {
    ledger::records_of(ledger::events_of(tables.events, run_id))
}

/// Whether a run can be read and played.
pub open spec fn run_plays(tables: ledger::LedgerView, run_id: Seq<char>) -> bool {
    let rows = ledger::events_of(tables.events, run_id);
    ledger::readable(rows) && rows.len() > 0 && replays(ledger::records_of(rows))
}

/// Whether playing the runs of a session shows the events that their records hold.
pub open spec fn runs_tell(tables: ledger::LedgerView, session_id: Seq<char>) -> bool {
    let own = ledger::runs_of(tables.runs, session_id);
    forall|k: int| 0 <= k < own.len() ==> tells(run_records(tables, (#[trigger] own[k]).run_id))
}

fn replay_run(tables: &SqliteLedger, run_id: &str) -> (r: AppResult<String>)
    ensures
        shows_run(r, *tables, run_id@),
        r is Ok ==> tells(run_records(tables@, run_id@)),
{
    match tables.read_run(run_id) {
        Ok(records) => match replay(&records) {
            Ok(readback) => Ok(format_readback(&readback)),
            Err(error) => Err(error),
        },
        Err(error) => Err(error),
    }
}

/// The text of a session, played. It shows the events that the records hold.
pub fn replay_sqlite_session(tables: &SqliteLedger, session_id: &str) -> (r: AppResult<String>)
    ensures
        shows_session(r, *tables, session_id@),
        r is Ok ==> runs_tell(tables@, session_id@),
{
    let ghost own = ledger::runs_of(tables@.runs, session_id@);
    let session = match tables.read_session(session_id) {
        Ok(session) => session,
        Err(error) => {
            proof {
                if ledger::has_session(tables@.sessions, session_id@) {
                    let k = choose|k: int|
                        0 <= k < own.len() && ledger::reads_run(
                            Err(error),
                            tables@.events,
                            (#[trigger] own[k]).run_id,
                        ) && forall|j: int|
                            0 <= j < k ==> ledger::readable(
                                ledger::events_of(tables@.events, (#[trigger] own[j]).run_id),
                            ) && ledger::events_of(tables@.events, own[j].run_id).len() > 0;
                    assert(!run_plays(tables@, own[k].run_id));
                    assert(!run_reads(tables@, own[k].run_id));
                    assert forall|j: int| 0 <= j < k implies run_reads(
                        tables@,
                        (#[trigger] own[j]).run_id,
                    ) by {}
                    assert(breaks_at(tables@, own, k));
                }
            }
            return Err(error);
        },
    };
    proof {
        assert forall|k: int| 0 <= k < own.len() implies session_records(session, k)
            == run_records(tables@, (#[trigger] own[k]).run_id) && ledger::readable(
            ledger::events_of(tables@.events, own[k].run_id),
        ) && ledger::events_of(tables@.events, own[k].run_id).len() > 0 by {
            assert(ledger::reads_run(
                Ok(session.runs@[k].records),
                tables@.events,
                own[k].run_id,
            ));
        }
        assert(session_names(session) =~= Seq::new(own.len(), |k: int| own[k].run_id));
        assert(session_texts(session, own.len()) =~= Seq::new(
            own.len(),
            |k: int| readback_text(replayed(run_records(tables@, own[k].run_id))->Ok_0),
        ));
    }
    let r = format_session_readback(&session);
    proof {
        if r is Ok {
            assert forall|k: int| 0 <= k < own.len() implies run_plays(
                tables@,
                (#[trigger] own[k]).run_id,
            ) && tells(run_records(tables@, own[k].run_id)) by {
                assert(replays(session_records(session, k)));
                assert(tells(session_records(session, k)));
            }
        } else {
            let i = choose|i: int|
                0 <= i < session.runs@.len() && (r->Err_0 matches AppError::Core(core) && replayed(
                    #[trigger] session_records(session, i),
                ) == Err::<ReadbackView, CoreErrorView>(core@)) && !replays(
                    session_records(session, i),
                ) && forall|j: int| 0 <= j < i ==> replays(#[trigger] session_records(session, j));
            assert(!run_plays(tables@, own[i].run_id));
            assert forall|j: int| 0 <= j < i implies run_plays(
                tables@,
                (#[trigger] own[j]).run_id,
            ) by {
                assert(replays(session_records(session, j)));
            }
            assert(breaks_at(tables@, own, i));
        }
    }
    r
}

/// A run of a session that plays, for its transcript.
pub open spec fn typed_run_of(tables: ledger::LedgerView, row: ledger::RunRowView) -> TypedRunView {
    TypedRunView {
        run_id: row.run_id,
        session_index: row.session_index,
        status: row.status,
        entries: typed_entries(
            row.question,
            replayed(run_records(tables, row.run_id))->Ok_0.entries,
        ),
    }
}

/// The transcript of a run that plays.
pub open spec fn run_transcript(tables: ledger::LedgerView, row: ledger::RunRowView) -> ReadView {
    ReadView {
        run_id: row.run_id,
        status: row.status,
        final_answer: row.final_answer,
        transcript: readback_text(replayed(run_records(tables, row.run_id))->Ok_0),
        typed: Some(seq![typed_run_of(tables, row)]),
        pending_approval: None,
    }
}

/// The transcript of a run: how it stands, what it shows when it is played, and its entries. They
/// show the events that the records hold.
pub fn read_run_transcript(tables: &SqliteLedger, run_id: &str) -> (r: AppResult<
    TranscriptReadResult,
>)
    requires
        tables.wf(),
    ensures
        !ledger::has_run(tables@.runs, run_id@) ==> (r matches Err(AppError::RunNotFound(name))
            && name@ == run_id@),
        ledger::has_run(tables@.runs, run_id@) && !run_plays(tables@, run_id@) ==> (r matches Err(
            error,
        ) && shows_run(Err(error), *tables, run_id@)),
        ledger::has_run(tables@.runs, run_id@) && run_plays(tables@, run_id@) ==> (r matches Ok(
            read,
        ) && forall|i: int|
            0 <= i < tables@.runs.len() && (#[trigger] tables@.runs[i]).run_id == run_id@
                ==> read@ == run_transcript(tables@, tables@.runs[i])),
        r is Ok ==> tells(run_records(tables@, run_id@)),
{
    let at = tables.run_place(run_id);
    if at == tables.runs.len() {
        return Err(AppError::RunNotFound(run_id.to_owned()));
    }
    let records = match tables.read_run(run_id) {
        Ok(records) => records,
        Err(error) => {
            return Err(error);
        },
    };
    let readback = match replay(&records) {
        Ok(readback) => readback,
        Err(error) => {
            return Err(error);
        },
    };
    let row = &tables.runs[at];
    let transcript = format_readback(&readback);
    let typed = typed_run(run_id, row.session_index, row.status, row.question.as_str(), &readback);
    let runs = vec![typed];
    let read = TranscriptReadResult {
        run_id: row.run_id.clone(),
        status: row.status,
        final_answer: text::copy_option(&row.final_answer),
        transcript,
        typed: Some(TypedTranscript { runs }),
        pending_approval: None,
    };
    proof {
        assert(tables@.runs[at as int] == row@);
        assert(transcript::run_views(runs@) =~= seq![typed_run_of(tables@, row@)]);
    }
    Ok(read)
}

/// The transcript of a session all of whose runs play.
pub open spec fn session_transcript(
    tables: ledger::LedgerView,
    session_id: Seq<char>,
    shown: Seq<char>,
) -> ReadView {
    let own = ledger::runs_of(tables.runs, session_id);
    ReadView {
        run_id: own.last().run_id,
        status: own.last().status,
        final_answer: own.last().final_answer,
        transcript: shown,
        typed: Some(Seq::new(own.len(), |k: int| typed_run_of(tables, own[k]))),
        pending_approval: None,
    }
}

/// The transcript of a session: how its latest run stands, what its runs show when they are played,
/// and the entries of each, oldest run first. They show the events that the records hold.
pub fn read_session_transcript(tables: &SqliteLedger, session_id: &str) -> (r: AppResult<
    TranscriptReadResult,
>)
    requires
        tables.wf(),
    ensures
        ({
            let own = ledger::runs_of(tables@.runs, session_id@);
            &&& own.len() == 0 ==> (r matches Err(AppError::SessionNotFound(name)) && name@
                == session_id@)
            &&& own.len() > 0 ==> match r {
                Ok(read) => shows_session(Ok(read.transcript), *tables, session_id@) && read@
                    == session_transcript(tables@, session_id@, read.transcript@),
                Err(error) => shows_session(Err(error), *tables, session_id@),
            }
        }),
        r is Ok ==> runs_tell(tables@, session_id@),
{
    let status = match tables.latest_session_run_status(session_id) {
        Ok(status) => status,
        Err(error) => {
            return Err(error);
        },
    };
    let transcript = match replay_sqlite_session(tables, session_id) {
        Ok(transcript) => transcript,
        Err(error) => {
            return Err(error);
        },
    };
    let ghost own = ledger::runs_of(tables@.runs, session_id@);
    let ghost wanted = Seq::new(own.len(), |k: int| typed_run_of(tables@, own[k]));
    let places = tables.session_places(session_id);
    let mut runs: Vec<TypedRun> = Vec::new();
    assert(transcript::run_views(runs@) =~= wanted.take(0));
    for k in 0..places.len()
        invariant
            own == ledger::runs_of(tables@.runs, session_id@),
            wanted == Seq::new(own.len(), |k: int| typed_run_of(tables@, own[k])),
            places@.len() == own.len(),
            forall|j: int|
                0 <= j < places@.len() ==> (#[trigger] places@[j]) < tables.runs@.len()
                    && tables@.runs[places@[j] as int] == own[j],
            forall|j: int| 0 <= j < own.len() ==> run_plays(tables@, (#[trigger] own[j]).run_id),
            transcript::run_views(runs@) == wanted.take(k as int),
    {
        let row = &tables.runs[places[k]];
        assert(own[k as int] == row@);
        let records = match tables.read_run(row.run_id.as_str()) {
            Ok(records) => records,
            Err(error) => {
                return Err(error);
            },
        };
        let readback = match replay(&records) {
            Ok(readback) => readback,
            Err(error) => {
                return Err(error);
            },
        };
        let ghost before = transcript::run_views(runs@);
        runs.push(
            typed_run(
                row.run_id.as_str(),
                row.session_index,
                row.status,
                row.question.as_str(),
                &readback,
            ),
        );
        proof {
            assert(transcript::run_views(runs@) =~= before.push(wanted[k as int]));
            assert(wanted.take(k + 1) =~= before.push(wanted[k as int]));
        }
    }
    assert(wanted.take(wanted.len() as int) =~= wanted);
    Ok(
        TranscriptReadResult {
            run_id: status.run_id,
            status: status.status,
            final_answer: status.final_answer,
            transcript,
            typed: Some(TypedTranscript { runs }),
            pending_approval: None,
        },
    )
}

/// What a run that recorded events shows, whatever phase it ended in.
pub open spec fn told(events: Seq<EventView>, final_phase: Seq<char>) -> ReadbackView {
    ReadbackView { entries: shown(events), final_phase, next_seq: events.len() }
}

/// The text of a ledger file, played. A file with the lines that a run recorded shows its events.
pub fn replay_file(contents: &str) -> (r: AppResult<String>)
    ensures
        match ledger::lines_read(text::lines_of(contents@)) {
            Err(due) => r matches Err(error) && ledger::line_error_is(error, due),
            Ok(records) => match replayed(records) {
                Ok(readback) => r matches Ok(shown) && shown@ == readback_text(readback),
                Err(due) => r matches Err(AppError::Core(error)) && error@ == due,
            },
        },
        forall|times: Seq<u64>, events: Seq<EventView>| #[trigger]
            ledger::recorded_lines(text::lines_of(contents@), times, events) && harness::durable(
                ledger::event_texts(events),
            ) ==> (r matches Ok(shown) && exists|phase: Seq<char>|
                shown@ == readback_text(#[trigger] told(events, phase))),
{
    match ledger::read_records(contents) {
        Ok(records) => {
            let ghost stored = ledger::stored_views(records@);
            proof {
                assert forall|times: Seq<u64>, events: Seq<EventView>| #[trigger]
                    ledger::recorded_lines(text::lines_of(contents@), times, events)
                        && harness::durable(ledger::event_texts(events)) implies replays(stored)
                    && ledger::records_hold(stored, events) by {
                    assert(ledger::records_are(stored, times, events));
                    ledger::lemma_held_texts(stored, events);
                    assert(events_of(stored) =~= Seq::new(stored.len(), |i: int| stored[i].event));
                }
            }
            match replay(&records) {
                Ok(readback) => {
                    proof {
                        assert forall|times: Seq<u64>, events: Seq<EventView>| #[trigger]
                            ledger::recorded_lines(text::lines_of(contents@), times, events)
                                && harness::durable(
                                ledger::event_texts(events),
                            ) implies readback@ == told(events, readback@.final_phase) by {
                            assert(ledger::records_hold(stored, events));
                        }
                    }
                    Ok(format_readback(&readback))
                },
                Err(error) => Err(error),
            }
        },
        Err(error) => Err(error),
    }
}

/// A history that the kernel took stays one when the kernel takes one more event.
pub proof fn law_histories_grow(history: Seq<Seq<char>>, event: Seq<char>)
    requires
        accepted(history),
        harness::apply_error(history, event) is None,
    ensures
        accepted(history.push(event)),
{
    let after = history.push(event);
    assert forall|i: int| 0 <= i < after.len() implies harness::apply_error(
        after.take(i),
        #[trigger] after[i],
    ) is None by {
        if i < history.len() {
            assert(after.take(i) =~= history.take(i));
            assert(after[i] == history[i]);
        } else {
            assert(after.take(i) =~= history);
        }
    }
}

/// What a run wrote down can be played: the records of a history that the kernel took, each at its
/// place, are replayed, whatever their times.
pub proof fn law_written_runs_can_be_played(records: Seq<StoredView>, history: Seq<Seq<char>>)
    requires
        accepted(history),
        records.len() == history.len(),
        forall|i: int|
            0 <= i < records.len() ==> (#[trigger] records[i]).seq == i && records[i].event
                == history[i],
    ensures
        replays(records),
{
    assert(events_of(records) =~= history);
}

/// The records of a run that recorded events can be played, and hold the events, so that what is
/// shown of them is what was recorded.
pub proof fn law_recorded_runs_can_be_shown(
    records: Seq<StoredView>,
    times: Seq<u64>,
    events: Seq<EventView>,
)
    requires
        harness::durable(ledger::event_texts(events)),
        records.len() == events.len() == times.len(),
        events.len() <= u64::MAX,
        forall|i: int|
            0 <= i < records.len() ==> #[trigger] records[i] == ledger::stored(
                i as u64,
                times[i],
                events[i],
            ) && json::printable(harness::event_json(events[i]), json::depth_limit()),
    ensures
        replays(records),
        ledger::records_hold(records, events),
{
    assert forall|i: int| 0 <= i < records.len() implies ledger::record_holds(
        #[trigger] records[i],
        events[i],
    ) by {
        assert(records[i] == ledger::stored(i as u64, times[i], events[i]));
        json::lemma_own_text(harness::event_json(events[i]));
    }
    ledger::lemma_held_texts(records, events);
    assert(events_of(records) =~= Seq::new(records.len(), |i: int| records[i].event));
}

/// The rows of a run that recorded events can be read: each is of the version that is written, and
/// holds an event.
pub proof fn law_recorded_runs_can_be_read(
    rows: Seq<ledger::EventRowView>,
    times: Seq<u64>,
    events: Seq<EventView>,
)
    requires
        harness::durable(ledger::event_texts(events)),
        rows.len() == events.len() == times.len(),
        events.len() <= u64::MAX,
        forall|i: int|
            0 <= i < rows.len() ==> (#[trigger] rows[i]).version == ledger::LEDGER_VERSION
                && rows[i].record == ledger::stored(i as u64, times[i], events[i])
                && json::printable(harness::event_json(events[i]), json::depth_limit()),
    ensures
        ledger::readable(rows),
{
    let records = ledger::records_of(rows);
    assert forall|i: int| 0 <= i < records.len() implies ledger::record_holds(
        #[trigger] records[i],
        events[i],
    ) by {
        assert(rows[i].record == ledger::stored(i as u64, times[i], events[i]));
        json::lemma_own_text(harness::event_json(events[i]));
    }
    ledger::lemma_held_texts(records, events);
    let texts = Seq::new(records.len(), |i: int| records[i].event);
    assert forall|i: int| 0 <= i < rows.len() implies ledger::row_error(
        #[trigger] rows[i],
    ) is None by {
        assert(harness::event_complaint(texts[i]) is None);
    }
    lemma_sound_rows(rows);
}

proof fn lemma_sound_rows(rows: Seq<ledger::EventRowView>)
    requires
        forall|i: int| 0 <= i < rows.len() ==> ledger::row_error(#[trigger] rows[i]) is None,
    ensures
        ledger::readable(rows),
    decreases rows.len(),
{
    if rows.len() > 0 {
        let rest = rows.drop_last();
        assert forall|i: int| 0 <= i < rest.len() implies ledger::row_error(
            #[trigger] rest[i],
        ) is None by {
            assert(rest[i] == rows[i]);
        }
        lemma_sound_rows(rest);
        assert(rows[rows.len() - 1] == rows.last());
    }
}

/// Whether a line begins with a text.
pub open spec fn begins_with(line: Seq<char>, start: Seq<char>) -> bool {
    start.len() <= line.len() && line.take(start.len() as int) == start
}

/// Whether a line ends with a text.
pub open spec fn ends_with(line: Seq<char>, end: Seq<char>) -> bool {
    end.len() <= line.len() && line.skip(line.len() - end.len()) == end
}

proof fn lemma_begins(start: Seq<char>, rest: Seq<char>)
    ensures
        begins_with(start + rest, start),
        ends_with(start + rest, rest),
{
    assert((start + rest).take(start.len() as int) =~= start);
    assert((start + rest).skip(start.len() as int) =~= rest);
}

/// The word that a line of a kind of entry begins with; those of turns begin with the turn.
pub open spec fn leading_word(entry: ReplayView) -> Seq<char> {
    match entry {
        ReplayView::ContextFragment { turn_id, .. } => "["@ + turn_id + "]"@,
        ReplayView::ModelMessage { turn_id, .. } => "["@ + turn_id + "]"@,
        ReplayView::ToolCall { turn_id, .. } => "["@ + turn_id + "]"@,
        ReplayView::ToolResult { .. } => "tool_result "@,
        ReplayView::PolicyDenied { .. } => "policy_denied "@,
        ReplayView::ApprovalGranted { .. } => "approval_granted "@,
        ReplayView::ApprovalDenied { .. } => "approval_denied "@,
        ReplayView::ToolFailed { .. } => "tool_failed "@,
    }
}

proof fn lemma_leading_word(entry: ReplayView)
    ensures
        begins_with(entry_line(entry), leading_word(entry)),
{
    reveal_strlit("] context ");
    reveal_strlit("] ");
    reveal_strlit("]");
    reveal_strlit("] tool_call ");
    let line = entry_line(entry);
    let word = leading_word(entry);
    assert(line.len() >= word.len());
    assert(line.take(word.len() as int) =~= word);
}

/// The line of an entry tells what it is of: a line that begins with the word for a result, a refusal, a
/// failure or the answer of an approver stands for just that, and a line of a turn begins with none of
/// them.
pub proof fn law_lines_tell_their_kind(entry: ReplayView)
    ensures
        begins_with(entry_line(entry), "tool_result "@) <==> entry is ToolResult,
        begins_with(entry_line(entry), "policy_denied "@) <==> entry is PolicyDenied,
        begins_with(entry_line(entry), "approval_granted "@) <==> entry is ApprovalGranted,
        begins_with(entry_line(entry), "approval_denied "@) <==> entry is ApprovalDenied,
        begins_with(entry_line(entry), "tool_failed "@) <==> entry is ToolFailed,
        begins_with(entry_line(entry), "["@) <==> entry is ContextFragment || entry is ModelMessage
            || entry is ToolCall,
{
    let line = entry_line(entry);
    lemma_leading_word(entry);
    reveal_strlit("[");
    reveal_strlit("tool_result ");
    reveal_strlit("policy_denied ");
    reveal_strlit("approval_granted ");
    reveal_strlit("approval_denied ");
    reveal_strlit("tool_failed ");
    let word = leading_word(entry);
    assert(line.take(word.len() as int)[0] == line[0]);
    if word.len() > 9 {
        assert(line.take(word.len() as int)[5] == line[5]);
        assert(line.take(word.len() as int)[9] == line[9]);
    }
    if begins_with(line, "tool_result "@) {
        assert(line.take(12)[0] == line[0] && line.take(12)[5] == line[5]);
    }
    if begins_with(line, "policy_denied "@) {
        assert(line.take(14)[0] == line[0]);
    }
    if begins_with(line, "approval_granted "@) {
        assert(line.take(17)[0] == line[0] && line.take(17)[9] == line[9]);
    }
    if begins_with(line, "approval_denied "@) {
        assert(line.take(16)[0] == line[0] && line.take(16)[9] == line[9]);
    }
    if begins_with(line, "tool_failed "@) {
        assert(line.take(12)[0] == line[0] && line.take(12)[5] == line[5]);
    }
    if begins_with(line, "["@) {
        assert(line.take(1)[0] == line[0]);
    } else if entry is ContextFragment || entry is ModelMessage || entry is ToolCall {
        assert(line.take(1) =~= "["@);
    }
}

/// The lines of what came of a call name the call, directly behind the word, and end with what is to be
/// told: what a tool gave or why it failed, why the policy or the approver refused, who granted. The line
/// of a refusal by an approver also names the approver.
pub proof fn law_lines_tell_what_came_of_a_call(
    call_id: Seq<char>,
    actor_id: Seq<char>,
    told: Seq<char>,
)
    ensures
        ({
            let line = entry_line(ReplayView::ApprovalDenied { call_id, actor_id, reason: told });
            &&& begins_with(line, "approval_denied "@ + call_id + " by "@ + actor_id + ": "@)
            &&& ends_with(line, told)
            &&& line.len() == 22 + call_id.len() + actor_id.len() + told.len()
        }),
        ({
            let line = entry_line(ReplayView::ApprovalGranted { call_id, actor_id });
            &&& begins_with(line, "approval_granted "@ + call_id + " by "@)
            &&& ends_with(line, actor_id)
            &&& line.len() == 21 + call_id.len() + actor_id.len()
        }),
        ({
            let line = entry_line(ReplayView::PolicyDenied { call_id, reason: told });
            &&& begins_with(line, "policy_denied "@ + call_id + ": "@)
            &&& ends_with(line, told)
            &&& line.len() == 16 + call_id.len() + told.len()
        }),
        ({
            let line = entry_line(ReplayView::ToolFailed { call_id, reason: told });
            &&& begins_with(line, "tool_failed "@ + call_id + ": "@)
            &&& ends_with(line, told)
            &&& line.len() == 14 + call_id.len() + told.len()
        }),
        ({
            let line = entry_line(ReplayView::ToolResult { call_id, summary: told });
            &&& begins_with(line, "tool_result "@ + call_id + ": "@)
            &&& ends_with(line, told)
            &&& line.len() == 14 + call_id.len() + told.len()
        }),
{
    lemma_begins("approval_denied "@ + call_id + " by "@ + actor_id + ": "@, told);
    lemma_begins("approval_granted "@ + call_id + " by "@, actor_id);
    lemma_begins("policy_denied "@ + call_id + ": "@, told);
    lemma_begins("tool_failed "@ + call_id + ": "@, told);
    lemma_begins("tool_result "@ + call_id + ": "@, told);
    reveal_strlit("approval_denied ");
    reveal_strlit("approval_granted ");
    reveal_strlit("policy_denied ");
    reveal_strlit("tool_failed ");
    reveal_strlit("tool_result ");
    reveal_strlit(" by ");
    reveal_strlit(": ");
}

/// The lines of a turn begin with the turn, in brackets, and tell which of the three they are: context
/// with its lane and source, a message with its role in lower case, or a call with its tool; each ends
/// with its text.
pub proof fn law_lines_of_turns_tell_their_turn(
    turn_id: Seq<char>,
    name: Seq<char>,
    source: Seq<char>,
    told: Seq<char>,
)
    ensures
        ({
            let line = entry_line(
                ReplayView::ContextFragment { turn_id, lane: name, source, content: told },
            );
            begins_with(line, "["@ + turn_id + "] context "@ + name + " "@ + source + ": "@)
                && ends_with(line, told)
        }),
        ({
            let line = entry_line(ReplayView::ModelMessage { turn_id, role: name, content: told });
            begins_with(line, "["@ + turn_id + "] "@ + text::lower_text(name) + ": "@) && ends_with(
                line,
                told,
            )
        }),
        ({
            let line = entry_line(
                ReplayView::ToolCall { turn_id, call_id: source, tool: name, input: told },
            );
            begins_with(line, "["@ + turn_id + "] tool_call "@ + name + " "@) && ends_with(
                line,
                told,
            )
        }),
{
    lemma_begins("["@ + turn_id + "] context "@ + name + " "@ + source + ": "@, told);
    lemma_begins("["@ + turn_id + "] "@ + text::lower_text(name) + ": "@, told);
    lemma_begins("["@ + turn_id + "] tool_call "@ + name + " "@, told);
}

/// A played run is shown line by line: its phase, the place of its next event, and then one line for each
/// entry, in order.
pub proof fn law_played_runs_are_shown_entry_by_entry(readback: ReadbackView, i: int)
    requires
        0 <= i < readback.entries.len(),
    ensures
        readback_lines(readback).len() == readback.entries.len() + 2,
        begins_with(readback_lines(readback)[0], "final_phase: "@),
        ends_with(readback_lines(readback)[0], readback.final_phase),
        begins_with(readback_lines(readback)[1], "next_seq: "@),
        ends_with(readback_lines(readback)[1], text::decimal(readback.next_seq)),
        readback_lines(readback)[i + 2] == entry_line(readback.entries[i]),
{
    lemma_begins("final_phase: "@, readback.final_phase);
    lemma_begins("next_seq: "@, text::decimal(readback.next_seq));
}

/// The transcript tells of each entry what it was: a granted approval is granted and has no reason, a
/// refused one is refused with its reason, a failure is a failure with its reason, a result is a result
/// and a refusal by the policy is one; each names its call. Context is left out, and so is a message
/// without text.
pub proof fn law_transcripts_tell_what_happened(entry: ReplayView)
    ensures
        entry matches ReplayView::ApprovalGranted { call_id, actor_id } ==> (typed_entry(
            entry,
        ) matches Some(EntryView::Approval { call_id: call, decision, actor_id: actor, reason })
            && call == call_id && decision == ApprovalDecisionName::Granted && actor == actor_id
            && reason is None),
        entry matches ReplayView::ApprovalDenied { call_id, actor_id, reason: given } ==> (
        typed_entry(entry) matches Some(
            EntryView::Approval { call_id: call, decision, actor_id: actor, reason },
        ) && call == call_id && decision == ApprovalDecisionName::Denied && actor == actor_id
            && reason == Some(given)),
        entry matches ReplayView::PolicyDenied { call_id, reason: given } ==> (typed_entry(
            entry,
        ) matches Some(EntryView::PolicyDenied { call_id: call, reason }) && call == call_id
            && reason == given),
        entry matches ReplayView::ToolFailed { call_id, reason: given } ==> (typed_entry(
            entry,
        ) matches Some(EntryView::ToolFailed { call_id: call, error }) && call == call_id && error
            == given),
        entry matches ReplayView::ToolResult { call_id, summary: given } ==> (typed_entry(
            entry,
        ) matches Some(EntryView::ToolResult { call_id: call, summary }) && call == call_id
            && summary == given),
        entry matches ReplayView::ToolCall { call_id, tool, input: given, .. } ==> (typed_entry(
            entry,
        ) matches Some(EntryView::ToolCall { call_id: call, tool: name, input }) && call == call_id
            && name == tool && (json::json_parsed(given) matches Ok(value) ==> input == value)),
        typed_entry(entry) is None <==> entry is ContextFragment || (
        entry matches ReplayView::ModelMessage { content, .. } && content.len() == 0),
        entry matches ReplayView::ModelMessage { content, .. } ==> (typed_entry(entry) is None
            || typed_entry(entry) == Some(EntryView::Assistant { text: content })),
{
}

/// The transcript of a run begins with the question, and grows by each entry that is not left out.
pub proof fn law_transcripts_begin_with_the_question(
    question: Seq<char>,
    entries: Seq<ReplayView>,
    entry: ReplayView,
)
    ensures
        typed_entries(question, entries).len() > 0,
        typed_entries(question, entries)[0] == (EntryView::User { text: question }),
        typed_entry(entry) is Some ==> typed_entries(question, entries.push(entry))
            == typed_entries(question, entries).push(typed_entry(entry)->Some_0),
        typed_entry(entry) is None ==> typed_entries(question, entries.push(entry))
            == typed_entries(question, entries),
    decreases entries.len(),
{
    if entries.len() > 0 {
        law_transcripts_begin_with_the_question(question, entries.drop_last(), entries.last());
        assert(entries.drop_last().push(entries.last()) =~= entries);
    }
    assert(entries.push(entry).drop_last() =~= entries);
}

/// The transcript of a run tells its name, how it stands and its answer as the ledger holds them, and one
/// run with its place and its question; that of a session tells how its latest run stands, and each of its
/// runs in order.
pub proof fn law_transcripts_tell_how_runs_stand(
    tables: ledger::LedgerView,
    row: ledger::RunRowView,
    session_id: Seq<char>,
    told: Seq<char>,
    k: int,
)
    requires
        0 <= k < ledger::runs_of(tables.runs, session_id).len(),
    ensures
        ({
            let read = run_transcript(tables, row);
            &&& read.run_id == row.run_id && read.status == row.status && read.final_answer
                == row.final_answer && read.pending_approval is None
            &&& read.typed matches Some(runs) && runs.len() == 1 && runs[0].run_id == row.run_id
                && runs[0].session_index == row.session_index && runs[0].status == row.status
                && runs[0].entries[0] == (EntryView::User { text: row.question })
        }),
        ({
            let own = ledger::runs_of(tables.runs, session_id);
            let latest = own[own.len() - 1];
            let read = session_transcript(tables, session_id, told);
            &&& read.run_id == latest.run_id && read.status == latest.status && read.final_answer
                == latest.final_answer && read.transcript == told
            &&& read.typed matches Some(runs) && runs.len() == own.len() && runs[k].run_id
                == own[k].run_id && runs[k].session_index == own[k].session_index && runs[k].status
                == own[k].status && runs[k].entries[0] == (EntryView::User { text: own[k].question })
        }),
{
    let own = ledger::runs_of(tables.runs, session_id);
    let none = ReplayView::ToolResult { call_id: told, summary: told };
    law_transcripts_begin_with_the_question(
        row.question,
        replayed(run_records(tables, row.run_id))->Ok_0.entries,
        none,
    );
    law_transcripts_begin_with_the_question(
        own[k].question,
        replayed(run_records(tables, own[k].run_id))->Ok_0.entries,
        none,
    );
}

/// The runs of a session are shown one after the other, each with its name before what it shows.
pub proof fn law_runs_are_shown_under_their_names(
    names: Seq<Seq<char>>,
    texts: Seq<Seq<char>>,
    name: Seq<char>,
    told: Seq<char>,
)
    requires
        names.len() == texts.len(),
    ensures
        session_lines(Seq::empty(), Seq::empty()) == Seq::<Seq<char>>::empty(),
        session_lines(names.push(name), texts.push(told)) == session_lines(names, texts) + seq![
            "run_id: "@ + name,
            told,
        ],
{
    assert(names.push(name).drop_last() =~= names);
    assert(texts.push(told).drop_last() =~= texts);
    assert(session_lines(names.push(name), texts.push(told)) =~= session_lines(names, texts) + seq![
        "run_id: "@ + name,
        told,
    ]);
}

/// What happened is shown as what it was: an answer as a message, a call as a call, a result as a result,
/// a refusal by the policy, a grant, a refusal by an approver and a failure each as just that, with the
/// call, who decided and why; an allowance, a start and an end show nothing.
pub proof fn law_events_show_what_happened(event: EventView)
    ensures
        match event {
            EventView::ToolFinished { result, .. } => event_shown(event) == seq![
                ReplayView::ToolResult { call_id: result.call_id, summary: result.summary },
            ],
            EventView::ApprovalGranted { call_id, actor_id, .. } => event_shown(event) == seq![
                ReplayView::ApprovalGranted { call_id, actor_id },
            ],
            EventView::ApprovalDenied { call_id, actor_id, reason, .. } => event_shown(event)
                == seq![ReplayView::ApprovalDenied { call_id, actor_id, reason }],
            EventView::ToolFailed { call_id, reason, .. } => event_shown(event) == seq![
                ReplayView::ToolFailed { call_id, reason },
            ],
            EventView::PolicyEvaluated { call_id, decision, .. } => match decision {
                PolicyView::Deny { reason } => event_shown(event) == seq![
                    ReplayView::PolicyDenied { call_id, reason },
                ],
                _ => event_shown(event).len() == 0,
            },
            EventView::ModelResponded { turn_id, output, .. } => event_shown(event) == seq![
                ReplayView::ModelMessage { turn_id, role: "Assistant"@, content: output },
            ],
            EventView::ToolCallProposed { turn_id, call, .. } => event_shown(event).len() == 1 && (
            event_shown(event)[0] matches ReplayView::ToolCall {
                turn_id: turn,
                call_id,
                tool,
                ..
            } && turn == turn_id && call_id == call.id && tool == call.tool),
            EventView::ContextBuilt { context, .. } => event_shown(event).len()
                == context.fragments.len(),
            _ => event_shown(event).len() == 0,
        },
{
}

} // verus!

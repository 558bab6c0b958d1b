//! The ledger: the events of every run, and the sessions that runs belong to.
use crate::daemon::protocol::RunStateName;
use crate::error;
use crate::error::{AppError, AppResult};
use crate::harness;
use crate::harness::{CoreError, CoreErrorView, EventView, HarnessEvent, RecordedEvent, RunLog};
use crate::json;
use crate::json::{Field, FieldKind, Json, JsonView, ObjectBuilder};
use crate::members;
use crate::shape;
use crate::text;
use vstd::prelude::*;

verus! {

/// The version of the lines and rows of the ledger.
pub const LEDGER_VERSION: u32 = 1;

/// The version of the tables of the ledger.
pub const SQLITE_SCHEMA_VERSION: u32 = 2;

/// The largest number that a table can hold.
pub const MAX_SQLITE_INTEGER: u64 = 0x7fff_ffff_ffff_ffff;

/// What a run that a daemon left behind has met.
pub const ORPHANED_RUN: &'static str = "daemon restarted before run completed";

/// A finished turn of a session.
#[derive(Clone, Debug, PartialEq, Eq)]
pub struct SessionTurn {
    pub question: String,
    pub final_answer: String,
}

/// A session as the ledger holds it, with its latest run.
#[derive(Debug, PartialEq, Eq)]
pub struct PersistedSessionSummary {
    pub session_id: String,
    pub run_id: String,
    pub status: RunStateName,
    pub latest_question: String,
}

/// How a run stands.
#[derive(Debug, PartialEq, Eq)]
pub struct PersistedRunStatus {
    pub run_id: String,
    pub status: RunStateName,
    pub final_answer: Option<String>,
}

/// An event as it was written down, with its place and its time.
#[derive(Debug, PartialEq, Eq)]
pub struct StoredRecord {
    pub seq: u64,
    pub occurred_at_ms: u64,
    pub event_json: String,
}

/// What a written event stands for.
pub struct StoredView {
    pub seq: u64,
    pub occurred_at_ms: u64,
    pub event: Seq<char>,
}

impl StoredRecord {
    /// The written event that `self` stands for.
    pub open spec fn view(&self) -> StoredView {
        StoredView {
            seq: self.seq,
            occurred_at_ms: self.occurred_at_ms,
            event: self.event_json@,
        }
    }

    /// A record as it is written down.
    pub fn of(record: &RecordedEvent) -> (r: StoredRecord)
        ensures
            r@ == stored(record.seq, record.occurred_at_ms, record.event@),
    {
        StoredRecord {
            seq: record.seq,
            occurred_at_ms: record.occurred_at_ms,
            event_json: record.event.to_json().render(),
        }
    }
}

/// A record as it is written down.
pub open spec fn stored(seq: u64, occurred_at_ms: u64, event: harness::EventView) -> StoredView {
    StoredView { seq, occurred_at_ms, event: json::json_text(harness::event_json(event)) }
}

/// What written events stand for.
pub open spec fn stored_views(records: Seq<StoredRecord>) -> Seq<StoredView> {
    Seq::new(records.len(), |i: int| records[i]@)
}

impl Clone for StoredRecord {
    fn clone(&self) -> (r: StoredRecord)
        ensures
            r == *self,
    {
        StoredRecord {
            seq: self.seq,
            occurred_at_ms: self.occurred_at_ms,
            event_json: self.event_json.clone(),
        }
    }
}

/// The runs of a session with their events, oldest run first.
#[derive(Debug, PartialEq, Eq)]
pub struct SessionRecords {
    pub session_id: String,
    pub runs: Vec<SessionRunRecords>,
}

/// A run of a session with its events.
#[derive(Debug, PartialEq, Eq)]
pub struct SessionRunRecords {
    pub run_id: String,
    pub records: Vec<StoredRecord>,
}

/// A row of the table of events.
#[derive(Debug, PartialEq, Eq)]
pub struct EventRow {
    pub run_id: String,
    pub version: u32,
    pub record: StoredRecord,
}

/// What a row of the table of events stands for.
pub struct EventRowView {
    pub run_id: Seq<char>,
    pub version: u32,
    pub record: StoredView,
}

impl EventRow {
    /// The row that `self` stands for.
    pub open spec fn view(&self) -> EventRowView {
        EventRowView { run_id: self.run_id@, version: self.version, record: self.record@ }
    }

    /// Why the row cannot be read.
    fn failure(&self) -> (r: Option<String>)
        ensures
            text::opt_view(r) == row_error(self@),
    {
        if self.version != LEDGER_VERSION {
            return Some("Query is not read-only".to_owned());
        }
        match harness::check_event(self.record.event_json.as_str()) {
            Some(message) => Some(
                text::text2("Conversion error from type Text at index: 3, ", message.as_str()),
            ),
            None => None,
        }
    }
}

/// A row of the table of sessions.
#[derive(Debug, PartialEq, Eq)]
pub struct SessionRow {
    pub session_id: String,
    pub created_at_ms: u64,
    pub updated_at_ms: u64,
}

/// What a row of the table of sessions stands for.
pub struct SessionRowView {
    pub session_id: Seq<char>,
    pub created_at_ms: u64,
    pub updated_at_ms: u64,
}

impl SessionRow {
    /// The row that `self` stands for.
    pub open spec fn view(&self) -> SessionRowView {
        SessionRowView {
            session_id: self.session_id@,
            created_at_ms: self.created_at_ms,
            updated_at_ms: self.updated_at_ms,
        }
    }
}

/// A row of the table of runs.
#[derive(Debug, PartialEq, Eq)]
pub struct RunRow {
    pub session_id: String,
    pub run_id: String,
    pub session_index: u64,
    pub question: String,
    pub final_answer: Option<String>,
    pub status: RunStateName,
    pub error: Option<String>,
    pub created_at_ms: u64,
    pub updated_at_ms: u64,
}

/// What a row of the table of runs stands for.
pub struct RunRowView {
    pub session_id: Seq<char>,
    pub run_id: Seq<char>,
    pub session_index: u64,
    pub question: Seq<char>,
    pub final_answer: Option<Seq<char>>,
    pub status: RunStateName,
    pub error: Option<Seq<char>>,
    pub created_at_ms: u64,
    pub updated_at_ms: u64,
}

impl RunRow {
    /// The row that `self` stands for.
    pub open spec fn view(&self) -> RunRowView {
        RunRowView {
            session_id: self.session_id@,
            run_id: self.run_id@,
            session_index: self.session_index,
            question: self.question@,
            final_answer: text::opt_view(self.final_answer),
            status: self.status,
            error: text::opt_view(self.error),
            created_at_ms: self.created_at_ms,
            updated_at_ms: self.updated_at_ms,
        }
    }
}

/// The tables of a ledger. The events of a run stand in the order of their places, and the runs of a
/// session in the order in which they were begun.
#[derive(Debug, PartialEq, Eq)]
pub struct SqliteLedger {
    pub events: Vec<EventRow>,
    pub sessions: Vec<SessionRow>,
    pub runs: Vec<RunRow>,
}

impl Clone for EventRow {
    fn clone(&self) -> (r: EventRow)
        ensures
            r == *self,
    {
        EventRow {
            run_id: self.run_id.clone(),
            version: self.version,
            record: self.record.clone(),
        }
    }
}

impl Clone for RunRow {
    fn clone(&self) -> (r: RunRow)
        ensures
            r == *self,
    {
        RunRow {
            session_id: self.session_id.clone(),
            run_id: self.run_id.clone(),
            session_index: self.session_index,
            question: self.question.clone(),
            final_answer: text::copy_option(&self.final_answer),
            status: self.status,
            error: text::copy_option(&self.error),
            created_at_ms: self.created_at_ms,
            updated_at_ms: self.updated_at_ms,
        }
    }
}

/// What the tables of a ledger stand for.
pub struct LedgerView {
    pub events: Seq<EventRowView>,
    pub sessions: Seq<SessionRowView>,
    pub runs: Seq<RunRowView>,
}

/// What rows of events stand for.
pub open spec fn event_rows(rows: Seq<EventRow>) -> Seq<EventRowView> {
    Seq::new(rows.len(), |i: int| rows[i]@)
}

/// What rows of sessions stand for.
pub open spec fn session_rows(rows: Seq<SessionRow>) -> Seq<SessionRowView> {
    Seq::new(rows.len(), |i: int| rows[i]@)
}

/// What rows of runs stand for.
pub open spec fn run_rows(rows: Seq<RunRow>) -> Seq<RunRowView> {
    Seq::new(rows.len(), |i: int| rows[i]@)
}

/// Whether the events of every run stand in the order of their places, no two at the same place.
pub open spec fn events_in_order(events: Seq<EventRowView>) -> bool {
    forall|i: int, j: int|
        0 <= i < j < events.len() && (#[trigger] events[i]).run_id == (
        #[trigger] events[j]).run_id ==> events[i].record.seq < events[j].record.seq
}

/// Whether no two rows are for the same session.
pub open spec fn sessions_differ(sessions: Seq<SessionRowView>) -> bool {
    forall|i: int, j: int|
        0 <= i < j < sessions.len() ==> (#[trigger] sessions[i]).session_id != (
        #[trigger] sessions[j]).session_id
}

/// Whether no two rows are for the same run.
pub open spec fn runs_differ(runs: Seq<RunRowView>) -> bool {
    forall|i: int, j: int|
        0 <= i < j < runs.len() ==> (#[trigger] runs[i]).run_id != (#[trigger] runs[j]).run_id
}

/// Whether the runs of every session stand in the order in which they were begun.
pub open spec fn runs_in_order(runs: Seq<RunRowView>) -> bool {
    forall|i: int, j: int|
        0 <= i < j < runs.len() && (#[trigger] runs[i]).session_id == (
        #[trigger] runs[j]).session_id ==> runs[i].session_index < runs[j].session_index
}

/// Whether no session has two runs under way.
pub open spec fn one_running(runs: Seq<RunRowView>) -> bool {
    forall|i: int, j: int|
        0 <= i < j < runs.len() && (#[trigger] runs[i]).session_id == (
        #[trigger] runs[j]).session_id ==> !(runs[i].status == RunStateName::Running
            && runs[j].status == RunStateName::Running)
}

/// Whether every run belongs to a session that there is.
pub open spec fn runs_have_sessions(view: LedgerView) -> bool {
    forall|i: int|
        0 <= i < view.runs.len() ==> has_session(
            view.sessions,
            (#[trigger] view.runs[i]).session_id,
        )
}

/// Whether the index of every run fits in the table.
pub open spec fn indices_fit(runs: Seq<RunRowView>) -> bool {
    forall|i: int|
        0 <= i < runs.len() ==> (#[trigger] runs[i]).session_index <= MAX_SQLITE_INTEGER
}

/// Whether the rows are ordered, and their keys differ: no event, session or run stands in the tables
/// twice.
pub open spec fn tables_ok(view: LedgerView) -> bool {
    &&& events_in_order(view.events)
    &&& sessions_differ(view.sessions)
    &&& runs_differ(view.runs)
    &&& runs_in_order(view.runs)
    &&& indices_fit(view.runs)
}

/// Whether the sessions are as the operations leave them: none has two runs under way, and there is a
/// row for the session of every run.
pub open spec fn sessions_sound(view: LedgerView) -> bool {
    one_running(view.runs) && runs_have_sessions(view)
}

/// Whether there is a row for a session.
pub open spec fn has_session(sessions: Seq<SessionRowView>, session_id: Seq<char>) -> bool {
    exists|i: int| 0 <= i < sessions.len() && (#[trigger] sessions[i]).session_id == session_id
}

/// Whether there is a row for a run.
pub open spec fn has_run(runs: Seq<RunRowView>, run_id: Seq<char>) -> bool {
    exists|i: int| 0 <= i < runs.len() && (#[trigger] runs[i]).run_id == run_id
}

/// The events of a run, in the order of their places.
pub open spec fn events_of(events: Seq<EventRowView>, run_id: Seq<char>) -> Seq<EventRowView>
    decreases events.len(),
{
    if events.len() == 0 {
        Seq::empty()
    } else if events.last().run_id == run_id {
        events_of(events.drop_last(), run_id).push(events.last())
    } else {
        events_of(events.drop_last(), run_id)
    }
}

/// The runs of a session, oldest first.
pub open spec fn runs_of(runs: Seq<RunRowView>, session_id: Seq<char>) -> Seq<RunRowView>
    decreases runs.len(),
{
    if runs.len() == 0 {
        Seq::empty()
    } else if runs.last().session_id == session_id {
        runs_of(runs.drop_last(), session_id).push(runs.last())
    } else {
        runs_of(runs.drop_last(), session_id)
    }
}

/// The finished turns of runs: what was asked, and what was answered.
pub open spec fn turns_of(runs: Seq<RunRowView>) -> Seq<(Seq<char>, Seq<char>)>
    decreases runs.len(),
{
    if runs.len() == 0 {
        Seq::empty()
    } else if runs.last().status == RunStateName::Finished && runs.last().final_answer is Some {
        turns_of(runs.drop_last()).push((runs.last().question, runs.last().final_answer->Some_0))
    } else {
        turns_of(runs.drop_last())
    }
}

/// What turns stand for.
pub open spec fn turn_views(turns: Seq<SessionTurn>) -> Seq<(Seq<char>, Seq<char>)> {
    Seq::new(turns.len(), |i: int| (turns[i].question@, turns[i].final_answer@))
}

/// The run that is under way among the runs of a session.
pub open spec fn running_run(runs: Seq<RunRowView>) -> Option<Seq<char>>
    decreases runs.len(),
{
    if runs.len() == 0 {
        None
    } else if runs[0].status == RunStateName::Running {
        Some(runs[0].run_id)
    } else {
        running_run(runs.drop_first())
    }
}

/// The index of the next run of a session.
pub open spec fn next_index(runs: Seq<RunRowView>) -> nat {
    if runs.len() == 0 {
        0
    } else {
        runs.last().session_index as nat + 1
    }
}

/// The place at which an event of a run joins the table: before the first event of the run that
/// has a later place, or else at the end.
pub open spec fn event_place(events: Seq<EventRowView>, run_id: Seq<char>, seq: u64) -> int
    decreases events.len(),
{
    if events.len() == 0 {
        0
    } else if events[0].run_id == run_id && events[0].record.seq >= seq {
        0
    } else {
        1 + event_place(events.drop_first(), run_id, seq)
    }
}

/// The message for a number that a table cannot hold.
pub open spec fn too_large(field: Seq<char>, value: nat) -> Seq<char> {
    "ledger "@ + field + " exceeds sqlite integer: "@ + text::decimal(value)
}

/// Whether a number fits in a table; if not, the error that says so.
pub fn sqlite_i64(value: u64, field: &str) -> (r: AppResult<()>)
    ensures
        r is Ok <==> value <= MAX_SQLITE_INTEGER,
        r matches Err(error) ==> error matches AppError::Config(message) && message@ == too_large(
            field@,
            value as nat,
        ),
{
    if value <= MAX_SQLITE_INTEGER {
        Ok(())
    } else {
        let message = text::text4(
            "ledger ",
            field,
            " exceeds sqlite integer: ",
            text::decimal_u64(value).as_str(),
        );
        Err(AppError::Config(message))
    }
}

/// What has to be done to the tables of a ledger before they are used.
#[derive(Clone, Copy, Debug, PartialEq, Eq, Structural)]
pub enum SchemaStep {
    /// All tables are to be made.
    CreateAll,
    /// The tables of sessions and runs are to be made.
    CreateSessions,
    /// The tables are there.
    Ready,
}

/// What has to be done to tables of the given version.
pub fn schema_step(version: u32) -> (r: AppResult<SchemaStep>)
    ensures
        r is Ok <==> version <= SQLITE_SCHEMA_VERSION,
        r matches Ok(step) ==> step == if version == 0 {
            SchemaStep::CreateAll
        } else if version == 1 {
            SchemaStep::CreateSessions
        } else {
            SchemaStep::Ready
        },
        r matches Err(error) ==> error matches AppError::Config(message) && message@
            == "unsupported sqlite schema version: "@ + text::decimal(version as nat),
{
    if version == 0 {
        Ok(SchemaStep::CreateAll)
    } else if version == 1 {
        Ok(SchemaStep::CreateSessions)
    } else if version == SQLITE_SCHEMA_VERSION {
        Ok(SchemaStep::Ready)
    } else {
        Err(
            AppError::Config(
                text::text2(
                    "unsupported sqlite schema version: ",
                    text::decimal_u64(version as u64).as_str(),
                ),
            ),
        )
    }
}

pub proof fn lemma_event_place(events: Seq<EventRowView>, run_id: Seq<char>, seq: u64, at: int)
    requires
        0 <= at <= events.len(),
        forall|j: int|
            0 <= j < at ==> !((#[trigger] events[j]).run_id == run_id && events[j].record.seq
                >= seq),
        at < events.len() ==> events[at].run_id == run_id && events[at].record.seq >= seq,
    ensures
        event_place(events, run_id, seq) == at,
    decreases at,
{
    if at > 0 {
        assert(!(events[0].run_id == run_id && events[0].record.seq >= seq));
        let rest = events.drop_first();
        assert forall|j: int| 0 <= j < at - 1 implies !((#[trigger] rest[j]).run_id == run_id
            && rest[j].record.seq >= seq) by {
            assert(rest[j] == events[j + 1]);
        }
        assert(at < events.len() ==> rest[at - 1] == events[at]);
        lemma_event_place(rest, run_id, seq, at - 1);
    }
}

proof fn lemma_event_place_bounds(events: Seq<EventRowView>, run_id: Seq<char>, seq: u64)
    ensures
        ({
            let at = event_place(events, run_id, seq);
            &&& 0 <= at <= events.len()
            &&& forall|j: int|
                0 <= j < at ==> !((#[trigger] events[j]).run_id == run_id && events[j].record.seq
                    >= seq)
            &&& at < events.len() ==> events[at].run_id == run_id && events[at].record.seq >= seq
        }),
    decreases events.len(),
{
    if events.len() > 0 && !(events[0].run_id == run_id && events[0].record.seq >= seq) {
        let rest = events.drop_first();
        lemma_event_place_bounds(rest, run_id, seq);
        let at = event_place(rest, run_id, seq);
        assert(event_place(events, run_id, seq) == at + 1);
        assert(at < rest.len() ==> rest[at] == events[at + 1]);
        assert forall|j: int| 0 <= j < at + 1 implies !((#[trigger] events[j]).run_id == run_id
            && events[j].record.seq >= seq) by {
            if j > 0 {
                assert(rest[j - 1] == events[j]);
            }
        }
    }
}

proof fn lemma_runs_of(runs: Seq<RunRowView>, session_id: Seq<char>)
    requires
        runs_in_order(runs),
    ensures
        ({
            let own = runs_of(runs, session_id);
            &&& forall|i: int|
                0 <= i < runs.len() && (#[trigger] runs[i]).session_id == session_id ==> own.len()
                    > 0 && runs[i].session_index <= own.last().session_index && own.contains(
                    runs[i],
                )
            &&& forall|k: int|
                0 <= k < own.len() ==> (#[trigger] own[k]).session_id == session_id
                    && runs.contains(own[k])
        }),
    decreases runs.len(),
{
    if runs.len() > 0 {
        let rest = runs.drop_last();
        let own = runs_of(runs, session_id);
        let inner = runs_of(rest, session_id);
        assert(runs_in_order(rest)) by {
            assert forall|i: int, j: int|
                0 <= i < j < rest.len() && (#[trigger] rest[i]).session_id == (
                #[trigger] rest[j]).session_id implies rest[i].session_index
                < rest[j].session_index by {
                assert(rest[i] == runs[i] && rest[j] == runs[j]);
            }
        }
        lemma_runs_of(rest, session_id);
        assert forall|i: int|
            0 <= i < runs.len() && (#[trigger] runs[i]).session_id == session_id implies own.len()
            > 0 && runs[i].session_index <= own.last().session_index && own.contains(runs[i]) by {
            if i < rest.len() {
                assert(rest[i] == runs[i]);
                let k = choose|k: int| 0 <= k < inner.len() && inner[k] == runs[i];
                assert(own[k] == runs[i]);
                if runs.last().session_id == session_id {
                    assert(runs[i].session_index < runs[runs.len() - 1].session_index);
                }
            } else {
                assert(own[own.len() - 1] == runs[i]);
            }
        }
        assert forall|k: int| 0 <= k < own.len() implies (#[trigger] own[k]).session_id
            == session_id && runs.contains(own[k]) by {
            if k < inner.len() {
                assert(own[k] == inner[k]);
                let i = choose|i: int| 0 <= i < rest.len() && rest[i] == inner[k];
                assert(runs[i] == own[k]);
            } else {
                assert(runs[runs.len() - 1] == own[k]);
            }
        }
    }
}

proof fn lemma_running_run(runs: Seq<RunRowView>)
    ensures
        running_run(runs) is None <==> (forall|k: int|
            0 <= k < runs.len() ==> (#[trigger] runs[k]).status != RunStateName::Running),
    decreases runs.len(),
{
    if runs.len() > 0 {
        let rest = runs.drop_first();
        lemma_running_run(rest);
        if runs[0].status != RunStateName::Running {
            if running_run(rest) is None {
                assert forall|k: int| 0 <= k < runs.len() implies (#[trigger] runs[k]).status
                    != RunStateName::Running by {
                    if k > 0 {
                        assert(rest[k - 1] == runs[k]);
                    }
                }
            } else {
                let k = choose|k: int|
                    0 <= k < rest.len() && (#[trigger] rest[k]).status == RunStateName::Running;
                assert(runs[k + 1] == rest[k]);
            }
        } else {
            assert(runs[0].status == RunStateName::Running);
        }
    }
}

proof fn lemma_begun_has_session(
    view: LedgerView,
    now: u64,
    session_id: Seq<char>,
    run_id: Seq<char>,
    question: Seq<char>,
)
    ensures
        has_session(begun(view, now, session_id, run_id, question).sessions, session_id),
        forall|other: Seq<char>|
            has_session(view.sessions, other) ==> has_session(
                begun(view, now, session_id, run_id, question).sessions,
                other,
            ),
{
    let after = begun(view, now, session_id, run_id, question).sessions;
    if has_session(view.sessions, session_id) {
        let i = choose|i: int|
            0 <= i < view.sessions.len() && (#[trigger] view.sessions[i]).session_id == session_id;
        assert(after[i].session_id == session_id);
    } else {
        assert(after[view.sessions.len() as int].session_id == session_id);
    }
    assert forall|other: Seq<char>| has_session(view.sessions, other) implies has_session(
        after,
        other,
    ) by {
        let i = choose|i: int|
            0 <= i < view.sessions.len() && (#[trigger] view.sessions[i]).session_id == other;
        assert(after[i].session_id == other);
    }
}

proof fn lemma_begun_is_sound(
    view: LedgerView,
    now: u64,
    session_id: Seq<char>,
    run_id: Seq<char>,
    question: Seq<char>,
)
    requires
        tables_ok(view),
        running_run(runs_of(view.runs, session_id)) is None,
        next_index(runs_of(view.runs, session_id)) <= MAX_SQLITE_INTEGER,
        !has_run(view.runs, run_id),
    ensures
        tables_ok(begun(view, now, session_id, run_id, question)),
        sessions_sound(view) ==> sessions_sound(begun(view, now, session_id, run_id, question)),
{
    let after = begun(view, now, session_id, run_id, question);
    let own = runs_of(view.runs, session_id);
    lemma_runs_of(view.runs, session_id);
    lemma_running_run(own);
    lemma_begun_has_session(view, now, session_id, run_id, question);
    let n = view.runs.len() as int;
    assert(forall|i: int| 0 <= i < n ==> (#[trigger] after.runs[i]) == view.runs[i]);
    assert forall|i: int, j: int|
        0 <= i < j < after.sessions.len() implies (#[trigger] after.sessions[i]).session_id != (
    #[trigger] after.sessions[j]).session_id by {
        if j < view.sessions.len() {
            assert(view.sessions[i].session_id != view.sessions[j].session_id);
        } else {
            assert(view.sessions[i].session_id == after.sessions[i].session_id);
        }
    }
    assert forall|i: int, j: int|
        0 <= i < j < after.runs.len() && (#[trigger] after.runs[i]).session_id == (
        #[trigger] after.runs[j]).session_id implies after.runs[i].session_index
        < after.runs[j].session_index && (one_running(view.runs) ==> !(after.runs[i].status
        == RunStateName::Running && after.runs[j].status == RunStateName::Running)) by {
        if j == n {
            assert(view.runs[i].session_index <= own.last().session_index);
            let k = choose|k: int| 0 <= k < own.len() && own[k] == view.runs[i];
            assert(own[k].status != RunStateName::Running);
        }
    }
    assert forall|i: int, j: int| 0 <= i < j < after.runs.len() implies (
    #[trigger] after.runs[i]).run_id != (#[trigger] after.runs[j]).run_id by {
        if j == n {
            assert(view.runs[i].run_id != run_id);
        }
    }
}

proof fn lemma_touched(sessions: Seq<SessionRowView>, session_id: Seq<char>, now: u64)
    ensures
        sessions_differ(sessions) ==> sessions_differ(touched(sessions, session_id, now)),
        forall|other: Seq<char>|
            has_session(sessions, other) == has_session(
                touched(sessions, session_id, now),
                other,
            ),
{
    let after = touched(sessions, session_id, now);
    assert(forall|i: int|
        0 <= i < sessions.len() ==> (#[trigger] after[i]).session_id == sessions[i].session_id);
    assert forall|other: Seq<char>| has_session(sessions, other) == has_session(after, other) by {
        if has_session(sessions, other) {
            let i = choose|i: int|
                0 <= i < sessions.len() && (#[trigger] sessions[i]).session_id == other;
            assert(after[i].session_id == other);
        }
        if has_session(after, other) {
            let i = choose|i: int|
                0 <= i < after.len() && (#[trigger] after[i]).session_id == other;
            assert(sessions[i].session_id == other);
        }
    }
    if sessions_differ(sessions) {
        assert forall|i: int, j: int| 0 <= i < j < after.len() implies (
        #[trigger] after[i]).session_id != (#[trigger] after[j]).session_id by {
            assert(sessions[i].session_id != sessions[j].session_id);
        }
    }
}

proof fn lemma_updated_is_sound(
    view: LedgerView,
    run_id: Seq<char>,
    status: RunStateName,
    final_answer: Option<Seq<char>>,
    error: Option<Seq<char>>,
    now: u64,
)
    requires
        tables_ok(view),
        status != RunStateName::Running,
    ensures
        tables_ok(updated(view, run_id, status, final_answer, error, now)),
        sessions_sound(view) ==> sessions_sound(
            updated(view, run_id, status, final_answer, error, now),
        ),
{
    let after = updated(view, run_id, status, final_answer, error, now);
    lemma_touched(view.sessions, session_of(view.runs, run_id), now);
    assert(forall|i: int|
        0 <= i < view.runs.len() ==> (#[trigger] after.runs[i]).session_id
            == view.runs[i].session_id && after.runs[i].run_id == view.runs[i].run_id
            && after.runs[i].session_index == view.runs[i].session_index && (
        after.runs[i].status == RunStateName::Running ==> view.runs[i].status
            == RunStateName::Running));
    assert forall|i: int, j: int| 0 <= i < j < after.runs.len() implies (
    #[trigger] after.runs[i]).run_id != (#[trigger] after.runs[j]).run_id by {
        assert(view.runs[i].run_id != view.runs[j].run_id);
    }
    assert forall|i: int, j: int|
        0 <= i < j < after.runs.len() && (#[trigger] after.runs[i]).session_id == (
        #[trigger] after.runs[j]).session_id implies after.runs[i].session_index
        < after.runs[j].session_index && (one_running(view.runs) ==> !(after.runs[i].status
        == RunStateName::Running && after.runs[j].status == RunStateName::Running)) by {
        assert(view.runs[i].session_id == view.runs[j].session_id);
    }
    if runs_have_sessions(view) {
        assert forall|i: int| 0 <= i < after.runs.len() implies has_session(
            after.sessions,
            (#[trigger] after.runs[i]).session_id,
        ) by {
            assert(has_session(view.sessions, view.runs[i].session_id));
        }
    }
}

proof fn lemma_interrupted_is_sound(view: LedgerView, error: Seq<char>, now: u64)
    requires
        tables_ok(view),
    ensures
        tables_ok(interrupted(view, error, now)),
        sessions_sound(view) ==> sessions_sound(interrupted(view, error, now)),
{
    let after = interrupted(view, error, now);
    assert(forall|i: int|
        0 <= i < view.runs.len() ==> (#[trigger] after.runs[i]).session_id
            == view.runs[i].session_id && after.runs[i].run_id == view.runs[i].run_id
            && after.runs[i].session_index == view.runs[i].session_index && after.runs[i].status
            != RunStateName::Running);
    assert(forall|i: int|
        0 <= i < view.sessions.len() ==> (#[trigger] after.sessions[i]).session_id
            == view.sessions[i].session_id);
    assert forall|i: int, j: int| 0 <= i < j < after.sessions.len() implies (
    #[trigger] after.sessions[i]).session_id != (#[trigger] after.sessions[j]).session_id by {
        assert(view.sessions[i].session_id != view.sessions[j].session_id);
    }
    assert forall|i: int, j: int| 0 <= i < j < after.runs.len() implies (
    #[trigger] after.runs[i]).run_id != (#[trigger] after.runs[j]).run_id by {
        assert(view.runs[i].run_id != view.runs[j].run_id);
    }
    assert forall|i: int, j: int|
        0 <= i < j < after.runs.len() && (#[trigger] after.runs[i]).session_id == (
        #[trigger] after.runs[j]).session_id implies after.runs[i].session_index
        < after.runs[j].session_index by {
        assert(view.runs[i].session_id == view.runs[j].session_id);
    }
    if runs_have_sessions(view) {
        assert forall|i: int| 0 <= i < after.runs.len() implies has_session(
            after.sessions,
            (#[trigger] after.runs[i]).session_id,
        ) by {
            assert(has_session(view.sessions, view.runs[i].session_id));
            let k = choose|k: int|
                0 <= k < view.sessions.len() && (#[trigger] view.sessions[k]).session_id
                    == view.runs[i].session_id;
            assert(after.sessions[k].session_id == after.runs[i].session_id);
        }
    }
}

/// What writing an event of a run comes to: a new one joins the table, one that is already there is
/// left alone, and another at its place is a conflict.
pub open spec fn appended(events: Seq<EventRowView>, run_id: Seq<char>, record: StoredView) -> Result<
    Seq<EventRowView>,
    (),
> {
    let at = event_place(events, run_id, record.seq);
    let row = EventRowView { run_id, version: LEDGER_VERSION, record };
    if at < events.len() && events[at].record.seq == record.seq {
        if events[at] == row {
            Ok(events)
        } else {
            Err(())
        }
    } else {
        Ok(events.insert(at, row))
    }
}

/// The error that a row of another version is met with.
pub open spec fn bad_version_message() -> Seq<char> {
    "Query is not read-only"@
}

/// Why a row cannot be read: it is of another version, or what it holds is no event.
pub open spec fn row_error(row: EventRowView) -> Option<Seq<char>> {
    if row.version != LEDGER_VERSION {
        Some(bad_version_message())
    } else {
        match harness::event_complaint(row.record.event) {
            Some(message) => Some("Conversion error from type Text at index: 3, "@ + message),
            None => None,
        }
    }
}

/// Why rows cannot be read: what is wrong with the first that cannot.
pub open spec fn rows_error(rows: Seq<EventRowView>) -> Option<Seq<char>>
    decreases rows.len(),
{
    if rows.len() == 0 {
        None
    } else {
        match rows_error(rows.drop_last()) {
            Some(message) => Some(message),
            None => row_error(rows.last()),
        }
    }
}

/// Whether every row can be read.
pub open spec fn readable(rows: Seq<EventRowView>) -> bool {
    rows_error(rows) is None
}

/// The records of rows.
pub open spec fn records_of(rows: Seq<EventRowView>) -> Seq<StoredView> {
    Seq::new(rows.len(), |i: int| rows[i].record)
}

/// Whether reading a run gives what it should: its records, in order; or that there are none, or
/// why the first that cannot be read cannot.
pub open spec fn reads_run(
    r: AppResult<Vec<StoredRecord>>,
    events: Seq<EventRowView>,
    run_id: Seq<char>,
) -> bool {
    let rows = events_of(events, run_id);
    match rows_error(rows) {
        Some(due) => r matches Err(AppError::Sqlite(message)) && message@ == due,
        None => if rows.len() == 0 {
            r matches Err(AppError::RunNotFound(name)) && name@ == run_id
        } else {
            r matches Ok(records) && stored_views(records@) == records_of(rows)
        },
    }
}

/// Whether a row of events comes after another in the order of time, and then of names.
pub open spec fn later_event(a: EventRowView, b: EventRowView) -> bool {
    a.record.occurred_at_ms > b.record.occurred_at_ms || (a.record.occurred_at_ms
        == b.record.occurred_at_ms && text::before(b.run_id, a.run_id))
}

/// The latest event of the table.
pub open spec fn latest_event(events: Seq<EventRowView>) -> Option<EventRowView>
    decreases events.len(),
{
    if events.len() == 0 {
        None
    } else {
        match latest_event(events.drop_last()) {
            None => Some(events.last()),
            Some(best) => if later_event(events.last(), best) {
                Some(events.last())
            } else {
                Some(best)
            },
        }
    }
}

/// Whether a session was used after another, or at the same time and has a later name.
pub open spec fn later_session(a: SessionRowView, b: SessionRowView) -> bool {
    a.updated_at_ms > b.updated_at_ms || (a.updated_at_ms == b.updated_at_ms && text::before(
        b.session_id,
        a.session_id,
    ))
}

/// A list of sessions, latest first, with one more session at its place.
pub open spec fn ranked_with(sessions: Seq<SessionRowView>, row: SessionRowView) -> Seq<
    SessionRowView,
>
    decreases sessions.len(),
{
    if sessions.len() == 0 {
        seq![row]
    } else if later_session(row, sessions.last()) {
        ranked_with(sessions.drop_last(), row).push(sessions.last())
    } else {
        sessions.push(row)
    }
}

/// The sessions, latest first.
pub open spec fn ranked(sessions: Seq<SessionRowView>) -> Seq<SessionRowView>
    decreases sessions.len(),
{
    if sessions.len() == 0 {
        Seq::empty()
    } else {
        ranked_with(ranked(sessions.drop_last()), sessions.last())
    }
}

/// The latest run of each session that has one, in the order of the sessions.
pub open spec fn latest_runs(ranked: Seq<SessionRowView>, runs: Seq<RunRowView>) -> Seq<RunRowView>
    decreases ranked.len(),
{
    if ranked.len() == 0 {
        Seq::empty()
    } else {
        let own = runs_of(runs, ranked.last().session_id);
        let before = latest_runs(ranked.drop_last(), runs);
        if own.len() > 0 {
            before.push(own.last())
        } else {
            before
        }
    }
}

/// What a listed session stands for.
pub open spec fn summary_row(session: PersistedSessionSummary) -> (Seq<char>, Seq<char>, RunStateName, Seq<
    char,
>) {
    (session.session_id@, session.run_id@, session.status, session.latest_question@)
}

/// What listed sessions stand for.
pub open spec fn summary_rows(sessions: Seq<PersistedSessionSummary>) -> Seq<
    (Seq<char>, Seq<char>, RunStateName, Seq<char>),
> {
    Seq::new(sessions.len(), |i: int| summary_row(sessions[i]))
}

/// How runs are listed.
pub open spec fn listed_rows(runs: Seq<RunRowView>) -> Seq<
    (Seq<char>, Seq<char>, RunStateName, Seq<char>),
> {
    Seq::new(
        runs.len(),
        |i: int| (runs[i].session_id, runs[i].run_id, runs[i].status, runs[i].question),
    )
}

/// The sessions with the time of the last use of one of them moved to `now`.
pub open spec fn touched(sessions: Seq<SessionRowView>, session_id: Seq<char>, now: u64) -> Seq<
    SessionRowView,
> {
    Seq::new(
        sessions.len(),
        |i: int|
            if sessions[i].session_id == session_id {
                SessionRowView { updated_at_ms: now, ..sessions[i] }
            } else {
                sessions[i]
            },
    )
}

/// The tables after a run was begun in a session: a session that is new gets its row.
pub open spec fn begun(
    view: LedgerView,
    now: u64,
    session_id: Seq<char>,
    run_id: Seq<char>,
    question: Seq<char>,
) -> LedgerView {
    LedgerView {
        events: view.events,
        sessions: touched(
            if has_session(view.sessions, session_id) {
                view.sessions
            } else {
                view.sessions.push(
                    SessionRowView { session_id, created_at_ms: now, updated_at_ms: now },
                )
            },
            session_id,
            now,
        ),
        runs: view.runs.push(
            RunRowView {
                session_id,
                run_id,
                session_index: next_index(runs_of(view.runs, session_id)) as u64,
                question,
                final_answer: None,
                status: RunStateName::Running,
                error: None,
                created_at_ms: now,
                updated_at_ms: now,
            },
        ),
    }
}

/// Why a run cannot be begun.
pub enum BeginErrorView {
    TimeTooLarge,
    SessionNotFound,
    SessionActive { run_id: Seq<char> },
    IndexTooLarge,
    RunExists,
}

/// Why a run cannot be begun in a session; nothing where it can.
pub open spec fn begin_error(
    view: LedgerView,
    now: u64,
    session_id: Seq<char>,
    run_id: Seq<char>,
    create_session: bool,
) -> Option<BeginErrorView> {
    let own = runs_of(view.runs, session_id);
    if now > MAX_SQLITE_INTEGER {
        Some(BeginErrorView::TimeTooLarge)
    } else if !has_session(view.sessions, session_id) && !create_session {
        Some(BeginErrorView::SessionNotFound)
    } else if running_run(own) is Some {
        Some(BeginErrorView::SessionActive { run_id: running_run(own)->Some_0 })
    } else if next_index(own) > MAX_SQLITE_INTEGER {
        Some(BeginErrorView::IndexTooLarge)
    } else if has_run(view.runs, run_id) {
        Some(BeginErrorView::RunExists)
    } else {
        None
    }
}

/// Whether an error is the one that is due.
pub open spec fn begin_error_is(
    error: AppError,
    due: BeginErrorView,
    now: u64,
    session: Seq<char>,
    index: nat,
) -> bool {
    match due {
        BeginErrorView::TimeTooLarge => error matches AppError::Config(message) && message@
            == too_large("occurred_at_ms"@, now as nat),
        BeginErrorView::SessionNotFound => error matches AppError::SessionNotFound(name) && name@
            == session,
        BeginErrorView::SessionActive { run_id: active } => error matches AppError::SessionActive {
            session_id,
            run_id,
        } && session_id@ == session && run_id@ == active,
        BeginErrorView::IndexTooLarge => error matches AppError::Config(message) && message@
            == too_large("session_index"@, index),
        BeginErrorView::RunExists => error matches AppError::Sqlite(message) && message@
            == "UNIQUE constraint failed: session_runs.run_id"@,
    }
}

/// The rows with that of one run brought up to date.
pub open spec fn updated_runs(
    runs: Seq<RunRowView>,
    run_id: Seq<char>,
    status: RunStateName,
    final_answer: Option<Seq<char>>,
    error: Option<Seq<char>>,
    now: u64,
) -> Seq<RunRowView> {
    Seq::new(
        runs.len(),
        |i: int|
            if runs[i].run_id == run_id {
                RunRowView { status, final_answer, error, updated_at_ms: now, ..runs[i] }
            } else {
                runs[i]
            },
    )
}

/// The session that a run belongs to.
pub open spec fn session_of(runs: Seq<RunRowView>, run_id: Seq<char>) -> Seq<char>
    decreases runs.len(),
{
    if runs.len() == 0 {
        Seq::empty()
    } else if runs[0].run_id == run_id {
        runs[0].session_id
    } else {
        session_of(runs.drop_first(), run_id)
    }
}

/// The tables after a run was brought up to date.
pub open spec fn updated(
    view: LedgerView,
    run_id: Seq<char>,
    status: RunStateName,
    final_answer: Option<Seq<char>>,
    error: Option<Seq<char>>,
    now: u64,
) -> LedgerView {
    LedgerView {
        events: view.events,
        sessions: touched(view.sessions, session_of(view.runs, run_id), now),
        runs: updated_runs(view.runs, run_id, status, final_answer, error, now),
    }
}

/// The rows with every run that was under way interrupted.
pub open spec fn interrupted_runs(runs: Seq<RunRowView>, error: Seq<char>, now: u64) -> Seq<
    RunRowView,
> {
    Seq::new(
        runs.len(),
        |i: int|
            if runs[i].status == RunStateName::Running {
                RunRowView {
                    status: RunStateName::Interrupted,
                    error: Some(error),
                    updated_at_ms: now,
                    ..runs[i]
                }
            } else {
                runs[i]
            },
    )
}

/// Whether a session has a run under way.
pub open spec fn is_running(runs: Seq<RunRowView>, session_id: Seq<char>) -> bool {
    exists|i: int|
        0 <= i < runs.len() && (#[trigger] runs[i]).session_id == session_id && runs[i].status
            == RunStateName::Running
}

/// The tables after every run that was under way was interrupted.
pub open spec fn interrupted(view: LedgerView, error: Seq<char>, now: u64) -> LedgerView {
    LedgerView {
        events: view.events,
        sessions: Seq::new(
            view.sessions.len(),
            |i: int|
                if is_running(view.runs, view.sessions[i].session_id) {
                    SessionRowView { updated_at_ms: now, ..view.sessions[i] }
                } else {
                    view.sessions[i]
                },
        ),
        runs: interrupted_runs(view.runs, error, now),
    }
}

/// The number of runs that are under way.
pub open spec fn running_count(runs: Seq<RunRowView>) -> nat
    decreases runs.len(),
{
    if runs.len() == 0 {
        0
    } else {
        running_count(runs.drop_last()) + if runs.last().status == RunStateName::Running {
            1nat
        } else {
            0nat
        }
    }
}

impl SqliteLedger {
    /// The tables that `self` stands for.
    pub open spec fn view(&self) -> LedgerView {
        LedgerView {
            events: event_rows(self.events@),
            sessions: session_rows(self.sessions@),
            runs: run_rows(self.runs@),
        }
    }

    /// Whether the tables are as the operations leave them.
    pub open spec fn wf(&self) -> bool {
        tables_ok(self@)
    }

    /// Tables without rows.
    pub fn new() -> (r: SqliteLedger)
        ensures
            r.wf(),
            r@ == (LedgerView { events: Seq::empty(), sessions: Seq::empty(), runs: Seq::empty() }),
    {
        let r = SqliteLedger { events: Vec::new(), sessions: Vec::new(), runs: Vec::new() };
        assert(event_rows(r.events@) =~= Seq::empty());
        assert(session_rows(r.sessions@) =~= Seq::empty());
        assert(run_rows(r.runs@) =~= Seq::empty());
        r
    }

    /// Writes an event of a run: one that is already there is left alone, and another at its place
    /// is a conflict.
    pub fn append(&mut self, run_id: &str, record: StoredRecord) -> (r: AppResult<()>)
        requires
            old(self).wf(),
        ensures
            final(self).wf(),
            r is Ok <==> record.seq <= MAX_SQLITE_INTEGER && record.occurred_at_ms
                <= MAX_SQLITE_INTEGER && appended(old(self)@.events, run_id@, record@) is Ok,
            r is Ok ==> final(self)@ == (LedgerView {
                events: appended(old(self)@.events, run_id@, record@)->Ok_0,
                ..old(self)@
            }),
            r is Err ==> final(self)@ == old(self)@,
            record.seq > MAX_SQLITE_INTEGER ==> (r matches Err(AppError::Config(message))
                && message@ == too_large("seq"@, record.seq as nat)),
            record.seq <= MAX_SQLITE_INTEGER && record.occurred_at_ms > MAX_SQLITE_INTEGER ==> (r
                matches Err(AppError::Config(message)) && message@ == too_large(
                "occurred_at_ms"@,
                record.occurred_at_ms as nat,
            )),
            record.seq <= MAX_SQLITE_INTEGER && record.occurred_at_ms <= MAX_SQLITE_INTEGER
                && appended(old(self)@.events, run_id@, record@) is Err ==> (r matches Err(
                AppError::LedgerConflict { run_id: name, seq },
            ) && name@ == run_id@ && seq == record.seq),
    {
        if let Err(error) = sqlite_i64(record.seq, "seq") {
            return Err(error);
        }
        if let Err(error) = sqlite_i64(record.occurred_at_ms, "occurred_at_ms") {
            return Err(error);
        }
        let ghost events = event_rows(self.events@);
        let mut at: usize = 0;
        while at < self.events.len() && !(text::same_text(self.events[at].run_id.as_str(), run_id)
            && self.events[at].record.seq >= record.seq)
            invariant
                0 <= at <= self.events@.len(),
                self@ == old(self)@,
                events == event_rows(self.events@),
                forall|j: int|
                    0 <= j < at ==> !((#[trigger] events[j]).run_id == run_id@
                        && events[j].record.seq >= record.seq),
            decreases self.events@.len() - at,
        {
            at += 1;
        }
        proof {
            lemma_event_place(events, run_id@, record.seq, at as int);
        }
        if at < self.events.len() && self.events[at].record.seq == record.seq {
            let row = &self.events[at];
            assert(events[at as int] == row@);
            if row.record.occurred_at_ms == record.occurred_at_ms && row.version == LEDGER_VERSION
                && text::same_text(row.record.event_json.as_str(), record.event_json.as_str()) {
                return Ok(());
            }
            return Err(
                AppError::LedgerConflict { run_id: run_id.to_owned(), seq: record.seq },
            );
        }
        let row = EventRow { run_id: run_id.to_owned(), version: LEDGER_VERSION, record };
        let ghost added = row@;
        self.events.insert(at, row);
        proof {
            assert(event_rows(self.events@) =~= events.insert(at as int, added));
            lemma_events_placed(events, at as int, added);
        }
        Ok(())
    }

    /// The records of a run, in order.
    pub fn read_run(&self, run_id: &str) -> (r: AppResult<Vec<StoredRecord>>)
        ensures
            reads_run(r, self@.events, run_id@),
    {
        let ghost events = event_rows(self.events@);
        let mut records: Vec<StoredRecord> = Vec::new();
        let mut failure: Option<String> = None;
        assert(events.take(0) =~= Seq::empty());
        for i in 0..self.events.len()
            invariant
                events == event_rows(self.events@),
                stored_views(records@) == records_of(events_of(events.take(i as int), run_id@)),
                text::opt_view(failure) == rows_error(events_of(events.take(i as int), run_id@)),
        {
            proof {
                assert(events.take(i + 1).drop_last() =~= events.take(i as int));
                assert(events.take(i + 1).last() == events[i as int]);
            }
            let ghost before = events_of(events.take(i as int), run_id@);
            let row = &self.events[i];
            if text::same_text(row.run_id.as_str(), run_id) {
                let ghost now = before.push(row@);
                assert(events_of(events.take(i + 1), run_id@) == now);
                assert(now.drop_last() =~= before);
                if failure.is_none() {
                    failure = row.failure();
                }
                let ghost read = stored_views(records@);
                records.push(row.record.clone());
                proof {
                    assert(stored_views(records@) =~= read.push(row.record@));
                    assert(records_of(now) =~= records_of(before).push(row.record@));
                }
            }
        }
        assert(events.take(events.len() as int) =~= events);
        assert(stored_views(records@).len() == records@.len());
        if let Some(message) = failure {
            return Err(AppError::Sqlite(message));
        }
        if records.len() == 0 {
            return Err(AppError::RunNotFound(run_id.to_owned()));
        }
        Ok(records)
    }

    /// The name of the run with the latest event.
    pub fn latest_run_id(&self) -> (r: AppResult<String>)
        ensures
            match latest_event(self@.events) {
                Some(row) => r matches Ok(name) && name@ == row.run_id,
                None => r matches Err(AppError::NoSqliteRuns),
            },
    {
        let ghost events = event_rows(self.events@);
        if self.events.len() == 0 {
            return Err(AppError::NoSqliteRuns);
        }
        let mut best: usize = 0;
        proof {
            assert(events.take(1).drop_last() =~= Seq::empty());
            assert(events.take(1).last() == events[0]);
            assert(latest_event(events.take(1).drop_last()) is None);
        }
        for i in 1..self.events.len()
            invariant
                events == event_rows(self.events@),
                best < i,
                i <= self.events@.len(),
                latest_event(events.take(i as int)) == Some(events[best as int]),
        {
            proof {
                assert(events.take(i + 1).drop_last() =~= events.take(i as int));
                assert(events.take(i + 1).last() == events[i as int]);
            }
            let row = &self.events[i];
            let top = &self.events[best];
            if row.record.occurred_at_ms > top.record.occurred_at_ms || (
            row.record.occurred_at_ms == top.record.occurred_at_ms && text::text_before(
                top.run_id.as_str(),
                row.run_id.as_str(),
            )) {
                best = i;
            }
        }
        assert(events.take(events.len() as int) =~= events);
        Ok(self.events[best].run_id.clone())
    }

    /// The run with the latest event, and its records.
    pub fn read_latest_run(&self) -> (r: AppResult<(String, Vec<StoredRecord>)>)
        ensures
            match latest_event(self@.events) {
                None => r matches Err(AppError::NoSqliteRuns),
                Some(row) => {
                    &&& r matches Ok((name, records)) ==> name@ == row.run_id && reads_run(
                        Ok(records),
                        self@.events,
                        row.run_id,
                    )
                    &&& r matches Err(error) ==> reads_run(Err(error), self@.events, row.run_id)
                },
            },
    {
        let run_id = match self.latest_run_id() {
            Ok(run_id) => run_id,
            Err(error) => {
                return Err(error);
            },
        };
        match self.read_run(run_id.as_str()) {
            Ok(records) => Ok((run_id, records)),
            Err(error) => Err(error),
        }
    }

    fn session_exists(&self, session_id: &str) -> (r: bool)
        ensures
            r == has_session(self@.sessions, session_id@),
    {
        let ghost sessions = session_rows(self.sessions@);
        for i in 0..self.sessions.len()
            invariant
                sessions == session_rows(self.sessions@),
                forall|j: int| 0 <= j < i ==> (#[trigger] sessions[j]).session_id != session_id@,
        {
            assert(sessions[i as int].session_id == self.sessions@[i as int].session_id@);
            if text::same_text(self.sessions[i].session_id.as_str(), session_id) {
                return true;
            }
        }
        false
    }

    fn run_exists(&self, run_id: &str) -> (r: bool)
        ensures
            r == has_run(self@.runs, run_id@),
    {
        let ghost runs = run_rows(self.runs@);
        for i in 0..self.runs.len()
            invariant
                runs == run_rows(self.runs@),
                forall|j: int| 0 <= j < i ==> (#[trigger] runs[j]).run_id != run_id@,
        {
            assert(runs[i as int].run_id == self.runs@[i as int].run_id@);
            if text::same_text(self.runs[i].run_id.as_str(), run_id) {
                return true;
            }
        }
        false
    }

    /// The places of the runs of a session.
    pub(crate) fn session_places(&self, session_id: &str) -> (r: Vec<usize>)
        ensures
            r@.len() == runs_of(self@.runs, session_id@).len(),
            forall|k: int|
                0 <= k < r@.len() ==> (#[trigger] r@[k]) < self.runs@.len() && self@.runs[r@[k] as int]
                    == runs_of(self@.runs, session_id@)[k],
    {
        let ghost runs = run_rows(self.runs@);
        let mut places: Vec<usize> = Vec::new();
        assert(runs.take(0) =~= Seq::empty());
        for i in 0..self.runs.len()
            invariant
                runs == run_rows(self.runs@),
                places@.len() == runs_of(runs.take(i as int), session_id@).len(),
                forall|k: int|
                    0 <= k < places@.len() ==> (#[trigger] places@[k]) < i && runs[places@[k] as int]
                        == runs_of(runs.take(i as int), session_id@)[k],
        {
            proof {
                assert(runs.take(i + 1).drop_last() =~= runs.take(i as int));
                assert(runs.take(i + 1).last() == runs[i as int]);
            }
            if text::same_text(self.runs[i].session_id.as_str(), session_id) {
                places.push(i);
            }
        }
        assert(runs.take(runs.len() as int) =~= runs);
        places
    }

    /// The session that was used last.
    pub fn latest_session_id(&self) -> (r: AppResult<String>)
        ensures
            match latest_session(self@.sessions) {
                Some(row) => r matches Ok(name) && name@ == row.session_id,
                None => r matches Err(AppError::NoSqliteSessions),
            },
    {
        let ghost sessions = session_rows(self.sessions@);
        if self.sessions.len() == 0 {
            return Err(AppError::NoSqliteSessions);
        }
        let mut best: usize = 0;
        proof {
            assert(sessions.take(1).drop_last() =~= Seq::empty());
            assert(sessions.take(1).last() == sessions[0]);
            assert(latest_session(sessions.take(1).drop_last()) is None);
        }
        for i in 1..self.sessions.len()
            invariant
                sessions == session_rows(self.sessions@),
                best < i,
                i <= self.sessions@.len(),
                latest_session(sessions.take(i as int)) == Some(sessions[best as int]),
        {
            proof {
                assert(sessions.take(i + 1).drop_last() =~= sessions.take(i as int));
                assert(sessions.take(i + 1).last() == sessions[i as int]);
            }
            if session_is_later(&self.sessions[i], &self.sessions[best]) {
                best = i;
            }
        }
        assert(sessions.take(sessions.len() as int) =~= sessions);
        Ok(self.sessions[best].session_id.clone())
    }

    /// The finished turns of a session, oldest first.
    pub fn session_turns(&self, session_id: &str) -> (r: AppResult<Vec<SessionTurn>>)
        ensures
            if has_session(self@.sessions, session_id@) {
                r matches Ok(turns) && turn_views(turns@) == turns_of(
                    runs_of(self@.runs, session_id@),
                )
            } else {
                r matches Err(AppError::SessionNotFound(name)) && name@ == session_id@
            },
    {
        if !self.session_exists(session_id) {
            return Err(AppError::SessionNotFound(session_id.to_owned()));
        }
        let ghost own = runs_of(self@.runs, session_id@);
        let places = self.session_places(session_id);
        let mut turns: Vec<SessionTurn> = Vec::new();
        assert(own.take(0) =~= Seq::empty());
        for k in 0..places.len()
            invariant
                own == runs_of(self@.runs, session_id@),
                places@.len() == own.len(),
                forall|j: int|
                    0 <= j < places@.len() ==> (#[trigger] places@[j]) < self.runs@.len()
                        && self@.runs[places@[j] as int] == own[j],
                turn_views(turns@) == turns_of(own.take(k as int)),
        {
            proof {
                assert(own.take(k + 1).drop_last() =~= own.take(k as int));
                assert(own.take(k + 1).last() == own[k as int]);
            }
            let ghost before = turn_views(turns@);
            let row = &self.runs[places[k]];
            assert(own[k as int] == row@);
            if row.status == RunStateName::Finished {
                if let Some(answer) = &row.final_answer {
                    turns.push(
                        SessionTurn {
                            question: row.question.clone(),
                            final_answer: answer.clone(),
                        },
                    );
                    assert(turn_views(turns@) =~= before.push((row.question@, answer@)));
                }
            }
        }
        assert(own.take(own.len() as int) =~= own);
        Ok(turns)
    }

    fn active_run(&self, session_id: &str) -> (r: Option<String>)
        ensures
            text::opt_view(r) == running_run(runs_of(self@.runs, session_id@)),
    {
        let ghost own = runs_of(self@.runs, session_id@);
        let places = self.session_places(session_id);
        assert(own.skip(0) =~= own);
        for k in 0..places.len()
            invariant
                own == runs_of(self@.runs, session_id@),
                places@.len() == own.len(),
                forall|j: int|
                    0 <= j < places@.len() ==> (#[trigger] places@[j]) < self.runs@.len()
                        && self@.runs[places@[j] as int] == own[j],
                running_run(own) == running_run(own.skip(k as int)),
        {
            proof {
                assert(own.skip(k as int)[0] == own[k as int]);
                assert(own.skip(k as int).drop_first() =~= own.skip(k + 1));
            }
            let row = &self.runs[places[k]];
            assert(own[k as int] == row@);
            if row.status == RunStateName::Running {
                return Some(row.run_id.clone());
            }
        }
        None
    }

    fn touch(&mut self, session_id: &str, now: u64)
        ensures
            session_rows(final(self).sessions@) == touched(
                session_rows(old(self).sessions@),
                session_id@,
                now,
            ),
            final(self).events == old(self).events,
            final(self).runs == old(self).runs,
    {
        let ghost before = session_rows(self.sessions@);
        let mut i: usize = 0;
        while i < self.sessions.len()
            invariant
                0 <= i <= self.sessions@.len(),
                self.sessions@.len() == before.len(),
                self.events == old(self).events,
                self.runs == old(self).runs,
                forall|j: int|
                    0 <= j < i ==> (#[trigger] self.sessions@[j])@ == touched(
                        before,
                        session_id@,
                        now,
                    )[j],
                forall|j: int| i <= j < before.len() ==> (#[trigger] self.sessions@[j])@ == before[j],
            decreases self.sessions@.len() - i,
        {
            if text::same_text(self.sessions[i].session_id.as_str(), session_id) {
                let row = SessionRow {
                    session_id: self.sessions[i].session_id.clone(),
                    created_at_ms: self.sessions[i].created_at_ms,
                    updated_at_ms: now,
                };
                self.sessions.set(i, row);
            }
            i += 1;
        }
        assert(session_rows(self.sessions@) =~= touched(before, session_id@, now));
    }

    /// Begins a run in a session, and gives the finished turns that come before it. A session that
    /// is not there is made only where that is asked for; one that has a run under way takes no
    /// other.
    pub fn begin_session_run(
        &mut self,
        now: u64,
        session_id: &str,
        run_id: &str,
        question: &str,
        create_session: bool,
    ) -> (r: AppResult<Vec<SessionTurn>>)
        requires
            old(self).wf(),
        ensures
            final(self).wf(),
            match begin_error(old(self)@, now, session_id@, run_id@, create_session) {
                Some(due) => (r matches Err(error) && begin_error_is(
                    error,
                    due,
                    now,
                    session_id@,
                    next_index(runs_of(old(self)@.runs, session_id@)),
                )) && final(self)@ == old(self)@,
                None => (r matches Ok(turns) && turn_views(turns@) == turns_of(
                    runs_of(old(self)@.runs, session_id@),
                )) && final(self)@ == begun(old(self)@, now, session_id@, run_id@, question@),
            },
    {
        let ghost before = self@;
        let ghost own = runs_of(self@.runs, session_id@);
        if let Err(error) = sqlite_i64(now, "occurred_at_ms") {
            return Err(error);
        }
        let exists = self.session_exists(session_id);
        if !exists && !create_session {
            return Err(AppError::SessionNotFound(session_id.to_owned()));
        }
        if let Some(active) = self.active_run(session_id) {
            return Err(
                AppError::SessionActive { session_id: session_id.to_owned(), run_id: active },
            );
        }
        let places = self.session_places(session_id);
        let index: u64 = if places.len() == 0 {
            0
        } else {
            let last: u64 = self.runs[places[places.len() - 1]].session_index;
            assert(last == own.last().session_index);
            assert(self@.runs[places@[places@.len() - 1] as int].session_index
                <= MAX_SQLITE_INTEGER);
            last + 1
        };
        if index > MAX_SQLITE_INTEGER {
            return Err(index_error(index));
        }
        if self.run_exists(run_id) {
            return Err(
                AppError::Sqlite("UNIQUE constraint failed: session_runs.run_id".to_owned()),
            );
        }
        if !exists {
            self.sessions.push(
                SessionRow {
                    session_id: session_id.to_owned(),
                    created_at_ms: now,
                    updated_at_ms: now,
                },
            );
            assert(session_rows(self.sessions@) =~= before.sessions.push(
                SessionRowView { session_id: session_id@, created_at_ms: now, updated_at_ms: now },
            ));
        }
        let row = RunRow {
            session_id: session_id.to_owned(),
            run_id: run_id.to_owned(),
            session_index: index,
            question: question.to_owned(),
            final_answer: None,
            status: RunStateName::Running,
            error: None,
            created_at_ms: now,
            updated_at_ms: now,
        };
        let ghost added = row@;
        self.runs.push(row);
        assert(run_rows(self.runs@) =~= before.runs.push(added));
        self.touch(session_id, now);
        proof {
            assert(self@ == begun(before, now, session_id@, run_id@, question@));
            lemma_begun_is_sound(before, now, session_id@, run_id@, question@);
            assert(before.runs.push(added).drop_last() =~= before.runs);
            assert(runs_of(self@.runs, session_id@) == own.push(added));
            assert(own.push(added).drop_last() =~= own);
            lemma_begun_has_session(before, now, session_id@, run_id@, question@);
        }
        self.session_turns(session_id)
    }

    fn update_session_run(
        &mut self,
        now: u64,
        run_id: &str,
        status: RunStateName,
        final_answer: Option<String>,
        error: Option<String>,
    ) -> (r: AppResult<()>)
        requires
            old(self).wf(),
            status != RunStateName::Running,
        ensures
            final(self).wf(),
            r is Ok <==> now <= MAX_SQLITE_INTEGER && has_run(old(self)@.runs, run_id@),
            r is Ok ==> final(self)@ == updated(
                old(self)@,
                run_id@,
                status,
                text::opt_view(final_answer),
                text::opt_view(error),
                now,
            ),
            r is Err ==> final(self)@ == old(self)@,
            now > MAX_SQLITE_INTEGER ==> (r matches Err(AppError::Config(message)) && message@
                == too_large("occurred_at_ms"@, now as nat)),
            now <= MAX_SQLITE_INTEGER && !has_run(old(self)@.runs, run_id@) ==> (r matches Err(
                AppError::RunNotFound(name),
            ) && name@ == run_id@),
    {
        let ghost before = self@;
        if let Err(error) = sqlite_i64(now, "occurred_at_ms") {
            return Err(error);
        }
        let mut i: usize = 0;
        assert(before.runs.skip(0) =~= before.runs);
        while i < self.runs.len() && !text::same_text(self.runs[i].run_id.as_str(), run_id)
            invariant
                0 <= i <= self.runs@.len(),
                self@ == before,
                forall|j: int| 0 <= j < i ==> (#[trigger] before.runs[j]).run_id != run_id@,
                session_of(before.runs, run_id@) == session_of(
                    before.runs.skip(i as int),
                    run_id@,
                ),
            decreases self.runs@.len() - i,
        {
            proof {
                assert(before.runs.skip(i as int)[0] == before.runs[i as int]);
                assert(before.runs.skip(i as int).drop_first() =~= before.runs.skip(i + 1));
            }
            i += 1;
        }
        if i >= self.runs.len() {
            return Err(AppError::RunNotFound(run_id.to_owned()));
        }
        proof {
            assert(before.runs.skip(i as int)[0] == before.runs[i as int]);
            assert(before.runs[i as int].run_id == run_id@);
        }
        let session_id = self.runs[i].session_id.clone();
        let row = RunRow {
            session_id: self.runs[i].session_id.clone(),
            run_id: self.runs[i].run_id.clone(),
            session_index: self.runs[i].session_index,
            question: self.runs[i].question.clone(),
            final_answer,
            status,
            error,
            created_at_ms: self.runs[i].created_at_ms,
            updated_at_ms: now,
        };
        self.runs.set(i, row);
        proof {
            let wanted = updated_runs(
                before.runs,
                run_id@,
                status,
                text::opt_view(final_answer),
                text::opt_view(error),
                now,
            );
            assert forall|j: int| 0 <= j < before.runs.len() implies run_rows(self.runs@)[j]
                == wanted[j] by {
                if j != i {
                    assert(before.runs[j].run_id != before.runs[i as int].run_id);
                }
            }
            assert(run_rows(self.runs@) =~= wanted);
        }
        self.touch(session_id.as_str(), now);
        proof {
            lemma_updated_is_sound(
                before,
                run_id@,
                status,
                text::opt_view(final_answer),
                text::opt_view(error),
                now,
            );
        }
        Ok(())
    }

    /// Notes that a run has answered.
    pub fn finish_session_run(&mut self, now: u64, run_id: &str, final_answer: &str) -> (r:
        AppResult<()>)
        requires
            old(self).wf(),
        ensures
            final(self).wf(),
            r is Ok <==> now <= MAX_SQLITE_INTEGER && has_run(old(self)@.runs, run_id@),
            r is Ok ==> final(self)@ == updated(
                old(self)@,
                run_id@,
                RunStateName::Finished,
                Some(final_answer@),
                None,
                now,
            ),
            r is Err ==> final(self)@ == old(self)@,
            now > MAX_SQLITE_INTEGER ==> (r matches Err(AppError::Config(message)) && message@
                == too_large("occurred_at_ms"@, now as nat)),
            now <= MAX_SQLITE_INTEGER && !has_run(old(self)@.runs, run_id@) ==> (r matches Err(
                AppError::RunNotFound(name),
            ) && name@ == run_id@),
    {
        self.update_session_run(
            now,
            run_id,
            RunStateName::Finished,
            Some(final_answer.to_owned()),
            None,
        )
    }

    /// Notes that a run has failed, or was canceled.
    pub fn fail_session_run(&mut self, now: u64, run_id: &str, error: &str, canceled: bool) -> (r:
        AppResult<()>)
        requires
            old(self).wf(),
        ensures
            final(self).wf(),
            r is Ok <==> now <= MAX_SQLITE_INTEGER && has_run(old(self)@.runs, run_id@),
            r is Ok ==> final(self)@ == updated(
                old(self)@,
                run_id@,
                if canceled {
                    RunStateName::Canceled
                } else {
                    RunStateName::Failed
                },
                None,
                Some(error@),
                now,
            ),
            r is Err ==> final(self)@ == old(self)@,
            now > MAX_SQLITE_INTEGER ==> (r matches Err(AppError::Config(message)) && message@
                == too_large("occurred_at_ms"@, now as nat)),
            now <= MAX_SQLITE_INTEGER && !has_run(old(self)@.runs, run_id@) ==> (r matches Err(
                AppError::RunNotFound(name),
            ) && name@ == run_id@),
    {
        self.update_session_run(
            now,
            run_id,
            if canceled {
                RunStateName::Canceled
            } else {
                RunStateName::Failed
            },
            None,
            Some(error.to_owned()),
        )
    }

    fn session_is_running(&self, session_id: &str) -> (r: bool)
        ensures
            r == is_running(self@.runs, session_id@),
    {
        let ghost runs = run_rows(self.runs@);
        for i in 0..self.runs.len()
            invariant
                runs == run_rows(self.runs@),
                forall|j: int|
                    0 <= j < i ==> !((#[trigger] runs[j]).session_id == session_id@
                        && runs[j].status == RunStateName::Running),
        {
            assert(runs[i as int] == self.runs@[i as int]@);
            if self.runs[i].status == RunStateName::Running && text::same_text(
                self.runs[i].session_id.as_str(),
                session_id,
            ) {
                return true;
            }
        }
        false
    }

    /// Notes that every run that was under way was interrupted, and how many there were.
    pub fn interrupt_running_session_runs(&mut self, now: u64, error: &str) -> (r: AppResult<usize>)
        requires
            old(self).wf(),
        ensures
            final(self).wf(),
            r is Ok <==> now <= MAX_SQLITE_INTEGER,
            r matches Ok(count) ==> count == running_count(old(self)@.runs) && final(self)@
                == interrupted(old(self)@, error@, now),
            r matches Err(e) ==> e matches AppError::Config(message) && message@ == too_large(
                "occurred_at_ms"@,
                now as nat,
            ) && final(self)@ == old(self)@,
    {
        let ghost before = self@;
        if let Err(error) = sqlite_i64(now, "occurred_at_ms") {
            return Err(error);
        }
        let mut i: usize = 0;
        while i < self.sessions.len()
            invariant
                0 <= i <= self.sessions@.len(),
                self.sessions@.len() == before.sessions.len(),
                run_rows(self.runs@) == before.runs,
                event_rows(self.events@) == before.events,
                forall|j: int|
                    0 <= j < i ==> (#[trigger] self.sessions@[j])@ == interrupted(
                        before,
                        error@,
                        now,
                    ).sessions[j],
                forall|j: int|
                    i <= j < before.sessions.len() ==> (#[trigger] self.sessions@[j])@
                        == before.sessions[j],
            decreases self.sessions@.len() - i,
        {
            if self.session_is_running(self.sessions[i].session_id.as_str()) {
                let row = SessionRow {
                    session_id: self.sessions[i].session_id.clone(),
                    created_at_ms: self.sessions[i].created_at_ms,
                    updated_at_ms: now,
                };
                self.sessions.set(i, row);
            }
            i += 1;
        }
        assert(session_rows(self.sessions@) =~= interrupted(before, error@, now).sessions);
        let mut count: usize = 0;
        let mut k: usize = 0;
        assert(before.runs.take(0) =~= Seq::empty());
        while k < self.runs.len()
            invariant
                0 <= k <= self.runs@.len(),
                self.runs@.len() == before.runs.len(),
                session_rows(self.sessions@) == interrupted(before, error@, now).sessions,
                event_rows(self.events@) == before.events,
                count == running_count(before.runs.take(k as int)),
                count <= k,
                forall|j: int|
                    0 <= j < k ==> (#[trigger] self.runs@[j])@ == interrupted_runs(
                        before.runs,
                        error@,
                        now,
                    )[j],
                forall|j: int|
                    k <= j < before.runs.len() ==> (#[trigger] self.runs@[j])@ == before.runs[j],
            decreases self.runs@.len() - k,
        {
            proof {
                assert(before.runs.take(k + 1).drop_last() =~= before.runs.take(k as int));
                assert(before.runs.take(k + 1).last() == before.runs[k as int]);
            }
            if self.runs[k].status == RunStateName::Running {
                let row = RunRow {
                    session_id: self.runs[k].session_id.clone(),
                    run_id: self.runs[k].run_id.clone(),
                    session_index: self.runs[k].session_index,
                    question: self.runs[k].question.clone(),
                    final_answer: text::copy_option(&self.runs[k].final_answer),
                    status: RunStateName::Interrupted,
                    error: Some(error.to_owned()),
                    created_at_ms: self.runs[k].created_at_ms,
                    updated_at_ms: now,
                };
                self.runs.set(k, row);
                count += 1;
            }
            k += 1;
        }
        proof {
            assert(before.runs.take(before.runs.len() as int) =~= before.runs);
            assert(run_rows(self.runs@) =~= interrupted_runs(before.runs, error@, now));
            lemma_interrupted_is_sound(before, error@, now);
        }
        Ok(count)
    }

    /// The runs of a session with their records, oldest run first.
    pub fn read_session(&self, session_id: &str) -> (r: AppResult<SessionRecords>)
        ensures
            !has_session(self@.sessions, session_id@) ==> (r matches Err(
                AppError::SessionNotFound(name),
            ) && name@ == session_id@),
            has_session(self@.sessions, session_id@) ==> {
                let own = runs_of(self@.runs, session_id@);
                &&& r matches Ok(session) ==> session.session_id@ == session_id@
                    && session.runs@.len() == own.len() && forall|k: int|
                    0 <= k < own.len() ==> (#[trigger] session.runs@[k]).run_id@ == own[k].run_id
                        && reads_run(Ok(session.runs@[k].records), self@.events, own[k].run_id)
                &&& r matches Err(error) ==> exists|k: int|
                    0 <= k < own.len() && reads_run(
                        Err(error),
                        self@.events,
                        (#[trigger] own[k]).run_id,
                    ) && forall|j: int|
                        0 <= j < k ==> readable(
                            events_of(self@.events, (#[trigger] own[j]).run_id),
                        ) && events_of(self@.events, own[j].run_id).len() > 0
            },
    {
        if !self.session_exists(session_id) {
            return Err(AppError::SessionNotFound(session_id.to_owned()));
        }
        let ghost own = runs_of(self@.runs, session_id@);
        let places = self.session_places(session_id);
        let mut runs: Vec<SessionRunRecords> = Vec::new();
        for k in 0..places.len()
            invariant
                own == runs_of(self@.runs, session_id@),
                places@.len() == own.len(),
                has_session(self@.sessions, session_id@),
                forall|j: int|
                    0 <= j < places@.len() ==> (#[trigger] places@[j]) < self.runs@.len()
                        && self@.runs[places@[j] as int] == own[j],
                runs@.len() == k,
                forall|j: int|
                    0 <= j < k ==> (#[trigger] runs@[j]).run_id@ == own[j].run_id && reads_run(
                        Ok(runs@[j].records),
                        self@.events,
                        own[j].run_id,
                    ),
        {
            let row = &self.runs[places[k]];
            assert(own[k as int] == row@);
            match self.read_run(row.run_id.as_str()) {
                Ok(records) => {
                    runs.push(SessionRunRecords { run_id: row.run_id.clone(), records });
                },
                Err(error) => {
                    proof {
                        assert forall|j: int| 0 <= j < k implies readable(
                            events_of(self@.events, (#[trigger] own[j]).run_id),
                        ) && events_of(self@.events, own[j].run_id).len() > 0 by {
                            assert(reads_run(
                                Ok(runs@[j].records),
                                self@.events,
                                own[j].run_id,
                            ));
                        }
                        assert(reads_run(Err(error), self@.events, own[k as int].run_id));
                    }
                    return Err(error);
                },
            }
        }
        Ok(SessionRecords { session_id: session_id.to_owned(), runs })
    }

    /// The session that was used last, with its runs and their records.
    pub fn read_latest_session(&self) -> (r: AppResult<SessionRecords>)
        ensures
            match latest_session(self@.sessions) {
                None => r matches Err(AppError::NoSqliteSessions),
                Some(row) => {
                    let own = runs_of(self@.runs, row.session_id);
                    &&& r matches Ok(session) ==> session.session_id@ == row.session_id
                        && session.runs@.len() == own.len() && forall|k: int|
                        0 <= k < own.len() ==> (#[trigger] session.runs@[k]).run_id@
                            == own[k].run_id && reads_run(
                            Ok(session.runs@[k].records),
                            self@.events,
                            own[k].run_id,
                        )
                    &&& r matches Err(error) ==> exists|k: int|
                        0 <= k < own.len() && reads_run(
                            Err(error),
                            self@.events,
                            (#[trigger] own[k]).run_id,
                        ) && forall|j: int|
                            0 <= j < k ==> readable(
                                events_of(self@.events, (#[trigger] own[j]).run_id),
                            ) && events_of(self@.events, own[j].run_id).len() > 0
                },
            },
    {
        proof {
            lemma_latest_session_is_known(self@.sessions);
        }
        match self.latest_session_id() {
            Ok(session_id) => self.read_session(session_id.as_str()),
            Err(error) => Err(error),
        }
    }

    /// The sessions with their latest runs, latest session first.
    pub fn session_summaries(&self) -> (r: Vec<PersistedSessionSummary>)
        ensures
            summary_rows(r@) == listed_rows(latest_runs(ranked(self@.sessions), self@.runs)),
    {
        let order = self.ranked_places();
        let ghost rank = ranked(self@.sessions);
        let mut summaries: Vec<PersistedSessionSummary> = Vec::new();
        assert(rank.take(0) =~= Seq::empty());
        for k in 0..order.len()
            invariant
                rank == ranked(self@.sessions),
                order@.len() == rank.len(),
                forall|j: int|
                    0 <= j < order@.len() ==> (#[trigger] order@[j]) < self.sessions@.len()
                        && self@.sessions[order@[j] as int] == rank[j],
                summary_rows(summaries@) == listed_rows(
                    latest_runs(rank.take(k as int), self@.runs),
                ),
        {
            proof {
                assert(rank.take(k + 1).drop_last() =~= rank.take(k as int));
                assert(rank.take(k + 1).last() == rank[k as int]);
            }
            let ghost before = latest_runs(rank.take(k as int), self@.runs);
            let session = &self.sessions[order[k]];
            assert(rank[k as int] == session@);
            let places = self.session_places(session.session_id.as_str());
            if places.len() > 0 {
                let row = &self.runs[places[places.len() - 1]];
                let ghost own = runs_of(self@.runs, session.session_id@);
                assert(row@ == own.last());
                let ghost shown = summary_rows(summaries@);
                let ghost entry = (row.session_id@, row.run_id@, row.status, row.question@);
                summaries.push(
                    PersistedSessionSummary {
                        session_id: row.session_id.clone(),
                        run_id: row.run_id.clone(),
                        status: row.status,
                        latest_question: row.question.clone(),
                    },
                );
                assert(summary_rows(summaries@) =~= shown.push(entry));
                assert(listed_rows(before.push(row@)) =~= listed_rows(before).push(entry));
            }
        }
        assert(rank.take(rank.len() as int) =~= rank);
        summaries
    }

    /// The places of the sessions, latest session first.
    fn ranked_places(&self) -> (r: Vec<usize>)
        ensures
            r@.len() == ranked(self@.sessions).len(),
            forall|k: int|
                0 <= k < r@.len() ==> (#[trigger] r@[k]) < self.sessions@.len()
                    && self@.sessions[r@[k] as int] == ranked(self@.sessions)[k],
    {
        let ghost sessions = session_rows(self.sessions@);
        let mut order: Vec<usize> = Vec::new();
        assert(sessions.take(0) =~= Seq::empty());
        for i in 0..self.sessions.len()
            invariant
                sessions == session_rows(self.sessions@),
                order@.len() == ranked(sessions.take(i as int)).len(),
                forall|k: int|
                    0 <= k < order@.len() ==> (#[trigger] order@[k]) < self.sessions@.len()
                        && sessions[order@[k] as int] == ranked(sessions.take(i as int))[k],
        {
            proof {
                assert(sessions.take(i + 1).drop_last() =~= sessions.take(i as int));
                assert(sessions.take(i + 1).last() == sessions[i as int]);
            }
            let ghost rank = ranked(sessions.take(i as int));
            let mut at: usize = order.len();
            assert(rank.take(at as int) =~= rank);
            assert(ranked_with(rank, sessions[i as int]) =~= ranked_with(
                rank.take(at as int),
                sessions[i as int],
            ) + rank.skip(at as int));
            while at > 0 && session_is_later(&self.sessions[i], &self.sessions[order[at - 1]])
                invariant
                    i < self.sessions@.len(),
                    0 <= at <= order@.len(),
                    sessions == session_rows(self.sessions@),
                    order@.len() == rank.len(),
                    forall|k: int|
                        0 <= k < order@.len() ==> (#[trigger] order@[k]) < self.sessions@.len()
                            && sessions[order@[k] as int] == rank[k],
                    ranked_with(rank, sessions[i as int]) == ranked_with(
                        rank.take(at as int),
                        sessions[i as int],
                    ) + rank.skip(at as int),
                decreases at,
            {
                proof {
                    let shorter = rank.take(at as int);
                    assert(shorter.drop_last() =~= rank.take(at - 1));
                    assert(shorter.last() == rank[at - 1]);
                    assert(ranked_with(rank.take(at - 1), sessions[i as int]).push(rank[at - 1])
                        + rank.skip(at as int) =~= ranked_with(
                        rank.take(at - 1),
                        sessions[i as int],
                    ) + rank.skip(at - 1));
                }
                at -= 1;
            }
            proof {
                let shorter = rank.take(at as int);
                if at > 0 {
                    assert(shorter.last() == rank[at - 1]);
                    assert(ranked_with(shorter, sessions[i as int]) == shorter.push(
                        sessions[i as int],
                    ));
                } else {
                    assert(ranked_with(shorter, sessions[i as int]) =~= shorter.push(
                        sessions[i as int],
                    ));
                }
                assert(shorter.push(sessions[i as int]) + rank.skip(at as int) =~= rank.insert(
                    at as int,
                    sessions[i as int],
                ));
            }
            order.insert(at, i);
        }
        assert(sessions.take(sessions.len() as int) =~= sessions);
        order
    }

    /// How a run stands.
    pub fn run_status(&self, run_id: &str) -> (r: AppResult<PersistedRunStatus>)
        requires
            self.wf(),
        ensures
            if has_run(self@.runs, run_id@) {
                r matches Ok(status) && status.run_id@ == run_id@ && forall|i: int|
                    0 <= i < self@.runs.len() && (#[trigger] self@.runs[i]).run_id == run_id@
                        ==> status.status == self@.runs[i].status && text::opt_view(
                        status.final_answer,
                    ) == self@.runs[i].final_answer
            } else {
                r matches Err(AppError::RunNotFound(name)) && name@ == run_id@
            },
    {
        let at = self.run_place(run_id);
        if at == self.runs.len() {
            return Err(AppError::RunNotFound(run_id.to_owned()));
        }
        let row = &self.runs[at];
        assert(self@.runs[at as int] == row@);
        Ok(
            PersistedRunStatus {
                run_id: row.run_id.clone(),
                status: row.status,
                final_answer: text::copy_option(&row.final_answer),
            },
        )
    }

    /// The place of a run, or the number of runs where there is none of that name.
    pub(crate) fn run_place(&self, run_id: &str) -> (r: usize)
        requires
            self.wf(),
        ensures
            r <= self.runs@.len(),
            r < self.runs@.len() <==> has_run(self@.runs, run_id@),
            forall|i: int|
                0 <= i < self@.runs.len() && (#[trigger] self@.runs[i]).run_id == run_id@ ==> i == r,
    {
        let ghost runs = run_rows(self.runs@);
        for i in 0..self.runs.len()
            invariant
                self.wf(),
                runs == run_rows(self.runs@),
                forall|j: int| 0 <= j < i ==> (#[trigger] runs[j]).run_id != run_id@,
        {
            assert(runs[i as int] == self.runs@[i as int]@);
            if text::same_text(self.runs[i].run_id.as_str(), run_id) {
                proof {
                    assert forall|j: int| 0 <= j < runs.len() && (
                    #[trigger] runs[j]).run_id == run_id@ implies j == i by {
                        if j > i {
                            assert(runs[i as int].run_id != runs[j].run_id);
                        }
                    }
                }
                return i;
            }
        }
        self.runs.len()
    }

    /// How the latest run of a session stands.
    pub fn latest_session_run_status(&self, session_id: &str) -> (r: AppResult<PersistedRunStatus>)
        ensures
            ({
                let own = runs_of(self@.runs, session_id@);
                if own.len() > 0 {
                    r matches Ok(status) && status.run_id@ == own.last().run_id && status.status
                        == own.last().status && text::opt_view(status.final_answer)
                        == own.last().final_answer
                } else {
                    r matches Err(AppError::SessionNotFound(name)) && name@ == session_id@
                }
            }),
    {
        let places = self.session_places(session_id);
        if places.len() == 0 {
            return Err(AppError::SessionNotFound(session_id.to_owned()));
        }
        let row = &self.runs[places[places.len() - 1]];
        Ok(
            PersistedRunStatus {
                run_id: row.run_id.clone(),
                status: row.status,
                final_answer: text::copy_option(&row.final_answer),
            },
        )
    }
}

/// The session that was used last is one of the sessions.
proof fn lemma_latest_session_is_known(sessions: Seq<SessionRowView>)
    ensures
        latest_session(sessions) matches Some(row) ==> has_session(sessions, row.session_id),
    decreases sessions.len(),
{
    if sessions.len() > 0 {
        lemma_latest_session_is_known(sessions.drop_last());
        assert(sessions[sessions.len() - 1] == sessions.last());
        if let Some(row) = latest_session(sessions.drop_last()) {
            let i = choose|i: int|
                0 <= i < sessions.drop_last().len() && (#[trigger] sessions.drop_last()[i]).session_id
                    == row.session_id;
            assert(sessions[i].session_id == row.session_id);
        }
    }
}

fn index_error(index: u64) -> (r: AppError)
    ensures
        r matches AppError::Config(message) && message@ == too_large("session_index"@, index as nat),
{
    AppError::Config(
        text::text4(
            "ledger ",
            "session_index",
            " exceeds sqlite integer: ",
            text::decimal_u64(index).as_str(),
        ),
    )
}

fn session_is_later(a: &SessionRow, b: &SessionRow) -> (r: bool)
    ensures
        r == later_session(a@, b@),
{
    a.updated_at_ms > b.updated_at_ms || (a.updated_at_ms == b.updated_at_ms && text::text_before(
        b.session_id.as_str(),
        a.session_id.as_str(),
    ))
}

/// The session that was used last.
pub open spec fn latest_session(sessions: Seq<SessionRowView>) -> Option<SessionRowView>
    decreases sessions.len(),
{
    if sessions.len() == 0 {
        None
    } else {
        match latest_session(sessions.drop_last()) {
            None => Some(sessions.last()),
            Some(best) => if later_session(sessions.last(), best) {
                Some(sessions.last())
            } else {
                Some(best)
            },
        }
    }
}

proof fn lemma_events_of_insert(
    events: Seq<EventRowView>,
    at: int,
    row: EventRowView,
    run_id: Seq<char>,
)
    requires
        0 <= at <= events.len(),
    ensures
        row.run_id != run_id ==> events_of(events.insert(at, row), run_id) == events_of(
            events,
            run_id,
        ),
        row.run_id == run_id ==> events_of(events.insert(at, row), run_id).contains(row)
            && events_of(events.insert(at, row), run_id).len() == events_of(events, run_id).len()
            + 1,
        forall|k: int|
            0 <= k < events_of(events, run_id).len() ==> events_of(
                events.insert(at, row),
                run_id,
            ).contains(#[trigger] events_of(events, run_id)[k]),
    decreases events.len(),
{
    let after = events.insert(at, row);
    let own = events_of(events, run_id);
    let new = events_of(after, run_id);
    if at == events.len() {
        assert(after.drop_last() =~= events);
        assert(after.last() == row);
        if row.run_id == run_id {
            assert(new == own.push(row));
            assert(new[own.len() as int] == row);
            assert forall|k: int| 0 <= k < own.len() implies new.contains(#[trigger] own[k]) by {
                assert(new[k] == own[k]);
            }
        } else {
            assert forall|k: int| 0 <= k < own.len() implies new.contains(#[trigger] own[k]) by {
                assert(new[k] == own[k]);
            }
        }
    } else {
        let rest = events.drop_last();
        lemma_events_of_insert(rest, at, row, run_id);
        assert(after.drop_last() =~= rest.insert(at, row));
        assert(after.last() == events.last());
        let inner = events_of(rest, run_id);
        let grown = events_of(rest.insert(at, row), run_id);
        if events.last().run_id == run_id {
            assert(own == inner.push(events.last()));
            assert(new == grown.push(events.last()));
            if row.run_id == run_id {
                let k = choose|k: int| 0 <= k < grown.len() && grown[k] == row;
                assert(new[k] == row);
            }
            assert forall|k: int| 0 <= k < own.len() implies new.contains(#[trigger] own[k]) by {
                if k < inner.len() {
                    assert(own[k] == inner[k]);
                    let m = choose|m: int| 0 <= m < grown.len() && grown[m] == inner[k];
                    assert(new[m] == own[k]);
                } else {
                    assert(new[grown.len() as int] == own[k]);
                }
            }
        }
    }
}

/// An event that was written is read back with its run, beside all that was there; other runs are
/// as they were.
pub proof fn law_written_events_are_read_back(
    events: Seq<EventRowView>,
    run_id: Seq<char>,
    record: StoredView,
    other: Seq<char>,
)
    requires
        events_in_order(events),
        appended(events, run_id, record) is Ok,
    ensures
        ({
            let after = appended(events, run_id, record)->Ok_0;
            let row = EventRowView { run_id, version: LEDGER_VERSION, record };
            &&& events_of(after, run_id).contains(row)
            &&& forall|k: int|
                0 <= k < events_of(events, run_id).len() ==> events_of(after, run_id).contains(
                    #[trigger] events_of(events, run_id)[k],
                )
            &&& other != run_id ==> events_of(after, other) == events_of(events, other)
        }),
{
    let at = event_place(events, run_id, record.seq);
    let row = EventRowView { run_id, version: LEDGER_VERSION, record };
    lemma_event_place_bounds(events, run_id, record.seq);
    if at < events.len() && events[at].record.seq == record.seq {
        assert(events[at] == row);
        lemma_events_of_contains(events, run_id, at);
        assert forall|k: int| 0 <= k < events_of(events, run_id).len() implies events_of(
            events,
            run_id,
        ).contains(#[trigger] events_of(events, run_id)[k]) by {}
    } else {
        lemma_events_of_insert(events, at, row, run_id);
        lemma_events_of_insert(events, at, row, other);
    }
}

proof fn lemma_events_of_contains(events: Seq<EventRowView>, run_id: Seq<char>, i: int)
    requires
        0 <= i < events.len(),
        events[i].run_id == run_id,
    ensures
        events_of(events, run_id).contains(events[i]),
    decreases events.len(),
{
    let own = events_of(events, run_id);
    if i == events.len() - 1 {
        assert(own[own.len() - 1] == events[i]);
    } else {
        let rest = events.drop_last();
        assert(rest[i] == events[i]);
        lemma_events_of_contains(rest, run_id, i);
        let inner = events_of(rest, run_id);
        let k = choose|k: int| 0 <= k < inner.len() && inner[k] == events[i];
        assert(own[k] == events[i]);
    }
}

/// Writing an event once more changes nothing, and is no conflict.
pub proof fn law_writing_again_changes_nothing(
    events: Seq<EventRowView>,
    run_id: Seq<char>,
    record: StoredView,
)
    requires
        events_in_order(events),
        appended(events, run_id, record) is Ok,
    ensures
        ({
            let after = appended(events, run_id, record)->Ok_0;
            appended(after, run_id, record) == Ok::<Seq<EventRowView>, ()>(after)
        }),
{
    let at = event_place(events, run_id, record.seq);
    let row = EventRowView { run_id, version: LEDGER_VERSION, record };
    lemma_event_place_bounds(events, run_id, record.seq);
    if !(at < events.len() && events[at].record.seq == record.seq) {
        let after = events.insert(at, row);
        assert forall|j: int| 0 <= j < at implies !((#[trigger] after[j]).run_id == run_id
            && after[j].record.seq >= record.seq) by {
            assert(after[j] == events[j]);
        }
        lemma_event_place(after, run_id, record.seq, at);
    }
}

proof fn lemma_runs_of_updated(
    runs: Seq<RunRowView>,
    session_id: Seq<char>,
    run_id: Seq<char>,
    status: RunStateName,
    final_answer: Option<Seq<char>>,
    error: Option<Seq<char>>,
    now: u64,
)
    ensures
        runs_of(updated_runs(runs, run_id, status, final_answer, error, now), session_id)
            == updated_runs(runs_of(runs, session_id), run_id, status, final_answer, error, now),
    decreases runs.len(),
{
    let after = updated_runs(runs, run_id, status, final_answer, error, now);
    let wanted = updated_runs(
        runs_of(runs, session_id),
        run_id,
        status,
        final_answer,
        error,
        now,
    );
    if runs.len() > 0 {
        let rest = runs.drop_last();
        lemma_runs_of_updated(rest, session_id, run_id, status, final_answer, error, now);
        assert(after.drop_last() =~= updated_runs(rest, run_id, status, final_answer, error, now));
        if runs.last().session_id == session_id {
            assert(wanted =~= updated_runs(
                runs_of(rest, session_id),
                run_id,
                status,
                final_answer,
                error,
                now,
            ).push(after.last()));
        }
    } else {
        assert(wanted =~= Seq::empty());
    }
}

/// A run that is begun and then finished is the last turn of its session, after all that were there;
/// the turns of other sessions are as they were.
pub proof fn law_finished_turns_are_read_back(
    view: LedgerView,
    begun_at: u64,
    finished_at: u64,
    session_id: Seq<char>,
    run_id: Seq<char>,
    question: Seq<char>,
    answer: Seq<char>,
    create_session: bool,
    other: Seq<char>,
)
    requires
        tables_ok(view),
        begin_error(view, begun_at, session_id, run_id, create_session) is None,
    ensures
        ({
            let finished = updated(
                begun(view, begun_at, session_id, run_id, question),
                run_id,
                RunStateName::Finished,
                Some(answer),
                None,
                finished_at,
            );
            &&& turns_of(runs_of(finished.runs, session_id)) == turns_of(
                runs_of(view.runs, session_id),
            ).push((question, answer))
            &&& other != session_id ==> turns_of(runs_of(finished.runs, other)) == turns_of(
                runs_of(view.runs, other),
            )
        }),
{
    let started = begun(view, begun_at, session_id, run_id, question);
    let status = RunStateName::Finished;
    let own = runs_of(view.runs, session_id);
    let others = runs_of(view.runs, other);
    let added = started.runs.last();
    assert(started.runs.drop_last() =~= view.runs);
    lemma_runs_of_updated(
        started.runs,
        session_id,
        run_id,
        status,
        Some(answer),
        None,
        finished_at,
    );
    lemma_runs_of_updated(started.runs, other, run_id, status, Some(answer), None, finished_at);
    lemma_runs_of(view.runs, session_id);
    lemma_runs_of(view.runs, other);
    let new_own = updated_runs(own.push(added), run_id, status, Some(answer), None, finished_at);
    assert(new_own.drop_last() =~= own) by {
        assert forall|k: int| 0 <= k < own.len() implies new_own[k] == own[k] by {
            assert(view.runs.contains(own[k]));
        }
    }
    if other != session_id {
        let new_others = updated_runs(others, run_id, status, Some(answer), None, finished_at);
        assert(new_others =~= others) by {
            assert forall|k: int| 0 <= k < others.len() implies new_others[k] == others[k] by {
                assert(view.runs.contains(others[k]));
            }
        }
    }
}

/// Whatever is done, a session that was begun here has one run under way at most, and no run lacks its
/// session.
pub proof fn law_one_run_at_a_time(
    view: LedgerView,
    now: u64,
    session_id: Seq<char>,
    run_id: Seq<char>,
    question: Seq<char>,
    create_session: bool,
    status: RunStateName,
    final_answer: Option<Seq<char>>,
    error: Option<Seq<char>>,
    reason: Seq<char>,
)
    requires
        tables_ok(view),
        sessions_sound(view),
        status != RunStateName::Running,
    ensures
        begin_error(view, now, session_id, run_id, create_session) is None ==> sessions_sound(
            begun(view, now, session_id, run_id, question),
        ),
        sessions_sound(updated(view, run_id, status, final_answer, error, now)),
        sessions_sound(interrupted(view, reason, now)),
{
    if begin_error(view, now, session_id, run_id, create_session) is None {
        lemma_begun_is_sound(view, now, session_id, run_id, question);
    }
    lemma_updated_is_sound(view, run_id, status, final_answer, error, now);
    lemma_interrupted_is_sound(view, reason, now);
}

/// After an interruption no session has a run under way, so every session can be gone on with.
pub proof fn law_interruption_frees_every_session(
    view: LedgerView,
    error: Seq<char>,
    now: u64,
    session_id: Seq<char>,
)
    requires
        tables_ok(view),
    ensures
        running_count(interrupted(view, error, now).runs) == 0,
        running_run(runs_of(interrupted(view, error, now).runs, session_id)) is None,
{
    let runs = interrupted(view, error, now).runs;
    lemma_interrupted_is_sound(view, error, now);
    lemma_none_running(runs);
    lemma_runs_of(runs, session_id);
    lemma_running_run(runs_of(runs, session_id));
    assert forall|k: int| 0 <= k < runs_of(runs, session_id).len() implies (
    #[trigger] runs_of(runs, session_id)[k]).status != RunStateName::Running by {
        assert(runs.contains(runs_of(runs, session_id)[k]));
    }
}

proof fn lemma_none_running(runs: Seq<RunRowView>)
    requires
        forall|i: int|
            0 <= i < runs.len() ==> (#[trigger] runs[i]).status != RunStateName::Running,
    ensures
        running_count(runs) == 0,
    decreases runs.len(),
{
    if runs.len() > 0 {
        let rest = runs.drop_last();
        assert forall|i: int| 0 <= i < rest.len() implies (#[trigger] rest[i]).status
            != RunStateName::Running by {
            assert(rest[i] == runs[i]);
        }
        lemma_none_running(rest);
        assert(runs[runs.len() - 1].status != RunStateName::Running);
    }
}

/// A line of a ledger file.
#[derive(Debug, PartialEq, Eq)]
pub struct LedgerLine {
    pub v: u32,
    pub record: StoredRecord,
}

/// The line that holds a record.
pub open spec fn line_json(record: JsonView) -> JsonView {
    JsonView::Object(
        json::no_members().push(
            ("v"@, JsonView::Number(text::decimal(LEDGER_VERSION as nat))),
        ).push(("record"@, record)),
    )
}

/// The line that holds an event with its number and its time.
pub open spec fn event_line(seq: u64, occurred_at_ms: u64, event: JsonView) -> JsonView {
    line_json(
        JsonView::Object(
            json::no_members().push(("seq"@, JsonView::Number(text::decimal(seq as nat)))).push(
                ("occurred_at_ms"@, JsonView::Number(text::decimal(occurred_at_ms as nat))),
            ).push(("event"@, event)),
        ),
    )
}

/// The line that holds a record, as it is written.
pub fn ledger_line(record: &RecordedEvent) -> (r: String)
    ensures
        r@ == json::json_text(
            event_line(
                record.seq,
                record.occurred_at_ms,
                harness::event_json(record.event@),
            ),
        ),
        json::printable(
            event_line(record.seq, record.occurred_at_ms, harness::event_json(record.event@)),
            json::depth_limit(),
        ) ==> text::is_plain(r@),
{
    ObjectBuilder::new().number("v", LEDGER_VERSION as u64).with(
        "record",
        record.to_json(),
    ).build().render()
}

/// The fields of a line.
pub open spec fn line_fields() -> Seq<Field> {
    seq![
        Field { name: "v", kind: FieldKind::Number32 },
        Field { name: "record", kind: FieldKind::Value },
    ]
}

/// The fields of a record.
pub open spec fn record_fields() -> Seq<Field> {
    seq![
        Field { name: "seq", kind: FieldKind::Number },
        Field { name: "occurred_at_ms", kind: FieldKind::Number },
        Field { name: "event", kind: FieldKind::Value },
    ]
}

/// The member that is a record.
pub open spec fn record_in(value: JsonView) -> JsonView {
    json::member_of(json::by_name(value, line_fields(), 2), "record"@)->Some_0
}

/// The member that is a record, with its members named.
pub open spec fn told_record(value: JsonView) -> JsonView {
    json::by_name(record_in(value), record_fields(), 3)
}

/// The event of a record.
pub open spec fn told_event(value: JsonView) -> JsonView {
    json::member_of(told_record(value), "event"@)->Some_0
}

/// What is wrong with a value that should be a line; nothing where it is one. Where in the line the fault
/// stands is not told.
pub open spec fn line_complaint(value: JsonView) -> Option<Seq<char>> {
    match json::complaint(value, "LedgerLine"@, line_fields(), 2) {
        Some(message) => Some(message),
        None => match json::complaint(record_in(value), "RecordedEvent"@, record_fields(), 3) {
            Some(message) => Some(message),
            None => harness::event_complaint(json::json_text(told_event(value))),
        },
    }
}

/// The record that stands in a line.
pub open spec fn line_record(value: JsonView) -> StoredView {
    let record = told_record(value);
    StoredView {
        seq: json::u64_in(json::member_of(record, "seq"@))->Some_0,
        occurred_at_ms: json::u64_in(json::member_of(record, "occurred_at_ms"@))->Some_0,
        event: json::json_text(told_event(value)),
    }
}

/// The names of the fields of a line.
pub open spec fn line_names() -> Seq<Seq<char>> {
    text::str_views(seq!["v", "record"])
}

/// The names of the fields of a record.
pub open spec fn record_names() -> Seq<Seq<char>> {
    text::str_views(seq!["seq", "occurred_at_ms", "event"])
}

/// The event of a line as it is written.
pub open spec fn written_event(line: Seq<char>) -> Option<Seq<char>> {
    match shape::field_text(line, "record"@, 1) {
        Some(record) => shape::field_text(record, "event"@, 2),
        None => None,
    }
}

fn read_event_text(line: &str) -> (r: Option<String>)
    ensures
        text::opt_view(r) == written_event(line@),
        forall|seq: u64, occurred_at_ms: u64, event: JsonView|
            json::printable(event_line(seq, occurred_at_ms, event), json::depth_limit())
                && json::json_text(#[trigger] event_line(seq, occurred_at_ms, event)) == line@
                ==> text::opt_view(r) == Some(json::json_text(event)),
{
    let record = shape::read_field_text(line, "record", 1);
    let r = match &record {
        Some(record) => shape::read_field_text(record.as_str(), "event", 2),
        None => None,
    };
    proof {
        assert forall|seq: u64, occurred_at_ms: u64, event: JsonView|
            json::printable(event_line(seq, occurred_at_ms, event), json::depth_limit())
                && json::json_text(#[trigger] event_line(seq, occurred_at_ms, event))
                == line@ implies text::opt_view(r) == Some(json::json_text(event)) by {
            let whole = event_line(seq, occurred_at_ms, event);
            lemma_line_members(seq, occurred_at_ms, event);
            json::lemma_printable_member(whole, "record"@, json::depth_limit());
            let part = json::member_of(whole, "record"@)->Some_0;
            assert(json::json_text(part) == record->Some_0@);
        }
    }
    r
}

proof fn lemma_line_members(seq: u64, occurred_at_ms: u64, event: JsonView)
    ensures
        json::member_of(event_line(seq, occurred_at_ms, event), "record"@) matches Some(record)
            && record is Object && json::member_of(record, "event"@) == Some(event),
{
    reveal_strlit("v");
    reveal_strlit("record");
    reveal_strlit("seq");
    reveal_strlit("occurred_at_ms");
    reveal_strlit("event");
    assert("seq"@.len() == 3 && "occurred_at_ms"@.len() == 14 && "event"@.len() == 5 && "v"@.len()
        == 1 && "record"@.len() == 6);
    let none = json::no_members();
    let a = ("seq"@, JsonView::Number(text::decimal(seq as nat)));
    let b = ("occurred_at_ms"@, JsonView::Number(text::decimal(occurred_at_ms as nat)));
    let c = ("event"@, event);
    json::lemma_first_member_push(none, a, "event"@);
    json::lemma_first_member_push(none.push(a), b, "event"@);
    json::lemma_first_member_push(none.push(a).push(b), c, "event"@);
    let record = JsonView::Object(none.push(a).push(b).push(c));
    let d = ("v"@, JsonView::Number(text::decimal(LEDGER_VERSION as nat)));
    json::lemma_first_member_push(none, d, "record"@);
    json::lemma_first_member_push(none.push(d), ("record"@, record), "record"@);
}

/// What is wrong with a line, given the value that it holds; nothing where it is one. No field may
/// stand in it twice.
pub open spec fn text_complaint(line: Seq<char>, value: JsonView) -> Option<Seq<char>> {
    match members::repeated_within(line, line_names(), "record"@, record_names()) {
        Some(name) => Some(members::repeated_words(name)),
        None => match (line_complaint(value), written_event(line)) {
            (Some(message), _) => Some(message),
            (None, Some(event)) => harness::event_complaint(event),
            (None, None) => None,
        },
    }
}

/// Why a line cannot be taken.
pub enum LineErrorView {
    Unreadable(Seq<char>),
    Version(u32),
}

/// The record that stands in a line of a ledger file, or why it cannot be taken.
pub open spec fn line_read(line: Seq<char>) -> Result<StoredView, LineErrorView> {
    match json::json_parsed(line) {
        Err(message) => Err(LineErrorView::Unreadable(message)),
        Ok(value) => match text_complaint(line, value) {
            Some(message) => Err(LineErrorView::Unreadable(message)),
            None => {
                let v = json::u64_in(
                    json::member_of(json::by_name(value, line_fields(), 2), "v"@),
                )->Some_0 as u32;
                if v != LEDGER_VERSION {
                    Err(LineErrorView::Version(v))
                } else {
                    Ok(line_record(value))
                }
            },
        },
    }
}

/// Whether an error says why a line cannot be taken.
pub open spec fn line_error_is(error: AppError, due: LineErrorView) -> bool {
    match due {
        LineErrorView::Unreadable(message) => error matches AppError::Json(given) && given@
            == message,
        LineErrorView::Version(v) => error matches AppError::LedgerVersion { expected, actual }
            && expected == LEDGER_VERSION && actual == v,
    }
}

/// Whether what was read of a line is the event that was written, but for the order of members; or
/// else what the kernel has against that event.
pub open spec fn reads_event(
    read: AppResult<StoredRecord>,
    seq: u64,
    occurred_at_ms: u64,
    event: JsonView,
) -> bool {
    exists|given: JsonView|
        {
            &&& json::same_value(event, given)
            &&& json::printable(given, json::depth_limit())
            &&& match harness::event_complaint(#[trigger] json::json_text(given)) {
                None => read matches Ok(record) && record@ == (StoredView {
                    seq,
                    occurred_at_ms,
                    event: json::json_text(given),
                }),
                Some(message) => read matches Err(AppError::Json(error)) && error@ == message,
            }
        }
}

/// Whether a value is the line of an event, but for the order of members.
pub open spec fn holds_event(
    read: JsonView,
    seq: u64,
    occurred_at_ms: u64,
    event: JsonView,
) -> bool {
    let record = json::member_of(read, "record"@);
    let given = json::member_of(record->Some_0, "event"@);
    &&& read is Object
    &&& json::complaint(read, "LedgerLine"@, line_fields(), 2) is None
    &&& json::u64_in(json::member_of(read, "v"@)) == Some(LEDGER_VERSION as u64)
    &&& record is Some
    &&& record->Some_0 is Object
    &&& json::complaint(record->Some_0, "RecordedEvent"@, record_fields(), 3) is None
    &&& json::u64_in(json::member_of(record->Some_0, "seq"@)) == Some(seq)
    &&& json::u64_in(json::member_of(record->Some_0, "occurred_at_ms"@)) == Some(occurred_at_ms)
    &&& given is Some
    &&& json::same_value(event, given->Some_0)
}

proof fn lemma_event_line(seq: u64, occurred_at_ms: u64, event: JsonView, read: JsonView)
    requires
        event != JsonView::Null,
        json::same_value(event_line(seq, occurred_at_ms, event), read),
    ensures
        holds_event(read, seq, occurred_at_ms, event),
{
    reveal_strlit("v");
    reveal_strlit("record");
    reveal_strlit("seq");
    reveal_strlit("occurred_at_ms");
    reveal_strlit("event");
    assert("seq"@.len() == 3 && "occurred_at_ms"@.len() == 14 && "event"@.len() == 5 && "v"@.len()
        == 1 && "record"@.len() == 6);
    json::lemma_decimal_is_read_back(LEDGER_VERSION as nat);
    json::lemma_decimal_is_read_back(seq as nat);
    json::lemma_decimal_is_read_back(occurred_at_ms as nat);
    let none = json::no_members();
    let a = ("seq"@, JsonView::Number(text::decimal(seq as nat)));
    let b = ("occurred_at_ms"@, JsonView::Number(text::decimal(occurred_at_ms as nat)));
    let c = ("event"@, event);
    let r1 = none.push(a);
    let r2 = r1.push(b);
    let r3 = r2.push(c);
    let record = JsonView::Object(r3);
    let names = seq!["seq"@, "occurred_at_ms"@, "event"@];
    assert forall|k: int| 0 <= k < 3 implies json::first_member(r3, #[trigger] names[k]) == Some(
        r3[k].1,
    ) by {
        json::lemma_first_member_push(none, a, names[k]);
        json::lemma_first_member_push(r1, b, names[k]);
        json::lemma_first_member_push(r2, c, names[k]);
    }
    assert(names[0] == "seq"@ && names[1] == "occurred_at_ms"@ && names[2] == "event"@);
    let inner = record_fields();
    assert(inner[0].name@ == "seq"@ && inner[1].name@ == "occurred_at_ms"@ && inner[2].name@
        == "event"@);
    assert forall|i: int| 0 <= i < r3.len() implies json::has_field(
        inner,
        (#[trigger] r3[i]).0,
    ) by {
        assert(inner[i].name@ == r3[i].0);
    }
    assert(json::conforms(record, inner));
    let d = ("v"@, JsonView::Number(text::decimal(LEDGER_VERSION as nat)));
    let e = ("record"@, record);
    let l1 = none.push(d);
    let l2 = l1.push(e);
    let line = event_line(seq, occurred_at_ms, event);
    assert(line == JsonView::Object(l2));
    json::lemma_first_member_push(none, d, "v"@);
    json::lemma_first_member_push(l1, e, "v"@);
    json::lemma_first_member_push(none, d, "record"@);
    json::lemma_first_member_push(l1, e, "record"@);
    let fields = line_fields();
    assert(fields[0].name@ == "v"@ && fields[1].name@ == "record"@);
    assert forall|i: int| 0 <= i < l2.len() implies json::has_field(
        fields,
        (#[trigger] l2[i]).0,
    ) by {
        assert(fields[i].name@ == l2[i].0);
    }
    assert(json::conforms(line, fields));
    json::lemma_same_fields(line, read, fields);
    json::lemma_complaint(read, "LedgerLine"@, fields, 2);
    json::lemma_same_members(line, read, "v"@);
    json::lemma_same_members(line, read, "record"@);
    let given = json::member_of(read, "record"@)->Some_0;
    assert(given is Object);
    json::lemma_same_fields(record, given, inner);
    json::lemma_complaint(given, "RecordedEvent"@, inner, 3);
    json::lemma_same_members(record, given, "seq"@);
    json::lemma_same_members(record, given, "occurred_at_ms"@);
    json::lemma_same_members(record, given, "event"@);
}

/// Reads a line of a ledger file. An event that was written is read back.
pub fn read_line(line: &str) -> (r: AppResult<StoredRecord>)
    ensures
        match line_read(line@) {
            Ok(record) => r matches Ok(given) && given@ == record,
            Err(due) => r matches Err(error) && line_error_is(error, due),
        },
        forall|seq: u64, occurred_at_ms: u64, event: JsonView|
            event != JsonView::Null && json::printable(
                event_line(seq, occurred_at_ms, event),
                json::depth_limit(),
            ) && json::json_text(#[trigger] event_line(seq, occurred_at_ms, event)) == line@
                ==> reads_event(r, seq, occurred_at_ms, event),
{
    let parsed = Json::parse(line);
    let ghost read = json::parse_view(parsed);
    let outer = vec!["v", "record"];
    let inner = vec!["seq", "occurred_at_ms", "event"];
    assert(text::str_views(outer@) =~= line_names());
    assert(text::str_views(inner@) =~= record_names());
    let repeated = members::repeated_members(line, &outer, "record", &inner);
    let ghost none_repeated = repeated is None;
    let written = read_event_text(line);
    let ghost told = text::opt_view(written);
    let r = read_parsed(line, parsed, repeated, written);
    proof {
        assert forall|seq: u64, occurred_at_ms: u64, event: JsonView|
            event != JsonView::Null && json::printable(
                event_line(seq, occurred_at_ms, event),
                json::depth_limit(),
            ) && json::json_text(#[trigger] event_line(seq, occurred_at_ms, event))
                == line@ implies reads_event(r, seq, occurred_at_ms, event) by {
            lemma_event_line(seq, occurred_at_ms, event, read->Ok_0);
            lemma_line_record(seq, occurred_at_ms, event);
            assert(none_repeated);
            let record = json::member_of(read->Ok_0, "record"@)->Some_0;
            let given = json::member_of(record, "event"@)->Some_0;
            assert(json::same_value(event, given));
            json::lemma_printable_member(read->Ok_0, "record"@, json::depth_limit());
            json::lemma_printable_member(record, "event"@, json::depth_limit());
            assert(line_complaint(read->Ok_0) == harness::event_complaint(json::json_text(given)));
            assert(told == Some(json::json_text(event)));
            lemma_line_members(seq, occurred_at_ms, event);
            let whole = event_line(seq, occurred_at_ms, event);
            json::lemma_printable_member(whole, "record"@, json::depth_limit());
            json::lemma_printable_member(
                json::member_of(whole, "record"@)->Some_0,
                "event"@,
                json::depth_limit(),
            );
            json::lemma_same_self(event, json::depth_limit());
        }
    }
    r
}

proof fn lemma_line_record(seq: u64, occurred_at_ms: u64, event: JsonView)
    ensures
        json::member_of(event_line(seq, occurred_at_ms, event), "record"@) matches Some(record)
            ==> record is Object,
{
    reveal_strlit("v");
    reveal_strlit("record");
    assert("v"@.len() != "record"@.len());
    let line = event_line(seq, occurred_at_ms, event);
    let none = json::no_members();
    let d = ("v"@, JsonView::Number(text::decimal(LEDGER_VERSION as nat)));
    let e = line->Object_0[1];
    json::lemma_first_member_push(none, d, "record"@);
    json::lemma_first_member_push(none.push(d), e, "record"@);
    assert(line->Object_0 =~= none.push(d).push(e));
}

fn read_parsed(
    line: &str,
    parsed: Result<Json, String>,
    repeated: Option<String>,
    written: Option<String>,
) -> (r: AppResult<StoredRecord>)
    requires
        text::opt_view(written) == written_event(line@),
        json::parse_view(parsed) == json::json_parsed(line@),
        text::opt_view(repeated) == members::repeated_within(
            line@,
            line_names(),
            "record"@,
            record_names(),
        ),
    ensures
        match line_read(line@) {
            Ok(record) => r matches Ok(given) && given@ == record,
            Err(due) => r matches Err(error) && line_error_is(error, due),
        },
{
    let value = match parsed {
        Ok(value) => value,
        Err(message) => {
            return Err(AppError::Json(message));
        },
    };
    if let Some(name) = repeated {
        return Err(AppError::Json(text::text3("duplicate field `", name.as_str(), "`")));
    }
    let fields = vec![
        Field { name: "v", kind: FieldKind::Number32 },
        Field { name: "record", kind: FieldKind::Value },
    ];
    assert(fields@ =~= line_fields());
    if let Err(message) = value.check_fields("LedgerLine", &fields, 2) {
        return Err(AppError::Json(message));
    }
    let value = value.by_name(&fields, 2);
    proof {
        assert(line_fields()[0].name@ == "v"@);
        assert(line_fields()[1].name@ == "record"@);
    }
    let v: u64 = match value.number_member("v") {
        Some(v) => v,
        None => 0,
    };
    let record = match value.get("record") {
        Some(record) => record.clone(),
        None => Json::Null,
    };
    let inner = vec![
        Field { name: "seq", kind: FieldKind::Number },
        Field { name: "occurred_at_ms", kind: FieldKind::Number },
        Field { name: "event", kind: FieldKind::Value },
    ];
    assert(inner@ =~= record_fields());
    if let Err(message) = record.check_fields("RecordedEvent", &inner, 3) {
        return Err(AppError::Json(message));
    }
    let record = record.by_name(&inner, 3);
    proof {
        assert(record_fields()[0].name@ == "seq"@);
        assert(record_fields()[1].name@ == "occurred_at_ms"@);
        assert(record_fields()[2].name@ == "event"@);
    }
    let event = match record.get("event") {
        Some(event) => event.clone(),
        None => Json::Null,
    };
    let event_json = event.render();
    if let Some(message) = harness::check_event(event_json.as_str()) {
        return Err(AppError::Json(message));
    }
    if let Some(written) = written {
        if let Some(message) = harness::check_event(written.as_str()) {
            return Err(AppError::Json(message));
        }
    }
    if v as u32 != LEDGER_VERSION {
        return Err(AppError::LedgerVersion { expected: LEDGER_VERSION, actual: v as u32 });
    }
    let seq: u64 = match record.number_member("seq") {
        Some(seq) => seq,
        None => 0,
    };
    let occurred_at_ms: u64 = match record.number_member("occurred_at_ms") {
        Some(at) => at,
        None => 0,
    };
    Ok(StoredRecord { seq, occurred_at_ms, event_json })
}

/// The records that stand in the lines of a ledger file, or why one of them cannot be taken. Blank
/// lines are passed over.
pub open spec fn lines_read(lines: Seq<Seq<char>>) -> Result<Seq<StoredView>, LineErrorView>
    decreases lines.len(),
{
    if lines.len() == 0 {
        Ok(Seq::empty())
    } else {
        match lines_read(lines.drop_last()) {
            Err(due) => Err(due),
            Ok(records) => if text::is_blank(lines.last()) {
                Ok(records)
            } else {
                match line_read(lines.last()) {
                    Ok(record) => Ok(records.push(record)),
                    Err(due) => Err(due),
                }
            },
        }
    }
}

proof fn lemma_lines_read_stops(lines: Seq<Seq<char>>, k: int)
    requires
        0 <= k <= lines.len(),
        lines_read(lines.take(k)) is Err,
    ensures
        lines_read(lines) == lines_read(lines.take(k)),
    decreases lines.len() - k,
{
    if k == lines.len() {
        assert(lines.take(k) =~= lines);
    } else {
        assert(lines.take(k + 1).drop_last() =~= lines.take(k));
        lemma_lines_read_stops(lines, k + 1);
    }
}

/// The texts of events, as they are written.
pub open spec fn event_texts(events: Seq<EventView>) -> Seq<Seq<char>> {
    Seq::new(events.len(), |i: int| json::json_text(harness::event_json(events[i])))
}

/// Whether lines are those that are written for events, from the first place on, at the given times.
pub open spec fn recorded_lines(
    lines: Seq<Seq<char>>,
    times: Seq<u64>,
    events: Seq<EventView>,
) -> bool {
    &&& lines.len() == events.len() == times.len()
    &&& events.len() <= u64::MAX
    &&& forall|i: int|
        0 <= i < lines.len() ==> #[trigger] lines[i] == json::json_text(
            event_line(i as u64, times[i], harness::event_json(events[i])),
        ) && json::printable(
            event_line(i as u64, times[i], harness::event_json(events[i])),
            json::depth_limit(),
        )
}

/// Whether a record holds an event, but for the order of members.
pub open spec fn record_holds(record: StoredView, event: EventView) -> bool {
    json::is_text_of(harness::event_json(event), record.event)
}

/// Whether records hold events, one by one.
pub open spec fn records_hold(records: Seq<StoredView>, events: Seq<EventView>) -> bool {
    records.len() == events.len() && forall|i: int|
        0 <= i < records.len() ==> record_holds(#[trigger] records[i], events[i])
}

/// Whether records hold events, one by one, at their places and times.
pub open spec fn records_are(records: Seq<StoredView>, times: Seq<u64>, events: Seq<EventView>) -> bool {
    &&& records_hold(records, events)
    &&& times.len() == records.len()
    &&& forall|i: int|
        0 <= i < records.len() ==> (#[trigger] records[i]).seq == i && records[i].occurred_at_ms
            == times[i]
}

/// Records that hold events hold, for the kernel, the texts of the events.
pub proof fn lemma_held_texts(records: Seq<StoredView>, events: Seq<EventView>)
    requires
        records_hold(records, events),
    ensures
        harness::same_texts(
            event_texts(events),
            Seq::new(records.len(), |i: int| records[i].event),
        ),
{
    let texts = event_texts(events);
    let held = Seq::new(records.len(), |i: int| records[i].event);
    assert forall|i: int| 0 <= i < texts.len() implies harness::same_text(
        #[trigger] texts[i],
        held[i],
    ) by {
        assert(record_holds(records[i], events[i]));
        assert(texts[i] == json::json_text(harness::event_json(events[i])));
    }
}

proof fn lemma_recorded_line(
    lines: Seq<Seq<char>>,
    times: Seq<u64>,
    events: Seq<EventView>,
    i: int,
    read: AppResult<StoredRecord>,
)
    requires
        recorded_lines(lines, times, events),
        harness::durable(event_texts(events)),
        0 <= i < lines.len(),
        reads_event(read, i as u64, times[i], harness::event_json(events[i])),
    ensures
        read matches Ok(record) && record@.seq == i && record@.occurred_at_ms == times[i]
            && record_holds(record@, events[i]),
{
    let event = harness::event_json(events[i]);
    let given = choose|given: JsonView|
        {
            &&& json::same_value(event, given)
            &&& json::printable(given, json::depth_limit())
            &&& match harness::event_complaint(#[trigger] json::json_text(given)) {
                None => read matches Ok(record) && record@ == (StoredView {
                    seq: i as u64,
                    occurred_at_ms: times[i],
                    event: json::json_text(given),
                }),
                Some(message) => read matches Err(AppError::Json(error)) && error@ == message,
            }
        };
    let texts = event_texts(events);
    let other = texts.update(i, json::json_text(given));
    assert forall|j: int| 0 <= j < texts.len() implies harness::same_text(
        #[trigger] texts[j],
        other[j],
    ) by {
        let own = harness::event_json(events[j]);
        assert(lines[j] == json::json_text(event_line(j as u64, times[j], own)));
        lemma_line_event(j as u64, times[j], own);
        assert(texts[j] == json::json_text(own));
        json::lemma_own_text(own);
        if j == i {
            assert(json::is_text_of(own, other[j]));
        }
    }
    assert(harness::same_texts(texts, other));
    assert(harness::event_complaint(other[i]) is None);
    assert(lines[i] == json::json_text(event_line(i as u64, times[i], event)));
    lemma_line_event(i as u64, times[i], event);
}

proof fn lemma_line_event(seq: u64, occurred_at_ms: u64, event: JsonView)
    requires
        json::printable(event_line(seq, occurred_at_ms, event), json::depth_limit()),
    ensures
        json::printable(event, json::depth_limit()),
{
    let line = event_line(seq, occurred_at_ms, event);
    let record = line->Object_0[1].1;
    assert(json::printable(record, (json::depth_limit() - 1) as nat));
    assert(record->Object_0[2].1 == event);
    assert(json::printable(record->Object_0[2].1, (json::depth_limit() - 2) as nat));
    json::lemma_printable_deeper(
        event,
        (json::depth_limit() - 2) as nat,
        json::depth_limit(),
    );
}

/// Reads the text of a ledger file. The events that a run recorded, a line each, are read back at
/// their places and times.
pub fn read_records(contents: &str) -> (r: AppResult<Vec<StoredRecord>>)
    ensures
        match lines_read(text::lines_of(contents@)) {
            Ok(records) => r matches Ok(given) && stored_views(given@) == records,
            Err(due) => r matches Err(error) && line_error_is(error, due),
        },
        forall|times: Seq<u64>, events: Seq<EventView>| #[trigger]
            recorded_lines(text::lines_of(contents@), times, events) && harness::durable(
                event_texts(events),
            ) ==> (r matches Ok(records) && records_are(stored_views(records@), times, events)),
{
    let lines = text::lines(contents);
    let ghost all = text::lines_of(contents@);
    let mut records: Vec<StoredRecord> = Vec::new();
    assert(all.take(0) =~= Seq::empty());
    assert(stored_views(records@) =~= Seq::empty());
    for i in 0..lines.len()
        invariant
            all == text::lines_of(contents@),
            text::views(lines@) == all,
            lines_read(all.take(i as int)) == Ok::<Seq<StoredView>, LineErrorView>(
                stored_views(records@),
            ),
            forall|times: Seq<u64>, events: Seq<EventView>| #[trigger]
                recorded_lines(all, times, events) && harness::durable(event_texts(events))
                    ==> records_are(
                    stored_views(records@),
                    times.take(i as int),
                    events.take(i as int),
                ),
    {
        proof {
            assert(all.take(i + 1).drop_last() =~= all.take(i as int));
            assert(all.take(i + 1).last() == all[i as int]);
            assert(all[i as int] == lines@[i as int]@);
        }
        let line = lines[i].as_str();
        let ghost before = stored_views(records@);
        if !text::blank(line) {
            let read = read_line(line);
            proof {
                assert forall|times: Seq<u64>, events: Seq<EventView>| #[trigger]
                    recorded_lines(all, times, events) && harness::durable(
                        event_texts(events),
                    ) implies read is Ok && records_are(
                    before.push(read->Ok_0@),
                    times.take(i + 1),
                    events.take(i + 1),
                ) by {
                    let event = harness::event_json(events[i as int]);
                    assert(all[i as int] == json::json_text(
                        event_line(i as u64, times[i as int], event),
                    ));
                    assert(event is Object);
                    lemma_recorded_line(all, times, events, i as int, read);
                    let after = before.push(read->Ok_0@);
                    assert(records_are(before, times.take(i as int), events.take(i as int)));
                    assert forall|j: int| 0 <= j < after.len() implies record_holds(
                        #[trigger] after[j],
                        events.take(i + 1)[j],
                    ) && after[j].seq == j && after[j].occurred_at_ms == times.take(i + 1)[j] by {
                        if j < i {
                            assert(after[j] == before[j]);
                            assert(events.take(i as int)[j] == events[j]);
                            assert(times.take(i as int)[j] == times[j]);
                        }
                    }
                }
            }
            match read {
                Ok(record) => {
                    let ghost added = record@;
                    records.push(record);
                    assert(stored_views(records@) =~= before.push(added));
                },
                Err(error) => {
                    proof {
                        lemma_lines_read_stops(all, i + 1);
                    }
                    return Err(error);
                },
            }
        } else {
            proof {
                assert forall|times: Seq<u64>, events: Seq<EventView>| #[trigger]
                    recorded_lines(all, times, events) implies false by {
                    let value = event_line(
                        i as u64,
                        times[i as int],
                        harness::event_json(events[i as int]),
                    );
                    assert(all[i as int] == json::json_text(value));
                    lemma_not_blank(value);
                }
            }
        }
    }
    assert(all.take(all.len() as int) =~= all);
    proof {
        assert forall|times: Seq<u64>, events: Seq<EventView>| #[trigger]
            recorded_lines(all, times, events) && harness::durable(
                event_texts(events),
            ) implies records_are(stored_views(records@), times, events) by {
            assert(times.take(all.len() as int) =~= times);
            assert(events.take(all.len() as int) =~= events);
        }
    }
    Ok(records)
}

proof fn lemma_not_blank(value: JsonView)
    requires
        value is Object,
    ensures
        !text::is_blank(json::json_text(value)),
{
    reveal_strlit("{");
    assert(json::json_text(value)[0] == '{');
    assert(!text::is_white('{'));
}

/// The records of a run, or of the latest run where none is named.
pub fn read_sqlite_records(tables: &SqliteLedger, run_id: Option<&str>) -> (r: AppResult<
    Vec<StoredRecord>,
>)
    ensures
        match run_id {
            Some(name) => reads_run(r, tables@.events, name@),
            None => match latest_event(tables@.events) {
                Some(row) => reads_run(r, tables@.events, row.run_id),
                None => r matches Err(AppError::NoSqliteRuns),
            },
        },
{
    match run_id {
        Some(run_id) => tables.read_run(run_id),
        None => match tables.read_latest_run() {
            Ok((_, records)) => Ok(records),
            Err(error) => Err(error),
        },
    }
}

/// The message of a number that a table should not hold.
pub open spec fn negative_message(index: nat, field: Seq<char>, value: int) -> Seq<char> {
    "Conversion error from type Integer at index: "@ + text::decimal(index) + ", ledger "@ + field
        + " is negative: "@ + text::decimal_int(value)
}

/// A number of a row, in the column at `index`; none is below zero.
pub fn row_u64(value: i64, index: usize, field: &str) -> (r: AppResult<u64>)
    ensures
        value >= 0 ==> r == Ok::<u64, AppError>(value as u64),
        value < 0 ==> (r matches Err(AppError::Sqlite(message)) && message@ == negative_message(
            index as nat,
            field@,
            value as int,
        )),
{
    if value >= 0 {
        return Ok(value as u64);
    }
    let mut message = text::text4(
        "Conversion error from type Integer at index: ",
        text::decimal_usize(index).as_str(),
        ", ledger ",
        field,
    );
    message.append(" is negative: ");
    message.append(text::decimal_i64(value).as_str());
    Err(AppError::Sqlite(message))
}

/// Whether no two rows are for the same event.
pub open spec fn events_differ(events: Seq<EventRowView>) -> bool {
    forall|i: int, j: int|
        0 <= i < j < events.len() && (#[trigger] events[i]).run_id == (
        #[trigger] events[j]).run_id ==> events[i].record.seq != events[j].record.seq
}

/// The rows with the events of every run in the order of their places.
pub open spec fn ordered_events(events: Seq<EventRowView>) -> Seq<EventRowView>
    decreases events.len(),
{
    if events.len() == 0 {
        Seq::empty()
    } else {
        let before = ordered_events(events.drop_last());
        let row = events.last();
        before.insert(event_place(before, row.run_id, row.record.seq), row)
    }
}

/// The place at which a run of a session joins the table: before the first run of the session that
/// has a later index, or else at the end.
pub open spec fn index_place(runs: Seq<RunRowView>, session_id: Seq<char>, index: u64) -> int
    decreases runs.len(),
{
    if runs.len() == 0 {
        0
    } else if runs[0].session_id == session_id && runs[0].session_index >= index {
        0
    } else {
        1 + index_place(runs.drop_first(), session_id, index)
    }
}

/// The rows with the runs of every session in the order of their indices.
pub open spec fn ordered_runs(runs: Seq<RunRowView>) -> Seq<RunRowView>
    decreases runs.len(),
{
    if runs.len() == 0 {
        Seq::empty()
    } else {
        let before = ordered_runs(runs.drop_last());
        let row = runs.last();
        before.insert(index_place(before, row.session_id, row.session_index), row)
    }
}

/// Whether no two runs of a session have the same index.
pub open spec fn indices_differ(runs: Seq<RunRowView>) -> bool {
    forall|i: int, j: int|
        0 <= i < j < runs.len() && (#[trigger] runs[i]).session_id == (
        #[trigger] runs[j]).session_id ==> runs[i].session_index != runs[j].session_index
}

/// Whether the keys of rows differ, and the indices of runs are ones that a table holds.
pub open spec fn keys_ok(view: LedgerView) -> bool {
    &&& events_differ(view.events)
    &&& sessions_differ(view.sessions)
    &&& runs_differ(view.runs)
    &&& indices_differ(view.runs)
    &&& indices_fit(view.runs)
}

/// The rows in the order that the tables keep.
pub open spec fn ordered(view: LedgerView) -> LedgerView {
    LedgerView {
        events: ordered_events(view.events),
        sessions: view.sessions,
        runs: ordered_runs(view.runs),
    }
}

proof fn lemma_events_placed(events: Seq<EventRowView>, at: int, row: EventRowView)
    requires
        events_in_order(events),
        at == event_place(events, row.run_id, row.record.seq),
        at < events.len() ==> events[at].record.seq != row.record.seq,
    ensures
        0 <= at <= events.len(),
        events_in_order(events.insert(at, row)),
{
    lemma_event_place_bounds(events, row.run_id, row.record.seq);
    let after = events.insert(at, row);
    assert forall|i: int, j: int|
        0 <= i < j < after.len() && (#[trigger] after[i]).run_id == (
        #[trigger] after[j]).run_id implies after[i].record.seq < after[j].record.seq by {
        let oi = if i < at {
            i
        } else {
            i - 1
        };
        let oj = if j < at {
            j
        } else {
            j - 1
        };
        if i != at && j != at {
            assert(after[i] == events[oi] && after[j] == events[oj]);
        } else if j == at {
            assert(after[i] == events[i]);
        } else {
            assert(after[j] == events[oj]);
            if oj > at {
                assert(events[at].record.seq < events[oj].record.seq);
            }
        }
    }
}

/// The rows in order are the rows that were given, and they are in order where their keys differ.
pub proof fn lemma_ordered_events(events: Seq<EventRowView>)
    ensures
        ordered_events(events).to_multiset() == events.to_multiset(),
        events_differ(events) ==> events_in_order(ordered_events(events)),
    decreases events.len(),
{
    broadcast use vstd::seq_lib::group_to_multiset_ensures;

    if events.len() > 0 {
        let rest = events.drop_last();
        let row = events.last();
        let before = ordered_events(rest);
        let at = event_place(before, row.run_id, row.record.seq);
        lemma_ordered_events(rest);
        lemma_event_place_bounds(before, row.run_id, row.record.seq);
        assert(rest.push(row) =~= events);
        if events_differ(events) {
            assert(events_differ(rest)) by {
                assert forall|i: int, j: int|
                    0 <= i < j < rest.len() && (#[trigger] rest[i]).run_id == (
                    #[trigger] rest[j]).run_id implies rest[i].record.seq != rest[j].record.seq by {
                    assert(rest[i] == events[i] && rest[j] == events[j]);
                }
            }
            if at < before.len() {
                assert(before.contains(before[at]));
                assert(rest.to_multiset().count(before[at]) > 0);
                assert(rest.contains(before[at]));
                let i = choose|i: int| 0 <= i < rest.len() && rest[i] == before[at];
                assert(events[i] == before[at] && events[events.len() - 1] == row);
            }
            lemma_events_placed(before, at, row);
        }
    } else {
        assert(ordered_events(events) =~= events);
    }
}

pub proof fn lemma_index_place(
    runs: Seq<RunRowView>,
    session_id: Seq<char>,
    index: u64,
    at: int,
)
    requires
        0 <= at <= runs.len(),
        forall|j: int|
            0 <= j < at ==> !((#[trigger] runs[j]).session_id == session_id
                && runs[j].session_index >= index),
        at < runs.len() ==> runs[at].session_id == session_id && runs[at].session_index >= index,
    ensures
        index_place(runs, session_id, index) == at,
    decreases at,
{
    if at > 0 {
        assert(!(runs[0].session_id == session_id && runs[0].session_index >= index));
        let rest = runs.drop_first();
        assert forall|j: int| 0 <= j < at - 1 implies !((#[trigger] rest[j]).session_id
            == session_id && rest[j].session_index >= index) by {
            assert(rest[j] == runs[j + 1]);
        }
        assert(at < runs.len() ==> rest[at - 1] == runs[at]);
        lemma_index_place(rest, session_id, index, at - 1);
    }
}

proof fn lemma_index_place_bounds(runs: Seq<RunRowView>, session_id: Seq<char>, index: u64)
    ensures
        ({
            let at = index_place(runs, session_id, index);
            &&& 0 <= at <= runs.len()
            &&& forall|j: int|
                0 <= j < at ==> !((#[trigger] runs[j]).session_id == session_id
                    && runs[j].session_index >= index)
            &&& at < runs.len() ==> runs[at].session_id == session_id && runs[at].session_index
                >= index
        }),
    decreases runs.len(),
{
    if runs.len() > 0 && !(runs[0].session_id == session_id && runs[0].session_index >= index) {
        let rest = runs.drop_first();
        lemma_index_place_bounds(rest, session_id, index);
        let at = index_place(rest, session_id, index);
        assert(index_place(runs, session_id, index) == at + 1);
        assert(at < rest.len() ==> rest[at] == runs[at + 1]);
        assert forall|j: int| 0 <= j < at + 1 implies !((#[trigger] runs[j]).session_id
            == session_id && runs[j].session_index >= index) by {
            if j > 0 {
                assert(rest[j - 1] == runs[j]);
            }
        }
    }
}

proof fn lemma_runs_placed(runs: Seq<RunRowView>, at: int, row: RunRowView)
    requires
        runs_in_order(runs),
        at == index_place(runs, row.session_id, row.session_index),
        at < runs.len() ==> runs[at].session_index != row.session_index,
    ensures
        0 <= at <= runs.len(),
        runs_in_order(runs.insert(at, row)),
{
    lemma_index_place_bounds(runs, row.session_id, row.session_index);
    let after = runs.insert(at, row);
    assert forall|i: int, j: int|
        0 <= i < j < after.len() && (#[trigger] after[i]).session_id == (
        #[trigger] after[j]).session_id implies after[i].session_index
        < after[j].session_index by {
        let oi = if i < at {
            i
        } else {
            i - 1
        };
        let oj = if j < at {
            j
        } else {
            j - 1
        };
        if i != at && j != at {
            assert(after[i] == runs[oi] && after[j] == runs[oj]);
        } else if j == at {
            assert(after[i] == runs[i]);
        } else {
            assert(after[j] == runs[oj]);
            if oj > at {
                assert(runs[at].session_index < runs[oj].session_index);
            }
        }
    }
}

proof fn lemma_ordered_run_rows(runs: Seq<RunRowView>)
    ensures
        ordered_runs(runs).to_multiset() == runs.to_multiset(),
    decreases runs.len(),
{
    broadcast use vstd::seq_lib::group_to_multiset_ensures;

    if runs.len() > 0 {
        let rest = runs.drop_last();
        let row = runs.last();
        lemma_ordered_run_rows(rest);
        lemma_index_place_bounds(ordered_runs(rest), row.session_id, row.session_index);
        assert(rest.push(row) =~= runs);
    } else {
        assert(ordered_runs(runs) =~= runs);
    }
}

proof fn lemma_keys_of_fewer(runs: Seq<RunRowView>)
    requires
        runs.len() > 0,
    ensures
        indices_differ(runs) ==> indices_differ(runs.drop_last()),
        runs_differ(runs) ==> runs_differ(runs.drop_last()),
        indices_fit(runs) ==> indices_fit(runs.drop_last()),
{
    let rest = runs.drop_last();
    assert(forall|i: int| 0 <= i < rest.len() ==> (#[trigger] rest[i]) == runs[i]);
}

proof fn lemma_other_run_placed(runs: Seq<RunRowView>, at: int, row: RunRowView)
    requires
        0 <= at <= runs.len(),
        runs_differ(runs),
        forall|k: int| 0 <= k < runs.len() ==> (#[trigger] runs[k]).run_id != row.run_id,
    ensures
        runs_differ(runs.insert(at, row)),
{
    let after = runs.insert(at, row);
    assert forall|i: int, j: int| 0 <= i < j < after.len() implies (#[trigger] after[i]).run_id != (
    #[trigger] after[j]).run_id by {
        let oi = if i < at {
            i
        } else {
            i - 1
        };
        let oj = if j < at {
            j
        } else {
            j - 1
        };
        if i != at {
            assert(after[i] == runs[oi]);
        }
        if j != at {
            assert(after[j] == runs[oj]);
        }
    }
}

proof fn lemma_fitting_run_placed(runs: Seq<RunRowView>, at: int, row: RunRowView)
    requires
        0 <= at <= runs.len(),
        indices_fit(runs),
        row.session_index <= MAX_SQLITE_INTEGER,
    ensures
        indices_fit(runs.insert(at, row)),
{
    let after = runs.insert(at, row);
    assert forall|i: int| 0 <= i < after.len() implies (#[trigger] after[i]).session_index
        <= MAX_SQLITE_INTEGER by {
        let oi = if i < at {
            i
        } else {
            i - 1
        };
        if i != at {
            assert(after[i] == runs[oi]);
        }
    }
}

/// The rows in order are the rows that were given, and they are in order where their keys differ.
pub proof fn lemma_ordered_runs(runs: Seq<RunRowView>)
    ensures
        ordered_runs(runs).to_multiset() == runs.to_multiset(),
        indices_differ(runs) ==> runs_in_order(ordered_runs(runs)),
        runs_differ(runs) ==> runs_differ(ordered_runs(runs)),
        indices_fit(runs) ==> indices_fit(ordered_runs(runs)),
    decreases runs.len(),
{
    lemma_ordered_run_rows(runs);
    if runs.len() > 0 {
        let rest = runs.drop_last();
        let row = runs.last();
        let before = ordered_runs(rest);
        let at = index_place(before, row.session_id, row.session_index);
        lemma_ordered_runs(rest);
        lemma_keys_of_fewer(runs);
        lemma_index_place_bounds(before, row.session_id, row.session_index);
        assert(runs[runs.len() - 1] == row);
        assert forall|k: int| 0 <= k < before.len() implies exists|i: int|
            0 <= i < runs.len() - 1 && runs[i] == (#[trigger] before[k]) by {
            assert(before.contains(before[k]));
            lemma_same_rows(before, rest, before[k]);
            let i = choose|i: int| 0 <= i < rest.len() && rest[i] == before[k];
            assert(runs[i] == before[k]);
        }
        if indices_differ(runs) {
            if at < before.len() {
                let i = choose|i: int| 0 <= i < runs.len() - 1 && runs[i] == before[at];
                assert(runs[i].session_index != row.session_index);
            }
            lemma_runs_placed(before, at, row);
        }
        if runs_differ(runs) {
            assert forall|k: int| 0 <= k < before.len() implies (#[trigger] before[k]).run_id
                != row.run_id by {
                let i = choose|i: int| 0 <= i < runs.len() - 1 && runs[i] == before[k];
                assert(runs[i].run_id != runs[runs.len() - 1].run_id);
            }
            lemma_other_run_placed(before, at, row);
        }
        if indices_fit(runs) {
            lemma_fitting_run_placed(before, at, row);
        }
    }
}

/// Tables that were written are loaded as they were: rows that are in order stay as they are.
pub proof fn law_ordered_rows_stay(view: LedgerView)
    requires
        tables_ok(view),
    ensures
        keys_ok(view),
        ordered(view) == view,
{
    lemma_ordered_events_stay(view.events);
    lemma_ordered_runs_stay(view.runs);
}

proof fn lemma_ordered_events_stay(events: Seq<EventRowView>)
    requires
        events_in_order(events),
    ensures
        ordered_events(events) == events,
    decreases events.len(),
{
    if events.len() > 0 {
        let rest = events.drop_last();
        let row = events.last();
        assert forall|i: int, j: int|
            0 <= i < j < rest.len() && (#[trigger] rest[i]).run_id == (
            #[trigger] rest[j]).run_id implies rest[i].record.seq < rest[j].record.seq by {
            assert(rest[i] == events[i] && rest[j] == events[j]);
        }
        lemma_ordered_events_stay(rest);
        assert forall|j: int| 0 <= j < rest.len() implies !((#[trigger] rest[j]).run_id
            == row.run_id && rest[j].record.seq >= row.record.seq) by {
            assert(rest[j] == events[j] && events[events.len() - 1] == row);
        }
        lemma_event_place(rest, row.run_id, row.record.seq, rest.len() as int);
        assert(rest.insert(rest.len() as int, row) =~= events);
    } else {
        assert(ordered_events(events) =~= events);
    }
}

proof fn lemma_ordered_runs_stay(runs: Seq<RunRowView>)
    requires
        runs_in_order(runs),
    ensures
        ordered_runs(runs) == runs,
    decreases runs.len(),
{
    if runs.len() > 0 {
        let rest = runs.drop_last();
        let row = runs.last();
        assert forall|i: int, j: int|
            0 <= i < j < rest.len() && (#[trigger] rest[i]).session_id == (
            #[trigger] rest[j]).session_id implies rest[i].session_index
            < rest[j].session_index by {
            assert(rest[i] == runs[i] && rest[j] == runs[j]);
        }
        lemma_ordered_runs_stay(rest);
        assert forall|j: int| 0 <= j < rest.len() implies !((#[trigger] rest[j]).session_id
            == row.session_id && rest[j].session_index >= row.session_index) by {
            assert(rest[j] == runs[j] && runs[runs.len() - 1] == row);
        }
        lemma_index_place(rest, row.session_id, row.session_index, rest.len() as int);
        assert(rest.insert(rest.len() as int, row) =~= runs);
    } else {
        assert(ordered_runs(runs) =~= runs);
    }
}

proof fn lemma_same_rows<A>(a: Seq<A>, b: Seq<A>, row: A)
    requires
        a.to_multiset() == b.to_multiset(),
        a.contains(row),
    ensures
        b.contains(row),
{
    broadcast use vstd::seq_lib::group_to_multiset_ensures;

    assert(b.to_multiset().count(row) > 0);
}

/// The rows with the events of every run in order; nothing where two are for the same event.
fn order_events(events: Vec<EventRow>) -> (r: Option<Vec<EventRow>>)
    ensures
        r is Some <==> events_differ(event_rows(events@)),
        r matches Some(rows) ==> event_rows(rows@) == ordered_events(event_rows(events@)),
{
    let ghost all = event_rows(events@);
    let mut rows: Vec<EventRow> = Vec::new();
    assert(event_rows(rows@) =~= ordered_events(all.take(0)));
    for k in 0..events.len()
        invariant
            all == event_rows(events@),
            event_rows(rows@) == ordered_events(all.take(k as int)),
            events_differ(all.take(k as int)),
    {
        let ghost before = event_rows(rows@);
        let ghost row = all[k as int];
        assert(row == events@[k as int]@);
        let seq: u64 = events[k].record.seq;
        let mut at: usize = 0;
        while at < rows.len() && !(rows[at].record.seq >= seq && text::same_text(
            rows[at].run_id.as_str(),
            events[k].run_id.as_str(),
        ))
            invariant
                0 <= at <= rows@.len(),
                k < events@.len(),
                seq == row.record.seq,
                row == events@[k as int]@,
                before == event_rows(rows@),
                forall|j: int|
                    0 <= j < at ==> !((#[trigger] before[j]).run_id == row.run_id
                        && before[j].record.seq >= row.record.seq),
            decreases rows@.len() - at,
        {
            assert(before[at as int] == rows@[at as int]@);
            at += 1;
        }
        proof {
            lemma_event_place(before, row.run_id, seq, at as int);
            lemma_ordered_events(all.take(k as int));
            assert(all.take(k + 1).drop_last() =~= all.take(k as int));
        }
        if at < rows.len() && rows[at].record.seq == seq {
            proof {
                assert(before.contains(before[at as int]));
                lemma_same_rows(before, all.take(k as int), before[at as int]);
                let i = choose|i: int|
                    0 <= i < all.take(k as int).len() && all.take(k as int)[i] == before[at as int];
                assert(all[i] == before[at as int]);
            }
            return None;
        }
        proof {
            assert forall|i: int, j: int|
                0 <= i < j < all.take(k + 1).len() && (#[trigger] all.take(k + 1)[i]).run_id == (
                #[trigger] all.take(k + 1)[j]).run_id implies all.take(k + 1)[i].record.seq
                != all.take(k + 1)[j].record.seq by {
                let taken = all.take(k as int);
                if j < k {
                    assert(taken[i] == all[i] && taken[j] == all[j]);
                } else if all[i].record.seq == seq {
                    assert(taken[i] == all[i]);
                    assert(taken.contains(all[i]));
                    lemma_same_rows(taken, before, all[i]);
                    let m = choose|m: int| 0 <= m < before.len() && before[m] == all[i];
                    assert(m >= at);
                    if m > at {
                        assert(before[at as int].record.seq < before[m].record.seq);
                    }
                }
            }
        }
        rows.insert(at, events[k].clone());
        assert(event_rows(rows@) =~= before.insert(at as int, row));
    }
    assert(all.take(all.len() as int) =~= all);
    Some(rows)
}

/// The rows with the runs of every session in order; nothing where two have the same index.
fn order_runs(runs: Vec<RunRow>) -> (r: Option<Vec<RunRow>>)
    ensures
        r is Some <==> indices_differ(run_rows(runs@)),
        r matches Some(rows) ==> run_rows(rows@) == ordered_runs(run_rows(runs@)),
{
    let ghost all = run_rows(runs@);
    let mut rows: Vec<RunRow> = Vec::new();
    assert(run_rows(rows@) =~= ordered_runs(all.take(0)));
    for k in 0..runs.len()
        invariant
            all == run_rows(runs@),
            run_rows(rows@) == ordered_runs(all.take(k as int)),
            indices_differ(all.take(k as int)),
    {
        let ghost before = run_rows(rows@);
        let ghost row = all[k as int];
        assert(row == runs@[k as int]@);
        let index: u64 = runs[k].session_index;
        let mut at: usize = 0;
        while at < rows.len() && !(rows[at].session_index >= index && text::same_text(
            rows[at].session_id.as_str(),
            runs[k].session_id.as_str(),
        ))
            invariant
                0 <= at <= rows@.len(),
                k < runs@.len(),
                index == row.session_index,
                row == runs@[k as int]@,
                before == run_rows(rows@),
                forall|j: int|
                    0 <= j < at ==> !((#[trigger] before[j]).session_id == row.session_id
                        && before[j].session_index >= row.session_index),
            decreases rows@.len() - at,
        {
            assert(before[at as int] == rows@[at as int]@);
            at += 1;
        }
        proof {
            lemma_index_place(before, row.session_id, index, at as int);
            lemma_ordered_runs(all.take(k as int));
            assert(all.take(k + 1).drop_last() =~= all.take(k as int));
        }
        if at < rows.len() && rows[at].session_index == index {
            proof {
                assert(before.contains(before[at as int]));
                lemma_same_rows(before, all.take(k as int), before[at as int]);
                let i = choose|i: int|
                    0 <= i < all.take(k as int).len() && all.take(k as int)[i] == before[at as int];
                assert(all[i] == before[at as int]);
            }
            return None;
        }
        proof {
            assert forall|i: int, j: int|
                0 <= i < j < all.take(k + 1).len() && (#[trigger] all.take(k + 1)[i]).session_id
                    == (#[trigger] all.take(k + 1)[j]).session_id implies all.take(
                k + 1,
            )[i].session_index != all.take(k + 1)[j].session_index by {
                let taken = all.take(k as int);
                if j < k {
                    assert(taken[i] == all[i] && taken[j] == all[j]);
                } else if all[i].session_index == index {
                    assert(taken[i] == all[i]);
                    assert(taken.contains(all[i]));
                    lemma_same_rows(taken, before, all[i]);
                    let m = choose|m: int| 0 <= m < before.len() && before[m] == all[i];
                    assert(m >= at);
                    if m > at {
                        assert(before[at as int].session_index < before[m].session_index);
                    }
                }
            }
        }
        rows.insert(at, runs[k].clone());
        assert(run_rows(rows@) =~= before.insert(at as int, row));
    }
    assert(all.take(all.len() as int) =~= all);
    Some(rows)
}

fn all_sessions_differ(sessions: &Vec<SessionRow>) -> (r: bool)
    ensures
        r == sessions_differ(session_rows(sessions@)),
{
    let ghost rows = session_rows(sessions@);
    for j in 0..sessions.len()
        invariant
            rows == session_rows(sessions@),
            forall|a: int, b: int|
                0 <= a < b < j ==> (#[trigger] rows[a]).session_id != (
                #[trigger] rows[b]).session_id,
    {
        assert(rows[j as int] == sessions@[j as int]@);
        for i in 0..j
            invariant
                rows == session_rows(sessions@),
                j < sessions@.len(),
                rows[j as int] == sessions@[j as int]@,
                forall|a: int|
                    0 <= a < i ==> (#[trigger] rows[a]).session_id != rows[j as int].session_id,
        {
            assert(rows[i as int] == sessions@[i as int]@);
            if text::same_text(sessions[i].session_id.as_str(), sessions[j].session_id.as_str()) {
                return false;
            }
        }
    }
    true
}

fn all_runs_differ(runs: &Vec<RunRow>) -> (r: bool)
    ensures
        r == (runs_differ(run_rows(runs@)) && indices_fit(run_rows(runs@))),
{
    let ghost rows = run_rows(runs@);
    for j in 0..runs.len()
        invariant
            rows == run_rows(runs@),
            forall|a: int, b: int|
                0 <= a < b < j ==> (#[trigger] rows[a]).run_id != (#[trigger] rows[b]).run_id,
            forall|a: int| 0 <= a < j ==> (#[trigger] rows[a]).session_index <= MAX_SQLITE_INTEGER,
    {
        assert(rows[j as int] == runs@[j as int]@);
        if runs[j].session_index > MAX_SQLITE_INTEGER {
            return false;
        }
        for i in 0..j
            invariant
                rows == run_rows(runs@),
                j < runs@.len(),
                rows[j as int] == runs@[j as int]@,
                forall|a: int| 0 <= a < i ==> (#[trigger] rows[a]).run_id != rows[j as int].run_id,
        {
            assert(rows[i as int] == runs@[i as int]@);
            if text::same_text(runs[i].run_id.as_str(), runs[j].run_id.as_str()) {
                return false;
            }
        }
    }
    true
}

impl SqliteLedger {
    /// The tables with the rows that a database holds, in whatever order they come: the events of each
    /// run are put in the order of their places, and the runs of each session in the order of their
    /// indices. Rows with the same key, which a database does not hold, are turned down.
    pub fn load(events: Vec<EventRow>, sessions: Vec<SessionRow>, runs: Vec<RunRow>) -> (r:
        AppResult<SqliteLedger>)
        ensures
            ({
                let rows = LedgerView {
                    events: event_rows(events@),
                    sessions: session_rows(sessions@),
                    runs: run_rows(runs@),
                };
                if keys_ok(rows) {
                    r matches Ok(tables) && tables@ == ordered(rows) && tables.wf()
                } else {
                    r matches Err(AppError::Sqlite(message)) && message@
                        == "ledger rows contradict one another"@
                }
            }),
    {
        let distinct = all_sessions_differ(&sessions) && all_runs_differ(&runs);
        proof {
            lemma_ordered_events(event_rows(events@));
            lemma_ordered_runs(run_rows(runs@));
        }
        if let (Some(events), Some(runs), true) = (order_events(events), order_runs(runs), distinct) {
            return Ok(SqliteLedger { events, sessions, runs });
        }
        Err(AppError::Sqlite("ledger rows contradict one another".to_owned()))
    }
}

/// Whether a session was used before another: at an earlier time, or at the same time under a name that
/// comes earlier.
pub open spec fn used_before(a: SessionRowView, b: SessionRowView) -> bool {
    a.updated_at_ms < b.updated_at_ms || (a.updated_at_ms == b.updated_at_ms && text::before(
        a.session_id,
        b.session_id,
    ))
}

proof fn lemma_used_before(a: SessionRowView, b: SessionRowView, c: SessionRowView)
    ensures
        !used_before(a, a),
        used_before(a, b) ==> !used_before(b, a),
        used_before(a, b) && used_before(b, c) ==> used_before(a, c),
        !used_before(a, b) && !used_before(b, c) ==> !used_before(a, c),
{
    text::law_texts_have_one_order(a.session_id, b.session_id, c.session_id);
    text::law_texts_have_one_order(c.session_id, b.session_id, a.session_id);
    text::law_texts_have_one_order(a.session_id, c.session_id, b.session_id);
    text::law_texts_have_one_order(b.session_id, a.session_id, c.session_id);
    text::law_texts_have_one_order(b.session_id, c.session_id, a.session_id);
    text::law_texts_have_one_order(c.session_id, a.session_id, b.session_id);
}

/// The session that is given as the latest is one of the sessions, and none was used after it: no other
/// has a greater time of last use, nor the same time and a later name. There is one wherever there are
/// sessions.
pub proof fn law_the_latest_session_was_used_last(sessions: Seq<SessionRowView>)
    ensures
        latest_session(sessions) is None <==> sessions.len() == 0,
        latest_session(sessions) matches Some(latest) ==> sessions.contains(latest) && forall|i: int|
            0 <= i < sessions.len() ==> (#[trigger] sessions[i]).updated_at_ms
                <= latest.updated_at_ms && !used_before(latest, sessions[i]),
    decreases sessions.len(),
{
    if sessions.len() > 0 {
        let rest = sessions.drop_last();
        law_the_latest_session_was_used_last(rest);
        let latest = latest_session(sessions)->Some_0;
        assert(sessions[sessions.len() - 1] == sessions.last());
        if let Some(best) = latest_session(rest) {
            let k = choose|k: int| 0 <= k < rest.len() && rest[k] == best;
            assert(sessions[k] == best);
            assert forall|i: int| 0 <= i < sessions.len() implies (
            #[trigger] sessions[i]).updated_at_ms <= latest.updated_at_ms && !used_before(
                latest,
                sessions[i],
            ) by {
                lemma_used_before(latest, best, sessions[i]);
                lemma_used_before(best, latest, sessions[i]);
                if i < rest.len() {
                    assert(rest[i] == sessions[i]);
                }
            }
        } else {
            lemma_used_before(latest, latest, latest);
        }
    }
}

proof fn lemma_ranked_with(sessions: Seq<SessionRowView>, row: SessionRowView)
    requires
        forall|i: int, j: int|
            0 <= i < j < sessions.len() ==> !used_before(
                #[trigger] sessions[i],
                #[trigger] sessions[j],
            ),
    ensures
        ({
            let after = ranked_with(sessions, row);
            &&& after.len() == sessions.len() + 1
            &&& after.to_multiset() == sessions.to_multiset().insert(row)
            &&& forall|i: int, j: int|
                0 <= i < j < after.len() ==> !used_before(#[trigger] after[i], #[trigger] after[j])
            &&& forall|i: int|
                0 <= i < after.len() ==> (#[trigger] after[i]) == row || sessions.contains(after[i])
        }),
    decreases sessions.len(),
{
    broadcast use vstd::seq_lib::group_to_multiset_ensures;

    let after = ranked_with(sessions, row);
    if sessions.len() == 0 {
        assert(sessions.push(row) =~= seq![row]);
        assert(sessions =~= Seq::empty());
    } else if later_session(row, sessions.last()) {
        let rest = sessions.drop_last();
        let last = sessions.last();
        assert forall|i: int, j: int| 0 <= i < j < rest.len() implies !used_before(
            #[trigger] rest[i],
            #[trigger] rest[j],
        ) by {
            assert(rest[i] == sessions[i] && rest[j] == sessions[j]);
        }
        lemma_ranked_with(rest, row);
        let inner = ranked_with(rest, row);
        assert(rest.push(last) =~= sessions);
        assert(after =~= inner.push(last));
        assert(after.to_multiset() =~= sessions.to_multiset().insert(row));
        assert forall|i: int| 0 <= i < after.len() implies (#[trigger] after[i]) == row
            || sessions.contains(after[i]) by {
            if i < inner.len() {
                assert(after[i] == inner[i]);
                if inner[i] != row {
                    let k = choose|k: int| 0 <= k < rest.len() && rest[k] == inner[i];
                    assert(sessions[k] == after[i]);
                }
            } else {
                assert(sessions[sessions.len() - 1] == after[i]);
            }
        }
        assert forall|i: int, j: int| 0 <= i < j < after.len() implies !used_before(
            #[trigger] after[i],
            #[trigger] after[j],
        ) by {
            if j == inner.len() {
                assert(after[i] == inner[i]);
                lemma_used_before(row, last, row);
                lemma_used_before(last, row, last);
                if inner[i] != row {
                    let k = choose|k: int| 0 <= k < rest.len() && rest[k] == inner[i];
                    assert(sessions[k] == after[i]);
                    assert(sessions[sessions.len() - 1] == last);
                }
            } else {
                assert(after[i] == inner[i] && after[j] == inner[j]);
            }
        }
    } else {
        assert(after =~= sessions.push(row));
        let last = sessions.last();
        assert(sessions[sessions.len() - 1] == last);
        assert forall|i: int, j: int| 0 <= i < j < after.len() implies !used_before(
            #[trigger] after[i],
            #[trigger] after[j],
        ) by {
            if j == sessions.len() {
                lemma_used_before(sessions[i], last, row);
                lemma_used_before(last, row, last);
                lemma_used_before(sessions[i], sessions[i], sessions[i]);
            }
        }
        assert forall|i: int| 0 <= i < after.len() implies (#[trigger] after[i]) == row
            || sessions.contains(after[i]) by {
            if i < sessions.len() {
                assert(sessions[i] == after[i]);
            }
        }
    }
}

/// The sessions are listed from the one that was used last to the one that was used first, each as often
/// as it is there: the time of last use never grows from one to the next.
pub proof fn law_sessions_are_listed_latest_first(sessions: Seq<SessionRowView>)
    ensures
        ranked(sessions).len() == sessions.len(),
        ranked(sessions).to_multiset() == sessions.to_multiset(),
        forall|i: int, j: int|
            0 <= i < j < sessions.len() ==> (#[trigger] ranked(sessions)[i]).updated_at_ms >= (
            #[trigger] ranked(sessions)[j]).updated_at_ms && !used_before(
                ranked(sessions)[i],
                ranked(sessions)[j],
            ),
        forall|i: int|
            0 <= i < sessions.len() ==> sessions.contains(#[trigger] ranked(sessions)[i]),
    decreases sessions.len(),
{
    broadcast use vstd::seq_lib::group_to_multiset_ensures;

    if sessions.len() > 0 {
        let rest = sessions.drop_last();
        law_sessions_are_listed_latest_first(rest);
        lemma_ranked_with(ranked(rest), sessions.last());
        assert(rest.push(sessions.last()) =~= sessions);
        let after = ranked(sessions);
        assert forall|i: int| 0 <= i < sessions.len() implies sessions.contains(
            #[trigger] after[i],
        ) by {
            if after[i] == sessions.last() {
                assert(sessions[sessions.len() - 1] == after[i]);
            } else {
                let k = choose|k: int| 0 <= k < ranked(rest).len() && ranked(rest)[k] == after[i];
                let m = choose|m: int| 0 <= m < rest.len() && rest[m] == ranked(rest)[k];
                assert(sessions[m] == after[i]);
            }
        }
    } else {
        assert(sessions =~= Seq::empty());
    }
}

/// The places of the listed sessions among the rows, in the order of the list.
proof fn lemma_latest_runs(rows: Seq<SessionRowView>, runs: Seq<RunRowView>) -> (places: Seq<int>)
    requires
        runs_in_order(runs),
    ensures
        places.len() == latest_runs(rows, runs).len(),
        forall|a: int, b: int| 0 <= a < b < places.len() ==> #[trigger] places[a] < #[trigger] places[b],
        forall|k: int|
            0 <= k < places.len() ==> 0 <= #[trigger] places[k] < rows.len()
                && rows[places[k]].session_id == latest_runs(rows, runs)[k].session_id
                && is_latest_run(runs, latest_runs(rows, runs)[k]),
        forall|m: int|
            0 <= m < rows.len() && runs_of(runs, (#[trigger] rows[m]).session_id).len() > 0
                ==> places.contains(m),
    decreases rows.len(),
{
    if rows.len() == 0 {
        Seq::empty()
    } else {
        let rest = rows.drop_last();
        let before = latest_runs(rest, runs);
        let list = latest_runs(rows, runs);
        let own = runs_of(runs, rows.last().session_id);
        let inner = lemma_latest_runs(rest, runs);
        lemma_runs_of(runs, rows.last().session_id);
        if own.len() > 0 {
            let places = inner.push(rows.len() - 1);
            assert(list =~= before.push(own[own.len() - 1]));
            assert forall|k: int| 0 <= k < places.len() implies 0 <= #[trigger] places[k]
                < rows.len() && rows[places[k]].session_id == list[k].session_id && is_latest_run(
                runs,
                list[k],
            ) by {
                if k < inner.len() {
                    assert(places[k] == inner[k] && list[k] == before[k]);
                    assert(rest[inner[k]] == rows[inner[k]]);
                } else {
                    assert(own[own.len() - 1].session_id == rows.last().session_id);
                    assert(runs.contains(own[own.len() - 1]));
                }
            }
            assert forall|m: int|
                0 <= m < rows.len() && runs_of(runs, (#[trigger] rows[m]).session_id).len()
                    > 0 implies places.contains(m) by {
                if m < rest.len() {
                    assert(rest[m] == rows[m]);
                    let k = choose|k: int| 0 <= k < inner.len() && inner[k] == m;
                    assert(places[k] == m);
                } else {
                    assert(places[inner.len() as int] == m);
                }
            }
            places
        } else {
            assert(list =~= before);
            assert forall|k: int| 0 <= k < inner.len() implies 0 <= #[trigger] inner[k]
                < rows.len() && rows[inner[k]].session_id == list[k].session_id && is_latest_run(
                runs,
                list[k],
            ) by {
                assert(rest[inner[k]] == rows[inner[k]]);
            }
            assert forall|m: int|
                0 <= m < rows.len() && runs_of(runs, (#[trigger] rows[m]).session_id).len()
                    > 0 implies inner.contains(m) by {
                if m < rest.len() {
                    assert(rest[m] == rows[m]);
                }
            }
            inner
        }
    }
}

/// Whether a run is the latest of its session: it is there, and no other of the session has a later
/// place.
pub open spec fn is_latest_run(runs: Seq<RunRowView>, run: RunRowView) -> bool {
    runs.contains(run) && forall|i: int|
        0 <= i < runs.len() && (#[trigger] runs[i]).session_id == run.session_id
            ==> runs[i].session_index <= run.session_index
}

/// The list of sessions shows of each session that has runs its latest run, and of no other.
pub proof fn law_the_list_shows_latest_runs(view: LedgerView, k: int, i: int)
    requires
        tables_ok(view),
    ensures
        ({
            let list = latest_runs(ranked(view.sessions), view.runs);
            &&& 0 <= k < list.len() ==> is_latest_run(view.runs, list[k]) && has_session(
                view.sessions,
                list[k].session_id,
            )
            &&& 0 <= i < view.runs.len() && has_session(view.sessions, view.runs[i].session_id)
                ==> exists|m: int|
                0 <= m < list.len() && (#[trigger] list[m]).session_id == view.runs[i].session_id
        }),
{
    let rows = ranked(view.sessions);
    let list = latest_runs(rows, view.runs);
    law_sessions_are_listed_latest_first(view.sessions);
    lemma_same_place_in_ranking(view.sessions);
    let places = lemma_latest_runs(rows, view.runs);
    if 0 <= k < list.len() {
        let p = places[k];
        assert(view.sessions.contains(rows[p]));
        let s = choose|s: int| 0 <= s < view.sessions.len() && view.sessions[s] == rows[p];
        assert(view.sessions[s].session_id == list[k].session_id);
    }
    if 0 <= i < view.runs.len() && has_session(view.sessions, view.runs[i].session_id) {
        let s = choose|s: int|
            0 <= s < view.sessions.len() && (#[trigger] view.sessions[s]).session_id
                == view.runs[i].session_id;
        assert(rows.contains(view.sessions[s]));
        let x = choose|x: int| 0 <= x < rows.len() && rows[x] == view.sessions[s];
        lemma_runs_of(view.runs, view.runs[i].session_id);
        assert(runs_of(view.runs, rows[x].session_id).len() > 0);
        let m = choose|m: int| 0 <= m < places.len() && places[m] == x;
        assert(list[m].session_id == view.runs[i].session_id);
    }
}

/// In the list of sessions none stands before one that was used later.
pub proof fn law_the_list_follows_use(view: LedgerView, a: int, b: int, s: int, t: int)
    requires
        tables_ok(view),
        0 <= a < b < latest_runs(ranked(view.sessions), view.runs).len(),
        0 <= s < view.sessions.len(),
        0 <= t < view.sessions.len(),
        view.sessions[s].session_id == latest_runs(ranked(view.sessions), view.runs)[a].session_id,
        view.sessions[t].session_id == latest_runs(ranked(view.sessions), view.runs)[b].session_id,
    ensures
        view.sessions[s].updated_at_ms >= view.sessions[t].updated_at_ms,
        s != t,
{
    let rows = ranked(view.sessions);
    law_sessions_are_listed_latest_first(view.sessions);
    lemma_same_place_in_ranking(view.sessions);
    let places = lemma_latest_runs(rows, view.runs);
    let p = places[a];
    let q = places[b];
    assert(p < q);
    assert(rows.contains(view.sessions[s]) && rows.contains(view.sessions[t]));
    let x = choose|x: int| 0 <= x < rows.len() && rows[x] == view.sessions[s];
    let y = choose|y: int| 0 <= y < rows.len() && rows[y] == view.sessions[t];
    lemma_same_session(rows, x, p);
    lemma_same_session(rows, y, q);
    assert(rows[p].session_id != rows[q].session_id);
}

proof fn lemma_same_session(rows: Seq<SessionRowView>, a: int, b: int)
    requires
        sessions_differ(rows),
        0 <= a < rows.len(),
        0 <= b < rows.len(),
        rows[a].session_id == rows[b].session_id,
    ensures
        a == b,
{
}

proof fn lemma_same_place_in_ranking(sessions: Seq<SessionRowView>)
    requires
        sessions_differ(sessions),
    ensures
        forall|s: int|
            0 <= s < sessions.len() ==> ranked(sessions).contains(#[trigger] sessions[s]),
        sessions_differ(ranked(sessions)),
    decreases sessions.len(),
{
    if sessions.len() > 0 {
        let rest = sessions.drop_last();
        let row = sessions.last();
        assert(sessions[sessions.len() - 1] == row);
        assert forall|i: int, j: int| 0 <= i < j < rest.len() implies (
        #[trigger] rest[i]).session_id != (#[trigger] rest[j]).session_id by {
            assert(rest[i] == sessions[i] && rest[j] == sessions[j]);
        }
        lemma_same_place_in_ranking(rest);
        law_sessions_are_listed_latest_first(rest);
        assert forall|k: int| 0 <= k < ranked(rest).len() implies (
        #[trigger] ranked(rest)[k]).session_id != row.session_id by {
            let m = choose|m: int| 0 <= m < rest.len() && rest[m] == ranked(rest)[k];
            assert(sessions[m] == rest[m]);
            assert(sessions[m].session_id != sessions[sessions.len() - 1].session_id);
        }
        lemma_inserted_in_ranking(ranked(rest), row);
        assert forall|s: int| 0 <= s < sessions.len() implies ranked(sessions).contains(
            #[trigger] sessions[s],
        ) by {
            if s < rest.len() {
                assert(rest[s] == sessions[s]);
                let k = choose|k: int| 0 <= k < ranked(rest).len() && ranked(rest)[k] == rest[s];
                assert(ranked(sessions).contains(ranked(rest)[k]));
            }
        }
    }
}

proof fn lemma_inserted_in_ranking(rows: Seq<SessionRowView>, row: SessionRowView)
    requires
        sessions_differ(rows),
        forall|k: int| 0 <= k < rows.len() ==> (#[trigger] rows[k]).session_id != row.session_id,
    ensures
        ranked_with(rows, row).contains(row),
        forall|k: int| 0 <= k < rows.len() ==> ranked_with(rows, row).contains(#[trigger] rows[k]),
        forall|k: int|
            0 <= k < ranked_with(rows, row).len() ==> (#[trigger] ranked_with(rows, row)[k]) == row
                || rows.contains(ranked_with(rows, row)[k]),
        sessions_differ(ranked_with(rows, row)),
    decreases rows.len(),
{
    let after = ranked_with(rows, row);
    if rows.len() == 0 {
        assert(after[0] == row);
    } else if later_session(row, rows.last()) {
        let rest = rows.drop_last();
        let last = rows.last();
        assert(rows[rows.len() - 1] == last);
        assert forall|i: int, j: int| 0 <= i < j < rest.len() implies (
        #[trigger] rest[i]).session_id != (#[trigger] rest[j]).session_id by {
            assert(rest[i] == rows[i] && rest[j] == rows[j]);
        }
        assert forall|k: int| 0 <= k < rest.len() implies (#[trigger] rest[k]).session_id
            != row.session_id by {
            assert(rest[k] == rows[k]);
        }
        lemma_inserted_in_ranking(rest, row);
        let inner = ranked_with(rest, row);
        let at = choose|at: int| 0 <= at < inner.len() && inner[at] == row;
        assert(after[at] == row);
        assert(after[inner.len() as int] == last);
        assert forall|k: int| 0 <= k < rows.len() implies after.contains(#[trigger] rows[k]) by {
            if k < rest.len() {
                assert(rest[k] == rows[k]);
                let m = choose|m: int| 0 <= m < inner.len() && inner[m] == rest[k];
                assert(after[m] == rows[k]);
            }
        }
        assert forall|k: int| 0 <= k < after.len() implies (#[trigger] after[k]) == row
            || rows.contains(after[k]) by {
            if k < inner.len() {
                assert(after[k] == inner[k]);
                if inner[k] != row {
                    let m = choose|m: int| 0 <= m < rest.len() && rest[m] == inner[k];
                    assert(rows[m] == after[k]);
                }
            }
        }
        assert forall|i: int, j: int| 0 <= i < j < after.len() implies (
        #[trigger] after[i]).session_id != (#[trigger] after[j]).session_id by {
            if j == inner.len() {
                assert(after[i] == inner[i]);
                if inner[i] != row {
                    let m = choose|m: int| 0 <= m < rest.len() && rest[m] == inner[i];
                    assert(rows[m] == rest[m]);
                    assert(rows[m].session_id != rows[rows.len() - 1].session_id);
                }
            } else {
                assert(after[i] == inner[i] && after[j] == inner[j]);
            }
        }
    } else {
        assert(after[rows.len() as int] == row);
        assert forall|k: int| 0 <= k < rows.len() implies after.contains(#[trigger] rows[k]) by {
            assert(after[k] == rows[k]);
        }
        assert forall|k: int| 0 <= k < after.len() implies (#[trigger] after[k]) == row
            || rows.contains(after[k]) by {
            if k < rows.len() {
                assert(rows[k] == after[k]);
            }
        }
        assert forall|i: int, j: int| 0 <= i < j < after.len() implies (
        #[trigger] after[i]).session_id != (#[trigger] after[j]).session_id by {
            if j < rows.len() {
                assert(after[i] == rows[i] && after[j] == rows[j]);
            } else {
                assert(after[i] == rows[i]);
            }
        }
    }
}

/// The latest event is one of the events, and none happened after it.
pub proof fn law_the_latest_event_happened_last(events: Seq<EventRowView>)
    ensures
        latest_event(events) is None <==> events.len() == 0,
        latest_event(events) matches Some(latest) ==> events.contains(latest) && forall|i: int|
            0 <= i < events.len() ==> (#[trigger] events[i]).record.occurred_at_ms
                <= latest.record.occurred_at_ms && (events[i].record.occurred_at_ms
                == latest.record.occurred_at_ms ==> !text::before(
                latest.run_id,
                events[i].run_id,
            )),
    decreases events.len(),
{
    if events.len() > 0 {
        let rest = events.drop_last();
        law_the_latest_event_happened_last(rest);
        let last = events.last();
        let latest = latest_event(events)->Some_0;
        assert(events[events.len() - 1] == last);
        text::law_texts_have_one_order(last.run_id, last.run_id, last.run_id);
        if let Some(best) = latest_event(rest) {
            let k = choose|k: int| 0 <= k < rest.len() && rest[k] == best;
            assert(events[k] == best);
            assert forall|i: int| 0 <= i < events.len() implies (
            #[trigger] events[i]).record.occurred_at_ms <= latest.record.occurred_at_ms && (
            events[i].record.occurred_at_ms == latest.record.occurred_at_ms ==> !text::before(
                latest.run_id,
                events[i].run_id,
            )) by {
                text::law_texts_have_one_order(best.run_id, last.run_id, events[i].run_id);
                text::law_texts_have_one_order(last.run_id, best.run_id, events[i].run_id);
                text::law_texts_have_one_order(best.run_id, events[i].run_id, last.run_id);
                text::law_texts_have_one_order(best.run_id, last.run_id, best.run_id);
                if i < rest.len() {
                    assert(rest[i] == events[i]);
                }
            }
        }
    }
}

/// The events of a run are its own, all of them, in the order of their places.
pub proof fn law_runs_have_their_own_events(events: Seq<EventRowView>, run_id: Seq<char>)
    requires
        events_in_order(events),
    ensures
        ({
            let own = events_of(events, run_id);
            &&& forall|k: int|
                0 <= k < own.len() ==> (#[trigger] own[k]).run_id == run_id && events.contains(
                    own[k],
                )
            &&& forall|i: int|
                0 <= i < events.len() && (#[trigger] events[i]).run_id == run_id ==> own.contains(
                    events[i],
                )
            &&& forall|a: int, b: int|
                0 <= a < b < own.len() ==> (#[trigger] own[a]).record.seq < (
                #[trigger] own[b]).record.seq
            &&& forall|k: int|
                0 <= k < records_of(own).len() ==> (#[trigger] records_of(own)[k]) == own[k].record
            &&& records_of(own).len() == own.len()
        }),
    decreases events.len(),
{
    if events.len() > 0 {
        let rest = events.drop_last();
        let inner = events_of(rest, run_id);
        let own = events_of(events, run_id);
        assert forall|i: int, j: int|
            0 <= i < j < rest.len() && (#[trigger] rest[i]).run_id == (
            #[trigger] rest[j]).run_id implies rest[i].record.seq < rest[j].record.seq by {
            assert(rest[i] == events[i] && rest[j] == events[j]);
        }
        law_runs_have_their_own_events(rest, run_id);
        assert forall|k: int| 0 <= k < own.len() implies (#[trigger] own[k]).run_id == run_id
            && events.contains(own[k]) by {
            if k < inner.len() {
                assert(own[k] == inner[k]);
                let m = choose|m: int| 0 <= m < rest.len() && rest[m] == inner[k];
                assert(events[m] == own[k]);
            } else {
                assert(events[events.len() - 1] == own[k]);
            }
        }
        assert forall|i: int|
            0 <= i < events.len() && (#[trigger] events[i]).run_id == run_id implies own.contains(
            events[i],
        ) by {
            lemma_events_of_contains(events, run_id, i);
        }
        assert forall|a: int, b: int| 0 <= a < b < own.len() implies (#[trigger] own[a]).record.seq
            < (#[trigger] own[b]).record.seq by {
            assert(own[a] == inner[a]);
            if b < inner.len() {
                assert(own[b] == inner[b]);
            } else {
                let m = choose|m: int| 0 <= m < rest.len() && rest[m] == inner[a];
                assert(events[m] == rest[m]);
                assert(events[events.len() - 1] == own[b]);
            }
        }
    }
}

/// An event is refused exactly where another stands at its place in the run; what is taken leaves the
/// other events as they were.
pub proof fn law_only_conflicts_are_refused(
    events: Seq<EventRowView>,
    run_id: Seq<char>,
    record: StoredView,
)
    requires
        events_in_order(events),
    ensures
        appended(events, run_id, record) is Err <==> exists|i: int|
            0 <= i < events.len() && (#[trigger] events[i]).run_id == run_id && events[i].record.seq
                == record.seq && (events[i].record != record || events[i].version
                != LEDGER_VERSION),
        appended(events, run_id, record) matches Ok(after) ==> events_in_order(after),
{
    let at = event_place(events, run_id, record.seq);
    let row = EventRowView { run_id, version: LEDGER_VERSION, record };
    lemma_event_place_bounds(events, run_id, record.seq);
    if at < events.len() && events[at].record.seq == record.seq {
        assert forall|i: int|
            0 <= i < events.len() && (#[trigger] events[i]).run_id == run_id && events[i].record.seq
                == record.seq implies i == at by {
            if i < at {
                assert(events[i].record.seq < events[at].record.seq);
            }
            if at < i {
                assert(events[at].record.seq < events[i].record.seq);
            }
        }
        assert(events[at].run_id == run_id);
    } else {
        assert forall|i: int|
            0 <= i < events.len() && (#[trigger] events[i]).run_id == run_id implies
            events[i].record.seq != record.seq by {
            if i < at {
            } else if at < i {
                assert(events[at].record.seq < events[i].record.seq);
            }
        }
        lemma_events_placed(events, at, row);
    }
}

/// A run can be begun exactly where its session is there or may be made, has no run under way, and no
/// run has its name (and the numbers fit in the tables). Where the session has a run under way, that run
/// is named.
pub proof fn law_runs_begin_in_idle_sessions(
    view: LedgerView,
    now: u64,
    session_id: Seq<char>,
    run_id: Seq<char>,
    create_session: bool,
)
    requires
        tables_ok(view),
        now <= MAX_SQLITE_INTEGER,
        forall|i: int|
            0 <= i < view.runs.len() ==> (#[trigger] view.runs[i]).session_index < MAX_SQLITE_INTEGER,
    ensures
        ({
            let idle = forall|i: int|
                0 <= i < view.runs.len() && (#[trigger] view.runs[i]).session_id == session_id
                    ==> view.runs[i].status != RunStateName::Running;
            let there = has_session(view.sessions, session_id) || create_session;
            let due = begin_error(view, now, session_id, run_id, create_session);
            &&& due is None <==> there && idle && forall|i: int|
                0 <= i < view.runs.len() ==> (#[trigger] view.runs[i]).run_id != run_id
            &&& !there <==> due == Some(BeginErrorView::SessionNotFound)
            &&& due matches Some(BeginErrorView::SessionActive { run_id: active }) ==> exists|i: int|
                0 <= i < view.runs.len() && (#[trigger] view.runs[i]).session_id == session_id
                    && view.runs[i].status == RunStateName::Running && view.runs[i].run_id == active
            &&& there && !idle ==> due is Some && due->Some_0 is SessionActive
        }),
{
    let own = runs_of(view.runs, session_id);
    lemma_runs_of(view.runs, session_id);
    lemma_running_run(own);
    if running_run(own) is Some {
        lemma_running_is_one(own);
        let k = choose|k: int|
            0 <= k < own.len() && (#[trigger] own[k]).status == RunStateName::Running
                && own[k].run_id == running_run(own)->Some_0;
        let i = choose|i: int| 0 <= i < view.runs.len() && view.runs[i] == own[k];
        assert(view.runs[i].session_id == session_id);
    } else {
        assert forall|i: int|
            0 <= i < view.runs.len() && (#[trigger] view.runs[i]).session_id == session_id implies
            view.runs[i].status != RunStateName::Running by {
            let k = choose|k: int| 0 <= k < own.len() && own[k] == view.runs[i];
            assert(own[k].status != RunStateName::Running);
        }
    }
    if own.len() > 0 {
        let last = own[own.len() - 1];
        let i = choose|i: int| 0 <= i < view.runs.len() && view.runs[i] == last;
        assert(view.runs[i].session_index < MAX_SQLITE_INTEGER);
    }
    if has_run(view.runs, run_id) {
        let i = choose|i: int|
            0 <= i < view.runs.len() && (#[trigger] view.runs[i]).run_id == run_id;
        assert(view.runs[i].run_id == run_id);
    }
}

proof fn lemma_running_is_one(runs: Seq<RunRowView>)
    requires
        running_run(runs) is Some,
    ensures
        exists|k: int|
            0 <= k < runs.len() && (#[trigger] runs[k]).status == RunStateName::Running
                && runs[k].run_id == running_run(runs)->Some_0,
    decreases runs.len(),
{
    if runs[0].status != RunStateName::Running {
        let rest = runs.drop_first();
        lemma_running_is_one(rest);
        let k = choose|k: int|
            0 <= k < rest.len() && (#[trigger] rest[k]).status == RunStateName::Running
                && rest[k].run_id == running_run(rest)->Some_0;
        assert(runs[k + 1] == rest[k]);
    } else {
        assert(runs[0].status == RunStateName::Running);
    }
}

/// A run that is begun is under way, in its session and under its name, with its question and no answer
/// yet, behind all earlier runs of the session; all that was there is as it was. The session is then one
/// that was used at that time.
pub proof fn law_begun_runs_are_under_way(
    view: LedgerView,
    now: u64,
    session_id: Seq<char>,
    run_id: Seq<char>,
    question: Seq<char>,
)
    requires
        tables_ok(view),
        next_index(runs_of(view.runs, session_id)) <= u64::MAX,
    ensures
        ({
            let after = begun(view, now, session_id, run_id, question);
            let run = after.runs.last();
            &&& after.events == view.events
            &&& after.runs.drop_last() == view.runs
            &&& run.session_id == session_id && run.run_id == run_id && run.question == question
            &&& run.status == RunStateName::Running && run.final_answer is None && run.error is None
            &&& run.created_at_ms == now && run.updated_at_ms == now
            &&& forall|i: int|
                0 <= i < view.runs.len() && (#[trigger] view.runs[i]).session_id == session_id
                    ==> view.runs[i].session_index < run.session_index
            &&& forall|i: int|
                0 <= i < after.sessions.len() && (#[trigger] after.sessions[i]).session_id
                    == session_id ==> after.sessions[i].updated_at_ms == now
            &&& has_session(after.sessions, session_id)
            &&& forall|i: int|
                0 <= i < view.sessions.len() ==> (#[trigger] after.sessions[i]).session_id
                    == view.sessions[i].session_id && after.sessions[i].created_at_ms
                    == view.sessions[i].created_at_ms && (view.sessions[i].session_id != session_id
                    ==> after.sessions[i] == view.sessions[i])
            &&& after.sessions.len() == view.sessions.len() + if has_session(
                view.sessions,
                session_id,
            ) {
                0nat
            } else {
                1nat
            }
        }),
{
    lemma_runs_of(view.runs, session_id);
    lemma_begun_has_session(view, now, session_id, run_id, question);
    let after = begun(view, now, session_id, run_id, question);
    assert(after.runs.drop_last() =~= view.runs);
}

/// The session in which a run was begun after all others were used is the latest session, and so is the
/// one whose run was closed after that.
pub proof fn law_the_session_used_last_is_continued(
    view: LedgerView,
    now: u64,
    session_id: Seq<char>,
    run_id: Seq<char>,
    question: Seq<char>,
    status: RunStateName,
    final_answer: Option<Seq<char>>,
    error: Option<Seq<char>>,
)
    requires
        tables_ok(view),
        forall|i: int|
            0 <= i < view.sessions.len() ==> (#[trigger] view.sessions[i]).updated_at_ms < now,
    ensures
        latest_session(begun(view, now, session_id, run_id, question).sessions) matches Some(row)
            && row.session_id == session_id,
        has_run(view.runs, run_id) && has_session(view.sessions, session_of(view.runs, run_id))
            ==> (latest_session(
            updated(view, run_id, status, final_answer, error, now).sessions,
        ) matches Some(row) && row.session_id == session_of(view.runs, run_id)),
{
    let after = begun(view, now, session_id, run_id, question).sessions;
    lemma_begun_has_session(view, now, session_id, run_id, question);
    law_the_latest_session_was_used_last(after);
    let k = choose|k: int| 0 <= k < after.len() && (#[trigger] after[k]).session_id == session_id;
    assert(after[k].updated_at_ms == now);
    let latest = latest_session(after)->Some_0;
    let m = choose|m: int| 0 <= m < after.len() && after[m] == latest;
    assert(after[m].updated_at_ms == now);
    if m < view.sessions.len() {
        assert(view.sessions[m].updated_at_ms < now);
    }
    let owner = session_of(view.runs, run_id);
    if has_run(view.runs, run_id) && has_session(view.sessions, owner) {
        let closed = updated(view, run_id, status, final_answer, error, now).sessions;
        law_the_latest_session_was_used_last(closed);
        let k = choose|k: int|
            0 <= k < view.sessions.len() && (#[trigger] view.sessions[k]).session_id == owner;
        assert(closed[k].updated_at_ms == now);
        let m = choose|m: int| 0 <= m < closed.len() && closed[m] == latest_session(closed)->Some_0;
        assert(closed[m].updated_at_ms == now);
        assert(view.sessions[m].updated_at_ms < now);
    }
}

/// Closing a run changes that run and no other: it gets its status, its answer and its error, and keeps
/// its question and its place.
pub proof fn law_closing_changes_one_run(
    view: LedgerView,
    run_id: Seq<char>,
    status: RunStateName,
    final_answer: Option<Seq<char>>,
    error: Option<Seq<char>>,
    now: u64,
)
    ensures
        ({
            let after = updated(view, run_id, status, final_answer, error, now);
            &&& after.events == view.events
            &&& after.runs.len() == view.runs.len()
            &&& after.sessions.len() == view.sessions.len()
            &&& forall|i: int|
                0 <= i < view.runs.len() ==> {
                    let run = #[trigger] after.runs[i];
                    &&& view.runs[i].run_id != run_id ==> run == view.runs[i]
                    &&& view.runs[i].run_id == run_id ==> run.status == status && run.final_answer
                        == final_answer && run.error == error && run.updated_at_ms == now
                        && run.run_id == run_id && run.session_id == view.runs[i].session_id
                        && run.session_index == view.runs[i].session_index && run.question
                        == view.runs[i].question && run.created_at_ms == view.runs[i].created_at_ms
                }
        }),
        runs_differ(view.runs) ==> forall|i: int|
            0 <= i < view.runs.len() && (#[trigger] view.runs[i]).run_id == run_id ==> session_of(
                view.runs,
                run_id,
            ) == view.runs[i].session_id,
{
    if runs_differ(view.runs) {
        assert forall|i: int|
            0 <= i < view.runs.len() && (#[trigger] view.runs[i]).run_id == run_id implies session_of(
            view.runs,
            run_id,
        ) == view.runs[i].session_id by {
            lemma_session_of(view.runs, run_id, i);
        }
    }
}

proof fn lemma_session_of(runs: Seq<RunRowView>, run_id: Seq<char>, i: int)
    requires
        runs_differ(runs),
        0 <= i < runs.len(),
        runs[i].run_id == run_id,
    ensures
        session_of(runs, run_id) == runs[i].session_id,
    decreases runs.len(),
{
    if i > 0 {
        assert(runs[0].run_id != runs[i].run_id);
        let rest = runs.drop_first();
        assert forall|a: int, b: int| 0 <= a < b < rest.len() implies (#[trigger] rest[a]).run_id
            != (#[trigger] rest[b]).run_id by {
            assert(runs[a + 1].run_id != runs[b + 1].run_id);
        }
        assert(rest[i - 1] == runs[i]);
        lemma_session_of(rest, run_id, i - 1);
    }
}

/// An interruption marks the runs that were under way, with the reason, and leaves all others as they
/// were; it finishes none.
pub proof fn law_interruption_marks_running_runs(view: LedgerView, error: Seq<char>, now: u64)
    ensures
        ({
            let after = interrupted(view, error, now);
            &&& after.events == view.events
            &&& after.runs.len() == view.runs.len()
            &&& forall|i: int|
                0 <= i < view.runs.len() ==> {
                    let run = #[trigger] after.runs[i];
                    &&& view.runs[i].status != RunStateName::Running ==> run == view.runs[i]
                    &&& view.runs[i].status == RunStateName::Running ==> run.status
                        == RunStateName::Interrupted && run.error == Some(error)
                        && run.updated_at_ms == now && run.run_id == view.runs[i].run_id
                        && run.session_id == view.runs[i].session_id && run.question
                        == view.runs[i].question && run.final_answer == view.runs[i].final_answer
                }
        }),
{
}

/// The turns of a session are its finished runs that have an answer, in their order: a run that did not
/// finish, or that has no answer, is no turn.
pub proof fn law_turns_are_finished_runs(runs: Seq<RunRowView>, run: RunRowView)
    ensures
        turns_of(Seq::empty()) == Seq::<(Seq<char>, Seq<char>)>::empty(),
        run.status == RunStateName::Finished && run.final_answer is Some ==> turns_of(runs.push(run))
            == turns_of(runs).push((run.question, run.final_answer->Some_0)),
        run.status != RunStateName::Finished || run.final_answer is None ==> turns_of(runs.push(run))
            == turns_of(runs),
{
    assert(runs.push(run).drop_last() =~= runs);
}

/// Rows can be read exactly where each is of the first version and holds an event of the kernel; where
/// one cannot, what is wrong is said of the first that cannot.
pub proof fn law_the_first_unreadable_row_is_told(rows: Seq<EventRowView>)
    ensures
        readable(rows) <==> forall|i: int|
            0 <= i < rows.len() ==> (#[trigger] rows[i]).version == 1 && harness::event_complaint(
                rows[i].record.event,
            ) is None,
        rows_error(rows) matches Some(message) ==> exists|i: int|
            0 <= i < rows.len() && row_error(#[trigger] rows[i]) == Some(message) && (
            rows[i].version != 1 || harness::event_complaint(rows[i].record.event) is Some)
                && readable(rows.take(i)),
    decreases rows.len(),
{
    if rows.len() > 0 {
        let rest = rows.drop_last();
        law_the_first_unreadable_row_is_told(rest);
        assert(rows[rows.len() - 1] == rows.last());
        if readable(rest) {
            assert(rows.take(rows.len() - 1) =~= rest);
            assert forall|i: int| 0 <= i < rest.len() implies (#[trigger] rows[i]).version == 1
                && harness::event_complaint(rows[i].record.event) is None by {
                assert(rest[i] == rows[i]);
            }
        } else {
            let message = rows_error(rest)->Some_0;
            let i = choose|i: int|
                0 <= i < rest.len() && row_error(#[trigger] rest[i]) == Some(message) && (
                rest[i].version != 1 || harness::event_complaint(rest[i].record.event) is Some)
                    && readable(rest.take(i));
            assert(rows[i] == rest[i]);
            assert(rows.take(i) =~= rest.take(i));
        }
    }
}

/// The lines of a ledger file are read one by one, in their order: a blank one adds nothing, any other
/// adds its record, and the first that cannot be taken ends the reading.
pub proof fn law_ledger_files_are_read_line_by_line(lines: Seq<Seq<char>>, line: Seq<char>)
    ensures
        lines_read(Seq::empty()) == Ok::<Seq<StoredView>, LineErrorView>(Seq::empty()),
        lines_read(lines) matches Ok(records) ==> {
            &&& text::is_blank(line) ==> lines_read(lines.push(line)) == Ok::<
                Seq<StoredView>,
                LineErrorView,
            >(records)
            &&& !text::is_blank(line) ==> match line_read(line) {
                Ok(record) => lines_read(lines.push(line)) == Ok::<Seq<StoredView>, LineErrorView>(
                    records.push(record),
                ),
                Err(due) => lines_read(lines.push(line)) == Err::<Seq<StoredView>, LineErrorView>(
                    due,
                ),
            }
        },
        lines_read(lines) is Err ==> lines_read(lines.push(line)) == lines_read(lines),
{
    assert(lines.push(line).drop_last() =~= lines);
}

/// An interruption counts as a use of the sessions whose runs were under way, and of no other.
pub proof fn law_interruption_touches_running_sessions(
    view: LedgerView,
    error: Seq<char>,
    now: u64,
    i: int,
)
    requires
        0 <= i < view.sessions.len(),
    ensures
        ({
            let after = interrupted(view, error, now).sessions;
            let running = exists|k: int|
                0 <= k < view.runs.len() && (#[trigger] view.runs[k]).session_id
                    == view.sessions[i].session_id && view.runs[k].status == RunStateName::Running;
            &&& after.len() == view.sessions.len()
            &&& after[i].session_id == view.sessions[i].session_id && after[i].created_at_ms
                == view.sessions[i].created_at_ms
            &&& running ==> after[i].updated_at_ms == now
            &&& !running ==> after[i] == view.sessions[i]
        }),
{
}

/// The runs of a session are numbered from zero on, one after the other.
pub proof fn law_runs_are_numbered_in_order(
    view: LedgerView,
    now: u64,
    session_id: Seq<char>,
    run_id: Seq<char>,
    question: Seq<char>,
)
    requires
        tables_ok(view),
    ensures
        ({
            let run = begun(view, now, session_id, run_id, question).runs.last();
            let own = runs_of(view.runs, session_id);
            &&& own.len() == 0 ==> run.session_index == 0
            &&& own.len() > 0 ==> run.session_index == own[own.len() - 1].session_index + 1
        }),
{
    let own = runs_of(view.runs, session_id);
    lemma_runs_of(view.runs, session_id);
    if own.len() > 0 {
        let last = own[own.len() - 1];
        let i = choose|i: int| 0 <= i < view.runs.len() && view.runs[i] == last;
        assert(view.runs[i].session_index <= MAX_SQLITE_INTEGER);
    }
}

/// The runs of a session are its own, all of them, in the order of their numbers.
pub proof fn law_sessions_have_their_own_runs(runs: Seq<RunRowView>, session_id: Seq<char>, i: int)
    requires
        runs_in_order(runs),
    ensures
        ({
            let own = runs_of(runs, session_id);
            &&& 0 <= i < own.len() ==> own[i].session_id == session_id && runs.contains(own[i])
            &&& 0 <= i < runs.len() && runs[i].session_id == session_id ==> own.contains(runs[i])
            &&& forall|a: int, b: int|
                0 <= a < b < own.len() ==> (#[trigger] own[a]).session_index < (
                #[trigger] own[b]).session_index
        }),
    decreases runs.len(),
{
    if runs.len() > 0 {
        let rest = runs.drop_last();
        let inner = runs_of(rest, session_id);
        let own = runs_of(runs, session_id);
        assert forall|a: int, b: int|
            0 <= a < b < rest.len() && (#[trigger] rest[a]).session_id == (
            #[trigger] rest[b]).session_id implies rest[a].session_index
            < rest[b].session_index by {
            assert(rest[a] == runs[a] && rest[b] == runs[b]);
        }
        law_sessions_have_their_own_runs(rest, session_id, i);
        assert(runs[runs.len() - 1] == runs.last());
        if 0 <= i < inner.len() {
            assert(own[i] == inner[i]);
            let m = choose|m: int| 0 <= m < rest.len() && rest[m] == inner[i];
            assert(runs[m] == own[i]);
        }
        if 0 <= i < rest.len() && runs[i].session_id == session_id {
            assert(rest[i] == runs[i]);
            let m = choose|m: int| 0 <= m < inner.len() && inner[m] == rest[i];
            assert(own[m] == runs[i]);
        }
        if i == rest.len() && runs[i].session_id == session_id {
            assert(own[inner.len() as int] == runs[i]);
        }
        assert forall|a: int, b: int| 0 <= a < b < own.len() implies (
        #[trigger] own[a]).session_index < (#[trigger] own[b]).session_index by {
            assert(own[a] == inner[a]);
            if b < inner.len() {
                assert(own[b] == inner[b]);
            } else {
                law_sessions_have_their_own_runs(rest, session_id, a);
                let m = choose|m: int| 0 <= m < rest.len() && rest[m] == inner[a];
                assert(runs[m] == rest[m]);
                assert(runs[m].session_id == runs[runs.len() - 1].session_id);
            }
        }
    }
}

/// What is listed of a run is its session, its name, how it stands and what was asked.
pub proof fn law_listed_runs_tell_their_question(runs: Seq<RunRowView>, i: int)
    requires
        0 <= i < runs.len(),
    ensures
        listed_rows(runs).len() == runs.len(),
        listed_rows(runs)[i].0 == runs[i].session_id,
        listed_rows(runs)[i].1 == runs[i].run_id,
        listed_rows(runs)[i].2 == runs[i].status,
        listed_rows(runs)[i].3 == runs[i].question,
{
}

/// A line of a ledger file tells its version, and then the record: its place, its time and its event.
pub proof fn law_ledger_lines_are_written_by_name(seq: u64, at: u64, event: JsonView)
    ensures
        event_line(seq, at, event) matches JsonView::Object(m) && m.len() == 2 && m[0] == (
            "v"@,
            JsonView::Number(text::decimal(1)),
        ) && m[1].0 == "record"@ && (m[1].1 matches JsonView::Object(r) && r.len() == 3 && r[0] == (
            "seq"@,
            JsonView::Number(text::decimal(seq as nat)),
        ) && r[1] == ("occurred_at_ms"@, JsonView::Number(text::decimal(at as nat))) && r[2] == (
            "event"@,
            event,
        )),
{
    let m = event_line(seq, at, event)->Object_0;
    assert(m[0] == ("v"@, JsonView::Number(text::decimal(1))));
    let r = m[1].1->Object_0;
    assert(r[0] == ("seq"@, JsonView::Number(text::decimal(seq as nat))));
    assert(r[1] == ("occurred_at_ms"@, JsonView::Number(text::decimal(at as nat))));
    assert(r[2] == ("event"@, event));
}

proof fn lemma_places(events: Seq<EventRowView>, run_id: Seq<char>, seq: u64)
    ensures
        0 <= event_place(events, run_id, seq) <= events.len(),
    decreases events.len(),
{
    if events.len() > 0 {
        lemma_places(events.drop_first(), run_id, seq);
    }
}

proof fn lemma_index_places(runs: Seq<RunRowView>, session_id: Seq<char>, index: u64)
    ensures
        0 <= index_place(runs, session_id, index) <= runs.len(),
    decreases runs.len(),
{
    if runs.len() > 0 {
        lemma_index_places(runs.drop_first(), session_id, index);
    }
}

/// Rows that are put in order are the same rows: none is lost, and none is added.
pub proof fn law_ordering_loses_nothing(events: Seq<EventRowView>, runs: Seq<RunRowView>)
    ensures
        ordered_events(events).len() == events.len(),
        ordered_events(events).to_multiset() == events.to_multiset(),
        ordered_runs(runs).len() == runs.len(),
        ordered_runs(runs).to_multiset() == runs.to_multiset(),
    decreases events.len() + runs.len(),
{
    broadcast use vstd::seq_lib::group_to_multiset_ensures;

    if events.len() > 0 {
        let rest = events.drop_last();
        let row = events.last();
        law_ordering_loses_nothing(rest, runs);
        let before = ordered_events(rest);
        let at = event_place(before, row.run_id, row.record.seq);
        lemma_places(before, row.run_id, row.record.seq);
        vstd::seq_lib::to_multiset_insert(before, at, row);
        assert(rest.push(row) =~= events);
    } else {
        assert(events =~= Seq::empty());
    }
    if runs.len() > 0 {
        let rest = runs.drop_last();
        let row = runs.last();
        law_ordering_loses_nothing(events, rest);
        let before = ordered_runs(rest);
        let at = index_place(before, row.session_id, row.session_index);
        lemma_index_places(before, row.session_id, row.session_index);
        vstd::seq_lib::to_multiset_insert(before, at, row);
        assert(rest.push(row) =~= runs);
    } else {
        assert(runs =~= Seq::empty());
    }
}

} // verus!

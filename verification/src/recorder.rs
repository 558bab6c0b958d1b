//! Recorders: they number the events of one run, hold them against the kernel, and write them down.
use crate::error::{AppError, AppResult};
use crate::harness;
use crate::harness::{EventView, HarnessEvent, RecordedEvent, RunLog};
use crate::json;
use crate::json::JsonView;
use crate::ledger;
use crate::ledger::{ledger_line, LedgerView, SqliteLedger, StoredRecord};
use crate::text;
use vstd::prelude::*;

verus! {

/// What came of making the file of a ledger.
#[derive(Debug, PartialEq, Eq)]
pub enum Created {
    Made,
    /// There is a file already.
    Exists,
    Failed(String),
}

/// The text of an event as it is written.
pub open spec fn event_text(event: EventView) -> Seq<char> {
    json::json_text(harness::event_json(event))
}

/// Whether a record is the next one of a run that has recorded `history`.
pub open spec fn is_next(
    record: RecordedEvent,
    history: Seq<Seq<char>>,
    now: u64,
    event: HarnessEvent,
) -> bool {
    record.seq == history.len() && record.occurred_at_ms == now && record.event == event
}

/// Whether a line was written that holds a value; it is one line where the value can be read back.
pub open spec fn line_holds(line: Option<Seq<char>>, value: JsonView) -> bool {
    line matches Some(line) && line == json::json_text(value) && (json::printable(
        value,
        json::depth_limit(),
    ) ==> text::is_plain(line))
}

/// Whether offering `event` to a file came to `record` and the line `line`: what the kernel takes is
/// the next record, and the line holds it; what it turns down changes nothing. What was recorded is
/// taken again, in any order of its members.
pub open spec fn line_recorded(
    before: Seq<Seq<char>>,
    after: Seq<Seq<char>>,
    now: u64,
    event: HarnessEvent,
    record: AppResult<RecordedEvent>,
    line: Option<Seq<char>>,
) -> bool {
    &&& harness::durable(before) ==> harness::durable(after)
    &&& match harness::apply_error(before, event_text(event@)) {
        None => (record matches Ok(record) && is_next(record, before, now, event) && line_holds(
            line,
            ledger::event_line(record.seq, now, harness::event_json(event@)),
        )) && after == before.push(event_text(event@)),
        Some(error) => (record matches Err(AppError::Core(given)) && given@ == error) && line
            is None && after == before,
    }
}

/// Whether offering `event` to tables came to `record`: what the kernel takes is the next record,
/// which joins the run's events; one that the tables turn down has been numbered all the same; and
/// what the kernel turns down changes nothing. What was recorded is taken again, in any order of its
/// members.
pub open spec fn row_recorded(
    run_id: Seq<char>,
    before: Seq<Seq<char>>,
    after: Seq<Seq<char>>,
    tables: LedgerView,
    tables_after: LedgerView,
    now: u64,
    event: HarnessEvent,
    record: AppResult<RecordedEvent>,
) -> bool {
    &&& harness::durable(before) ==> harness::durable(after)
    &&& match harness::apply_error(before, event_text(event@)) {
        None => {
            let written = ledger::stored(before.len() as u64, now, event@);
            let events = ledger::appended(tables.events, run_id, written);
            let fits = written.seq <= ledger::MAX_SQLITE_INTEGER && now
                <= ledger::MAX_SQLITE_INTEGER;
            &&& after == before.push(event_text(event@))
            &&& written.seq == before.len()
            &&& record is Ok <==> fits && events is Ok
            &&& record matches Ok(record) ==> is_next(record, before, now, event)
            &&& record is Ok ==> tables_after == (LedgerView { events: events->Ok_0, ..tables })
            &&& record is Err ==> tables_after == tables
            &&& record is Err && fits ==> (record matches Err(
                AppError::LedgerConflict { run_id: run, seq },
            ) && run@ == run_id && seq == written.seq)
            &&& record is Err && !fits ==> record matches Err(AppError::Config(_))
        },
        Some(error) => (record matches Err(AppError::Core(given)) && given@ == error) && after
            == before && tables_after == tables,
    }
}

/// Writes the events of a run to a file, a line each.
pub struct JsonlEventRecorder {
    log: RunLog,
}

impl JsonlEventRecorder {
    /// The events recorded so far, each as its text.
    pub closed spec fn view(&self) -> Seq<Seq<char>> {
        self.log@
    }

    /// A recorder for the new file at `path`. A file that is there already is not written over.
    pub fn create(path: &str, created: Created) -> (r: AppResult<JsonlEventRecorder>)
        ensures
            path@.len() == 0 ==> r matches Err(AppError::EmptyLedger),
            path@.len() > 0 ==> match created {
                Created::Made => r matches Ok(recorder) && recorder@ == Seq::<Seq<char>>::empty()
                    && harness::durable(recorder@),
                Created::Exists => r matches Err(AppError::LedgerExists(given)) && given@ == path@,
                Created::Failed(error) => r matches Err(AppError::Io(given)) && given@ == error@,
            },
    {
        if path.is_empty() {
            return Err(AppError::EmptyLedger);
        }
        match created {
            Created::Made => Ok(JsonlEventRecorder { log: RunLog::new() }),
            Created::Exists => Err(AppError::LedgerExists(path.to_owned())),
            Created::Failed(error) => Err(AppError::Io(error)),
        }
    }

    /// Offers an event to the kernel; the record, and the line that is written for it.
    pub fn record(&mut self, now: u64, event: HarnessEvent) -> (r: AppResult<
        (RecordedEvent, String),
    >)
        ensures
            line_recorded(
                old(self)@,
                final(self)@,
                now,
                event,
                match r {
                    Ok(written) => Ok(written.0),
                    Err(error) => Err(error),
                },
                match r {
                    Ok(written) => Some(written.1@),
                    Err(_) => None,
                },
            ),
    {
        match self.log.next_record(now, event) {
            Ok(record) => {
                let line = ledger_line(&record);
                Ok((record, line))
            },
            Err(error) => Err(AppError::Core(error)),
        }
    }
}

/// Writes the events of a run to the tables of a database.
pub struct SqliteEventRecorder {
    run_id: String,
    log: RunLog,
}

impl SqliteEventRecorder {
    /// The events recorded so far, each as its text.
    pub closed spec fn view(&self) -> Seq<Seq<char>> {
        self.log@
    }

    /// The run whose events are recorded.
    pub closed spec fn run(&self) -> Seq<char> {
        self.run_id@
    }

    /// A recorder for a run in the database at `path`.
    pub fn create(path: &str, run_id: String) -> (r: AppResult<SqliteEventRecorder>)
        ensures
            path@.len() == 0 ==> r matches Err(AppError::EmptyLedger),
            path@.len() > 0 ==> (r matches Ok(recorder) && recorder@ == Seq::<Seq<char>>::empty()
                && harness::durable(recorder@) && recorder.run() == run_id@),
    {
        if path.is_empty() {
            return Err(AppError::EmptyLedger);
        }
        Ok(SqliteEventRecorder { run_id, log: RunLog::new() })
    }

    /// Offers an event to the kernel, and writes the record to the tables. One that the tables turn
    /// down has been numbered all the same.
    pub fn record(&mut self, tables: &mut SqliteLedger, now: u64, event: HarnessEvent) -> (r:
        AppResult<RecordedEvent>)
        requires
            old(tables).wf(),
        ensures
            final(tables).wf(),
            final(self).run() == old(self).run(),
            row_recorded(
                old(self).run(),
                old(self)@,
                final(self)@,
                old(tables)@,
                final(tables)@,
                now,
                event,
                r,
            ),
    {
        match self.log.next_record(now, event) {
            Ok(record) => {
                let written = StoredRecord::of(&record);
                match tables.append(self.run_id.as_str(), written) {
                    Ok(_) => Ok(record),
                    Err(error) => Err(error),
                }
            },
            Err(error) => Err(AppError::Core(error)),
        }
    }
}

/// Writes the events of a run to a file or to a database.
pub enum EventRecorder {
    Jsonl(JsonlEventRecorder),
    Sqlite(SqliteEventRecorder),
}

impl EventRecorder {
    /// A recorder for the new file at `path`.
    pub fn create_jsonl(path: &str, created: Created) -> (r: AppResult<EventRecorder>)
        ensures
            path@.len() == 0 ==> r matches Err(AppError::EmptyLedger),
            path@.len() > 0 ==> match created {
                Created::Made => r matches Ok(EventRecorder::Jsonl(recorder)) && recorder@
                    == Seq::<Seq<char>>::empty() && harness::durable(recorder@),
                Created::Exists => r matches Err(AppError::LedgerExists(given)) && given@ == path@,
                Created::Failed(error) => r matches Err(AppError::Io(given)) && given@ == error@,
            },
    {
        match JsonlEventRecorder::create(path, created) {
            Ok(recorder) => Ok(EventRecorder::Jsonl(recorder)),
            Err(error) => Err(error),
        }
    }

    /// A recorder for a run in the database at `path`.
    pub fn create_sqlite(path: &str, run_id: String) -> (r: AppResult<EventRecorder>)
        ensures
            path@.len() == 0 ==> r matches Err(AppError::EmptyLedger),
            path@.len() > 0 ==> (r matches Ok(EventRecorder::Sqlite(recorder)) && recorder@
                == Seq::<Seq<char>>::empty() && harness::durable(recorder@) && recorder.run()
                == run_id@),
    {
        match SqliteEventRecorder::create(path, run_id) {
            Ok(recorder) => Ok(EventRecorder::Sqlite(recorder)),
            Err(error) => Err(error),
        }
    }

    /// Offers an event to the kernel and writes it down: as a line, which comes back beside the
    /// record, or in the tables.
    pub fn record(&mut self, tables: &mut SqliteLedger, now: u64, event: HarnessEvent) -> (r:
        AppResult<(RecordedEvent, Option<String>)>)
        requires
            old(tables).wf(),
        ensures
            final(tables).wf(),
            match (*old(self), *final(self)) {
                (EventRecorder::Jsonl(before), EventRecorder::Jsonl(after)) => final(tables)@
                    == old(tables)@ && line_recorded(
                    before@,
                    after@,
                    now,
                    event,
                    record_in(r),
                    line_in(r),
                ),
                (EventRecorder::Sqlite(before), EventRecorder::Sqlite(after)) => after.run()
                    == before.run() && line_in(r) is None && row_recorded(
                    before.run(),
                    before@,
                    after@,
                    old(tables)@,
                    final(tables)@,
                    now,
                    event,
                    record_in(r),
                ),
                _ => false,
            },
    {
        match self {
            EventRecorder::Jsonl(recorder) => match recorder.record(now, event) {
                Ok((record, line)) => Ok((record, Some(line))),
                Err(error) => Err(error),
            },
            EventRecorder::Sqlite(recorder) => match recorder.record(tables, now, event) {
                Ok(record) => Ok((record, None)),
                Err(error) => Err(error),
            },
        }
    }
}

/// The record that was made, or why none was.
pub open spec fn record_in(r: AppResult<(RecordedEvent, Option<String>)>) -> AppResult<
    RecordedEvent,
> {
    match r {
        Ok(written) => Ok(written.0),
        Err(error) => Err(error),
    }
}

/// The line that is written, if any.
pub open spec fn line_in(r: AppResult<(RecordedEvent, Option<String>)>) -> Option<Seq<char>> {
    match r {
        Ok((_, Some(line))) => Some(line@),
        _ => None,
    }
}

/// A run whose events are recorded in the tables one after the other has them there in that order:
/// what the recorder took is what is read of the run.
pub proof fn law_recorded_events_are_read(
    events: Seq<ledger::EventRowView>,
    run_id: Seq<char>,
    record: ledger::StoredView,
)
    requires
        forall|i: int|
            0 <= i < events.len() && (#[trigger] events[i]).run_id == run_id
                ==> events[i].record.seq < record.seq,
    ensures
        ({
            let after = ledger::appended(events, run_id, record);
            let row = ledger::EventRowView { run_id, version: ledger::LEDGER_VERSION, record };
            after is Ok && ledger::events_of(after->Ok_0, run_id) == ledger::events_of(
                events,
                run_id,
            ).push(row)
        }),
{
    ledger::lemma_event_place(events, run_id, record.seq, events.len() as int);
    let row = ledger::EventRowView { run_id, version: ledger::LEDGER_VERSION, record };
    assert(events.insert(events.len() as int, row).drop_last() =~= events);
}

} // verus!

//! What the daemon holds of a run: its state, its latest events, and the approvals it waits for.
use crate::app::{ApprovalRequest, AssistantDeltaEvent, DeltaView};
use crate::daemon::protocol::RunStateName;
use crate::harness;
use crate::harness::RecordedEvent;
use crate::json;
use crate::json::{Json, JsonView, ObjectBuilder};
use crate::table;
use crate::text;
use crate::tools::{ApprovalOutcome, OutcomeView};
use std::collections::VecDeque;
use vstd::prelude::*;

verus! {

/// The most events that are kept of a run.
pub const MAX_EVENT_BUFFER: usize = 256;

/// The state of a run, and what came of it.
#[derive(Debug, PartialEq, Eq)]
pub struct RunStatus {
    pub state: RunStateName,
    pub final_answer: Option<String>,
    pub error: Option<String>,
}

/// What a status stands for.
pub struct StatusView {
    pub state: RunStateName,
    pub final_answer: Option<Seq<char>>,
    pub error: Option<Seq<char>>,
}

impl Clone for RunStatus {
    fn clone(&self) -> (r: RunStatus)
        ensures
            r == *self,
    {
        RunStatus {
            state: self.state,
            final_answer: text::copy_option(&self.final_answer),
            error: text::copy_option(&self.error),
        }
    }
}

impl RunStatus {
    /// The status that `self` stands for.
    pub open spec fn view(&self) -> StatusView {
        StatusView {
            state: self.state,
            final_answer: text::opt_view(self.final_answer),
            error: text::opt_view(self.error),
        }
    }
}

/// The latest events of a run, each with its offset.
#[derive(Debug)]
pub struct EventBuffer {
    pub first_offset: u64,
    pub next_offset: u64,
    pub events: VecDeque<Json>,
}

/// What a buffer stands for.
pub struct BufferView {
    pub first_offset: nat,
    pub next_offset: nat,
    pub events: Seq<JsonView>,
}

/// An event with its offset, as it is kept.
pub open spec fn offset_event(offset: nat, event: JsonView) -> JsonView {
    JsonView::Object(
        json::no_members().push(("event"@, event)).push(
            ("offset"@, JsonView::Number(text::decimal(offset))),
        ),
    )
}

/// Whether the buffer holds the events from its first offset up to its next, and no more than it
/// may.
pub open spec fn buffer_ok(buffer: BufferView) -> bool {
    &&& buffer.next_offset - buffer.first_offset == buffer.events.len()
    &&& buffer.events.len() <= MAX_EVENT_BUFFER
}

/// The buffer after one more event: where it is full, its oldest event has left.
pub open spec fn pushed(buffer: BufferView, event: JsonView) -> BufferView {
    let full = buffer.events.len() == MAX_EVENT_BUFFER;
    BufferView {
        first_offset: if full {
            buffer.first_offset + 1
        } else {
            buffer.first_offset
        },
        next_offset: buffer.next_offset + 1,
        events: (if full {
            buffer.events.drop_first()
        } else {
            buffer.events
        }).push(offset_event(buffer.next_offset, event)),
    }
}

impl EventBuffer {
    /// The buffer that `self` stands for.
    pub open spec fn view(&self) -> BufferView {
        BufferView {
            first_offset: self.first_offset as nat,
            next_offset: self.next_offset as nat,
            events: json::json_views(self.events@),
        }
    }

    /// Whether the buffer is as its operations leave it.
    pub open spec fn wf(&self) -> bool {
        buffer_ok(self@)
    }

    /// A buffer without events.
    pub fn new() -> (r: EventBuffer)
        ensures
            r.wf(),
            r@ == (BufferView { first_offset: 0, next_offset: 0, events: Seq::empty() }),
    {
        let r = EventBuffer { first_offset: 0, next_offset: 0, events: VecDeque::new() };
        assert(json::json_views(r.events@) =~= Seq::empty());
        r
    }

    /// Adds an event; where the buffer is full, its oldest event leaves.
    pub fn push(&mut self, event: Json)
        requires
            old(self).wf(),
            old(self).next_offset < u64::MAX,
        ensures
            final(self).wf(),
            final(self)@ == pushed(old(self)@, event@),
    {
        let ghost before = self@;
        if self.events.len() == MAX_EVENT_BUFFER {
            let _oldest = self.events.pop_front();
            self.first_offset = self.first_offset + 1;
            assert(json::json_views(self.events@) =~= before.events.drop_first());
        }
        let ghost kept = json::json_views(self.events@);
        let offset: u64 = self.next_offset;
        self.next_offset = self.next_offset + 1;
        let entry = ObjectBuilder::new().with("event", event).number("offset", offset).build();
        self.events.push_back(entry);
        assert(json::json_views(self.events@) =~= kept.push(entry@));
    }

    /// The events from the place `start` on, `limit` of them at most.
    pub fn page(&self, start: usize, limit: usize) -> (r: Vec<Json>)
        ensures
            json::json_views(r@) == page_of(self@.events, start as nat, limit as nat),
    {
        let mut page: Vec<Json> = Vec::new();
        let mut i: usize = start;
        while i < self.events.len() && page.len() < limit
            invariant
                start <= i,
                i <= self.events@.len() || i == start,
                page@.len() == i - start,
                page@.len() <= limit,
                forall|j: int|
                    0 <= j < page@.len() ==> (#[trigger] page@[j])@ == self.events@[start + j]@,
            decreases self.events@.len() - i,
        {
            page.push(self.events[i].clone());
            i += 1;
        }
        assert(json::json_views(page@) =~= page_of(self@.events, start as nat, limit as nat));
        page
    }
}

/// The items from the place `start` on, `limit` of them at most.
pub open spec fn page_of(events: Seq<JsonView>, start: nat, limit: nat) -> Seq<JsonView> {
    if start >= events.len() {
        Seq::empty()
    } else if start + limit >= events.len() {
        events.skip(start as int)
    } else {
        events.subrange(start as int, (start + limit) as int)
    }
}

/// Whether every event in a buffer has the offset of its place.
pub open spec fn offsets_in_place(buffer: BufferView) -> bool {
    forall|i: int|
        0 <= i < buffer.events.len() ==> json::member_of(#[trigger] buffer.events[i], "offset"@)
            == Some(JsonView::Number(text::decimal((buffer.first_offset + i) as nat)))
}

/// A push keeps a buffer sound, and every event in it at the offset of its place.
pub proof fn law_push_keeps_offsets_in_place(buffer: BufferView, event: JsonView)
    requires
        buffer_ok(buffer),
        offsets_in_place(buffer),
    ensures
        buffer_ok(pushed(buffer, event)),
        offsets_in_place(pushed(buffer, event)),
{
    let after = pushed(buffer, event);
    let first = ("event"@, event);
    let second = ("offset"@, JsonView::Number(text::decimal(buffer.next_offset)));
    reveal_strlit("event");
    reveal_strlit("offset");
    assert("event"@.len() == 5 && "offset"@.len() == 6);
    json::lemma_first_member_push(json::no_members(), first, "offset"@);
    json::lemma_first_member_push(json::no_members().push(first), second, "offset"@);
    assert forall|i: int| 0 <= i < after.events.len() implies json::member_of(
        #[trigger] after.events[i],
        "offset"@,
    ) == Some(JsonView::Number(text::decimal((after.first_offset + i) as nat))) by {
        if i < after.events.len() - 1 {
            let j = i + (after.first_offset - buffer.first_offset);
            assert(after.events[i] == buffer.events[j]);
        }
    }
}

/// Two pages that follow one another are one page: who goes on from where a page ended misses
/// nothing and sees nothing twice.
pub proof fn law_pages_follow_one_another(
    events: Seq<JsonView>,
    start: nat,
    first: nat,
    second: nat,
)
    ensures
        ({
            let page = page_of(events, start, first);
            page + page_of(events, start + page.len(), second) == page_of(
                events,
                start,
                page.len() + second,
            )
        }),
{
    let page = page_of(events, start, first);
    assert(page + page_of(events, start + page.len(), second) =~= page_of(
        events,
        start,
        page.len() + second,
    ));
}

/// An approval that a run waits for, and the decision once there is one.
#[derive(Debug, PartialEq, Eq)]
pub struct PendingApproval {
    pub call_id: String,
    pub decision: Option<ApprovalOutcome>,
}

/// What an optional decision stands for.
pub open spec fn opt_outcome(decision: Option<ApprovalOutcome>) -> Option<OutcomeView> {
    match decision {
        Some(outcome) => Some(outcome@),
        None => None,
    }
}

/// What the approvals that a run waits for stand for.
pub open spec fn approval_rows(approvals: Seq<PendingApproval>) -> Seq<
    (Seq<char>, Option<OutcomeView>),
> {
    Seq::new(
        approvals.len(),
        |i: int| (approvals[i].call_id@, opt_outcome(approvals[i].decision)),
    )
}

impl PendingApproval {
    /// An approval that nobody has decided.
    pub fn new(call_id: String) -> (r: PendingApproval)
        ensures
            r.call_id@ == call_id@,
            r.decision is None,
    {
        PendingApproval { call_id, decision: None }
    }
}

/// A run as the daemon holds it.
#[derive(Debug)]
pub struct RunRecord {
    pub run_id: String,
    pub session_id: String,
    pub ledger_path: String,
    pub cancel: bool,
    pub status: RunStatus,
    pub events: EventBuffer,
    pub approvals: Vec<PendingApproval>,
}

/// What a held run stands for.
pub struct RecordView {
    pub run_id: Seq<char>,
    pub session_id: Seq<char>,
    pub ledger_path: Seq<char>,
    pub cancel: bool,
    pub status: StatusView,
    pub events: BufferView,
    pub approvals: Seq<(Seq<char>, Option<OutcomeView>)>,
}

/// An event of the ledger, as a run's clients see it.
pub open spec fn ledger_event(record: JsonView) -> JsonView {
    JsonView::Object(
        json::no_members().push(("kind"@, JsonView::Text("ledger"@))).push(("record"@, record)),
    )
}

/// A piece of an answer, as a run's clients see it.
pub open spec fn delta_event(delta: DeltaView) -> JsonView {
    JsonView::Object(
        json::no_members().push(
            ("delta_index"@, JsonView::Number(text::decimal(delta.delta_index as nat))),
        ).push(("kind"@, JsonView::Text("assistant_delta"@))).push(
            ("run_id"@, JsonView::Text(delta.run_id)),
        ).push(("step"@, JsonView::Number(text::decimal(delta.step as nat)))).push(
            ("text"@, JsonView::Text(delta.text)),
        ).push(("turn_id"@, JsonView::Text(delta.turn_id))),
    )
}

/// That a run is to stop, as its clients see it.
pub open spec fn canceled_event(run_id: Seq<char>) -> JsonView {
    JsonView::Object(
        json::no_members().push(("kind"@, JsonView::Text("canceled"@))).push(
            ("run_id"@, JsonView::Text(run_id)),
        ),
    )
}

/// That a run waits for an approval, as its clients see it.
pub open spec fn approval_event(request: ApprovalRequest) -> JsonView {
    let none = json::no_members();
    let preview = match request.approval_preview {
        Some(preview) => none.push(("approval_preview"@, JsonView::Text(preview@))),
        None => none,
    };
    let diff = match request.diff_preview {
        Some(diff) => preview.push(("diff_preview"@, JsonView::Text(diff@))),
        None => preview,
    };
    JsonView::Object(
        diff.push(("effect"@, JsonView::Text(request.effect.wire()))).push(
            ("kind"@, JsonView::Text("approval_requested"@)),
        ).push(("reason"@, JsonView::Text(request.reason@))).push(
            ("run_id"@, JsonView::Text(request.run_id@)),
        ).push(("tool_call_id"@, JsonView::Text(request.call_id@))).push(
            ("tool_name"@, JsonView::Text(request.tool_name@)),
        ),
    )
}

/// The event that tells a run's clients of an approval that it waits for.
pub fn approval_requested_event(request: &ApprovalRequest) -> (r: Json)
    ensures
        r@ == approval_event(*request),
{
    let mut object = ObjectBuilder::new();
    if let Some(preview) = &request.approval_preview {
        object = object.text("approval_preview", preview.as_str());
    }
    if let Some(diff) = &request.diff_preview {
        object = object.text("diff_preview", diff.as_str());
    }
    object.text("effect", request.effect.as_str()).text("kind", "approval_requested").text(
        "reason",
        request.reason.as_str(),
    ).text("run_id", request.run_id.as_str()).text("tool_call_id", request.call_id.as_str()).text(
        "tool_name",
        request.tool_name.as_str(),
    ).build()
}

/// A run that starts.
pub open spec fn fresh_record(
    run_id: Seq<char>,
    session_id: Seq<char>,
    ledger_path: Seq<char>,
) -> RecordView {
    RecordView {
        run_id,
        session_id,
        ledger_path,
        cancel: false,
        status: StatusView { state: RunStateName::Running, final_answer: None, error: None },
        events: BufferView { first_offset: 0, next_offset: 0, events: Seq::empty() },
        approvals: Seq::empty(),
    }
}

/// Whether a held run is as its operations leave it.
pub open spec fn record_ok(record: RecordView) -> bool {
    &&& buffer_ok(record.events)
    &&& table::distinct_keys(record.approvals)
}

/// What a look at an approval gives: a run that is to stop is denied it, a decision is handed out
/// once, and without one there is nothing yet. Whatever is handed out is no longer waited for.
pub open spec fn polled(record: RecordView, call_id: Seq<char>) -> (RecordView, Option<OutcomeView>) {
    let released = RecordView {
        approvals: table::without_row(record.approvals, call_id),
        ..record
    };
    if record.cancel {
        (released, Some(OutcomeView::Denied { reason: "run canceled"@ }))
    } else {
        match table::lookup(record.approvals, call_id) {
            Some(Some(outcome)) => (released, Some(outcome)),
            _ => (record, None),
        }
    }
}

impl RunRecord {
    /// The held run that `self` stands for.
    pub open spec fn view(&self) -> RecordView {
        RecordView {
            run_id: self.run_id@,
            session_id: self.session_id@,
            ledger_path: self.ledger_path@,
            cancel: self.cancel,
            status: self.status@,
            events: self.events@,
            approvals: approval_rows(self.approvals@),
        }
    }

    /// Whether the record is as its operations leave it.
    pub open spec fn wf(&self) -> bool {
        record_ok(self@)
    }

    /// A run that starts.
    pub fn new(run_id: String, session_id: String, ledger_path: String) -> (r: RunRecord)
        ensures
            r.wf(),
            r@ == fresh_record(run_id@, session_id@, ledger_path@),
    {
        let r = RunRecord {
            run_id,
            session_id,
            ledger_path,
            cancel: false,
            status: RunStatus { state: RunStateName::Running, final_answer: None, error: None },
            events: EventBuffer::new(),
            approvals: Vec::new(),
        };
        assert(approval_rows(r.approvals@) =~= Seq::empty());
        r
    }

    /// Tells the run's clients of an event.
    pub fn push_event(&mut self, event: Json)
        requires
            old(self).wf(),
            old(self).events.next_offset < u64::MAX,
        ensures
            final(self).wf(),
            final(self)@ == (RecordView {
                events: pushed(old(self)@.events, event@),
                ..old(self)@
            }),
    {
        self.events.push(event);
    }

    /// Tells the run's clients of an event of the ledger.
    pub fn push_recorded_event(&mut self, record: &RecordedEvent)
        requires
            old(self).wf(),
            old(self).events.next_offset < u64::MAX,
        ensures
            final(self).wf(),
            final(self)@ == (RecordView {
                events: pushed(
                    old(self)@.events,
                    ledger_event(
                        harness::record_json(record.seq, record.occurred_at_ms, record.event@),
                    ),
                ),
                ..old(self)@
            }),
    {
        self.push_event(
            ObjectBuilder::new().text("kind", "ledger").with("record", record.to_json()).build(),
        );
    }

    /// Tells the run's clients of a piece of the answer.
    pub fn push_assistant_delta(&mut self, delta: &AssistantDeltaEvent)
        requires
            old(self).wf(),
            old(self).events.next_offset < u64::MAX,
        ensures
            final(self).wf(),
            final(self)@ == (RecordView {
                events: pushed(old(self)@.events, delta_event(delta@)),
                ..old(self)@
            }),
    {
        self.push_event(
            ObjectBuilder::new().number("delta_index", delta.delta_index).text(
                "kind",
                "assistant_delta",
            ).text("run_id", delta.run_id.as_str()).number("step", delta.step as u64).text(
                "text",
                delta.text.as_str(),
            ).text("turn_id", delta.turn_id.as_str()).build(),
        );
    }

    /// The status of the run.
    pub fn status(&self) -> (r: RunStatus)
        ensures
            r == self.status,
    {
        self.status.clone()
    }

    /// Notes that the run has answered.
    pub fn set_finished(&mut self, final_answer: String)
        requires
            old(self).wf(),
        ensures
            final(self).wf(),
            final(self)@ == (RecordView {
                status: StatusView {
                    state: RunStateName::Finished,
                    final_answer: Some(final_answer@),
                    error: None,
                },
                ..old(self)@
            }),
    {
        self.status =
        RunStatus {
            state: RunStateName::Finished,
            final_answer: Some(final_answer),
            error: None,
        };
    }

    /// Notes that the run has failed, or has stopped where it was to stop.
    pub fn set_failed(&mut self, error: String)
        requires
            old(self).wf(),
        ensures
            final(self).wf(),
            final(self)@ == (RecordView {
                status: StatusView {
                    state: if old(self)@.cancel {
                        RunStateName::Canceled
                    } else {
                        RunStateName::Failed
                    },
                    final_answer: None,
                    error: Some(error@),
                },
                ..old(self)@
            }),
    {
        self.status =
        RunStatus {
            state: if self.cancel {
                RunStateName::Canceled
            } else {
                RunStateName::Failed
            },
            final_answer: None,
            error: Some(error),
        };
    }

    /// Notes that the run is to stop, and tells its clients.
    pub fn request_cancel(&mut self)
        requires
            old(self).wf(),
            old(self).events.next_offset < u64::MAX,
        ensures
            final(self).wf(),
            final(self)@ == (RecordView {
                cancel: true,
                events: pushed(old(self)@.events, canceled_event(old(self)@.run_id)),
                ..old(self)@
            }),
    {
        self.cancel = true;
        let event = ObjectBuilder::new().text("kind", "canceled").text(
            "run_id",
            self.run_id.as_str(),
        ).build();
        self.push_event(event);
    }

    fn approval_index(&self, call_id: &str) -> (r: usize)
        ensures
            r == table::position(self@.approvals, call_id@),
            r <= self.approvals@.len(),
    {
        let mut i: usize = 0;
        while i < self.approvals.len()
            invariant
                0 <= i <= self.approvals@.len(),
                forall|j: int| 0 <= j < i ==> (#[trigger] self@.approvals[j]).0 != call_id@,
            decreases self.approvals@.len() - i,
        {
            if text::same_text(self.approvals[i].call_id.as_str(), call_id) {
                proof {
                    table::lemma_position(self@.approvals, call_id@, i as int);
                }
                return i;
            }
            i += 1;
        }
        proof {
            table::lemma_position(self@.approvals, call_id@, i as int);
        }
        i
    }

    /// Whether the run waits for the approval of a call.
    pub fn awaits(&self, call_id: &str) -> (r: bool)
        ensures
            r == (table::lookup(self@.approvals, call_id@) is Some),
    {
        self.approval_index(call_id) < self.approvals.len()
    }

    /// Notes that the run waits for an approval, and tells its clients.
    pub fn begin_approval(&mut self, request: &ApprovalRequest)
        requires
            old(self).wf(),
            old(self).events.next_offset < u64::MAX,
        ensures
            final(self).wf(),
            final(self)@ == (RecordView {
                events: pushed(old(self)@.events, approval_event(*request)),
                approvals: table::with_row(old(self)@.approvals, request.call_id@, None),
                ..old(self)@
            }),
    {
        self.push_event(approval_requested_event(request));
        let ghost rows = self@.approvals;
        proof {
            table::law_reads_what_was_written(rows, request.call_id@, None, request.call_id@);
        }
        let index = self.approval_index(request.call_id.as_str());
        let pending = PendingApproval::new(request.call_id.clone());
        if index < self.approvals.len() {
            self.approvals.set(index, pending);
        } else {
            self.approvals.push(pending);
        }
        assert(approval_rows(self.approvals@) =~= table::with_row(rows, request.call_id@, None));
    }

    /// Puts a decision beside the approval that the run waits for; false where it waits for none of
    /// that name.
    pub fn decide_approval(&mut self, call_id: &str, outcome: ApprovalOutcome) -> (r: bool)
        requires
            old(self).wf(),
        ensures
            final(self).wf(),
            r == (table::lookup(old(self)@.approvals, call_id@) is Some),
            final(self)@ == if r {
                RecordView {
                    approvals: table::with_row(
                        old(self)@.approvals,
                        call_id@,
                        Some(outcome@),
                    ),
                    ..old(self)@
                }
            } else {
                old(self)@
            },
    {
        let ghost rows = self@.approvals;
        proof {
            table::law_reads_what_was_written(rows, call_id@, Some(outcome@), call_id@);
            table::lemma_position_bounds(rows, call_id@);
        }
        let index = self.approval_index(call_id);
        if index >= self.approvals.len() {
            return false;
        }
        let pending = PendingApproval { call_id: call_id.to_owned(), decision: Some(outcome) };
        self.approvals.set(index, pending);
        assert(approval_rows(self.approvals@) =~= table::with_row(
            rows,
            call_id@,
            Some(outcome@),
        ));
        true
    }

    /// Looks at an approval that the run waits for: a run that is to stop is denied it, a decision
    /// is handed out once, and without one there is nothing yet.
    pub fn poll_approval(&mut self, call_id: &str) -> (r: Option<ApprovalOutcome>)
        requires
            old(self).wf(),
        ensures
            final(self).wf(),
            (final(self)@, opt_outcome(r)) == polled(old(self)@, call_id@),
    {
        let ghost rows = self@.approvals;
        proof {
            table::law_forgets_what_was_removed(rows, call_id@, call_id@);
            table::lemma_position_bounds(rows, call_id@);
        }
        let index = self.approval_index(call_id);
        if self.cancel {
            if index < self.approvals.len() {
                let _released = self.approvals.remove(index);
            }
            assert(approval_rows(self.approvals@) =~= table::without_row(rows, call_id@));
            return Some(ApprovalOutcome::Denied { reason: "run canceled".to_owned() });
        }
        if index < self.approvals.len() {
            assert(rows[index as int].1 == opt_outcome(self.approvals@[index as int].decision));
            if self.approvals[index].decision.is_some() {
                let released = self.approvals.remove(index);
                assert(approval_rows(self.approvals@) =~= table::without_row(rows, call_id@));
                return released.decision;
            }
        }
        None
    }
}

/// A decision that was put beside an approval is what the run is handed, and then the approval is
/// no longer waited for; but a run that is to stop is denied whatever was decided.
pub proof fn law_decisions_reach_the_run(
    record: RecordView,
    call_id: Seq<char>,
    outcome: OutcomeView,
)
    requires
        record_ok(record),
        table::lookup(record.approvals, call_id) is Some,
    ensures
        ({
            let decided = RecordView {
                approvals: table::with_row(record.approvals, call_id, Some(outcome)),
                ..record
            };
            let (after, given) = polled(decided, call_id);
            &&& given == Some(
                if record.cancel {
                    OutcomeView::Denied { reason: "run canceled"@ }
                } else {
                    outcome
                },
            )
            &&& table::lookup(after.approvals, call_id) is None
        }),
{
    let rows = table::with_row(record.approvals, call_id, Some(outcome));
    table::law_reads_what_was_written(record.approvals, call_id, Some(outcome), call_id);
    table::law_forgets_what_was_removed(rows, call_id, call_id);
}

/// An event that comes in stands at the end, under the next place; the others stay, but for the oldest
/// where there is no room: never more than two hundred and fifty-six are kept.
pub proof fn law_events_are_kept_in_order(buffer: BufferView, event: JsonView)
    requires
        buffer_ok(buffer),
    ensures
        ({
            let after = pushed(buffer, event);
            let dropped = if buffer.events.len() == 256 {
                1nat
            } else {
                0nat
            };
            &&& after.next_offset == buffer.next_offset + 1
            &&& after.first_offset == buffer.first_offset + dropped
            &&& after.events.len() == buffer.events.len() + 1 - dropped
            &&& after.events.len() <= 256
            &&& forall|i: int|
                0 <= i < after.events.len() - 1 ==> (#[trigger] after.events[i])
                    == buffer.events[i + dropped]
            &&& json::member_of(after.events.last(), "event"@) == Some(event)
            &&& json::member_of(after.events.last(), "offset"@) == Some(
                JsonView::Number(text::decimal(buffer.next_offset)),
            )
        }),
{
    let m = offset_event(buffer.next_offset, event)->Object_0;
    reveal_strlit("event");
    reveal_strlit("offset");
    assert("event"@.len() == 5 && "offset"@.len() == 6);
    assert(m[0] == ("event"@, event));
    assert(m[1] == ("offset"@, JsonView::Number(text::decimal(buffer.next_offset))));
    json::lemma_distinct_members(m);
}

/// A page holds the events from its start on, as many as were asked for or as there are.
pub proof fn law_pages_hold_what_was_asked_for(events: Seq<JsonView>, start: nat, limit: nat)
    ensures
        ({
            let page = page_of(events, start, limit);
            &&& page.len() <= limit
            &&& page.len() < limit ==> start + page.len() >= events.len()
            &&& start + page.len() <= events.len() || page.len() == 0
            &&& forall|i: int| 0 <= i < page.len() ==> (#[trigger] page[i]) == events[start + i]
        }),
{
}

/// The events of a stream tell what they are: one kind for what was recorded, one for a piece of an
/// answer, one for a run that was canceled; each holds what it tells of.
pub proof fn law_stream_events_tell_their_kind(
    record: JsonView,
    delta: DeltaView,
    run_id: Seq<char>,
)
    ensures
        ({
            let m = ledger_event(record)->Object_0;
            ledger_event(record) is Object && m.len() == 2 && m[0] == (
                "kind"@,
                JsonView::Text("ledger"@),
            ) && m[1] == ("record"@, record)
        }),
        ({
            let m = delta_event(delta)->Object_0;
            delta_event(delta) is Object && m.len() == 6 && m[0] == (
                "delta_index"@,
                JsonView::Number(text::decimal(delta.delta_index as nat)),
            ) && m[1] == ("kind"@, JsonView::Text("assistant_delta"@)) && m[2] == (
                "run_id"@,
                JsonView::Text(delta.run_id),
            ) && m[3] == ("step"@, JsonView::Number(text::decimal(delta.step as nat))) && m[4] == (
                "text"@,
                JsonView::Text(delta.text),
            ) && m[5] == ("turn_id"@, JsonView::Text(delta.turn_id))
        }),
        ({
            let m = canceled_event(run_id)->Object_0;
            canceled_event(run_id) is Object && m.len() == 2 && m[0] == (
                "kind"@,
                JsonView::Text("canceled"@),
            ) && m[1] == ("run_id"@, JsonView::Text(run_id))
        }),
{
    let a = ledger_event(record)->Object_0;
    assert(a[0] == ("kind"@, JsonView::Text("ledger"@)));
    assert(a[1] == ("record"@, record));
    let b = delta_event(delta)->Object_0;
    assert(b[0] == ("delta_index"@, JsonView::Number(text::decimal(delta.delta_index as nat))));
    assert(b[1] == ("kind"@, JsonView::Text("assistant_delta"@)));
    assert(b[2] == ("run_id"@, JsonView::Text(delta.run_id)));
    assert(b[3] == ("step"@, JsonView::Number(text::decimal(delta.step as nat))));
    assert(b[4] == ("text"@, JsonView::Text(delta.text)));
    assert(b[5] == ("turn_id"@, JsonView::Text(delta.turn_id)));
    let c = canceled_event(run_id)->Object_0;
    assert(c[0] == ("kind"@, JsonView::Text("canceled"@)));
    assert(c[1] == ("run_id"@, JsonView::Text(run_id)));
}

/// A request for approval tells the call, its tool, what it may do and why it asks; a preview and a
/// difference are told where there are any, and only there.
pub proof fn law_approval_requests_tell_the_call(request: ApprovalRequest)
    ensures
        ({
            let m = approval_event(request)->Object_0;
            let n = m.len() as int;
            &&& approval_event(request) is Object
            &&& n == 6 + (if request.approval_preview is Some {
                1int
            } else {
                0int
            }) + (if request.diff_preview is Some {
                1int
            } else {
                0int
            })
            &&& request.approval_preview matches Some(preview) ==> m[0] == (
                "approval_preview"@,
                JsonView::Text(preview@),
            )
            &&& request.diff_preview matches Some(diff) ==> m[n - 7] == (
                "diff_preview"@,
                JsonView::Text(diff@),
            )
            &&& m[n - 6] == ("effect"@, JsonView::Text(request.effect.wire()))
            &&& m[n - 5] == ("kind"@, JsonView::Text("approval_requested"@))
            &&& m[n - 4] == ("reason"@, JsonView::Text(request.reason@))
            &&& m[n - 3] == ("run_id"@, JsonView::Text(request.run_id@))
            &&& m[n - 2] == ("tool_call_id"@, JsonView::Text(request.call_id@))
            &&& m[n - 1] == ("tool_name"@, JsonView::Text(request.tool_name@))
        }),
{
    let m = approval_event(request)->Object_0;
    let n = m.len() as int;
    assert(m[n - 6] == ("effect"@, JsonView::Text(request.effect.wire())));
    assert(m[n - 5] == ("kind"@, JsonView::Text("approval_requested"@)));
    assert(m[n - 4] == ("reason"@, JsonView::Text(request.reason@)));
    assert(m[n - 3] == ("run_id"@, JsonView::Text(request.run_id@)));
    assert(m[n - 2] == ("tool_call_id"@, JsonView::Text(request.call_id@)));
    assert(m[n - 1] == ("tool_name"@, JsonView::Text(request.tool_name@)));
    if request.approval_preview is Some {
        assert(m[0] == ("approval_preview"@, JsonView::Text(request.approval_preview->Some_0@)));
    }
    if request.diff_preview is Some {
        assert(m[n - 7] == ("diff_preview"@, JsonView::Text(request.diff_preview->Some_0@)));
    }
}

/// A run that waits for an approval goes on waiting as long as there is no decision and it is not
/// canceled; a canceled run is refused whatever was decided. Asking changes nothing else of the run.
pub proof fn law_waiting_runs_wait(record: RecordView, call_id: Seq<char>)
    ensures
        ({
            let (after, given) = polled(record, call_id);
            let decided = table::lookup(record.approvals, call_id);
            &&& !record.cancel && !(decided matches Some(Some(_))) ==> given is None && after
                == record
            &&& record.cancel ==> given == Some(OutcomeView::Denied { reason: "run canceled"@ })
            &&& !record.cancel ==> (decided matches Some(Some(outcome)) ==> given == Some(outcome))
            &&& after.run_id == record.run_id && after.session_id == record.session_id
                && after.status == record.status && after.events == record.events && after.cancel
                == record.cancel
        }),
{
}

/// A run that is new is under way, holds no events and waits for nothing.
pub proof fn law_new_runs_are_running(
    run_id: Seq<char>,
    session_id: Seq<char>,
    ledger_path: Seq<char>,
)
    ensures
        ({
            let record = fresh_record(run_id, session_id, ledger_path);
            &&& record.run_id == run_id && record.session_id == session_id && record.ledger_path
                == ledger_path
            &&& record.status.state == RunStateName::Running && record.status.final_answer is None
                && record.status.error is None
            &&& !record.cancel && record.events.events.len() == 0 && record.events.first_offset
                == record.events.next_offset && record.approvals.len() == 0
        }),
{
}

} // verus!

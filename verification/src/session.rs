//! The run of a session: how it is begun, and how it is closed in every case.
use crate::app;
use crate::app::{hydrated_messages, RunSession};
use crate::config::Config;
use crate::daemon::protocol::RunStateName;
use crate::error::{AppError, AppResult};
use crate::ledger;
use crate::ledger::{LedgerView, SessionTurn, SqliteLedger};
use crate::model;
use crate::model::{MessageView, ModelMessage};
use crate::text;
use crate::tool_catalog;
use crate::tool_catalog::{ToolSpec, ToolSpecView};
use vstd::prelude::*;

verus! {

/// What is noted of a run that was left before it was closed.
pub const LEFT_OPEN: &'static str = "run ended before session status was closed";

/// A run of a session that was begun.
#[derive(Debug, PartialEq, Eq)]
pub struct ActiveSessionRun {
    pub run_id: String,
    pub closed: bool,
}

/// Whether a run of a session starts with messages: as many of the session's latest turns as fit the
/// budget, a mark for those that were left out, and the question.
pub open spec fn starts_with(
    messages: Seq<MessageView>,
    told: Seq<(Seq<char>, Seq<char>)>,
    question: Seq<char>,
    budget: u32,
    tools: Seq<ToolSpecView>,
) -> bool {
    exists|turns: Seq<SessionTurn>|
        {
            let first = app::first_kept(turns, question, budget, tools, 0);
            &&& #[trigger] ledger::turn_views(turns) == told
            &&& messages == app::session_messages(turns.skip(first as int), question, first > 0)
        }
}

/// How a run is closed: the tables once it is, or why it could not be.
pub open spec fn closing(
    tables: LedgerView,
    run_id: Seq<char>,
    status: RunStateName,
    final_answer: Option<Seq<char>>,
    error: Option<Seq<char>>,
    now: u64,
) -> Option<LedgerView> {
    if now <= ledger::MAX_SQLITE_INTEGER && ledger::has_run(tables.runs, run_id) {
        Some(ledger::updated(tables, run_id, status, final_answer, error, now))
    } else {
        None
    }
}

/// Whether an answer tells why a run could not be closed.
pub open spec fn closing_error_is(r: AppResult<()>, run_id: Seq<char>, now: u64) -> bool {
    if now > ledger::MAX_SQLITE_INTEGER {
        r matches Err(AppError::Config(message)) && message@ == ledger::too_large(
            "occurred_at_ms"@,
            now as nat,
        )
    } else {
        r matches Err(AppError::RunNotFound(name)) && name@ == run_id
    }
}

impl ActiveSessionRun {
    /// Begins a run of a session; with it come the messages that it starts with.
    pub fn begin(
        tables: &mut SqliteLedger,
        now: u64,
        session: &RunSession,
        run_id: &str,
        question: &str,
        config: &Config,
        tools: &Vec<ToolSpec>,
    ) -> (r: AppResult<(ActiveSessionRun, Vec<ModelMessage>)>)
        requires
            old(tables).wf(),
        ensures
            final(tables).wf(),
            match ledger::begin_error(
                old(tables)@,
                now,
                session.id(),
                run_id@,
                *session is Fresh,
            ) {
                Some(due) => (r matches Err(error) && ledger::begin_error_is(
                    error,
                    due,
                    now,
                    session.id(),
                    ledger::next_index(ledger::runs_of(old(tables)@.runs, session.id())),
                )) && final(tables)@ == old(tables)@,
                None => (r matches Ok((active, messages)) && active.run_id@ == run_id@
                    && !active.closed && starts_with(
                    model::message_views(messages@),
                    ledger::turns_of(ledger::runs_of(old(tables)@.runs, session.id())),
                    question@,
                    config.limits.token_budget,
                    tool_catalog::spec_views(tools@),
                )) && final(tables)@ == ledger::begun(
                    old(tables)@,
                    now,
                    session.id(),
                    run_id@,
                    question@,
                ),
            },
    {
        match tables.begin_session_run(
            now,
            session.session_id(),
            run_id,
            question,
            session.create_session(),
        ) {
            Ok(turns) => {
                let messages = hydrated_messages(&turns, question, config, tools);
                assert(starts_with(
                    model::message_views(messages@),
                    ledger::turn_views(turns@),
                    question@,
                    config.limits.token_budget,
                    tool_catalog::spec_views(tools@),
                ));
                Ok((ActiveSessionRun { run_id: run_id.to_owned(), closed: false }, messages))
            },
            Err(error) => Err(error),
        }
    }

    /// Closes the run with its answer.
    pub fn finish(&mut self, tables: &mut SqliteLedger, now: u64, final_answer: &str) -> (r:
        AppResult<()>)
        requires
            old(tables).wf(),
        ensures
            final(tables).wf(),
            final(self).run_id == old(self).run_id,
            match closing(
                old(tables)@,
                old(self).run_id@,
                RunStateName::Finished,
                Some(final_answer@),
                None,
                now,
            ) {
                Some(after) => r is Ok && final(tables)@ == after && final(self).closed,
                None => closing_error_is(r, old(self).run_id@, now) && final(tables)@ == old(
                    tables,
                )@ && final(self).closed == old(self).closed,
            },
    {
        match tables.finish_session_run(now, self.run_id.as_str(), final_answer) {
            Ok(_) => {
                self.closed = true;
                Ok(())
            },
            Err(error) => Err(error),
        }
    }

    /// Closes the run as one that failed, or was canceled.
    pub fn fail(&mut self, tables: &mut SqliteLedger, now: u64, error: &str, canceled: bool) -> (r:
        AppResult<()>)
        requires
            old(tables).wf(),
        ensures
            final(tables).wf(),
            final(self).run_id == old(self).run_id,
            match closing(
                old(tables)@,
                old(self).run_id@,
                if canceled {
                    RunStateName::Canceled
                } else {
                    RunStateName::Failed
                },
                None,
                Some(error@),
                now,
            ) {
                Some(after) => r is Ok && final(tables)@ == after && final(self).closed,
                None => closing_error_is(r, old(self).run_id@, now) && final(tables)@ == old(
                    tables,
                )@ && final(self).closed == old(self).closed,
            },
    {
        match tables.fail_session_run(now, self.run_id.as_str(), error, canceled) {
            Ok(_) => {
                self.closed = true;
                Ok(())
            },
            Err(error) => Err(error),
        }
    }

    /// Lets go of the run: one that was not closed is closed as failed, if it can be.
    pub fn leave(self, tables: &mut SqliteLedger, now: u64)
        requires
            old(tables).wf(),
        ensures
            final(tables).wf(),
            final(tables)@ == if self.closed {
                old(tables)@
            } else {
                match closing(
                    old(tables)@,
                    self.run_id@,
                    RunStateName::Failed,
                    None,
                    Some(LEFT_OPEN@),
                    now,
                ) {
                    Some(after) => after,
                    None => old(tables)@,
                }
            },
    {
        if !self.closed {
            let _ = tables.fail_session_run(now, self.run_id.as_str(), LEFT_OPEN, false);
        }
    }
}

/// A run that was closed, in whatever way, is no longer under way, so that its session can be gone on
/// with.
pub proof fn law_closed_runs_are_over(
    tables: LedgerView,
    run_id: Seq<char>,
    status: RunStateName,
    final_answer: Option<Seq<char>>,
    error: Option<Seq<char>>,
    now: u64,
)
    requires
        status != RunStateName::Running,
        closing(tables, run_id, status, final_answer, error, now) is Some,
    ensures
        ({
            let after = closing(tables, run_id, status, final_answer, error, now)->Some_0;
            &&& after.runs.len() == tables.runs.len()
            &&& forall|i: int|
                0 <= i < after.runs.len() && (#[trigger] after.runs[i]).run_id == run_id
                    ==> after.runs[i].status == status
            &&& forall|i: int|
                0 <= i < after.runs.len() && (#[trigger] after.runs[i]).run_id != run_id
                    ==> after.runs[i] == tables.runs[i]
        }),
{
}

} // verus!

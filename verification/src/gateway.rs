//! What the chat gateways have in common: the token they run with, the daemon they speak to, how they
//! wait for a run, and how an answer is cut into messages.
use crate::daemon::messages;
use crate::daemon::messages::{
    EventsStreamResult, HelloResult, PageView, SessionSummary, SummaryView,
};
use crate::daemon::protocol::RunStateName;
use crate::daemon::transcript::TranscriptReadResult;
use crate::error;
use crate::error::{AppError, AppResult};
use crate::table;
use crate::text;
use vstd::prelude::*;

verus! {

/// How many events a gateway asks for at a time.
pub const EVENT_PAGE_LIMIT: u64 = 64;

/// How long a gateway waits after a page without events, in milliseconds.
pub const EVENT_POLL_DELAY: u64 = 100;

/// How often a gateway tries to reach the daemon again.
pub const RECONNECT_ATTEMPTS: u32 = 40;

/// How long a gateway waits before it tries again, in milliseconds.
pub const RECONNECT_DELAY: u64 = 50;

/// An environment variable that is set; it has no value where that is no Unicode.
#[derive(Debug, PartialEq, Eq)]
pub struct EnvVar {
    pub name: String,
    pub value: Option<String>,
}

/// What an environment stands for.
pub open spec fn env_rows(env: Seq<EnvVar>) -> Seq<(Seq<char>, Option<Seq<char>>)> {
    Seq::new(env.len(), |i: int| (env[i].name@, text::opt_view(env[i].value)))
}

fn env_value(env: &Vec<EnvVar>, name: &str) -> (r: Option<Option<String>>)
    ensures
        (match r {
            Some(value) => Some(text::opt_view(value)),
            None => None,
        }) == table::lookup(env_rows(env@), name@),
{
    let ghost rows = env_rows(env@);
    let mut i: usize = 0;
    while i < env.len()
        invariant
            0 <= i <= env@.len(),
            rows == env_rows(env@),
            forall|j: int| 0 <= j < i ==> (#[trigger] rows[j]).0 != name@,
        decreases env@.len() - i,
    {
        if text::same_text(env[i].name.as_str(), name) {
            proof {
                table::lemma_position(rows, name@, i as int);
            }
            return Some(text::copy_option(&env[i].value));
        }
        assert(rows[i as int].0 != name@);
        i += 1;
    }
    proof {
        table::lemma_position(rows, name@, rows.len() as int);
    }
    None
}

/// What a gateway says of a provider's credential that is set.
pub open spec fn refusal(name: Seq<char>) -> Seq<char> {
    "gateway refuses provider credential env var "@ + name
}

/// The token of a gateway, or what is wrong: a token variable that is a provider's, a provider's
/// credential that is set, or a token that is not set, no Unicode, or empty.
pub open spec fn token_in(
    provider_env: Seq<char>,
    token_env: Seq<char>,
    env: Seq<(Seq<char>, Option<Seq<char>>)>,
) -> Result<Seq<char>, Seq<char>> {
    if token_env == provider_env || token_env == "OPENAI_API_KEY"@ || token_env
        == "OPENROUTER_API_KEY"@ {
        Err("gateway token env var must differ from provider credential env vars"@)
    } else if table::lookup(env, provider_env) is Some {
        Err(refusal(provider_env))
    } else if table::lookup(env, "OPENAI_API_KEY"@) is Some {
        Err(refusal("OPENAI_API_KEY"@))
    } else if table::lookup(env, "OPENROUTER_API_KEY"@) is Some {
        Err(refusal("OPENROUTER_API_KEY"@))
    } else {
        match table::lookup(env, token_env) {
            None => Err("gateway token env var "@ + token_env + " is not set"@),
            Some(None) => Err("gateway token is not valid UTF-8"@),
            Some(Some(token)) => if token.len() == 0 {
                Err("gateway token must not be empty"@)
            } else {
                Ok(token)
            },
        }
    }
}

/// Whether a result is a token, or an error of the configuration, as it should be.
pub open spec fn token_is(result: AppResult<String>, wanted: Result<Seq<char>, Seq<char>>) -> bool {
    match wanted {
        Ok(token) => result matches Ok(given) && given@ == token,
        Err(message) => result matches Err(AppError::Config(detail)) && detail@ == message,
    }
}

/// The token that a gateway runs with. A gateway does not run where a provider's credential is set.
pub fn gateway_token(provider_env: &str, token_env: &str, env: &Vec<EnvVar>) -> (r: AppResult<
    String,
>)
    ensures
        token_is(r, token_in(provider_env@, token_env@, env_rows(env@))),
{
    if text::same_text(token_env, provider_env) || text::same_text(token_env, "OPENAI_API_KEY")
        || text::same_text(token_env, "OPENROUTER_API_KEY") {
        return Err(
            AppError::Config(
                "gateway token env var must differ from provider credential env vars".to_owned(),
            ),
        );
    }
    if env_value(env, provider_env).is_some() {
        return Err(refuse(provider_env));
    }
    if env_value(env, "OPENAI_API_KEY").is_some() {
        return Err(refuse("OPENAI_API_KEY"));
    }
    if env_value(env, "OPENROUTER_API_KEY").is_some() {
        return Err(refuse("OPENROUTER_API_KEY"));
    }
    match env_value(env, token_env) {
        None => Err(
            AppError::Config(text::text3("gateway token env var ", token_env, " is not set")),
        ),
        Some(None) => Err(AppError::Config("gateway token is not valid UTF-8".to_owned())),
        Some(Some(token)) => if token.as_str().unicode_len() == 0 {
            Err(AppError::Config("gateway token must not be empty".to_owned()))
        } else {
            Ok(token)
        },
    }
}

fn refuse(name: &str) -> (r: AppError)
    ensures
        r matches AppError::Config(detail) && detail@ == refusal(name@),
{
    AppError::Config(text::text2("gateway refuses provider credential env var ", name))
}

/// A gateway does not run where a credential of a provider is set.
pub proof fn law_gateways_hold_no_provider_credential(
    provider_env: Seq<char>,
    token_env: Seq<char>,
    env: Seq<(Seq<char>, Option<Seq<char>>)>,
    name: Seq<char>,
)
    requires
        name == provider_env || name == "OPENAI_API_KEY"@ || name == "OPENROUTER_API_KEY"@,
        table::lookup(env, name) is Some,
    ensures
        token_in(provider_env, token_env, env) is Err,
{
}

/// What is wrong with an environment is said without any value in it: two environments in which the
/// same variables are set, to what is Unicode alike and empty alike, are refused in the same words.
pub proof fn law_refusals_tell_no_value(
    provider_env: Seq<char>,
    token_env: Seq<char>,
    first: Seq<(Seq<char>, Option<Seq<char>>)>,
    second: Seq<(Seq<char>, Option<Seq<char>>)>,
)
    requires
        first.len() == second.len(),
        forall|i: int|
            0 <= i < first.len() ==> {
                &&& (#[trigger] first[i]).0 == second[i].0
                &&& (first[i].1 is Some <==> second[i].1 is Some)
                &&& (first[i].1 is Some ==> (first[i].1->Some_0.len() == 0
                    <==> second[i].1->Some_0.len() == 0))
            },
        token_in(provider_env, token_env, first) is Err,
    ensures
        token_in(provider_env, token_env, second) == token_in(provider_env, token_env, first),
{
    lemma_same_positions(first, second, provider_env);
    lemma_same_positions(first, second, "OPENAI_API_KEY"@);
    lemma_same_positions(first, second, "OPENROUTER_API_KEY"@);
    lemma_same_positions(first, second, token_env);
    table::lemma_position_bounds(first, token_env);
}

proof fn lemma_same_positions(
    first: Seq<(Seq<char>, Option<Seq<char>>)>,
    second: Seq<(Seq<char>, Option<Seq<char>>)>,
    key: Seq<char>,
)
    requires
        first.len() == second.len(),
        forall|i: int| 0 <= i < first.len() ==> (#[trigger] first[i]).0 == second[i].0,
    ensures
        table::position(first, key) == table::position(second, key),
    decreases first.len(),
{
    if first.len() > 0 {
        assert(first[0].0 == second[0].0);
        let a = first.drop_first();
        let b = second.drop_first();
        assert forall|i: int| 0 <= i < a.len() implies (#[trigger] a[i]).0 == b[i].0 by {
            assert(a[i] == first[i + 1] && b[i] == second[i + 1]);
        }
        lemma_same_positions(a, b, key);
    }
}

/// The first of the required capabilities that is not among those that are there.
pub open spec fn missing_capability(there: Seq<Seq<char>>, required: Seq<Seq<char>>) -> Option<
    Seq<char>,
>
    decreases required.len(),
{
    if required.len() == 0 {
        None
    } else if !there.contains(required[0]) {
        Some(required[0])
    } else {
        missing_capability(there, required.skip(1))
    }
}

/// What names stand for.
pub open spec fn name_views(names: Seq<&'static str>) -> Seq<Seq<char>> {
    Seq::new(names.len(), |i: int| names[i]@)
}

/// Asks that a daemon can do all that a gateway needs.
pub fn require_capabilities(hello: &HelloResult, required: &Vec<&'static str>) -> (r: AppResult<()>)
    ensures
        match missing_capability(text::views(hello.capabilities@), name_views(required@)) {
            None => r is Ok,
            Some(name) => r matches Err(AppError::DaemonProtocol(detail)) && detail@
                == "daemon does not advertise required capability "@ + name,
        },
{
    let ghost there = text::views(hello.capabilities@);
    let ghost all = name_views(required@);
    assert(all.skip(0) =~= all);
    let mut i: usize = 0;
    while i < required.len()
        invariant
            0 <= i <= required@.len(),
            there == text::views(hello.capabilities@),
            all == name_views(required@),
            missing_capability(there, all) == missing_capability(there, all.skip(i as int)),
        decreases required@.len() - i,
    {
        let name = required[i];
        assert(all.skip(i as int)[0] == name@);
        assert(all.skip(i as int).skip(1) =~= all.skip(i + 1));
        if !text::contains(&hello.capabilities, name) {
            assert(!there.contains(name@)) by {
                if there.contains(name@) {
                    let k = choose|k: int| 0 <= k < there.len() && there[k] == name@;
                    assert(hello.capabilities@[k]@ == name@);
                }
            }
            return Err(
                AppError::DaemonProtocol(
                    text::text2("daemon does not advertise required capability ", name),
                ),
            );
        }
        assert(there.contains(name@)) by {
            let k = choose|k: int|
                0 <= k < hello.capabilities@.len() && (#[trigger] hello.capabilities@[k])@ == name@;
            assert(there[k] == name@);
        }
        i += 1;
    }
    assert(all.skip(all.len() as int).len() == 0);
    Ok(())
}

/// Whether an error may pass once the daemon is reached again.
pub open spec fn may_pass(error: AppError) -> bool {
    match error {
        AppError::Io(_) => true,
        AppError::Json(_) => true,
        AppError::DaemonProtocol(_) => true,
        AppError::DaemonResponse(refusal) => refusal.code@ == "not_found"@,
        _ => false,
    }
}

/// Whether an error may pass once the daemon is reached again.
pub fn reconnectable(error: &AppError) -> (r: bool)
    ensures
        r == may_pass(*error),
{
    match error {
        AppError::Io(_) => true,
        AppError::Json(_) => true,
        AppError::DaemonProtocol(_) => true,
        AppError::DaemonResponse(refusal) => text::same_text(refusal.code.as_str(), "not_found"),
        _ => false,
    }
}

/// Whether the daemon no longer has the events that were asked for.
pub open spec fn is_lag(error: AppError) -> bool {
    error matches AppError::DaemonResponse(refusal) && refusal.code@ == "lagged"@
}

fn lagged(error: &AppError) -> (r: bool)
    ensures
        r == is_lag(*error),
{
    match error {
        AppError::DaemonResponse(refusal) => text::same_text(refusal.code.as_str(), "lagged"),
        _ => false,
    }
}

/// The answer of a run that has ended, or the words for one that has none.
pub open spec fn answer_of(
    run_id: Seq<char>,
    status: RunStateName,
    final_answer: Option<Seq<char>>,
) -> Result<Seq<char>, Seq<char>> {
    match final_answer {
        Some(answer) => Ok(answer),
        None => Err("run did not finish: "@ + no_answer(run_id, status)),
    }
}

/// What is said of a run that ended without an answer.
pub open spec fn no_answer(run_id: Seq<char>, status: RunStateName) -> Seq<char> {
    "run "@ + run_id + " ended with status "@ + status.wire() + " without a final answer"@
}

/// What a result stands for: an answer, or an error in words.
pub open spec fn outcome(result: AppResult<String>) -> Result<Seq<char>, Seq<char>> {
    match result {
        Ok(answer) => Ok(answer@),
        Err(error) => Err(error::app_message(error)),
    }
}

/// The answer of a run that has ended.
pub fn terminal_answer(transcript: TranscriptReadResult) -> (r: AppResult<String>)
    ensures
        outcome(r) == answer_of(
            transcript.run_id@,
            transcript.status,
            text::opt_view(transcript.final_answer),
        ),
        r matches Err(error) ==> (error matches AppError::RunFailed(detail) && detail@
            == no_answer(transcript.run_id@, transcript.status)),
{
    match transcript.final_answer {
        Some(answer) => Ok(answer),
        None => {
            let mut detail = text::text4(
                "run ",
                transcript.run_id.as_str(),
                " ended with status ",
                transcript.status.as_str(),
            );
            detail.append(" without a final answer");
            Err(AppError::RunFailed(detail))
        },
    }
}

/// Where a gateway stands in waiting for a run.
#[derive(Clone, Copy, Debug, PartialEq, Eq, Structural)]
pub enum WatchStage {
    /// It reads events.
    Events,
    /// It seeks the daemon, and then reads the sessions, or the transcript.
    Reconnect { attempts_left: u32, for_transcript: bool },
    /// It reads the sessions.
    Sessions,
    /// It reads the transcript, for the first time or again.
    Transcript { again: bool },
}

/// A gateway that waits for a run.
#[derive(Debug, PartialEq, Eq)]
pub struct RunWatch {
    pub session_id: String,
    pub next_offset: Option<u64>,
    pub stage: WatchStage,
}

/// What a gateway that waits for a run stands for.
pub struct WatchView {
    pub session_id: Seq<char>,
    pub next_offset: Option<u64>,
    pub stage: WatchStage,
}

/// What the daemon did.
#[derive(Debug, PartialEq, Eq)]
pub enum WatchEvent {
    Events(AppResult<EventsStreamResult>),
    Connected(AppResult<()>),
    Sessions(AppResult<Vec<SessionSummary>>),
    Transcript(AppResult<TranscriptReadResult>),
}

/// What the daemon's doing stands for.
pub enum WatchEventView {
    Events(Result<PageView, AppError>),
    Connected(Result<(), AppError>),
    Sessions(Result<Seq<SummaryView>, AppError>),
    Transcript(Result<(Seq<char>, RunStateName, Option<Seq<char>>), AppError>),
}

impl WatchEvent {
    /// The doing that `self` stands for.
    pub open spec fn view(&self) -> WatchEventView {
        match self {
            WatchEvent::Events(Ok(page)) => WatchEventView::Events(Ok(page@)),
            WatchEvent::Events(Err(error)) => WatchEventView::Events(Err(*error)),
            WatchEvent::Connected(Ok(_)) => WatchEventView::Connected(Ok(())),
            WatchEvent::Connected(Err(error)) => WatchEventView::Connected(Err(*error)),
            WatchEvent::Sessions(Ok(sessions)) => WatchEventView::Sessions(
                Ok(messages::summary_views(sessions@)),
            ),
            WatchEvent::Sessions(Err(error)) => WatchEventView::Sessions(Err(*error)),
            WatchEvent::Transcript(Ok(transcript)) => WatchEventView::Transcript(
                Ok(
                    (
                        transcript.run_id@,
                        transcript.status,
                        text::opt_view(transcript.final_answer),
                    ),
                ),
            ),
            WatchEvent::Transcript(Err(error)) => WatchEventView::Transcript(Err(*error)),
        }
    }
}

/// What a gateway that waits for a run does next.
#[derive(Debug, PartialEq, Eq)]
pub enum WatchAction {
    /// It asks for events, at once or after a while.
    AskEvents { from_offset: Option<u64>, pause: bool },
    /// It seeks the daemon, at once or after a while.
    Connect { pause: bool },
    ListSessions,
    ReadTranscript,
    Finish(AppResult<String>),
}

/// What the next thing to do stands for.
pub enum ActionView {
    AskEvents { from_offset: Option<u64>, pause: bool },
    Connect { pause: bool },
    ListSessions,
    ReadTranscript,
    Finish(Result<Seq<char>, Seq<char>>),
}

impl WatchAction {
    /// The next thing that `self` stands for.
    pub open spec fn view(&self) -> ActionView {
        match self {
            WatchAction::AskEvents { from_offset, pause } => ActionView::AskEvents {
                from_offset: *from_offset,
                pause: *pause,
            },
            WatchAction::Connect { pause } => ActionView::Connect { pause: *pause },
            WatchAction::ListSessions => ActionView::ListSessions,
            WatchAction::ReadTranscript => ActionView::ReadTranscript,
            WatchAction::Finish(result) => ActionView::Finish(outcome(*result)),
        }
    }
}

/// Whether a doing of the daemon is one that is waited for.
pub open spec fn expected(stage: WatchStage, event: WatchEventView) -> bool {
    match stage {
        WatchStage::Events => event is Events,
        WatchStage::Reconnect { .. } => event is Connected,
        WatchStage::Sessions => event is Sessions,
        WatchStage::Transcript { .. } => event is Transcript,
    }
}

/// The session that goes by `session_id`.
pub open spec fn session_named(sessions: Seq<SummaryView>, session_id: Seq<char>) -> Option<
    SummaryView,
>
    decreases sessions.len(),
{
    if sessions.len() == 0 {
        None
    } else if sessions[0].session_id == session_id {
        Some(sessions[0])
    } else {
        session_named(sessions.skip(1), session_id)
    }
}

/// What follows on events: they are read on, from the tip where the daemon has dropped some; the
/// daemon is sought where it is gone; and the transcript is read where the run has ended.
pub open spec fn after_events(watch: WatchView, answer: Result<PageView, AppError>) -> (
    WatchView,
    ActionView,
) {
    match answer {
        Ok(page) => {
            let watch = WatchView { next_offset: Some(page.next_offset), ..watch };
            if page.status != RunStateName::Running {
                (
                    WatchView { stage: WatchStage::Transcript { again: false }, ..watch },
                    ActionView::ReadTranscript,
                )
            } else {
                (
                    watch,
                    ActionView::AskEvents {
                        from_offset: Some(page.next_offset),
                        pause: page.events.len() == 0,
                    },
                )
            }
        },
        Err(error) => if is_lag(error) {
            (
                WatchView { next_offset: None, ..watch },
                ActionView::AskEvents { from_offset: None, pause: false },
            )
        } else if may_pass(error) {
            (seeking(watch, false), ActionView::Connect { pause: false })
        } else {
            (watch, ActionView::Finish(Err(error::app_message(error))))
        },
    }
}

/// A gateway that starts to seek the daemon.
pub open spec fn seeking(watch: WatchView, for_transcript: bool) -> WatchView {
    WatchView {
        stage: WatchStage::Reconnect { attempts_left: RECONNECT_ATTEMPTS, for_transcript },
        ..watch
    }
}

/// What follows on an attempt to reach the daemon: after too many there is no other.
pub open spec fn after_connect(watch: WatchView, answer: Result<(), AppError>) -> (
    WatchView,
    ActionView,
) {
    let left = watch.stage->Reconnect_attempts_left;
    let for_transcript = watch.stage->Reconnect_for_transcript;
    match answer {
        Ok(_) => if for_transcript {
            (
                WatchView { stage: WatchStage::Transcript { again: true }, ..watch },
                ActionView::ReadTranscript,
            )
        } else {
            (WatchView { stage: WatchStage::Sessions, ..watch }, ActionView::ListSessions)
        },
        Err(error) => if !may_pass(error) {
            (watch, ActionView::Finish(Err(error::app_message(error))))
        } else if left <= 1 {
            (
                watch,
                ActionView::Finish(
                    Err("daemon protocol error: daemon unavailable during gateway recovery"@),
                ),
            )
        } else {
            (
                WatchView {
                    stage: WatchStage::Reconnect {
                        attempts_left: (left - 1) as u32,
                        for_transcript,
                    },
                    ..watch
                },
                ActionView::Connect { pause: true },
            )
        },
    }
}

/// What follows on the sessions of a daemon that was reached again.
pub open spec fn after_sessions(watch: WatchView, answer: Result<Seq<SummaryView>, AppError>) -> (
    WatchView,
    ActionView,
) {
    match answer {
        Err(error) => (watch, ActionView::Finish(Err(error::app_message(error)))),
        Ok(sessions) => match session_named(sessions, watch.session_id) {
            None => (
                watch,
                ActionView::Finish(
                    Err("session not found in sqlite ledger: "@ + watch.session_id),
                ),
            ),
            Some(session) => if session.status != RunStateName::Running {
                (
                    WatchView { stage: WatchStage::Transcript { again: false }, ..watch },
                    ActionView::ReadTranscript,
                )
            } else {
                (
                    WatchView { stage: WatchStage::Events, next_offset: None, ..watch },
                    ActionView::AskEvents { from_offset: None, pause: false },
                )
            },
        },
    }
}

/// What follows on the transcript: the answer, or one more attempt.
pub open spec fn after_transcript(
    watch: WatchView,
    answer: Result<(Seq<char>, RunStateName, Option<Seq<char>>), AppError>,
) -> (WatchView, ActionView) {
    match answer {
        Ok((run_id, status, final_answer)) => (
            watch,
            ActionView::Finish(answer_of(run_id, status, final_answer)),
        ),
        Err(error) => if watch.stage == (WatchStage::Transcript { again: false }) && may_pass(
            error,
        ) {
            (seeking(watch, true), ActionView::Connect { pause: false })
        } else {
            (watch, ActionView::Finish(Err(error::app_message(error))))
        },
    }
}

/// What follows on a doing of the daemon.
pub open spec fn watch_step(watch: WatchView, event: WatchEventView) -> (WatchView, ActionView) {
    match event {
        WatchEventView::Events(answer) => after_events(watch, answer),
        WatchEventView::Connected(answer) => after_connect(watch, answer),
        WatchEventView::Sessions(answer) => after_sessions(watch, answer),
        WatchEventView::Transcript(answer) => after_transcript(watch, answer),
    }
}

/// Whether waiting ends with the error that it should. One that was handed in is handed on as it is.
/// Waiting has three of its own: the daemon stays away, it does not know the session, or the run has
/// no answer.
pub open spec fn ends_with(error: AppError, watch: WatchView, event: WatchEventView) -> bool {
    match event {
        WatchEventView::Events(Err(given)) => error == given,
        WatchEventView::Events(Ok(_)) => false,
        WatchEventView::Connected(Err(given)) => if may_pass(given) {
            error matches AppError::DaemonProtocol(detail) && detail@
                == "daemon unavailable during gateway recovery"@
        } else {
            error == given
        },
        WatchEventView::Connected(Ok(_)) => false,
        WatchEventView::Sessions(Err(given)) => error == given,
        WatchEventView::Sessions(Ok(_)) => error matches AppError::SessionNotFound(name) && name@
            == watch.session_id,
        WatchEventView::Transcript(Err(given)) => error == given,
        WatchEventView::Transcript(Ok((run_id, status, _))) => error matches AppError::RunFailed(
            detail,
        ) && detail@ == no_answer(run_id, status),
    }
}

impl RunWatch {
    /// The waiting that `self` stands for.
    pub open spec fn view(&self) -> WatchView {
        WatchView {
            session_id: self.session_id@,
            next_offset: self.next_offset,
            stage: self.stage,
        }
    }

    /// A gateway that starts to wait for a run of the session. It first asks for events from the
    /// start.
    pub fn new(session_id: &str) -> (r: RunWatch)
        ensures
            r@ == (WatchView {
                session_id: session_id@,
                next_offset: Some(0),
                stage: WatchStage::Events,
            }),
    {
        RunWatch {
            session_id: session_id.to_owned(),
            next_offset: Some(0),
            stage: WatchStage::Events,
        }
    }

    fn seek(&mut self, for_transcript: bool) -> (r: WatchAction)
        ensures
            (final(self)@, r@) == (
                seeking(old(self)@, for_transcript),
                (ActionView::Connect { pause: false }),
            ),
    {
        self.stage =
        WatchStage::Reconnect { attempts_left: RECONNECT_ATTEMPTS, for_transcript };
        WatchAction::Connect { pause: false }
    }

    fn take_events(&mut self, answer: AppResult<EventsStreamResult>) -> (r: WatchAction)
        ensures
            (final(self)@, r@) == after_events(
                old(self)@,
                match answer {
                    Ok(page) => Ok(page@),
                    Err(error) => Err(error),
                },
            ),
            r matches WatchAction::Finish(Err(error)) ==> answer == Err::<
                EventsStreamResult,
                AppError,
            >(error),
    {
        match answer {
            Ok(page) => {
                self.next_offset = Some(page.next_offset);
                assert(page@.events.len() == page.events@.len());
                if page.status != RunStateName::Running {
                    self.stage = WatchStage::Transcript { again: false };
                    WatchAction::ReadTranscript
                } else {
                    WatchAction::AskEvents {
                        from_offset: Some(page.next_offset),
                        pause: page.events.len() == 0,
                    }
                }
            },
            Err(error) => if lagged(&error) {
                self.next_offset = None;
                WatchAction::AskEvents { from_offset: None, pause: false }
            } else if reconnectable(&error) {
                self.seek(false)
            } else {
                WatchAction::Finish(Err(error))
            },
        }
    }

    fn take_connection(&mut self, answer: AppResult<()>) -> (r: WatchAction)
        requires
            old(self).stage is Reconnect,
        ensures
            (final(self)@, r@) == after_connect(old(self)@, answer),
            r matches WatchAction::Finish(Err(error)) ==> ends_with(
                error,
                old(self)@,
                WatchEventView::Connected(answer),
            ),
    {
        if let WatchStage::Reconnect { attempts_left, for_transcript } = self.stage {
            match answer {
                Ok(_) => if for_transcript {
                    self.stage = WatchStage::Transcript { again: true };
                    WatchAction::ReadTranscript
                } else {
                    self.stage = WatchStage::Sessions;
                    WatchAction::ListSessions
                },
                Err(error) => if !reconnectable(&error) {
                    WatchAction::Finish(Err(error))
                } else if attempts_left <= 1 {
                    let detail = "daemon unavailable during gateway recovery";
                    assert("daemon protocol error: "@ + detail@
                        =~= "daemon protocol error: daemon unavailable during gateway recovery"@)
                        by {
                        reveal_strlit("daemon protocol error: ");
                        reveal_strlit("daemon unavailable during gateway recovery");
                        reveal_strlit(
                            "daemon protocol error: daemon unavailable during gateway recovery",
                        );
                    }
                    WatchAction::Finish(Err(AppError::DaemonProtocol(detail.to_owned())))
                } else {
                    self.stage =
                    WatchStage::Reconnect { attempts_left: attempts_left - 1, for_transcript };
                    WatchAction::Connect { pause: true }
                },
            }
        } else {
            WatchAction::ListSessions
        }
    }

    fn take_sessions(&mut self, answer: AppResult<Vec<SessionSummary>>) -> (r: WatchAction)
        ensures
            (final(self)@, r@) == after_sessions(
                old(self)@,
                match answer {
                    Ok(sessions) => Ok(messages::summary_views(sessions@)),
                    Err(error) => Err(error),
                },
            ),
            r matches WatchAction::Finish(Err(error)) ==> match answer {
                Ok(_) => error matches AppError::SessionNotFound(name) && name@
                    == old(self)@.session_id,
                Err(given) => error == given,
            },
    {
        match answer {
            Err(error) => WatchAction::Finish(Err(error)),
            Ok(sessions) => match find_session(&sessions, self.session_id.as_str()) {
                None => WatchAction::Finish(
                    Err(AppError::SessionNotFound(self.session_id.clone())),
                ),
                Some(status) => if status != RunStateName::Running {
                    self.stage = WatchStage::Transcript { again: false };
                    WatchAction::ReadTranscript
                } else {
                    self.stage = WatchStage::Events;
                    self.next_offset = None;
                    WatchAction::AskEvents { from_offset: None, pause: false }
                },
            },
        }
    }

    fn take_transcript(&mut self, answer: AppResult<TranscriptReadResult>) -> (r: WatchAction)
        ensures
            (final(self)@, r@) == after_transcript(
                old(self)@,
                match answer {
                    Ok(transcript) => Ok(
                        (
                            transcript.run_id@,
                            transcript.status,
                            text::opt_view(transcript.final_answer),
                        ),
                    ),
                    Err(error) => Err(error),
                },
            ),
            r matches WatchAction::Finish(Err(error)) ==> match answer {
                Ok(transcript) => error matches AppError::RunFailed(detail) && detail@ == no_answer(
                    transcript.run_id@,
                    transcript.status,
                ),
                Err(given) => error == given,
            },
    {
        match answer {
            Ok(transcript) => WatchAction::Finish(terminal_answer(transcript)),
            Err(error) => if self.stage == (WatchStage::Transcript { again: false })
                && reconnectable(&error) {
                self.seek(true)
            } else {
                WatchAction::Finish(Err(error))
            },
        }
    }

    /// Takes what the daemon did, and says what to do next.
    pub fn step(&mut self, event: WatchEvent) -> (r: WatchAction)
        requires
            expected(old(self).stage, event@),
        ensures
            (final(self)@, r@) == watch_step(old(self)@, event@),
            r matches WatchAction::Finish(Err(error)) ==> ends_with(error, old(self)@, event@),
    {
        match event {
            WatchEvent::Events(answer) => self.take_events(answer),
            WatchEvent::Connected(answer) => self.take_connection(answer),
            WatchEvent::Sessions(answer) => self.take_sessions(answer),
            WatchEvent::Transcript(answer) => self.take_transcript(answer),
        }
    }
}

fn find_session(sessions: &Vec<SessionSummary>, session_id: &str) -> (r: Option<RunStateName>)
    ensures
        r == match session_named(messages::summary_views(sessions@), session_id@) {
            Some(session) => Some(session.status),
            None => None,
        },
{
    let ghost views = messages::summary_views(sessions@);
    assert(views.skip(0) =~= views);
    let mut i: usize = 0;
    while i < sessions.len()
        invariant
            0 <= i <= sessions@.len(),
            views == messages::summary_views(sessions@),
            session_named(views, session_id@) == session_named(views.skip(i as int), session_id@),
        decreases sessions@.len() - i,
    {
        assert(views.skip(i as int)[0] == sessions@[i as int]@);
        assert(views.skip(i as int).skip(1) =~= views.skip(i + 1));
        if text::same_text(sessions[i].session_id.as_str(), session_id) {
            return Some(sessions[i].status);
        }
        i += 1;
    }
    assert(views.skip(views.len() as int).len() == 0);
    None
}

/// An answer is only ever one that the typed transcript of the session holds.
pub proof fn law_answers_come_from_transcripts(
    watch: WatchView,
    event: WatchEventView,
    answer: Seq<char>,
)
    requires
        watch_step(watch, event).1 == ActionView::Finish(Ok(answer)),
    ensures
        event matches WatchEventView::Transcript(Ok((_, _, Some(given)))) && given == answer,
{
}

/// A gateway that waits is told next what it waits for: the next thing to do fits the next stage.
pub proof fn law_actions_fit_their_stage(watch: WatchView, event: WatchEventView)
    requires
        expected(watch.stage, event),
    ensures
        ({
            let (after, action) = watch_step(watch, event);
            match action {
                ActionView::AskEvents { from_offset, .. } => after.stage == WatchStage::Events
                    && after.next_offset == from_offset,
                ActionView::Connect { .. } => after.stage is Reconnect,
                ActionView::ListSessions => after.stage == WatchStage::Sessions,
                ActionView::ReadTranscript => after.stage is Transcript,
                ActionView::Finish(_) => true,
            }
        }),
{
}

/// The waiting after attempts that all failed, one after the other.
pub open spec fn after_failures(watch: WatchView, errors: Seq<AppError>) -> (WatchView, ActionView)
    decreases errors.len(),
{
    if errors.len() == 0 {
        (watch, ActionView::Connect { pause: false })
    } else {
        after_connect(after_failures(watch, errors.drop_last()).0, Err(errors.last()))
    }
}

/// A daemon that is gone is sought a bounded number of times: as long as attempts are left there is
/// another, and then waiting ends.
pub proof fn law_recovery_is_bounded(watch: WatchView, for_transcript: bool, errors: Seq<AppError>)
    requires
        errors.len() <= RECONNECT_ATTEMPTS,
        forall|i: int| 0 <= i < errors.len() ==> may_pass(#[trigger] errors[i]),
    ensures
        errors.len() < RECONNECT_ATTEMPTS ==> after_failures(
            seeking(watch, for_transcript),
            errors,
        ).1 is Connect,
        errors.len() == RECONNECT_ATTEMPTS ==> after_failures(
            seeking(watch, for_transcript),
            errors,
        ).1 == ActionView::Finish(
            Err("daemon protocol error: daemon unavailable during gateway recovery"@),
        ),
{
    lemma_attempts_left(watch, for_transcript, errors);
    if errors.len() > 0 {
        assert(may_pass(errors[errors.len() - 1]));
        lemma_attempts_left(watch, for_transcript, errors.drop_last());
    }
}

proof fn lemma_attempts_left(watch: WatchView, for_transcript: bool, errors: Seq<AppError>)
    requires
        errors.len() <= RECONNECT_ATTEMPTS,
        forall|i: int| 0 <= i < errors.len() ==> may_pass(#[trigger] errors[i]),
    ensures
        errors.len() < RECONNECT_ATTEMPTS ==> after_failures(
            seeking(watch, for_transcript),
            errors,
        ).0.stage == (WatchStage::Reconnect {
            attempts_left: (RECONNECT_ATTEMPTS - errors.len()) as u32,
            for_transcript,
        }),
    decreases errors.len(),
{
    if errors.len() > 0 {
        let rest = errors.drop_last();
        assert forall|i: int| 0 <= i < rest.len() implies may_pass(#[trigger] rest[i]) by {
            assert(rest[i] == errors[i]);
        }
        assert(may_pass(errors[errors.len() - 1]));
        lemma_attempts_left(watch, for_transcript, rest);
    }
}

/// A text in pieces of `limit` characters, the last as long as what is left.
pub open spec fn chunks_of(text: Seq<char>, limit: nat) -> Seq<Seq<char>>
    decreases text.len(),
    when limit > 0
{
    if text.len() == 0 {
        Seq::empty()
    } else if text.len() <= limit {
        seq![text]
    } else {
        seq![text.take(limit as int)] + chunks_of(text.skip(limit as int), limit)
    }
}

/// Cuts a text into pieces of `limit` characters.
pub fn chunks(text: &str, limit: usize) -> (r: Vec<String>)
    requires
        limit > 0,
    ensures
        text::views(r@) == chunks_of(text@, limit as nat),
{
    let chars = text::chars_of(text);
    let mut r: Vec<String> = Vec::new();
    let mut start: usize = 0;
    let ghost all = chunks_of(text@, limit as nat);
    assert(text@.skip(0) =~= text@);
    assert(all =~= text::views(r@) + chunks_of(text@.skip(0), limit as nat));
    while start < chars.len()
        invariant
            limit > 0,
            0 <= start <= chars@.len(),
            chars@ == text@,
            all == chunks_of(text@, limit as nat),
            all == text::views(r@) + chunks_of(text@.skip(start as int), limit as nat),
        decreases chars@.len() - start,
    {
        let ghost rest = text@.skip(start as int);
        let ghost before = text::views(r@);
        let end: usize = if chars.len() - start <= limit {
            chars.len()
        } else {
            start + limit
        };
        r.push(text::text_between(&chars, start, end));
        let ghost piece = text@.subrange(start as int, end as int);
        assert(text::views(r@) =~= before.push(piece));
        proof {
            if rest.len() <= limit {
                assert(piece =~= rest);
                assert(text@.skip(end as int) =~= Seq::empty());
                assert(all =~= text::views(r@) + chunks_of(
                    text@.skip(end as int),
                    limit as nat,
                ));
            } else {
                assert(piece =~= rest.take(limit as int));
                assert(rest.skip(limit as int) =~= text@.skip(end as int));
                assert(all =~= text::views(r@) + chunks_of(
                    text@.skip(end as int),
                    limit as nat,
                ));
            }
        }
        start = end;
    }
    assert(text@.skip(chars@.len() as int) =~= Seq::empty());
    assert(all =~= text::views(r@));
    r
}

/// Pieces one after the other.
pub open spec fn concatenated(pieces: Seq<Seq<char>>) -> Seq<char>
    decreases pieces.len(),
{
    if pieces.len() == 0 {
        Seq::empty()
    } else {
        pieces[0] + concatenated(pieces.drop_first())
    }
}

/// The messages of an answer hold all of it, in order, and nothing else; none is empty, and none is
/// longer than the limit.
pub proof fn law_messages_hold_the_answer(text: Seq<char>, limit: nat)
    requires
        limit > 0,
    ensures
        concatenated(chunks_of(text, limit)) == text,
        forall|i: int|
            0 <= i < chunks_of(text, limit).len() ==> 0 < (#[trigger] chunks_of(
                text,
                limit,
            )[i]).len() <= limit,
    decreases text.len(),
{
    let pieces = chunks_of(text, limit);
    if text.len() == 0 {
    } else if text.len() <= limit {
        assert(pieces.drop_first() =~= Seq::empty());
        assert(concatenated(pieces.drop_first()) =~= Seq::empty());
        assert(concatenated(pieces) =~= text);
    } else {
        let rest = text.skip(limit as int);
        law_messages_hold_the_answer(rest, limit);
        assert(pieces.drop_first() =~= chunks_of(rest, limit));
        assert(concatenated(pieces) =~= text);
        assert forall|i: int| 0 <= i < pieces.len() implies 0 < (#[trigger] pieces[i]).len()
            <= limit by {
            if i > 0 {
                assert(pieces[i] == chunks_of(rest, limit)[i - 1]);
            }
        }
    }
}

/// A text without the slashes that it ends with.
pub open spec fn without_slashes(text: Seq<char>) -> Seq<char>
    decreases text.len(),
{
    if text.len() > 0 && text.last() == '/' {
        without_slashes(text.drop_last())
    } else {
        text
    }
}

/// The address of a service, without the slashes that it ends with.
pub fn trimmed_base(address: &str) -> (r: String)
    ensures
        r@ == without_slashes(address@),
{
    let chars = text::chars_of(address);
    let mut end = chars.len();
    assert(address@.take(end as int) =~= address@);
    while end > 0 && chars[end - 1] == '/'
        invariant
            0 <= end <= chars@.len(),
            chars@ == address@,
            without_slashes(address@) == without_slashes(address@.take(end as int)),
        decreases end,
    {
        assert(address@.take(end as int).drop_last() =~= address@.take(end - 1));
        end -= 1;
    }
    let r = text::text_between(&chars, 0, end);
    assert(r@ =~= address@.take(end as int));
    r
}

/// What is said of a request that failed: the status that came back, if one did.
pub open spec fn failure_words(
    service: Seq<char>,
    operation: Seq<char>,
    status: Option<u16>,
) -> Seq<char> {
    match status {
        Some(status) => service + " "@ + operation + " returned HTTP "@ + text::decimal(
            status as nat,
        ),
        None => service + " "@ + operation + " transport failed"@,
    }
}

/// The error of a request that failed. It tells the status and nothing else of the request.
pub fn request_error(service: &str, operation: &str, status: Option<u16>) -> (r: AppError)
    ensures
        r matches AppError::Provider(detail) && detail@ == failure_words(
            service@,
            operation@,
            status,
        ),
{
    match status {
        Some(status) => {
            let mut detail = text::text4(service, " ", operation, " returned HTTP ");
            detail.append(text::decimal_u64(status as u64).as_str());
            AppError::Provider(detail)
        },
        None => AppError::Provider(text::text4(service, " ", operation, " transport failed")),
    }
}

/// As long as a page of events says that the run goes on, the gateway stays with the events: it asks
/// for those behind the page, after a while where the page holds none, and neither reads the transcript
/// nor ends.
pub proof fn law_running_runs_are_followed(watch: WatchView, page: PageView)
    requires
        watch.stage == WatchStage::Events,
        page.status == RunStateName::Running,
    ensures
        ({
            let (after, action) = watch_step(watch, WatchEventView::Events(Ok(page)));
            &&& action matches ActionView::AskEvents { from_offset, pause } && from_offset == Some(
                page.next_offset,
            ) && (pause <==> page.events.len() == 0)
            &&& !(action is ReadTranscript) && !(action is Finish)
            &&& after.stage == WatchStage::Events
            &&& after.next_offset == Some(page.next_offset)
            &&& after.session_id == watch.session_id
        }),
{
}

/// A page of events that says that the run has ended leads to the transcript.
pub proof fn law_ended_runs_are_read(watch: WatchView, page: PageView)
    requires
        watch.stage == WatchStage::Events,
        page.status != RunStateName::Running,
    ensures
        ({
            let (after, action) = watch_step(watch, WatchEventView::Events(Ok(page)));
            &&& action == ActionView::ReadTranscript
            &&& after.stage == (WatchStage::Transcript { again: false })
            &&& after.session_id == watch.session_id
        }),
{
}

/// The session of a name is one that has it, and there is none only where no session has it.
pub proof fn law_sessions_are_found_by_name(sessions: Seq<SummaryView>, session_id: Seq<char>)
    ensures
        session_named(sessions, session_id) is None <==> forall|i: int|
            0 <= i < sessions.len() ==> (#[trigger] sessions[i]).session_id != session_id,
        session_named(sessions, session_id) matches Some(session) ==> session.session_id
            == session_id && exists|i: int|
            0 <= i < sessions.len() && (#[trigger] sessions[i]) == session,
    decreases sessions.len(),
{
    if sessions.len() > 0 {
        let rest = sessions.skip(1);
        law_sessions_are_found_by_name(rest, session_id);
        if sessions[0].session_id == session_id {
            assert(sessions[0].session_id == session_id);
        } else if let Some(session) = session_named(rest, session_id) {
            let i = choose|i: int| 0 <= i < rest.len() && (#[trigger] rest[i]) == session;
            assert(sessions[i + 1] == session);
        } else {
            assert forall|i: int| 0 <= i < sessions.len() implies (
            #[trigger] sessions[i]).session_id != session_id by {
                if i > 0 {
                    assert(rest[i - 1] == sessions[i]);
                }
            }
        }
    }
}

/// The transcript is read only once the run is known to have ended: a page of events, or the session
/// itself, says so; or it was read before, and the daemon was lost over it.
pub proof fn law_transcripts_are_read_after_the_end(watch: WatchView, event: WatchEventView)
    requires
        expected(watch.stage, event),
        watch_step(watch, event).1 == ActionView::ReadTranscript,
    ensures
        match event {
            WatchEventView::Events(Ok(page)) => page.status != RunStateName::Running,
            WatchEventView::Sessions(Ok(sessions)) => exists|i: int|
                0 <= i < sessions.len() && (#[trigger] sessions[i]).session_id == watch.session_id
                    && sessions[i].status != RunStateName::Running,
            WatchEventView::Connected(Ok(_)) => watch.stage matches WatchStage::Reconnect {
                for_transcript,
                ..
            } && for_transcript,
            _ => false,
        },
{
    if let WatchEventView::Sessions(Ok(sessions)) = event {
        law_sessions_are_found_by_name(sessions, watch.session_id);
    }
}

/// The daemon is sought for the transcript only where it was lost while the transcript was read.
pub proof fn law_only_readers_return_to_the_transcript(watch: WatchView, event: WatchEventView)
    requires
        expected(watch.stage, event),
    ensures
        ({
            let after = watch_step(watch, event).0;
            (after.stage matches WatchStage::Reconnect { for_transcript, .. } && for_transcript)
                ==> watch.stage is Transcript || (watch.stage matches WatchStage::Reconnect {
                for_transcript,
                ..
            } && for_transcript)
        }),
{
}

/// A daemon that was reached again is asked how the session stands: one that goes on is followed from
/// its tip, one that has ended is read, and one that is not there is the end of waiting.
pub proof fn law_recovery_goes_by_the_session(watch: WatchView, sessions: Seq<SummaryView>, i: int)
    requires
        watch.stage == WatchStage::Sessions,
        0 <= i < sessions.len(),
        sessions[i].session_id == watch.session_id,
        forall|j: int|
            0 <= j < sessions.len() && (#[trigger] sessions[j]).session_id == watch.session_id
                ==> sessions[j] == sessions[i],
    ensures
        ({
            let (after, action) = watch_step(watch, WatchEventView::Sessions(Ok(sessions)));
            &&& sessions[i].status == RunStateName::Running ==> action == (ActionView::AskEvents {
                from_offset: None,
                pause: false,
            }) && after.stage == WatchStage::Events
            &&& sessions[i].status != RunStateName::Running ==> action
                == ActionView::ReadTranscript && after.stage == (WatchStage::Transcript {
                again: false,
            })
        }),
{
    law_sessions_are_found_by_name(sessions, watch.session_id);
}

/// Waiting ends where a daemon that was reached again does not know the session, with an error that
/// names it.
pub proof fn law_lost_sessions_end_waiting(watch: WatchView, sessions: Seq<SummaryView>)
    requires
        watch.stage == WatchStage::Sessions,
        forall|j: int|
            0 <= j < sessions.len() ==> (#[trigger] sessions[j]).session_id != watch.session_id,
    ensures
        watch_step(watch, WatchEventView::Sessions(Ok(sessions))).1 == ActionView::Finish(
            Err("session not found in sqlite ledger: "@ + watch.session_id),
        ),
{
    law_sessions_are_found_by_name(sessions, watch.session_id);
}

/// Events that the daemon has dropped are passed over: the gateway asks at once for those from the tip.
pub proof fn law_dropped_events_are_passed_over(watch: WatchView, error: AppError)
    requires
        watch.stage == WatchStage::Events,
        error matches AppError::DaemonResponse(refusal) && refusal.code@ == "lagged"@,
    ensures
        watch_step(watch, WatchEventView::Events(Err(error))).1 == (ActionView::AskEvents {
            from_offset: None,
            pause: false,
        }),
        watch_step(watch, WatchEventView::Events(Err(error))).0.stage == WatchStage::Events,
{
}

/// A daemon that is lost is sought again, up to forty times: over the events and over a transcript that
/// is read for the first time. An error of another kind ends the waiting with that error, and so does any
/// over a transcript that is read again.
pub proof fn law_lost_daemons_are_sought(watch: WatchView, error: AppError)
    ensures
        ({
            let lost = error is Io || error is Json || error is DaemonProtocol || (
            error matches AppError::DaemonResponse(refusal) && refusal.code@ == "not_found"@);
            let dropped = error matches AppError::DaemonResponse(refusal) && refusal.code@
                == "lagged"@;
            let told = ActionView::Finish(Err(error::app_message(error)));
            &&& watch.stage == WatchStage::Events && lost ==> watch_step(
                watch,
                WatchEventView::Events(Err(error)),
            ) == (
                (WatchView {
                    stage: WatchStage::Reconnect { attempts_left: 40, for_transcript: false },
                    ..watch
                }),
                (ActionView::Connect { pause: false }),
            )
            &&& watch.stage == WatchStage::Events && !lost && !dropped ==> watch_step(
                watch,
                WatchEventView::Events(Err(error)),
            ).1 == told
            &&& watch.stage == (WatchStage::Transcript { again: false }) && lost ==> watch_step(
                watch,
                WatchEventView::Transcript(Err(error)),
            ) == (
                (WatchView {
                    stage: WatchStage::Reconnect { attempts_left: 40, for_transcript: true },
                    ..watch
                }),
                (ActionView::Connect { pause: false }),
            )
            &&& watch.stage == (WatchStage::Transcript { again: false }) && !lost ==> watch_step(
                watch,
                WatchEventView::Transcript(Err(error)),
            ).1 == told
            &&& watch.stage == (WatchStage::Transcript { again: true }) ==> watch_step(
                watch,
                WatchEventView::Transcript(Err(error)),
            ).1 == told
            &&& watch.stage is Reconnect && !lost ==> watch_step(
                watch,
                WatchEventView::Connected(Err(error)),
            ).1 == told
            &&& watch.stage == WatchStage::Sessions ==> watch_step(
                watch,
                WatchEventView::Sessions(Err(error)),
            ).1 == told
        }),
{
    reveal_strlit("not_found");
    reveal_strlit("lagged");
}

/// A transcript ends the waiting, with the answer of the run where there is one.
pub proof fn law_transcripts_end_waiting(
    watch: WatchView,
    run_id: Seq<char>,
    status: RunStateName,
    answer: Seq<char>,
)
    requires
        watch.stage is Transcript,
    ensures
        watch_step(watch, WatchEventView::Transcript(Ok((run_id, status, Some(answer))))).1
            == ActionView::Finish(Ok(answer)),
        watch_step(watch, WatchEventView::Transcript(Ok((run_id, status, None)))).1
            matches ActionView::Finish(Err(_)),
{
}

/// A gateway waits for one session: nothing that the daemon does changes which.
pub proof fn law_gateways_keep_to_their_session(watch: WatchView, event: WatchEventView)
    ensures
        watch_step(watch, event).0.session_id == watch.session_id,
{
}

/// Each failed attempt to reach the daemon takes one from those that are left, and the daemon is asked
/// for what it was sought for.
pub proof fn law_attempts_count_down(
    watch: WatchView,
    left: u32,
    for_transcript: bool,
    error: AppError,
)
    requires
        watch.stage == (WatchStage::Reconnect { attempts_left: left, for_transcript }),
        left > 1,
        error is Io || error is Json || error is DaemonProtocol,
    ensures
        watch_step(watch, WatchEventView::Connected(Err(error))) == (
            (WatchView {
                stage: WatchStage::Reconnect { attempts_left: (left - 1) as u32, for_transcript },
                ..watch
            }),
            (ActionView::Connect { pause: true }),
        ),
        watch_step(watch, WatchEventView::Connected(Ok(()))).1 == if for_transcript {
            ActionView::ReadTranscript
        } else {
            ActionView::ListSessions
        },
{
}

/// A gateway runs exactly where its token is set to something, under a name that is no provider's, and
/// no credential of a provider is set; the token is what is set.
pub proof fn law_gateways_run_with_their_own_token(
    provider_env: Seq<char>,
    token_env: Seq<char>,
    env: Seq<(Seq<char>, Option<Seq<char>>)>,
    token: Seq<char>,
)
    ensures
        token_in(provider_env, token_env, env) == Ok::<Seq<char>, Seq<char>>(token) <==> {
            &&& token.len() > 0
            &&& table::lookup(env, token_env) == Some(Some(token))
            &&& token_env != provider_env && token_env != "OPENAI_API_KEY"@ && token_env
                != "OPENROUTER_API_KEY"@
            &&& table::lookup(env, provider_env) is None
            &&& table::lookup(env, "OPENAI_API_KEY"@) is None
            &&& table::lookup(env, "OPENROUTER_API_KEY"@) is None
        },
{
}

/// A daemon is refused exactly where it lacks something that is required, and what is named is required
/// and lacking.
pub proof fn law_lacking_capabilities_are_named(there: Seq<Seq<char>>, required: Seq<Seq<char>>)
    ensures
        missing_capability(there, required) is None <==> forall|i: int|
            0 <= i < required.len() ==> there.contains(#[trigger] required[i]),
        missing_capability(there, required) matches Some(name) ==> required.contains(name)
            && !there.contains(name),
    decreases required.len(),
{
    if required.len() > 0 {
        let rest = required.skip(1);
        law_lacking_capabilities_are_named(there, rest);
        assert(required[0] == required[0]);
        assert forall|i: int| 0 < i < required.len() implies required[i] == rest[i - 1] by {}
        if there.contains(required[0]) {
            if let Some(name) = missing_capability(there, rest) {
                let i = choose|i: int| 0 <= i < rest.len() && rest[i] == name;
                assert(required[i + 1] == name);
            } else {
                assert forall|i: int| 0 <= i < required.len() implies there.contains(
                    #[trigger] required[i],
                ) by {
                    if i > 0 {
                        assert(there.contains(rest[i - 1]));
                    }
                }
            }
        }
    }
}

/// All messages of an answer but the last are as long as they may be.
pub proof fn law_messages_are_filled(text: Seq<char>, limit: nat)
    requires
        limit > 0,
    ensures
        forall|i: int|
            0 <= i < chunks_of(text, limit).len() - 1 ==> (#[trigger] chunks_of(
                text,
                limit,
            )[i]).len() == limit,
    decreases text.len(),
{
    if text.len() > limit {
        let rest = text.skip(limit as int);
        law_messages_are_filled(rest, limit);
        let pieces = chunks_of(text, limit);
        assert forall|i: int| 0 <= i < pieces.len() - 1 implies (#[trigger] pieces[i]).len()
            == limit by {
            if i > 0 {
                assert(pieces[i] == chunks_of(rest, limit)[i - 1]);
            }
        }
    }
}

/// An address loses the slashes that it ends with, and nothing else.
pub proof fn law_addresses_lose_only_slashes(address: Seq<char>)
    ensures
        ({
            let r = without_slashes(address);
            &&& r.len() <= address.len()
            &&& r == address.take(r.len() as int)
            &&& r.len() > 0 ==> r.last() != '/'
            &&& forall|i: int| r.len() <= i < address.len() ==> #[trigger] address[i] == '/'
        }),
    decreases address.len(),
{
    if address.len() > 0 && address.last() == '/' {
        let rest = address.drop_last();
        law_addresses_lose_only_slashes(rest);
        let r = without_slashes(address);
        assert(r =~= address.take(r.len() as int));
        assert forall|i: int| r.len() <= i < address.len() implies #[trigger] address[i] == '/' by {
            if i < rest.len() {
                assert(rest[i] == '/');
            }
        }
    } else {
        assert(address.take(address.len() as int) =~= address);
    }
}

/// A run without an answer is told with its name and how it ended; a request that failed is told with the
/// service, what was asked and the status that came back, if one did.
pub proof fn law_failures_are_told_in_words(
    run_id: Seq<char>,
    status: RunStateName,
    service: Seq<char>,
    operation: Seq<char>,
    code: u16,
)
    ensures
        answer_of(run_id, status, None) == Err::<Seq<char>, Seq<char>>(
            "run did not finish: "@ + ("run "@ + run_id + " ended with status "@ + status.wire()
                + " without a final answer"@),
        ),
        failure_words(service, operation, Some(code)) == service + " "@ + operation
            + " returned HTTP "@ + text::decimal(code as nat),
        failure_words(service, operation, None) == service + " "@ + operation
            + " transport failed"@,
{
}

} // verus!

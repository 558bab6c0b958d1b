//! What the terminal interface does with keys and with the daemon's answers.
use crate::daemon::client;
use crate::daemon::messages;
use crate::daemon::messages::{
    CommandAcceptedResult, EventsStreamResult, HelloResult, PageView, RunStartResult,
    SessionSummary, StartedView, SummaryView,
};
use crate::daemon::protocol::RunStateName;
use crate::daemon::request;
use crate::daemon::request::{ClientRequest, RequestView};
use crate::daemon::transcript::TranscriptReadResult;
use crate::error;
use crate::error::{AppError, AppResult};
use crate::json;
use crate::json::{Json, JsonView};
use crate::table;
use crate::text;
use crate::tui::modal;
use crate::tui::modal::ModalView;
use crate::tui::state;
use crate::tui::state::{
    ActiveRunView, ConnectionState, ConnectionView, EventLineView, LiveEventKind, LiveEventLine,
    ShownView, TranscriptState, TranscriptView, TuiState, TuiView,
};
use vstd::prelude::*;

verus! {

/// How long the interface waits between two questions for events, in milliseconds.
pub const ACTIVE_POLL_INTERVAL: u64 = 200;

/// How many events the interface asks for at a time.
pub const EVENT_LIMIT: u64 = 32;

/// How many lines of live events are kept.
pub const MAX_LIVE_EVENT_LINES: usize = 80;

/// How the interface is started.
#[derive(Clone, Debug, PartialEq, Eq)]
pub struct TuiOptions {
    pub workspace: String,
    pub socket: Option<String>,
    pub run: Option<String>,
    pub config: Option<String>,
    pub snapshot: bool,
}

impl TuiOptions {
    /// The interface of a workspace, with nothing else chosen.
    pub fn new(workspace: String) -> (r: TuiOptions)
        ensures
            r == (TuiOptions { workspace, socket: None, run: None, config: None, snapshot: false }),
    {
        TuiOptions { workspace, socket: None, run: None, config: None, snapshot: false }
    }
}

/// What the interface has its client do.
#[derive(Debug, PartialEq, Eq)]
pub enum ClientCommand {
    Load { run_id: Option<String> },
    RunStart { question: String, config_path: Option<String> },
    MessageAppend { message: String, session_id: String, config_path: Option<String> },
    PollEvents { run_id: String, from_offset: u64 },
    ApprovalGrant { run_id: String, tool_call_id: String },
    ApprovalDeny { run_id: String, tool_call_id: String, reason: String },
    RunCancel { run_id: String },
}

/// What a command stands for.
pub enum CommandView {
    Load { run_id: Option<Seq<char>> },
    RunStart { question: Seq<char>, config_path: Option<Seq<char>> },
    MessageAppend { message: Seq<char>, session_id: Seq<char>, config_path: Option<Seq<char>> },
    PollEvents { run_id: Seq<char>, from_offset: u64 },
    ApprovalGrant { run_id: Seq<char>, tool_call_id: Seq<char> },
    ApprovalDeny { run_id: Seq<char>, tool_call_id: Seq<char>, reason: Seq<char> },
    RunCancel { run_id: Seq<char> },
}

/// The request that a command makes; to load the state takes several.
pub open spec fn command_request(command: CommandView) -> Option<RequestView> {
    match command {
        CommandView::Load { .. } => None,
        CommandView::RunStart { question, config_path } => Some(
            request::run_start_view(question, config_path, false),
        ),
        CommandView::MessageAppend { message, session_id, config_path } => Some(
            request::message_append_view(message, Some(session_id), config_path, false),
        ),
        CommandView::PollEvents { run_id, from_offset } => Some(
            request::events_view(run_id, Some(from_offset), EVENT_LIMIT),
        ),
        CommandView::ApprovalGrant { run_id, tool_call_id } => Some(
            request::decide_view(run_id, tool_call_id, "grant"@, None),
        ),
        CommandView::ApprovalDeny { run_id, tool_call_id, reason } => Some(
            request::decide_view(run_id, tool_call_id, "deny"@, Some(reason)),
        ),
        CommandView::RunCancel { run_id } => Some(request::cancel_view(run_id)),
    }
}

impl ClientCommand {
    /// The command that `self` stands for.
    pub open spec fn view(&self) -> CommandView {
        match self {
            ClientCommand::Load { run_id } => CommandView::Load { run_id: text::opt_view(*run_id) },
            ClientCommand::RunStart { question, config_path } => CommandView::RunStart {
                question: question@,
                config_path: text::opt_view(*config_path),
            },
            ClientCommand::MessageAppend { message, session_id, config_path } =>
                CommandView::MessageAppend {
                message: message@,
                session_id: session_id@,
                config_path: text::opt_view(*config_path),
            },
            ClientCommand::PollEvents { run_id, from_offset } => CommandView::PollEvents {
                run_id: run_id@,
                from_offset: *from_offset,
            },
            ClientCommand::ApprovalGrant { run_id, tool_call_id } => CommandView::ApprovalGrant {
                run_id: run_id@,
                tool_call_id: tool_call_id@,
            },
            ClientCommand::ApprovalDeny { run_id, tool_call_id, reason } =>
                CommandView::ApprovalDeny {
                run_id: run_id@,
                tool_call_id: tool_call_id@,
                reason: reason@,
            },
            ClientCommand::RunCancel { run_id } => CommandView::RunCancel { run_id: run_id@ },
        }
    }

    /// The request that the command makes; to load the state takes several.
    pub fn request(&self) -> (r: Option<ClientRequest>)
        ensures
            (match r {
                Some(request) => Some(request@),
                None => None,
            }) == command_request(self@),
    {
        match self {
            ClientCommand::Load { .. } => None,
            ClientCommand::RunStart { question, config_path } => Some(
                ClientRequest::run_start(question.clone(), text::copy_option(config_path), false),
            ),
            ClientCommand::MessageAppend { message, session_id, config_path } => Some(
                ClientRequest::message_append(
                    message.clone(),
                    Some(session_id.clone()),
                    text::copy_option(config_path),
                    false,
                ),
            ),
            ClientCommand::PollEvents { run_id, from_offset } => Some(
                ClientRequest::events_stream(run_id.as_str(), Some(*from_offset), EVENT_LIMIT),
            ),
            ClientCommand::ApprovalGrant { run_id, tool_call_id } => Some(
                ClientRequest::approval_grant(run_id.as_str(), tool_call_id.as_str()),
            ),
            ClientCommand::ApprovalDeny { run_id, tool_call_id, reason } => Some(
                ClientRequest::approval_deny(
                    run_id.as_str(),
                    tool_call_id.as_str(),
                    reason.clone(),
                ),
            ),
            ClientCommand::RunCancel { run_id } => Some(ClientRequest::run_cancel(run_id.as_str())),
        }
    }
}

/// What commands stand for.
pub open spec fn command_views(commands: Seq<ClientCommand>) -> Seq<CommandView> {
    Seq::new(commands.len(), |i: int| commands[i]@)
}

/// The commands that the interface has given, as long as its client takes them.
#[derive(Debug, PartialEq, Eq)]
pub struct Outbox {
    pub open: bool,
    pub sent: Vec<ClientCommand>,
}

/// What an outbox stands for.
pub struct OutboxView {
    pub open: bool,
    pub sent: Seq<CommandView>,
}

impl Outbox {
    /// The outbox that `self` stands for.
    pub open spec fn view(&self) -> OutboxView {
        OutboxView { open: self.open, sent: command_views(self.sent@) }
    }

    /// An outbox whose client takes commands.
    pub fn new() -> (r: Outbox)
        ensures
            r@ == (OutboxView { open: true, sent: Seq::empty() }),
    {
        let r = Outbox { open: true, sent: Vec::new() };
        assert(command_views(r.sent@) =~= Seq::empty());
        r
    }

    /// Gives a command, if the client takes any.
    pub fn send(&mut self, command: ClientCommand) -> (r: bool)
        ensures
            r == old(self).open,
            final(self)@ == if old(self).open {
                OutboxView { open: true, sent: old(self)@.sent.push(command@) }
            } else {
                old(self)@
            },
    {
        if self.open {
            let ghost before = command_views(self.sent@);
            self.sent.push(command);
            assert(command_views(self.sent@) =~= before.push(command@));
            true
        } else {
            false
        }
    }
}

/// What is shown and given after a command was given.
pub open spec fn sent(state: TuiView, outbox: OutboxView, command: CommandView) -> (
    TuiView,
    OutboxView,
) {
    if outbox.open {
        (state, OutboxView { open: true, sent: outbox.sent.push(command) })
    } else {
        (TuiView { status_message: Some("daemon client worker stopped"@), ..state }, outbox)
    }
}

/// Gives a command, or says that nobody takes it.
pub fn send_command(commands: &mut Outbox, command: ClientCommand, state: &mut TuiState)
    ensures
        (final(state)@, final(commands)@) == sent(old(state)@, old(commands)@, command@),
{
    if !commands.send(command) {
        state.status_message = Some("daemon client worker stopped".to_owned());
    }
}

/// The lines that are kept of `lines`: the last ones.
pub open spec fn kept_lines(lines: Seq<EventLineView>) -> Seq<EventLineView> {
    if lines.len() > MAX_LIVE_EVENT_LINES {
        lines.skip(lines.len() - MAX_LIVE_EVENT_LINES)
    } else {
        lines
    }
}

/// What is shown after a line was added.
pub open spec fn with_line(state: TuiView, offset: Option<u64>, text: Seq<char>) -> TuiView {
    TuiView {
        live_events: kept_lines(
            state.live_events.push(EventLineView { offset, kind: LiveEventKind::Status, text }),
        ),
        ..state
    }
}

/// Adds a line, and drops the oldest ones that are too many.
pub fn push_live_event(state: &mut TuiState, offset: Option<u64>, text: &str)
    ensures
        final(state)@ == with_line(old(state)@, offset, text@),
{
    let ghost before = state::event_lines(state.live_events@);
    state.live_events.push(LiveEventLine::new(offset, text));
    let ghost all = state::event_lines(state.live_events@);
    assert(all =~= before.push(EventLineView { offset, kind: LiveEventKind::Status, text: text@ }));
    if state.live_events.len() > MAX_LIVE_EVENT_LINES {
        let mut kept: Vec<LiveEventLine> = Vec::new();
        let mut i: usize = state.live_events.len() - MAX_LIVE_EVENT_LINES;
        let ghost start = i as int;
        assert(state::event_lines(kept@) =~= all.subrange(start, start));
        while i < state.live_events.len()
            invariant
                0 <= start <= i <= state.live_events@.len(),
                all == state::event_lines(state.live_events@),
                state::event_lines(kept@) == all.subrange(start, i as int),
            decreases state.live_events@.len() - i,
        {
            let ghost so_far = state::event_lines(kept@);
            kept.push(state.live_events[i].clone());
            assert(state::event_lines(kept@) =~= so_far.push(all[i as int]));
            assert(all.subrange(start, i + 1) =~= so_far.push(all[i as int]));
            i += 1;
        }
        assert(all.subrange(start, all.len() as int) =~= all.skip(start));
        state.live_events = kept;
    }
}

/// A key that matters to the interface.
#[derive(Clone, Copy, Debug, PartialEq, Eq, Structural)]
pub enum KeyCode {
    Char(char),
    Enter,
    Esc,
    Backspace,
    Up,
    Down,
    Other,
}

/// A key that was pressed, and what was held with it.
#[derive(Clone, Copy, Debug, PartialEq, Eq, Structural)]
pub struct Key {
    pub code: KeyCode,
    pub control: bool,
    pub alt: bool,
}

impl Key {
    /// A key with nothing held.
    pub fn plain(code: KeyCode) -> (r: Key)
        ensures
            r == (Key { code, control: false, alt: false }),
    {
        Key { code, control: false, alt: false }
    }
}

/// What the interface remembers of the run that it follows.
#[derive(Debug, PartialEq, Eq)]
pub struct UiRuntime {
    pub active_run_id: Option<String>,
    pub next_offset: u64,
    pub poll_in_flight: bool,
    pub polling: bool,
    /// When events were last asked for; nothing where they are to be asked for at once.
    pub last_poll: Option<u64>,
    pub tool_inputs: Vec<ToolInput>,
}

/// The input of a call, as it is shown.
#[derive(Debug, PartialEq, Eq)]
pub struct ToolInput {
    pub call_id: String,
    pub preview: String,
}

/// What the runtime of the interface stands for.
pub struct RuntimeView {
    pub active_run_id: Option<Seq<char>>,
    pub next_offset: u64,
    pub poll_in_flight: bool,
    pub polling: bool,
    pub last_poll: Option<u64>,
    pub tool_inputs: Seq<(Seq<char>, Seq<char>)>,
}

/// What remembered inputs stand for.
pub open spec fn input_rows(inputs: Seq<ToolInput>) -> Seq<(Seq<char>, Seq<char>)> {
    Seq::new(inputs.len(), |i: int| (inputs[i].call_id@, inputs[i].preview@))
}

/// The name of the run that is followed.
pub open spec fn followed(state: TuiView) -> Option<Seq<char>> {
    match state.active_run {
        Some((run_id, _)) => Some(run_id),
        None => None,
    }
}

/// Whether the run that is followed goes on.
pub open spec fn goes_on(state: TuiView) -> bool {
    state.active_run matches Some((_, status)) && status == "running"@
}

/// A runtime that follows the run that is shown.
pub open spec fn runtime_of(state: TuiView, now: u64) -> RuntimeView {
    RuntimeView {
        active_run_id: followed(state),
        next_offset: 0,
        poll_in_flight: false,
        polling: goes_on(state),
        last_poll: Some(now),
        tool_inputs: Seq::empty(),
    }
}

fn followed_run(state: &TuiState) -> (r: Option<String>)
    ensures
        text::opt_view(r) == followed(state@),
{
    match &state.active_run {
        Some(run) => Some(run.run_id.clone()),
        None => None,
    }
}

fn run_goes_on(state: &TuiState) -> (r: bool)
    ensures
        r == goes_on(state@),
{
    match &state.active_run {
        Some(run) => text::same_text(run.status.as_str(), "running"),
        None => false,
    }
}

impl UiRuntime {
    /// The runtime that `self` stands for.
    pub open spec fn view(&self) -> RuntimeView {
        RuntimeView {
            active_run_id: text::opt_view(self.active_run_id),
            next_offset: self.next_offset,
            poll_in_flight: self.poll_in_flight,
            polling: self.polling,
            last_poll: self.last_poll,
            tool_inputs: input_rows(self.tool_inputs@),
        }
    }

    /// A runtime that follows the run that is shown, at the time `now`.
    pub fn from_state(state: &TuiState, now: u64) -> (r: UiRuntime)
        ensures
            r@ == runtime_of(state@, now),
    {
        let r = UiRuntime {
            active_run_id: followed_run(state),
            next_offset: 0,
            poll_in_flight: false,
            polling: run_goes_on(state),
            last_poll: Some(now),
            tool_inputs: Vec::new(),
        };
        assert(input_rows(r.tool_inputs@) =~= Seq::empty());
        r
    }

    /// Follows the run that is shown, from the time `now` on.
    pub fn sync_from_state(&mut self, state: &TuiState, now: u64)
        ensures
            final(self)@ == runtime_of(state@, now),
    {
        *self = UiRuntime::from_state(state, now);
    }

    fn remember_input(&mut self, call_id: &str, preview: &str)
        ensures
            final(self)@ == (RuntimeView {
                tool_inputs: table::with_row(old(self)@.tool_inputs, call_id@, preview@),
                ..old(self)@
            }),
    {
        let ghost rows = input_rows(self.tool_inputs@);
        let mut i: usize = 0;
        while i < self.tool_inputs.len()
            invariant
                0 <= i <= self.tool_inputs@.len(),
                *self == *old(self),
                rows == input_rows(self.tool_inputs@),
                forall|j: int| 0 <= j < i ==> (#[trigger] rows[j]).0 != call_id@,
            decreases self.tool_inputs@.len() - i,
        {
            if text::same_text(self.tool_inputs[i].call_id.as_str(), call_id) {
                proof {
                    table::lemma_position(rows, call_id@, i as int);
                }
                let input = ToolInput { call_id: call_id.to_owned(), preview: preview.to_owned() };
                self.tool_inputs.set(i, input);
                assert(input_rows(self.tool_inputs@) =~= table::with_row(rows, call_id@, preview@));
                return;
            }
            assert(rows[i as int].0 != call_id@);
            i += 1;
        }
        proof {
            table::lemma_position(rows, call_id@, rows.len() as int);
        }
        self.tool_inputs.push(
            ToolInput { call_id: call_id.to_owned(), preview: preview.to_owned() },
        );
        assert(input_rows(self.tool_inputs@) =~= table::with_row(rows, call_id@, preview@));
    }

    fn remembered_input(&self, call_id: &Option<String>) -> (r: Option<String>)
        ensures
            text::opt_view(r) == input_of(self@.tool_inputs, text::opt_view(*call_id)),
    {
        let wanted = match call_id {
            Some(call_id) => call_id.as_str(),
            None => {
                return None;
            },
        };
        let ghost rows = input_rows(self.tool_inputs@);
        let mut i: usize = 0;
        while i < self.tool_inputs.len()
            invariant
                0 <= i <= self.tool_inputs@.len(),
                rows == input_rows(self.tool_inputs@),
                text::opt_view(*call_id) == Some(wanted@),
                forall|j: int| 0 <= j < i ==> (#[trigger] rows[j]).0 != wanted@,
            decreases self.tool_inputs@.len() - i,
        {
            if text::same_text(self.tool_inputs[i].call_id.as_str(), wanted) {
                proof {
                    table::lemma_position(rows, wanted@, i as int);
                }
                return Some(self.tool_inputs[i].preview.clone());
            }
            assert(rows[i as int].0 != wanted@);
            i += 1;
        }
        proof {
            table::lemma_position(rows, wanted@, rows.len() as int);
        }
        None
    }
}

/// The remembered input of a call.
pub open spec fn input_of(
    rows: Seq<(Seq<char>, Seq<char>)>,
    call_id: Option<Seq<char>>,
) -> Option<Seq<char>> {
    match call_id {
        Some(call_id) => table::lookup(rows, call_id),
        None => None,
    }
}

/// What is shown and given after the run that is followed was asked to stop, and whether the
/// interface stays. A run that does not go on, or was asked before, is not asked: the interface ends.
pub open spec fn canceling(state: TuiView, outbox: OutboxView) -> (bool, TuiView, OutboxView) {
    match state.active_run {
        Some((run_id, status)) => if status != "running"@ || state.cancel_requested {
            (false, state, outbox)
        } else {
            let (state, outbox) = sent(
                TuiView {
                    cancel_requested: true,
                    status_message: Some("cancel requested for "@ + run_id),
                    ..state
                },
                outbox,
                CommandView::RunCancel { run_id },
            );
            (true, state, outbox)
        },
        None => (false, state, outbox),
    }
}

/// Asks the run that is followed to stop; says whether the interface stays.
pub fn request_cancel(commands: &mut Outbox, state: &mut TuiState) -> (r: bool)
    ensures
        (r, final(state)@, final(commands)@) == canceling(old(state)@, old(commands)@),
{
    let active = match &state.active_run {
        Some(active) => active.clone(),
        None => {
            return false;
        },
    };
    if !text::same_text(active.status.as_str(), "running") || state.cancel_requested {
        return false;
    }
    state.cancel_requested = true;
    state.status_message = Some(text::text2("cancel requested for ", active.run_id.as_str()));
    send_command(commands, ClientCommand::RunCancel { run_id: active.run_id }, state);
    true
}

/// What is decided on a call.
#[derive(Clone, Copy, Debug, PartialEq, Eq, Structural)]
pub enum ApprovalAction {
    Grant,
    Deny,
}

/// What is shown and given after the shown approval was decided.
pub open spec fn deciding(state: TuiView, outbox: OutboxView, action: ApprovalAction) -> (
    TuiView,
    OutboxView,
) {
    match state.approval {
        Some(approval) => {
            let word = match action {
                ApprovalAction::Grant => "grant sent for "@,
                ApprovalAction::Deny => "deny sent for "@,
            };
            sent(
                TuiView {
                    status_message: Some(word + approval.tool_call_id),
                    approval: None,
                    ..state
                },
                outbox,
                match action {
                    ApprovalAction::Grant => CommandView::ApprovalGrant {
                        run_id: approval.run_id,
                        tool_call_id: approval.tool_call_id,
                    },
                    ApprovalAction::Deny => CommandView::ApprovalDeny {
                        run_id: approval.run_id,
                        tool_call_id: approval.tool_call_id,
                        reason: "denied by plato-tui"@,
                    },
                },
            )
        },
        None => (state, outbox),
    }
}

/// Decides the shown approval.
pub fn decide_approval(commands: &mut Outbox, state: &mut TuiState, action: ApprovalAction)
    ensures
        (final(state)@, final(commands)@) == deciding(old(state)@, old(commands)@, action),
{
    let approval = match &state.approval {
        Some(approval) => approval.clone(),
        None => {
            return;
        },
    };
    let call_id = approval.tool_call_id.clone();
    let command = match action {
        ApprovalAction::Grant => ClientCommand::ApprovalGrant {
            run_id: approval.run_id,
            tool_call_id: approval.tool_call_id,
        },
        ApprovalAction::Deny => ClientCommand::ApprovalDeny {
            run_id: approval.run_id,
            tool_call_id: approval.tool_call_id,
            reason: "denied by plato-tui".to_owned(),
        },
    };
    state.status_message =
    Some(
        match action {
            ApprovalAction::Grant => text::text2("grant sent for ", call_id.as_str()),
            ApprovalAction::Deny => text::text2("deny sent for ", call_id.as_str()),
        },
    );
    state.approval = None;
    send_command(commands, command, state);
}

/// What clears the selected session.
pub open spec fn asks_anew(composer: Seq<char>) -> bool {
    text::trim(composer) == "/new"@
}

/// What opens the list that a session is picked from.
pub open spec fn asks_for_sessions(composer: Seq<char>) -> bool {
    text::trim(composer) == "/sessions"@
}

/// The command that a message makes: it continues the selected session, or starts a new one.
pub open spec fn message_command(
    selected_session: Option<Seq<char>>,
    message: Seq<char>,
    config_path: Option<Seq<char>>,
) -> CommandView {
    match selected_session {
        Some(session_id) => CommandView::MessageAppend { message, session_id, config_path },
        None => CommandView::RunStart { question: message, config_path },
    }
}

/// What is shown and given after what was composed was sent: nothing of a blank text, and no message
/// while a run is followed that goes on.
pub open spec fn submitting(
    state: TuiView,
    runtime: RuntimeView,
    outbox: OutboxView,
    config_path: Option<Seq<char>>,
) -> (TuiView, OutboxView) {
    if text::is_blank(state.composer) {
        (state, outbox)
    } else if asks_anew(state.composer) {
        (
            TuiView {
                composer: Seq::empty(),
                selected_session: None,
                status_message: Some("the next message starts a new session"@),
                ..state
            },
            outbox,
        )
    } else if asks_for_sessions(state.composer) {
        (TuiView { composer: Seq::empty(), picker: Some(0), ..state }, outbox)
    } else if runtime.polling && runtime.active_run_id is Some {
        (TuiView { status_message: Some("run already active"@), ..state }, outbox)
    } else {
        sent(
            TuiView {
                composer: Seq::empty(),
                status_message: Some("submitted to daemon"@),
                ..state
            },
            outbox,
            message_command(state.selected_session, text::trim(state.composer), config_path),
        )
    }
}

/// Sends what was composed: a message, or a word to the interface itself.
pub fn submit_composer(
    commands: &mut Outbox,
    state: &mut TuiState,
    runtime: &UiRuntime,
    config_path: Option<String>,
)
    ensures
        (final(state)@, final(commands)@) == submitting(
            old(state)@,
            runtime@,
            old(commands)@,
            text::opt_view(config_path),
        ),
{
    if text::blank(state.composer.as_str()) {
        return;
    }
    let message = text::trimmed(state.composer.as_str());
    if text::same_text(message.as_str(), "/new") {
        state.composer = String::new();
        assert(state.composer@ =~= Seq::empty());
        state.selected_session = None;
        state.status_message = Some("the next message starts a new session".to_owned());
        return;
    }
    if text::same_text(message.as_str(), "/sessions") {
        state.composer = String::new();
        assert(state.composer@ =~= Seq::empty());
        state.picker = Some(0);
        return;
    }
    if runtime.polling && runtime.active_run_id.is_some() {
        state.status_message = Some("run already active".to_owned());
        return;
    }
    state.composer = String::new();
    assert(state.composer@ =~= Seq::empty());
    state.status_message = Some("submitted to daemon".to_owned());
    let command = match &state.selected_session {
        Some(session_id) => ClientCommand::MessageAppend {
            message,
            session_id: session_id.clone(),
            config_path,
        },
        None => ClientCommand::RunStart { question: message, config_path },
    };
    send_command(commands, command, state);
}

/// What is shown and given after a key while a session is being picked. The focus moves within the
/// list; the focused session is selected, and its transcript is asked for.
pub open spec fn picking(key: Key, focus: usize, state: TuiView, outbox: OutboxView) -> (
    TuiView,
    OutboxView,
) {
    match key.code {
        KeyCode::Esc => (TuiView { picker: None, ..state }, outbox),
        KeyCode::Enter => if focus < state.sessions.len() {
            let session = state.sessions[focus as int];
            sent(
                TuiView {
                    picker: None,
                    selected_session: Some(session.session_id),
                    status_message: Some("resumed "@ + session.session_id),
                    ..state
                },
                outbox,
                CommandView::Load { run_id: Some(session.run_id) },
            )
        } else {
            (TuiView { picker: None, ..state }, outbox)
        },
        KeyCode::Up => (
            TuiView {
                picker: Some(
                    if focus > 0 {
                        (focus - 1) as usize
                    } else {
                        focus
                    },
                ),
                ..state
            },
            outbox,
        ),
        KeyCode::Down => (
            TuiView {
                picker: Some(
                    if focus + 1 < state.sessions.len() {
                        (focus + 1) as usize
                    } else {
                        focus
                    },
                ),
                ..state
            },
            outbox,
        ),
        KeyCode::Backspace => (state, outbox),
        KeyCode::Char(_) => (state, outbox),
        KeyCode::Other => (state, outbox),
    }
}

fn pick_session(key: Key, focus: usize, state: &mut TuiState, commands: &mut Outbox)
    requires
        old(state).picker == Some(focus),
    ensures
        (final(state)@, final(commands)@) == picking(key, focus, old(state)@, old(commands)@),
{
    let ghost views = messages::summary_views(state.sessions@);
    assert(views.len() == state.sessions@.len());
    match key.code {
        KeyCode::Esc => {
            state.picker = None;
        },
        KeyCode::Enter => {
            state.picker = None;
            if focus < state.sessions.len() {
                let session_id = state.sessions[focus].session_id.clone();
                let run_id = state.sessions[focus].run_id.clone();
                assert(views[focus as int] == state.sessions@[focus as int]@);
                state.status_message = Some(text::text2("resumed ", session_id.as_str()));
                state.selected_session = Some(session_id);
                send_command(commands, ClientCommand::Load { run_id: Some(run_id) }, state);
            }
        },
        KeyCode::Up => {
            if focus > 0 {
                state.picker = Some(focus - 1);
            }
        },
        KeyCode::Down => {
            if focus < state.sessions.len() && focus + 1 < state.sessions.len() {
                state.picker = Some(focus + 1);
            }
        },
        KeyCode::Backspace => {},
        KeyCode::Char(_) => {},
        KeyCode::Other => {},
    }
}

/// What is shown and given after the daemon was sought again.
pub open spec fn reconnecting(state: TuiView, outbox: OutboxView, run_id: Option<Seq<char>>) -> (
    TuiView,
    OutboxView,
) {
    sent(
        TuiView { status_message: Some("reconnecting"@), ..state },
        outbox,
        CommandView::Load { run_id },
    )
}

/// Seeks the daemon again.
pub fn reconnect(commands: &mut Outbox, state: &mut TuiState, run_id: Option<String>)
    ensures
        (final(state)@, final(commands)@) == reconnecting(
            old(state)@,
            old(commands)@,
            text::opt_view(run_id),
        ),
{
    state.status_message = Some("reconnecting".to_owned());
    send_command(commands, ClientCommand::Load { run_id }, state);
}

/// What a key does: whether the interface stays, what is shown and what is given.
pub open spec fn key_pressed(
    key: Key,
    state: TuiView,
    runtime: RuntimeView,
    outbox: OutboxView,
    initial_run_id: Option<Seq<char>>,
    config_path: Option<Seq<char>>,
) -> (bool, TuiView, OutboxView) {
    if key.code == KeyCode::Char('c') && key.control {
        canceling(state, outbox)
    } else if state.approval is Some {
        if key.code == KeyCode::Char('q') || key.code == KeyCode::Esc {
            (false, state, outbox)
        } else if key.code == KeyCode::Char('g') {
            let (state, outbox) = deciding(state, outbox, ApprovalAction::Grant);
            (true, state, outbox)
        } else if key.code == KeyCode::Char('d') {
            let (state, outbox) = deciding(state, outbox, ApprovalAction::Deny);
            (true, state, outbox)
        } else {
            (true, state, outbox)
        }
    } else if state.picker is Some {
        let (state, outbox) = picking(key, state.picker->0, state, outbox);
        (true, state, outbox)
    } else if key.code == KeyCode::Char('u') && key.control {
        (true, TuiView { composer: Seq::empty(), ..state }, outbox)
    } else {
        match key.code {
            KeyCode::Esc => (false, state, outbox),
            KeyCode::Enter => {
                let (state, outbox) = submitting(state, runtime, outbox, config_path);
                (true, state, outbox)
            },
            KeyCode::Backspace => (
                true,
                TuiView {
                    composer: if state.composer.len() == 0 {
                        state.composer
                    } else {
                        state.composer.drop_last()
                    },
                    ..state
                },
                outbox,
            ),
            KeyCode::Char(c) => if c == 'q' && state.composer.len() == 0 {
                (false, state, outbox)
            } else if c == 'r' && state.connection is Disconnected {
                let (state, outbox) = reconnecting(state, outbox, initial_run_id);
                (true, state, outbox)
            } else if !key.control && !key.alt {
                (true, TuiView { composer: state.composer.push(c), ..state }, outbox)
            } else {
                (true, state, outbox)
            },
            KeyCode::Up => (true, state, outbox),
            KeyCode::Down => (true, state, outbox),
            KeyCode::Other => (true, state, outbox),
        }
    }
}

fn with_char(s: &str, c: char) -> (r: String)
    ensures
        r@ == s@.push(c),
{
    let mut chars = text::chars_of(s);
    chars.push(c);
    text::text_of(&chars)
}

fn without_last_char(s: &str) -> (r: String)
    ensures
        r@ == if s@.len() == 0 {
            s@
        } else {
            s@.drop_last()
        },
{
    let chars = text::chars_of(s);
    if chars.len() == 0 {
        return s.to_owned();
    }
    let r = text::text_between(&chars, 0, chars.len() - 1);
    assert(r@ =~= s@.drop_last());
    r
}

/// Does what a key stands for; says whether the interface stays.
pub fn handle_key_press(
    key: Key,
    state: &mut TuiState,
    runtime: &UiRuntime,
    commands: &mut Outbox,
    initial_run_id: Option<String>,
    config_path: Option<String>,
) -> (r: bool)
    ensures
        (r, final(state)@, final(commands)@) == key_pressed(
            key,
            old(state)@,
            runtime@,
            old(commands)@,
            text::opt_view(initial_run_id),
            text::opt_view(config_path),
        ),
{
    if key.code == KeyCode::Char('c') && key.control {
        return request_cancel(commands, state);
    }
    if state.approval.is_some() {
        if key.code == KeyCode::Char('q') || key.code == KeyCode::Esc {
            return false;
        } else if key.code == KeyCode::Char('g') {
            decide_approval(commands, state, ApprovalAction::Grant);
        } else if key.code == KeyCode::Char('d') {
            decide_approval(commands, state, ApprovalAction::Deny);
        }
        return true;
    }
    if let Some(focus) = state.picker {
        pick_session(key, focus, state, commands);
        return true;
    }
    if key.code == KeyCode::Char('u') && key.control {
        state.composer = String::new();
        assert(state.composer@ =~= Seq::empty());
        return true;
    }
    match key.code {
        KeyCode::Esc => false,
        KeyCode::Enter => {
            submit_composer(commands, state, runtime, config_path);
            true
        },
        KeyCode::Backspace => {
            state.composer = without_last_char(state.composer.as_str());
            true
        },
        KeyCode::Char(c) => {
            if c == 'q' && state.composer.as_str().unicode_len() == 0 {
                return false;
            }
            if c == 'r' && state.is_disconnected() {
                reconnect(commands, state, initial_run_id);
            } else if !key.control && !key.alt {
                state.composer = with_char(state.composer.as_str(), c);
            }
            true
        },
        KeyCode::Up => true,
        KeyCode::Down => true,
        KeyCode::Other => true,
    }
}

/// Whether events are due to be asked for.
pub open spec fn poll_due(last_poll: Option<u64>, now: u64) -> bool {
    match last_poll {
        Some(last_poll) => now - last_poll >= ACTIVE_POLL_INTERVAL,
        None => true,
    }
}

/// What is remembered and given after the time for a question for events: one question at a time,
/// and only while a run goes on.
pub open spec fn polling_at(runtime: RuntimeView, outbox: OutboxView, now: u64) -> (
    RuntimeView,
    OutboxView,
) {
    if !runtime.polling || runtime.poll_in_flight || !poll_due(runtime.last_poll, now) {
        (runtime, outbox)
    } else {
        match runtime.active_run_id {
            None => (runtime, outbox),
            Some(run_id) => if outbox.open {
                (
                    RuntimeView { poll_in_flight: true, last_poll: Some(now), ..runtime },
                    OutboxView {
                        open: true,
                        sent: outbox.sent.push(
                            CommandView::PollEvents { run_id, from_offset: runtime.next_offset },
                        ),
                    },
                )
            } else {
                (RuntimeView { polling: false, ..runtime }, outbox)
            },
        }
    }
}

/// Asks for events where that is due.
pub fn maybe_poll_events(runtime: &mut UiRuntime, commands: &mut Outbox, now: u64)
    ensures
        (final(runtime)@, final(commands)@) == polling_at(old(runtime)@, old(commands)@, now),
{
    if !runtime.polling || runtime.poll_in_flight {
        return;
    }
    if let Some(last_poll) = runtime.last_poll {
        if now < last_poll || now - last_poll < ACTIVE_POLL_INTERVAL {
            return;
        }
    }
    let run_id = match &runtime.active_run_id {
        Some(run_id) => run_id.clone(),
        None => {
            return;
        },
    };
    let command = ClientCommand::PollEvents { run_id, from_offset: runtime.next_offset };
    if commands.send(command) {
        runtime.poll_in_flight = true;
        runtime.last_poll = Some(now);
    } else {
        runtime.polling = false;
    }
}

/// Whether an error says that the daemon is not reached.
pub open spec fn says_disconnected(error: Seq<char>) -> bool {
    text::contains_text(error, "Connection refused"@) || text::contains_text(
        error,
        "No such file"@,
    ) || text::contains_text(error, "connection closed"@) || text::contains_text(
        error,
        "unsupported_version"@,
    ) || text::contains_text(error, "workspace_mismatch"@) || text::contains_text(
        error,
        "DaemonLockHeld"@,
    )
}

/// Whether an error says that the daemon is not reached.
pub fn is_connection_error(error: &str) -> (r: bool)
    ensures
        r == says_disconnected(error@),
{
    text::has_text(error, "Connection refused") || text::has_text(error, "No such file")
        || text::has_text(error, "connection closed") || text::has_text(
        error,
        "unsupported_version",
    ) || text::has_text(error, "workspace_mismatch") || text::has_text(error, "DaemonLockHeld")
}

/// What the client of the interface reports.
#[derive(Debug, PartialEq, Eq)]
pub enum ClientEvent {
    Loaded(Box<TuiState>),
    RunStarted(RunStartResult),
    MessageAppended(RunStartResult),
    EventsPolled(EventsStreamResult),
    ApprovalDecided(CommandAcceptedResult),
    RunCanceled(CommandAcceptedResult),
    Failed { context: &'static str, error: String },
}

/// What a report stands for.
pub enum ClientEventView {
    Loaded(TuiView),
    RunStarted(StartedView),
    MessageAppended(StartedView),
    EventsPolled(PageView),
    ApprovalDecided(Seq<char>, RunStateName),
    RunCanceled(Seq<char>, RunStateName),
    Failed { context: Seq<char>, error: Seq<char> },
}

impl ClientEvent {
    /// The report that `self` stands for.
    pub open spec fn view(&self) -> ClientEventView {
        match self {
            ClientEvent::Loaded(loaded) => ClientEventView::Loaded(loaded@),
            ClientEvent::RunStarted(result) => ClientEventView::RunStarted(result@),
            ClientEvent::MessageAppended(result) => ClientEventView::MessageAppended(result@),
            ClientEvent::EventsPolled(result) => ClientEventView::EventsPolled(result@),
            ClientEvent::ApprovalDecided(result) => ClientEventView::ApprovalDecided(
                result.run_id@,
                result.status,
            ),
            ClientEvent::RunCanceled(result) => ClientEventView::RunCanceled(
                result.run_id@,
                result.status,
            ),
            ClientEvent::Failed { context, error } => ClientEventView::Failed {
                context: context@,
                error: error@,
            },
        }
    }
}

/// The report of an answer to an order to start a run.
pub open spec fn start_report(answer: Result<JsonView, Seq<char>>) -> ClientEventView {
    match answer {
        Ok(result) => match messages::started_in(result) {
            Some(started) => ClientEventView::RunStarted(started),
            None => ClientEventView::Failed {
                context: "run.start"@,
                error: "json error: "@ + client::unreadable(
                    result,
                    "run.start"@,
                    "RunStartResult"@,
                    client::started_fields(),
                    5,
                ),
            },
        },
        Err(error) => ClientEventView::Failed { context: "run.start"@, error },
    }
}

/// The report of an answer to an order for the next run of a session.
pub open spec fn append_report(answer: Result<JsonView, Seq<char>>) -> ClientEventView {
    match answer {
        Ok(result) => match messages::started_in(result) {
            Some(started) => ClientEventView::MessageAppended(started),
            None => ClientEventView::Failed {
                context: "message.append"@,
                error: "json error: "@ + client::unreadable(
                    result,
                    "message.append"@,
                    "RunStartResult"@,
                    client::started_fields(),
                    5,
                ),
            },
        },
        Err(error) => ClientEventView::Failed { context: "message.append"@, error },
    }
}

/// The report of an answer to a question for events.
pub open spec fn events_report(answer: Result<JsonView, Seq<char>>) -> ClientEventView {
    match answer {
        Ok(result) => match messages::page_in(result) {
            Some(page) => ClientEventView::EventsPolled(page),
            None => ClientEventView::Failed {
                context: "events.stream"@,
                error: "json error: "@ + client::unreadable(
                    result,
                    "events.stream"@,
                    "EventsStreamResult"@,
                    client::page_fields(),
                    5,
                ),
            },
        },
        Err(error) => ClientEventView::Failed { context: "events.stream"@, error },
    }
}

/// The report of an answer to a decision.
pub open spec fn decision_report(answer: Result<JsonView, Seq<char>>) -> ClientEventView {
    match answer {
        Ok(result) => match messages::accepted_in(result) {
            Some((run_id, status)) => ClientEventView::ApprovalDecided(run_id, status),
            None => ClientEventView::Failed {
                context: "approval.decide"@,
                error: "json error: "@ + client::unreadable(
                    result,
                    "approval.decide"@,
                    "CommandAcceptedResult"@,
                    client::accepted_fields(),
                    2,
                ),
            },
        },
        Err(error) => ClientEventView::Failed { context: "approval.decide"@, error },
    }
}

/// The report of an answer to an order to stop.
pub open spec fn cancel_report(answer: Result<JsonView, Seq<char>>) -> ClientEventView {
    match answer {
        Ok(result) => match messages::accepted_in(result) {
            Some((run_id, status)) => ClientEventView::RunCanceled(run_id, status),
            None => ClientEventView::Failed {
                context: "run.cancel"@,
                error: "json error: "@ + client::unreadable(
                    result,
                    "run.cancel"@,
                    "CommandAcceptedResult"@,
                    client::accepted_fields(),
                    2,
                ),
            },
        },
        Err(error) => ClientEventView::Failed { context: "run.cancel"@, error },
    }
}

/// The report of an answer to the request of a command; a state is loaded by several requests.
pub open spec fn report(command: CommandView, answer: Result<JsonView, Seq<char>>) -> Option<
    ClientEventView,
> {
    match command {
        CommandView::Load { .. } => None,
        CommandView::RunStart { .. } => Some(start_report(answer)),
        CommandView::MessageAppend { .. } => Some(append_report(answer)),
        CommandView::PollEvents { .. } => Some(events_report(answer)),
        CommandView::ApprovalGrant { .. } => Some(decision_report(answer)),
        CommandView::ApprovalDeny { .. } => Some(decision_report(answer)),
        CommandView::RunCancel { .. } => Some(cancel_report(answer)),
    }
}

/// What an answer stands for: a result, or an error in words.
pub open spec fn answer_view(answer: AppResult<Json>) -> Result<JsonView, Seq<char>> {
    match answer {
        Ok(result) => Ok(result@),
        Err(error) => Err(error::app_message(error)),
    }
}

fn report_failure(context: &'static str, error: AppError) -> (r: ClientEvent)
    ensures
        r@ == (ClientEventView::Failed { context: context@, error: error::app_message(error) }),
{
    ClientEvent::Failed { context, error: error.message() }
}

fn report_started(answer: AppResult<Json>) -> (r: ClientEvent)
    ensures
        r@ == start_report(answer_view(answer)),
{
    match answer {
        Ok(result) => match client::started_result(&result, "run.start") {
            Ok(started) => ClientEvent::RunStarted(started),
            Err(error) => report_failure("run.start", error),
        },
        Err(error) => report_failure("run.start", error),
    }
}

fn report_appended(answer: AppResult<Json>) -> (r: ClientEvent)
    ensures
        r@ == append_report(answer_view(answer)),
{
    match answer {
        Ok(result) => match client::started_result(&result, "message.append") {
            Ok(started) => ClientEvent::MessageAppended(started),
            Err(error) => report_failure("message.append", error),
        },
        Err(error) => report_failure("message.append", error),
    }
}

fn report_events(answer: AppResult<Json>) -> (r: ClientEvent)
    ensures
        r@ == events_report(answer_view(answer)),
{
    match answer {
        Ok(result) => match client::events_result(&result) {
            Ok(page) => ClientEvent::EventsPolled(page),
            Err(error) => report_failure("events.stream", error),
        },
        Err(error) => report_failure("events.stream", error),
    }
}

fn report_decision(answer: AppResult<Json>) -> (r: ClientEvent)
    ensures
        r@ == decision_report(answer_view(answer)),
{
    match answer {
        Ok(result) => match client::accepted_result(&result, "approval.decide") {
            Ok(accepted) => ClientEvent::ApprovalDecided(accepted),
            Err(error) => report_failure("approval.decide", error),
        },
        Err(error) => report_failure("approval.decide", error),
    }
}

fn report_cancel(answer: AppResult<Json>) -> (r: ClientEvent)
    ensures
        r@ == cancel_report(answer_view(answer)),
{
    match answer {
        Ok(result) => match client::accepted_result(&result, "run.cancel") {
            Ok(accepted) => ClientEvent::RunCanceled(accepted),
            Err(error) => report_failure("run.cancel", error),
        },
        Err(error) => report_failure("run.cancel", error),
    }
}

/// The report of an answer to the request of a command; a state is loaded by several requests.
pub fn handle_client_answer(command: &ClientCommand, answer: AppResult<Json>) -> (r: Option<
    ClientEvent,
>)
    ensures
        (match r {
            Some(event) => Some(event@),
            None => None,
        }) == report(command@, answer_view(answer)),
{
    match command {
        ClientCommand::Load { .. } => None,
        ClientCommand::RunStart { .. } => Some(report_started(answer)),
        ClientCommand::MessageAppend { .. } => Some(report_appended(answer)),
        ClientCommand::PollEvents { .. } => Some(report_events(answer)),
        ClientCommand::ApprovalGrant { .. } => Some(report_decision(answer)),
        ClientCommand::ApprovalDeny { .. } => Some(report_decision(answer)),
        ClientCommand::RunCancel { .. } => Some(report_cancel(answer)),
    }
}

/// The interface as a whole: what it shows, what it remembers and what it has given.
pub struct UiView {
    pub state: TuiView,
    pub runtime: RuntimeView,
    pub outbox: OutboxView,
}

/// The session that is selected after a state was loaded: the one that was, or none where none was; an
/// interface that had not reached the daemon takes that of the loaded state.
pub open spec fn kept_selection(state: TuiView, loaded: TuiView) -> Option<Seq<char>> {
    if state.selected_session is None && state.connection is Disconnected {
        loaded.selected_session
    } else {
        state.selected_session
    }
}

/// What is shown after a state was loaded: that state, with what was being written, what was being
/// picked and what was selected, and with what the loaded state says nothing of.
pub open spec fn loading(state: TuiView, loaded: TuiView) -> TuiView {
    TuiView {
        composer: state.composer,
        selected_session: kept_selection(state, loaded),
        picker: state.picker,
        status_message: if loaded.status_message is None {
            state.status_message
        } else {
            loaded.status_message
        },
        stream_warning: if loaded.stream_warning is None {
            state.stream_warning
        } else {
            loaded.stream_warning
        },
        live_events: if loaded.live_events.len() == 0 {
            state.live_events
        } else {
            loaded.live_events
        },
        cancel_requested: if followed(loaded) == followed(state) {
            state.cancel_requested
        } else {
            loaded.cancel_requested
        },
        ..loaded
    }
}

fn same_option(a: &Option<String>, b: &Option<String>) -> (r: bool)
    ensures
        r == (text::opt_view(*a) == text::opt_view(*b)),
{
    match (a, b) {
        (Some(a), Some(b)) => text::same_text(a.as_str(), b.as_str()),
        (None, None) => true,
        _ => false,
    }
}

fn copy_lines(lines: &Vec<LiveEventLine>) -> (r: Vec<LiveEventLine>)
    ensures
        state::event_lines(r@) == state::event_lines(lines@),
{
    let mut r: Vec<LiveEventLine> = Vec::new();
    let mut i: usize = 0;
    while i < lines.len()
        invariant
            0 <= i <= lines@.len(),
            r@ == lines@.take(i as int),
        decreases lines@.len() - i,
    {
        r.push(lines[i].clone());
        assert(r@ =~= lines@.take(i + 1));
        i += 1;
    }
    assert(r@ =~= lines@);
    r
}

/// Shows a loaded state.
pub fn apply_loaded_state(state: &mut TuiState, loaded: TuiState)
    ensures
        final(state)@ == loading(old(state)@, loaded@),
{
    let mut loaded = loaded;
    if same_option(&followed_run(&loaded), &followed_run(state)) {
        loaded.cancel_requested = state.cancel_requested;
    }
    loaded.composer = state.composer.clone();
    loaded.picker = state.picker;
    if state.selected_session.is_some() || !state.is_disconnected() {
        loaded.selected_session = text::copy_option(&state.selected_session);
    }
    if loaded.status_message.is_none() {
        loaded.status_message = text::copy_option(&state.status_message);
    }
    if loaded.stream_warning.is_none() {
        loaded.stream_warning = text::copy_option(&state.stream_warning);
    }
    if loaded.live_events.len() == 0 {
        loaded.live_events = copy_lines(&state.live_events);
    }
    *state = loaded;
}

/// The interface after a run was started: it follows the run, and the next message continues the
/// session of the run.
pub open spec fn run_answered(ui: UiView, result: StartedView, message: Seq<char>) -> UiView {
    let said = message + ": "@ + result.run_id;
    UiView {
        state: with_line(
            TuiView {
                status_message: Some(said),
                stream_warning: None,
                cancel_requested: false,
                approval: None,
                active_run: Some((result.run_id, result.status.wire())),
                selected_session: Some(result.session_id),
                ..ui.state
            },
            None,
            said,
        ),
        runtime: RuntimeView {
            active_run_id: Some(result.run_id),
            next_offset: 0,
            poll_in_flight: false,
            polling: result.status == RunStateName::Running,
            last_poll: None,
            tool_inputs: Seq::empty(),
        },
        outbox: ui.outbox,
    }
}

/// Follows a run that was started.
pub fn apply_run_response(
    state: &mut TuiState,
    runtime: &mut UiRuntime,
    result: RunStartResult,
    message: &str,
)
    ensures
        final(state)@ == run_answered(
            UiView {
                state: old(state)@,
                runtime: old(runtime)@,
                outbox: OutboxView { open: true, sent: Seq::empty() },
            },
            result@,
            message@,
        ).state,
        final(runtime)@ == run_answered(
            UiView {
                state: old(state)@,
                runtime: old(runtime)@,
                outbox: OutboxView { open: true, sent: Seq::empty() },
            },
            result@,
            message@,
        ).runtime,
{
    let said = text::text3(message, ": ", result.run_id.as_str());
    state.status_message = Some(said.clone());
    state.stream_warning = None;
    state.cancel_requested = false;
    state.approval = None;
    state.active_run =
    Some(
        ActiveRunView {
            run_id: result.run_id.clone(),
            status: result.status.as_str().to_owned(),
        },
    );
    state.selected_session = Some(result.session_id);
    push_live_event(state, None, said.as_str());
    *runtime =
    UiRuntime {
        active_run_id: Some(result.run_id),
        next_offset: 0,
        poll_in_flight: false,
        polling: result.status == RunStateName::Running,
        last_poll: None,
        tool_inputs: Vec::new(),
    };
    assert(input_rows(runtime.tool_inputs@) =~= Seq::empty());
}

/// The call that an event is about.
pub open spec fn event_call(event: JsonView) -> Option<Seq<char>> {
    match json::member_of(event, "event"@) {
        Some(event) => json::text_in(json::member_of(event, "tool_call_id"@)),
        None => None,
    }
}

fn event_call_id(event: &Json) -> (r: Option<String>)
    ensures
        text::opt_view(r) == event_call(event@),
{
    match event.get("event") {
        Some(event) => event.text_member("tool_call_id"),
        None => None,
    }
}

/// The shown approval after the input of a call became known.
pub open spec fn with_input(
    approval: Option<ModalView>,
    call_id: Seq<char>,
    preview: Seq<char>,
) -> Option<ModalView> {
    match approval {
        Some(approval) => if approval.tool_call_id == call_id {
            Some(ModalView { input_preview: preview, ..approval })
        } else {
            Some(approval)
        },
        None => None,
    }
}

/// What is shown and remembered after an event of the run: the input of a proposed call, an approval
/// that is asked for, and a line.
pub open spec fn event_shown(state: TuiView, runtime: RuntimeView, event: JsonView) -> (
    TuiView,
    RuntimeView,
) {
    let (state, runtime) = match modal::proposed_input(event) {
        Some((call_id, preview)) => (
            TuiView { approval: with_input(state.approval, call_id, preview), ..state },
            RuntimeView {
                tool_inputs: table::with_row(runtime.tool_inputs, call_id, preview),
                ..runtime
            },
        ),
        None => (state, runtime),
    };
    let known = input_of(runtime.tool_inputs, event_call(event));
    let state = match modal::approval_in(event, known) {
        Some(approval) => TuiView { approval: Some(approval), ..state },
        None => state,
    };
    (
        with_line(
            state,
            json::u64_in(json::member_of(event, "offset"@)),
            modal::line_text(event),
        ),
        runtime,
    )
}

/// What is shown and remembered after events of the run.
pub open spec fn events_shown(state: TuiView, runtime: RuntimeView, events: Seq<JsonView>) -> (
    TuiView,
    RuntimeView,
)
    decreases events.len(),
{
    if events.len() == 0 {
        (state, runtime)
    } else {
        let (state, runtime) = events_shown(state, runtime, events.drop_last());
        event_shown(state, runtime, events.last())
    }
}

fn apply_event(state: &mut TuiState, runtime: &mut UiRuntime, event: &Json)
    ensures
        (final(state)@, final(runtime)@) == event_shown(old(state)@, old(runtime)@, event@),
{
    if let Some((call_id, preview)) = modal::tool_input_preview_from_event(event) {
        runtime.remember_input(call_id.as_str(), preview.as_str());
        let shown = match &state.approval {
            Some(approval) => if text::same_text(
                approval.tool_call_id.as_str(),
                call_id.as_str(),
            ) {
                let mut approval = approval.clone();
                approval.input_preview = preview;
                Some(approval)
            } else {
                Some(approval.clone())
            },
            None => None,
        };
        state.approval = shown;
    }
    let known = runtime.remembered_input(&event_call_id(event));
    if let Some(approval) = modal::approval_from_event(event, known) {
        state.approval = Some(approval);
    }
    let line = modal::live_event_line(event);
    push_live_event(state, line.offset, line.text.as_str());
}

/// The interface after events of the run that is followed were read. The transcript of a run that no
/// longer goes on is read again.
pub open spec fn page_answered(ui: UiView, result: PageView) -> UiView {
    let (state, runtime) = events_shown(
        TuiView {
            stream_warning: None,
            active_run: Some((result.run_id, result.status.wire())),
            ..ui.state
        },
        RuntimeView {
            poll_in_flight: false,
            next_offset: result.next_offset,
            polling: result.status == RunStateName::Running,
            ..ui.runtime
        },
        result.events,
    );
    if result.status != RunStateName::Running {
        let (state, outbox) = sent(
            state,
            ui.outbox,
            CommandView::Load { run_id: Some(result.run_id) },
        );
        UiView { state, runtime, outbox }
    } else {
        UiView { state, runtime, outbox: ui.outbox }
    }
}

/// Shows events of the run that is followed.
pub fn apply_events_result(
    state: &mut TuiState,
    runtime: &mut UiRuntime,
    commands: &mut Outbox,
    result: EventsStreamResult,
)
    ensures
        (UiView { state: final(state)@, runtime: final(runtime)@, outbox: final(commands)@ })
            == page_answered(
            UiView { state: old(state)@, runtime: old(runtime)@, outbox: old(commands)@ },
            result@,
        ),
{
    runtime.poll_in_flight = false;
    runtime.next_offset = result.next_offset;
    runtime.polling = result.status == RunStateName::Running;
    state.stream_warning = None;
    state.active_run =
    Some(
        ActiveRunView {
            run_id: result.run_id.clone(),
            status: result.status.as_str().to_owned(),
        },
    );
    let ghost events = json::json_views(result.events@);
    let ghost first = (state@, runtime@);
    assert(events.take(0) =~= Seq::<JsonView>::empty());
    let mut i: usize = 0;
    while i < result.events.len()
        invariant
            0 <= i <= result.events@.len(),
            events == json::json_views(result.events@),
            (state@, runtime@) == events_shown(first.0, first.1, events.take(i as int)),
        decreases result.events@.len() - i,
    {
        assert(events.take(i + 1).drop_last() =~= events.take(i as int));
        assert(events.take(i + 1).last() == result.events@[i as int]@);
        apply_event(state, runtime, &result.events[i]);
        i += 1;
    }
    assert(events.take(events.len() as int) =~= events);
    if result.status != RunStateName::Running {
        send_command(commands, ClientCommand::Load { run_id: Some(result.run_id) }, state);
    }
}

/// The interface after its client failed.
pub open spec fn failure_shown(ui: UiView, context: Seq<char>, error: Seq<char>) -> UiView {
    let runtime = RuntimeView { poll_in_flight: false, ..ui.runtime };
    if context == "events.stream"@ && text::starts_with(error, "lagged:"@) {
        let state = TuiView {
            stream_warning: Some(error + "; transcript refresh requested"@),
            ..ui.state
        };
        match runtime.active_run_id {
            Some(run_id) => {
                let (state, outbox) = sent(
                    state,
                    ui.outbox,
                    CommandView::Load { run_id: Some(run_id) },
                );
                UiView { state, runtime, outbox }
            },
            None => UiView { state, runtime, outbox: ui.outbox },
        }
    } else if context == "events.stream"@ && text::starts_with(error, "overload:"@) {
        UiView {
            state: TuiView { stream_warning: Some(error), ..ui.state },
            runtime,
            outbox: ui.outbox,
        }
    } else {
        UiView {
            state: TuiView {
                connection: if says_disconnected(error) {
                    ConnectionView::Disconnected { error }
                } else {
                    ui.state.connection
                },
                cancel_requested: ui.state.cancel_requested && context != "run.cancel"@,
                status_message: Some(context + " failed: "@ + error),
                ..ui.state
            },
            runtime: RuntimeView {
                polling: runtime.polling && !says_disconnected(error),
                ..runtime
            },
            outbox: ui.outbox,
        }
    }
}

fn apply_failure(
    state: &mut TuiState,
    runtime: &mut UiRuntime,
    commands: &mut Outbox,
    context: &str,
    error: String,
)
    ensures
        (UiView { state: final(state)@, runtime: final(runtime)@, outbox: final(commands)@ })
            == failure_shown(
            UiView { state: old(state)@, runtime: old(runtime)@, outbox: old(commands)@ },
            context@,
            error@,
        ),
{
    runtime.poll_in_flight = false;
    let of_stream = text::same_text(context, "events.stream");
    if of_stream && text::has_prefix(error.as_str(), "lagged:") {
        state.stream_warning =
        Some(text::text2(error.as_str(), "; transcript refresh requested"));
        if let Some(run_id) = &runtime.active_run_id {
            send_command(
                commands,
                ClientCommand::Load { run_id: Some(run_id.clone()) },
                state,
            );
        }
    } else if of_stream && text::has_prefix(error.as_str(), "overload:") {
        state.stream_warning = Some(error);
    } else {
        if is_connection_error(error.as_str()) {
            runtime.polling = false;
            state.connection = ConnectionState::Disconnected { error: error.clone() };
        }
        if text::same_text(context, "run.cancel") {
            state.cancel_requested = false;
        }
        state.status_message = Some(text::text3(context, " failed: ", error.as_str()));
    }
}

/// The interface after a report of its client.
pub open spec fn event_applied(ui: UiView, event: ClientEventView, now: u64) -> UiView {
    match event {
        ClientEventView::Loaded(loaded) => {
            let state = loading(ui.state, loaded);
            UiView { state, runtime: runtime_of(state, now), outbox: ui.outbox }
        },
        ClientEventView::RunStarted(result) => run_answered(ui, result, "run started"@),
        ClientEventView::MessageAppended(result) => run_answered(ui, result, "message appended"@),
        ClientEventView::EventsPolled(result) => page_answered(ui, result),
        ClientEventView::ApprovalDecided(run_id, status) => UiView {
            state: TuiView {
                status_message: Some("approval decision sent for "@ + run_id),
                approval: None,
                active_run: Some((run_id, status.wire())),
                ..ui.state
            },
            ..ui
        },
        ClientEventView::RunCanceled(run_id, status) => UiView {
            state: with_line(
                TuiView {
                    status_message: Some("cancel requested for "@ + run_id),
                    cancel_requested: true,
                    approval: None,
                    active_run: Some((run_id, status.wire())),
                    ..ui.state
                },
                None,
                "cancel requested: "@ + run_id,
            ),
            ..ui
        },
        ClientEventView::Failed { context, error } => failure_shown(ui, context, error),
    }
}

/// The interface after reports of its client.
pub open spec fn events_applied(ui: UiView, events: Seq<ClientEventView>, now: u64) -> UiView
    decreases events.len(),
{
    if events.len() == 0 {
        ui
    } else {
        event_applied(events_applied(ui, events.drop_last(), now), events.last(), now)
    }
}

/// What reports stand for.
pub open spec fn client_events(events: Seq<ClientEvent>) -> Seq<ClientEventView> {
    Seq::new(events.len(), |i: int| events[i]@)
}

/// Takes a report of the client.
pub fn apply_client_event(
    state: &mut TuiState,
    runtime: &mut UiRuntime,
    event: ClientEvent,
    commands: &mut Outbox,
    now: u64,
)
    ensures
        (UiView { state: final(state)@, runtime: final(runtime)@, outbox: final(commands)@ })
            == event_applied(
            UiView { state: old(state)@, runtime: old(runtime)@, outbox: old(commands)@ },
            event@,
            now,
        ),
{
    match event {
        ClientEvent::Loaded(loaded) => {
            apply_loaded_state(state, *loaded);
            runtime.sync_from_state(state, now);
        },
        ClientEvent::RunStarted(result) => {
            apply_run_response(state, runtime, result, "run started");
        },
        ClientEvent::MessageAppended(result) => {
            apply_run_response(state, runtime, result, "message appended");
        },
        ClientEvent::EventsPolled(result) => {
            apply_events_result(state, runtime, commands, result);
        },
        ClientEvent::ApprovalDecided(result) => {
            state.status_message =
            Some(text::text2("approval decision sent for ", result.run_id.as_str()));
            state.approval = None;
            state.active_run =
            Some(
                ActiveRunView {
                    run_id: result.run_id,
                    status: result.status.as_str().to_owned(),
                },
            );
        },
        ClientEvent::RunCanceled(result) => {
            let said = text::text2("cancel requested: ", result.run_id.as_str());
            state.status_message =
            Some(text::text2("cancel requested for ", result.run_id.as_str()));
            state.cancel_requested = true;
            state.approval = None;
            state.active_run =
            Some(
                ActiveRunView {
                    run_id: result.run_id,
                    status: result.status.as_str().to_owned(),
                },
            );
            push_live_event(state, None, said.as_str());
        },
        ClientEvent::Failed { context, error } => {
            apply_failure(state, runtime, commands, context, error);
        },
    }
}

/// Takes all reports that the client has made, in their order.
pub fn drain_client_events(
    state: &mut TuiState,
    runtime: &mut UiRuntime,
    events: Vec<ClientEvent>,
    commands: &mut Outbox,
    now: u64,
)
    ensures
        (UiView { state: final(state)@, runtime: final(runtime)@, outbox: final(commands)@ })
            == events_applied(
            UiView { state: old(state)@, runtime: old(runtime)@, outbox: old(commands)@ },
            client_events(events@),
            now,
        ),
{
    let ghost all = client_events(events@);
    let ghost ui = UiView { state: state@, runtime: runtime@, outbox: commands@ };
    assert(all.take(0) =~= Seq::<ClientEventView>::empty());
    let mut rest = events;
    let ghost mut taken: int = 0;
    while rest.len() > 0
        invariant
            0 <= taken <= all.len(),
            client_events(rest@) == all.skip(taken),
            (UiView { state: state@, runtime: runtime@, outbox: commands@ }) == events_applied(
                ui,
                all.take(taken),
                now,
            ),
        decreases rest@.len(),
    {
        assert(client_events(rest@).len() == rest@.len());
        assert(all.skip(taken)[0] == all[taken]);
        let ghost before = client_events(rest@);
        let event = rest.remove(0);
        assert(client_events(rest@) =~= all.skip(taken + 1)) by {
            assert(before.skip(1) =~= all.skip(taken + 1));
            assert(client_events(rest@) =~= before.skip(1));
        }
        assert(event@ == all[taken]);
        assert(all.take(taken + 1).drop_last() =~= all.take(taken));
        assert(all.take(taken + 1).last() == all[taken]);
        apply_client_event(state, runtime, event, commands, now);
        proof {
            taken = taken + 1;
        }
    }
    assert(client_events(rest@).len() == 0);
    assert(all.skip(taken).len() == all.len() - taken);
    assert(all.take(taken) =~= all);
}

/// The run that is to be shown: the one asked for, or that of the first session.
pub open spec fn run_to_show(asked: Option<Seq<char>>, sessions: Seq<SummaryView>) -> Option<
    Seq<char>,
> {
    match asked {
        Some(run_id) => Some(run_id),
        None => if sessions.len() == 0 {
            None
        } else {
            Some(sessions[0].run_id)
        },
    }
}

/// The run that is to be shown.
pub fn selected_run(asked: Option<String>, sessions: &Vec<SessionSummary>) -> (r: Option<String>)
    ensures
        text::opt_view(r) == run_to_show(
            text::opt_view(asked),
            messages::summary_views(sessions@),
        ),
{
    match asked {
        Some(run_id) => Some(run_id),
        None => {
            if sessions.len() == 0 {
                None
            } else {
                Some(sessions[0].run_id.clone())
            }
        },
    }
}

/// What is shown of a run whose transcript was asked for.
pub fn shown_transcript(run_id: String, answer: Result<TranscriptReadResult, String>) -> (r:
    TranscriptState)
    ensures
        r@ == match answer {
            Ok(transcript) => ShownView::Loaded {
                run_id: transcript.run_id@,
                content: transcript.transcript@,
            },
            Err(error) => ShownView::Unavailable { run_id: run_id@, error: error@ },
        },
{
    match answer {
        Ok(transcript) => TranscriptState::Loaded(TranscriptView::from_result(transcript)),
        Err(error) => TranscriptState::Unavailable { run_id, error },
    }
}

/// The first session whose run goes on.
pub open spec fn running_session(sessions: Seq<SummaryView>) -> Option<(Seq<char>, Seq<char>)>
    decreases sessions.len(),
{
    if sessions.len() == 0 {
        None
    } else if sessions[0].status == RunStateName::Running {
        Some((sessions[0].run_id, "running"@))
    } else {
        running_session(sessions.skip(1))
    }
}

/// The run whose transcript is shown.
pub open spec fn shown_run(transcript: ShownView) -> Option<Seq<char>> {
    match transcript {
        ShownView::Empty => None,
        ShownView::Loaded { run_id, .. } => Some(run_id),
        ShownView::Unavailable { run_id, .. } => Some(run_id),
    }
}

/// The first session that is listed with a run, if one is.
pub open spec fn session_of_run(sessions: Seq<SummaryView>, run_id: Option<Seq<char>>) -> Option<
    Seq<char>,
>
    decreases sessions.len(),
{
    if sessions.len() == 0 {
        None
    } else if run_id == Some(sessions[0].run_id) {
        Some(sessions[0].session_id)
    } else {
        session_of_run(sessions.skip(1), run_id)
    }
}

/// The session that is selected at first: that of the run that is shown, or else the latest one, which
/// stands first in the list.
pub open spec fn session_to_select(sessions: Seq<SummaryView>, transcript: ShownView) -> Option<
    Seq<char>,
> {
    match session_of_run(sessions, shown_run(transcript)) {
        Some(session_id) => Some(session_id),
        None => if sessions.len() == 0 {
            None
        } else {
            Some(sessions[0].session_id)
        },
    }
}

fn selected_session(sessions: &Vec<SessionSummary>, transcript: &TranscriptState) -> (r: Option<
    String,
>)
    ensures
        text::opt_view(r) == session_to_select(messages::summary_views(sessions@), transcript@),
{
    let ghost views = messages::summary_views(sessions@);
    let run = match transcript {
        TranscriptState::Empty => None,
        TranscriptState::Loaded(transcript) => Some(transcript.run_id.clone()),
        TranscriptState::Unavailable { run_id, .. } => Some(run_id.clone()),
    };
    let mut i: usize = 0;
    assert(views.skip(0) =~= views);
    while i < sessions.len()
        invariant
            0 <= i <= sessions@.len(),
            views == messages::summary_views(sessions@),
            text::opt_view(run) == shown_run(transcript@),
            session_of_run(views, text::opt_view(run)) == session_of_run(
                views.skip(i as int),
                text::opt_view(run),
            ),
        decreases sessions@.len() - i,
    {
        assert(views.skip(i as int)[0] == sessions@[i as int]@);
        assert(views.skip(i as int).skip(1) =~= views.skip(i + 1));
        if text::is_text(&run, sessions[i].run_id.as_str()) {
            return Some(sessions[i].session_id.clone());
        }
        i += 1;
    }
    assert(views.skip(i as int).len() == 0);
    if sessions.len() == 0 {
        None
    } else {
        assert(views[0] == sessions@[0]@);
        Some(sessions[0].session_id.clone())
    }
}

/// The state of an interface that has read all that it shows. It follows the run that goes on, and the
/// latest session is selected unless the run of another one is shown.
pub fn loaded_state(
    workspace_root: String,
    socket_path: String,
    hello: HelloResult,
    sessions: Vec<SessionSummary>,
    transcript: TranscriptState,
) -> (r: TuiState)
    ensures
        r@ == (TuiView {
            active_run: running_session(messages::summary_views(sessions@)),
            selected_session: session_to_select(
                messages::summary_views(sessions@),
                transcript@,
            ),
            ..state::fresh_view(
                workspace_root@,
                socket_path@,
                state::connection_of(hello),
                messages::summary_views(sessions@),
                transcript@,
            )
        }),
{
    let ghost views = messages::summary_views(sessions@);
    let mut active: Option<ActiveRunView> = None;
    let mut i: usize = 0;
    assert(views.skip(0) =~= views);
    while i < sessions.len() && active.is_none()
        invariant
            0 <= i <= sessions@.len(),
            views == messages::summary_views(sessions@),
            active is None ==> running_session(views) == running_session(views.skip(i as int)),
            active is Some ==> state::run_view(active) == running_session(views),
        decreases sessions@.len() - i,
    {
        assert(views.skip(i as int)[0] == sessions@[i as int]@);
        assert(views.skip(i as int).skip(1) =~= views.skip(i + 1));
        if sessions[i].status == RunStateName::Running {
            active =
            Some(
                ActiveRunView { run_id: sessions[i].run_id.clone(), status: "running".to_owned() },
            );
        }
        i += 1;
    }
    let selected = selected_session(&sessions, &transcript);
    let mut r = TuiState::connected(workspace_root, socket_path, hello, sessions, transcript);
    r.active_run = active;
    r.selected_session = selected;
    r
}

/// A run that was asked to stop is not asked again: the second time the interface ends.
pub proof fn law_second_cancel_ends(state: TuiView, outbox: OutboxView)
    requires
        canceling(state, outbox).0,
    ensures
        ({
            let (_, state, outbox) = canceling(state, outbox);
            canceling(state, outbox) == (false, state, outbox)
        }),
{
}

/// A decision is given once: after it nothing is shown that could be decided.
pub proof fn law_decisions_are_given_once(
    state: TuiView,
    outbox: OutboxView,
    first: ApprovalAction,
    second: ApprovalAction,
)
    ensures
        ({
            let (after, given) = deciding(state, outbox, first);
            &&& after.approval is None
            &&& deciding(after, given, second) == (after, given)
        }),
{
}

/// Backspace takes back what was typed.
pub proof fn law_backspace_undoes_typing(
    c: char,
    state: TuiView,
    runtime: RuntimeView,
    outbox: OutboxView,
    initial_run_id: Option<Seq<char>>,
    config_path: Option<Seq<char>>,
)
    requires
        state.approval is None,
        state.picker is None,
        !(c == 'q' && state.composer.len() == 0),
        !(c == 'r' && state.connection is Disconnected),
    ensures
        ({
            let typed = Key { code: KeyCode::Char(c), control: false, alt: false };
            let back = Key { code: KeyCode::Backspace, control: false, alt: false };
            let (stays, after, given) = key_pressed(
                typed,
                state,
                runtime,
                outbox,
                initial_run_id,
                config_path,
            );
            &&& stays
            &&& after.composer == state.composer.push(c)
            &&& key_pressed(back, after, runtime, given, initial_run_id, config_path) == (
                true,
                state,
                outbox,
            )
        }),
{
    assert(state.composer.push(c).drop_last() =~= state.composer);
}

/// Messages continue the selected session, and that of a run that was started is selected: whatever
/// order starts a run, the next message goes to the session of that run.
pub proof fn law_messages_continue_the_session(
    ui: UiView,
    result: StartedView,
    said: Seq<char>,
    runtime: RuntimeView,
    composer: Seq<char>,
    config_path: Option<Seq<char>>,
)
    requires
        !text::is_blank(composer),
        !asks_anew(composer),
        !asks_for_sessions(composer),
        !(runtime.polling && runtime.active_run_id is Some),
        ui.outbox.open,
    ensures
        ({
            let after = run_answered(ui, result, said);
            let (_, given) = submitting(
                TuiView { composer, ..after.state },
                runtime,
                after.outbox,
                config_path,
            );
            given.sent == ui.outbox.sent.push(
                CommandView::MessageAppend {
                    message: text::trim(composer),
                    session_id: result.session_id,
                    config_path,
                },
            )
        }),
{
}

/// Once the selection was cleared, the next message starts a new session, also where the state was
/// loaded again in between from a daemon that was reached.
pub proof fn law_cleared_selections_start_anew(
    state: TuiView,
    loaded: TuiView,
    outbox: OutboxView,
    first: RuntimeView,
    second: RuntimeView,
    composer: Seq<char>,
    config_path: Option<Seq<char>>,
)
    requires
        asks_anew(state.composer),
        state.connection is Connected,
        !text::is_blank(composer),
        !asks_anew(composer),
        !asks_for_sessions(composer),
        !(second.polling && second.active_run_id is Some),
        outbox.open,
    ensures
        ({
            let (cleared, given) = submitting(state, first, outbox, config_path);
            let start = CommandView::RunStart { question: text::trim(composer), config_path };
            &&& given == outbox
            &&& submitting(
                TuiView { composer, ..cleared },
                second,
                given,
                config_path,
            ).1.sent == outbox.sent.push(start)
            &&& submitting(
                TuiView { composer, ..loading(cleared, loaded) },
                second,
                given,
                config_path,
            ).1.sent == outbox.sent.push(start)
        }),
{
    reveal_strlit("/new");
    text::lemma_blank_trims_to_nothing(state.composer);
}

/// A list of sessions that was opened and closed leaves everything as it was, but for what was written
/// to open it.
pub proof fn law_closed_pickers_change_nothing(
    state: TuiView,
    runtime: RuntimeView,
    outbox: OutboxView,
    initial_run_id: Option<Seq<char>>,
    config_path: Option<Seq<char>>,
)
    requires
        asks_for_sessions(state.composer),
        state.approval is None,
        state.picker is None,
    ensures
        ({
            let enter = Key { code: KeyCode::Enter, control: false, alt: false };
            let esc = Key { code: KeyCode::Esc, control: false, alt: false };
            let (_, open, given) = key_pressed(
                enter,
                state,
                runtime,
                outbox,
                initial_run_id,
                config_path,
            );
            &&& open.picker == Some(0usize)
            &&& key_pressed(esc, open, runtime, given, initial_run_id, config_path) == (
                true,
                TuiView { composer: Seq::empty(), ..state },
                outbox,
            )
        }),
{
    reveal_strlit("/new");
    reveal_strlit("/sessions");
    text::lemma_blank_trims_to_nothing(state.composer);
    assert("/new"@.len() != "/sessions"@.len());
}

/// Events are asked for one question at a time.
pub proof fn law_one_question_at_a_time(
    runtime: RuntimeView,
    outbox: OutboxView,
    first: u64,
    second: u64,
)
    ensures
        ({
            let (after, given) = polling_at(runtime, outbox, first);
            given.sent != outbox.sent ==> polling_at(after, given, second) == (after, given)
        }),
{
}

/// Whatever the client reports, the live events that are kept stay bounded.
pub proof fn law_live_events_are_bounded(ui: UiView, events: Seq<ClientEventView>, now: u64)
    requires
        ui.state.live_events.len() <= MAX_LIVE_EVENT_LINES,
        forall|i: int|
            0 <= i < events.len() ==> ((#[trigger] events[i]) matches ClientEventView::Loaded(
                loaded,
            ) ==> loaded.live_events.len() <= MAX_LIVE_EVENT_LINES),
    ensures
        events_applied(ui, events, now).state.live_events.len() <= MAX_LIVE_EVENT_LINES,
    decreases events.len(),
{
    if events.len() > 0 {
        let before = events_applied(ui, events.drop_last(), now);
        law_live_events_are_bounded(ui, events.drop_last(), now);
        assert(events.last() == events[events.len() - 1]);
        if let ClientEventView::EventsPolled(result) = events.last() {
            lemma_events_keep_bound(
                TuiView {
                    stream_warning: None,
                    active_run: Some((result.run_id, result.status.wire())),
                    ..before.state
                },
                RuntimeView {
                    poll_in_flight: false,
                    next_offset: result.next_offset,
                    polling: result.status == RunStateName::Running,
                    ..before.runtime
                },
                result.events,
            );
        }
    }
}

proof fn lemma_events_keep_bound(state: TuiView, runtime: RuntimeView, events: Seq<JsonView>)
    requires
        state.live_events.len() <= MAX_LIVE_EVENT_LINES,
    ensures
        events_shown(state, runtime, events).0.live_events.len() <= MAX_LIVE_EVENT_LINES,
    decreases events.len(),
{
    if events.len() > 0 {
        lemma_events_keep_bound(state, runtime, events.drop_last());
    }
}

/// What the user decides is what is sent: a grant as a grant, a refusal as a refusal with its reason, each
/// for its run and its call. A cancellation is sent for its run, a question as a new run, a message to its
/// session, and events are asked for from where the last page ended.
pub proof fn law_commands_are_sent_as_given(
    run_id: Seq<char>,
    call_id: Seq<char>,
    said: Seq<char>,
    session_id: Seq<char>,
    config_path: Option<Seq<char>>,
    from_offset: u64,
)
    ensures
        command_request(CommandView::ApprovalGrant { run_id, tool_call_id: call_id }) == Some(
            request::decide_view(run_id, call_id, "grant"@, None),
        ),
        command_request(
            CommandView::ApprovalDeny { run_id, tool_call_id: call_id, reason: said },
        ) == Some(request::decide_view(run_id, call_id, "deny"@, Some(said))),
        command_request(CommandView::RunCancel { run_id }) == Some(request::cancel_view(run_id)),
        command_request(CommandView::RunStart { question: said, config_path }) == Some(
            request::run_start_view(said, config_path, false),
        ),
        command_request(
            CommandView::MessageAppend { message: said, session_id, config_path },
        ) == Some(request::message_append_view(said, Some(session_id), config_path, false)),
        command_request(CommandView::PollEvents { run_id, from_offset }) == Some(
            request::events_view(run_id, Some(from_offset), 32),
        ),
{
}

/// While an approval is asked for, one key grants it and one refuses it: just that call of that run, once.
/// Every other key decides nothing, and leaving sends nothing.
pub proof fn law_keys_decide_what_is_shown(
    key: Key,
    state: TuiView,
    runtime: RuntimeView,
    outbox: OutboxView,
    initial_run_id: Option<Seq<char>>,
    config_path: Option<Seq<char>>,
)
    requires
        state.approval is Some,
        outbox.open,
        !(key.code == KeyCode::Char('c') && key.control),
    ensures
        ({
            let shown = state.approval->Some_0;
            let (stays, after, given) = key_pressed(
                key,
                state,
                runtime,
                outbox,
                initial_run_id,
                config_path,
            );
            &&& key.code == KeyCode::Char('g') ==> stays && after.approval is None && given.sent
                == outbox.sent.push(
                CommandView::ApprovalGrant {
                    run_id: shown.run_id,
                    tool_call_id: shown.tool_call_id,
                },
            )
            &&& key.code == KeyCode::Char('d') ==> stays && after.approval is None && (given.sent.len()
                == outbox.sent.len() + 1 && (given.sent.last() matches CommandView::ApprovalDeny {
                run_id,
                tool_call_id,
                reason,
            } && run_id == shown.run_id && tool_call_id == shown.tool_call_id && reason
                == "denied by plato-tui"@))
            &&& key.code != KeyCode::Char('g') && key.code != KeyCode::Char('d') ==> given == outbox
                && after == state
            &&& stays <==> key.code != KeyCode::Char('q') && key.code != KeyCode::Esc
        }),
{
}

/// Control and c cancel the run that goes on, once; where there is none, or it was canceled already, the
/// interface ends and sends nothing.
pub proof fn law_interrupts_cancel_first(
    state: TuiView,
    runtime: RuntimeView,
    outbox: OutboxView,
    initial_run_id: Option<Seq<char>>,
    config_path: Option<Seq<char>>,
)
    requires
        outbox.open,
    ensures
        ({
            let key = Key { code: KeyCode::Char('c'), control: true, alt: false };
            let (stays, after, given) = key_pressed(
                key,
                state,
                runtime,
                outbox,
                initial_run_id,
                config_path,
            );
            let goes_on = state.active_run matches Some((_, status)) && status == "running"@;
            &&& stays <==> goes_on && !state.cancel_requested
            &&& stays ==> after.cancel_requested && given.sent == outbox.sent.push(
                CommandView::RunCancel { run_id: state.active_run->Some_0.0 },
            )
            &&& !stays ==> given == outbox && after == state
        }),
{
}

/// What was typed is sent once, trimmed, to the session that is selected, or as a new run where none is;
/// then the line is empty. A blank line, a command of the interface and a message while a run goes on send
/// nothing, and the last keeps what was typed.
pub proof fn law_messages_are_sent_once(
    state: TuiView,
    runtime: RuntimeView,
    outbox: OutboxView,
    config_path: Option<Seq<char>>,
)
    requires
        outbox.open,
    ensures
        ({
            let (after, given) = submitting(state, runtime, outbox, config_path);
            let said = text::trim(state.composer);
            let busy = runtime.polling && runtime.active_run_id is Some;
            let command = said == "/new"@ || said == "/sessions"@;
            let blank = text::is_blank(state.composer);
            &&& blank || command || busy ==> given == outbox
            &&& blank ==> after == state
            &&& !blank && !command && busy ==> after.composer == state.composer
            &&& !blank && said == "/new"@ ==> after.selected_session is None && after.composer.len()
                == 0
            &&& !blank && !command && !busy ==> after.composer.len() == 0 && given.sent
                == outbox.sent.push(
                match state.selected_session {
                    Some(session_id) => CommandView::MessageAppend {
                        message: said,
                        session_id,
                        config_path,
                    },
                    None => CommandView::RunStart { question: said, config_path },
                },
            )
            &&& !blank && !command && !busy ==> after.selected_session == state.selected_session
        }),
{
}

/// In the list of sessions the arrows move by one and stay within the list, return resumes the session
/// that is pointed at and loads its run, and escape only closes the list.
pub proof fn law_the_picker_resumes_what_it_shows(
    key: Key,
    focus: usize,
    state: TuiView,
    outbox: OutboxView,
)
    requires
        outbox.open,
        state.picker == Some(focus),
        focus < state.sessions.len(),
        state.sessions.len() <= usize::MAX,
    ensures
        ({
            let (after, given) = picking(key, focus, state, outbox);
            &&& key.code == KeyCode::Enter ==> after.picker is None && after.selected_session
                == Some(state.sessions[focus as int].session_id) && given.sent == outbox.sent.push(
                CommandView::Load { run_id: Some(state.sessions[focus as int].run_id) },
            )
            &&& key.code == KeyCode::Esc ==> after.picker is None && after.selected_session
                == state.selected_session && given == outbox
            &&& key.code == KeyCode::Up ==> (after.picker matches Some(place) && place == if focus
                == 0 {
                0
            } else {
                focus - 1
            }) && given == outbox
            &&& key.code == KeyCode::Down ==> (after.picker matches Some(place) && place == if focus
                + 1 == state.sessions.len() {
                focus as int
            } else {
                focus + 1
            }) && given == outbox
            &&& after.picker matches Some(place) ==> place < state.sessions.len()
        }),
{
}

/// Events are asked for only while a run is followed, no answer is awaited and a fifth of a second has
/// passed; they are asked for from the place behind the last, and then an answer is awaited.
pub proof fn law_events_are_asked_for_in_turn(runtime: RuntimeView, outbox: OutboxView, now: u64)
    ensures
        ({
            let (after, given) = polling_at(runtime, outbox, now);
            let due = runtime.last_poll is None || now - runtime.last_poll->Some_0
                >= 200;
            let asks = runtime.polling && !runtime.poll_in_flight && due && runtime.active_run_id
                is Some && outbox.open;
            &&& asks ==> given.sent == outbox.sent.push(
                CommandView::PollEvents {
                    run_id: runtime.active_run_id->Some_0,
                    from_offset: runtime.next_offset,
                },
            ) && after.poll_in_flight && after.last_poll == Some(now)
            &&& !asks ==> given == outbox && after.poll_in_flight == runtime.poll_in_flight
            &&& after.next_offset == runtime.next_offset && after.active_run_id
                == runtime.active_run_id
        }),
{
}

proof fn lemma_events_shown(state: TuiView, runtime: RuntimeView, events: Seq<JsonView>)
    ensures
        ({
            let (after, left) = events_shown(state, runtime, events);
            &&& left.next_offset == runtime.next_offset
            &&& left.polling == runtime.polling
            &&& left.poll_in_flight == runtime.poll_in_flight
            &&& left.active_run_id == runtime.active_run_id
            &&& after.active_run == state.active_run
            &&& after.composer == state.composer
            &&& after.selected_session == state.selected_session
            &&& after.stream_warning == state.stream_warning
        }),
    decreases events.len(),
{
    if events.len() > 0 {
        lemma_events_shown(state, runtime, events.drop_last());
    }
}

/// A page of events moves the place to ask from to its own next place; the run is followed on exactly as
/// long as the page says that it runs, and is loaded once it does not.
pub proof fn law_pages_move_the_stream(ui: UiView, page: PageView, now: u64)
    requires
        ui.outbox.open,
    ensures
        ({
            let after = event_applied(ui, ClientEventView::EventsPolled(page), now);
            let running = page.status == RunStateName::Running;
            &&& after.runtime.next_offset == page.next_offset
            &&& !after.runtime.poll_in_flight
            &&& after.runtime.polling <==> running
            &&& after.state.active_run == Some((page.run_id, page.status.wire()))
            &&& running ==> after.outbox == ui.outbox
            &&& !running ==> after.outbox.sent == ui.outbox.sent.push(
                CommandView::Load { run_id: Some(page.run_id) },
            )
        }),
{
    lemma_events_shown(
        TuiView {
            stream_warning: None,
            active_run: Some((page.run_id, page.status.wire())),
            ..ui.state
        },
        RuntimeView {
            poll_in_flight: false,
            next_offset: page.next_offset,
            polling: page.status == RunStateName::Running,
            ..ui.runtime
        },
        page.events,
    );
}

/// A run that was started is followed from its first event, as long as it runs, and its session is the
/// one that is selected.
pub proof fn law_started_runs_are_followed(ui: UiView, started: StartedView, now: u64)
    ensures
        ({
            let after = event_applied(ui, ClientEventView::RunStarted(started), now);
            let appended = event_applied(ui, ClientEventView::MessageAppended(started), now);
            &&& after.runtime.active_run_id == Some(started.run_id)
            &&& after.runtime.next_offset == 0
            &&& after.runtime.polling <==> started.status == RunStateName::Running
            &&& !after.runtime.poll_in_flight && after.runtime.last_poll is None
            &&& after.state.selected_session == Some(started.session_id)
            &&& after.state.active_run == Some((started.run_id, started.status.wire()))
            &&& !after.state.cancel_requested && after.state.approval is None
            &&& appended.runtime == after.runtime && appended.state.active_run
                == after.state.active_run && appended.state.selected_session
                == after.state.selected_session
            &&& after.outbox == ui.outbox && appended.outbox == ui.outbox
        }),
{
}

/// Where events were dropped the run is loaded anew; a cancellation that failed may be asked for again;
/// a failure that says that the daemon is gone ends the following, and no other does.
pub proof fn law_failures_are_shown(ui: UiView, context: Seq<char>, error: Seq<char>)
    requires
        ui.outbox.open,
    ensures
        ({
            let after = failure_shown(ui, context, error);
            let dropped = context == "events.stream"@ && text::starts_with(error, "lagged:"@);
            let crowded = context == "events.stream"@ && text::starts_with(error, "overload:"@);
            let gone = text::contains_text(error, "Connection refused"@) || text::contains_text(
                error,
                "No such file"@,
            ) || text::contains_text(error, "connection closed"@) || text::contains_text(
                error,
                "unsupported_version"@,
            ) || text::contains_text(error, "workspace_mismatch"@) || text::contains_text(
                error,
                "DaemonLockHeld"@,
            );
            &&& !after.runtime.poll_in_flight
            &&& dropped && ui.runtime.active_run_id is Some ==> after.outbox.sent
                == ui.outbox.sent.push(CommandView::Load { run_id: ui.runtime.active_run_id })
            &&& !dropped ==> after.outbox == ui.outbox
            &&& !dropped && !crowded ==> {
                &&& gone ==> !after.runtime.polling && after.state.connection == (
                ConnectionView::Disconnected { error })
                &&& !gone ==> after.runtime.polling == ui.runtime.polling && after.state.connection
                    == ui.state.connection
                &&& context == "run.cancel"@ ==> !after.state.cancel_requested
                &&& context != "run.cancel"@ ==> after.state.cancel_requested
                    == ui.state.cancel_requested
                &&& after.state.status_message == Some(context + " failed: "@ + error)
            }
            &&& dropped || crowded ==> after.runtime.polling == ui.runtime.polling
        }),
{
}

/// A state that was loaded keeps what the user typed and what the user selected, unless nothing was
/// selected and the daemon had been gone.
pub proof fn law_loading_keeps_what_was_typed(state: TuiView, loaded: TuiView)
    ensures
        ({
            let after = loading(state, loaded);
            &&& after.composer == state.composer && after.picker == state.picker
            &&& state.selected_session is Some ==> after.selected_session == state.selected_session
            &&& state.selected_session is None && state.connection is Disconnected
                ==> after.selected_session == loaded.selected_session
            &&& state.selected_session is None && !(state.connection is Disconnected)
                ==> after.selected_session is None
            &&& after.sessions == loaded.sessions && after.active_run == loaded.active_run
                && after.connection == loaded.connection && after.transcript == loaded.transcript
        }),
{
}

/// The answer to a command is reported as what came of that command; what cannot be read, and an error,
/// are reported as its failure.
pub proof fn law_answers_are_reported(command: CommandView, answer: Result<JsonView, Seq<char>>)
    ensures
        report(command, answer) is None <==> command is Load,
        answer matches Err(error) ==> (report(command, answer) matches Some(told) ==> (
        told matches ClientEventView::Failed { error: said, context } && said == error && (
        command_request(command) matches Some(request) && request.method == context))),
        answer matches Ok(result) ==> match command {
            CommandView::RunStart { .. } => messages::started_in(result) matches Some(started)
                ==> report(command, answer) == Some(ClientEventView::RunStarted(started)),
            CommandView::MessageAppend { .. } => messages::started_in(result) matches Some(started)
                ==> report(command, answer) == Some(ClientEventView::MessageAppended(started)),
            CommandView::PollEvents { .. } => messages::page_in(result) matches Some(page)
                ==> report(command, answer) == Some(ClientEventView::EventsPolled(page)),
            CommandView::ApprovalGrant { .. } | CommandView::ApprovalDeny { .. } =>
                messages::accepted_in(result) matches Some((run_id, status)) ==> report(
                command,
                answer,
            ) == Some(ClientEventView::ApprovalDecided(run_id, status)),
            CommandView::RunCancel { .. } => messages::accepted_in(result) matches Some(
                (run_id, status),
            ) ==> report(command, answer) == Some(ClientEventView::RunCanceled(run_id, status)),
            CommandView::Load { .. } => true,
        },
{
}

/// The interface shows the run that was asked for, or else that of the first session; it follows the
/// first session that runs, and selects the session of the run that it shows, or else the first.
pub proof fn law_the_first_session_is_shown(
    asked: Option<Seq<char>>,
    sessions: Seq<SummaryView>,
    run_id: Option<Seq<char>>,
)
    ensures
        asked is Some ==> run_to_show(asked, sessions) == asked,
        asked is None && sessions.len() > 0 ==> run_to_show(asked, sessions) == Some(
            sessions[0].run_id,
        ),
        asked is None && sessions.len() == 0 ==> run_to_show(asked, sessions) is None,
        running_session(sessions) is None <==> forall|i: int|
            0 <= i < sessions.len() ==> (#[trigger] sessions[i]).status != RunStateName::Running,
        running_session(sessions) matches Some((run, state)) ==> state == "running"@ && exists|i: int|
            0 <= i < sessions.len() && (#[trigger] sessions[i]).run_id == run && sessions[i].status
                == RunStateName::Running,
        session_of_run(sessions, run_id) matches Some(session) ==> exists|i: int|
            0 <= i < sessions.len() && (#[trigger] sessions[i]).session_id == session && run_id
                == Some(sessions[i].run_id),
        session_of_run(sessions, run_id) is None <==> forall|i: int|
            0 <= i < sessions.len() ==> run_id != Some((#[trigger] sessions[i]).run_id),
    decreases sessions.len(),
{
    if sessions.len() > 0 {
        let rest = sessions.skip(1);
        law_the_first_session_is_shown(asked, rest, run_id);
        assert(sessions[0].status == sessions[0].status);
        assert forall|i: int| 0 < i < sessions.len() implies #[trigger] sessions[i] == rest[i
            - 1] by {}
        if sessions[0].status != RunStateName::Running {
            if let Some((run, state)) = running_session(rest) {
                let i = choose|i: int|
                    0 <= i < rest.len() && (#[trigger] rest[i]).run_id == run && rest[i].status
                        == RunStateName::Running;
                assert(sessions[i + 1] == rest[i]);
            } else {
                assert forall|i: int| 0 <= i < sessions.len() implies (
                #[trigger] sessions[i]).status != RunStateName::Running by {
                    if i > 0 {
                        assert(rest[i - 1] == sessions[i]);
                    }
                }
            }
        }
        if run_id != Some(sessions[0].run_id) {
            if let Some(session) = session_of_run(rest, run_id) {
                let i = choose|i: int|
                    0 <= i < rest.len() && (#[trigger] rest[i]).session_id == session && run_id
                        == Some(rest[i].run_id);
                assert(sessions[i + 1] == rest[i]);
            } else {
                assert forall|i: int| 0 <= i < sessions.len() implies run_id != Some(
                    (#[trigger] sessions[i]).run_id,
                ) by {
                    if i > 0 {
                        assert(rest[i - 1] == sessions[i]);
                    }
                }
            }
        }
    }
}

/// A line of the log stands at its end; the log keeps its latest eighty lines, in their order.
pub proof fn law_the_log_keeps_its_latest_lines(
    state: TuiView,
    offset: Option<u64>,
    said: Seq<char>,
)
    ensures
        ({
            let after = with_line(state, offset, said).live_events;
            let all = state.live_events.push(
                EventLineView { offset, kind: LiveEventKind::Status, text: said },
            );
            &&& after.len() <= 80
            &&& all.len() <= 80 ==> after == all
            &&& all.len() > 80 ==> after.len() == 80 && after
                == all.skip(all.len() - 80)
            &&& after.last().text == said && after.last().offset == offset
        }),
{
}

/// The input that a call was proposed with is shown with its approval and with no other; an approval that
/// is asked for is the one that is shown then.
pub proof fn law_inputs_reach_their_approval(
    state: TuiView,
    runtime: RuntimeView,
    event: JsonView,
    shown: ModalView,
    call_id: Seq<char>,
    preview: Seq<char>,
)
    ensures
        with_input(None, call_id, preview) is None,
        shown.tool_call_id == call_id ==> with_input(Some(shown), call_id, preview) == Some(
            ModalView { input_preview: preview, ..shown },
        ),
        shown.tool_call_id != call_id ==> with_input(Some(shown), call_id, preview) == Some(shown),
        modal::proposed_input(event) is None ==> (modal::approval_in(
            event,
            input_of(runtime.tool_inputs, event_call(event)),
        ) matches Some(asked) ==> event_shown(state, runtime, event).0.approval == Some(asked)),
        modal::proposed_input(event) is None && modal::approval_in(
            event,
            input_of(runtime.tool_inputs, event_call(event)),
        ) is None ==> event_shown(state, runtime, event).0.approval == state.approval,
{
}

/// The session of the run that is shown is the one that is selected, or else the first; there is none only
/// where there are none.
pub proof fn law_the_shown_session_is_selected(
    sessions: Seq<SummaryView>,
    run_id: Seq<char>,
    content: Seq<char>,
    i: int,
)
    requires
        0 <= i < sessions.len(),
    ensures
        session_to_select(sessions, ShownView::Empty) == Some(sessions[0].session_id),
        sessions[i].run_id == run_id ==> (session_to_select(
            sessions,
            ShownView::Loaded { run_id, content },
        ) matches Some(selected) && exists|k: int|
            0 <= k < sessions.len() && (#[trigger] sessions[k]).run_id == run_id
                && sessions[k].session_id == selected),
        session_to_select(Seq::empty(), ShownView::Loaded { run_id, content }) is None,
{
    law_the_first_session_is_shown(None, sessions, Some(run_id));
    law_the_first_session_is_shown(None, sessions, None);
    if sessions[i].run_id == run_id {
        let selected = session_of_run(sessions, Some(run_id))->Some_0;
        let k = choose|k: int|
            0 <= k < sessions.len() && (#[trigger] sessions[k]).session_id == selected && Some(run_id)
                == Some(sessions[k].run_id);
        assert(sessions[k].run_id == run_id);
    }
}

/// A decision that was sent and a cancellation that was asked for are shown with their run; neither
/// leaves an approval open, and neither sends anything.
pub proof fn law_sent_decisions_are_shown(
    ui: UiView,
    run_id: Seq<char>,
    status: RunStateName,
    now: u64,
)
    ensures
        ({
            let decided = event_applied(ui, ClientEventView::ApprovalDecided(run_id, status), now);
            let canceled = event_applied(ui, ClientEventView::RunCanceled(run_id, status), now);
            &&& decided.state.approval is None && canceled.state.approval is None
            &&& decided.outbox == ui.outbox && canceled.outbox == ui.outbox
            &&& decided.runtime == ui.runtime && canceled.runtime == ui.runtime
            &&& decided.state.active_run == Some((run_id, status.wire()))
                && canceled.state.active_run == Some((run_id, status.wire()))
            &&& canceled.state.cancel_requested && decided.state.cancel_requested
                == ui.state.cancel_requested
        }),
{
}

/// A state that was loaded is followed from its first event, exactly as long as its run goes on.
pub proof fn law_loaded_runs_are_followed(ui: UiView, loaded: TuiView, now: u64)
    ensures
        ({
            let after = event_applied(ui, ClientEventView::Loaded(loaded), now);
            &&& after.runtime.polling <==> (loaded.active_run matches Some((_, status)) && status
                == "running"@)
            &&& after.runtime.active_run_id == match loaded.active_run {
                Some((run_id, _)) => Some(run_id),
                None => None,
            }
            &&& after.runtime.next_offset == 0 && !after.runtime.poll_in_flight
            &&& after.outbox == ui.outbox
        }),
{
}

} // verus!

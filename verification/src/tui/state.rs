//! What the terminal interface knows.
use crate::daemon::messages;
use crate::daemon::messages::{HelloResult, SessionSummary, SummaryView};
use crate::daemon::transcript::TranscriptReadResult;
use crate::text;
use crate::tui::modal;
use crate::tui::modal::{ApprovalModalView, ModalView};
use vstd::prelude::*;

verus! {

/// Whether the daemon is reached, and what it says of itself.
#[derive(Debug, PartialEq, Eq)]
pub enum ConnectionState {
    Connected { workspace_id: String, daemon_version: String, ledger_path: String },
    Disconnected { error: String },
}

/// What a connection stands for.
pub enum ConnectionView {
    Connected { workspace_id: Seq<char>, daemon_version: Seq<char>, ledger_path: Seq<char> },
    Disconnected { error: Seq<char> },
}

impl ConnectionState {
    /// The connection that `self` stands for.
    pub open spec fn view(&self) -> ConnectionView {
        match self {
            ConnectionState::Connected { workspace_id, daemon_version, ledger_path } => {
                ConnectionView::Connected {
                    workspace_id: workspace_id@,
                    daemon_version: daemon_version@,
                    ledger_path: ledger_path@,
                }
            },
            ConnectionState::Disconnected { error } => ConnectionView::Disconnected {
                error: error@,
            },
        }
    }
}

/// A transcript that was read.
#[derive(Debug, PartialEq, Eq)]
pub struct TranscriptView {
    pub run_id: String,
    pub content: String,
}

impl TranscriptView {
    /// The transcript in an answer of the daemon.
    pub fn from_result(transcript: TranscriptReadResult) -> (r: TranscriptView)
        ensures
            r.run_id == transcript.run_id,
            r.content == transcript.transcript,
    {
        TranscriptView { run_id: transcript.run_id, content: transcript.transcript }
    }
}

/// The transcript that is shown, if one is.
#[derive(Debug, PartialEq, Eq)]
pub enum TranscriptState {
    Empty,
    Loaded(TranscriptView),
    Unavailable { run_id: String, error: String },
}

/// What the shown transcript stands for.
pub enum ShownView {
    Empty,
    Loaded { run_id: Seq<char>, content: Seq<char> },
    Unavailable { run_id: Seq<char>, error: Seq<char> },
}

impl TranscriptState {
    /// The shown transcript that `self` stands for.
    pub open spec fn view(&self) -> ShownView {
        match self {
            TranscriptState::Empty => ShownView::Empty,
            TranscriptState::Loaded(transcript) => ShownView::Loaded {
                run_id: transcript.run_id@,
                content: transcript.content@,
            },
            TranscriptState::Unavailable { run_id, error } => ShownView::Unavailable {
                run_id: run_id@,
                error: error@,
            },
        }
    }
}

/// The run that is followed.
#[derive(Debug, PartialEq, Eq)]
pub struct ActiveRunView {
    pub run_id: String,
    pub status: String,
}

impl Clone for ActiveRunView {
    fn clone(&self) -> (r: ActiveRunView)
        ensures
            r == *self,
    {
        ActiveRunView { run_id: self.run_id.clone(), status: self.status.clone() }
    }
}

/// What the followed run stands for: its name and its status.
pub open spec fn run_view(run: Option<ActiveRunView>) -> Option<(Seq<char>, Seq<char>)> {
    match run {
        Some(run) => Some((run.run_id@, run.status@)),
        None => None,
    }
}

/// What a line of the live events is about.
#[derive(Clone, Copy, Debug, PartialEq, Eq, Structural)]
pub enum LiveEventKind {
    User,
    Assistant,
    AssistantDelta,
    Tool,
    Status,
    Warning,
}

/// A line of the live events.
#[derive(Debug, PartialEq, Eq)]
pub struct LiveEventLine {
    pub offset: Option<u64>,
    pub kind: LiveEventKind,
    pub text: String,
}

/// What a line of the live events stands for.
pub struct EventLineView {
    pub offset: Option<u64>,
    pub kind: LiveEventKind,
    pub text: Seq<char>,
}

/// What lines of the live events stand for.
pub open spec fn event_lines(lines: Seq<LiveEventLine>) -> Seq<EventLineView> {
    Seq::new(lines.len(), |i: int| lines[i]@)
}

impl Clone for LiveEventLine {
    fn clone(&self) -> (r: LiveEventLine)
        ensures
            r == *self,
    {
        LiveEventLine { offset: self.offset, kind: self.kind, text: self.text.clone() }
    }
}

impl LiveEventLine {
    /// The line that `self` stands for.
    pub open spec fn view(&self) -> EventLineView {
        EventLineView { offset: self.offset, kind: self.kind, text: self.text@ }
    }

    fn of(offset: Option<u64>, kind: LiveEventKind, text: &str) -> (r: LiveEventLine)
        ensures
            r@ == (EventLineView { offset, kind, text: text@ }),
    {
        LiveEventLine { offset, kind, text: text.to_owned() }
    }

    /// A line on how things stand.
    pub fn new(offset: Option<u64>, text: &str) -> (r: LiveEventLine)
        ensures
            r@ == (EventLineView { offset, kind: LiveEventKind::Status, text: text@ }),
    {
        LiveEventLine::status(offset, text)
    }

    /// What the user said.
    pub fn user(text: &str) -> (r: LiveEventLine)
        ensures
            r@ == (EventLineView { offset: None, kind: LiveEventKind::User, text: text@ }),
    {
        LiveEventLine::of(None, LiveEventKind::User, text)
    }

    /// What the assistant said.
    pub fn assistant(offset: Option<u64>, text: &str) -> (r: LiveEventLine)
        ensures
            r@ == (EventLineView { offset, kind: LiveEventKind::Assistant, text: text@ }),
    {
        LiveEventLine::of(offset, LiveEventKind::Assistant, text)
    }

    /// A piece of what the assistant says.
    pub fn assistant_delta(offset: Option<u64>, text: &str) -> (r: LiveEventLine)
        ensures
            r@ == (EventLineView { offset, kind: LiveEventKind::AssistantDelta, text: text@ }),
    {
        LiveEventLine::of(offset, LiveEventKind::AssistantDelta, text)
    }

    /// What a tool does.
    pub fn tool(offset: Option<u64>, text: &str) -> (r: LiveEventLine)
        ensures
            r@ == (EventLineView { offset, kind: LiveEventKind::Tool, text: text@ }),
    {
        LiveEventLine::of(offset, LiveEventKind::Tool, text)
    }

    /// How things stand.
    pub fn status(offset: Option<u64>, text: &str) -> (r: LiveEventLine)
        ensures
            r@ == (EventLineView { offset, kind: LiveEventKind::Status, text: text@ }),
    {
        LiveEventLine::of(offset, LiveEventKind::Status, text)
    }

    /// What is to be minded.
    pub fn warning(offset: Option<u64>, text: &str) -> (r: LiveEventLine)
        ensures
            r@ == (EventLineView { offset, kind: LiveEventKind::Warning, text: text@ }),
    {
        LiveEventLine::of(offset, LiveEventKind::Warning, text)
    }
}

/// All that the terminal interface shows.
#[derive(Debug, PartialEq, Eq)]
pub struct TuiState {
    pub workspace_root: String,
    pub socket_path: String,
    pub connection: ConnectionState,
    pub sessions: Vec<SessionSummary>,
    /// The session that the next message continues.
    pub selected_session: Option<String>,
    /// The place of the focused session, while one is being picked.
    pub picker: Option<usize>,
    pub transcript: TranscriptState,
    pub active_run: Option<ActiveRunView>,
    pub live_events: Vec<LiveEventLine>,
    pub scroll_offset: usize,
    pub active_model: Option<String>,
    pub active_run_elapsed_secs: Option<u64>,
    pub composer: String,
    pub composer_cursor: usize,
    pub queued_messages: Vec<String>,
    pub input_history: Vec<String>,
    pub history_index: Option<usize>,
    pub status_message: Option<String>,
    pub stream_warning: Option<String>,
    pub approval: Option<ApprovalModalView>,
    pub cancel_requested: bool,
}

/// What the state of the interface stands for.
pub struct TuiView {
    pub workspace_root: Seq<char>,
    pub socket_path: Seq<char>,
    pub connection: ConnectionView,
    pub sessions: Seq<SummaryView>,
    pub selected_session: Option<Seq<char>>,
    pub picker: Option<usize>,
    pub transcript: ShownView,
    pub active_run: Option<(Seq<char>, Seq<char>)>,
    pub live_events: Seq<EventLineView>,
    pub scroll_offset: usize,
    pub active_model: Option<Seq<char>>,
    pub active_run_elapsed_secs: Option<u64>,
    pub composer: Seq<char>,
    pub composer_cursor: usize,
    pub queued_messages: Seq<Seq<char>>,
    pub input_history: Seq<Seq<char>>,
    pub history_index: Option<usize>,
    pub status_message: Option<Seq<char>>,
    pub stream_warning: Option<Seq<char>>,
    pub approval: Option<ModalView>,
    pub cancel_requested: bool,
}

/// An interface that has just been opened.
pub open spec fn fresh_view(
    workspace_root: Seq<char>,
    socket_path: Seq<char>,
    connection: ConnectionView,
    sessions: Seq<SummaryView>,
    transcript: ShownView,
) -> TuiView {
    TuiView {
        workspace_root,
        socket_path,
        connection,
        sessions,
        selected_session: None,
        picker: None,
        transcript,
        active_run: None,
        live_events: Seq::empty(),
        scroll_offset: 0,
        active_model: None,
        active_run_elapsed_secs: None,
        composer: Seq::empty(),
        composer_cursor: 0,
        queued_messages: Seq::empty(),
        input_history: Seq::empty(),
        history_index: None,
        status_message: None,
        stream_warning: None,
        approval: None,
        cancel_requested: false,
    }
}

/// The connection that a greeting makes.
pub open spec fn connection_of(hello: HelloResult) -> ConnectionView {
    ConnectionView::Connected {
        workspace_id: hello.workspace_id@,
        daemon_version: hello.daemon_version@,
        ledger_path: hello.ledger_path@,
    }
}

impl TuiState {
    /// The state that `self` stands for.
    pub open spec fn view(&self) -> TuiView {
        TuiView {
            workspace_root: self.workspace_root@,
            socket_path: self.socket_path@,
            connection: self.connection@,
            sessions: messages::summary_views(self.sessions@),
            selected_session: text::opt_view(self.selected_session),
            picker: self.picker,
            transcript: self.transcript@,
            active_run: run_view(self.active_run),
            live_events: event_lines(self.live_events@),
            scroll_offset: self.scroll_offset,
            active_model: text::opt_view(self.active_model),
            active_run_elapsed_secs: self.active_run_elapsed_secs,
            composer: self.composer@,
            composer_cursor: self.composer_cursor,
            queued_messages: text::views(self.queued_messages@),
            input_history: text::views(self.input_history@),
            history_index: self.history_index,
            status_message: text::opt_view(self.status_message),
            stream_warning: text::opt_view(self.stream_warning),
            approval: modal::opt_modal(self.approval),
            cancel_requested: self.cancel_requested,
        }
    }

    fn fresh(
        workspace_root: String,
        socket_path: String,
        connection: ConnectionState,
        sessions: Vec<SessionSummary>,
        transcript: TranscriptState,
    ) -> (r: TuiState)
        ensures
            r@ == fresh_view(
                workspace_root@,
                socket_path@,
                connection@,
                messages::summary_views(sessions@),
                transcript@,
            ),
    {
        let r = TuiState {
            workspace_root,
            socket_path,
            connection,
            sessions,
            selected_session: None,
            picker: None,
            transcript,
            active_run: None,
            live_events: Vec::new(),
            scroll_offset: 0,
            active_model: None,
            active_run_elapsed_secs: None,
            composer: String::new(),
            composer_cursor: 0,
            queued_messages: Vec::new(),
            input_history: Vec::new(),
            history_index: None,
            status_message: None,
            stream_warning: None,
            approval: None,
            cancel_requested: false,
        };
        assert(event_lines(r.live_events@) =~= Seq::empty());
        assert(text::views(r.queued_messages@) =~= Seq::empty());
        assert(text::views(r.input_history@) =~= Seq::empty());
        assert(r.composer@ =~= Seq::empty());
        r
    }

    /// An interface that has reached the daemon.
    pub fn connected(
        workspace_root: String,
        socket_path: String,
        hello: HelloResult,
        sessions: Vec<SessionSummary>,
        transcript: TranscriptState,
    ) -> (r: TuiState)
        ensures
            r@ == fresh_view(
                workspace_root@,
                socket_path@,
                connection_of(hello),
                messages::summary_views(sessions@),
                transcript@,
            ),
    {
        TuiState::fresh(
            workspace_root,
            socket_path,
            ConnectionState::Connected {
                workspace_id: hello.workspace_id,
                daemon_version: hello.daemon_version,
                ledger_path: hello.ledger_path,
            },
            sessions,
            transcript,
        )
    }

    /// An interface that has not reached the daemon.
    pub fn disconnected(workspace_root: String, socket_path: String, error: String) -> (r: TuiState)
        ensures
            r@ == fresh_view(
                workspace_root@,
                socket_path@,
                ConnectionView::Disconnected { error: error@ },
                Seq::empty(),
                ShownView::Empty,
            ),
    {
        let sessions: Vec<SessionSummary> = Vec::new();
        assert(messages::summary_views(sessions@) =~= Seq::empty());
        TuiState::fresh(
            workspace_root,
            socket_path,
            ConnectionState::Disconnected { error },
            sessions,
            TranscriptState::Empty,
        )
    }

    /// Whether the daemon is not reached.
    pub fn is_disconnected(&self) -> (r: bool)
        ensures
            r == (self@.connection is Disconnected),
    {
        match &self.connection {
            ConnectionState::Disconnected { .. } => true,
            ConnectionState::Connected { .. } => false,
        }
    }
}

/// An interface that starts shows what it was given, has nothing typed, selected or asked, and follows no
/// run.
pub proof fn law_interfaces_start_empty(
    workspace_root: Seq<char>,
    socket_path: Seq<char>,
    connection: ConnectionView,
    sessions: Seq<SummaryView>,
    transcript: ShownView,
)
    ensures
        ({
            let state = fresh_view(workspace_root, socket_path, connection, sessions, transcript);
            &&& state.workspace_root == workspace_root && state.socket_path == socket_path
            &&& state.connection == connection && state.sessions == sessions && state.transcript
                == transcript
            &&& state.composer.len() == 0 && state.selected_session is None && state.picker is None
            &&& state.active_run is None && state.approval is None && !state.cancel_requested
            &&& state.status_message is None && state.stream_warning is None
                && state.live_events.len() == 0 && state.queued_messages.len() == 0
        }),
{
}

} // verus!

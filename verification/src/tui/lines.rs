//! The lines that the terminal interface is made of.
use crate::daemon::messages;
use crate::daemon::messages::{SessionSummary, SummaryView};
use crate::text;
use crate::tui::modal::{ApprovalModalView, ModalView};
use crate::tui::state;
use crate::tui::state::{
    ActiveRunView, ConnectionState, ConnectionView, EventLineView, LiveEventKind, LiveEventLine,
    ShownView, TranscriptState, TuiState, TuiView,
};
use vstd::prelude::*;

verus! {

/// The colour of a piece of text.
#[derive(Clone, Copy, Debug, PartialEq, Eq, Structural)]
pub enum Hue {
    Plain,
    Yellow,
    DarkGray,
    Cyan,
    Green,
    Magenta,
    Red,
}

/// A piece of text in one style.
#[derive(Debug, PartialEq, Eq)]
pub struct StyledSpan {
    pub text: String,
    pub hue: Hue,
    pub bold: bool,
}

/// What a piece of text stands for.
pub struct SpanView {
    pub text: Seq<char>,
    pub hue: Hue,
    pub bold: bool,
}

impl StyledSpan {
    /// The piece that `self` stands for.
    pub open spec fn view(&self) -> SpanView {
        SpanView { text: self.text@, hue: self.hue, bold: self.bold }
    }
}

impl Clone for StyledSpan {
    fn clone(&self) -> (r: StyledSpan)
        ensures
            r == *self,
    {
        StyledSpan { text: self.text.clone(), hue: self.hue, bold: self.bold }
    }
}

/// A text as it is.
pub open spec fn raw_span(text: Seq<char>) -> SpanView {
    SpanView { text, hue: Hue::Plain, bold: false }
}

/// A text in a colour.
pub open spec fn colored(text: Seq<char>, hue: Hue) -> SpanView {
    SpanView { text, hue, bold: false }
}

/// A text in a colour, and bold.
pub open spec fn heavy(text: Seq<char>, hue: Hue) -> SpanView {
    SpanView { text, hue, bold: true }
}

fn raw(text: &str) -> (r: StyledSpan)
    ensures
        r@ == raw_span(text@),
{
    StyledSpan { text: text.to_owned(), hue: Hue::Plain, bold: false }
}

fn in_color(text: &str, hue: Hue) -> (r: StyledSpan)
    ensures
        r@ == colored(text@, hue),
{
    StyledSpan { text: text.to_owned(), hue, bold: false }
}

fn in_bold(text: &str, hue: Hue) -> (r: StyledSpan)
    ensures
        r@ == heavy(text@, hue),
{
    StyledSpan { text: text.to_owned(), hue, bold: true }
}

/// A line: pieces of text, one after the other.
#[derive(Debug, PartialEq, Eq)]
pub struct StyledLine {
    pub spans: Vec<StyledSpan>,
}

impl StyledLine {
    /// The pieces that the line is made of.
    pub open spec fn view(&self) -> Seq<SpanView> {
        Seq::new(self.spans@.len(), |i: int| self.spans@[i]@)
    }
}

/// What lines stand for.
pub open spec fn line_views(lines: Seq<StyledLine>) -> Seq<Seq<SpanView>> {
    Seq::new(lines.len(), |i: int| lines[i]@)
}

/// The line of a text: each line of the text is a piece of it.
pub open spec fn raw_line(text: Seq<char>) -> Seq<SpanView> {
    let lines = text::lines_of(text);
    Seq::new(lines.len(), |i: int| raw_span(lines[i]))
}

/// Each line of a text as a line.
pub open spec fn text_lines(text: Seq<char>) -> Seq<Seq<SpanView>> {
    let lines = text::lines_of(text);
    Seq::new(lines.len(), |i: int| raw_line(lines[i]))
}

fn one(span: StyledSpan) -> (r: StyledLine)
    ensures
        r@ == seq![span@],
{
    let r = StyledLine { spans: vec![span] };
    assert(r@ =~= seq![span@]);
    r
}

fn two(first: StyledSpan, second: StyledSpan) -> (r: StyledLine)
    ensures
        r@ == seq![first@, second@],
{
    let r = StyledLine { spans: vec![first, second] };
    assert(r@ =~= seq![first@, second@]);
    r
}

fn plain(text: &str) -> (r: StyledLine)
    ensures
        r@ == raw_line(text@),
{
    let lines = text::lines(text);
    let mut spans: Vec<StyledSpan> = Vec::new();
    let mut i: usize = 0;
    while i < lines.len()
        invariant
            0 <= i <= lines@.len(),
            text::views(lines@) == text::lines_of(text@),
            spans@.len() == i,
            forall|j: int|
                0 <= j < i ==> (#[trigger] spans@[j])@ == raw_span(text::lines_of(text@)[j]),
        decreases lines@.len() - i,
    {
        spans.push(raw(lines[i].as_str()));
        assert(text::views(lines@)[i as int] == lines@[i as int]@);
        i += 1;
    }
    let r = StyledLine { spans };
    assert(text::views(lines@).len() == lines@.len());
    assert(r@ =~= raw_line(text@));
    r
}

fn push(lines: &mut Vec<StyledLine>, line: StyledLine)
    ensures
        line_views(final(lines)@) == line_views(old(lines)@).push(line@),
{
    let ghost before = line_views(lines@);
    lines.push(line);
    assert(line_views(lines@) =~= before.push(line@));
}

fn push_text(lines: &mut Vec<StyledLine>, content: &str)
    ensures
        line_views(final(lines)@) == line_views(old(lines)@) + text_lines(content@),
{
    let ghost before = line_views(lines@);
    let parts = text::lines(content);
    let ghost wanted = text_lines(content@);
    let mut i: usize = 0;
    assert(line_views(lines@) =~= before + wanted.take(0));
    while i < parts.len()
        invariant
            0 <= i <= parts@.len(),
            text::views(parts@) == text::lines_of(content@),
            wanted == text_lines(content@),
            line_views(lines@) == before + wanted.take(i as int),
        decreases parts@.len() - i,
    {
        assert(text::views(parts@)[i as int] == parts@[i as int]@);
        assert(text::views(parts@).len() == parts@.len());
        push(lines, plain(parts[i].as_str()));
        assert(before + wanted.take(i + 1) =~= (before + wanted.take(i as int)).push(
            wanted[i as int],
        ));
        i += 1;
    }
    assert(text::views(parts@).len() == parts@.len());
    assert(wanted.take(parts@.len() as int) =~= wanted);
}

/// What is put behind a number of things that is not one.
pub open spec fn plural_of(count: nat) -> Seq<char> {
    if count == 1 {
        ""@
    } else {
        "s"@
    }
}

fn plural(count: usize) -> (r: &'static str)
    ensures
        r@ == plural_of(count as nat),
{
    if count == 1 {
        ""
    } else {
        "s"
    }
}

/// A number of sessions in words.
pub open spec fn sessions_words(count: nat) -> Seq<char> {
    text::decimal(count) + " session"@ + plural_of(count)
}

fn sessions_text(count: usize) -> (r: String)
    ensures
        r@ == sessions_words(count as nat),
{
    text::text3(text::decimal_usize(count).as_str(), " session", plural(count))
}

/// What is shown before anything was said.
pub open spec fn intro(state: TuiView) -> Seq<Seq<SpanView>> {
    let head = seq![
        seq![heavy("Plato Agent"@, Hue::Yellow)],
        raw_line("Local Rust agent runtime"@),
        raw_line(""@),
    ];
    match state.connection {
        ConnectionView::Connected { workspace_id, daemon_version, ledger_path } => head + seq![
            seq![colored("workspace "@, Hue::DarkGray), raw_span(workspace_id)],
            seq![colored("daemon    "@, Hue::DarkGray), raw_span(daemon_version)],
            seq![colored("ledger    "@, Hue::DarkGray), raw_span(ledger_path)],
            seq![colored("cwd       "@, Hue::DarkGray), raw_span(state.workspace_root)],
            raw_line(""@),
            raw_line(sessions_words(state.sessions.len())),
        ],
        ConnectionView::Disconnected { .. } => head,
    }
}

fn push_connection(
    lines: &mut Vec<StyledLine>,
    workspace_id: &str,
    daemon_version: &str,
    ledger_path: &str,
    workspace_root: &str,
)
    ensures
        line_views(final(lines)@) == line_views(old(lines)@) + seq![
            seq![colored("workspace "@, Hue::DarkGray), raw_span(workspace_id@)],
            seq![colored("daemon    "@, Hue::DarkGray), raw_span(daemon_version@)],
            seq![colored("ledger    "@, Hue::DarkGray), raw_span(ledger_path@)],
            seq![colored("cwd       "@, Hue::DarkGray), raw_span(workspace_root@)],
        ],
{
    let ghost before = line_views(lines@);
    push(lines, two(in_color("workspace ", Hue::DarkGray), raw(workspace_id)));
    push(lines, two(in_color("daemon    ", Hue::DarkGray), raw(daemon_version)));
    push(lines, two(in_color("ledger    ", Hue::DarkGray), raw(ledger_path)));
    push(lines, two(in_color("cwd       ", Hue::DarkGray), raw(workspace_root)));
    assert(line_views(lines@) =~= before + seq![
        seq![colored("workspace "@, Hue::DarkGray), raw_span(workspace_id@)],
        seq![colored("daemon    "@, Hue::DarkGray), raw_span(daemon_version@)],
        seq![colored("ledger    "@, Hue::DarkGray), raw_span(ledger_path@)],
        seq![colored("cwd       "@, Hue::DarkGray), raw_span(workspace_root@)],
    ]);
}

fn intro_lines(state: &TuiState) -> (r: Vec<StyledLine>)
    ensures
        line_views(r@) == intro(state@),
{
    let mut lines: Vec<StyledLine> = Vec::new();
    push(&mut lines, one(in_bold("Plato Agent", Hue::Yellow)));
    push(&mut lines, plain("Local Rust agent runtime"));
    push(&mut lines, plain(""));
    let ghost head = line_views(lines@);
    assert(head =~= seq![
        seq![heavy("Plato Agent"@, Hue::Yellow)],
        raw_line("Local Rust agent runtime"@),
        raw_line(""@),
    ]);
    if let ConnectionState::Connected { workspace_id, daemon_version, ledger_path } =
        &state.connection {
        push_connection(
            &mut lines,
            workspace_id.as_str(),
            daemon_version.as_str(),
            ledger_path.as_str(),
            state.workspace_root.as_str(),
        );
        push(&mut lines, plain(""));
        push(&mut lines, plain(sessions_text(state.sessions.len()).as_str()));
        assert(line_views(lines@) =~= intro(state@));
    }
    lines
}

/// What is shown of the transcript.
pub open spec fn shown(state: TuiView) -> Seq<Seq<SpanView>> {
    match state.transcript {
        ShownView::Loaded { run_id, content } => seq![
            seq![colored("run "@, Hue::Yellow), raw_span(run_id)],
            raw_line(""@),
        ] + text_lines(content),
        ShownView::Unavailable { run_id, error } => seq![
            seq![colored("transcript unavailable "@, Hue::Yellow), raw_span(run_id)],
            raw_line(error),
        ],
        ShownView::Empty => match state.connection {
            ConnectionView::Connected { .. } => intro(state),
            ConnectionView::Disconnected { error } => seq![
                seq![heavy("daemon unavailable"@, Hue::Red)],
                raw_line(error),
                raw_line(""@),
                raw_line("Start plato-agentd manually, then press r to reconnect."@),
                raw_line("cargo run --bin plato-agentd -- --workspace "@ + state.workspace_root),
            ],
        },
    }
}

fn unavailable_lines(error: &str, workspace_root: &str) -> (r: Vec<StyledLine>)
    ensures
        line_views(r@) == seq![
            seq![heavy("daemon unavailable"@, Hue::Red)],
            raw_line(error@),
            raw_line(""@),
            raw_line("Start plato-agentd manually, then press r to reconnect."@),
            raw_line("cargo run --bin plato-agentd -- --workspace "@ + workspace_root@),
        ],
{
    let mut lines: Vec<StyledLine> = Vec::new();
    push(&mut lines, one(in_bold("daemon unavailable", Hue::Red)));
    push(&mut lines, plain(error));
    push(&mut lines, plain(""));
    push(&mut lines, plain("Start plato-agentd manually, then press r to reconnect."));
    push(
        &mut lines,
        plain(text::text2("cargo run --bin plato-agentd -- --workspace ", workspace_root).as_str()),
    );
    lines
}

fn shown_lines(state: &TuiState) -> (r: Vec<StyledLine>)
    ensures
        line_views(r@) == shown(state@),
{
    let mut lines: Vec<StyledLine> = Vec::new();
    match &state.transcript {
        TranscriptState::Loaded(transcript) => {
            push(
                &mut lines,
                two(in_color("run ", Hue::Yellow), raw(transcript.run_id.as_str())),
            );
            push(&mut lines, plain(""));
            assert(line_views(lines@) =~= seq![
                seq![colored("run "@, Hue::Yellow), raw_span(transcript.run_id@)],
                raw_line(""@),
            ]);
            push_text(&mut lines, transcript.content.as_str());
            lines
        },
        TranscriptState::Unavailable { run_id, error } => {
            push(
                &mut lines,
                two(in_color("transcript unavailable ", Hue::Yellow), raw(run_id.as_str())),
            );
            push(&mut lines, plain(error.as_str()));
            assert(line_views(lines@) =~= shown(state@));
            lines
        },
        TranscriptState::Empty => match &state.connection {
            ConnectionState::Connected { .. } => intro_lines(state),
            ConnectionState::Disconnected { error } => unavailable_lines(
                error.as_str(),
                state.workspace_root.as_str(),
            ),
        },
    }
}

/// A row: who speaks, in nine columns, and what is said.
pub open spec fn row(role: Seq<char>, hue: Hue, text: Seq<char>) -> Seq<SpanView> {
    seq![colored(role, hue), raw_span(text)]
}

/// What a line of the live events says, with its offset.
pub open spec fn offset_words(event: EventLineView) -> Seq<char> {
    match event.offset {
        Some(offset) => "#"@ + text::decimal(offset as nat) + " "@ + event.text,
        None => event.text,
    }
}

/// The row of a line of the live events.
pub open spec fn event_row_of(event: EventLineView) -> Seq<SpanView> {
    match event.kind {
        LiveEventKind::User => row("user      "@, Hue::Cyan, event.text),
        LiveEventKind::Assistant => row("assistant "@, Hue::Green, event.text),
        LiveEventKind::AssistantDelta => row("assistant "@, Hue::Green, event.text),
        LiveEventKind::Tool => row("tool      "@, Hue::Magenta, event.text),
        LiveEventKind::Status => row("status    "@, Hue::DarkGray, offset_words(event)),
        LiveEventKind::Warning => row("warning   "@, Hue::Red, offset_words(event)),
    }
}

fn status_row(text: &str) -> (r: StyledLine)
    ensures
        r@ == row("status    "@, Hue::DarkGray, text@),
{
    two(in_color("status    ", Hue::DarkGray), raw(text))
}

fn warning_row(text: &str) -> (r: StyledLine)
    ensures
        r@ == row("warning   "@, Hue::Red, text@),
{
    two(in_color("warning   ", Hue::Red), raw(text))
}

fn offset_text(event: &LiveEventLine) -> (r: String)
    ensures
        r@ == offset_words(event@),
{
    match event.offset {
        Some(offset) => text::text4(
            "#",
            text::decimal_u64(offset).as_str(),
            " ",
            event.text.as_str(),
        ),
        None => event.text.clone(),
    }
}

fn event_row(event: &LiveEventLine) -> (r: StyledLine)
    ensures
        r@ == event_row_of(event@),
{
    match event.kind {
        LiveEventKind::User => two(in_color("user      ", Hue::Cyan), raw(event.text.as_str())),
        LiveEventKind::Assistant => two(
            in_color("assistant ", Hue::Green),
            raw(event.text.as_str()),
        ),
        LiveEventKind::AssistantDelta => two(
            in_color("assistant ", Hue::Green),
            raw(event.text.as_str()),
        ),
        LiveEventKind::Tool => two(in_color("tool      ", Hue::Magenta), raw(event.text.as_str())),
        LiveEventKind::Status => status_row(offset_text(event).as_str()),
        LiveEventKind::Warning => warning_row(offset_text(event).as_str()),
    }
}

/// Whether anything has happened.
pub open spec fn has_activity(state: TuiView) -> bool {
    state.active_run is Some || state.status_message is Some || state.stream_warning is Some
        || state.live_events.len() > 0
}

/// What stands above the live events.
pub open spec fn activity_head(state: TuiView) -> Seq<Seq<SpanView>> {
    seq![raw_line(""@), seq![colored("transcript"@, Hue::Yellow)]] + (match state.active_run {
        Some((run_id, status)) => seq![
            row("status    "@, Hue::DarkGray, status + " "@ + run_id),
        ],
        None => Seq::empty(),
    }) + (match state.status_message {
        Some(message) => seq![row("status    "@, Hue::DarkGray, message)],
        None => Seq::empty(),
    }) + (match state.stream_warning {
        Some(warning) => seq![row("warning   "@, Hue::Red, "stream warning "@ + warning)],
        None => Seq::empty(),
    })
}

/// The rows of the live events.
pub open spec fn event_rows(events: Seq<EventLineView>) -> Seq<Seq<SpanView>> {
    Seq::new(events.len(), |i: int| event_row_of(events[i]))
}

/// What is shown of what happens.
pub open spec fn activity(state: TuiView) -> Seq<Seq<SpanView>> {
    if has_activity(state) {
        activity_head(state) + event_rows(state.live_events)
    } else {
        Seq::empty()
    }
}

fn push_activity_head(lines: &mut Vec<StyledLine>, state: &TuiState)
    ensures
        line_views(final(lines)@) == line_views(old(lines)@) + activity_head(state@),
{
    let ghost before = line_views(lines@);
    push(lines, plain(""));
    push(lines, one(in_color("transcript", Hue::Yellow)));
    let ghost so_far = seq![raw_line(""@), seq![colored("transcript"@, Hue::Yellow)]];
    assert(line_views(lines@) =~= before + so_far);
    if let Some(active) = &state.active_run {
        let text = text::text3(active.status.as_str(), " ", active.run_id.as_str());
        push(lines, status_row(text.as_str()));
    }
    if let Some(message) = &state.status_message {
        push(lines, status_row(message.as_str()));
    }
    if let Some(warning) = &state.stream_warning {
        push(lines, warning_row(text::text2("stream warning ", warning.as_str()).as_str()));
    }
    assert(line_views(lines@) =~= before + activity_head(state@));
}

fn append_live_transcript(lines: &mut Vec<StyledLine>, state: &TuiState)
    ensures
        line_views(final(lines)@) == line_views(old(lines)@) + activity(state@),
{
    let ghost start = line_views(lines@);
    assert(state@.live_events.len() == state.live_events@.len());
    if state.active_run.is_none() && state.status_message.is_none()
        && state.stream_warning.is_none() && state.live_events.len() == 0 {
        assert(start =~= start + Seq::<Seq<SpanView>>::empty());
        return;
    }
    push_activity_head(lines, state);
    let ghost before = line_views(lines@);
    let ghost rows = event_rows(state@.live_events);
    assert(before =~= before + rows.take(0));
    let mut i: usize = 0;
    while i < state.live_events.len()
        invariant
            0 <= i <= state.live_events@.len(),
            rows == event_rows(state@.live_events),
            line_views(lines@) == before + rows.take(i as int),
        decreases state.live_events@.len() - i,
    {
        assert(state@.live_events[i as int] == state.live_events@[i as int]@);
        push(lines, event_row(&state.live_events[i]));
        assert(before + rows.take(i + 1) =~= (before + rows.take(i as int)).push(rows[i as int]));
        i += 1;
    }
    assert(rows.take(rows.len() as int) =~= rows);
    assert(before + rows =~= start + activity(state@));
}

/// The lines of the messages that wait.
pub open spec fn queue_rows(messages: Seq<Seq<char>>) -> Seq<Seq<SpanView>> {
    Seq::new(
        messages.len(),
        |i: int| raw_line(text::decimal((i + 1) as nat) + " "@ + messages[i]),
    )
}

/// What is shown of the messages that wait.
pub open spec fn queue(messages: Seq<Seq<char>>) -> Seq<Seq<SpanView>> {
    if messages.len() == 0 {
        Seq::empty()
    } else {
        seq![raw_line(""@), seq![colored("queued"@, Hue::Yellow)]] + queue_rows(messages)
    }
}

fn append_queue_preview(lines: &mut Vec<StyledLine>, messages: &Vec<String>)
    ensures
        line_views(final(lines)@) == line_views(old(lines)@) + queue(text::views(messages@)),
{
    let ghost start = line_views(lines@);
    let ghost texts = text::views(messages@);
    assert(texts.len() == messages@.len());
    if messages.len() == 0 {
        assert(start =~= start + Seq::<Seq<SpanView>>::empty());
        return;
    }
    push(lines, plain(""));
    push(lines, one(in_color("queued", Hue::Yellow)));
    let ghost before = line_views(lines@);
    let ghost rows = queue_rows(texts);
    assert(before =~= before + rows.take(0));
    let mut i: usize = 0;
    while i < messages.len()
        invariant
            0 <= i <= messages@.len(),
            texts == text::views(messages@),
            rows == queue_rows(texts),
            line_views(lines@) == before + rows.take(i as int),
        decreases messages@.len() - i,
    {
        let line = text::text3(
            text::decimal_usize(i + 1).as_str(),
            " ",
            messages[i].as_str(),
        );
        assert(texts[i as int] == messages@[i as int]@);
        push(lines, plain(line.as_str()));
        assert(before + rows.take(i + 1) =~= (before + rows.take(i as int)).push(rows[i as int]));
        i += 1;
    }
    assert(rows.take(rows.len() as int) =~= rows);
    assert(before + rows =~= start + queue(texts));
}

/// How many sessions are listed at a time while one is being picked.
pub const PICKER_ROWS: usize = 6;

/// A session in the list that one is picked from.
pub open spec fn picker_row(session: SummaryView, focused: bool) -> Seq<SpanView> {
    let mark = if focused {
        "> "@
    } else {
        "  "@
    };
    seq![
        raw_span(mark + session.session_id),
        colored(" "@ + session.status.wire(), Hue::DarkGray),
        raw_span(" "@ + session.latest_question),
    ]
}

/// The sessions in the list that one is picked from: the focused one, and those behind it.
pub open spec fn picker_rows(sessions: Seq<SummaryView>, focus: int) -> Seq<Seq<SpanView>> {
    let count = if sessions.len() - focus < PICKER_ROWS {
        sessions.len() - focus
    } else {
        PICKER_ROWS as int
    };
    Seq::new(
        if count < 0 {
            0
        } else {
            count as nat
        },
        |i: int| picker_row(sessions[focus + i], i == 0),
    )
}

/// The list that a session is picked from.
pub open spec fn picker_list(sessions: Seq<SummaryView>, focus: int) -> Seq<Seq<SpanView>> {
    seq![
        seq![
            colored("sessions"@, Hue::Yellow),
            raw_span(" "@ + text::decimal(sessions.len()) + " | Enter resumes | Esc closes"@),
        ],
    ] + picker_rows(sessions, focus)
}

fn session_row(session: &SessionSummary, focused: bool) -> (r: StyledLine)
    ensures
        r@ == picker_row(session@, focused),
{
    let mark = if focused {
        "> "
    } else {
        "  "
    };
    let r = StyledLine {
        spans: vec![
            raw(text::text2(mark, session.session_id.as_str()).as_str()),
            in_color(text::text2(" ", session.status.as_str()).as_str(), Hue::DarkGray),
            raw(text::text2(" ", session.latest_question.as_str()).as_str()),
        ],
    };
    assert(r@ =~= picker_row(session@, focused));
    r
}

fn picker_lines(sessions: &Vec<SessionSummary>, focus: usize) -> (r: Vec<StyledLine>)
    ensures
        line_views(r@) == picker_list(messages::summary_views(sessions@), focus as int),
{
    let ghost views = messages::summary_views(sessions@);
    let ghost rows = picker_rows(views, focus as int);
    let mut lines: Vec<StyledLine> = Vec::new();
    let said = text::text3(
        " ",
        text::decimal_usize(sessions.len()).as_str(),
        " | Enter resumes | Esc closes",
    );
    push(&mut lines, two(in_color("sessions", Hue::Yellow), raw(said.as_str())));
    let ghost head = line_views(lines@);
    assert(head + rows.take(0) =~= head);
    let mut i: usize = 0;
    while i < PICKER_ROWS && focus < sessions.len() && i < sessions.len() - focus
        invariant
            0 <= i <= rows.len(),
            views == messages::summary_views(sessions@),
            rows == picker_rows(views, focus as int),
            line_views(lines@) == head + rows.take(i as int),
        decreases PICKER_ROWS - i,
    {
        assert(views[focus + i] == sessions@[focus + i]@);
        push(&mut lines, session_row(&sessions[focus + i], i == 0));
        assert(head + rows.take(i + 1) =~= (head + rows.take(i as int)).push(rows[i as int]));
        i += 1;
    }
    assert(i == rows.len());
    assert(rows.take(rows.len() as int) =~= rows);
    assert(line_views(lines@) =~= picker_list(views, focus as int));
    lines
}

/// All that the interface has to show: the transcript, what happens, and the messages that wait; or
/// the list that a session is being picked from.
pub open spec fn history(state: TuiView) -> Seq<Seq<SpanView>> {
    match state.picker {
        Some(focus) => picker_list(state.sessions, focus as int),
        None => shown(state) + activity(state) + queue(state.queued_messages),
    }
}

/// All that the interface has to show.
pub fn history_lines(state: &TuiState) -> (r: Vec<StyledLine>)
    ensures
        line_views(r@) == history(state@),
{
    if let Some(focus) = state.picker {
        return picker_lines(&state.sessions, focus);
    }
    let mut lines = shown_lines(state);
    append_live_transcript(&mut lines, state);
    append_queue_preview(&mut lines, &state.queued_messages);
    lines
}

/// The status of the run that is followed.
pub open spec fn run_status(state: TuiView) -> Seq<char> {
    match state.active_run {
        Some((_, status)) => status,
        None => "ready"@,
    }
}

fn run_status_text(state: &TuiState) -> (r: String)
    ensures
        r@ == run_status(state@),
{
    match &state.active_run {
        Some(run) => run.status.clone(),
        None => "ready".to_owned(),
    }
}

/// A number of seconds in words.
pub open spec fn elapsed_words(seconds: nat) -> Seq<char> {
    if seconds / 60 == 0 {
        text::decimal(seconds % 60) + "s"@
    } else {
        text::decimal(seconds / 60) + "m"@ + (if seconds % 60 < 10 {
            "0"@
        } else {
            ""@
        }) + text::decimal(seconds % 60) + "s"@
    }
}

/// A number of seconds in words.
pub fn format_elapsed(seconds: u64) -> (r: String)
    ensures
        r@ == elapsed_words(seconds as nat),
{
    let minutes: u64 = seconds / 60;
    let rest: u64 = seconds % 60;
    if minutes == 0 {
        text::text2(text::decimal_u64(rest).as_str(), "s")
    } else {
        let zero = if rest < 10 {
            "0"
        } else {
            ""
        };
        let mut r = text::text4(
            text::decimal_u64(minutes).as_str(),
            "m",
            zero,
            text::decimal_u64(rest).as_str(),
        );
        r.append("s");
        r
    }
}

/// The line at the top.
pub open spec fn header(state: TuiView) -> Seq<SpanView> {
    let elapsed = match state.active_run_elapsed_secs {
        Some(seconds) => elapsed_words(seconds as nat),
        None => "0s"@,
    };
    let model = match state.active_model {
        Some(model) => model,
        None => "model pending"@,
    };
    let workspace = match state.connection {
        ConnectionView::Connected { workspace_id, .. } => workspace_id,
        ConnectionView::Disconnected { .. } => "offline"@,
    };
    seq![
        heavy("Plato Agent"@, Hue::Yellow),
        raw_span(
            " | "@ + run_status(state) + " | "@ + elapsed + " | "@ + model + " | "@ + workspace,
        ),
    ]
}

/// The line at the top.
pub fn header_rule(state: &TuiState) -> (r: StyledLine)
    ensures
        r@ == header(state@),
{
    let elapsed = match state.active_run_elapsed_secs {
        Some(seconds) => format_elapsed(seconds),
        None => "0s".to_owned(),
    };
    let model = match &state.active_model {
        Some(model) => model.clone(),
        None => "model pending".to_owned(),
    };
    let workspace = match &state.connection {
        ConnectionState::Connected { workspace_id, .. } => workspace_id.clone(),
        ConnectionState::Disconnected { .. } => "offline".to_owned(),
    };
    let mut rest = text::text4(" | ", run_status_text(state).as_str(), " | ", elapsed.as_str());
    rest.append(" | ");
    rest.append(model.as_str());
    rest.append(" | ");
    rest.append(workspace.as_str());
    two(in_bold("Plato Agent", Hue::Yellow), raw(rest.as_str()))
}

/// The words of the line above the composer.
pub open spec fn status_words(state: TuiView) -> Seq<char> {
    match state.connection {
        ConnectionView::Connected { workspace_id, .. } => "-- "@ + run_status(state)
            + " | plato | queued "@ + text::decimal(state.queued_messages.len()) + " | "@
            + sessions_words(state.sessions.len()) + " | "@ + workspace_id + " -- "@
            + state.workspace_root,
        ConnectionView::Disconnected { .. } => "-- offline | plato | press r to reconnect -- "@
            + state.workspace_root,
    }
}

/// The line above the composer.
pub fn status_rule(state: &TuiState) -> (r: StyledLine)
    ensures
        r@ == seq![colored(status_words(state@), Hue::DarkGray)],
{
    let status = match &state.connection {
        ConnectionState::Connected { workspace_id, .. } => {
            assert(state@.queued_messages.len() == state.queued_messages@.len());
            assert(state@.sessions.len() == state.sessions@.len());
            let mut status = text::text4(
                "-- ",
                run_status_text(state).as_str(),
                " | plato | queued ",
                text::decimal_usize(state.queued_messages.len()).as_str(),
            );
            status.append(" | ");
            status.append(sessions_text(state.sessions.len()).as_str());
            status.append(" | ");
            status.append(workspace_id.as_str());
            status.append(" -- ");
            status.append(state.workspace_root.as_str());
            status
        },
        ConnectionState::Disconnected { .. } => text::text2(
            "-- offline | plato | press r to reconnect -- ",
            state.workspace_root.as_str(),
        ),
    };
    one(in_color(status.as_str(), Hue::DarkGray))
}

/// How many characters of a text fit in `max` bytes.
pub open spec fn fitting(s: Seq<char>, max: nat) -> nat
    decreases s.len(),
{
    if s.len() == 0 || text::byte_len(s) <= max {
        s.len()
    } else {
        fitting(s.drop_last(), max)
    }
}

proof fn lemma_fitting(r: Seq<char>, s: Seq<char>, max: nat)
    requires
        text::is_byte_prefix(r, s, max),
    ensures
        r.len() == fitting(s, max),
        r == s.take(r.len() as int),
    decreases s.len(),
{
    if s.len() == 0 {
    } else if text::byte_len(s) <= max {
        text::law_short_texts_are_left_whole(r, s, max);
    } else {
        if r.len() == s.len() {
            assert(s.take(s.len() as int) =~= s);
        }
        let t = s.drop_last();
        assert(t.take(r.len() as int) =~= s.take(r.len() as int));
        if r.len() < t.len() {
            assert(t.take(r.len() as int + 1) =~= s.take(r.len() as int + 1));
        }
        lemma_fitting(r, t, max);
    }
}

/// What is being written, with a mark where the cursor stands.
pub open spec fn with_cursor(composer: Seq<char>, cursor: nat) -> Seq<char> {
    let at = fitting(composer, cursor) as int;
    composer.take(at) + "|"@ + composer.skip(at)
}

/// What is being written, with a mark where the cursor stands. A cursor inside a character stands
/// before it, and one behind the end stands at the end.
pub fn composer_with_cursor(composer: &str, cursor: usize) -> (r: String)
    ensures
        r@ == with_cursor(composer@, cursor as nat),
{
    let head = text::truncate_utf8(composer, cursor);
    proof {
        lemma_fitting(head@, composer@, cursor as nat);
    }
    let chars = text::chars_of(composer);
    let at = head.as_str().unicode_len();
    let tail = text::text_between(&chars, at, chars.len());
    assert(tail@ =~= composer@.skip(at as int));
    text::text3(head.as_str(), "|", tail.as_str())
}

/// The lines of what is being written.
pub open spec fn draft_rows(draft: Seq<char>) -> Seq<Seq<SpanView>> {
    let lines = text::lines_of(draft);
    Seq::new(
        lines.len(),
        |i: int|
            seq![
                heavy(
                    if i == 0 {
                        ">"@
                    } else {
                        "|"@
                    },
                    Hue::Yellow,
                ),
                raw_span(" "@ + lines[i]),
            ],
    )
}

/// What is shown where nothing is being written.
pub open spec fn composer_hint() -> Seq<SpanView> {
    seq![
        heavy(">"@, Hue::Yellow),
        raw_span(" "@),
        colored("|"@, Hue::Yellow),
        raw_span(" "@),
        colored("Try \"read README.md and summarize it\""@, Hue::DarkGray),
    ]
}

/// The lines of the composer: what is being written, and how it is sent.
pub open spec fn composer(state: TuiView) -> Seq<Seq<SpanView>> {
    (if state.composer.len() == 0 {
        seq![composer_hint()]
    } else {
        draft_rows(with_cursor(state.composer, state.composer_cursor as nat))
    }).push(
        seq![
            colored(
                "Enter submits | Alt/Shift-Enter newline | PgUp/PgDown scroll | queued "@
                    + text::decimal(state.queued_messages.len()),
                Hue::DarkGray,
            ),
        ],
    )
}

fn hint_line() -> (r: StyledLine)
    ensures
        r@ == composer_hint(),
{
    let r = StyledLine {
        spans: vec![
            in_bold(">", Hue::Yellow),
            raw(" "),
            in_color("|", Hue::Yellow),
            raw(" "),
            in_color("Try \"read README.md and summarize it\"", Hue::DarkGray),
        ],
    };
    assert(r@ =~= composer_hint());
    r
}

fn draft_lines(draft: &str) -> (r: Vec<StyledLine>)
    ensures
        line_views(r@) == draft_rows(draft@),
{
    let parts = text::lines(draft);
    let ghost wanted = draft_rows(draft@);
    let mut lines: Vec<StyledLine> = Vec::new();
    assert(line_views(lines@) =~= wanted.take(0));
    let mut i: usize = 0;
    while i < parts.len()
        invariant
            0 <= i <= parts@.len(),
            text::views(parts@) == text::lines_of(draft@),
            wanted == draft_rows(draft@),
            line_views(lines@) == wanted.take(i as int),
        decreases parts@.len() - i,
    {
        let mark = if i == 0 {
            ">"
        } else {
            "|"
        };
        assert(text::views(parts@)[i as int] == parts@[i as int]@);
        assert(text::views(parts@).len() == parts@.len());
        push(
            &mut lines,
            two(
                in_bold(mark, Hue::Yellow),
                raw(text::text2(" ", parts[i].as_str()).as_str()),
            ),
        );
        assert(wanted.take(i + 1) =~= wanted.take(i as int).push(wanted[i as int]));
        i += 1;
    }
    assert(text::views(parts@).len() == parts@.len());
    assert(wanted.take(parts@.len() as int) =~= wanted);
    lines
}

/// The lines of the composer.
pub fn composer_lines(state: &TuiState) -> (r: Vec<StyledLine>)
    ensures
        line_views(r@) == composer(state@),
{
    let mut lines: Vec<StyledLine> = Vec::new();
    if state.composer.as_str().unicode_len() == 0 {
        push(&mut lines, hint_line());
        assert(line_views(lines@) =~= seq![composer_hint()]);
    } else {
        lines =
        draft_lines(
            composer_with_cursor(state.composer.as_str(), state.composer_cursor).as_str(),
        );
    }
    assert(state@.queued_messages.len() == state.queued_messages@.len());
    let help = text::text2(
        "Enter submits | Alt/Shift-Enter newline | PgUp/PgDown scroll | queued ",
        text::decimal_usize(state.queued_messages.len()).as_str(),
    );
    push(&mut lines, one(in_color(help.as_str(), Hue::DarkGray)));
    lines
}

/// How many lines the composer takes: those of the draft and one more, from two to six.
pub open spec fn composer_rows(composer: Seq<char>) -> nat {
    let drafted = text::lines_of(composer).len();
    if drafted <= 1 {
        2
    } else if drafted >= 5 {
        6
    } else {
        drafted + 1
    }
}

/// How many lines the composer takes.
pub fn composer_height(state: &TuiState) -> (r: u16)
    ensures
        r == composer_rows(state@.composer),
        2 <= r <= 6,
{
    let parts = text::lines(state.composer.as_str());
    assert(text::views(parts@).len() == parts@.len());
    let drafted = parts.len();
    if drafted <= 1 {
        2
    } else if drafted >= 5 {
        6
    } else {
        drafted as u16 + 1
    }
}

/// The lines that fit in `height`: the last ones, or those `scroll` lines further up. Without height
/// nothing is cut.
pub open spec fn window<T>(lines: Seq<T>, height: nat, scroll: nat) -> Seq<T> {
    if height == 0 || lines.len() <= height {
        lines
    } else {
        let end = if lines.len() - scroll < height {
            height as int
        } else {
            lines.len() - scroll
        };
        lines.subrange(end - height, end)
    }
}

/// The lines that fit in `height`.
pub fn visible_lines(lines: Vec<StyledLine>, height: u16, scroll_offset: usize) -> (r: Vec<
    StyledLine,
>)
    ensures
        line_views(r@) == window(line_views(lines@), height as nat, scroll_offset as nat),
{
    let height = height as usize;
    assert(line_views(lines@).len() == lines@.len());
    if height == 0 || lines.len() <= height {
        return lines;
    }
    let end: usize = if lines.len() < scroll_offset || lines.len() - scroll_offset < height {
        height
    } else {
        lines.len() - scroll_offset
    };
    let start: usize = end - height;
    let ghost all = line_views(lines@);
    let mut kept: Vec<StyledLine> = Vec::new();
    let mut i: usize = start;
    assert(line_views(kept@) =~= all.subrange(start as int, start as int));
    while i < end
        invariant
            start <= i <= end <= lines@.len(),
            all == line_views(lines@),
            line_views(kept@) == all.subrange(start as int, i as int),
        decreases end - i,
    {
        push(&mut kept, copy_line(&lines[i]));
        assert(all.subrange(start as int, i + 1) =~= all.subrange(start as int, i as int).push(
            all[i as int],
        ));
        i += 1;
    }
    kept
}

fn copy_line(line: &StyledLine) -> (r: StyledLine)
    ensures
        r@ == line@,
{
    let mut spans: Vec<StyledSpan> = Vec::new();
    let mut i: usize = 0;
    while i < line.spans.len()
        invariant
            0 <= i <= line.spans@.len(),
            spans@ == line.spans@.take(i as int),
        decreases line.spans@.len() - i,
    {
        spans.push(line.spans[i].clone());
        assert(spans@ =~= line.spans@.take(i + 1));
        i += 1;
    }
    assert(spans@ =~= line.spans@);
    StyledLine { spans }
}

/// The window is full wherever there is enough to fill it, and it shows lines that stand together.
pub proof fn law_windows_are_full<T>(lines: Seq<T>, height: nat, scroll: nat)
    requires
        height > 0,
    ensures
        window(lines, height, scroll).len() == if lines.len() <= height {
            lines.len()
        } else {
            height
        },
        exists|start: int|
            0 <= start && start + window(lines, height, scroll).len() <= lines.len() && window(
                lines,
                height,
                scroll,
            ) == #[trigger] lines.subrange(start, start + window(lines, height, scroll).len()),
{
    if lines.len() <= height {
        assert(lines =~= lines.subrange(0, 0int + lines.len()));
    } else {
        let end = if lines.len() - scroll < height {
            height as int
        } else {
            lines.len() - scroll
        };
        assert(window(lines, height, scroll) == lines.subrange(
            end - height,
            end - height + window(lines, height, scroll).len(),
        ));
    }
}

/// Unscrolled, the window ends with the last line.
pub proof fn law_windows_end_with_the_last_line<T>(lines: Seq<T>, height: nat)
    requires
        height > 0,
        lines.len() > 0,
    ensures
        window(lines, height, 0).len() > 0,
        window(lines, height, 0).last() == lines.last(),
{
}

/// What is shown under the head of an approval: a difference before a preview, and a preview before
/// the bare input.
pub open spec fn approval_body(approval: ModalView) -> Seq<Seq<SpanView>> {
    match approval.diff_preview {
        Some(diff) => seq![raw_line("diff preview:"@)] + text_lines(diff),
        None => match approval.approval_preview {
            Some(preview) => seq![raw_line("approval preview:"@)] + text_lines(preview),
            None => seq![raw_line("input preview:"@), raw_line(approval.input_preview)],
        },
    }
}

/// The head of an approval.
pub open spec fn approval_head(approval: ModalView) -> Seq<Seq<SpanView>> {
    seq![
        seq![heavy("run "@, Hue::Plain), raw_span(approval.run_id)],
        seq![heavy("call "@, Hue::Plain), raw_span(approval.tool_call_id)],
        seq![
            heavy("tool "@, Hue::Plain),
            raw_span(approval.tool_name + " ("@ + approval.effect + ")"@),
        ],
        seq![heavy("reason "@, Hue::Plain), raw_span(approval.reason)],
        raw_line(""@),
        raw_line("g grant    d deny    Ctrl-C cancel run    q quit TUI"@),
        raw_line(""@),
    ]
}

fn approval_head_lines(approval: &ApprovalModalView) -> (r: Vec<StyledLine>)
    ensures
        line_views(r@) == approval_head(approval@),
{
    let mut lines: Vec<StyledLine> = Vec::new();
    push(&mut lines, two(in_bold("run ", Hue::Plain), raw(approval.run_id.as_str())));
    push(&mut lines, two(in_bold("call ", Hue::Plain), raw(approval.tool_call_id.as_str())));
    let mut tool = text::text3(approval.tool_name.as_str(), " (", approval.effect.as_str());
    tool.append(")");
    push(&mut lines, two(in_bold("tool ", Hue::Plain), raw(tool.as_str())));
    push(&mut lines, two(in_bold("reason ", Hue::Plain), raw(approval.reason.as_str())));
    push(&mut lines, plain(""));
    push(&mut lines, plain("g grant    d deny    Ctrl-C cancel run    q quit TUI"));
    push(&mut lines, plain(""));
    assert(line_views(lines@) =~= approval_head(approval@));
    lines
}

/// The lines of an approval that is asked for.
pub fn approval_lines(approval: &ApprovalModalView) -> (r: Vec<StyledLine>)
    ensures
        line_views(r@) == approval_head(approval@) + approval_body(approval@),
{
    let mut lines = approval_head_lines(approval);
    let ghost head = line_views(lines@);
    if let Some(diff) = &approval.diff_preview {
        push(&mut lines, plain("diff preview:"));
        push_text(&mut lines, diff.as_str());
    } else if let Some(preview) = &approval.approval_preview {
        push(&mut lines, plain("approval preview:"));
        push_text(&mut lines, preview.as_str());
    } else {
        push(&mut lines, plain("input preview:"));
        push(&mut lines, plain(approval.input_preview.as_str()));
    }
    assert(line_views(lines@) =~= head + approval_body(approval@));
    lines
}

/// A line of the log shows its text behind the word for its kind.
pub proof fn law_log_lines_tell_their_kind(event: EventLineView)
    ensures
        ({
            let shown = event_row_of(event);
            let word = match event.kind {
                LiveEventKind::User => "user      "@,
                LiveEventKind::Assistant | LiveEventKind::AssistantDelta => "assistant "@,
                LiveEventKind::Tool => "tool      "@,
                LiveEventKind::Status => "status    "@,
                LiveEventKind::Warning => "warning   "@,
            };
            let numbered = event.kind == LiveEventKind::Status || event.kind
                == LiveEventKind::Warning;
            &&& shown.len() == 2
            &&& shown[0].text == word
            &&& !numbered || event.offset is None ==> shown[1].text == event.text
            &&& numbered ==> (event.offset matches Some(offset) ==> shown[1].text == "#"@
                + text::decimal(offset as nat) + " "@ + event.text)
        }),
{
}

/// Whoever is asked sees the run, the call, the tool with what it may do, and the reason, in that order;
/// and then the difference where there is one, else the preview, else the input.
pub proof fn law_approvals_show_the_call(approval: ModalView)
    ensures
        ({
            let head = approval_head(approval);
            let body = approval_body(approval);
            &&& head[0][1].text == approval.run_id && head[0][0].text == "run "@
            &&& head[1][1].text == approval.tool_call_id && head[1][0].text == "call "@
            &&& head[2][1].text == approval.tool_name + " ("@ + approval.effect + ")"@
            &&& head[3][1].text == approval.reason && head[3][0].text == "reason "@
            &&& approval.diff_preview matches Some(diff) ==> body.skip(1) == text_lines(diff)
            &&& approval.diff_preview is None ==> (approval.approval_preview matches Some(preview)
                ==> body.skip(1) == text_lines(preview))
            &&& approval.diff_preview is None && approval.approval_preview is None ==> body[1]
                == raw_line(approval.input_preview)
        }),
{
    let body = approval_body(approval);
    if let Some(diff) = approval.diff_preview {
        assert(body.skip(1) =~= text_lines(diff));
    } else if let Some(preview) = approval.approval_preview {
        assert(body.skip(1) =~= text_lines(preview));
    }
}

/// The list of sessions begins with the one that is pointed at, which alone is marked, and shows at most
/// as many as have room, in their order, each with its name, how it stands and what was asked last.
pub proof fn law_pickers_show_sessions(sessions: Seq<SummaryView>, focus: int, i: int)
    requires
        0 <= focus < sessions.len(),
        0 <= i < picker_rows(sessions, focus).len(),
    ensures
        ({
            let rows = picker_rows(sessions, focus);
            let mark = if i == 0 {
                "> "@
            } else {
                "  "@
            };
            &&& rows.len() <= PICKER_ROWS
            &&& rows.len() < PICKER_ROWS ==> focus + rows.len() == sessions.len()
            &&& rows[i][0].text == mark + sessions[focus + i].session_id
            &&& rows[i][1].text == " "@ + sessions[focus + i].status.wire()
            &&& rows[i][2].text == " "@ + sessions[focus + i].latest_question
        }),
{
}

/// A time is told in seconds below a minute, and else in minutes and seconds that give it back.
pub proof fn law_times_are_told(seconds: nat)
    ensures
        seconds < 60 ==> elapsed_words(seconds) == text::decimal(seconds) + "s"@,
        seconds >= 60 ==> exists|m: nat, s: nat|
            #![trigger text::decimal(m), text::decimal(s)]
            seconds == 60 * m + s && s < 60 && elapsed_words(seconds) == text::decimal(m) + "m"@
                + (if s < 10 {
                "0"@
            } else {
                ""@
            }) + text::decimal(s) + "s"@,
{
    let m = seconds / 60;
    let s = seconds % 60;
    assert(seconds == 60 * m + s);
    assert(text::decimal(m) == text::decimal(m) && text::decimal(s) == text::decimal(s));
}

proof fn lemma_fitting_bounds(s: Seq<char>, max: nat)
    ensures
        fitting(s, max) <= s.len(),
        text::byte_len(s.take(fitting(s, max) as int)) <= max || fitting(s, max) == 0,
        text::byte_len(s) <= max ==> fitting(s, max) == s.len(),
    decreases s.len(),
{
    assert(s.take(s.len() as int) =~= s);
    if s.len() > 0 && text::byte_len(s) > max {
        let rest = s.drop_last();
        lemma_fitting_bounds(rest, max);
        assert(rest.take(fitting(rest, max) as int) =~= s.take(fitting(rest, max) as int));
    }
}

/// The cursor stands in what was typed, which is otherwise shown as it is; behind all of it where it
/// points there.
pub proof fn law_the_cursor_stands_in_the_text(composer: Seq<char>, cursor: nat)
    ensures
        exists|at: int|
            0 <= at <= composer.len() && with_cursor(composer, cursor) == #[trigger] composer.take(
                at,
            ) + "|"@ + composer.skip(at) && (text::byte_len(composer.take(at)) <= cursor || at == 0),
        text::byte_len(composer) <= cursor ==> with_cursor(composer, cursor) == composer + "|"@,
{
    lemma_fitting_bounds(composer, cursor);
    let at = fitting(composer, cursor) as int;
    assert(with_cursor(composer, cursor) == composer.take(at) + "|"@ + composer.skip(at));
    if text::byte_len(composer) <= cursor {
        assert(composer.take(at) =~= composer);
        assert(with_cursor(composer, cursor) =~= composer + "|"@);
    }
}

/// The composer has a row for each line that was typed, from one to five, and one more.
pub proof fn law_composers_grow_with_their_text(composer: Seq<char>)
    ensures
        2 <= composer_rows(composer) <= 6,
        1 <= text::lines_of(composer).len() <= 5 ==> composer_rows(composer) == text::lines_of(
            composer,
        ).len() + 1,
{
}

/// Scrolling moves the window up by as many lines as were scrolled, as far as the first line.
pub proof fn law_windows_scroll_line_by_line<T>(lines: Seq<T>, height: nat, scroll: nat, i: int)
    requires
        0 < height < lines.len(),
        0 <= i < height,
    ensures
        scroll <= lines.len() - height ==> window(lines, height, scroll)[i] == lines[lines.len()
            - scroll - height + i],
        scroll > lines.len() - height ==> window(lines, height, scroll)[i] == lines[i],
{
}

/// The status line of a daemon that is gone says so and how to seek it; that of one that is there tells
/// how the run stands and how many messages and sessions there are.
pub proof fn law_status_lines_tell_the_connection(state: TuiView)
    ensures
        state.connection is Disconnected ==> status_words(state)
            == "-- offline | plato | press r to reconnect -- "@ + state.workspace_root,
        state.connection matches ConnectionView::Connected { workspace_id, .. } ==> status_words(state)
            == "-- "@ + (match state.active_run {
            Some((_, status)) => status,
            None => "ready"@,
        }) + " | plato | queued "@ + text::decimal(state.queued_messages.len()) + " | "@ + (
        text::decimal(state.sessions.len()) + " session"@ + (if state.sessions.len() == 1 {
            ""@
        } else {
            "s"@
        })) + " | "@ + workspace_id + " -- "@ + state.workspace_root,
{
}

/// What is shown is the transcript or why there is none, then what goes on, then what is queued; an open
/// list of sessions takes its place.
pub proof fn law_the_screen_tells_its_state(state: TuiView)
    ensures
        state.picker matches Some(focus) ==> history(state).skip(1) == picker_rows(
            state.sessions,
            focus as int,
        ),
        state.picker is None ==> history(state) == shown(state) + activity(state) + queue(
            state.queued_messages,
        ),
        state.transcript matches ShownView::Loaded { run_id, content } ==> shown(state)[0][1].text
            == run_id && shown(state).skip(2) == text_lines(content),
        state.transcript matches ShownView::Unavailable { run_id, error } ==> shown(state)[0][1].text
            == run_id && shown(state)[1] == raw_line(error),
        state.transcript is Empty ==> (state.connection matches ConnectionView::Disconnected { error }
            ==> shown(state)[1] == raw_line(error)),
        activity(state).len() == 0 <==> state.active_run is None && state.status_message is None
            && state.stream_warning is None && state.live_events.len() == 0,
{
    if let Some(focus) = state.picker {
        assert(history(state).skip(1) =~= picker_rows(state.sessions, focus as int));
    }
    if let ShownView::Loaded { run_id, content } = state.transcript {
        assert(shown(state).skip(2) =~= text_lines(content));
    }
}

/// What goes on is told in order: the run and how it stands, the message, the warning, and then the log,
/// line by line.
pub proof fn law_activity_is_told_in_order(state: TuiView, i: int)
    requires
        0 <= i < state.live_events.len(),
    ensures
        ({
            let told = activity(state);
            let head = activity_head(state).len() as int;
            &&& told.len() == head + state.live_events.len()
            &&& told[head + i] == event_row_of(state.live_events[i])
            &&& state.active_run matches Some((run_id, status)) ==> told[2][1].text == status + " "@
                + run_id
            &&& state.stream_warning matches Some(warning) ==> told[head - 1][1].text
                == "stream warning "@ + warning
            &&& state.active_run is None ==> (state.status_message matches Some(message)
                ==> told[2][1].text == message)
        }),
{
}

/// The header tells how the run stands, for how long, the model and the workspace.
pub proof fn law_headers_tell_the_run(state: TuiView)
    ensures
        header(state).len() == 2,
        header(state)[1].text == " | "@ + (match state.active_run {
            Some((_, status)) => status,
            None => "ready"@,
        }) + " | "@ + (match state.active_run_elapsed_secs {
            Some(seconds) => elapsed_words(seconds as nat),
            None => "0s"@,
        }) + " | "@ + (match state.active_model {
            Some(model) => model,
            None => "model pending"@,
        }) + " | "@ + (match state.connection {
            ConnectionView::Connected { workspace_id, .. } => workspace_id,
            ConnectionView::Disconnected { .. } => "offline"@,
        }),
{
}

} // verus!

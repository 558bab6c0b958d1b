//! The terminal interface: what it shows, and what it does with keys and with the daemon's answers.
pub mod app;
pub mod lines;
pub mod modal;
pub mod render;
pub mod state;

pub use app::TuiOptions;
pub use modal::{
    approval_from_event, live_event_line, tool_input_preview_from_event, ApprovalModalView,
};
pub use render::render_snapshot;
pub use state::{
    ActiveRunView, ConnectionState, LiveEventKind, LiveEventLine, TranscriptState, TranscriptView,
    TuiState,
};

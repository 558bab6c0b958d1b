//! What can go wrong, and how it is said.
use crate::harness;
use crate::harness::CoreError;
use crate::text;
use vstd::prelude::*;

verus! {

/// An error as the daemon protocol carries it.
#[derive(Debug, PartialEq, Eq)]
pub struct ProtocolError {
    pub code: String,
    pub message: String,
}

impl Clone for ProtocolError {
    fn clone(&self) -> (r: ProtocolError)
        ensures
            r == *self,
    {
        ProtocolError { code: self.code.clone(), message: self.message.clone() }
    }
}

/// The errors of the agent. Paths are held as text, and so is what other libraries report.
#[derive(Debug, PartialEq, Eq)]
pub enum AppError {
    MissingApiKey(String),
    Config(String),
    Provider(String),
    Tool(String),
    LedgerVersion { expected: u32, actual: u32 },
    EmptyLedger,
    LedgerExists(String),
    LedgerConflict { run_id: String, seq: u64 },
    NoSqliteRuns,
    NoSqliteSessions,
    RunNotFound(String),
    SessionNotFound(String),
    SessionActive { session_id: String, run_id: String },
    EmptyQuestion,
    RunFailed(String),
    PathEscapesWorkspace(String),
    DaemonLockHeld { path: String, owner: String },
    DaemonProtocol(String),
    DaemonResponse(ProtocolError),
    Io(String),
    Json(String),
    Sqlite(String),
    Toml(String),
    Core(CoreError),
}

/// A result with an error of the agent.
pub type AppResult<T> = Result<T, AppError>;

/// An error in words.
pub open spec fn app_message(error: AppError) -> Seq<char> {
    match error {
        AppError::MissingApiKey(name) => "provider api key env var "@ + name@ + " is not set"@,
        AppError::Config(detail) => "config error: "@ + detail@,
        AppError::Provider(detail) => "provider error: "@ + detail@,
        AppError::Tool(detail) => "tool error: "@ + detail@,
        AppError::LedgerVersion { expected, actual } => "ledger version mismatch: expected "@
            + text::decimal(expected as nat) + ", actual "@ + text::decimal(actual as nat),
        AppError::EmptyLedger => "ledger path is empty"@,
        AppError::LedgerExists(path) => "ledger already exists: "@ + path@,
        AppError::LedgerConflict { run_id, seq } => "ledger conflict for run "@ + run_id@
            + " seq "@ + text::decimal(seq as nat),
        AppError::NoSqliteRuns => "sqlite ledger has no runs"@,
        AppError::NoSqliteSessions => "sqlite ledger has no sessions"@,
        AppError::RunNotFound(id) => "run not found in sqlite ledger: "@ + id@,
        AppError::SessionNotFound(id) => "session not found in sqlite ledger: "@ + id@,
        AppError::SessionActive { session_id, run_id } => "session "@ + session_id@
            + " already has an active run: "@ + run_id@,
        AppError::EmptyQuestion => "question is empty"@,
        AppError::RunFailed(detail) => "run did not finish: "@ + detail@,
        AppError::PathEscapesWorkspace(path) => "path escapes workspace: "@ + path@,
        AppError::DaemonLockHeld { path, owner } => "workspace daemon lock is held at "@ + path@
            + ": "@ + owner@,
        AppError::DaemonProtocol(detail) => "daemon protocol error: "@ + detail@,
        AppError::DaemonResponse(error) => error.code@ + ": "@ + error.message@,
        AppError::Io(detail) => "io error: "@ + detail@,
        AppError::Json(detail) => "json error: "@ + detail@,
        AppError::Sqlite(detail) => "sqlite error: "@ + detail@,
        AppError::Toml(detail) => "toml parse error: "@ + detail@,
        AppError::Core(error) => "core error: "@ + harness::core_message(error@),
    }
}

impl AppError {
    /// The error in words.
    pub fn message(&self) -> (r: String)
        ensures
            r@ == app_message(*self),
    {
        match self {
            AppError::MissingApiKey(name) => text::text3(
                "provider api key env var ",
                name.as_str(),
                " is not set",
            ),
            AppError::Config(detail) => text::text2("config error: ", detail.as_str()),
            AppError::Provider(detail) => text::text2("provider error: ", detail.as_str()),
            AppError::Tool(detail) => text::text2("tool error: ", detail.as_str()),
            AppError::LedgerVersion { expected, actual } => text::text4(
                "ledger version mismatch: expected ",
                text::decimal_u64(*expected as u64).as_str(),
                ", actual ",
                text::decimal_u64(*actual as u64).as_str(),
            ),
            AppError::EmptyLedger => "ledger path is empty".to_owned(),
            AppError::LedgerExists(path) => text::text2("ledger already exists: ", path.as_str()),
            AppError::LedgerConflict { run_id, seq } => text::text4(
                "ledger conflict for run ",
                run_id.as_str(),
                " seq ",
                text::decimal_u64(*seq).as_str(),
            ),
            AppError::NoSqliteRuns => "sqlite ledger has no runs".to_owned(),
            AppError::NoSqliteSessions => "sqlite ledger has no sessions".to_owned(),
            AppError::RunNotFound(id) => text::text2("run not found in sqlite ledger: ", id.as_str()),
            AppError::SessionNotFound(id) => text::text2(
                "session not found in sqlite ledger: ",
                id.as_str(),
            ),
            AppError::SessionActive { session_id, run_id } => text::text4(
                "session ",
                session_id.as_str(),
                " already has an active run: ",
                run_id.as_str(),
            ),
            AppError::EmptyQuestion => "question is empty".to_owned(),
            AppError::RunFailed(detail) => text::text2("run did not finish: ", detail.as_str()),
            AppError::PathEscapesWorkspace(path) => text::text2(
                "path escapes workspace: ",
                path.as_str(),
            ),
            AppError::DaemonLockHeld { path, owner } => text::text4(
                "workspace daemon lock is held at ",
                path.as_str(),
                ": ",
                owner.as_str(),
            ),
            AppError::DaemonProtocol(detail) => text::text2("daemon protocol error: ", detail.as_str()),
            AppError::DaemonResponse(error) => text::text3(
                error.code.as_str(),
                ": ",
                error.message.as_str(),
            ),
            AppError::Io(detail) => text::text2("io error: ", detail.as_str()),
            AppError::Json(detail) => text::text2("json error: ", detail.as_str()),
            AppError::Sqlite(detail) => text::text2("sqlite error: ", detail.as_str()),
            AppError::Toml(detail) => text::text2("toml parse error: ", detail.as_str()),
            AppError::Core(error) => text::text2("core error: ", error.message().as_str()),
        }
    }
}

/// What is said of an error tells its kind and then its detail.
pub proof fn law_errors_tell_their_detail(detail: String, name: String)
    ensures
        app_message(AppError::MissingApiKey(name)) == "provider api key env var "@ + name@
            + " is not set"@,
        app_message(AppError::Config(detail)) == "config error: "@ + detail@,
        app_message(AppError::Provider(detail)) == "provider error: "@ + detail@,
        app_message(AppError::Tool(detail)) == "tool error: "@ + detail@,
        app_message(AppError::LedgerExists(detail)) == "ledger already exists: "@ + detail@,
        app_message(AppError::RunNotFound(name)) == "run not found in sqlite ledger: "@ + name@,
        app_message(AppError::SessionNotFound(name)) == "session not found in sqlite ledger: "@
            + name@,
        app_message(AppError::SessionActive { session_id: name, run_id: detail }) == "session "@
            + name@ + " already has an active run: "@ + detail@,
        app_message(AppError::RunFailed(detail)) == "run did not finish: "@ + detail@,
        app_message(AppError::PathEscapesWorkspace(detail)) == "path escapes workspace: "@ + detail@,
        app_message(AppError::DaemonLockHeld { path: name, owner: detail })
            == "workspace daemon lock is held at "@ + name@ + ": "@ + detail@,
        app_message(AppError::DaemonProtocol(detail)) == "daemon protocol error: "@ + detail@,
        app_message(AppError::Io(detail)) == "io error: "@ + detail@,
        app_message(AppError::Json(detail)) == "json error: "@ + detail@,
        app_message(AppError::Sqlite(detail)) == "sqlite error: "@ + detail@,
        app_message(AppError::Toml(detail)) == "toml parse error: "@ + detail@,
        app_message(AppError::EmptyLedger) == "ledger path is empty"@,
        app_message(AppError::NoSqliteRuns) == "sqlite ledger has no runs"@,
        app_message(AppError::NoSqliteSessions) == "sqlite ledger has no sessions"@,
        app_message(AppError::EmptyQuestion) == "question is empty"@,
{
}

/// What is said of a ledger of another version names both versions, and of a conflict the run and the
/// place.
pub proof fn law_ledger_errors_tell_their_numbers(
    expected: u32,
    actual: u32,
    run_id: String,
    seq: u64,
)
    ensures
        app_message(AppError::LedgerVersion { expected, actual })
            == "ledger version mismatch: expected "@ + text::decimal(expected as nat)
            + ", actual "@ + text::decimal(actual as nat),
        app_message(AppError::LedgerConflict { run_id, seq }) == "ledger conflict for run "@
            + run_id@ + " seq "@ + text::decimal(seq as nat),
{
}

} // verus!

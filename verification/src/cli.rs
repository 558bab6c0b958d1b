//! What the command line asks for: which ledger, which session, what is printed.
use crate::app::{RunLedger, RunOutcome, RunSession};
use crate::error::{AppError, AppResult};
use crate::paths;
use crate::text;
use crate::tui::app::TuiOptions;
use vstd::prelude::*;

verus! {

/// A subcommand.
#[derive(Debug, PartialEq, Eq)]
pub enum CliCommand {
    Replay { run: Option<String>, file: Option<String> },
}

/// What stands on the command line. A database may be asked for with a path, or without one.
#[derive(Debug, PartialEq, Eq)]
pub struct Cli {
    pub config: Option<String>,
    pub events: Option<String>,
    pub db: Option<Option<String>>,
    pub yolo: bool,
    pub continue_session: bool,
    pub tui: bool,
    pub command: Option<CliCommand>,
    pub question: Vec<String>,
}

/// What is wrong with a command line that asks for the terminal interface: it asks for something else
/// too.
pub open spec fn tui_complaint(cli: Cli) -> Option<Seq<char>> {
    if cli.command is Some {
        Some("plato --tui cannot be combined with subcommands"@)
    } else if cli.question@.len() > 0 {
        Some("plato --tui cannot be combined with a question"@)
    } else if cli.events is Some || cli.db is Some || cli.yolo || cli.continue_session {
        Some("plato --tui cannot be combined with --events, --db, --yolo, or -c"@)
    } else {
        None
    }
}

/// Checks a command line that asks for the terminal interface.
pub fn validate_tui_cli(cli: &Cli) -> (r: AppResult<()>)
    ensures
        match tui_complaint(*cli) {
            None => r is Ok,
            Some(message) => r matches Err(AppError::Config(detail)) && detail@ == message,
        },
{
    if cli.command.is_some() {
        return Err(
            AppError::Config("plato --tui cannot be combined with subcommands".to_owned()),
        );
    }
    if cli.question.len() > 0 {
        return Err(AppError::Config("plato --tui cannot be combined with a question".to_owned()));
    }
    if cli.events.is_some() || cli.db.is_some() || cli.yolo || cli.continue_session {
        return Err(
            AppError::Config(
                "plato --tui cannot be combined with --events, --db, --yolo, or -c".to_owned(),
            ),
        );
    }
    Ok(())
}

/// How the terminal interface is started from the command line.
pub fn tui_options_from_cli(cli: &Cli, workspace_root: &str) -> (r: AppResult<TuiOptions>)
    ensures
        match tui_complaint(*cli) {
            None => r matches Ok(options) && options.workspace@ == workspace_root@
                && options.config == cli.config && options.socket is None && options.run is None
                && !options.snapshot,
            Some(message) => r matches Err(AppError::Config(detail)) && detail@ == message,
        },
{
    match validate_tui_cli(cli) {
        Err(error) => Err(error),
        Ok(_) => {
            let mut options = TuiOptions::new(workspace_root.to_owned());
            options.config = text::copy_option(&cli.config);
            Ok(options)
        },
    }
}

/// The question on the command line: its words, with spaces between them.
pub fn question_of(cli: &Cli) -> (r: String)
    ensures
        r@ == text::joined(text::views(cli.question@), " "@),
{
    text::join(&cli.question, " ")
}

/// The database that is asked for: a path from the workspace on, or the default one.
pub fn sqlite_path(
    db: Option<Option<String>>,
    workspace_root: &str,
    default_path: AppResult<String>,
) -> (r: AppResult<String>)
    ensures
        match db {
            Some(Some(path)) => r matches Ok(given) && given@ == paths::joined_path(
                workspace_root@,
                path@,
            ),
            _ => r == default_path,
        },
{
    match db {
        Some(Some(path)) => Ok(paths::join_path(workspace_root, path.as_str())),
        _ => default_path,
    }
}

/// Whether a result is the ledger at a path, and else the error of finding the path, or that the
/// workspace is locked.
pub open spec fn sqlite_ledger_is(
    result: AppResult<RunLedger>,
    db: Option<Option<String>>,
    workspace_root: Seq<char>,
    default_path: AppResult<String>,
    lock: AppResult<()>,
) -> bool {
    match (db, default_path, lock) {
        (Some(Some(path)), _, Ok(_)) => result matches Ok(RunLedger::Sqlite(given)) && given@
            == paths::joined_path(workspace_root, path@),
        (Some(Some(_)), _, Err(error)) => result == Err::<RunLedger, AppError>(error),
        (_, Err(error), _) => result == Err::<RunLedger, AppError>(error),
        (_, Ok(path), Ok(_)) => result == Ok::<RunLedger, AppError>(RunLedger::Sqlite(path)),
        (_, Ok(_), Err(error)) => result == Err::<RunLedger, AppError>(error),
    }
}

/// The ledger of a run: the file that is asked for, or the database, which must not be in the hands
/// of a daemon. Both at once are refused.
pub fn run_ledger(
    events: Option<String>,
    db: Option<Option<String>>,
    workspace_root: &str,
    default_path: AppResult<String>,
    lock: AppResult<()>,
) -> (r: AppResult<RunLedger>)
    ensures
        match events {
            Some(path) => if db is Some {
                r matches Err(AppError::Config(detail)) && detail@
                    == "--events and --db are mutually exclusive"@
            } else {
                r == Ok::<RunLedger, AppError>(RunLedger::Jsonl(path))
            },
            None => sqlite_ledger_is(r, db, workspace_root@, default_path, lock),
        },
{
    if db.is_some() && events.is_some() {
        return Err(AppError::Config("--events and --db are mutually exclusive".to_owned()));
    }
    match events {
        Some(path) => Ok(RunLedger::Jsonl(path)),
        None => match sqlite_path(db, workspace_root, default_path) {
            Err(error) => Err(error),
            Ok(path) => match lock {
                Err(error) => Err(error),
                Ok(_) => Ok(RunLedger::Sqlite(path)),
            },
        },
    }
}

/// The session of a run: the latest one where it is to be continued, and a fresh one else. A file has
/// no sessions.
pub fn run_session(
    continue_session: bool,
    ledger: &RunLedger,
    latest: AppResult<String>,
    fresh: String,
) -> (r: AppResult<Option<RunSession>>)
    ensures
        match (*ledger, continue_session) {
            (RunLedger::Jsonl(_), true) => r matches Err(AppError::Config(detail)) && detail@
                == "plato -c requires the SQLite ledger; remove --events"@,
            (RunLedger::Jsonl(_), false) => r == Ok::<Option<RunSession>, AppError>(None),
            (RunLedger::Sqlite(_), false) => r == Ok::<Option<RunSession>, AppError>(
                Some(RunSession::Fresh { session_id: fresh }),
            ),
            (RunLedger::Sqlite(_), true) => match latest {
                Ok(session_id) => r == Ok::<Option<RunSession>, AppError>(
                    Some(RunSession::Continue { session_id }),
                ),
                Err(error) => if error is NoSqliteSessions || error is NoSqliteRuns {
                    r matches Err(AppError::Config(detail)) && detail@
                        == "plato -c found no previous SQLite session; run plato \"...\" first"@
                } else {
                    r == Err::<Option<RunSession>, AppError>(error)
                },
            },
        },
{
    match ledger {
        RunLedger::Jsonl(_) => if continue_session {
            Err(
                AppError::Config("plato -c requires the SQLite ledger; remove --events".to_owned()),
            )
        } else {
            Ok(None)
        },
        RunLedger::Sqlite(_) => if !continue_session {
            Ok(Some(RunSession::Fresh { session_id: fresh }))
        } else {
            match latest {
                Ok(session_id) => Ok(Some(RunSession::Continue { session_id })),
                Err(AppError::NoSqliteSessions) => Err(no_session()),
                Err(AppError::NoSqliteRuns) => Err(no_session()),
                Err(error) => Err(error),
            }
        },
    }
}

fn no_session() -> (r: AppError)
    ensures
        r matches AppError::Config(detail) && detail@
            == "plato -c found no previous SQLite session; run plato \"...\" first"@,
{
    AppError::Config(
        "plato -c found no previous SQLite session; run plato \"...\" first".to_owned(),
    )
}

/// The ledger that is played back.
#[derive(Clone, Debug, PartialEq, Eq)]
pub enum ReplayLedger {
    Jsonl(String),
    Sqlite(String),
}

/// The ledger that is played back: the file that is named, or the database. Both at once are refused.
pub fn replay_ledger(
    db: Option<Option<String>>,
    file: Option<String>,
    workspace_root: &str,
    default_path: AppResult<String>,
) -> (r: AppResult<ReplayLedger>)
    ensures
        match (db, file) {
            (Some(_), Some(_)) => r matches Err(AppError::Config(detail)) && detail@
                == "replay accepts either --db or a JSONL file, not both"@,
            (None, Some(file)) => r == Ok::<ReplayLedger, AppError>(ReplayLedger::Jsonl(file)),
            (Some(Some(path)), None) => r matches Ok(ReplayLedger::Sqlite(given)) && given@
                == paths::joined_path(workspace_root@, path@),
            (_, None) => match default_path {
                Ok(path) => r == Ok::<ReplayLedger, AppError>(ReplayLedger::Sqlite(path)),
                Err(error) => r == Err::<ReplayLedger, AppError>(error),
            },
        },
{
    match file {
        Some(file) => if db.is_some() {
            Err(
                AppError::Config("replay accepts either --db or a JSONL file, not both".to_owned()),
            )
        } else {
            Ok(ReplayLedger::Jsonl(file))
        },
        None => match sqlite_path(db, workspace_root, default_path) {
            Ok(path) => Ok(ReplayLedger::Sqlite(path)),
            Err(error) => Err(error),
        },
    }
}

/// Checks that a ledger can be played back: a database must not be in the hands of a daemon, and a
/// file holds one run only.
pub fn check_replay(ledger: &ReplayLedger, run: &Option<String>, lock: AppResult<()>) -> (r:
    AppResult<()>)
    ensures
        match *ledger {
            ReplayLedger::Sqlite(_) => r == lock,
            ReplayLedger::Jsonl(_) => if *run is Some {
                r matches Err(AppError::Config(detail)) && detail@ == "replay --run requires --db"@
            } else {
                r is Ok
            },
        },
{
    match ledger {
        ReplayLedger::Sqlite(_) => lock,
        ReplayLedger::Jsonl(_) => if run.is_some() {
            Err(AppError::Config("replay --run requires --db".to_owned()))
        } else {
            Ok(())
        },
    }
}

/// Whether a character means itself to a shell.
pub open spec fn is_plain(c: char) -> bool {
    ('a' <= c <= 'z') || ('A' <= c <= 'Z') || ('0' <= c <= '9') || c == '_' || c == '.' || c == '/'
        || c == ':' || c == '-'
}

/// A value in which each quote is closed, escaped and opened again.
pub open spec fn escaped(value: Seq<char>) -> Seq<char>
    decreases value.len(),
{
    if value.len() == 0 {
        Seq::empty()
    } else {
        escaped(value.drop_last()) + (if value.last() == '\'' {
            seq!['\'', '\\', '\'', '\'']
        } else {
            seq![value.last()]
        })
    }
}

/// A value as it is written for a shell.
pub open spec fn quoted(value: Seq<char>) -> Seq<char> {
    if forall|i: int| 0 <= i < value.len() ==> is_plain(#[trigger] value[i]) {
        value
    } else {
        seq!['\''] + escaped(value) + seq!['\'']
    }
}

/// A value as it is written for a shell.
pub fn shell_quote(value: &str) -> (r: String)
    ensures
        r@ == quoted(value@),
{
    let chars = text::chars_of(value);
    let mut plain = true;
    let mut body: Vec<char> = Vec::new();
    body.push('\'');
    let mut i: usize = 0;
    assert(value@.take(0) =~= Seq::empty());
    assert(body@ =~= seq!['\''] + escaped(value@.take(0)));
    while i < chars.len()
        invariant
            0 <= i <= chars@.len(),
            chars@ == value@,
            plain == (forall|j: int| 0 <= j < i ==> is_plain(#[trigger] value@[j])),
            body@ == seq!['\''] + escaped(value@.take(i as int)),
        decreases chars@.len() - i,
    {
        let c = chars[i];
        assert(value@.take(i + 1).drop_last() =~= value@.take(i as int));
        assert(value@.take(i + 1).last() == c);
        if !(('a' <= c && c <= 'z') || ('A' <= c && c <= 'Z') || ('0' <= c && c <= '9') || c == '_'
            || c == '.' || c == '/' || c == ':' || c == '-') {
            plain = false;
        }
        if c == '\'' {
            body.push('\'');
            body.push('\\');
            body.push('\'');
            body.push('\'');
        } else {
            body.push(c);
        }
        assert(body@ =~= seq!['\''] + escaped(value@.take(i + 1)));
        i += 1;
    }
    assert(value@.take(chars@.len() as int) =~= value@);
    if plain {
        return value.to_owned();
    }
    body.push('\'');
    assert(body@ =~= seq!['\''] + escaped(value@) + seq!['\'']);
    text::text_of(&body)
}

/// The value that a shell reads out of a word: quotes keep what they hold as it is, and a backslash
/// outside them keeps the next character.
pub open spec fn shell_value(word: Seq<char>, quoting: bool) -> Seq<char>
    decreases word.len(),
{
    if word.len() == 0 {
        Seq::empty()
    } else if word[0] == '\'' {
        shell_value(word.skip(1), !quoting)
    } else if !quoting && word[0] == '\\' && word.len() > 1 {
        seq![word[1]] + shell_value(word.skip(2), quoting)
    } else {
        seq![word[0]] + shell_value(word.skip(1), quoting)
    }
}

proof fn lemma_plain_word(word: Seq<char>)
    requires
        forall|i: int| 0 <= i < word.len() ==> is_plain(#[trigger] word[i]),
    ensures
        shell_value(word, false) == word,
    decreases word.len(),
{
    if word.len() > 0 {
        assert(is_plain(word[0]));
        assert forall|i: int| 0 <= i < word.skip(1).len() implies is_plain(
            #[trigger] word.skip(1)[i],
        ) by {
            assert(word.skip(1)[i] == word[i + 1]);
        }
        lemma_plain_word(word.skip(1));
        assert(word =~= seq![word[0]] + word.skip(1));
    }
}

proof fn lemma_escaped_front(value: Seq<char>)
    requires
        value.len() > 0,
    ensures
        escaped(value) == (if value[0] == '\'' {
            seq!['\'', '\\', '\'', '\'']
        } else {
            seq![value[0]]
        }) + escaped(value.skip(1)),
    decreases value.len(),
{
    let head = if value[0] == '\'' {
        seq!['\'', '\\', '\'', '\'']
    } else {
        seq![value[0]]
    };
    if value.len() == 1 {
        assert(value.drop_last() =~= Seq::empty());
        assert(value.skip(1) =~= Seq::empty());
        assert(escaped(value) =~= head + escaped(value.skip(1)));
    } else {
        lemma_escaped_front(value.drop_last());
        assert(value.drop_last().skip(1) =~= value.skip(1).drop_last());
        assert(value.skip(1).last() == value.last());
        assert(escaped(value) =~= head + escaped(value.skip(1)));
    }
}

proof fn lemma_quoted_word(value: Seq<char>)
    ensures
        shell_value(escaped(value) + seq!['\''], true) == value,
    decreases value.len(),
{
    let word = escaped(value) + seq!['\''];
    if value.len() == 0 {
        assert(word.skip(1) =~= Seq::empty());
        assert(shell_value(word.skip(1), false) =~= Seq::empty());
    } else {
        lemma_escaped_front(value);
        let rest = escaped(value.skip(1)) + seq!['\''];
        lemma_quoted_word(value.skip(1));
        assert(value =~= seq![value[0]] + value.skip(1));
        if value[0] == '\'' {
            let w1 = word.skip(1);
            let w3 = w1.skip(2);
            assert(word[0] == '\'' && w1[0] == '\\' && w1[1] == '\'' && w3[0] == '\'');
            assert(w3.skip(1) =~= rest);
            assert(shell_value(w3, false) == shell_value(rest, true));
            assert(shell_value(w1, false) == seq!['\''] + shell_value(w3, false));
        } else {
            assert(word[0] == value[0]);
            assert(word.skip(1) =~= rest);
        }
    }
}

/// A shell reads a value back as it was.
pub proof fn law_shells_read_values_back(value: Seq<char>)
    ensures
        shell_value(quoted(value), false) == value,
{
    if forall|i: int| 0 <= i < value.len() ==> is_plain(#[trigger] value[i]) {
        lemma_plain_word(value);
    } else {
        lemma_quoted_word(value);
        assert(quoted(value).skip(1) =~= escaped(value) + seq!['\'']);
    }
}

/// How a run that was kept in a database can be played back.
pub open spec fn replay_hint(run_id: Seq<char>, path: Seq<char>) -> Seq<char> {
    "run_id: "@ + run_id + "\nledger_path: "@ + path + "\nreplay: plato replay --db="@ + quoted(
        path,
    ) + " --run "@ + run_id + "\n"@
}

/// What is printed after a run, and what is said beside it.
pub fn run_success_output(outcome: &RunOutcome, ledger: &RunLedger) -> (r: (String, String))
    ensures
        r.0@ == outcome.final_answer@ + "\n"@,
        r.1@ == match *ledger {
            RunLedger::Sqlite(path) => replay_hint(outcome.run_id@, path@),
            RunLedger::Jsonl(_) => Seq::empty(),
        },
{
    let printed = text::text2(outcome.final_answer.as_str(), "\n");
    let said = match ledger {
        RunLedger::Sqlite(path) => {
            let mut hint = text::text4(
                "run_id: ",
                outcome.run_id.as_str(),
                "\nledger_path: ",
                path.as_str(),
            );
            hint.append("\nreplay: plato replay --db=");
            hint.append(shell_quote(path.as_str()).as_str());
            hint.append(" --run ");
            hint.append(outcome.run_id.as_str());
            hint.append("\n");
            hint
        },
        RunLedger::Jsonl(_) => {
            let nothing = String::new();
            assert(nothing@ =~= Seq::empty());
            nothing
        },
    };
    (printed, said)
}

/// How long the terminal interface waits for the daemon that it started, in milliseconds.
pub const EMBEDDED_DAEMON_TIMEOUT: u64 = 3_000;

/// How long the terminal interface waits between two attempts, in milliseconds.
pub const EMBEDDED_DAEMON_POLL: u64 = 50;

/// Where the wait for an own daemon stands.
#[derive(Debug, PartialEq, Eq)]
pub enum DaemonWait {
    Ready,
    /// The daemon stopped before it could be reached.
    Stopped,
    TimedOut(AppError),
    Wait,
}

/// Where the wait for an own daemon stands: that it answers counts before that it stopped, and that
/// before the time.
pub fn embedded_daemon_step(
    accepts: bool,
    finished: bool,
    now: u64,
    deadline: u64,
    socket_path: &str,
) -> (r: DaemonWait)
    ensures
        if accepts {
            r is Ready
        } else if finished {
            r is Stopped
        } else if now >= deadline {
            r matches DaemonWait::TimedOut(AppError::Config(detail)) && detail@
                == "timed out waiting for embedded plato-agentd at "@ + socket_path@
        } else {
            r is Wait
        },
{
    if accepts {
        DaemonWait::Ready
    } else if finished {
        DaemonWait::Stopped
    } else if now >= deadline {
        DaemonWait::TimedOut(
            AppError::Config(
                text::text2("timed out waiting for embedded plato-agentd at ", socket_path),
            ),
        )
    } else {
        DaemonWait::Wait
    }
}

/// How an own daemon ended.
#[derive(Debug, PartialEq, Eq)]
pub enum DaemonEnd {
    /// Nobody knows.
    Gone,
    Returned(AppResult<()>),
    Panicked,
}

/// The error of an own daemon that ended before it could be reached.
pub fn daemon_finished_before_ready(end: DaemonEnd) -> (r: AppError)
    ensures
        match end {
            DaemonEnd::Returned(Err(error)) => r == error,
            DaemonEnd::Returned(Ok(_)) => r matches AppError::Config(detail) && detail@
                == "embedded plato-agentd exited before accepting connections"@,
            DaemonEnd::Panicked => r matches AppError::Config(detail) && detail@
                == "embedded plato-agentd panicked before accepting connections"@,
            DaemonEnd::Gone => r matches AppError::Config(detail) && detail@
                == "embedded plato-agentd stopped before accepting connections"@,
        },
{
    match end {
        DaemonEnd::Returned(Err(error)) => error,
        DaemonEnd::Returned(Ok(_)) => AppError::Config(
            "embedded plato-agentd exited before accepting connections".to_owned(),
        ),
        DaemonEnd::Panicked => AppError::Config(
            "embedded plato-agentd panicked before accepting connections".to_owned(),
        ),
        DaemonEnd::Gone => AppError::Config(
            "embedded plato-agentd stopped before accepting connections".to_owned(),
        ),
    }
}

/// The terminal interface is refused exactly where anything else is asked for with it.
pub proof fn law_the_interface_stands_alone(cli: Cli)
    ensures
        tui_complaint(cli) is None <==> cli.command is None && cli.question@.len() == 0 && cli.events
            is None && cli.db is None && !cli.yolo && !cli.continue_session,
{
}

/// What is printed after a run names the run and its ledger, and the command that shows it again, with
/// the path so quoted that a shell reads it back.
pub proof fn law_hints_lead_to_the_run(run_id: Seq<char>, path: Seq<char>)
    ensures
        replay_hint(run_id, path) == "run_id: "@ + run_id + "\nledger_path: "@ + path
            + "\nreplay: plato replay --db="@ + quoted(path) + " --run "@ + run_id + "\n"@,
        shell_value(quoted(path), false) == path,
{
    law_shells_read_values_back(path);
}

} // verus!

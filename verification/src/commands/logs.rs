//! The `logs` command.

use vstd::prelude::*;
use vstd::string::*;
use crate::logs::{LogContent, LogEntry, LogSearchResult};

verus! {

/// The arguments of the `logs` command.
#[derive(Debug)]
pub struct LogsArgs {
    pub command: LogsCommand,
}

/// What the `logs` command is asked to do.
#[derive(Debug)]
pub enum LogsCommand {
    /// List the log files that the project keeps at hand.
    List { project_id: String },
    /// Show the end of a log file, or follow it.
    Show { project_id: String, path: String, tail: u32, follow: bool },
    /// Empty a log file.
    Clear { project_id: String, path: String },
    /// Search a log file.
    Search {
        project_id: String,
        path: String,
        pattern: String,
        ignore_case: bool,
        lines: Option<u32>,
        context: Option<u32>,
    },
}

/// What the `logs` command reports.
#[derive(Debug)]
pub struct LogsOutput {
    pub command: String,
    pub project_id: String,
    pub entries: Option<Vec<LogEntry>>,
    pub log: Option<LogContent>,
    pub cleared_path: Option<String>,
    pub search_result: Option<LogSearchResult>,
}

/// The command needs the terminal: it follows a log file.
pub open spec fn follows(args: LogsArgs) -> bool {
    args.command matches LogsCommand::Show { follow, .. } && follow
}

/// Whether the command needs the terminal.
pub fn is_interactive(args: &LogsArgs) -> (r: bool)
    ensures
        r == follows(*args),
{
    match &args.command {
        LogsCommand::Show { follow, .. } => *follow,
        _ => false,
    }
}

/// The report of a listing.
pub fn list(project_id: &str, entries: Vec<LogEntry>) -> (r: (LogsOutput, i32))
    ensures
        r.0.command@ == "logs.list"@,
        r.0.project_id@ == project_id@,
        r.0.entries == Some(entries),
        r.0.log is None,
        r.0.cleared_path is None,
        r.0.search_result is None,
        r.1 == 0,
{
    (
        LogsOutput {
            command: String::from_str("logs.list"),
            project_id: String::from_str(project_id),
            entries: Some(entries),
            log: None,
            cleared_path: None,
            search_result: None,
        },
        0,
    )
}

/// The report of a log file that was followed; the exit code is that of the session.
pub fn followed(project_id: &str, code: i32) -> (r: (LogsOutput, i32))
    ensures
        r.0.command@ == "logs.follow"@,
        r.0.project_id@ == project_id@,
        r.0.entries is None,
        r.0.log is None,
        r.0.cleared_path is None,
        r.0.search_result is None,
        r.1 == code,
{
    (
        LogsOutput {
            command: String::from_str("logs.follow"),
            project_id: String::from_str(project_id),
            entries: None,
            log: None,
            cleared_path: None,
            search_result: None,
        },
        code,
    )
}

/// The report of a log file that was shown.
pub fn show(project_id: &str, content: LogContent) -> (r: (LogsOutput, i32))
    ensures
        r.0.command@ == "logs.show"@,
        r.0.project_id@ == project_id@,
        r.0.entries is None,
        r.0.log == Some(content),
        r.0.cleared_path is None,
        r.0.search_result is None,
        r.1 == 0,
{
    (
        LogsOutput {
            command: String::from_str("logs.show"),
            project_id: String::from_str(project_id),
            entries: None,
            log: Some(content),
            cleared_path: None,
            search_result: None,
        },
        0,
    )
}

/// The report of a log file that was emptied.
pub fn clear(project_id: &str, cleared_path: String) -> (r: (LogsOutput, i32))
    ensures
        r.0.command@ == "logs.clear"@,
        r.0.project_id@ == project_id@,
        r.0.entries is None,
        r.0.log is None,
        r.0.cleared_path == Some(cleared_path),
        r.0.search_result is None,
        r.1 == 0,
{
    (
        LogsOutput {
            command: String::from_str("logs.clear"),
            project_id: String::from_str(project_id),
            entries: None,
            log: None,
            cleared_path: Some(cleared_path),
            search_result: None,
        },
        0,
    )
}

/// The report of a search.
pub fn search(project_id: &str, result: LogSearchResult) -> (r: (LogsOutput, i32))
    ensures
        r.0.command@ == "logs.search"@,
        r.0.project_id@ == project_id@,
        r.0.entries is None,
        r.0.log is None,
        r.0.cleared_path is None,
        r.0.search_result == Some(result),
        r.1 == 0,
{
    (
        LogsOutput {
            command: String::from_str("logs.search"),
            project_id: String::from_str(project_id),
            entries: None,
            log: None,
            cleared_path: None,
            search_result: Some(result),
        },
        0,
    )
}

} // verus!

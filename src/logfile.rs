//! Finding the active log file: the path named by the marker file, or else
//! the most recently modified log file of the logs directory.

use vstd::prelude::*;
use crate::text::{has_affixes, trim, trimmed};

verus! {

/// The path held by the marker file: its text without surrounding white
/// space.
pub fn marker_target(content: &str) -> (r: String)
    ensures
        r@ == trimmed(content@),
{
    trim(content)
}

/// A file of the logs directory: its name and, when known, its modification
/// time (milliseconds since the Unix epoch).
pub struct LogFileInfo {
    pub name: String,
    pub modified: Option<u64>,
}

/// Log files are named `daebot-<anything>.log`.
pub open spec fn is_log_name(name: Seq<char>) -> bool {
    name.len() >= 11 && name.subrange(0, 7) == "daebot-"@ && name.subrange(
        name.len() - 4,
        name.len() as int,
    ) == ".log"@
}

/// Files with a known time rank above those without; later ranks higher.
pub open spec fn recency(m: Option<u64>) -> int {
    match m {
        Some(t) => t + 1,
        None => 0,
    }
}

/// Whether a file name follows the log naming convention.
pub fn is_log_file_name(name: &str) -> (r: bool)
    ensures
        r == is_log_name(name@),
{
    proof {
        reveal_strlit("daebot-");
        reveal_strlit(".log");
    }
    has_affixes(name, "daebot-", ".log")
}

/// The most recently modified log file: the index of a file with a log name
/// whose recency no other such file exceeds, the first of them on a tie;
/// `None` when no file has a log name.
pub fn most_recent_log(files: &Vec<LogFileInfo>) -> (r: Option<usize>)
    ensures
        match r {
            Some(i) => {
                &&& i < files@.len()
                &&& is_log_name(files@[i as int].name@)
                &&& forall|j: int|
                    0 <= j < files@.len() && is_log_name(#[trigger] files@[j].name@) ==> recency(
                        files@[j].modified,
                    ) <= recency(files@[i as int].modified)
                &&& forall|j: int|
                    0 <= j < i && is_log_name(#[trigger] files@[j].name@) ==> recency(
                        files@[j].modified,
                    ) < recency(files@[i as int].modified)
            },
            None => forall|j: int| 0 <= j < files@.len() ==> !is_log_name(#[trigger] files@[j].name@),
        },
{
    let mut best: Option<usize> = None;
    let mut i: usize = 0;
    while i < files.len()
        invariant
            i <= files@.len(),
            match best {
                Some(b) => {
                    &&& b < i
                    &&& is_log_name(files@[b as int].name@)
                    &&& forall|j: int|
                        0 <= j < i && is_log_name(#[trigger] files@[j].name@) ==> recency(
                            files@[j].modified,
                        ) <= recency(files@[b as int].modified)
                    &&& forall|j: int|
                        0 <= j < b && is_log_name(#[trigger] files@[j].name@) ==> recency(
                            files@[j].modified,
                        ) < recency(files@[b as int].modified)
                },
                None => forall|j: int| 0 <= j < i ==> !is_log_name(#[trigger] files@[j].name@),
            },
        decreases files@.len() - i,
    {
        if is_log_file_name(files[i].name.as_str()) {
            match best {
                None => {
                    best = Some(i);
                },
                Some(b) => {
                    let later = match (files[i].modified, files[b].modified) {
                        (Some(t), Some(u)) => t > u,
                        (Some(_), None) => true,
                        (None, _) => false,
                    };
                    if later {
                        best = Some(i);
                    }
                },
            }
        }
        i = i + 1;
    }
    best
}

/// Where the active log file is.
#[derive(Debug)]
pub enum ActiveLog {
    /// The path named by the marker file.
    Marked(String),
    /// A file of the logs directory, by name.
    InLogsDir(String),
}

/// Why no log file could be chosen.
#[derive(Clone, Copy, Debug, PartialEq, Eq, Structural)]
pub enum LogsError {
    NoLogsFound,
}

/// Chooses the active log file: the marker's path when the marker could be
/// read, else the most recent file of the logs directory with a log name.
pub fn choose_log_file(marker: Option<String>, files: &Vec<LogFileInfo>) -> (r: Result<
    ActiveLog,
    LogsError,
>)
    ensures
        match marker {
            Some(m) => match r {
                Ok(ActiveLog::Marked(p)) => p@ == trimmed(m@),
                _ => false,
            },
            None => match r {
                Ok(ActiveLog::InLogsDir(name)) => exists|i: int|
                    0 <= i < files@.len() && is_log_name(files@[i].name@) && name@
                        == files@[i].name@ && forall|j: int|
                        0 <= j < files@.len() && is_log_name(#[trigger] files@[j].name@)
                            ==> recency(files@[j].modified) <= recency(files@[i].modified),
                Ok(ActiveLog::Marked(_)) => false,
                Err(LogsError::NoLogsFound) => forall|j: int|
                    0 <= j < files@.len() ==> !is_log_name(#[trigger] files@[j].name@),
            },
        },
{
    match marker {
        Some(m) => Ok(ActiveLog::Marked(marker_target(m.as_str()))),
        None => match most_recent_log(files) {
            Some(i) => Ok(ActiveLog::InLogsDir(files[i].name.clone())),
            None => Err(LogsError::NoLogsFound),
        },
    }
}

} // verus!

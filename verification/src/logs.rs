//! The helper's log files: how they are named, and which of them are old
//! enough to be removed.

use crate::paths::{log_dir, log_dir_of, BaseDirs};
use crate::platform::{ends_with, join_path, joined, texts, Platform};
use vstd::prelude::*;
use vstd::string::StringExecFns;

verus! {

/// The seconds of a day.
pub const SECONDS_PER_DAY: u64 = 86400;

/// The name of the log file of the day with the given date stamp.
pub open spec fn log_file_name_of(date: Seq<char>) -> Seq<char> {
    "edge-copilot-helper-"@ + date + ".log"@
}

/// Whether a file name has the extension `log`: it ends with `.log`, and that
/// is not the whole name.
pub open spec fn is_log_name(name: Seq<char>) -> bool {
    name.len() > 4 && ".log"@.is_suffix_of(name)
}

/// A file of the log directory, as the file system showed it.
#[derive(Debug, PartialEq)]
pub struct LogFile {
    /// The file's path.
    pub path: String,
    /// The file's name.
    pub name: String,
    /// When the file was last modified, in seconds since the epoch; `None`
    /// where the file system does not say.
    pub modified: Option<u64>,
}

/// Whether a file is a log file that was last modified more than
/// `retention_days` days before `now`.
pub open spec fn is_stale(file: LogFile, now: u64, retention_days: u32) -> bool {
    &&& is_log_name(file.name@)
    &&& file.modified matches Some(modified)
    &&& modified < now - retention_days * SECONDS_PER_DAY
}

/// The paths of the stale files among `files`, in their order.
pub open spec fn stale_paths(files: Seq<LogFile>, now: u64, retention_days: u32) -> Seq<Seq<char>>
    decreases files.len(),
{
    if files.len() == 0 {
        Seq::empty()
    } else {
        let before = stale_paths(files.drop_last(), now, retention_days);
        if is_stale(files.last(), now, retention_days) {
            before.push(files.last().path@)
        } else {
            before
        }
    }
}

/// The name of the log file of the day with the given date stamp.
pub fn log_file_name(date: &str) -> (name: String)
    ensures
        name@ == log_file_name_of(date@),
{
    let mut name = "edge-copilot-helper-".to_owned();
    name.append(date);
    name.append(".log");
    name
}

/// The path of the log file of the day with the given date stamp: in the log
/// directory, named after the date.
pub fn current_log_file(platform: Platform, dirs: &BaseDirs, date: &str) -> (path: String)
    ensures
        path@ == joined(platform, log_dir_of(platform, *dirs), log_file_name_of(date@)),
{
    let name = log_file_name(date);
    let dir = log_dir(platform, dirs);
    join_path(platform, dir.as_str(), name.as_str())
}

/// Whether a file of this name is a log file.
pub fn is_log_file(name: &str) -> (yes: bool)
    ensures
        yes == is_log_name(name@),
{
    name.unicode_len() > 4 && ends_with(name, ".log")
}

/// The log files to remove at the time `now`, in seconds since the epoch:
/// those last modified more than `retention_days` days ago.
pub fn cleanup_old_logs(files: &Vec<LogFile>, now: u64, retention_days: u32) -> (stale: Vec<String>)
    ensures
        texts(stale@) == stale_paths(files@, now, retention_days),
{
    let span: u64 = (retention_days as u64) * SECONDS_PER_DAY;
    let cutoff = now.checked_sub(span);
    let mut stale: Vec<String> = Vec::new();
    let mut i: usize = 0;
    while i < files.len()
        invariant
            i <= files.len(),
            span == retention_days * SECONDS_PER_DAY,
            cutoff == (if now >= span {
                Some((now - span) as u64)
            } else {
                None
            }),
            texts(stale@) == stale_paths(files@.take(i as int), now, retention_days),
        decreases files.len() - i,
    {
        let file = &files[i];
        let ghost before = texts(stale@);
        proof {
            assert(files@.take(i + 1).drop_last() =~= files@.take(i as int));
            assert(files@.take(i + 1).last() == files@[i as int]);
        }
        let outdated = match (file.modified, cutoff) {
            (Some(modified), Some(limit)) => modified < limit,
            _ => false,
        };
        if outdated && is_log_file(file.name.as_str()) {
            stale.push(file.path.clone());
            assert(texts(stale@) =~= before.push(file.path@));
        }
        i += 1;
    }
    assert(files@.take(files@.len() as int) =~= files@);
    stale
}

} // verus!

//! What is done with a message: whether it is shown, whether it is saved,
//! and whether the run ends on it.
use vstd::prelude::*;
use crate::echo::{echo, line_text, Level};
use crate::options::{ErrorMode, Opts};

verus! {

/// What the caller does with one message.
#[derive(Debug)]
pub struct LogEntry {
    /// The line to add to the log file, if there is one to add.
    pub save: Option<String>,
    /// The line to show on the error stream, if there is one to show.
    pub echo: Option<String>,
    /// Whether the run ends here.
    pub abort: bool,
}

/// Whether messages are shown at all: they are, unless errors are ignored.
pub open spec fn shown(on_error: ErrorMode) -> bool {
    on_error != ErrorMode::Ignore
}

/// Whether the run ends on a message of this level: it does on an error
/// when errors abort.
pub open spec fn fatal(on_error: ErrorMode, level: Level) -> bool {
    on_error == ErrorMode::Abort && level == Level::Error
}

/// Whether `entry` is what is done with this message under these settings.
pub open spec fn entry_for(
    entry: LogEntry,
    on_error: ErrorMode,
    log_file: bool,
    level: Level,
    msg: Seq<char>,
    stamp: Seq<char>,
    full_stamp: Seq<char>,
) -> bool {
    &&& entry.save is Some == log_file
    &&& entry.save matches Some(text) ==> text@ == line_text(full_stamp, level, msg)
    &&& entry.echo is Some == shown(on_error)
    &&& entry.echo matches Some(text) ==> text@ == line_text(stamp, level, msg)
    &&& entry.abort == fatal(on_error, level)
}

/// Decides what is done with a message.  The time of the event is given
/// twice: `stamp` is the time of day, for the error stream, and
/// `full_stamp` the date and the time with the time zone, for the log file.
/// The line is saved when a log file is kept, shown unless errors are
/// ignored, and the run ends on an error when errors abort.
pub fn log(
    opts: &Opts,
    log_file: bool,
    level: Level,
    msg: &str,
    stamp: &str,
    full_stamp: &str,
) -> (entry: LogEntry)
    ensures
        entry_for(entry, opts.on_error, log_file, level, msg@, stamp@, full_stamp@),
{
    let save = if log_file {
        Some(echo(full_stamp, level, msg))
    } else {
        None
    };
    let shown = if opts.on_error != ErrorMode::Ignore {
        Some(echo(stamp, level, msg))
    } else {
        None
    };
    let abort = opts.on_error == ErrorMode::Abort && level == Level::Error;
    LogEntry { save, echo: shown, abort }
}

/// [`log`] for an error.
pub fn error(opts: &Opts, log_file: bool, msg: &str, stamp: &str, full_stamp: &str) -> (entry:
    LogEntry)
    ensures
        entry_for(entry, opts.on_error, log_file, Level::Error, msg@, stamp@, full_stamp@),
        entry.abort == (opts.on_error == ErrorMode::Abort),
{
    log(opts, log_file, Level::Error, msg, stamp, full_stamp)
}

/// [`log`] for a change.
pub fn change(opts: &Opts, log_file: bool, msg: &str, stamp: &str, full_stamp: &str) -> (entry:
    LogEntry)
    ensures
        entry_for(entry, opts.on_error, log_file, Level::Change, msg@, stamp@, full_stamp@),
        !entry.abort,
{
    log(opts, log_file, Level::Change, msg, stamp, full_stamp)
}

/// [`log`] for a file.
pub fn file(opts: &Opts, log_file: bool, msg: &str, stamp: &str, full_stamp: &str) -> (entry:
    LogEntry)
    ensures
        entry_for(entry, opts.on_error, log_file, Level::File, msg@, stamp@, full_stamp@),
        !entry.abort,
{
    log(opts, log_file, Level::File, msg, stamp, full_stamp)
}

} // verus!

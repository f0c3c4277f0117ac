//! Events of a run and the text of their log lines.
use vstd::prelude::*;
use vstd::string::*;
use crate::err::{detail, heading, Error};
use crate::file::{lossy_of, lossy_text};
use crate::probe::MetadataRecord;

verus! {

/// The level of a log line.
#[derive(Clone, Copy, Debug, PartialEq, Eq, PartialOrd, Structural)]
pub enum Level {
    Error,
    Change,
    File,
}

/// The level of an event.
#[derive(Clone, Copy, Debug, PartialEq, Eq, Structural)]
pub enum XLevel {
    Error,
    Change,
    Skip,
    Read,
}

/// What can happen to a tree node during a run.
#[derive(Clone, Copy, Debug, PartialEq, Eq, Hash, Structural)]
pub enum Event {
    Error,
    Change,
    Skip,
    ListDir,
    ReadFile,
    Follow,
}

/// The eight basic colours of a terminal.
#[derive(Clone, Copy, Debug, PartialEq, Eq, Structural)]
pub enum Hue {
    Black,
    Blue,
    Green,
    Red,
    Cyan,
    Magenta,
    Yellow,
    White,
}

/// How a piece of a log line is coloured: the foreground colour, and
/// whether it is the bright form of it.
#[derive(Clone, Copy, Debug, PartialEq, Eq, Structural)]
pub struct Tint {
    pub fg: Hue,
    pub intense: bool,
}

/// A tint with the given foreground.
pub fn spec(color: Hue, intense: bool) -> (tint: Tint)
    ensures
        tint == (Tint { fg: color, intense }),
{
    Tint { fg: color, intense }
}

/// The bright tint of a colour.
pub fn fg_spec(color: Hue) -> (tint: Tint)
    ensures
        tint == (Tint { fg: color, intense: true }),
{
    spec(color, true)
}

/// The tint of the time stamp of a line: bright blue.
pub fn time_spec() -> (tint: Tint)
    ensures
        tint == (Tint { fg: Hue::Blue, intense: true }),
{
    fg_spec(Hue::Blue)
}

/// The tint of the level of a line: bright red for errors, bright yellow
/// for changes, bright cyan for files.
pub fn level_spec(level: Level) -> (tint: Tint)
    ensures
        tint.intense,
        tint.fg == match level {
            Level::Error => Hue::Red,
            Level::Change => Hue::Yellow,
            Level::File => Hue::Cyan,
        },
{
    match level {
        Level::Error => fg_spec(Hue::Red),
        Level::Change => fg_spec(Hue::Yellow),
        Level::File => fg_spec(Hue::Cyan),
    }
}

impl Level {
    /// The word that stands for the level in a line.
    pub open spec fn word(self) -> Seq<char> {
        match self {
            Level::Error => "Error"@,
            Level::Change => "Change"@,
            Level::File => "File"@,
        }
    }

    /// The word that stands for the level in a line.
    pub fn name(&self) -> (word: &'static str)
        ensures
            word@ == self.word(),
    {
        match self {
            Level::Error => "Error",
            Level::Change => "Change",
            Level::File => "File",
        }
    }
}

impl XLevel {
    /// The level of the line that reports an event of this level: errors
    /// and changes keep theirs, everything else is reported with the files.
    pub fn line_level(&self) -> (level: Level)
        ensures
            level == match *self {
                XLevel::Error => Level::Error,
                XLevel::Change => Level::Change,
                XLevel::Skip => Level::File,
                XLevel::Read => Level::File,
            },
    {
        match self {
            XLevel::Error => Level::Error,
            XLevel::Change => Level::Change,
            XLevel::Skip => Level::File,
            XLevel::Read => Level::File,
        }
    }
}

impl Event {
    /// The word that marks the event.  A change is "done" in a run that
    /// changes files and "found" in one that only scans.
    pub open spec fn mark(self, scan_only: bool) -> Seq<char> {
        match self {
            Event::Error => "error"@,
            Event::Change => if scan_only {
                "found"@
            } else {
                "done"@
            },
            Event::Skip => "skip"@,
            Event::ListDir => "dir"@,
            Event::ReadFile => "file"@,
            Event::Follow => "link"@,
        }
    }

    /// The level of the event.
    pub fn level(&self) -> (level: XLevel)
        ensures
            level == match *self {
                Event::Error => XLevel::Error,
                Event::Change => XLevel::Change,
                Event::Skip => XLevel::Skip,
                Event::ListDir => XLevel::Read,
                Event::ReadFile => XLevel::Read,
                Event::Follow => XLevel::Read,
            },
    {
        match self {
            Event::Error => XLevel::Error,
            Event::Change => XLevel::Change,
            Event::Skip => XLevel::Skip,
            _ => XLevel::Read,
        }
    }

    /// The word that marks the event in a run that only scans, or in one
    /// that does not.
    pub fn marker(&self, scan_only: bool) -> (word: &'static str)
        ensures
            word@ == self.mark(scan_only),
    {
        match self {
            Event::Error => "error",
            Event::Change => {
                if scan_only {
                    "found"
                } else {
                    "done"
                }
            },
            Event::Skip => "skip",
            Event::ListDir => "dir",
            Event::ReadFile => "file",
            Event::Follow => "link",
        }
    }

    /// The tint of the marker: bright red for an error, bright yellow for a
    /// change, plain cyan for a skip, bright green for a directory or a
    /// file, bright cyan for a link.
    pub fn marker_color(&self) -> (tint: Tint)
        ensures
            tint == match *self {
                Event::Error => Tint { fg: Hue::Red, intense: true },
                Event::Change => Tint { fg: Hue::Yellow, intense: true },
                Event::Skip => Tint { fg: Hue::Cyan, intense: false },
                Event::ListDir => Tint { fg: Hue::Green, intense: true },
                Event::ReadFile => Tint { fg: Hue::Green, intense: true },
                Event::Follow => Tint { fg: Hue::Cyan, intense: true },
            },
    {
        match self {
            Event::Error => spec(Hue::Red, true),
            Event::Change => spec(Hue::Yellow, true),
            Event::Skip => spec(Hue::Cyan, false),
            Event::ListDir | Event::ReadFile => spec(Hue::Green, true),
            Event::Follow => spec(Hue::Cyan, true),
        }
    }

    /// The tint of the message: bright white for an error or a change,
    /// plain white for everything else.
    pub fn message_color(&self) -> (tint: Tint)
        ensures
            tint.fg == Hue::White,
            tint.intense == (*self == Event::Error || *self == Event::Change),
    {
        match self {
            Event::Error | Event::Change => spec(Hue::White, true),
            _ => spec(Hue::White, false),
        }
    }
}

/// Why a tree node was passed over.
#[derive(Clone, Copy, Debug, PartialEq, Eq, Structural)]
pub enum SkipReason {
    /// The path is one of the excluded paths or lies below one.
    Exclude,
    /// The file is smaller than the threshold.
    SmallSize,
    /// The file lies outside the primary file system.
    ExternalFS,
    /// The node is a symbolic link and links are ignored.
    Symlink,
    /// The node is a socket, a device or a pipe.
    Special,
    /// The directory was already entered during this walk.
    Visited,
}

/// The mathematical value of a [`PathInfo`].
pub struct PathInfoView {
    pub path: Seq<u8>,
    pub metadata: MetadataRecord,
}

/// A path, as the bytes the operating system knows it by, with the metadata
/// that was read when the path was first observed.
#[derive(Debug)]
pub struct PathInfo {
    pub path: Vec<u8>,
    pub metadata: MetadataRecord,
}

impl View for PathInfo {
    type V = PathInfoView;

    open spec fn view(&self) -> PathInfoView {
        PathInfoView { path: self.path@, metadata: self.metadata }
    }
}

impl PathInfo {
    pub fn new(path: Vec<u8>, metadata: MetadataRecord) -> (info: PathInfo)
        ensures
            info@.path == path@,
            info@.metadata == metadata,
    {
        PathInfo { path, metadata }
    }

    /// A second copy of the same path and record.
    pub fn duplicate(&self) -> (copy: PathInfo)
        ensures
            copy@ == self@,
    {
        PathInfo { path: self.path.clone(), metadata: self.metadata }
    }
}

/// The text of a log line: the time stamp in brackets, the level in
/// brackets, a colon, and the message.
pub open spec fn line_text(stamp: Seq<char>, level: Level, msg: Seq<char>) -> Seq<char> {
    "["@ + stamp + "] ["@ + level.word() + "]: "@ + msg
}

/// Writes the log line for a message.  `stamp` is the time of the event as
/// the caller read it from the clock.
pub fn echo(stamp: &str, level: Level, msg: &str) -> (text: String)
    ensures
        text@ == line_text(stamp@, level, msg@),
{
    let mut text = String::new();
    text.append("[");
    text.append(stamp);
    text.append("] [");
    text.append(level.name());
    text.append("]: ");
    text.append(msg);
    assert(text@ =~= line_text(stamp@, level, msg@));
    text
}

/// The message for an error, with the path at which it arose where one is
/// known.
pub open spec fn error_text(error: crate::err::ErrorView, path: Option<PathInfoView>) -> Seq<char> {
    let what = heading(error) + detail(error);
    match path {
        Some(info) => what + " at "@ + lossy_text(info.path),
        None => what,
    }
}

/// The value of a path record that may be absent.
pub open spec fn place(path: Option<&PathInfo>) -> Option<PathInfoView> {
    match path {
        Some(info) => Some(info@),
        None => None,
    }
}

/// Writes the message for an error that arose at a path of which no more
/// than the name is known.
pub fn error_message_at(err: &Error, path: &[u8]) -> (text: String)
    ensures
        text@ == heading(err@) + detail(err@) + " at "@ + lossy_text(path@),
{
    let mut text = err.message();
    text.append(" at ");
    let shown = lossy_of(path);
    text.append(shown.as_str());
    text
}

/// Writes the message for an error.
pub fn error_message(err: &Error, path: Option<&PathInfo>) -> (text: String)
    ensures
        text@ == error_text(err@, place(path)),
{
    match path {
        Some(info) => error_message_at(err, info.path.as_slice()),
        None => err.message(),
    }
}

/// Writes the log line for an error.
pub fn error(stamp: &str, err: &Error, path: Option<&PathInfo>) -> (text: String)
    ensures
        text@ == line_text(stamp@, Level::Error, error_text(err@, place(path))),
{
    let message = error_message(err, path);
    echo(stamp, Level::Error, message.as_str())
}

/// The word for a reason to skip.
pub open spec fn reason_word(reason: SkipReason) -> Seq<char> {
    match reason {
        SkipReason::Exclude => "exclude"@,
        SkipReason::SmallSize => "small"@,
        SkipReason::ExternalFS => "external"@,
        SkipReason::Symlink => "symlink"@,
        SkipReason::Special => "special"@,
        SkipReason::Visited => "visited"@,
    }
}

/// The message for an event at a path: the marker, then the path.
pub open spec fn event_text(marker: Seq<char>, path: PathInfoView) -> Seq<char> {
    marker + " "@ + lossy_text(path.path)
}

/// The message for an event that leads from one path to another: the
/// marker, the path, and the target after the word "to".
pub open spec fn pair_text(marker: Seq<char>, path: PathInfoView, target: PathInfoView) -> Seq<
    char,
> {
    event_text(marker, path) + " to "@ + lossy_text(target.path)
}

fn event_message(marker: &str, path: &PathInfo) -> (text: String)
    ensures
        text@ == event_text(marker@, path@),
{
    let mut text = String::new();
    text.append(marker);
    text.append(" ");
    let shown = lossy_of(path.path.as_slice());
    text.append(shown.as_str());
    assert(text@ =~= event_text(marker@, path@));
    text
}

fn pair_message(marker: &str, path: &PathInfo, target: &PathInfo) -> (text: String)
    ensures
        text@ == pair_text(marker@, path@, target@),
{
    let mut text = event_message(marker, path);
    text.append(" to ");
    let shown = lossy_of(target.path.as_slice());
    text.append(shown.as_str());
    text
}

/// The message that `path` was replaced by a link to `target`.
pub fn done(path: &PathInfo, target: &PathInfo) -> (text: String)
    ensures
        text@ == pair_text(Event::Change.mark(false), path@, target@),
{
    pair_message(Event::Change.marker(false), path, target)
}

/// The message that `path` was found to be a duplicate of `target`.
pub fn found(path: &PathInfo, target: &PathInfo) -> (text: String)
    ensures
        text@ == pair_text(Event::Change.mark(true), path@, target@),
{
    pair_message(Event::Change.marker(true), path, target)
}

/// The message that the link `path` is followed to `target`.
pub fn follow(path: &PathInfo, target: &PathInfo) -> (text: String)
    ensures
        text@ == pair_text(Event::Follow.mark(false), path@, target@),
{
    pair_message(Event::Follow.marker(false), path, target)
}

/// The message that the directory `path` is entered.
pub fn enter(path: &PathInfo) -> (text: String)
    ensures
        text@ == event_text(Event::ListDir.mark(false), path@),
{
    event_message(Event::ListDir.marker(false), path)
}

/// The message that the file `path` was examined.
pub fn checked(path: &PathInfo) -> (text: String)
    ensures
        text@ == event_text(Event::ReadFile.mark(false), path@),
{
    event_message(Event::ReadFile.marker(false), path)
}

/// The message that `path` is passed over: the marker, the reason, the
/// path, and where the reason involves another path, that path after the
/// word "to".
pub fn skip(reason: SkipReason, path: &PathInfo, target: Option<&PathInfo>) -> (text: String)
    ensures
        text@ == match target {
            Some(other) => pair_text(
                Event::Skip.mark(false) + " "@ + reason_word(reason),
                path@,
                other@,
            ),
            None => event_text(Event::Skip.mark(false) + " "@ + reason_word(reason), path@),
        },
{
    let mut marker = String::new();
    marker.append(Event::Skip.marker(false));
    marker.append(" ");
    marker.append(
        match reason {
            SkipReason::Exclude => "exclude",
            SkipReason::SmallSize => "small",
            SkipReason::ExternalFS => "external",
            SkipReason::Symlink => "symlink",
            SkipReason::Special => "special",
            SkipReason::Visited => "visited",
        },
    );
    assert(marker@ =~= Event::Skip.mark(false) + " "@ + reason_word(reason));
    match target {
        Some(other) => pair_message(marker.as_str(), path, other),
        None => event_message(marker.as_str(), path),
    }
}

} // verus!

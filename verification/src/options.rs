//! The policies of a run.
use vstd::prelude::*;
use vstd::string::*;

verus! {

/// How the walker treats a symbolic link.
#[derive(Clone, Copy, Debug, PartialEq, Eq, Structural)]
pub enum SymlinkMode {
    Ignore,
    Follow,
    Process,
}

/// What happens when an error event is raised.
#[derive(Clone, Copy, Debug, PartialEq, Eq, Structural)]
pub enum ErrorMode {
    Ignore,
    Warning,
    Abort,
}

/// How files outside the primary file system are treated.
#[derive(Clone, Copy, Debug, PartialEq, Eq, Structural)]
pub enum ExternalFSMode {
    Ignore,
    Group,
    Error,
    Symlink,
}

/// Why the settings of a run are refused.
#[derive(Clone, Copy, Debug, PartialEq, Eq, Structural)]
pub enum ConfigError {
    /// Links are to be processed as files, which is not offered.
    UnsupportedSymlinkMode,
    /// A size is not a number of bytes with an optional unit.
    InvalidSize,
    /// The chunk size is zero.
    ZeroBuffer,
    /// The policy for other file systems needs a primary file system, and
    /// none is named.
    MissingPrimaryFs,
    /// The path that names the primary file system could not be examined.
    InvalidPrimaryFs,
    /// No root is given.
    NoRoots,
}

/// What `byte_unit` reads from a text such as `4KiB`: the number of bytes,
/// or nothing where the text is not a size.
pub uninterp spec fn parsed_size(text: Seq<char>) -> Option<u128>;

/// The most decimal digits that a size text may hold.
pub const MAX_DIGITS: usize = 17;

/// Whether a byte is an ASCII decimal digit.
pub open spec fn is_digit(byte: u8) -> bool {
    48 <= byte <= 57
}

/// The number of decimal digits among the bytes of a text.
pub open spec fn digits_in(bytes: Seq<u8>) -> nat
    decreases bytes.len(),
{
    if bytes.len() == 0 {
        0
    } else if is_digit(bytes.last()) {
        digits_in(bytes.drop_last()) + 1
    } else {
        digits_in(bytes.drop_last())
    }
}

/// `byte_unit::Byte::from_str` followed by `Byte::get_bytes`: the number of
/// bytes that a text such as `1B`, `4KiB` or `1.5 MB` stands for.  The
/// contract names the result and claims only that it depends on the text
/// alone.  The call adds the digits up without a bound and multiplies by
/// the unit without a test, so a long enough number overflows: hence the
/// precondition.  With seventeen digits at most the number stays below ten
/// to the seventeenth, and its product with the largest unit, two to the
/// seventieth, is within range.
#[verifier::external_body]
fn byte_size(src: &str) -> (size: Option<u128>)
    requires
        digits_in(src.spec_bytes()) <= MAX_DIGITS,
    ensures
        size == parsed_size(src@),
{
    match byte_unit::Byte::from_str(src) {
        Ok(bytes) => Some(bytes.get_bytes()),
        Err(_) => None,
    }
}

/// Counts the decimal digits among the bytes of a text.
pub fn count_digits(bytes: &[u8]) -> (count: usize)
    ensures
        count == digits_in(bytes@),
{
    let mut count: usize = 0;
    let mut k: usize = 0;
    while k < bytes.len()
        invariant
            k <= bytes.len(),
            count <= k,
            count == digits_in(bytes@.subrange(0, k as int)),
        decreases bytes.len() - k,
    {
        assert(bytes@.subrange(0, k + 1).drop_last() =~= bytes@.subrange(0, k as int));
        if bytes[k] >= 48 && bytes[k] <= 57 {
            count += 1;
        }
        k += 1;
    }
    assert(bytes@.subrange(0, k as int) =~= bytes@);
    count
}

/// The size setting that a parsed text gives: what does not parse is
/// refused, and so is a number of bytes that is wider than a size on this
/// machine.
pub open spec fn size_setting(parsed: Option<u128>) -> Result<usize, ConfigError> {
    match parsed {
        None => Err(ConfigError::InvalidSize),
        Some(bytes) => if bytes > usize::MAX {
            Err(ConfigError::InvalidSize)
        } else {
            Ok(bytes as usize)
        },
    }
}

/// Turns what was read from a size text into the setting.
pub fn size_from_parsed(parsed: Option<u128>) -> (size: Result<usize, ConfigError>)
    ensures
        size == size_setting(parsed),
{
    match parsed {
        None => Err(ConfigError::InvalidSize),
        Some(bytes) => if bytes > usize::MAX as u128 {
            Err(ConfigError::InvalidSize)
        } else {
            Ok(bytes as usize)
        },
    }
}

/// Reads a size such as `1B` or `4KiB`.  A text with more than seventeen
/// decimal digits is refused without being read.
pub fn parse_bytes(src: &str) -> (size: Result<usize, ConfigError>)
    ensures
        digits_in(src.spec_bytes()) > MAX_DIGITS ==> size == Err::<usize, ConfigError>(
            ConfigError::InvalidSize,
        ),
        digits_in(src.spec_bytes()) <= MAX_DIGITS ==> size == size_setting(parsed_size(src@)),
{
    if count_digits(src.as_bytes()) > MAX_DIGITS {
        Err(ConfigError::InvalidSize)
    } else {
        size_from_parsed(byte_size(src))
    }
}

/// The settings of one run.
///
/// Paths are held as the bytes the operating system knows them by.
#[derive(Debug)]
pub struct Opts {
    /// What happens when an error event is raised.
    pub on_error: ErrorMode,
    /// Detect and report duplicates, but change nothing.
    pub scan_only: bool,
    /// Show the totals at the end of the run.
    pub summary: bool,
    /// What the walker does with a symbolic link.
    pub on_symlink: SymlinkMode,
    /// Replace duplicates with symbolic links instead of hard links.
    pub use_symlinks: bool,
    /// What happens to files outside the primary file system.
    pub on_external_fs: ExternalFSMode,
    /// Any path on the primary file system.
    pub primary_fs: Option<Vec<u8>>,
    /// Files smaller than this are left alone.
    pub ignore_less: usize,
    /// The chunk size for hashing and comparing.
    pub buffer_size: usize,
    /// Paths that are skipped together with everything below them.
    pub exclude: Vec<Vec<u8>>,
    /// The roots to process.
    pub paths: Vec<Vec<u8>>,
    /// The device of the primary file system, once it is known.
    pub primary_fs_dev: Option<u64>,
}

/// The first reason, if any, to refuse the settings, given the device that
/// was found for the primary path, if one was found.
pub open spec fn refusal(opts: Opts, probed: Option<u64>) -> Option<ConfigError> {
    if opts.on_symlink == SymlinkMode::Process {
        Some(ConfigError::UnsupportedSymlinkMode)
    } else if opts.buffer_size == 0 {
        Some(ConfigError::ZeroBuffer)
    } else if opts.on_external_fs != ExternalFSMode::Group && opts.primary_fs is None {
        Some(ConfigError::MissingPrimaryFs)
    } else if opts.on_external_fs != ExternalFSMode::Group && probed is None {
        Some(ConfigError::InvalidPrimaryFs)
    } else if opts.paths@.len() == 0 {
        Some(ConfigError::NoRoots)
    } else {
        None
    }
}

impl Opts {
    /// The path whose device is to be read before [`Opts::calculate`]: the
    /// primary path, unless files are grouped by file system, for which no
    /// primary file system is needed.
    pub fn primary_fs_wanted(&self) -> (wanted: Option<&Vec<u8>>)
        ensures
            self.on_external_fs == ExternalFSMode::Group ==> wanted is None,
            self.on_external_fs != ExternalFSMode::Group ==> match self.primary_fs {
                Some(path) => wanted == Some(&path),
                None => wanted is None,
            },
    {
        match self.on_external_fs {
            ExternalFSMode::Group => None,
            _ => self.primary_fs.as_ref(),
        }
    }

    /// Completes the settings that were read from the command line with
    /// the device of the primary file system, and checks them.
    ///
    /// `probed` is the device that was found for the primary path, or
    /// `None` where the path could not be examined or was not looked at.
    /// Settings that pass come back with the primary device set: to
    /// `probed`, or to nothing when files are grouped by file system.
    pub fn calculate(self, probed: Option<u64>) -> (checked: Result<Opts, ConfigError>)
        ensures
            match refusal(self, probed) {
                Some(reason) => checked == Err::<Opts, ConfigError>(reason),
                None => checked == Ok::<Opts, ConfigError>(
                    Opts {
                        primary_fs_dev: if self.on_external_fs == ExternalFSMode::Group {
                            None
                        } else {
                            probed
                        },
                        ..self
                    },
                ),
            },
    {
        if self.on_symlink == SymlinkMode::Process {
            return Err(ConfigError::UnsupportedSymlinkMode);
        }
        if self.buffer_size == 0 {
            return Err(ConfigError::ZeroBuffer);
        }
        let grouped = self.on_external_fs == ExternalFSMode::Group;
        if !grouped && self.primary_fs.is_none() {
            return Err(ConfigError::MissingPrimaryFs);
        }
        if !grouped && probed.is_none() {
            return Err(ConfigError::InvalidPrimaryFs);
        }
        if self.paths.len() == 0 {
            return Err(ConfigError::NoRoots);
        }
        let primary_fs_dev = if grouped {
            None
        } else {
            probed
        };
        Ok(Opts { primary_fs_dev, ..self })
    }

    /// Whether `dev` lies outside the primary file system.  Without a
    /// primary file system no device is foreign.
    pub open spec fn foreign(self, dev: u64) -> bool {
        self.primary_fs_dev is Some && self.primary_fs_dev != Some(dev)
    }

    /// Whether a file on device `dev` belongs to the primary file system, or
    /// no primary file system is set.
    pub fn check_dev(&self, dev: u64) -> (local: bool)
        ensures
            local == !self.foreign(dev),
            local == (self.primary_fs_dev is None || self.primary_fs_dev == Some(dev)),
    {
        match self.primary_fs_dev {
            None => true,
            Some(primary) => primary == dev,
        }
    }
}

} // verus!

//! The walker: what is done with each node of a tree.
//!
//! The caller reads the metadata of a path without following a link at
//! its end and hands both in.  The walker says whether the node is
//! skipped, entered, followed or handed to the linker.
use vstd::prelude::*;
use vstd::std_specs::hash::*;
use std::collections::HashSet;
use crate::echo::SkipReason;
use crate::options::{Opts, SymlinkMode};
use crate::probe::{FileKind, MetadataRecord};

verus! {

/// Whether the exclude entry `entry` covers `path`: the path is the entry
/// itself, or it lies below it, the entry being followed in the path by a
/// separator or ending in one.  An empty entry covers nothing but the empty
/// path.
pub open spec fn covers(entry: Seq<u8>, path: Seq<u8>) -> bool {
    ||| path == entry
    ||| {
        &&& 0 < entry.len() < path.len()
        &&& path.subrange(0, entry.len() as int) == entry
        &&& (path[entry.len() as int] == 47 || entry[entry.len() - 1] == 47)
    }
}

/// Whether one of the exclude entries covers `path`.
pub open spec fn excluded(excludes: Seq<Vec<u8>>, path: Seq<u8>) -> bool {
    exists|k: int| 0 <= k < excludes.len() && covers(#[trigger] excludes[k]@, path)
}

/// What lies below an excluded path is excluded too.
pub proof fn lemma_descendants_are_excluded(
    excludes: Seq<Vec<u8>>,
    path: Seq<u8>,
    rest: Seq<u8>,
)
    requires
        excluded(excludes, path),
        path.len() > 0,
    ensures
        excluded(excludes, path + seq![47u8] + rest),
{
    let child = path + seq![47u8] + rest;
    let k = choose|k: int| 0 <= k < excludes.len() && covers(#[trigger] excludes[k]@, path);
    let entry = excludes[k]@;
    assert(child.subrange(0, entry.len() as int) =~= path.subrange(0, entry.len() as int));
    if path == entry {
        assert(path.subrange(0, entry.len() as int) =~= path);
        assert(child[entry.len() as int] == 47);
    } else {
        assert(child[entry.len() as int] == path[entry.len() as int]);
    }
    assert(covers(excludes[k]@, child));
}

/// Whether `path` begins with `entry`.
fn starts_with(path: &[u8], entry: &[u8]) -> (prefixed: bool)
    ensures
        prefixed == (entry@.len() <= path@.len() && path@.subrange(0, entry@.len() as int)
            == entry@),
{
    if entry.len() > path.len() {
        return false;
    }
    let mut k: usize = 0;
    while k < entry.len()
        invariant
            k <= entry.len(),
            entry.len() <= path.len(),
            forall|j: int| 0 <= j < k ==> path@[j] == entry@[j],
        decreases entry.len() - k,
    {
        if path[k] != entry[k] {
            assert(path@.subrange(0, entry@.len() as int)[k as int] != entry@[k as int]);
            return false;
        }
        k += 1;
    }
    assert(path@.subrange(0, entry@.len() as int) =~= entry@);
    true
}

/// Decides whether one exclude entry covers `path`.
pub fn entry_covers(entry: &[u8], path: &[u8]) -> (covered: bool)
    ensures
        covered == covers(entry@, path@),
{
    if !starts_with(path, entry) {
        proof {
            if path@ == entry@ {
                assert(path@.subrange(0, entry@.len() as int) =~= entry@);
            }
        }
        return false;
    }
    if entry.len() == path.len() {
        assert(path@ =~= path@.subrange(0, entry@.len() as int));
        return true;
    }
    if entry.len() == 0 {
        return false;
    }
    path[entry.len()] == 47 || entry[entry.len() - 1] == 47
}

/// Decides whether `path` is excluded: whether it is one of the exclude
/// entries or lies below one.
pub fn is_excluded(excludes: &Vec<Vec<u8>>, path: &[u8]) -> (hit: bool)
    ensures
        hit == excluded(excludes@, path@),
{
    let mut k: usize = 0;
    while k < excludes.len()
        invariant
            k <= excludes.len(),
            forall|j: int| 0 <= j < k ==> !covers(#[trigger] excludes@[j]@, path@),
        decreases excludes.len() - k,
    {
        if entry_covers(excludes[k].as_slice(), path) {
            return true;
        }
        k += 1;
    }
    false
}

/// What is done with one node of the tree.
#[derive(Clone, Copy, Debug, PartialEq, Eq, Structural)]
pub enum WalkAction {
    /// The metadata could not be read: an error event is due and the node
    /// is left.
    Fail,
    /// The node is passed over.
    Skip(SkipReason),
    /// A directory: list it and visit every entry.
    Descend,
    /// A symbolic link: make its target canonical and visit that.
    Follow,
    /// A regular file: hand it to the linker.
    Link,
}

/// The rule of the walker.  A node whose metadata cannot be read fails.  An
/// excluded path is skipped, whatever it is.  A directory is entered unless
/// this walk has entered it before.  A symbolic link is followed or skipped
/// as the settings say; links are never taken for files.  A regular file
/// goes to the linker, and anything else is skipped.
pub open spec fn walk_action(
    opts: Opts,
    entered: Set<(u64, u64)>,
    path: Seq<u8>,
    probe: Option<MetadataRecord>,
) -> WalkAction {
    match probe {
        None => WalkAction::Fail,
        Some(record) => if excluded(opts.exclude@, path) {
            WalkAction::Skip(SkipReason::Exclude)
        } else {
            match record.kind {
                FileKind::Directory => if entered.contains(record.identity()) {
                    WalkAction::Skip(SkipReason::Visited)
                } else {
                    WalkAction::Descend
                },
                FileKind::Symlink => match opts.on_symlink {
                    SymlinkMode::Follow => WalkAction::Follow,
                    SymlinkMode::Ignore => WalkAction::Skip(SkipReason::Symlink),
                    SymlinkMode::Process => WalkAction::Skip(SkipReason::Symlink),
                },
                FileKind::Regular => WalkAction::Link,
                FileKind::Other => WalkAction::Skip(SkipReason::Special),
            }
        },
    }
}

/// The number under which a directory is remembered.
spec fn mark(identity: (u64, u64)) -> u128 {
    (identity.0 * 0x1_0000_0000_0000_0000 + identity.1) as u128
}

proof fn lemma_mark_is_one_to_one(first: (u64, u64), second: (u64, u64))
    ensures
        mark(first) == mark(second) ==> first == second,
{
}

/// The walk of one root: it remembers the directories it has entered, so
/// that no cycle of links or mounts makes it descend forever.
pub struct Walker {
    entered: HashSet<u128>,
}

impl View for Walker {
    type V = Set<(u64, u64)>;

    /// The directories that were entered, by device and inode.
    closed spec fn view(&self) -> Set<(u64, u64)> {
        Set::new(|identity: (u64, u64)| self.entered@.contains(mark(identity)))
    }
}

impl Walker {
    /// A walk that has entered nothing yet.
    pub fn new() -> (walker: Walker)
        ensures
            walker@ == Set::<(u64, u64)>::empty(),
    {
        let walker = Walker { entered: HashSet::new() };
        assert(walker@ =~= Set::<(u64, u64)>::empty());
        walker
    }

    /// Remembers a directory.  Returns whether it was new to this walk.
    fn enter(&mut self, record: &MetadataRecord) -> (fresh: bool)
        ensures
            fresh == !old(self)@.contains(record.identity()),
            final(self)@ == old(self)@.insert(record.identity()),
    {
        broadcast use group_hash_axioms;

        let key: u128 = (record.device_id as u128) * 0x1_0000_0000_0000_0000
            + record.inode as u128;
        assert(key == mark(record.identity()));
        let fresh = self.entered.insert(key);
        proof {
            assert forall|identity: (u64, u64)|
                self@.contains(identity) == old(self)@.insert(record.identity()).contains(
                    identity,
                ) by {
                lemma_mark_is_one_to_one(identity, record.identity());
            }
            assert(self@ =~= old(self)@.insert(record.identity()));
        }
        fresh
    }

    /// Whether a directory was entered during this walk.
    pub fn has_entered(&self, record: &MetadataRecord) -> (seen: bool)
        ensures
            seen == self@.contains(record.identity()),
    {
        broadcast use group_hash_axioms;

        let key: u128 = (record.device_id as u128) * 0x1_0000_0000_0000_0000
            + record.inode as u128;
        assert(key == mark(record.identity()));
        self.entered.contains(&key)
    }
}

/// Decides what is done with the node at `path`, whose metadata is `probe`,
/// or `None` where it could not be read.  A directory that is to be entered
/// is remembered by the walker.
pub fn process_path(
    walker: &mut Walker,
    opts: &Opts,
    path: &[u8],
    probe: Option<MetadataRecord>,
) -> (action: WalkAction)
    ensures
        action == walk_action(*opts, old(walker)@, path@, probe),
        final(walker)@ == if action == WalkAction::Descend {
            old(walker)@.insert(probe->0.identity())
        } else {
            old(walker)@
        },
{
    let record = match probe {
        None => { return WalkAction::Fail; },
        Some(record) => record,
    };
    if is_excluded(&opts.exclude, path) {
        return WalkAction::Skip(SkipReason::Exclude);
    }
    match record.kind {
        FileKind::Directory => {
            if walker.has_entered(&record) {
                WalkAction::Skip(SkipReason::Visited)
            } else {
                walker.enter(&record);
                assert(walker@ =~= old(walker)@.insert(record.identity()));
                WalkAction::Descend
            }
        },
        FileKind::Symlink => match opts.on_symlink {
            SymlinkMode::Follow => WalkAction::Follow,
            SymlinkMode::Ignore => WalkAction::Skip(SkipReason::Symlink),
            SymlinkMode::Process => WalkAction::Skip(SkipReason::Symlink),
        },
        FileKind::Regular => WalkAction::Link,
        FileKind::Other => WalkAction::Skip(SkipReason::Special),
    }
}

} // verus!

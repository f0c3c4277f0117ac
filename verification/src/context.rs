//! The state that one run carries from file to file.
use vstd::prelude::*;
use crate::index::{GroupingIndex, IndexModel};
use crate::options::Opts;

verus! {

/// The mathematical value of a [`DedupContext`].
pub struct ContextModel {
    pub opts: Opts,
    pub index: IndexModel,
}

/// The settings of a run together with its grouping index.
///
/// It is made once at startup and handed by reference to whatever processes
/// a file.  Only the linker changes the index, and it only ever adds to it.
pub struct DedupContext {
    opts: Opts,
    index: GroupingIndex,
}

impl View for DedupContext {
    type V = ContextModel;

    closed spec fn view(&self) -> ContextModel {
        ContextModel { opts: self.opts, index: self.index@ }
    }
}

impl DedupContext {
    /// A context with the given settings and an empty index.
    pub fn new(opts: Opts) -> (ctx: DedupContext)
        ensures
            ctx@.opts == opts,
            ctx@.index == IndexModel::empty(),
            ctx@.index.wf(),
    {
        DedupContext { opts, index: GroupingIndex::new() }
    }

    /// The settings of the run.
    pub fn opts(&self) -> (opts: &Opts)
        ensures
            *opts == self@.opts,
    {
        &self.opts
    }

    /// The index as it stands.
    pub fn index(&self) -> (index: &GroupingIndex)
        ensures
            index@ == self@.index,
    {
        &self.index
    }

    /// Files `info` in the index; see [`GroupingIndex::insert`].
    pub fn insert(&mut self, checksum: u64, info: crate::echo::PathInfo) -> (inserted: bool)
        ensures
            final(self)@.opts == old(self)@.opts,
            final(self)@.index == old(self)@.index.insert(checksum, info@),
            inserted == !old(self)@.index.holds_inode(
                info@.metadata.device_id,
                info@.metadata.size,
                checksum,
                info@.metadata.inode,
            ),
            old(self)@.index.wf() ==> final(self)@.index.wf(),
    {
        self.index.insert(checksum, info)
    }
}

} // verus!

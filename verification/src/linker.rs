//! The linker: what happens to one regular file.
//!
//! A file is admitted or passed over, hashed, looked up in the index and
//! compared with the representatives it meets there.  The first one with
//! equal content becomes its keeper; with none, the file becomes a
//! representative itself.  Hashing and comparing are done by the caller, who
//! reports each result back; every decision is taken here.
use vstd::prelude::*;
use crate::context::DedupContext;
use crate::echo::{PathInfo, PathInfoView, SkipReason};
use crate::index::{views, IndexModel};
use crate::options::{ExternalFSMode, Opts};
use crate::probe::MetadataRecord;

verus! {

/// The kind of link that takes the place of a duplicate.
#[derive(Clone, Copy, Debug, PartialEq, Eq, Structural)]
pub enum LinkKind {
    Hard,
    Symbolic,
}

/// Whether a regular file takes part in deduplication.
#[derive(Clone, Copy, Debug, PartialEq, Eq, Structural)]
pub enum Admission {
    /// The file is hashed and looked up.
    Admit,
    /// The file is passed over.
    Skip(SkipReason),
    /// The file is passed over and an error event is raised.
    Reject,
}

/// The admission rule: first the size threshold, then the policy for files
/// outside the primary file system.
pub open spec fn admission(opts: Opts, record: MetadataRecord) -> Admission {
    if record.size < opts.ignore_less {
        Admission::Skip(SkipReason::SmallSize)
    } else if opts.foreign(record.device_id) {
        match opts.on_external_fs {
            ExternalFSMode::Ignore => Admission::Skip(SkipReason::ExternalFS),
            ExternalFSMode::Error => Admission::Reject,
            ExternalFSMode::Group => Admission::Admit,
            ExternalFSMode::Symlink => Admission::Admit,
        }
    } else {
        Admission::Admit
    }
}

/// Whether a file is linked across devices: it lies outside the primary
/// file system and such files are to become symbolic links into it.
pub open spec fn crosses_devices(opts: Opts, record: MetadataRecord) -> bool {
    opts.on_external_fs == ExternalFSMode::Symlink && opts.foreign(record.device_id)
}

/// The device among whose representatives a keeper is looked for.
pub open spec fn lookup_device(opts: Opts, record: MetadataRecord) -> u64 {
    if crosses_devices(opts, record) {
        opts.primary_fs_dev->0
    } else {
        record.device_id
    }
}

/// The kind of link that replaces this file when it is a duplicate.
pub open spec fn link_kind(opts: Opts, record: MetadataRecord) -> LinkKind {
    if opts.use_symlinks || crosses_devices(opts, record) {
        LinkKind::Symbolic
    } else {
        LinkKind::Hard
    }
}

/// Decides whether a regular file with this record takes part.
pub fn check_admission(opts: &Opts, record: &MetadataRecord) -> (decision: Admission)
    ensures
        decision == admission(*opts, *record),
{
    if record.size < opts.ignore_less as u64 {
        Admission::Skip(SkipReason::SmallSize)
    } else if !opts.check_dev(record.device_id) {
        match opts.on_external_fs {
            ExternalFSMode::Ignore => Admission::Skip(SkipReason::ExternalFS),
            ExternalFSMode::Error => Admission::Reject,
            ExternalFSMode::Group => Admission::Admit,
            ExternalFSMode::Symlink => Admission::Admit,
        }
    } else {
        Admission::Admit
    }
}

/// How the linker settled one file.
#[derive(Debug)]
pub enum LinkOutcome {
    /// Not admitted.
    Skipped(SkipReason),
    /// Not admitted, and an error event is due.
    Rejected,
    /// The checksum could not be computed; the file is left alone.
    Dropped,
    /// The underlying file already has a representative.
    AlreadyLinked,
    /// A duplicate of `keeper` in a run that changes nothing.
    Found { keeper: PathInfo },
    /// A duplicate of `keeper`, to be replaced by a link of this kind.
    Replace { keeper: PathInfo, kind: LinkKind },
    /// No equal representative: the file was filed as one.
    Unique,
}

/// The mathematical value of a [`LinkOutcome`].
pub enum LinkOutcomeView {
    Skipped(SkipReason),
    Rejected,
    Dropped,
    AlreadyLinked,
    Found { keeper: PathInfoView },
    Replace { keeper: PathInfoView, kind: LinkKind },
    Unique,
}

impl View for LinkOutcome {
    type V = LinkOutcomeView;

    open spec fn view(&self) -> LinkOutcomeView {
        match *self {
            LinkOutcome::Skipped(reason) => LinkOutcomeView::Skipped(reason),
            LinkOutcome::Rejected => LinkOutcomeView::Rejected,
            LinkOutcome::Dropped => LinkOutcomeView::Dropped,
            LinkOutcome::AlreadyLinked => LinkOutcomeView::AlreadyLinked,
            LinkOutcome::Found { keeper } => LinkOutcomeView::Found { keeper: keeper@ },
            LinkOutcome::Replace { keeper, kind } => LinkOutcomeView::Replace {
                keeper: keeper@,
                kind,
            },
            LinkOutcome::Unique => LinkOutcomeView::Unique,
        }
    }
}

/// The mathematical value of a [`Hashing`].
pub struct HashingView {
    pub victim: PathInfoView,
}

/// The mathematical value of a [`Comparing`].
pub struct ComparingView {
    pub victim: PathInfoView,
    pub checksum: u64,
    pub candidates: Seq<PathInfoView>,
    pub next: int,
}

/// The mathematical value of a [`LinkStep`].
pub enum LinkStepView {
    Hash(HashingView),
    Compare(ComparingView),
    Finish(LinkOutcomeView),
}

/// The outcome for a file that equals the candidate at `state.next`.
pub open spec fn duplicate_of(opts: Opts, state: ComparingView) -> LinkOutcomeView {
    let keeper = state.candidates[state.next];
    if opts.scan_only {
        LinkOutcomeView::Found { keeper }
    } else {
        LinkOutcomeView::Replace { keeper, kind: link_kind(opts, state.victim.metadata) }
    }
}

/// The first step for a file: the admission rule decides.
pub open spec fn begin_spec(opts: Opts, victim: PathInfoView) -> LinkStepView {
    match admission(opts, victim.metadata) {
        Admission::Skip(reason) => LinkStepView::Finish(LinkOutcomeView::Skipped(reason)),
        Admission::Reject => LinkStepView::Finish(LinkOutcomeView::Rejected),
        Admission::Admit => LinkStepView::Hash(HashingView { victim }),
    }
}

/// With a candidate left, it is compared next; with none left, the file is
/// filed as a representative.
pub open spec fn advance_spec(index: IndexModel, state: ComparingView) -> (IndexModel, LinkStepView) {
    if 0 <= state.next < state.candidates.len() {
        (index, LinkStepView::Compare(state))
    } else {
        (index.insert(state.checksum, state.victim), LinkStepView::Finish(LinkOutcomeView::Unique))
    }
}

/// The step after hashing.  Without a checksum the file is dropped.  A file
/// whose inode has a representative under its own device, size and checksum
/// is linked already.  Otherwise the representatives under the lookup
/// device, the size and the checksum are the candidates, in their order.
pub open spec fn hashed_spec(
    opts: Opts,
    index: IndexModel,
    state: HashingView,
    hash: Option<u64>,
) -> (IndexModel, LinkStepView) {
    let record = state.victim.metadata;
    match hash {
        None => (index, LinkStepView::Finish(LinkOutcomeView::Dropped)),
        Some(checksum) => if index.holds_inode(
            record.device_id,
            record.size,
            checksum,
            record.inode,
        ) {
            (index, LinkStepView::Finish(LinkOutcomeView::AlreadyLinked))
        } else {
            advance_spec(
                index,
                ComparingView {
                    victim: state.victim,
                    checksum,
                    candidates: index.bucket(lookup_device(opts, record), record.size, checksum),
                    next: 0,
                },
            )
        },
    }
}

/// The step after a comparison with the candidate at `state.next`.  Equal
/// content makes that candidate the keeper.  Different content, or a
/// comparison that failed, moves on to the next candidate.
pub open spec fn compared_spec(
    opts: Opts,
    index: IndexModel,
    state: ComparingView,
    verdict: Option<bool>,
) -> (IndexModel, LinkStepView) {
    if verdict == Some(true) && 0 <= state.next < state.candidates.len() {
        (index, LinkStepView::Finish(duplicate_of(opts, state)))
    } else {
        advance_spec(index, ComparingView { next: state.next + 1, ..state })
    }
}

/// The verdict on the candidate at position `k`; a comparison that was
/// never made counts as one that failed.
pub open spec fn verdict_at(verdicts: Seq<Option<bool>>, k: int) -> Option<bool> {
    if 0 <= k < verdicts.len() {
        verdicts[k]
    } else {
        None
    }
}

/// The least position in `from..count` whose verdict is "equal".
pub open spec fn first_equal(verdicts: Seq<Option<bool>>, from: int, count: int) -> Option<int>
    decreases count - from,
{
    if from >= count {
        None
    } else if verdict_at(verdicts, from) == Some(true) {
        Some(from)
    } else {
        first_equal(verdicts, from + 1, count)
    }
}

/// What becomes of one file, said in one piece.
///
/// `hash` is the checksum that the caller reports for the file and
/// `verdicts[k]` the result of comparing it with the candidate at position
/// `k`.  The result is the index afterwards and the outcome.
pub open spec fn settle(
    opts: Opts,
    index: IndexModel,
    victim: PathInfoView,
    hash: Option<u64>,
    verdicts: Seq<Option<bool>>,
) -> (IndexModel, LinkOutcomeView) {
    let record = victim.metadata;
    match admission(opts, record) {
        Admission::Skip(reason) => (index, LinkOutcomeView::Skipped(reason)),
        Admission::Reject => (index, LinkOutcomeView::Rejected),
        Admission::Admit => match hash {
            None => (index, LinkOutcomeView::Dropped),
            Some(checksum) => if index.holds_inode(
                record.device_id,
                record.size,
                checksum,
                record.inode,
            ) {
                (index, LinkOutcomeView::AlreadyLinked)
            } else {
                let candidates = index.bucket(lookup_device(opts, record), record.size, checksum);
                match first_equal(verdicts, 0, candidates.len() as int) {
                    Some(k) => (
                        index,
                        duplicate_of(
                            opts,
                            ComparingView { victim, checksum, candidates, next: k },
                        ),
                    ),
                    None => (index.insert(checksum, victim), LinkOutcomeView::Unique),
                }
            },
        },
    }
}

/// Where the steps lead from a pending comparison, when each comparison is
/// answered from `verdicts` and nothing else touches the index.
pub open spec fn finish_comparing(
    opts: Opts,
    index: IndexModel,
    state: ComparingView,
    verdicts: Seq<Option<bool>>,
) -> (IndexModel, LinkOutcomeView)
    decreases state.candidates.len() - state.next,
{
    let (after, step) = compared_spec(opts, index, state, verdict_at(verdicts, state.next));
    match step {
        LinkStepView::Finish(outcome) => (after, outcome),
        LinkStepView::Compare(then) => if then.candidates.len() - then.next
            < state.candidates.len() - state.next {
            finish_comparing(opts, after, then, verdicts)
        } else {
            (after, LinkOutcomeView::Dropped)
        },
        LinkStepView::Hash(_) => (after, LinkOutcomeView::Dropped),
    }
}

/// Where the steps lead from the first one, when the checksum is answered
/// with `hash` and each comparison from `verdicts`.
pub open spec fn run_steps(
    opts: Opts,
    index: IndexModel,
    victim: PathInfoView,
    hash: Option<u64>,
    verdicts: Seq<Option<bool>>,
) -> (IndexModel, LinkOutcomeView) {
    match begin_spec(opts, victim) {
        LinkStepView::Finish(outcome) => (index, outcome),
        LinkStepView::Compare(_) => (index, LinkOutcomeView::Dropped),
        LinkStepView::Hash(state) => {
            let (after, step) = hashed_spec(opts, index, state, hash);
            match step {
                LinkStepView::Finish(outcome) => (after, outcome),
                LinkStepView::Compare(then) => finish_comparing(opts, after, then, verdicts),
                LinkStepView::Hash(_) => (after, LinkOutcomeView::Dropped),
            }
        },
    }
}

proof fn lemma_finish_comparing(
    opts: Opts,
    index: IndexModel,
    state: ComparingView,
    verdicts: Seq<Option<bool>>,
)
    requires
        0 <= state.next < state.candidates.len(),
    ensures
        finish_comparing(opts, index, state, verdicts) == match first_equal(
            verdicts,
            state.next,
            state.candidates.len() as int,
        ) {
            Some(k) => (index, duplicate_of(opts, ComparingView { next: k, ..state })),
            None => (index.insert(state.checksum, state.victim), LinkOutcomeView::Unique),
        },
    decreases state.candidates.len() - state.next,
{
    if verdict_at(verdicts, state.next) != Some(true) {
        let then = ComparingView { next: state.next + 1, ..state };
        if then.next < then.candidates.len() {
            lemma_finish_comparing(opts, index, then, verdicts);
        }
    }
}

/// The steps, taken one after the other with the answers of the outside
/// world, settle a file exactly as [`settle`] says.
pub proof fn lemma_steps_settle(
    opts: Opts,
    index: IndexModel,
    victim: PathInfoView,
    hash: Option<u64>,
    verdicts: Seq<Option<bool>>,
)
    ensures
        run_steps(opts, index, victim, hash, verdicts) == settle(
            opts,
            index,
            victim,
            hash,
            verdicts,
        ),
{
    let record = victim.metadata;
    if admission(opts, record) == Admission::Admit && hash is Some {
        let checksum = hash->0;
        if !index.holds_inode(record.device_id, record.size, checksum, record.inode) {
            let candidates = index.bucket(lookup_device(opts, record), record.size, checksum);
            let state = ComparingView { victim, checksum, candidates, next: 0 };
            if candidates.len() > 0 {
                lemma_finish_comparing(opts, index, state, verdicts);
            }
        }
    }
}

/// What [`first_equal`] finds: the position it names has the verdict
/// "equal" and no earlier one has; where it names none, none has.
pub proof fn lemma_first_equal(verdicts: Seq<Option<bool>>, from: int, count: int)
    ensures
        match first_equal(verdicts, from, count) {
            Some(k) => {
                &&& from <= k < count
                &&& verdict_at(verdicts, k) == Some(true)
                &&& forall|j: int| from <= j < k ==> verdict_at(verdicts, j) != Some(true)
            },
            None => forall|j: int| from <= j < count ==> verdict_at(verdicts, j) != Some(true),
        },
    decreases count - from,
{
    if from < count && verdict_at(verdicts, from) != Some(true) {
        lemma_first_equal(verdicts, from + 1, count);
    }
}

/// The keeper that an outcome names, if it names one.
pub open spec fn keeper_of(outcome: LinkOutcomeView) -> Option<PathInfoView> {
    match outcome {
        LinkOutcomeView::Found { keeper } => Some(keeper),
        LinkOutcomeView::Replace { keeper, kind } => Some(keeper),
        _ => None,
    }
}

/// What holds of every file that is settled against a well-formed index.
///
/// The index stays well formed and changes only when the file is filed.
/// A keeper is a representative that was in the index before, found under
/// the lookup device with the size and the checksum of the file; it is the
/// first candidate that compared equal; it is another underlying file than
/// the victim; and both passed the size threshold.
pub proof fn lemma_settle(
    opts: Opts,
    index: IndexModel,
    victim: PathInfoView,
    hash: Option<u64>,
    verdicts: Seq<Option<bool>>,
)
    requires
        index.wf(),
    ensures
        ({
            let (after, outcome) = settle(opts, index, victim, hash, verdicts);
            let record = victim.metadata;
            &&& after.wf()
            &&& after == if outcome is Unique {
                index.insert(hash->0, victim)
            } else {
                index
            }
            &&& outcome is Skipped || outcome is Rejected <==> admission(opts, record)
                != Admission::Admit
            &&& outcome is Dropped <==> admission(opts, record) == Admission::Admit && hash is None
            &&& outcome is AlreadyLinked <==> admission(opts, record) == Admission::Admit && hash is Some
                && index.holds_inode(record.device_id, record.size, hash->0, record.inode)
            &&& outcome is Found ==> opts.scan_only
            &&& outcome matches LinkOutcomeView::Replace { keeper, kind } ==> !opts.scan_only && kind
                == link_kind(opts, record)
            &&& keeper_of(outcome) matches Some(keeper) ==> {
                let candidates = index.bucket(lookup_device(opts, record), record.size, hash->0);
                &&& hash is Some
                &&& first_equal(verdicts, 0, candidates.len() as int) matches Some(k)
                &&& 0 <= k < candidates.len()
                &&& keeper == candidates[k]
                &&& verdict_at(verdicts, k) == Some(true)
                &&& keeper.metadata.device_id == lookup_device(opts, record)
                &&& keeper.metadata.size == record.size
                &&& keeper.metadata.identity() != record.identity()
                &&& record.size >= opts.ignore_less
            }
        }),
{
    let record = victim.metadata;
    if admission(opts, record) == Admission::Admit && hash is Some {
        let checksum = hash->0;
        if !index.holds_inode(record.device_id, record.size, checksum, record.inode) {
            let device = lookup_device(opts, record);
            let candidates = index.bucket(device, record.size, checksum);
            lemma_first_equal(verdicts, 0, candidates.len() as int);
            match first_equal(verdicts, 0, candidates.len() as int) {
                Some(k) => {
                    assert(crate::index::bucket_wf(device, record.size, candidates));
                    let keeper = candidates[k];
                    if keeper.metadata.identity() == record.identity() {
                        assert(index.holds_inode(
                            record.device_id,
                            record.size,
                            checksum,
                            record.inode,
                        ));
                    }
                },
                None => {
                    crate::index::lemma_insert_wf(index, checksum, victim);
                },
            }
        }
    }
}

/// A hard link never crosses devices: the keeper of a file that is to be
/// replaced by a hard link lies on the device of the file.
pub proof fn lemma_hard_link_stays_on_device(
    opts: Opts,
    index: IndexModel,
    victim: PathInfoView,
    hash: Option<u64>,
    verdicts: Seq<Option<bool>>,
)
    requires
        index.wf(),
    ensures
        settle(opts, index, victim, hash, verdicts).1 matches LinkOutcomeView::Replace {
            keeper,
            kind,
        } ==> (kind == LinkKind::Hard ==> keeper.metadata.device_id == victim.metadata.device_id),
{
    lemma_settle(opts, index, victim, hash, verdicts);
}

/// A file below the size threshold is passed over, whatever else holds of
/// it, and leaves the index as it was.
pub proof fn lemma_small_file_is_skipped(
    opts: Opts,
    index: IndexModel,
    victim: PathInfoView,
    hash: Option<u64>,
    verdicts: Seq<Option<bool>>,
)
    requires
        victim.metadata.size < opts.ignore_less,
    ensures
        settle(opts, index, victim, hash, verdicts) == (
            index,
            LinkOutcomeView::Skipped(SkipReason::SmallSize),
        ),
{
}

/// A file that awaits its checksum.
#[derive(Debug)]
pub struct Hashing {
    victim: PathInfo,
}

/// A file that awaits the result of a comparison with one candidate.
#[derive(Debug)]
pub struct Comparing {
    victim: PathInfo,
    checksum: u64,
    candidates: Vec<PathInfo>,
    next: usize,
}

/// What the caller does next for a file, together with the state that
/// takes the result.
#[derive(Debug)]
pub enum LinkStep {
    /// Compute the checksum of the file, then call [`Hashing::hashed`].
    Hash(Hashing),
    /// Compare the file with [`Comparing::keeper`], then call
    /// [`Comparing::compared`].
    Compare(Comparing),
    /// The file is settled.
    Finish(LinkOutcome),
}

impl View for Hashing {
    type V = HashingView;

    closed spec fn view(&self) -> HashingView {
        HashingView { victim: self.victim@ }
    }
}

impl View for Comparing {
    type V = ComparingView;

    closed spec fn view(&self) -> ComparingView {
        ComparingView {
            victim: self.victim@,
            checksum: self.checksum,
            candidates: views(self.candidates@),
            next: self.next as int,
        }
    }
}

impl View for LinkStep {
    type V = LinkStepView;

    open spec fn view(&self) -> LinkStepView {
        match *self {
            LinkStep::Hash(state) => LinkStepView::Hash(state@),
            LinkStep::Compare(state) => LinkStepView::Compare(state@),
            LinkStep::Finish(outcome) => LinkStepView::Finish(outcome@),
        }
    }
}

/// Begins the processing of one regular file.
pub fn process_file(ctx: &DedupContext, victim: PathInfo) -> (step: LinkStep)
    ensures
        step@ == begin_spec(ctx@.opts, victim@),
{
    match check_admission(ctx.opts(), &victim.metadata) {
        Admission::Skip(reason) => LinkStep::Finish(LinkOutcome::Skipped(reason)),
        Admission::Reject => LinkStep::Finish(LinkOutcome::Rejected),
        Admission::Admit => LinkStep::Hash(Hashing { victim }),
    }
}

impl Comparing {
    /// A candidate is pending.
    #[verifier::type_invariant]
    spec fn wf(&self) -> bool {
        self.next < self.candidates.len()
    }
}

/// Hands out the candidate at `next`, or files the victim when none is
/// left.
fn advance(
    ctx: &mut DedupContext,
    victim: PathInfo,
    checksum: u64,
    candidates: Vec<PathInfo>,
    next: usize,
) -> (step: LinkStep)
    ensures
        final(ctx)@.opts == old(ctx)@.opts,
        (final(ctx)@.index, step@) == advance_spec(
            old(ctx)@.index,
            ComparingView {
                victim: victim@,
                checksum,
                candidates: views(candidates@),
                next: next as int,
            },
        ),
        old(ctx)@.index.wf() ==> final(ctx)@.index.wf(),
{
    if next < candidates.len() {
        LinkStep::Compare(Comparing { victim, checksum, candidates, next })
    } else {
        ctx.insert(checksum, victim);
        LinkStep::Finish(LinkOutcome::Unique)
    }
}

impl Hashing {
    /// The file to hash.
    pub fn victim(&self) -> (victim: &PathInfo)
        ensures
            victim@ == self@.victim,
    {
        &self.victim
    }

    /// Takes the checksum of the file, or `None` where it could not be
    /// computed.
    pub fn hashed(self, ctx: &mut DedupContext, hash: Option<u64>) -> (step: LinkStep)
        ensures
            final(ctx)@.opts == old(ctx)@.opts,
            (final(ctx)@.index, step@) == hashed_spec(
                old(ctx)@.opts,
                old(ctx)@.index,
                self@,
                hash,
            ),
            old(ctx)@.index.wf() ==> final(ctx)@.index.wf(),
    {
        let checksum = match hash {
            None => { return LinkStep::Finish(LinkOutcome::Dropped); },
            Some(checksum) => checksum,
        };
        let record = self.victim.metadata;
        if ctx.index().contains_inode(record.device_id, record.size, checksum, record.inode) {
            return LinkStep::Finish(LinkOutcome::AlreadyLinked);
        }
        let opts = ctx.opts();
        let device = match opts.primary_fs_dev {
            Some(primary) => if opts.on_external_fs == ExternalFSMode::Symlink
                && primary != record.device_id {
                primary
            } else {
                record.device_id
            },
            None => record.device_id,
        };
        let candidates = ctx.index().find_bucket(device, record.size, checksum);
        advance(ctx, self.victim, checksum, candidates, 0)
    }
}

impl Comparing {
    /// The file whose duplicates are looked for.
    pub fn victim(&self) -> (victim: &PathInfo)
        ensures
            victim@ == self@.victim,
    {
        &self.victim
    }

    /// The representative to compare the file with.
    pub fn keeper(&self) -> (keeper: &PathInfo)
        ensures
            0 <= self@.next < self@.candidates.len(),
            keeper@ == self@.candidates[self@.next],
    {
        proof {
            use_type_invariant(self);
        }
        assert(views(self.candidates@)[self.next as int] == self.candidates[self.next as int]@);
        &self.candidates[self.next]
    }

    /// Takes the result of the comparison with [`Comparing::keeper`]:
    /// `Some(true)` for equal content, `Some(false)` for different content,
    /// `None` where the comparison failed.
    pub fn compared(self, ctx: &mut DedupContext, verdict: Option<bool>) -> (step: LinkStep)
        ensures
            final(ctx)@.opts == old(ctx)@.opts,
            (final(ctx)@.index, step@) == compared_spec(
                old(ctx)@.opts,
                old(ctx)@.index,
                self@,
                verdict,
            ),
            old(ctx)@.index.wf() ==> final(ctx)@.index.wf(),
    {
        proof {
            use_type_invariant(&self);
        }
        let equal = match verdict {
            Some(equal) => equal,
            None => false,
        };
        if equal {
            assert(views(self.candidates@)[self.next as int] == self.candidates[self.next as int]@);
            let keeper = self.candidates[self.next].duplicate();
            let opts = ctx.opts();
            if opts.scan_only {
                LinkStep::Finish(LinkOutcome::Found { keeper })
            } else {
                let kind = if opts.use_symlinks || (opts.on_external_fs == ExternalFSMode::Symlink
                    && !opts.check_dev(self.victim.metadata.device_id)) {
                    LinkKind::Symbolic
                } else {
                    LinkKind::Hard
                };
                LinkStep::Finish(LinkOutcome::Replace { keeper, kind })
            }
        } else {
            let next = self.next + 1;
            advance(ctx, self.victim, self.checksum, self.candidates, next)
        }
    }
}

} // verus!

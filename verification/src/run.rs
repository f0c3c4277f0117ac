//! A run as the sequence of files that reach the linker, and what holds of
//! every run.
//!
//! The outside world is present only through its answers: for each file the
//! checksum that was reported and the verdicts of the comparisons.  The laws
//! here hold for every order of the files and for every such answer, unless
//! they say what they ask of the answers.
use vstd::prelude::*;
use crate::echo::{PathInfoView, SkipReason};
use crate::index::{bucket_wf, IndexModel};
use crate::linker::{
    admission, crosses_devices, first_equal, keeper_of, lemma_first_equal, lemma_settle,
    lookup_device, settle, verdict_at, Admission, LinkKind, LinkOutcomeView,
};
use crate::options::{ExternalFSMode, Opts};

verus! {

/// One file as it reaches the linker, with what the outside world answers
/// while it is processed.
pub struct Visit {
    /// The path and the record that was read for it.
    pub victim: PathInfoView,
    /// The checksum, where it could be computed.
    pub hash: Option<u64>,
    /// The verdict of the comparison with each candidate, by position.
    pub verdicts: Seq<Option<bool>>,
}

/// The index after the first `n` visits of a run that began with the empty
/// index.
pub open spec fn index_after(opts: Opts, visits: Seq<Visit>, n: nat) -> IndexModel
    decreases n,
{
    if n == 0 {
        IndexModel::empty()
    } else {
        let visit = visits[n - 1];
        settle(
            opts,
            index_after(opts, visits, (n - 1) as nat),
            visit.victim,
            visit.hash,
            visit.verdicts,
        ).0
    }
}

/// The outcome of visit `k`.
pub open spec fn outcome_at(opts: Opts, visits: Seq<Visit>, k: int) -> LinkOutcomeView {
    let visit = visits[k];
    settle(opts, index_after(opts, visits, k as nat), visit.victim, visit.hash, visit.verdicts).1
}

/// The candidates that visit `k` meets.
pub open spec fn candidates_at(opts: Opts, visits: Seq<Visit>, k: int) -> Seq<PathInfoView> {
    let record = visits[k].victim.metadata;
    index_after(opts, visits, k as nat).bucket(
        lookup_device(opts, record),
        record.size,
        visits[k].hash->0,
    )
}

/// The index of a run is well formed at every point.
pub proof fn lemma_run_wf(opts: Opts, visits: Seq<Visit>, n: nat)
    requires
        n <= visits.len(),
    ensures
        index_after(opts, visits, n).wf(),
    decreases n,
{
    if n > 0 {
        lemma_run_wf(opts, visits, (n - 1) as nat);
        let visit = visits[n - 1];
        lemma_settle(
            opts,
            index_after(opts, visits, (n - 1) as nat),
            visit.victim,
            visit.hash,
            visit.verdicts,
        );
    }
}

/// Whether every representative has at least the given size.
pub open spec fn all_at_least(index: IndexModel, threshold: int) -> bool {
    forall|device: u64, size: u64, checksum: u64, p: int|
        0 <= p < index.bucket(device, size, checksum).len() ==> (#[trigger] index.bucket(
            device,
            size,
            checksum,
        )[p]).metadata.size >= threshold
}

proof fn lemma_insert_at_least(
    index: IndexModel,
    checksum: u64,
    info: PathInfoView,
    threshold: int,
)
    requires
        all_at_least(index, threshold),
        info.metadata.size >= threshold,
    ensures
        all_at_least(index.insert(checksum, info), threshold),
{
    let after = index.insert(checksum, info);
    assert forall|device: u64, size: u64, c: u64, p: int|
        0 <= p < after.bucket(device, size, c).len() implies (#[trigger] after.bucket(
        device,
        size,
        c,
    )[p]).metadata.size >= threshold by {
        if p < index.bucket(device, size, c).len() {
            assert(after.bucket(device, size, c)[p] == index.bucket(device, size, c)[p]);
        }
    }
}

/// The size filter.  In every run, no file below the threshold becomes a
/// representative, none is found to be a duplicate, and none serves as a
/// keeper.
pub proof fn lemma_size_filter(opts: Opts, visits: Seq<Visit>, n: nat)
    requires
        n <= visits.len(),
    ensures
        all_at_least(index_after(opts, visits, n), opts.ignore_less as int),
        forall|k: int|
            0 <= k < n && visits[k].victim.metadata.size < opts.ignore_less ==> #[trigger] outcome_at(
                opts,
                visits,
                k,
            ) == LinkOutcomeView::Skipped(SkipReason::SmallSize),
        forall|k: int|
            0 <= k < n ==> (keeper_of(#[trigger] outcome_at(opts, visits, k)) matches Some(keeper)
                ==> keeper.metadata.size >= opts.ignore_less && visits[k].victim.metadata.size
                >= opts.ignore_less),
    decreases n,
{
    if n > 0 {
        let m = (n - 1) as nat;
        lemma_size_filter(opts, visits, m);
        lemma_run_wf(opts, visits, m);
        let visit = visits[n - 1];
        let before = index_after(opts, visits, m);
        lemma_settle(opts, before, visit.victim, visit.hash, visit.verdicts);
        if outcome_at(opts, visits, n - 1) is Unique {
            lemma_insert_at_least(before, visit.hash->0, visit.victim, opts.ignore_less as int);
        }
    }
}

/// No hard link across devices.  In every run, a file that is to be
/// replaced by a hard link has its keeper on its own device.
pub proof fn lemma_no_cross_device_hard_link(opts: Opts, visits: Seq<Visit>, k: int)
    requires
        0 <= k < visits.len(),
    ensures
        outcome_at(opts, visits, k) matches LinkOutcomeView::Replace { keeper, kind } ==> (kind
            == LinkKind::Hard ==> keeper.metadata.device_id
            == visits[k].victim.metadata.device_id),
{
    lemma_run_wf(opts, visits, k as nat);
    let visit = visits[k];
    lemma_settle(
        opts,
        index_after(opts, visits, k as nat),
        visit.victim,
        visit.hash,
        visit.verdicts,
    );
}

/// A run that only scans never asks for a replacement.
pub proof fn lemma_scan_only_replaces_nothing(opts: Opts, visits: Seq<Visit>, k: int)
    requires
        0 <= k < visits.len(),
        opts.scan_only,
    ensures
        !(outcome_at(opts, visits, k) is Replace),
{
    lemma_run_wf(opts, visits, k as nat);
    let visit = visits[k];
    lemma_settle(
        opts,
        index_after(opts, visits, k as nat),
        visit.victim,
        visit.hash,
        visit.verdicts,
    );
}

/// The content of the underlying file that `info` names.  Content belongs
/// to the file, not to the path: two paths of one file have one content.
pub open spec fn content_of(
    content: spec_fn((u64, u64)) -> Seq<u8>,
    info: PathInfoView,
) -> Seq<u8> {
    content(info.metadata.identity())
}

/// Whether visit `k` was told "equal" only of candidates whose content
/// equals that of its file.
pub open spec fn verdicts_sound(
    opts: Opts,
    visits: Seq<Visit>,
    content: spec_fn((u64, u64)) -> Seq<u8>,
    k: int,
) -> bool {
    forall|p: int|
        0 <= p < candidates_at(opts, visits, k).len() && #[trigger] verdict_at(
            visits[k].verdicts,
            p,
        ) == Some(true) ==> content_of(content, candidates_at(opts, visits, k)[p]) == content_of(
            content,
            visits[k].victim,
        )
}

/// Whether every comparison of visit `k` was made and told the truth.
pub open spec fn verdicts_exact(
    opts: Opts,
    visits: Seq<Visit>,
    content: spec_fn((u64, u64)) -> Seq<u8>,
    k: int,
) -> bool {
    forall|p: int|
        0 <= p < candidates_at(opts, visits, k).len() ==> #[trigger] verdict_at(
            visits[k].verdicts,
            p,
        ) == Some(
            content_of(content, candidates_at(opts, visits, k)[p]) == content_of(
                content,
                visits[k].victim,
            ),
        )
}

/// Whether `info` was filed under `checksum` by one of the first `n`
/// visits: it is the file of that visit, the visit reported this checksum,
/// and it ended with the file being filed.
pub open spec fn filed_before(
    opts: Opts,
    visits: Seq<Visit>,
    n: int,
    checksum: u64,
    info: PathInfoView,
) -> bool {
    exists|i: int|
        0 <= i < n && (#[trigger] visits[i]).victim == info && visits[i].hash == Some(checksum)
            && outcome_at(opts, visits, i) is Unique
}

/// Whether every representative was filed by one of the first `n` visits
/// under the checksum of its bucket.
pub open spec fn representatives_filed(
    opts: Opts,
    index: IndexModel,
    visits: Seq<Visit>,
    n: int,
) -> bool {
    forall|device: u64, size: u64, checksum: u64, p: int|
        0 <= p < index.bucket(device, size, checksum).len() ==> filed_before(
            opts,
            visits,
            n,
            checksum,
            #[trigger] index.bucket(device, size, checksum)[p],
        )
}

/// The checksum invariant.  The index of a run holds nothing but files
/// that the run has visited and filed, each under the checksum that was
/// reported for it.
pub proof fn lemma_representatives_filed(opts: Opts, visits: Seq<Visit>, n: nat)
    requires
        n <= visits.len(),
    ensures
        representatives_filed(opts, index_after(opts, visits, n), visits, n as int),
    decreases n,
{
    if n > 0 {
        let m = (n - 1) as nat;
        lemma_representatives_filed(opts, visits, m);
        lemma_run_wf(opts, visits, m);
        let visit = visits[n - 1];
        let before = index_after(opts, visits, m);
        let after = index_after(opts, visits, n);
        lemma_settle(opts, before, visit.victim, visit.hash, visit.verdicts);
        assert forall|device: u64, size: u64, checksum: u64, p: int|
            0 <= p < after.bucket(device, size, checksum).len() implies filed_before(
            opts,
            visits,
            n as int,
            checksum,
            #[trigger] after.bucket(device, size, checksum)[p],
        ) by {
            let entry = after.bucket(device, size, checksum)[p];
            if p < before.bucket(device, size, checksum).len() {
                assert(entry == before.bucket(device, size, checksum)[p]);
                assert(filed_before(opts, visits, m as int, checksum, entry));
                let i = choose|i: int|
                    0 <= i < m && (#[trigger] visits[i]).victim == entry && visits[i].hash == Some(
                        checksum,
                    ) && outcome_at(opts, visits, i) is Unique;
                assert(0 <= i < n && visits[i].victim == entry);
            } else {
                assert(entry == visits[n - 1].victim);
                assert(outcome_at(opts, visits, n - 1) is Unique);
            }
        }
    }
}

/// Representative freshness.  A file that is found to be a duplicate is
/// not the file of any representative in its own bucket: a representative
/// is never replaced while it stands for its content.
pub proof fn lemma_representative_is_never_replaced(opts: Opts, visits: Seq<Visit>, k: int)
    requires
        0 <= k < visits.len(),
        keeper_of(outcome_at(opts, visits, k)) is Some,
    ensures
        ({
            let record = visits[k].victim.metadata;
            let bucket = index_after(opts, visits, k as nat).bucket(
                record.device_id,
                record.size,
                visits[k].hash->0,
            );
            forall|p: int|
                0 <= p < bucket.len() ==> (#[trigger] bucket[p]).metadata.identity()
                    != record.identity()
        }),
{
    let visit = visits[k];
    let before = index_after(opts, visits, k as nat);
    lemma_run_wf(opts, visits, k as nat);
    lemma_settle(opts, before, visit.victim, visit.hash, visit.verdicts);
}

/// A tree is deduplicated when any two of its admitted files that the
/// linker could bring together, because they have equal content and one
/// lies on the lookup device of the other, are one underlying file.
pub open spec fn deduplicated(
    opts: Opts,
    visits: Seq<Visit>,
    content: spec_fn((u64, u64)) -> Seq<u8>,
) -> bool {
    forall|i: int, j: int|
        0 <= i < visits.len() && 0 <= j < visits.len() && admission(
            opts,
            (#[trigger] visits[i]).victim.metadata,
        ) == Admission::Admit && admission(opts, (#[trigger] visits[j]).victim.metadata)
            == Admission::Admit && content_of(content, visits[i].victim) == content_of(
            content,
            visits[j].victim,
        ) && lookup_device(opts, visits[i].victim.metadata) == visits[j].victim.metadata.device_id
            ==> visits[i].victim.metadata.identity() == visits[j].victim.metadata.identity()
}

/// A run over a deduplicated tree finds no duplicate and asks for no
/// replacement, in whatever order it visits the files, whatever the
/// checksums are and whichever comparisons fail, as long as no comparison
/// calls two different contents equal.
pub proof fn lemma_deduplicated_tree_is_left_alone(
    opts: Opts,
    visits: Seq<Visit>,
    content: spec_fn((u64, u64)) -> Seq<u8>,
    k: int,
)
    requires
        0 <= k < visits.len(),
        deduplicated(opts, visits, content),
        verdicts_sound(opts, visits, content, k),
    ensures
        keeper_of(outcome_at(opts, visits, k)) is None,
        !(outcome_at(opts, visits, k) is Replace),
        !(outcome_at(opts, visits, k) is Found),
{
    let visit = visits[k];
    let before = index_after(opts, visits, k as nat);
    lemma_run_wf(opts, visits, k as nat);
    lemma_representatives_filed(opts, visits, k as nat);
    lemma_settle(opts, before, visit.victim, visit.hash, visit.verdicts);
    if keeper_of(outcome_at(opts, visits, k)) is Some {
        let keeper = keeper_of(outcome_at(opts, visits, k))->0;
        let record = visit.victim.metadata;
        let checksum = visit.hash->0;
        let candidates = candidates_at(opts, visits, k);
        let p = first_equal(visit.verdicts, 0, candidates.len() as int)->0;
        assert(keeper == before.bucket(lookup_device(opts, record), record.size, checksum)[p]);
        assert(filed_before(opts, visits, k, checksum, keeper));
        let i = choose|i: int|
            0 <= i < k && (#[trigger] visits[i]).victim == keeper && visits[i].hash == Some(
                checksum,
            ) && outcome_at(opts, visits, i) is Unique;
        lemma_run_wf(opts, visits, i as nat);
        lemma_settle(
            opts,
            index_after(opts, visits, i as nat),
            visits[i].victim,
            visits[i].hash,
            visits[i].verdicts,
        );
        assert(admission(opts, visits[i].victim.metadata) == Admission::Admit);
        assert(verdict_at(visit.verdicts, p) == Some(true));
        assert(content_of(content, candidates[p]) == content_of(content, visit.victim));
        assert(visits[k].victim.metadata.identity() == visits[i].victim.metadata.identity());
    }
}

/// The underlying file that the path of visit `k` leads to once its outcome
/// has been carried out: the keeper's file for a duplicate, its own file
/// otherwise.
pub open spec fn resolved(opts: Opts, visits: Seq<Visit>, k: int) -> (u64, u64) {
    match keeper_of(outcome_at(opts, visits, k)) {
        Some(keeper) => keeper.metadata.identity(),
        None => visits[k].victim.metadata.identity(),
    }
}

/// What the uniqueness law asks of the outside world: every checksum was
/// computed, every comparison was made and told the truth, and files with
/// equal content have equal checksums and equal sizes.
pub open spec fn faithful_world(
    opts: Opts,
    visits: Seq<Visit>,
    content: spec_fn((u64, u64)) -> Seq<u8>,
) -> bool {
    &&& forall|k: int| 0 <= k < visits.len() ==> (#[trigger] visits[k]).hash is Some
    &&& forall|k: int| 0 <= k < visits.len() ==> #[trigger] verdicts_exact(opts, visits, content, k)
    &&& forall|i: int, j: int|
        0 <= i < visits.len() && 0 <= j < visits.len() && content_of(
            content,
            (#[trigger] visits[i]).victim,
        ) == content_of(content, (#[trigger] visits[j]).victim) ==> visits[i].hash
            == visits[j].hash && visits[i].victim.metadata.size == visits[j].victim.metadata.size
}

/// Whether the representatives of each bucket that is not reached across
/// devices differ in content, one from the other.
spec fn contents_differ(
    opts: Opts,
    index: IndexModel,
    content: spec_fn((u64, u64)) -> Seq<u8>,
) -> bool {
    forall|device: u64, size: u64, checksum: u64, p: int, q: int|
        !(opts.on_external_fs == ExternalFSMode::Symlink && opts.foreign(device)) && 0 <= p < q
            < index.bucket(device, size, checksum).len() ==> content_of(
            content,
            #[trigger] index.bucket(device, size, checksum)[p],
        ) != content_of(content, #[trigger] index.bucket(device, size, checksum)[q])
}

/// Whether the bucket of `visit` holds a representative with the content of
/// its file whose underlying file is `target`.
spec fn anchored(
    index: IndexModel,
    content: spec_fn((u64, u64)) -> Seq<u8>,
    visit: Visit,
    target: (u64, u64),
) -> bool {
    let record = visit.victim.metadata;
    exists|p: int|
        0 <= p < index.bucket(record.device_id, record.size, visit.hash->0).len() && content_of(
            content,
            #[trigger] index.bucket(record.device_id, record.size, visit.hash->0)[p],
        ) == content_of(content, visit.victim) && index.bucket(
            record.device_id,
            record.size,
            visit.hash->0,
        )[p].metadata.identity() == target
}

spec fn all_anchored(
    opts: Opts,
    visits: Seq<Visit>,
    content: spec_fn((u64, u64)) -> Seq<u8>,
    index: IndexModel,
    n: int,
) -> bool {
    forall|i: int|
        0 <= i < n && admission(opts, visits[i].victim.metadata) == Admission::Admit
            && !crosses_devices(opts, visits[i].victim.metadata) ==> anchored(
            index,
            content,
            visits[i],
            #[trigger] resolved(opts, visits, i),
        )
}

proof fn lemma_anchor_stays(
    before: IndexModel,
    checksum: u64,
    info: PathInfoView,
    content: spec_fn((u64, u64)) -> Seq<u8>,
    visit: Visit,
    target: (u64, u64),
)
    requires
        anchored(before, content, visit, target),
    ensures
        anchored(before.insert(checksum, info), content, visit, target),
{
    let record = visit.victim.metadata;
    let after = before.insert(checksum, info);
    let old_bucket = before.bucket(record.device_id, record.size, visit.hash->0);
    let new_bucket = after.bucket(record.device_id, record.size, visit.hash->0);
    let p = choose|p: int|
        0 <= p < old_bucket.len() && content_of(content, #[trigger] old_bucket[p]) == content_of(
            content,
            visit.victim,
        ) && old_bucket[p].metadata.identity() == target;
    assert(new_bucket[p] == old_bucket[p]);
}

proof fn lemma_anchors(
    opts: Opts,
    visits: Seq<Visit>,
    content: spec_fn((u64, u64)) -> Seq<u8>,
    n: nat,
)
    requires
        n <= visits.len(),
        faithful_world(opts, visits, content),
    ensures
        contents_differ(opts, index_after(opts, visits, n), content),
        all_anchored(opts, visits, content, index_after(opts, visits, n), n as int),
    decreases n,
{
    if n > 0 {
        let m = (n - 1) as nat;
        lemma_anchors(opts, visits, content, m);
        lemma_run_wf(opts, visits, m);
        let visit = visits[n - 1];
        let record = visit.victim.metadata;
        let checksum = visit.hash->0;
        let before = index_after(opts, visits, m);
        let after = index_after(opts, visits, n);
        let outcome = outcome_at(opts, visits, n - 1);
        lemma_settle(opts, before, visit.victim, visit.hash, visit.verdicts);
        let candidates = candidates_at(opts, visits, n - 1);
        assert(verdicts_exact(opts, visits, content, n - 1));
        lemma_first_equal(visit.verdicts, 0, candidates.len() as int);

        assert forall|device: u64, size: u64, c: u64, p: int, q: int|
            !(opts.on_external_fs == ExternalFSMode::Symlink && opts.foreign(device)) && 0 <= p < q
                < after.bucket(device, size, c).len() implies content_of(
            content,
            #[trigger] after.bucket(device, size, c)[p],
        ) != content_of(content, #[trigger] after.bucket(device, size, c)[q]) by {
            let old_bucket = before.bucket(device, size, c);
            if q < old_bucket.len() {
                assert(after.bucket(device, size, c)[p] == old_bucket[p]);
                assert(after.bucket(device, size, c)[q] == old_bucket[q]);
            } else {
                assert(outcome is Unique);
                assert(after.bucket(device, size, c)[q] == visit.victim);
                assert(after.bucket(device, size, c)[p] == old_bucket[p]);
                assert(old_bucket == candidates);
                assert(verdict_at(visit.verdicts, p) != Some(true));
            }
        }

        assert forall|i: int|
            0 <= i < n && admission(opts, visits[i].victim.metadata) == Admission::Admit
                && !crosses_devices(opts, visits[i].victim.metadata) implies anchored(
            after,
            content,
            visits[i],
            #[trigger] resolved(opts, visits, i),
        ) by {
            if i < m {
                assert(anchored(before, content, visits[i], resolved(opts, visits, i)));
                if outcome is Unique {
                    lemma_anchor_stays(
                        before,
                        checksum,
                        visit.victim,
                        content,
                        visits[i],
                        resolved(opts, visits, i),
                    );
                }
            } else {
                let own = after.bucket(record.device_id, record.size, checksum);
                if outcome is Unique {
                    let last = own.len() - 1;
                    assert(own[last] == visit.victim);
                } else if outcome is AlreadyLinked {
                    assert(bucket_wf(record.device_id, record.size, own));
                    let p = choose|p: int|
                        0 <= p < own.len() && (#[trigger] own[p]).metadata.inode == record.inode;
                    assert(own[p].metadata.identity() == record.identity());
                } else {
                    let p = first_equal(visit.verdicts, 0, candidates.len() as int)->0;
                    assert(keeper_of(outcome) == Some(candidates[p]));
                    assert(verdict_at(visit.verdicts, p) == Some(true));
                    assert(own[p] == candidates[p]);
                }
            }
        }
    }
}

/// Representative uniqueness.  After a run that replaces what it finds, in
/// a world that answers faithfully, any two admitted files with equal
/// content on one device, neither of them linked across devices, lead to one
/// underlying file: the representative of their content.
pub proof fn lemma_one_file_per_content(
    opts: Opts,
    visits: Seq<Visit>,
    content: spec_fn((u64, u64)) -> Seq<u8>,
    i: int,
    j: int,
)
    requires
        faithful_world(opts, visits, content),
        0 <= i < visits.len(),
        0 <= j < visits.len(),
        admission(opts, visits[i].victim.metadata) == Admission::Admit,
        admission(opts, visits[j].victim.metadata) == Admission::Admit,
        !crosses_devices(opts, visits[i].victim.metadata),
        visits[i].victim.metadata.device_id == visits[j].victim.metadata.device_id,
        content_of(content, visits[i].victim) == content_of(content, visits[j].victim),
    ensures
        resolved(opts, visits, i) == resolved(opts, visits, j),
{
    let n = visits.len();
    lemma_anchors(opts, visits, content, n);
    let index = index_after(opts, visits, n);
    let first = resolved(opts, visits, i);
    let second = resolved(opts, visits, j);
    assert(anchored(index, content, visits[i], first));
    assert(anchored(index, content, visits[j], second));
    let record = visits[i].victim.metadata;
    let bucket = index.bucket(record.device_id, record.size, visits[i].hash->0);
    assert(bucket == index.bucket(
        visits[j].victim.metadata.device_id,
        visits[j].victim.metadata.size,
        visits[j].hash->0,
    ));
    let p = choose|p: int|
        0 <= p < bucket.len() && content_of(content, #[trigger] bucket[p]) == content_of(
            content,
            visits[i].victim,
        ) && bucket[p].metadata.identity() == first;
    let q = choose|q: int|
        0 <= q < bucket.len() && content_of(content, #[trigger] bucket[q]) == content_of(
            content,
            visits[j].victim,
        ) && bucket[q].metadata.identity() == second;
    if p < q {
        assert(content_of(content, bucket[p]) != content_of(content, bucket[q]));
    } else if q < p {
        assert(content_of(content, bucket[q]) != content_of(content, bucket[p]));
    }
}

/// What a path of a run leads to afterwards has the content that the path
/// had before, and lies on the device of the path.
pub proof fn lemma_resolved_keeps_content(
    opts: Opts,
    visits: Seq<Visit>,
    content: spec_fn((u64, u64)) -> Seq<u8>,
    i: int,
)
    requires
        faithful_world(opts, visits, content),
        0 <= i < visits.len(),
        admission(opts, visits[i].victim.metadata) == Admission::Admit,
        !crosses_devices(opts, visits[i].victim.metadata),
    ensures
        content(resolved(opts, visits, i)) == content_of(content, visits[i].victim),
        resolved(opts, visits, i).0 == visits[i].victim.metadata.device_id,
{
    let n = visits.len();
    lemma_anchors(opts, visits, content, n);
    lemma_run_wf(opts, visits, n);
    let index = index_after(opts, visits, n);
    let target = resolved(opts, visits, i);
    assert(anchored(index, content, visits[i], target));
    let record = visits[i].victim.metadata;
    let bucket = index.bucket(record.device_id, record.size, visits[i].hash->0);
    assert(bucket_wf(record.device_id, record.size, bucket));
    let p = choose|p: int|
        0 <= p < bucket.len() && content_of(content, #[trigger] bucket[p]) == content_of(
            content,
            visits[i].victim,
        ) && bucket[p].metadata.identity() == target;
    assert(bucket[p].metadata.device_id == record.device_id);
}

/// Whether a file with this record is what some admitted path of the run
/// leads to once the run has replaced what it found.
pub open spec fn left_by(opts: Opts, visits: Seq<Visit>, record: crate::probe::MetadataRecord) -> bool {
    exists|i: int|
        0 <= i < visits.len() && admission(opts, (#[trigger] visits[i]).victim.metadata)
            == Admission::Admit && resolved(opts, visits, i) == record.identity()
}

/// Idempotence.  Let a first run replace every duplicate it finds, in a
/// world that answers faithfully, and let a second run meet the tree that
/// the first one left: each file that it admits is what an admitted path of
/// the first run leads to afterwards.  Then the second run finds no
/// duplicate and asks for no replacement, in whatever order it goes,
/// whatever the checksums are and whichever comparisons fail, as long as no
/// comparison calls two different contents equal.  Files are not linked
/// across devices here.
pub proof fn lemma_second_run_replaces_nothing(
    opts: Opts,
    first: Seq<Visit>,
    second: Seq<Visit>,
    content: spec_fn((u64, u64)) -> Seq<u8>,
    k: int,
)
    requires
        opts.on_external_fs != ExternalFSMode::Symlink,
        faithful_world(opts, first, content),
        forall|m: int|
            0 <= m < second.len() && admission(opts, (#[trigger] second[m]).victim.metadata)
                == Admission::Admit ==> left_by(opts, first, second[m].victim.metadata),
        0 <= k < second.len(),
        verdicts_sound(opts, second, content, k),
    ensures
        keeper_of(outcome_at(opts, second, k)) is None,
        !(outcome_at(opts, second, k) is Replace),
        !(outcome_at(opts, second, k) is Found),
{
    assert forall|a: int, b: int|
        0 <= a < second.len() && 0 <= b < second.len() && admission(
            opts,
            (#[trigger] second[a]).victim.metadata,
        ) == Admission::Admit && admission(opts, (#[trigger] second[b]).victim.metadata)
            == Admission::Admit && content_of(content, second[a].victim) == content_of(
            content,
            second[b].victim,
        ) && lookup_device(opts, second[a].victim.metadata)
            == second[b].victim.metadata.device_id implies second[a].victim.metadata.identity()
        == second[b].victim.metadata.identity() by {
        let one = second[a].victim.metadata;
        let other = second[b].victim.metadata;
        assert(left_by(opts, first, one));
        assert(left_by(opts, first, other));
        let i = choose|i: int|
            0 <= i < first.len() && admission(opts, (#[trigger] first[i]).victim.metadata)
                == Admission::Admit && resolved(opts, first, i) == one.identity();
        let j = choose|j: int|
            0 <= j < first.len() && admission(opts, (#[trigger] first[j]).victim.metadata)
                == Admission::Admit && resolved(opts, first, j) == other.identity();
        lemma_resolved_keeps_content(opts, first, content, i);
        lemma_resolved_keeps_content(opts, first, content, j);
        lemma_one_file_per_content(opts, first, content, i, j);
    }
    lemma_deduplicated_tree_is_left_alone(opts, second, content, k);
}

} // verus!

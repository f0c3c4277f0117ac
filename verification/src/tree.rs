//! A small model of a file system, and what a replacement does to it.
//!
//! Names lead to underlying files, directly or through a symbolic link.
//! The model knows the changes that a replacement asks for and nothing
//! else.  A change that fails leaves the tree as it was.  Against this
//! model the protocol is shown to lose no content, to end with the victim's
//! path on the keeper's file, and to carry the victim's permissions and
//! owner over.
use vstd::prelude::*;
use crate::file::TEMP_NAME_LAST;
use crate::linker::LinkKind;
use crate::replace::{
    done_spec, make_link_spec, probed_spec, ActingView, Cleanup, NamingView, ReplaceActionView,
    ReplaceFailure, ReplaceOutcome, ReplaceStepView, Stage,
};

verus! {

/// One underlying file.
pub struct Node {
    pub content: Seq<u8>,
    pub mode: u32,
    pub uid: u32,
    pub gid: u32,
}

/// What a name stands for.
pub enum Entry {
    /// A hard link to the underlying file with this number.
    File(u64),
    /// A symbolic link to this path.
    Link(Seq<u8>),
}

/// The names of a file system and the files behind them.
pub struct Tree {
    pub names: Map<Seq<u8>, Entry>,
    pub nodes: Map<u64, Node>,
}

impl Tree {
    /// The underlying file that a path leads to, through one symbolic link
    /// at most.
    pub open spec fn resolve(self, path: Seq<u8>) -> Option<u64> {
        if !self.names.contains_key(path) {
            None
        } else {
            match self.names[path] {
                Entry::File(number) => Some(number),
                Entry::Link(target) => if self.names.contains_key(target)
                    && self.names[target] is File {
                    Some(self.names[target]->File_0)
                } else {
                    None
                },
            }
        }
    }

    /// The bytes that reading a path gives.
    pub open spec fn content_at(self, path: Seq<u8>) -> Option<Seq<u8>> {
        match self.resolve(path) {
            Some(number) => if self.nodes.contains_key(number) {
                Some(self.nodes[number].content)
            } else {
                None
            },
            None => None,
        }
    }

    /// The permissions and the owner that a path shows.
    pub open spec fn holder_at(self, path: Seq<u8>) -> Option<(u32, u32, u32)> {
        match self.resolve(path) {
            Some(number) => if self.nodes.contains_key(number) {
                Some((self.nodes[number].mode, self.nodes[number].uid, self.nodes[number].gid))
            } else {
                None
            },
            None => None,
        }
    }

    /// The tree after a change that succeeded.
    pub open spec fn apply(self, action: ReplaceActionView) -> Tree {
        match action {
            ReplaceActionView::Link { kind, keeper, temp } => match kind {
                LinkKind::Hard => if self.names.contains_key(keeper) && self.names[keeper] is File {
                    Tree { names: self.names.insert(temp, self.names[keeper]), ..self }
                } else {
                    self
                },
                LinkKind::Symbolic => Tree {
                    names: self.names.insert(temp, Entry::Link(keeper)),
                    ..self
                },
            },
            ReplaceActionView::CopyPermissions { from, to } => match (
                self.resolve(from),
                self.resolve(to),
            ) {
                (Some(source), Some(target)) => Tree {
                    nodes: self.nodes.insert(
                        target,
                        Node { mode: self.nodes[source].mode, ..self.nodes[target] },
                    ),
                    ..self
                },
                _ => self,
            },
            ReplaceActionView::CopyOwner { from, to } => match (
                self.resolve(from),
                self.resolve(to),
            ) {
                (Some(source), Some(target)) => Tree {
                    nodes: self.nodes.insert(
                        target,
                        Node {
                            uid: self.nodes[source].uid,
                            gid: self.nodes[source].gid,
                            ..self.nodes[target]
                        },
                    ),
                    ..self
                },
                _ => self,
            },
            ReplaceActionView::Unlink { path } => Tree { names: self.names.remove(path), ..self },
            ReplaceActionView::Rename { from, to } => if self.names.contains_key(from) {
                Tree { names: self.names.remove(from).insert(to, self.names[from]), ..self }
            } else {
                self
            },
            ReplaceActionView::Remove { path } => Tree { names: self.names.remove(path), ..self },
        }
    }
}

/// How far a step is from the end: first the names that are left to try,
/// then the changes that are left to make.
pub open spec fn names_left(step: ReplaceStepView) -> nat {
    match step {
        ReplaceStepView::Probe(state) => if state.attempt <= TEMP_NAME_LAST {
            (TEMP_NAME_LAST - state.attempt + 1) as nat
        } else {
            1
        },
        _ => 0,
    }
}

pub open spec fn changes_left(step: ReplaceStepView) -> nat {
    match step {
        ReplaceStepView::Act(state) => match state.stage {
            Stage::Linking => 6,
            Stage::CopyingPermissions => 5,
            Stage::CopyingOwner => 4,
            Stage::Unlinking => 3,
            Stage::Renaming => 2,
            Stage::CleaningUp(_) => 1,
        },
        _ => 0,
    }
}

/// Carries a replacement out against a tree.  Whether a name exists is
/// read from the tree; whether the first change succeeds is `fate[0]`,
/// whether the second does is `fate[1]`, and so on, a change beyond the end
/// of `fate` failing.  The result is the tree afterwards and how the
/// replacement ended.
pub open spec fn execute(tree: Tree, step: ReplaceStepView, fate: Seq<bool>) -> (
    Tree,
    ReplaceOutcome,
)
    decreases names_left(step), changes_left(step),
{
    match step {
        ReplaceStepView::Finish(outcome) => (tree, outcome),
        ReplaceStepView::Probe(state) => execute(
            tree,
            probed_spec(state, tree.names.contains_key(state.candidate())),
            fate,
        ),
        ReplaceStepView::Act(state) => {
            let success = fate.len() > 0 && fate[0];
            let after = if success {
                tree.apply(state.action())
            } else {
                tree
            };
            execute(after, done_spec(state, success), fate.drop_first())
        },
    }
}

/// What a replacement starts from: the victim and the keeper are two names
/// of two files with the same content.
pub open spec fn ready(tree: Tree, victim: Seq<u8>, keeper: Seq<u8>) -> bool {
    &&& victim != keeper
    &&& tree.names.contains_key(victim)
    &&& tree.names.contains_key(keeper)
    &&& tree.names[victim] is File
    &&& tree.names[keeper] is File
    &&& tree.nodes.contains_key(tree.names[victim]->File_0)
    &&& tree.nodes.contains_key(tree.names[keeper]->File_0)
    &&& tree.nodes[tree.names[victim]->File_0].content
        == tree.nodes[tree.names[keeper]->File_0].content
}

/// What the victim's path stands for after a replacement by a link of this
/// kind.
pub open spec fn link_entry(tree: Tree, keeper: Seq<u8>, kind: LinkKind) -> Entry {
    match kind {
        LinkKind::Hard => tree.names[keeper],
        LinkKind::Symbolic => Entry::Link(keeper),
    }
}

/// Everything that is shown of a replacement, in one place.
pub open spec fn replace_facts(
    before: Tree,
    after: Tree,
    outcome: ReplaceOutcome,
    victim: Seq<u8>,
    keeper: Seq<u8>,
    kind: LinkKind,
) -> bool {
    let victim_file = before.names[victim]->File_0;
    let keeper_file = before.names[keeper]->File_0;
    &&& !(outcome is Untouched)
    // No file disappears and no content changes.
    &&& after.nodes.dom() == before.nodes.dom()
    &&& forall|number: u64| #[trigger]
        before.nodes.contains_key(number) ==> after.nodes[number].content
            == before.nodes[number].content
    // Only the keeper's file can change at all.
    &&& forall|number: u64| #[trigger]
        before.nodes.contains_key(number) && number != keeper_file ==> after.nodes[number]
            == before.nodes[number]
    // Every other name stays what it was.
    &&& forall|path: Seq<u8>| #[trigger]
        before.names.contains_key(path) && path != victim ==> after.names.contains_key(path)
            && after.names[path] == before.names[path]
    // The victim's name is what it was, or the link, or gone.
    &&& after.names.contains_key(victim) ==> after.names[victim] == before.names[victim]
        || after.names[victim] == link_entry(before, keeper, kind)
    &&& match outcome {
        ReplaceOutcome::Replaced => {
            &&& after.names.dom() == before.names.dom()
            &&& after.names[victim] == link_entry(before, keeper, kind)
            &&& after.nodes[keeper_file].mode == before.nodes[victim_file].mode
            &&& after.nodes[keeper_file].uid == before.nodes[victim_file].uid
            &&& after.nodes[keeper_file].gid == before.nodes[victim_file].gid
        },
        ReplaceOutcome::Failed { cause, cleanup } => {
            &&& cause != ReplaceFailure::Rename ==> after.names.contains_key(victim)
                && after.names[victim] == before.names[victim]
            &&& cause == ReplaceFailure::Rename ==> !after.names.contains_key(victim)
            &&& cleanup != Cleanup::Left ==> after.names.dom().subset_of(before.names.dom())
        },
        ReplaceOutcome::Untouched => true,
    }
}

proof fn lemma_from_linking(tree: Tree, state: ActingView, fate: Seq<bool>)
    requires
        ready(tree, state.victim, state.keeper),
        state.stage == Stage::Linking,
        !tree.names.contains_key(state.temp),
    ensures
        ({
            let (after, outcome) = execute(tree, ReplaceStepView::Act(state), fate);
            replace_facts(tree, after, outcome, state.victim, state.keeper, state.kind)
        }),
{
    reveal_with_fuel(execute, 8);
    let victim = state.victim;
    let keeper = state.keeper;
    let temp = state.temp;
    assert(temp != victim);
    assert(temp != keeper);
    let (after, outcome) = execute(tree, ReplaceStepView::Act(state), fate);
    let f0 = fate.len() > 0 && fate[0];
    let fate1 = fate.drop_first();
    let f1 = fate1.len() > 0 && fate1[0];
    let fate2 = fate1.drop_first();
    let f2 = fate2.len() > 0 && fate2[0];
    let fate3 = fate2.drop_first();
    let f3 = fate3.len() > 0 && fate3[0];
    let fate4 = fate3.drop_first();
    let f4 = fate4.len() > 0 && fate4[0];
    let fate5 = fate4.drop_first();
    let f5 = fate5.len() > 0 && fate5[0];
    if f0 {
        let linked = tree.apply(state.action());
        assert(linked.names =~= tree.names.insert(temp, link_entry(tree, keeper, state.kind)));
        assert(linked.resolve(temp) == Some(tree.names[keeper]->File_0));
        assert(linked.resolve(victim) == Some(tree.names[victim]->File_0));
        assert(after.nodes.dom() =~= tree.nodes.dom());
        if f1 && f2 && f3 && f4 {
            assert(after.names.dom() =~= tree.names.dom());
        }
        match outcome {
            ReplaceOutcome::Failed { cause, cleanup } => {
                if cleanup != Cleanup::Left {
                    assert(after.names.dom().subset_of(tree.names.dom()));
                }
            },
            _ => {},
        }
    } else {
        assert(after == tree);
    }
}

proof fn lemma_from_naming(tree: Tree, state: NamingView, fate: Seq<bool>)
    requires
        ready(tree, state.victim, state.keeper),
    ensures
        ({
            let (after, outcome) = execute(tree, ReplaceStepView::Probe(state), fate);
            replace_facts(tree, after, outcome, state.victim, state.keeper, state.kind)
        }),
    decreases names_left(ReplaceStepView::Probe(state)),
{
    let exists = tree.names.contains_key(state.candidate());
    let then = probed_spec(state, exists);
    assert(execute(tree, ReplaceStepView::Probe(state), fate) == execute(tree, then, fate));
    match then {
        ReplaceStepView::Probe(next) => {
            lemma_from_naming(tree, next, fate);
        },
        ReplaceStepView::Act(next) => {
            lemma_from_linking(tree, next, fate);
        },
        ReplaceStepView::Finish(outcome) => {
            assert(execute(tree, then, fate) == (tree, outcome));
            assert(tree.names.dom().subset_of(tree.names.dom()));
        },
    }
}

/// The whole of what is shown of a replacement that is carried out,
/// whichever of its changes succeed.
pub proof fn lemma_replace(
    tree: Tree,
    victim: Seq<u8>,
    keeper: Seq<u8>,
    kind: LinkKind,
    fate: Seq<bool>,
)
    requires
        ready(tree, victim, keeper),
    ensures
        ({
            let (after, outcome) = execute(tree, make_link_spec(false, victim, keeper, kind), fate);
            replace_facts(tree, after, outcome, victim, keeper, kind)
        }),
{
    let step = make_link_spec(false, victim, keeper, kind);
    match step {
        ReplaceStepView::Probe(state) => {
            lemma_from_naming(tree, state, fate);
        },
        ReplaceStepView::Act(_) => {},
        ReplaceStepView::Finish(outcome) => {
            assert(execute(tree, step, fate) == (tree, outcome));
            assert(tree.names.dom().subset_of(tree.names.dom()));
        },
    }
}

/// No data loss.  Whatever a path gave to read before a replacement, some
/// path gives the same bytes afterwards: the path itself, or the keeper.
/// This holds however the replacement ends.
pub proof fn lemma_no_content_is_lost(
    tree: Tree,
    victim: Seq<u8>,
    keeper: Seq<u8>,
    kind: LinkKind,
    fate: Seq<bool>,
    path: Seq<u8>,
)
    requires
        ready(tree, victim, keeper),
        tree.content_at(path) is Some,
    ensures
        ({
            let after = execute(tree, make_link_spec(false, victim, keeper, kind), fate).0;
            &&& after.content_at(path) == tree.content_at(path) || after.content_at(keeper)
                == tree.content_at(path)
            &&& exists|other: Seq<u8>| #[trigger] after.content_at(other) == tree.content_at(path)
        }),
{
    lemma_replace(tree, victim, keeper, kind, fate);
    let after = execute(tree, make_link_spec(false, victim, keeper, kind), fate).0;
    assert(after.nodes.contains_key(tree.names[keeper]->File_0));
    assert(after.content_at(keeper) == tree.content_at(keeper));
    assert(after.nodes.contains_key(tree.resolve(path)->0));
    if path == victim {
    } else {
        match tree.names[path] {
            Entry::File(_) => {},
            Entry::Link(target) => {
                if target == victim {
                } else {
                    assert(after.names[target] == tree.names[target]);
                }
            },
        }
    }
}

/// Linking correctness.  After a replacement that succeeded, the victim's
/// path and the keeper's path name one underlying file, or the victim's
/// path is a symbolic link to the keeper's path.
pub proof fn lemma_victim_leads_to_keeper(
    tree: Tree,
    victim: Seq<u8>,
    keeper: Seq<u8>,
    kind: LinkKind,
    fate: Seq<bool>,
)
    requires
        ready(tree, victim, keeper),
    ensures
        ({
            let (after, outcome) = execute(tree, make_link_spec(false, victim, keeper, kind), fate);
            outcome is Replaced ==> {
                &&& after.names.contains_key(victim)
                &&& after.names.contains_key(keeper)
                &&& after.names[keeper] == tree.names[keeper]
                &&& kind == LinkKind::Hard ==> after.names[victim] == after.names[keeper]
                &&& kind == LinkKind::Symbolic ==> after.names[victim] == Entry::Link(keeper)
                &&& after.resolve(victim) == after.resolve(keeper)
            }
        }),
{
    lemma_replace(tree, victim, keeper, kind, fate);
}

/// Metadata preservation.  After a replacement that succeeded, the
/// victim's path shows the permissions, the owner and the group that it
/// showed before.
pub proof fn lemma_holder_is_kept(
    tree: Tree,
    victim: Seq<u8>,
    keeper: Seq<u8>,
    kind: LinkKind,
    fate: Seq<bool>,
)
    requires
        ready(tree, victim, keeper),
    ensures
        ({
            let (after, outcome) = execute(tree, make_link_spec(false, victim, keeper, kind), fate);
            outcome is Replaced ==> after.holder_at(victim) is Some && after.holder_at(victim)
                == tree.holder_at(victim)
        }),
{
    lemma_replace(tree, victim, keeper, kind, fate);
    let (after, outcome) = execute(tree, make_link_spec(false, victim, keeper, kind), fate);
    if outcome is Replaced {
        assert(after.names.contains_key(keeper));
        assert(after.nodes.contains_key(tree.names[keeper]->File_0));
    }
}

/// A failure before the rename leaves the victim's name on the victim's
/// file, and unless the removal of the temporary name failed too, no name is
/// left behind.
pub proof fn lemma_failure_spares_victim(
    tree: Tree,
    victim: Seq<u8>,
    keeper: Seq<u8>,
    kind: LinkKind,
    fate: Seq<bool>,
)
    requires
        ready(tree, victim, keeper),
    ensures
        ({
            let (after, outcome) = execute(tree, make_link_spec(false, victim, keeper, kind), fate);
            outcome matches ReplaceOutcome::Failed { cause, cleanup } ==> {
                &&& cause != ReplaceFailure::Rename ==> after.names.contains_key(victim)
                    && after.names[victim] == tree.names[victim]
                &&& cleanup != Cleanup::Left ==> after.names.dom().subset_of(tree.names.dom())
            }
        }),
{
    lemma_replace(tree, victim, keeper, kind, fate);
}

/// Scan-only non-mutation.  In a run that only scans, a replacement asks
/// for no change, and the tree stays as it is.
pub proof fn lemma_scan_only_changes_nothing(
    tree: Tree,
    victim: Seq<u8>,
    keeper: Seq<u8>,
    kind: LinkKind,
    fate: Seq<bool>,
)
    ensures
        make_link_spec(true, victim, keeper, kind) == ReplaceStepView::Finish(
            ReplaceOutcome::Untouched,
        ),
        execute(tree, make_link_spec(true, victim, keeper, kind), fate) == (
            tree,
            ReplaceOutcome::Untouched,
        ),
{
}

/// One replacement of a run: the name that is replaced, the name of its
/// keeper, the kind of link, and which of its changes succeed.
pub struct Job {
    pub victim: Seq<u8>,
    pub keeper: Seq<u8>,
    pub kind: LinkKind,
    pub fate: Seq<bool>,
}

/// The tree after the first `n` replacements of a run.
pub open spec fn tree_after(tree: Tree, jobs: Seq<Job>, n: nat) -> Tree
    decreases n,
{
    if n == 0 {
        tree
    } else {
        let job = jobs[n - 1];
        execute(
            tree_after(tree, jobs, (n - 1) as nat),
            make_link_spec(false, job.victim, job.keeper, job.kind),
            job.fate,
        ).0
    }
}

/// How the replacement at position `k` of a run ends.
pub open spec fn ended(tree: Tree, jobs: Seq<Job>, k: nat) -> ReplaceOutcome {
    let job = jobs[k as int];
    execute(
        tree_after(tree, jobs, k),
        make_link_spec(false, job.victim, job.keeper, job.kind),
        job.fate,
    ).1
}

/// Whether every replacement of a run meets a tree in which its victim and
/// its keeper are two names of two files with the same content.  This is
/// what the linker hands over when the comparisons tell the truth.
pub open spec fn all_ready(tree: Tree, jobs: Seq<Job>) -> bool {
    forall|k: nat|
        k < jobs.len() ==> ready(
            #[trigger] tree_after(tree, jobs, k),
            jobs[k as int].victim,
            jobs[k as int].keeper,
        )
}

/// No data loss over a run.  Whatever a path gave to read before the run,
/// some path gives the same bytes after any number of its replacements,
/// however each of them ends.
pub proof fn lemma_run_loses_no_content(tree: Tree, jobs: Seq<Job>, n: nat, path: Seq<u8>)
    requires
        all_ready(tree, jobs),
        n <= jobs.len(),
        tree.content_at(path) is Some,
    ensures
        exists|other: Seq<u8>| #[trigger]
            tree_after(tree, jobs, n).content_at(other) == tree.content_at(path),
    decreases n,
{
    if n == 0 {
        assert(tree_after(tree, jobs, n).content_at(path) == tree.content_at(path));
    } else {
        let m = (n - 1) as nat;
        lemma_run_loses_no_content(tree, jobs, m, path);
        let before = tree_after(tree, jobs, m);
        let held = choose|other: Seq<u8>| #[trigger]
            before.content_at(other) == tree.content_at(path);
        let job = jobs[m as int];
        assert(ready(before, job.victim, job.keeper));
        lemma_no_content_is_lost(before, job.victim, job.keeper, job.kind, job.fate, held);
        let after = tree_after(tree, jobs, n);
        if after.content_at(held) == before.content_at(held) {
            assert(after.content_at(held) == tree.content_at(path));
        } else {
            assert(after.content_at(job.keeper) == tree.content_at(path));
        }
    }
}

/// Whether `path` is the keeper of one of the first `n` replacements.
pub open spec fn kept_before(jobs: Seq<Job>, n: nat, path: Seq<u8>) -> bool {
    exists|i: int| 0 <= i < n && (#[trigger] jobs[i]).keeper == path
}

/// Whether no keeper of a run is the victim of one of its replacements: a
/// representative is never replaced.
pub open spec fn keepers_stay(jobs: Seq<Job>) -> bool {
    forall|i: int, j: int|
        0 <= i < jobs.len() && 0 <= j < jobs.len() ==> (#[trigger] jobs[i]).keeper != (
        #[trigger] jobs[j]).victim
}

/// Whether none of the first `n` replacements of `path` failed at the
/// rename, the one failure that leaves the path without a file.
pub open spec fn never_lost(tree: Tree, jobs: Seq<Job>, n: nat, path: Seq<u8>) -> bool {
    forall|k: nat|
        k < n && jobs[k as int].victim == path ==> !(#[trigger] ended(tree, jobs, k)
            matches ReplaceOutcome::Failed { cause: ReplaceFailure::Rename, .. })
}

proof fn lemma_own_path(tree: Tree, jobs: Seq<Job>, n: nat, path: Seq<u8>)
    requires
        all_ready(tree, jobs),
        keepers_stay(jobs),
        n <= jobs.len(),
        tree.names.contains_key(path),
        tree.names[path] is File,
        tree.content_at(path) is Some,
        never_lost(tree, jobs, n, path),
    ensures
        tree_after(tree, jobs, n).content_at(path) == tree.content_at(path),
        tree_after(tree, jobs, n).names.contains_key(path),
        tree_after(tree, jobs, n).names[path] matches Entry::Link(target) ==> kept_before(
            jobs,
            n,
            target,
        ),
    decreases n,
{
    if n > 0 {
        let m = (n - 1) as nat;
        assert forall|k: nat| k < m && jobs[k as int].victim == path implies !(#[trigger] ended(
            tree,
            jobs,
            k,
        ) matches ReplaceOutcome::Failed { cause: ReplaceFailure::Rename, .. }) by {
            assert(k < n);
        }
        lemma_own_path(tree, jobs, m, path);
        let before = tree_after(tree, jobs, m);
        let after = tree_after(tree, jobs, n);
        let job = jobs[m as int];
        assert(ready(before, job.victim, job.keeper));
        lemma_replace(before, job.victim, job.keeper, job.kind, job.fate);
        let outcome = ended(tree, jobs, m);
        assert(after.nodes.dom() == before.nodes.dom());
        if job.victim == path {
            assert(!(outcome matches ReplaceOutcome::Failed { cause: ReplaceFailure::Rename, .. }));
            assert(after.names[job.keeper] == before.names[job.keeper]);
            match outcome {
                ReplaceOutcome::Replaced => {
                    assert(after.names[path] == link_entry(before, job.keeper, job.kind));
                    if job.kind == LinkKind::Symbolic {
                        assert(jobs[m as int].keeper == job.keeper);
                        assert(kept_before(jobs, n, job.keeper));
                    }
                    assert(after.nodes.contains_key(before.names[job.keeper]->File_0));
                },
                _ => {},
            }
        } else {
            assert(after.names[path] == before.names[path]);
            match before.names[path] {
                Entry::File(number) => {
                    assert(before.nodes.contains_key(number));
                    assert(after.nodes.contains_key(number));
                },
                Entry::Link(target) => {
                    assert(kept_before(jobs, m, target));
                    let i = choose|i: int| 0 <= i < m && (#[trigger] jobs[i]).keeper == target;
                    assert(jobs[i].keeper != jobs[m as int].victim);
                    assert(0 <= i < n && jobs[i].keeper == target);
                    assert(before.names.contains_key(target));
                    assert(after.names[target] == before.names[target]);
                    assert(after.nodes.contains_key(before.resolve(path)->0));
                },
            }
        }
    }
}

/// A file keeps its content under its own path.  Let `path` name a regular
/// file before the run, let no representative be replaced, and let none of
/// the replacements of `path` fail at the rename.  Then after any number of
/// replacements `path` still gives the bytes that it gave before.
pub proof fn lemma_path_keeps_content(tree: Tree, jobs: Seq<Job>, n: nat, path: Seq<u8>)
    requires
        all_ready(tree, jobs),
        keepers_stay(jobs),
        n <= jobs.len(),
        tree.names.contains_key(path),
        tree.names[path] is File,
        tree.content_at(path) is Some,
        never_lost(tree, jobs, n, path),
    ensures
        tree_after(tree, jobs, n).content_at(path) == tree.content_at(path),
{
    lemma_own_path(tree, jobs, n, path);
}

} // verus!

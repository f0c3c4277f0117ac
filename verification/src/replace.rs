//! The replacement of one duplicate by a link to its keeper.
//!
//! The link is first made under a temporary name beside the victim, given
//! the victim's permissions and owner, and only then moved over the victim.
//! Each step is carried out by the caller, who reports whether it
//! succeeded; the order of the steps and what follows a failure are decided
//! here.  Until the victim is unlinked a failure leaves it as it was.
use vstd::prelude::*;
use vstd::slice::*;
use vstd::utf8::valid_utf8;
use crate::file::{temp_candidate, temp_name, TEMP_NAME_LAST};
use crate::linker::LinkKind;
use crate::options::Opts;

verus! {

/// One change to the file system that a replacement asks for.
#[derive(Debug)]
pub enum ReplaceAction {
    /// Make `temp` a link of the given kind to `keeper`.
    Link { kind: LinkKind, keeper: Vec<u8>, temp: Vec<u8> },
    /// Give `to` the permission bits of `from`.
    CopyPermissions { from: Vec<u8>, to: Vec<u8> },
    /// Give `to` the owner and the group of `from`.
    CopyOwner { from: Vec<u8>, to: Vec<u8> },
    /// Remove the name `path`.
    Unlink { path: Vec<u8> },
    /// Move the name `from` to `to`.
    Rename { from: Vec<u8>, to: Vec<u8> },
    /// Remove the temporary name `path` after a failure.
    Remove { path: Vec<u8> },
}

/// The mathematical value of a [`ReplaceAction`].
pub enum ReplaceActionView {
    Link { kind: LinkKind, keeper: Seq<u8>, temp: Seq<u8> },
    CopyPermissions { from: Seq<u8>, to: Seq<u8> },
    CopyOwner { from: Seq<u8>, to: Seq<u8> },
    Unlink { path: Seq<u8> },
    Rename { from: Seq<u8>, to: Seq<u8> },
    Remove { path: Seq<u8> },
}

impl View for ReplaceAction {
    type V = ReplaceActionView;

    open spec fn view(&self) -> ReplaceActionView {
        match *self {
            ReplaceAction::Link { kind, keeper, temp } => ReplaceActionView::Link {
                kind,
                keeper: keeper@,
                temp: temp@,
            },
            ReplaceAction::CopyPermissions { from, to } => ReplaceActionView::CopyPermissions {
                from: from@,
                to: to@,
            },
            ReplaceAction::CopyOwner { from, to } => ReplaceActionView::CopyOwner {
                from: from@,
                to: to@,
            },
            ReplaceAction::Unlink { path } => ReplaceActionView::Unlink { path: path@ },
            ReplaceAction::Rename { from, to } => ReplaceActionView::Rename {
                from: from@,
                to: to@,
            },
            ReplaceAction::Remove { path } => ReplaceActionView::Remove { path: path@ },
        }
    }
}

/// The step at which a replacement failed.
#[derive(Clone, Copy, Debug, PartialEq, Eq, Structural)]
pub enum ReplaceFailure {
    /// The victim's path is not valid Unicode, so it has no temporary name.
    NotUnicode,
    /// Every temporary name that was tried exists already.
    NoFreeName,
    Link,
    Permissions,
    Owner,
    Unlink,
    Rename,
}

/// What became of the temporary name after a failure.
#[derive(Clone, Copy, Debug, PartialEq, Eq, Structural)]
pub enum Cleanup {
    /// No temporary name had been made.
    NotNeeded,
    /// The temporary name was removed.
    Removed,
    /// The temporary name could not be removed and is still there.
    Left,
}

/// How a replacement ended.
#[derive(Clone, Copy, Debug, PartialEq, Eq, Structural)]
pub enum ReplaceOutcome {
    /// The run only scans: nothing was asked for.
    Untouched,
    /// The victim's path now names the link to the keeper.
    Replaced,
    /// A step failed.
    Failed { cause: ReplaceFailure, cleanup: Cleanup },
}

/// The step that a replacement is waiting for.
#[derive(Clone, Copy, Debug, PartialEq, Eq, Structural)]
pub enum Stage {
    Linking,
    CopyingPermissions,
    CopyingOwner,
    Unlinking,
    Renaming,
    /// Removing the temporary name because of this failure.
    CleaningUp(ReplaceFailure),
}

/// The mathematical value of a [`Naming`].
pub struct NamingView {
    pub victim: Seq<u8>,
    pub keeper: Seq<u8>,
    pub kind: LinkKind,
    pub attempt: nat,
}

/// The mathematical value of an [`Acting`].
pub struct ActingView {
    pub victim: Seq<u8>,
    pub keeper: Seq<u8>,
    pub kind: LinkKind,
    pub temp: Seq<u8>,
    pub stage: Stage,
}

/// The mathematical value of a [`ReplaceStep`].
pub enum ReplaceStepView {
    Probe(NamingView),
    Act(ActingView),
    Finish(ReplaceOutcome),
}

impl NamingView {
    /// The name whose existence is asked for.
    pub open spec fn candidate(self) -> Seq<u8> {
        temp_candidate(self.victim, self.attempt)
    }
}

impl ActingView {
    /// The change that is asked for at this stage.
    pub open spec fn action(self) -> ReplaceActionView {
        match self.stage {
            Stage::Linking => ReplaceActionView::Link {
                kind: self.kind,
                keeper: self.keeper,
                temp: self.temp,
            },
            Stage::CopyingPermissions => ReplaceActionView::CopyPermissions {
                from: self.victim,
                to: self.temp,
            },
            Stage::CopyingOwner => ReplaceActionView::CopyOwner {
                from: self.victim,
                to: self.temp,
            },
            Stage::Unlinking => ReplaceActionView::Unlink { path: self.victim },
            Stage::Renaming => ReplaceActionView::Rename { from: self.temp, to: self.victim },
            Stage::CleaningUp(_) => ReplaceActionView::Remove { path: self.temp },
        }
    }
}

/// The first step of a replacement.  A run that only scans asks for
/// nothing.  A victim whose path is not valid Unicode cannot be replaced.
/// Otherwise the first temporary name is tried.
pub open spec fn make_link_spec(
    scan_only: bool,
    victim: Seq<u8>,
    keeper: Seq<u8>,
    kind: LinkKind,
) -> ReplaceStepView {
    if scan_only {
        ReplaceStepView::Finish(ReplaceOutcome::Untouched)
    } else if !valid_utf8(victim) {
        ReplaceStepView::Finish(
            ReplaceOutcome::Failed { cause: ReplaceFailure::NotUnicode, cleanup: Cleanup::NotNeeded },
        )
    } else {
        ReplaceStepView::Probe(NamingView { victim, keeper, kind, attempt: 0 })
    }
}

/// The step after the answer whether the candidate exists.  A name that
/// does not exist is taken and the link is made under it.  One that exists
/// is followed by the next number, until the numbers run out.
pub open spec fn probed_spec(state: NamingView, exists: bool) -> ReplaceStepView {
    if !exists {
        ReplaceStepView::Act(
            ActingView {
                victim: state.victim,
                keeper: state.keeper,
                kind: state.kind,
                temp: state.candidate(),
                stage: Stage::Linking,
            },
        )
    } else if state.attempt < TEMP_NAME_LAST {
        ReplaceStepView::Probe(NamingView { attempt: state.attempt + 1, ..state })
    } else {
        ReplaceStepView::Finish(
            ReplaceOutcome::Failed { cause: ReplaceFailure::NoFreeName, cleanup: Cleanup::NotNeeded },
        )
    }
}

/// The step after a change was tried.  Success leads to the next change in
/// the order link, permissions, owner, unlink, rename.  A link that could
/// not be made ends the replacement; any later failure is followed by the
/// removal of the temporary name, and then ends it.
pub open spec fn done_spec(state: ActingView, success: bool) -> ReplaceStepView {
    match state.stage {
        Stage::Linking => if success {
            ReplaceStepView::Act(ActingView { stage: Stage::CopyingPermissions, ..state })
        } else {
            ReplaceStepView::Finish(
                ReplaceOutcome::Failed { cause: ReplaceFailure::Link, cleanup: Cleanup::NotNeeded },
            )
        },
        Stage::CopyingPermissions => if success {
            ReplaceStepView::Act(ActingView { stage: Stage::CopyingOwner, ..state })
        } else {
            ReplaceStepView::Act(
                ActingView { stage: Stage::CleaningUp(ReplaceFailure::Permissions), ..state },
            )
        },
        Stage::CopyingOwner => if success {
            ReplaceStepView::Act(ActingView { stage: Stage::Unlinking, ..state })
        } else {
            ReplaceStepView::Act(
                ActingView { stage: Stage::CleaningUp(ReplaceFailure::Owner), ..state },
            )
        },
        Stage::Unlinking => if success {
            ReplaceStepView::Act(ActingView { stage: Stage::Renaming, ..state })
        } else {
            ReplaceStepView::Act(
                ActingView { stage: Stage::CleaningUp(ReplaceFailure::Unlink), ..state },
            )
        },
        Stage::Renaming => if success {
            ReplaceStepView::Finish(ReplaceOutcome::Replaced)
        } else {
            ReplaceStepView::Act(
                ActingView { stage: Stage::CleaningUp(ReplaceFailure::Rename), ..state },
            )
        },
        Stage::CleaningUp(cause) => ReplaceStepView::Finish(
            ReplaceOutcome::Failed {
                cause,
                cleanup: if success {
                    Cleanup::Removed
                } else {
                    Cleanup::Left
                },
            },
        ),
    }
}

/// A replacement that is looking for a free temporary name.
#[derive(Debug)]
pub struct Naming {
    victim: Vec<u8>,
    keeper: Vec<u8>,
    kind: LinkKind,
    attempt: u32,
    candidate: Vec<u8>,
}

/// A replacement that has its temporary name and is waiting for the result
/// of one change.
#[derive(Debug)]
pub struct Acting {
    victim: Vec<u8>,
    keeper: Vec<u8>,
    kind: LinkKind,
    temp: Vec<u8>,
    stage: Stage,
}

/// What the caller does next for a replacement, together with the state
/// that takes the result.
#[derive(Debug)]
pub enum ReplaceStep {
    /// Find out whether [`Naming::candidate`] exists, then call
    /// [`Naming::probed`].
    Probe(Naming),
    /// Carry out [`Acting::action`], then call [`Acting::done`].
    Act(Acting),
    /// The replacement has ended.
    Finish(ReplaceOutcome),
}

impl Naming {
    /// The victim has a temporary name, and the candidate is the one for
    /// the attempt.
    #[verifier::type_invariant]
    spec fn wf(&self) -> bool {
        &&& self.candidate@ == temp_candidate(self.victim@, self.attempt as nat)
        &&& valid_utf8(self.victim@)
    }
}

impl View for Naming {
    type V = NamingView;

    closed spec fn view(&self) -> NamingView {
        NamingView {
            victim: self.victim@,
            keeper: self.keeper@,
            kind: self.kind,
            attempt: self.attempt as nat,
        }
    }
}

impl View for Acting {
    type V = ActingView;

    closed spec fn view(&self) -> ActingView {
        ActingView {
            victim: self.victim@,
            keeper: self.keeper@,
            kind: self.kind,
            temp: self.temp@,
            stage: self.stage,
        }
    }
}

impl View for ReplaceStep {
    type V = ReplaceStepView;

    open spec fn view(&self) -> ReplaceStepView {
        match *self {
            ReplaceStep::Probe(state) => ReplaceStepView::Probe(state@),
            ReplaceStep::Act(state) => ReplaceStepView::Act(state@),
            ReplaceStep::Finish(outcome) => ReplaceStepView::Finish(outcome),
        }
    }
}

/// Begins the replacement of `victim` by a link of the given kind to
/// `keeper`.
pub fn make_link(opts: &Opts, victim: &[u8], keeper: &[u8], kind: LinkKind) -> (step: ReplaceStep)
    ensures
        step@ == make_link_spec(opts.scan_only, victim@, keeper@, kind),
{
    if opts.scan_only {
        return ReplaceStep::Finish(ReplaceOutcome::Untouched);
    }
    match temp_name(victim, 0) {
        Err(_) => ReplaceStep::Finish(
            ReplaceOutcome::Failed { cause: ReplaceFailure::NotUnicode, cleanup: Cleanup::NotNeeded },
        ),
        Ok(candidate) => ReplaceStep::Probe(
            Naming {
                victim: slice_to_vec(victim),
                keeper: slice_to_vec(keeper),
                kind,
                attempt: 0,
                candidate,
            },
        ),
    }
}

impl Naming {
    /// The name whose existence is to be found out.
    pub fn candidate(&self) -> (candidate: &Vec<u8>)
        ensures
            candidate@ == self@.candidate(),
    {
        proof {
            use_type_invariant(self);
        }
        &self.candidate
    }

    /// Takes the answer whether [`Naming::candidate`] exists.
    pub fn probed(self, exists: bool) -> (step: ReplaceStep)
        ensures
            step@ == probed_spec(self@, exists),
    {
        proof {
            use_type_invariant(&self);
        }
        if !exists {
            ReplaceStep::Act(
                Acting {
                    victim: self.victim,
                    keeper: self.keeper,
                    kind: self.kind,
                    temp: self.candidate,
                    stage: Stage::Linking,
                },
            )
        } else if self.attempt < TEMP_NAME_LAST {
            let attempt = self.attempt + 1;
            match temp_name(self.victim.as_slice(), attempt) {
                Ok(candidate) => ReplaceStep::Probe(
                    Naming {
                        victim: self.victim,
                        keeper: self.keeper,
                        kind: self.kind,
                        attempt,
                        candidate,
                    },
                ),
                Err(_) => ReplaceStep::Finish(
                    ReplaceOutcome::Failed {
                        cause: ReplaceFailure::NotUnicode,
                        cleanup: Cleanup::NotNeeded,
                    },
                ),
            }
        } else {
            ReplaceStep::Finish(
                ReplaceOutcome::Failed {
                    cause: ReplaceFailure::NoFreeName,
                    cleanup: Cleanup::NotNeeded,
                },
            )
        }
    }
}

impl Acting {
    /// The change to carry out now.
    pub fn action(&self) -> (action: ReplaceAction)
        ensures
            action@ == self@.action(),
    {
        match self.stage {
            Stage::Linking => ReplaceAction::Link {
                kind: self.kind,
                keeper: self.keeper.clone(),
                temp: self.temp.clone(),
            },
            Stage::CopyingPermissions => ReplaceAction::CopyPermissions {
                from: self.victim.clone(),
                to: self.temp.clone(),
            },
            Stage::CopyingOwner => ReplaceAction::CopyOwner {
                from: self.victim.clone(),
                to: self.temp.clone(),
            },
            Stage::Unlinking => ReplaceAction::Unlink { path: self.victim.clone() },
            Stage::Renaming => ReplaceAction::Rename {
                from: self.temp.clone(),
                to: self.victim.clone(),
            },
            Stage::CleaningUp(_) => ReplaceAction::Remove { path: self.temp.clone() },
        }
    }

    /// Takes the result of [`Acting::action`].
    pub fn done(self, success: bool) -> (step: ReplaceStep)
        ensures
            step@ == done_spec(self@, success),
    {
        let next = match self.stage {
            Stage::Linking => if success {
                Stage::CopyingPermissions
            } else {
                return ReplaceStep::Finish(
                    ReplaceOutcome::Failed {
                        cause: ReplaceFailure::Link,
                        cleanup: Cleanup::NotNeeded,
                    },
                );
            },
            Stage::CopyingPermissions => if success {
                Stage::CopyingOwner
            } else {
                Stage::CleaningUp(ReplaceFailure::Permissions)
            },
            Stage::CopyingOwner => if success {
                Stage::Unlinking
            } else {
                Stage::CleaningUp(ReplaceFailure::Owner)
            },
            Stage::Unlinking => if success {
                Stage::Renaming
            } else {
                Stage::CleaningUp(ReplaceFailure::Unlink)
            },
            Stage::Renaming => if success {
                return ReplaceStep::Finish(ReplaceOutcome::Replaced);
            } else {
                Stage::CleaningUp(ReplaceFailure::Rename)
            },
            Stage::CleaningUp(cause) => {
                return ReplaceStep::Finish(
                    ReplaceOutcome::Failed {
                        cause,
                        cleanup: if success {
                            Cleanup::Removed
                        } else {
                            Cleanup::Left
                        },
                    },
                );
            },
        };
        ReplaceStep::Act(
            Acting {
                victim: self.victim,
                keeper: self.keeper,
                kind: self.kind,
                temp: self.temp,
                stage: next,
            },
        )
    }
}

} // verus!

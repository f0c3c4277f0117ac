//! What is reported of a file once it is settled, and of a replacement
//! once it has ended.
use vstd::prelude::*;
use vstd::string::*;
use crate::echo::{
    checked, done, error_message, error_text, event_text, found, pair_text, reason_word, skip,
    Event, Level, PathInfo, PathInfoView,
};
use crate::err::{Error, ErrorView};
use crate::index::IndexModel;
use crate::linker::{keeper_of, lemma_settle, settle, LinkKind, LinkOutcome, LinkOutcomeView};
use crate::options::Opts;
use crate::replace::{
    make_link_spec, Cleanup, ReplaceFailure, ReplaceOutcome, ReplaceStepView,
};

verus! {

/// One message for the log, with its level.
#[derive(Debug)]
pub struct Notice {
    pub level: Level,
    pub text: String,
}

/// The mathematical value of a [`Notice`].
pub struct NoticeView {
    pub level: Level,
    pub text: Seq<char>,
}

impl View for Notice {
    type V = NoticeView;

    open spec fn view(&self) -> NoticeView {
        NoticeView { level: self.level, text: self.text@ }
    }
}

/// The value of a notice that may be absent.
pub open spec fn said(notice: Option<Notice>) -> Option<NoticeView> {
    match notice {
        Some(notice) => Some(notice@),
        None => None,
    }
}

/// The error that is reported for a file on another file system.
pub open spec fn foreign_file() -> ErrorView {
    ErrorView::Unspecified("file on another file system"@)
}

/// What is reported of a file when the linker has settled it.  A skip, a
/// file that is linked already and a new representative are reported with
/// the files, a rejection as an error, a duplicate in a scanning run as
/// found.  Nothing is reported here of a file that was dropped, whose error
/// the caller has seen, nor of one that is to be replaced, which the
/// replacement reports.
pub open spec fn link_notice_spec(victim: PathInfoView, outcome: LinkOutcomeView) -> Option<
    NoticeView,
> {
    match outcome {
        LinkOutcomeView::Skipped(reason) => Some(
            NoticeView {
                level: Level::File,
                text: event_text(Event::Skip.mark(false) + " "@ + reason_word(reason), victim),
            },
        ),
        LinkOutcomeView::Rejected => Some(
            NoticeView { level: Level::Error, text: error_text(foreign_file(), Some(victim)) },
        ),
        LinkOutcomeView::Dropped => None,
        LinkOutcomeView::AlreadyLinked => Some(
            NoticeView {
                level: Level::File,
                text: event_text(Event::ReadFile.mark(false), victim),
            },
        ),
        LinkOutcomeView::Unique => Some(
            NoticeView {
                level: Level::File,
                text: event_text(Event::ReadFile.mark(false), victim),
            },
        ),
        LinkOutcomeView::Found { keeper } => Some(
            NoticeView {
                level: Level::Change,
                text: pair_text(Event::Change.mark(true), victim, keeper),
            },
        ),
        LinkOutcomeView::Replace { keeper, kind } => None,
    }
}

/// Writes what is reported of a file that the linker has settled.
pub fn link_notice(victim: &PathInfo, outcome: &LinkOutcome) -> (notice: Option<Notice>)
    ensures
        said(notice) == link_notice_spec(victim@, outcome@),
{
    match outcome {
        LinkOutcome::Skipped(reason) => Some(
            Notice { level: Level::File, text: skip(*reason, victim, None) },
        ),
        LinkOutcome::Rejected => {
            let error = Error::Unspecified("file on another file system".to_owned());
            Some(Notice { level: Level::Error, text: error_message(&error, Some(victim)) })
        },
        LinkOutcome::Dropped => None,
        LinkOutcome::AlreadyLinked => Some(Notice { level: Level::File, text: checked(victim) }),
        LinkOutcome::Unique => Some(Notice { level: Level::File, text: checked(victim) }),
        LinkOutcome::Found { keeper } => Some(
            Notice { level: Level::Change, text: found(victim, keeper) },
        ),
        LinkOutcome::Replace { keeper, kind } => None,
    }
}

/// The words for the step at which a replacement failed.
pub open spec fn cause_words(cause: ReplaceFailure) -> Seq<char> {
    match cause {
        ReplaceFailure::NotUnicode => "the path is not Unicode"@,
        ReplaceFailure::NoFreeName => "no temporary name is free"@,
        ReplaceFailure::Link => "the link could not be made"@,
        ReplaceFailure::Permissions => "the permissions could not be copied"@,
        ReplaceFailure::Owner => "the owner could not be copied"@,
        ReplaceFailure::Unlink => "the file could not be removed"@,
        ReplaceFailure::Rename => "the link could not be moved into place"@,
    }
}

/// The words for what became of the temporary name.
pub open spec fn cleanup_words(cleanup: Cleanup) -> Seq<char> {
    match cleanup {
        Cleanup::NotNeeded => ""@,
        Cleanup::Removed => "; the temporary name was removed"@,
        Cleanup::Left => "; the temporary name is left behind"@,
    }
}

/// The error that is reported for a replacement that failed.
pub open spec fn replace_failed(cause: ReplaceFailure, cleanup: Cleanup) -> ErrorView {
    ErrorView::Unspecified("replacement failed: "@ + cause_words(cause) + cleanup_words(cleanup))
}

/// What is reported of a replacement when it has ended: found where
/// nothing was touched, done where the victim was replaced, and an error
/// that names the step where one failed.
pub open spec fn replace_notice_spec(
    victim: PathInfoView,
    keeper: PathInfoView,
    outcome: ReplaceOutcome,
) -> NoticeView {
    match outcome {
        ReplaceOutcome::Untouched => NoticeView {
            level: Level::Change,
            text: pair_text(Event::Change.mark(true), victim, keeper),
        },
        ReplaceOutcome::Replaced => NoticeView {
            level: Level::Change,
            text: pair_text(Event::Change.mark(false), victim, keeper),
        },
        ReplaceOutcome::Failed { cause, cleanup } => NoticeView {
            level: Level::Error,
            text: error_text(replace_failed(cause, cleanup), Some(victim)),
        },
    }
}

/// Writes what is reported of a replacement that has ended.
pub fn replace_notice(victim: &PathInfo, keeper: &PathInfo, outcome: ReplaceOutcome) -> (notice:
    Notice)
    ensures
        notice@ == replace_notice_spec(victim@, keeper@, outcome),
{
    match outcome {
        ReplaceOutcome::Untouched => Notice { level: Level::Change, text: found(victim, keeper) },
        ReplaceOutcome::Replaced => Notice { level: Level::Change, text: done(victim, keeper) },
        ReplaceOutcome::Failed { cause, cleanup } => {
            let mut words = String::new();
            words.append("replacement failed: ");
            words.append(
                match cause {
                    ReplaceFailure::NotUnicode => "the path is not Unicode",
                    ReplaceFailure::NoFreeName => "no temporary name is free",
                    ReplaceFailure::Link => "the link could not be made",
                    ReplaceFailure::Permissions => "the permissions could not be copied",
                    ReplaceFailure::Owner => "the owner could not be copied",
                    ReplaceFailure::Unlink => "the file could not be removed",
                    ReplaceFailure::Rename => "the link could not be moved into place",
                },
            );
            words.append(
                match cleanup {
                    Cleanup::NotNeeded => "",
                    Cleanup::Removed => "; the temporary name was removed",
                    Cleanup::Left => "; the temporary name is left behind",
                },
            );
            assert(words@ =~= "replacement failed: "@ + cause_words(cause) + cleanup_words(
                cleanup,
            ));
            let error = Error::Unspecified(words);
            Notice { level: Level::Error, text: error_message(&error, Some(victim)) }
        },
    }
}

/// The message for a duplicate that was found is never the message for one
/// that was replaced.
pub proof fn lemma_found_is_not_done(victim: PathInfoView, keeper: PathInfoView)
    ensures
        pair_text(Event::Change.mark(true), victim, keeper) != pair_text(
            Event::Change.mark(false),
            victim,
            keeper,
        ),
{
    reveal_strlit("found");
    reveal_strlit("done");
    let one = pair_text(Event::Change.mark(true), victim, keeper);
    let other = pair_text(Event::Change.mark(false), victim, keeper);
    assert(one[0] == 'f');
    assert(other[0] == 'd');
}

/// The report of a scanning run.  When a run that only scans settles a
/// file as a duplicate, exactly one notice is due: the change "found" that
/// names the file and its keeper.  A replacement that is begun all the same
/// asks for nothing and ends with the same notice.  The notice "done" is
/// due in neither case.
pub proof fn lemma_scan_only_reports_found(
    opts: Opts,
    index: IndexModel,
    victim: PathInfoView,
    hash: Option<u64>,
    verdicts: Seq<Option<bool>>,
    kind: LinkKind,
)
    requires
        opts.scan_only,
        index.wf(),
        keeper_of(settle(opts, index, victim, hash, verdicts).1) is Some,
    ensures
        ({
            let outcome = settle(opts, index, victim, hash, verdicts).1;
            let keeper = keeper_of(outcome)->0;
            let notice = NoticeView {
                level: Level::Change,
                text: pair_text("found"@, victim, keeper),
            };
            &&& settle(opts, index, victim, hash, verdicts).0 == index
            &&& link_notice_spec(victim, outcome) == Some(notice)
            &&& make_link_spec(opts.scan_only, victim.path, keeper.path, kind)
                == ReplaceStepView::Finish(ReplaceOutcome::Untouched)
            &&& replace_notice_spec(victim, keeper, ReplaceOutcome::Untouched) == notice
            &&& notice.text != pair_text("done"@, victim, keeper)
        }),
{
    lemma_settle(opts, index, victim, hash, verdicts);
    let outcome = settle(opts, index, victim, hash, verdicts).1;
    lemma_found_is_not_done(victim, keeper_of(outcome)->0);
}

} // verus!

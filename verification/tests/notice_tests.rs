use dedup::echo::{Level, PathInfo, SkipReason};
use dedup::linker::{LinkKind, LinkOutcome};
use dedup::notice::{link_notice, replace_notice};
use dedup::options::{ErrorMode, ExternalFSMode, Opts, SymlinkMode};
use dedup::probe::{FileKind, MetadataRecord};
use dedup::replace::{make_link, Cleanup, ReplaceFailure, ReplaceOutcome, ReplaceStep};

fn info(path: &str, inode: u64) -> PathInfo {
    PathInfo::new(
        path.as_bytes().to_vec(),
        MetadataRecord {
            device_id: 1,
            inode,
            size: 5,
            kind: FileKind::Regular,
            mode: 0o644,
            uid: 1,
            gid: 1,
        },
    )
}

fn scanning() -> Opts {
    Opts {
        on_error: ErrorMode::Warning,
        scan_only: true,
        summary: true,
        on_symlink: SymlinkMode::Ignore,
        use_symlinks: false,
        on_external_fs: ExternalFSMode::Group,
        primary_fs: None,
        ignore_less: 1,
        buffer_size: 16,
        exclude: Vec::new(),
        paths: vec![b"/t".to_vec()],
        primary_fs_dev: None,
    }
}

#[test]
fn link_notices_for_each_outcome() {
    let b = info("/t/b.txt", 11);
    let notice = link_notice(&b, &LinkOutcome::Skipped(SkipReason::SmallSize)).unwrap();
    assert_eq!((notice.level, notice.text.as_str()), (Level::File, "skip small /t/b.txt"));
    let notice = link_notice(&b, &LinkOutcome::Rejected).unwrap();
    assert_eq!(
        (notice.level, notice.text.as_str()),
        (Level::Error, "Unspecified Error: file on another file system at /t/b.txt")
    );
    assert!(link_notice(&b, &LinkOutcome::Dropped).is_none());
    let notice = link_notice(&b, &LinkOutcome::AlreadyLinked).unwrap();
    assert_eq!((notice.level, notice.text.as_str()), (Level::File, "file /t/b.txt"));
    let notice = link_notice(&b, &LinkOutcome::Unique).unwrap();
    assert_eq!((notice.level, notice.text.as_str()), (Level::File, "file /t/b.txt"));
    let notice = link_notice(&b, &LinkOutcome::Found { keeper: info("/t/a.txt", 10) }).unwrap();
    assert_eq!(
        (notice.level, notice.text.as_str()),
        (Level::Change, "found /t/b.txt to /t/a.txt")
    );
    let replace = LinkOutcome::Replace { keeper: info("/t/a.txt", 10), kind: LinkKind::Hard };
    assert!(link_notice(&b, &replace).is_none());
}

#[test]
fn replace_notices_for_each_outcome() {
    let a = info("/t/a.txt", 10);
    let b = info("/t/b.txt", 11);
    let notice = replace_notice(&b, &a, ReplaceOutcome::Untouched);
    assert_eq!(
        (notice.level, notice.text.as_str()),
        (Level::Change, "found /t/b.txt to /t/a.txt")
    );
    let notice = replace_notice(&b, &a, ReplaceOutcome::Replaced);
    assert_eq!(
        (notice.level, notice.text.as_str()),
        (Level::Change, "done /t/b.txt to /t/a.txt")
    );
    let failed = ReplaceOutcome::Failed { cause: ReplaceFailure::Owner, cleanup: Cleanup::Removed };
    let notice = replace_notice(&b, &a, failed);
    assert_eq!(notice.level, Level::Error);
    assert_eq!(
        notice.text,
        "Unspecified Error: replacement failed: the owner could not be copied; \
         the temporary name was removed at /t/b.txt"
    );
}

#[test]
fn replace_notice_words_for_each_failure() {
    let a = info("/t/a.txt", 10);
    let b = info("/t/b.txt", 11);
    let cases = [
        (ReplaceFailure::NotUnicode, "the path is not Unicode"),
        (ReplaceFailure::NoFreeName, "no temporary name is free"),
        (ReplaceFailure::Link, "the link could not be made"),
        (ReplaceFailure::Permissions, "the permissions could not be copied"),
        (ReplaceFailure::Owner, "the owner could not be copied"),
        (ReplaceFailure::Unlink, "the file could not be removed"),
        (ReplaceFailure::Rename, "the link could not be moved into place"),
    ];
    for (cause, words) in cases {
        let plain = replace_notice(&b, &a, ReplaceOutcome::Failed { cause, cleanup: Cleanup::NotNeeded });
        assert_eq!(
            plain.text,
            format!("Unspecified Error: replacement failed: {} at /t/b.txt", words)
        );
        let left = replace_notice(&b, &a, ReplaceOutcome::Failed { cause, cleanup: Cleanup::Left });
        assert_eq!(
            left.text,
            format!(
                "Unspecified Error: replacement failed: {}; the temporary name is left behind at /t/b.txt",
                words
            )
        );
    }
}

#[test]
fn scanning_run_reports_found_and_never_done() {
    let a = info("/t/a.txt", 10);
    let b = info("/t/b.txt", 11);
    let ended = match make_link(&scanning(), &b.path, &a.path, LinkKind::Hard) {
        ReplaceStep::Finish(outcome) => outcome,
        other => panic!("unexpected: {:?}", other),
    };
    assert_eq!(ended, ReplaceOutcome::Untouched);
    let notice = replace_notice(&b, &a, ended);
    assert_eq!(notice.level, Level::Change);
    assert_eq!(notice.text, "found /t/b.txt to /t/a.txt");
    assert!(notice.text.contains("/t/a.txt") && notice.text.contains("/t/b.txt"));
    assert!(!notice.text.starts_with("done"));
}

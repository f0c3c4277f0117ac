use dedup::echo::SkipReason;
use dedup::options::{ErrorMode, ExternalFSMode, Opts, SymlinkMode};
use dedup::probe::{FileKind, MetadataRecord};
use dedup::process::{entry_covers, is_excluded, process_path, WalkAction, Walker};

fn settings() -> Opts {
    Opts {
        on_error: ErrorMode::Warning,
        scan_only: false,
        summary: true,
        on_symlink: SymlinkMode::Ignore,
        use_symlinks: false,
        on_external_fs: ExternalFSMode::Group,
        primary_fs: None,
        ignore_less: 1,
        buffer_size: 16,
        exclude: vec![b"/t/out".to_vec()],
        paths: vec![b"/t".to_vec()],
        primary_fs_dev: None,
    }
}

fn node(kind: FileKind, inode: u64) -> Option<MetadataRecord> {
    Some(MetadataRecord { device_id: 1, inode, size: 5, kind, mode: 0o644, uid: 1, gid: 1 })
}

#[test]
fn entry_covers_itself_and_what_lies_below() {
    assert!(entry_covers(b"/t/out", b"/t/out"));
    assert!(entry_covers(b"/t/out", b"/t/out/a"));
    assert!(entry_covers(b"/t/out", b"/t/out/a/b.txt"));
    assert!(entry_covers(b"/t/out/", b"/t/out/a"));
    assert!(entry_covers(b"/", b"/anything"));
    assert!(entry_covers(b"/", b"/"));
}

#[test]
fn entry_does_not_cover_siblings_or_parents() {
    assert!(!entry_covers(b"/t/out", b"/t/outer"));
    assert!(!entry_covers(b"/t/out", b"/t/ou"));
    assert!(!entry_covers(b"/t/out", b"/t"));
    assert!(!entry_covers(b"/t/out", b"/x/out"));
    assert!(!entry_covers(b"/t/out/", b"/t/out"));
    assert!(!entry_covers(b"", b"/t"));
    assert!(entry_covers(b"", b""));
}

#[test]
fn is_excluded_looks_at_every_entry() {
    let excludes = vec![b"/a".to_vec(), b"/b/c".to_vec()];
    assert!(is_excluded(&excludes, b"/a"));
    assert!(is_excluded(&excludes, b"/a/x"));
    assert!(is_excluded(&excludes, b"/b/c/d"));
    assert!(!is_excluded(&excludes, b"/b"));
    assert!(!is_excluded(&excludes, b"/b/cd"));
    assert!(!is_excluded(&Vec::new(), b"/a"));
}

#[test]
fn unreadable_node_fails() {
    let mut walker = Walker::new();
    assert_eq!(process_path(&mut walker, &settings(), b"/t/a", None), WalkAction::Fail);
}

#[test]
fn excluded_node_is_skipped_whatever_it_is() {
    let mut walker = Walker::new();
    for kind in [FileKind::Regular, FileKind::Directory, FileKind::Symlink, FileKind::Other] {
        assert_eq!(
            process_path(&mut walker, &settings(), b"/t/out/x", node(kind, 7)),
            WalkAction::Skip(SkipReason::Exclude)
        );
    }
    assert_eq!(
        process_path(&mut walker, &settings(), b"/t/in", node(FileKind::Directory, 7)),
        WalkAction::Descend
    );
}

#[test]
fn directory_is_entered_once_per_walk() {
    let mut walker = Walker::new();
    assert_eq!(
        process_path(&mut walker, &settings(), b"/t", node(FileKind::Directory, 1)),
        WalkAction::Descend
    );
    assert_eq!(
        process_path(&mut walker, &settings(), b"/t/d", node(FileKind::Directory, 2)),
        WalkAction::Descend
    );
    assert_eq!(
        process_path(&mut walker, &settings(), b"/t/d/up", node(FileKind::Directory, 1)),
        WalkAction::Skip(SkipReason::Visited)
    );
    let mut other = Walker::new();
    assert_eq!(
        process_path(&mut other, &settings(), b"/t", node(FileKind::Directory, 1)),
        WalkAction::Descend
    );
}

#[test]
fn directories_on_other_devices_are_other_directories() {
    let mut walker = Walker::new();
    let here = Some(MetadataRecord {
        device_id: 1,
        inode: 2,
        size: 0,
        kind: FileKind::Directory,
        mode: 0o755,
        uid: 0,
        gid: 0,
    });
    let there = Some(MetadataRecord {
        device_id: 2,
        inode: 1,
        size: 0,
        kind: FileKind::Directory,
        mode: 0o755,
        uid: 0,
        gid: 0,
    });
    assert_eq!(process_path(&mut walker, &settings(), b"/t", here), WalkAction::Descend);
    assert_eq!(process_path(&mut walker, &settings(), b"/m", there), WalkAction::Descend);
    assert_eq!(process_path(&mut walker, &settings(), b"/m", there), WalkAction::Skip(SkipReason::Visited));
}

#[test]
fn links_follow_the_setting() {
    let mut walker = Walker::new();
    let mut opts = settings();
    assert_eq!(
        process_path(&mut walker, &opts, b"/t/l", node(FileKind::Symlink, 3)),
        WalkAction::Skip(SkipReason::Symlink)
    );
    opts.on_symlink = SymlinkMode::Follow;
    assert_eq!(process_path(&mut walker, &opts, b"/t/l", node(FileKind::Symlink, 3)), WalkAction::Follow);
    opts.on_symlink = SymlinkMode::Process;
    assert_eq!(
        process_path(&mut walker, &opts, b"/t/l", node(FileKind::Symlink, 3)),
        WalkAction::Skip(SkipReason::Symlink)
    );
}

#[test]
fn files_go_to_the_linker_and_the_rest_is_skipped() {
    let mut walker = Walker::new();
    assert_eq!(
        process_path(&mut walker, &settings(), b"/t/a", node(FileKind::Regular, 3)),
        WalkAction::Link
    );
    assert_eq!(
        process_path(&mut walker, &settings(), b"/t/sock", node(FileKind::Other, 4)),
        WalkAction::Skip(SkipReason::Special)
    );
}

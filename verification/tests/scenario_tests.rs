use dedup::context::DedupContext;
use dedup::echo::{found, PathInfo, SkipReason};
use dedup::file::{compare_content, crc64};
use dedup::linker::{process_file, LinkKind, LinkOutcome, LinkStep};
use dedup::options::{ErrorMode, ExternalFSMode, Opts, SymlinkMode};
use dedup::probe::{FileKind, MetadataRecord};
use dedup::process::{process_path, WalkAction, Walker};
use dedup::replace::{make_link, ReplaceAction, ReplaceOutcome, ReplaceStep};
use std::collections::BTreeMap;

#[derive(Clone, Debug, PartialEq)]
enum Name {
    Dir(u64, u64),
    File(u64, u64),
    Link(Vec<u8>),
}

#[derive(Clone, Debug, PartialEq)]
struct Node {
    content: Vec<u8>,
    mode: u32,
    uid: u32,
    gid: u32,
}

#[derive(Clone, Debug, PartialEq)]
struct Disk {
    names: BTreeMap<Vec<u8>, Name>,
    nodes: BTreeMap<(u64, u64), Node>,
    refuse: Option<&'static str>,
}

struct Report {
    outcomes: Vec<(Vec<u8>, String)>,
    skipped: Vec<(Vec<u8>, SkipReason)>,
    messages: Vec<String>,
    changes: Vec<String>,
    replaced: Vec<(Vec<u8>, Vec<u8>)>,
}

impl Disk {
    fn new() -> Disk {
        let mut names = BTreeMap::new();
        names.insert(b"/t".to_vec(), Name::Dir(1, 1));
        Disk { names, nodes: BTreeMap::new(), refuse: None }
    }

    fn file(&mut self, path: &str, device: u64, inode: u64, content: &str, mode: u32, uid: u32) {
        self.names.insert(path.as_bytes().to_vec(), Name::File(device, inode));
        self.nodes.entry((device, inode)).or_insert(Node {
            content: content.as_bytes().to_vec(),
            mode,
            uid,
            gid: uid,
        });
    }

    fn inode(&self, path: &str) -> (u64, u64) {
        match self.names.get(path.as_bytes()) {
            Some(Name::File(device, inode)) => (*device, *inode),
            other => panic!("not a file: {:?}", other),
        }
    }

    fn resolve(&self, path: &[u8]) -> Option<(u64, u64)> {
        match self.names.get(path) {
            Some(Name::File(device, inode)) => Some((*device, *inode)),
            Some(Name::Link(target)) => match self.names.get(target) {
                Some(Name::File(device, inode)) => Some((*device, *inode)),
                _ => None,
            },
            _ => None,
        }
    }

    fn lstat(&self, path: &[u8]) -> Option<MetadataRecord> {
        match self.names.get(path) {
            None => None,
            Some(Name::Dir(device, inode)) => Some(MetadataRecord {
                device_id: *device,
                inode: *inode,
                size: 0,
                kind: FileKind::Directory,
                mode: 0o755,
                uid: 0,
                gid: 0,
            }),
            Some(Name::File(device, inode)) => {
                let node = &self.nodes[&(*device, *inode)];
                Some(MetadataRecord {
                    device_id: *device,
                    inode: *inode,
                    size: node.content.len() as u64,
                    kind: FileKind::Regular,
                    mode: node.mode,
                    uid: node.uid,
                    gid: node.gid,
                })
            }
            Some(Name::Link(target)) => Some(MetadataRecord {
                device_id: 1,
                inode: 9000 + target.len() as u64,
                size: target.len() as u64,
                kind: FileKind::Symlink,
                mode: 0o777,
                uid: 0,
                gid: 0,
            }),
        }
    }

    fn read(&self, path: &[u8]) -> Option<Vec<u8>> {
        self.resolve(path).map(|key| self.nodes[&key].content.clone())
    }

    fn children(&self, path: &[u8]) -> Vec<Vec<u8>> {
        let mut prefix = path.to_vec();
        prefix.push(b'/');
        self.names
            .keys()
            .filter(|name| name.starts_with(&prefix) && !name[prefix.len()..].contains(&b'/'))
            .cloned()
            .collect()
    }

    fn apply(&mut self, action: &ReplaceAction, changes: &mut Vec<String>) -> bool {
        let word = match action {
            ReplaceAction::Link { .. } => "link",
            ReplaceAction::CopyPermissions { .. } => "chmod",
            ReplaceAction::CopyOwner { .. } => "chown",
            ReplaceAction::Unlink { .. } => "unlink",
            ReplaceAction::Rename { .. } => "rename",
            ReplaceAction::Remove { .. } => "remove",
        };
        if self.refuse == Some(word) {
            changes.push(format!("refused {}", word));
            return false;
        }
        match action {
            ReplaceAction::Link { kind, keeper, temp } => {
                if self.names.contains_key(temp) {
                    return false;
                }
                let entry = match kind {
                    LinkKind::Hard => match self.names.get(keeper) {
                        Some(Name::File(device, inode)) => Name::File(*device, *inode),
                        _ => return false,
                    },
                    LinkKind::Symbolic => Name::Link(keeper.clone()),
                };
                self.names.insert(temp.clone(), entry);
                changes.push(format!("link {}", String::from_utf8_lossy(temp)));
                true
            }
            ReplaceAction::CopyPermissions { from, to } => {
                match (self.resolve(from), self.resolve(to)) {
                    (Some(source), Some(target)) => {
                        let mode = self.nodes[&source].mode;
                        self.nodes.get_mut(&target).unwrap().mode = mode;
                        changes.push(format!("chmod {}", String::from_utf8_lossy(to)));
                        true
                    }
                    _ => false,
                }
            }
            ReplaceAction::CopyOwner { from, to } => {
                match (self.resolve(from), self.resolve(to)) {
                    (Some(source), Some(target)) => {
                        let uid = self.nodes[&source].uid;
                        let gid = self.nodes[&source].gid;
                        let node = self.nodes.get_mut(&target).unwrap();
                        node.uid = uid;
                        node.gid = gid;
                        changes.push(format!("chown {}", String::from_utf8_lossy(to)));
                        true
                    }
                    _ => false,
                }
            }
            ReplaceAction::Unlink { path } | ReplaceAction::Remove { path } => {
                changes.push(format!("unlink {}", String::from_utf8_lossy(path)));
                self.names.remove(path).is_some()
            }
            ReplaceAction::Rename { from, to } => match self.names.remove(from) {
                Some(entry) => {
                    self.names.insert(to.clone(), entry);
                    changes.push(format!("rename {}", String::from_utf8_lossy(to)));
                    true
                }
                None => false,
            },
        }
    }
}

fn settings() -> Opts {
    Opts {
        on_error: ErrorMode::Warning,
        scan_only: false,
        summary: true,
        on_symlink: SymlinkMode::Ignore,
        use_symlinks: false,
        on_external_fs: ExternalFSMode::Group,
        primary_fs: None,
        ignore_less: 1,
        buffer_size: 4,
        exclude: Vec::new(),
        paths: vec![b"/t".to_vec()],
        primary_fs_dev: None,
    }
}

fn replace(disk: &mut Disk, ctx: &DedupContext, victim: &[u8], keeper: &[u8], kind: LinkKind, report: &mut Report) -> ReplaceOutcome {
    let mut step = make_link(ctx.opts(), victim, keeper, kind);
    loop {
        step = match step {
            ReplaceStep::Probe(state) => {
                let exists = disk.names.contains_key(state.candidate());
                state.probed(exists)
            }
            ReplaceStep::Act(state) => {
                let action = state.action();
                let success = disk.apply(&action, &mut report.changes);
                state.done(success)
            }
            ReplaceStep::Finish(outcome) => return outcome,
        };
    }
}

fn link(disk: &mut Disk, ctx: &mut DedupContext, victim: PathInfo, report: &mut Report) {
    let path = victim.path.clone();
    let buffer = ctx.opts().buffer_size;
    let mut step = process_file(ctx, victim);
    loop {
        step = match step {
            LinkStep::Hash(state) => {
                let hash = disk.read(&state.victim().path).map(|content| crc64(&content, buffer));
                state.hashed(ctx, hash)
            }
            LinkStep::Compare(state) => {
                let verdict = match (disk.read(&state.keeper().path), disk.read(&state.victim().path)) {
                    (Some(first), Some(second)) => Some(compare_content(&first, &second, buffer)),
                    _ => None,
                };
                state.compared(ctx, verdict)
            }
            LinkStep::Finish(outcome) => {
                let word = match &outcome {
                    LinkOutcome::Skipped(reason) => {
                        report.skipped.push((path.clone(), *reason));
                        "skipped"
                    }
                    LinkOutcome::Rejected => "rejected",
                    LinkOutcome::Dropped => "dropped",
                    LinkOutcome::AlreadyLinked => "linked",
                    LinkOutcome::Found { keeper } => {
                        let info = PathInfo::new(path.clone(), disk.lstat(&path).unwrap());
                        report.messages.push(found(&info, keeper));
                        "found"
                    }
                    LinkOutcome::Replace { keeper, kind } => {
                        let ended = replace(disk, ctx, &path, &keeper.path, *kind, report);
                        if ended == ReplaceOutcome::Replaced {
                            report.replaced.push((path.clone(), keeper.path.clone()));
                            "replaced"
                        } else {
                            report.messages.push(format!("{:?}", ended));
                            "failed"
                        }
                    }
                    LinkOutcome::Unique => "unique",
                };
                report.outcomes.push((path, word.to_string()));
                return;
            }
        };
    }
}

fn visit(disk: &mut Disk, ctx: &mut DedupContext, walker: &mut Walker, path: &[u8], report: &mut Report) {
    let probe = disk.lstat(path);
    let action = process_path(walker, ctx.opts(), path, probe);
    match action {
        WalkAction::Fail => report.outcomes.push((path.to_vec(), "failed".to_string())),
        WalkAction::Skip(reason) => report.skipped.push((path.to_vec(), reason)),
        WalkAction::Descend => {
            for child in disk.children(path) {
                visit(disk, ctx, walker, &child, report);
            }
        }
        WalkAction::Follow => {
            let target = match disk.names.get(path) {
                Some(Name::Link(target)) => target.clone(),
                _ => unreachable!(),
            };
            visit(disk, ctx, walker, &target, report);
        }
        WalkAction::Link => {
            let info = PathInfo::new(path.to_vec(), probe.unwrap());
            link(disk, ctx, info, report);
        }
    }
}

fn run(disk: &mut Disk, opts: Opts) -> Report {
    let roots = opts.paths.clone();
    let mut ctx = DedupContext::new(opts);
    let mut report = Report {
        outcomes: Vec::new(),
        skipped: Vec::new(),
        messages: Vec::new(),
        changes: Vec::new(),
        replaced: Vec::new(),
    };
    for root in roots {
        let mut walker = Walker::new();
        visit(disk, &mut ctx, &mut walker, &root, &mut report);
    }
    report
}

fn outcome_of(report: &Report, path: &str) -> String {
    report
        .outcomes
        .iter()
        .find(|(name, _)| name == path.as_bytes())
        .map(|(_, word)| word.clone())
        .unwrap_or_default()
}

fn three_files() -> Disk {
    let mut disk = Disk::new();
    disk.file("/t/a.txt", 1, 10, "hello", 0o644, 1000);
    disk.file("/t/b.txt", 1, 11, "hello", 0o644, 1000);
    disk.file("/t/c.txt", 1, 12, "world", 0o644, 1000);
    disk
}

#[test]
fn two_equal_files_and_one_other() {
    let mut disk = three_files();
    let report = run(&mut disk, settings());
    assert_eq!(disk.inode("/t/a.txt"), disk.inode("/t/b.txt"));
    assert_eq!(disk.inode("/t/a.txt"), (1, 10));
    assert_eq!(disk.inode("/t/c.txt"), (1, 12));
    assert_eq!(outcome_of(&report, "/t/a.txt"), "unique");
    assert_eq!(outcome_of(&report, "/t/b.txt"), "replaced");
    assert_eq!(outcome_of(&report, "/t/c.txt"), "unique");
    assert_eq!(report.replaced, vec![(b"/t/b.txt".to_vec(), b"/t/a.txt".to_vec())]);
    assert_eq!(disk.names.len(), 4);
    assert_eq!(disk.read(b"/t/a.txt").unwrap(), b"hello".to_vec());
    assert_eq!(disk.read(b"/t/b.txt").unwrap(), b"hello".to_vec());
    assert_eq!(disk.read(b"/t/c.txt").unwrap(), b"world".to_vec());
}

#[test]
fn empty_file_is_skipped_as_small() {
    let mut disk = three_files();
    disk.file("/t/d.txt", 1, 13, "", 0o644, 1000);
    let report = run(&mut disk, settings());
    assert_eq!(report.skipped, vec![(b"/t/d.txt".to_vec(), SkipReason::SmallSize)]);
    assert_eq!(disk.inode("/t/d.txt"), (1, 13));
    assert_eq!(disk.inode("/t/a.txt"), disk.inode("/t/b.txt"));
    assert_eq!(disk.inode("/t/c.txt"), (1, 12));
    assert_eq!(report.replaced.len(), 1);
}

#[test]
fn empty_files_are_processed_with_threshold_zero() {
    let mut disk = Disk::new();
    disk.file("/t/d.txt", 1, 13, "", 0o644, 1000);
    disk.file("/t/e.txt", 1, 14, "", 0o644, 1000);
    let mut opts = settings();
    opts.ignore_less = 0;
    let report = run(&mut disk, opts);
    assert!(report.skipped.is_empty());
    assert_eq!(disk.inode("/t/d.txt"), disk.inode("/t/e.txt"));
}

#[test]
fn already_linked_files_are_not_renamed_again() {
    let mut disk = Disk::new();
    disk.file("/t/a.txt", 1, 10, "hello", 0o644, 1000);
    disk.file("/t/b.txt", 1, 10, "hello", 0o644, 1000);
    disk.file("/t/c.txt", 1, 12, "hello", 0o644, 1000);
    let report = run(&mut disk, settings());
    assert_eq!(disk.inode("/t/a.txt"), (1, 10));
    assert_eq!(disk.inode("/t/b.txt"), (1, 10));
    assert_eq!(disk.inode("/t/c.txt"), (1, 10));
    assert_eq!(outcome_of(&report, "/t/b.txt"), "linked");
    assert_eq!(report.replaced, vec![(b"/t/c.txt".to_vec(), b"/t/a.txt".to_vec())]);
    assert!(!report.changes.iter().any(|change| change.contains("b.txt")));
}

#[test]
fn equal_files_on_two_devices_stay_apart_when_grouped() {
    let mut disk = Disk::new();
    disk.file("/t/a.txt", 1, 10, "hello", 0o644, 1000);
    disk.file("/t/b.txt", 2, 10, "hello", 0o644, 1000);
    let before = disk.clone();
    let report = run(&mut disk, settings());
    assert_eq!(disk, before);
    assert!(report.replaced.is_empty());
    assert!(report.changes.is_empty());
    assert_eq!(outcome_of(&report, "/t/a.txt"), "unique");
    assert_eq!(outcome_of(&report, "/t/b.txt"), "unique");
}

#[test]
fn replaced_path_keeps_its_mode_and_owner() {
    let mut disk = Disk::new();
    disk.file("/t/a.txt", 1, 10, "hello", 0o600, 1000);
    disk.file("/t/b.txt", 1, 11, "hello", 0o644, 1001);
    let report = run(&mut disk, settings());
    assert_eq!(report.replaced, vec![(b"/t/b.txt".to_vec(), b"/t/a.txt".to_vec())]);
    let record = disk.lstat(b"/t/b.txt").unwrap();
    assert_eq!(record.inode, 10);
    assert_eq!(record.mode, 0o644);
    assert_eq!(record.uid, 1001);
    assert_eq!(record.gid, 1001);
}

#[test]
fn scan_only_reports_and_changes_nothing() {
    let mut disk = three_files();
    let before = disk.clone();
    let mut opts = settings();
    opts.scan_only = true;
    let report = run(&mut disk, opts);
    assert_eq!(disk, before);
    assert!(report.changes.is_empty());
    assert!(report.replaced.is_empty());
    assert_eq!(report.messages, vec!["found /t/b.txt to /t/a.txt".to_string()]);
    assert_eq!(outcome_of(&report, "/t/b.txt"), "found");
}

#[test]
fn second_run_replaces_nothing() {
    let mut disk = three_files();
    disk.file("/t/e.txt", 1, 14, "hello", 0o644, 1000);
    let first = run(&mut disk, settings());
    assert_eq!(first.replaced.len(), 2);
    let settled = disk.clone();
    let second = run(&mut disk, settings());
    assert!(second.replaced.is_empty());
    assert!(second.changes.is_empty());
    assert_eq!(disk, settled);
}

#[test]
fn one_inode_per_content_after_the_run() {
    let mut disk = Disk::new();
    disk.file("/t/a.txt", 1, 10, "one", 0o644, 1000);
    disk.file("/t/b.txt", 1, 11, "two", 0o644, 1000);
    disk.file("/t/c.txt", 1, 12, "one", 0o644, 1000);
    disk.file("/t/d.txt", 1, 13, "two", 0o644, 1000);
    disk.file("/t/e.txt", 1, 14, "one", 0o644, 1000);
    run(&mut disk, settings());
    assert_eq!(disk.inode("/t/a.txt"), disk.inode("/t/c.txt"));
    assert_eq!(disk.inode("/t/a.txt"), disk.inode("/t/e.txt"));
    assert_eq!(disk.inode("/t/b.txt"), disk.inode("/t/d.txt"));
    assert_ne!(disk.inode("/t/a.txt"), disk.inode("/t/b.txt"));
}

#[test]
fn symbolic_replacement_leaves_a_link_to_the_keeper() {
    let mut disk = three_files();
    let mut opts = settings();
    opts.use_symlinks = true;
    let report = run(&mut disk, opts);
    assert_eq!(report.replaced, vec![(b"/t/b.txt".to_vec(), b"/t/a.txt".to_vec())]);
    assert_eq!(disk.names[&b"/t/b.txt".to_vec()], Name::Link(b"/t/a.txt".to_vec()));
    assert_eq!(disk.read(b"/t/b.txt").unwrap(), b"hello".to_vec());
    assert_eq!(disk.inode("/t/a.txt"), (1, 10));
}

#[test]
fn foreign_files_are_ignored_or_rejected() {
    for (mode, word) in [(ExternalFSMode::Ignore, ""), (ExternalFSMode::Error, "rejected")] {
        let mut disk = Disk::new();
        disk.file("/t/a.txt", 1, 10, "hello", 0o644, 1000);
        disk.file("/t/b.txt", 2, 11, "hello", 0o644, 1000);
        disk.file("/t/c.txt", 1, 12, "hello", 0o644, 1000);
        let mut opts = settings();
        opts.on_external_fs = mode;
        opts.primary_fs_dev = Some(1);
        let report = run(&mut disk, opts);
        assert_eq!(disk.inode("/t/b.txt"), (2, 11));
        assert_eq!(disk.inode("/t/c.txt"), (1, 10));
        assert_eq!(outcome_of(&report, "/t/b.txt"), if word.is_empty() { "skipped" } else { word });
    }
}

#[test]
fn foreign_file_becomes_a_symbolic_link_into_the_primary() {
    let mut disk = Disk::new();
    disk.file("/t/a.txt", 1, 10, "hello", 0o644, 1000);
    disk.file("/t/b.txt", 2, 11, "hello", 0o644, 1000);
    let mut opts = settings();
    opts.on_external_fs = ExternalFSMode::Symlink;
    opts.primary_fs_dev = Some(1);
    let report = run(&mut disk, opts);
    assert_eq!(report.replaced, vec![(b"/t/b.txt".to_vec(), b"/t/a.txt".to_vec())]);
    assert_eq!(disk.names[&b"/t/b.txt".to_vec()], Name::Link(b"/t/a.txt".to_vec()));
}

#[test]
fn excluded_subtree_is_left_alone() {
    let mut disk = Disk::new();
    disk.names.insert(b"/t/keep".to_vec(), Name::Dir(1, 2));
    disk.names.insert(b"/t/skip".to_vec(), Name::Dir(1, 3));
    disk.file("/t/keep/a.txt", 1, 10, "hello", 0o644, 1000);
    disk.file("/t/skip/b.txt", 1, 11, "hello", 0o644, 1000);
    disk.file("/t/skipper.txt", 1, 12, "hello", 0o644, 1000);
    let mut opts = settings();
    opts.exclude = vec![b"/t/skip".to_vec()];
    let report = run(&mut disk, opts);
    assert_eq!(report.skipped, vec![(b"/t/skip".to_vec(), SkipReason::Exclude)]);
    assert_eq!(disk.inode("/t/skip/b.txt"), (1, 11));
    assert_eq!(disk.inode("/t/skipper.txt"), (1, 10));
}

#[test]
fn temporary_name_avoids_existing_names() {
    let mut disk = three_files();
    disk.file("/t/b.txt_0", 1, 20, "zero", 0o644, 1000);
    disk.file("/t/b.txt_1", 1, 21, "first", 0o644, 1000);
    let report = run(&mut disk, settings());
    assert!(report.changes.contains(&"link /t/b.txt_2".to_string()));
    assert_eq!(disk.inode("/t/b.txt"), (1, 10));
    assert_eq!(disk.inode("/t/b.txt_0"), (1, 20));
    assert_eq!(disk.inode("/t/b.txt_1"), (1, 21));
    assert!(!disk.names.contains_key(&b"/t/b.txt_2".to_vec()));
}

#[test]
fn followed_link_cycle_ends() {
    let mut disk = three_files();
    disk.names.insert(b"/t/loop".to_vec(), Name::Link(b"/t".to_vec()));
    let mut opts = settings();
    opts.on_symlink = SymlinkMode::Follow;
    let report = run(&mut disk, opts);
    assert!(report.skipped.contains(&(b"/t".to_vec(), SkipReason::Visited)));
    assert_eq!(disk.inode("/t/a.txt"), disk.inode("/t/b.txt"));
}

#[test]
fn ignored_link_is_skipped() {
    let mut disk = three_files();
    disk.names.insert(b"/t/l".to_vec(), Name::Link(b"/t/a.txt".to_vec()));
    let report = run(&mut disk, settings());
    assert!(report.skipped.contains(&(b"/t/l".to_vec(), SkipReason::Symlink)));
}

#[test]
fn failed_steps_lose_no_content() {
    for word in ["link", "chmod", "chown", "unlink", "rename"] {
        let mut disk = three_files();
        disk.refuse = Some(word);
        let before = disk.clone();
        let report = run(&mut disk, settings());
        assert_eq!(outcome_of(&report, "/t/b.txt"), "failed");
        assert!(report.replaced.is_empty());
        assert_eq!(disk.read(b"/t/a.txt").unwrap(), b"hello".to_vec());
        assert_eq!(disk.read(b"/t/c.txt").unwrap(), b"world".to_vec());
        assert_eq!(disk.inode("/t/a.txt"), (1, 10));
        assert!(!disk.names.contains_key(&b"/t/b.txt_0".to_vec()));
        if word == "rename" {
            assert!(!disk.names.contains_key(&b"/t/b.txt".to_vec()));
        } else {
            assert_eq!(disk.inode("/t/b.txt"), (1, 11));
            assert_eq!(disk.names, before.names);
        }
    }
}

#[test]
fn failed_owner_copy_removes_the_temporary_name() {
    let mut disk = three_files();
    disk.refuse = Some("chown");
    let ctx = DedupContext::new(settings());
    let mut report = Report {
        outcomes: Vec::new(),
        skipped: Vec::new(),
        messages: Vec::new(),
        changes: Vec::new(),
        replaced: Vec::new(),
    };
    let ended = replace(&mut disk, &ctx, b"/t/b.txt", b"/t/a.txt", LinkKind::Hard, &mut report);
    assert_eq!(
        ended,
        ReplaceOutcome::Failed {
            cause: dedup::replace::ReplaceFailure::Owner,
            cleanup: dedup::replace::Cleanup::Removed
        }
    );
    assert_eq!(disk.inode("/t/b.txt"), (1, 11));
    assert!(!disk.names.contains_key(&b"/t/b.txt_0".to_vec()));
    assert_eq!(
        report.changes,
        vec!["link /t/b.txt_0", "chmod /t/b.txt_0", "refused chown", "unlink /t/b.txt_0"]
    );
}

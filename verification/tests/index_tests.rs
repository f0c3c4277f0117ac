use dedup::echo::PathInfo;
use dedup::index::GroupingIndex;
use dedup::probe::{FileKind, MetadataRecord};

fn record(device_id: u64, inode: u64, size: u64) -> MetadataRecord {
    MetadataRecord { device_id, inode, size, kind: FileKind::Regular, mode: 0o644, uid: 1000, gid: 1000 }
}

fn info(path: &str, device_id: u64, inode: u64, size: u64) -> PathInfo {
    PathInfo::new(path.as_bytes().to_vec(), record(device_id, inode, size))
}

#[test]
fn new_index_is_empty() {
    let index = GroupingIndex::new();
    assert!(!index.contains_inode(1, 5, 77, 10));
    assert!(index.find_bucket(1, 5, 77).is_empty());
}

#[test]
fn insert_files_under_own_keys() {
    let mut index = GroupingIndex::new();
    assert!(index.insert(77, info("/t/a", 1, 10, 5)));
    assert!(index.contains_inode(1, 5, 77, 10));
    assert!(!index.contains_inode(2, 5, 77, 10));
    assert!(!index.contains_inode(1, 6, 77, 10));
    assert!(!index.contains_inode(1, 5, 78, 10));
    assert!(!index.contains_inode(1, 5, 77, 11));
    let bucket = index.find_bucket(1, 5, 77);
    assert_eq!(bucket.len(), 1);
    assert_eq!(bucket[0].path, b"/t/a".to_vec());
    assert_eq!(bucket[0].metadata, record(1, 10, 5));
}

#[test]
fn first_insert_for_an_inode_wins() {
    let mut index = GroupingIndex::new();
    assert!(index.insert(77, info("/t/a", 1, 10, 5)));
    assert!(!index.insert(77, info("/t/b", 1, 10, 5)));
    let bucket = index.find_bucket(1, 5, 77);
    assert_eq!(bucket.len(), 1);
    assert_eq!(bucket[0].path, b"/t/a".to_vec());
}

#[test]
fn bucket_keeps_insertion_order() {
    let mut index = GroupingIndex::new();
    assert!(index.insert(77, info("/t/c", 1, 30, 5)));
    assert!(index.insert(77, info("/t/a", 1, 10, 5)));
    assert!(index.insert(77, info("/t/b", 1, 20, 5)));
    let bucket = index.find_bucket(1, 5, 77);
    let paths: Vec<Vec<u8>> = bucket.iter().map(|entry| entry.path.clone()).collect();
    assert_eq!(paths, vec![b"/t/c".to_vec(), b"/t/a".to_vec(), b"/t/b".to_vec()]);
}

#[test]
fn devices_sizes_and_checksums_do_not_mix() {
    let mut index = GroupingIndex::new();
    assert!(index.insert(77, info("/t/a", 1, 10, 5)));
    assert!(index.insert(77, info("/u/a", 2, 10, 5)));
    assert!(index.insert(77, info("/t/b", 1, 11, 6)));
    assert!(index.insert(78, info("/t/c", 1, 12, 5)));
    assert_eq!(index.find_bucket(1, 5, 77).len(), 1);
    assert_eq!(index.find_bucket(2, 5, 77).len(), 1);
    assert_eq!(index.find_bucket(1, 6, 77).len(), 1);
    assert_eq!(index.find_bucket(1, 5, 78).len(), 1);
    assert_eq!(index.find_bucket(2, 5, 77)[0].path, b"/u/a".to_vec());
    assert!(index.find_bucket(2, 6, 77).is_empty());
}

#[test]
fn path_info_duplicate_is_equal() {
    let first = info("/t/a", 1, 10, 5);
    let second = first.duplicate();
    assert_eq!(first.path, second.path);
    assert_eq!(first.metadata, second.metadata);
}

#[test]
fn same_file_compares_device_and_inode() {
    assert!(record(1, 10, 5).same_file(&record(1, 10, 9)));
    assert!(!record(1, 10, 5).same_file(&record(2, 10, 5)));
    assert!(!record(1, 10, 5).same_file(&record(1, 11, 5)));
}

#[test]
fn kind_is_read_from_the_mode() {
    assert_eq!(FileKind::from_mode(0o100644), FileKind::Regular);
    assert_eq!(FileKind::from_mode(0o100000), FileKind::Regular);
    assert_eq!(FileKind::from_mode(0o040755), FileKind::Directory);
    assert_eq!(FileKind::from_mode(0o120777), FileKind::Symlink);
    assert_eq!(FileKind::from_mode(0o140755), FileKind::Other);
    assert_eq!(FileKind::from_mode(0o020620), FileKind::Other);
    assert_eq!(FileKind::from_mode(0o060660), FileKind::Other);
    assert_eq!(FileKind::from_mode(0o010644), FileKind::Other);
    assert_eq!(FileKind::from_mode(0), FileKind::Other);
    assert_eq!(FileKind::from_mode(0o644), FileKind::Other);
}

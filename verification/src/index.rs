//! The grouping index: device, then size, then checksum, then inode.
//!
//! Each narrowing step is cheaper than the next.  Two files can only be
//! duplicates of each other when they meet in the same bucket, and within a
//! bucket every underlying file is recorded once, under the path by which it
//! was first seen.
use vstd::prelude::*;
use vstd::std_specs::hash::*;
use std::collections::HashMap;
use crate::echo::{PathInfo, PathInfoView};

verus! {

/// The values of a run of path records.
pub open spec fn views(entries: Seq<PathInfo>) -> Seq<PathInfoView> {
    entries.map_values(|entry: PathInfo| entry@)
}

/// Whether some entry of `bucket` stands for the file with this inode.
pub open spec fn bucket_holds(bucket: Seq<PathInfoView>, inode: u64) -> bool {
    exists|k: int| 0 <= k < bucket.len() && (#[trigger] bucket[k]).metadata.inode == inode
}

/// What must hold of the bucket that is filed under `device` and `size`:
/// every entry was observed on that device with that size, and no inode
/// occurs twice.
pub open spec fn bucket_wf(device: u64, size: u64, bucket: Seq<PathInfoView>) -> bool {
    &&& forall|k: int|
        0 <= k < bucket.len() ==> {
            &&& (#[trigger] bucket[k]).metadata.device_id == device
            &&& bucket[k].metadata.size == size
        }
    &&& forall|j: int, k: int|
        0 <= j < k < bucket.len() ==> (#[trigger] bucket[j]).metadata.inode != (
        #[trigger] bucket[k]).metadata.inode
}

/// The mathematical value of a [`GroupingIndex`]: for every triple of device,
/// size and checksum the representatives filed under it, in the order in
/// which they were inserted.  A triple that was never used has the empty run.
pub struct IndexModel {
    pub buckets: Map<(u64, u64, u64), Seq<PathInfoView>>,
}

impl IndexModel {
    /// The index in which nothing is filed.
    pub open spec fn empty() -> IndexModel {
        IndexModel { buckets: Map::total(|key: (u64, u64, u64)| Seq::<PathInfoView>::empty()) }
    }

    pub open spec fn bucket(self, device: u64, size: u64, checksum: u64) -> Seq<PathInfoView> {
        self.buckets[(device, size, checksum)]
    }

    pub open spec fn holds_inode(self, device: u64, size: u64, checksum: u64, inode: u64) -> bool {
        bucket_holds(self.bucket(device, size, checksum), inode)
    }

    /// Files `info` under its own device, size and inode and the given
    /// checksum, unless that inode already has a representative there.
    pub open spec fn insert(self, checksum: u64, info: PathInfoView) -> IndexModel {
        let key = (info.metadata.device_id, info.metadata.size, checksum);
        if bucket_holds(self.buckets[key], info.metadata.inode) {
            self
        } else {
            IndexModel { buckets: self.buckets.insert(key, self.buckets[key].push(info)) }
        }
    }

    /// Every triple is used, and every bucket is well formed for its triple.
    pub open spec fn wf(self) -> bool {
        &&& forall|key: (u64, u64, u64)| self.buckets.contains_key(key)
        &&& forall|device: u64, size: u64, checksum: u64|
            bucket_wf(device, size, #[trigger] self.bucket(device, size, checksum))
    }

    /// Whether `info` is one of the representatives.
    pub open spec fn has_representative(self, info: PathInfoView) -> bool {
        exists|device: u64, size: u64, checksum: u64, k: int|
            0 <= k < self.bucket(device, size, checksum).len() && (#[trigger] self.bucket(
                device,
                size,
                checksum,
            )[k]) == info
    }
}

/// The empty index is well formed.
pub proof fn lemma_empty_wf()
    ensures
        IndexModel::empty().wf(),
{
}

/// Inserting keeps the index well formed.
pub proof fn lemma_insert_wf(index: IndexModel, checksum: u64, info: PathInfoView)
    requires
        index.wf(),
    ensures
        index.insert(checksum, info).wf(),
{
    let key = (info.metadata.device_id, info.metadata.size, checksum);
    let after = index.insert(checksum, info);
    if !bucket_holds(index.buckets[key], info.metadata.inode) {
        assert forall|device: u64, size: u64, c: u64| bucket_wf(
            device,
            size,
            #[trigger] after.bucket(device, size, c),
        ) by {
            assert(bucket_wf(device, size, index.bucket(device, size, c)));
            if (device, size, c) == key {
                let old_bucket = index.bucket(device, size, c);
                let new_bucket = after.bucket(device, size, c);
                assert(new_bucket == old_bucket.push(info));
                assert forall|j: int, k: int| 0 <= j < k < new_bucket.len() implies (
                #[trigger] new_bucket[j]).metadata.inode != (
                #[trigger] new_bucket[k]).metadata.inode by {
                    if k == old_bucket.len() {
                        assert(old_bucket[j].metadata.inode != info.metadata.inode);
                    }
                }
            }
        }
    }
}

/// Insertion is idempotent on the inode: the representative that was filed
/// first stays, whatever is offered for the same inode later.
pub proof fn lemma_first_insert_wins(
    index: IndexModel,
    checksum: u64,
    first: PathInfoView,
    second: PathInfoView,
)
    requires
        first.metadata.device_id == second.metadata.device_id,
        first.metadata.size == second.metadata.size,
        first.metadata.inode == second.metadata.inode,
    ensures
        index.insert(checksum, first).insert(checksum, second) == index.insert(checksum, first),
{
    let key = (first.metadata.device_id, first.metadata.size, checksum);
    let once = index.insert(checksum, first);
    if bucket_holds(index.buckets[key], first.metadata.inode) {
    } else {
        let bucket = once.buckets[key];
        assert(bucket[bucket.len() - 1] == first);
        assert(bucket_holds(bucket, second.metadata.inode));
    }
}

/// The four-level index of representatives.
///
/// Device, size and checksum are looked up in hash maps.  The innermost
/// level, from inode to representative, is a vector in the order of
/// insertion: the candidates of a file are then tried in the order in which
/// they were filed, the same in every run, and the first one filed for an
/// inode is the one that stays.
pub struct GroupingIndex {
    devices: HashMap<u64, HashMap<u64, HashMap<u64, Vec<PathInfo>>>>,
}

/// The bucket that the nested maps hold under `key`; empty where a level is
/// missing.
spec fn nested_bucket(
    devices: Map<u64, HashMap<u64, HashMap<u64, Vec<PathInfo>>>>,
    key: (u64, u64, u64),
) -> Seq<PathInfoView> {
    if devices.contains_key(key.0) && devices[key.0]@.contains_key(key.1)
        && devices[key.0]@[key.1]@.contains_key(key.2) {
        views(devices[key.0]@[key.1]@[key.2]@)
    } else {
        Seq::empty()
    }
}

impl View for GroupingIndex {
    type V = IndexModel;

    closed spec fn view(&self) -> IndexModel {
        IndexModel {
            buckets: Map::total(|key: (u64, u64, u64)| nested_bucket(self.devices@, key)),
        }
    }
}

/// The position of the entry for `inode`, if the bucket has one.
fn position_of(bucket: &Vec<PathInfo>, inode: u64) -> (found: Option<usize>)
    ensures
        match found {
            Some(k) => k < bucket.len() && bucket[k as int]@.metadata.inode == inode,
            None => !bucket_holds(views(bucket@), inode),
        },
        found is Some <==> bucket_holds(views(bucket@), inode),
{
    let mut k: usize = 0;
    while k < bucket.len()
        invariant
            k <= bucket.len(),
            forall|j: int| 0 <= j < k ==> (#[trigger] views(bucket@)[j]).metadata.inode != inode,
        decreases bucket.len() - k,
    {
        if bucket[k].metadata.inode == inode {
            assert(views(bucket@)[k as int] == bucket[k as int]@);
            return Some(k);
        }
        k += 1;
    }
    None
}

/// A copy of every entry, in order.
fn copy_entries(bucket: &Vec<PathInfo>) -> (copy: Vec<PathInfo>)
    ensures
        views(copy@) == views(bucket@),
{
    let mut copy: Vec<PathInfo> = Vec::new();
    let mut k: usize = 0;
    while k < bucket.len()
        invariant
            k <= bucket.len(),
            copy.len() == k,
            forall|j: int| 0 <= j < k ==> (#[trigger] copy[j])@ == bucket[j]@,
        decreases bucket.len() - k,
    {
        copy.push(bucket[k].duplicate());
        k += 1;
    }
    assert(views(copy@) =~= views(bucket@));
    copy
}

impl GroupingIndex {
    /// The index of a run that has not seen any file yet.
    pub fn new() -> (index: GroupingIndex)
        ensures
            index@ == IndexModel::empty(),
            index@.wf(),
    {
        let index = GroupingIndex { devices: HashMap::new() };
        assert(index@.buckets =~= IndexModel::empty().buckets);
        index
    }

    /// Whether the underlying file `inode` already has a representative
    /// under this device, size and checksum.
    pub fn contains_inode(&self, device: u64, size: u64, checksum: u64, inode: u64) -> (held: bool)
        ensures
            held == self@.holds_inode(device, size, checksum, inode),
    {
        broadcast use group_hash_axioms;

        match self.devices.get(&device) {
            None => false,
            Some(by_size) => match by_size.get(&size) {
                None => false,
                Some(by_checksum) => match by_checksum.get(&checksum) {
                    None => false,
                    Some(bucket) => position_of(bucket, inode).is_some(),
                },
            },
        }
    }

    /// The representatives filed under this device, size and checksum, in
    /// the order of their insertion.
    pub fn find_bucket(&self, device: u64, size: u64, checksum: u64) -> (bucket: Vec<PathInfo>)
        ensures
            views(bucket@) == self@.bucket(device, size, checksum),
    {
        broadcast use group_hash_axioms;

        match self.devices.get(&device) {
            None => Vec::new(),
            Some(by_size) => match by_size.get(&size) {
                None => Vec::new(),
                Some(by_checksum) => match by_checksum.get(&checksum) {
                    None => Vec::new(),
                    Some(bucket) => copy_entries(bucket),
                },
            },
        }
    }

    /// Files `info` as the representative of its inode under its own device
    /// and size and the given checksum.  Where that inode already has a
    /// representative there, nothing changes.  Returns whether `info` was
    /// filed.
    pub fn insert(&mut self, checksum: u64, info: PathInfo) -> (inserted: bool)
        ensures
            final(self)@ == old(self)@.insert(checksum, info@),
            inserted == !old(self)@.holds_inode(
                info@.metadata.device_id,
                info@.metadata.size,
                checksum,
                info@.metadata.inode,
            ),
            old(self)@.wf() ==> final(self)@.wf(),
    {
        broadcast use group_hash_axioms;

        let device = info.metadata.device_id;
        let size = info.metadata.size;
        let inode = info.metadata.inode;
        let ghost key = (device, size, checksum);
        let ghost before = self.devices@;
        let ghost value = info@;
        let mut by_size = match self.devices.remove(&device) {
            Some(found) => found,
            None => HashMap::new(),
        };
        let mut by_checksum = match by_size.remove(&size) {
            Some(found) => found,
            None => HashMap::new(),
        };
        let mut bucket = match by_checksum.remove(&checksum) {
            Some(found) => found,
            None => Vec::new(),
        };
        assert(views(bucket@) =~= nested_bucket(before, key));
        let inserted = position_of(&bucket, inode).is_none();
        let ghost was = views(bucket@);
        if inserted {
            bucket.push(info);
            assert(views(bucket@) =~= was.push(value));
        }
        let ghost now = views(bucket@);
        by_checksum.insert(checksum, bucket);
        by_size.insert(size, by_checksum);
        self.devices.insert(device, by_size);
        proof {
            let after = self.devices@;
            assert(nested_bucket(after, key) == now);
            assert forall|other: (u64, u64, u64)| other != key implies nested_bucket(after, other)
                == nested_bucket(before, other) by {
                if other.0 == device && before.contains_key(device) {
                    if other.1 == size && before[device]@.contains_key(size) {
                    }
                }
            }
            assert(self@.buckets =~= old(self)@.insert(checksum, value).buckets);
            if old(self)@.wf() {
                lemma_insert_wf(old(self)@, checksum, value);
            }
        }
        inserted
    }
}

} // verus!

//! In-memory model of the blobstore device registry.
//!
//! The engine's decisions are verified against this model: a volume is a
//! blob with its identity, sizes, snapshot flag, back-pointer to its parent
//! blob, attribute table and used-clusters-cache state. The process-wide
//! registry is the set of such volumes, with unique UUIDs.

use vstd::prelude::*;

use crate::xattrs::{xattr_find, xattrs_view, CloneXattrs, SnapshotXattrs, XattrEntry, XattrView};

verus! {

/// One logical volume: a handle to a thin-provisioned blob.
pub struct Volume {
    /// Unique identifier; lookups key on it.
    pub uuid: String,
    /// Human name; doubles as the blob name.
    pub name: String,
    /// Size in bytes.
    pub size: u64,
    /// Bytes the blob has allocated.
    pub allocated_bytes: u64,
    /// Bytes allocated by the snapshots taken of this volume.
    pub allocated_bytes_snapshots: u64,
    /// The blob-level read-only snapshot flag.
    pub is_snapshot: bool,
    /// UUID of the parent blob in the blobstore's back-pointer chain.
    pub parent_uuid: Option<String>,
    /// Extended attributes persisted on the blob.
    pub xattrs: Vec<XattrEntry>,
    /// Whether the backend's used-clusters estimate for this blob is live.
    pub usage_cached: bool,
}

/// The mathematical content of a volume.
#[verifier::ext_equal]
pub ghost struct VolumeView {
    pub uuid: Seq<char>,
    pub name: Seq<char>,
    pub size: u64,
    pub allocated_bytes: u64,
    pub allocated_bytes_snapshots: u64,
    pub is_snapshot: bool,
    pub parent_uuid: Option<Seq<char>>,
    pub xattrs: Seq<XattrView>,
    pub usage_cached: bool,
}

impl View for Volume {
    type V = VolumeView;

    open spec fn view(&self) -> VolumeView {
        VolumeView {
            uuid: self.uuid@,
            name: self.name@,
            size: self.size,
            allocated_bytes: self.allocated_bytes,
            allocated_bytes_snapshots: self.allocated_bytes_snapshots,
            is_snapshot: self.is_snapshot,
            parent_uuid: crate::params::opt_view(self.parent_uuid),
            xattrs: xattrs_view(self.xattrs@),
            usage_cached: self.usage_cached,
        }
    }
}

/// Copies an attribute table entry by entry.
pub fn copy_xattrs(xs: &Vec<XattrEntry>) -> (r: Vec<XattrEntry>)
    ensures
        xattrs_view(r@) == xattrs_view(xs@),
{
    let mut r: Vec<XattrEntry> = Vec::new();
    let mut i: usize = 0;
    while i < xs.len()
        invariant
            0 <= i <= xs.len(),
            r@.len() == i,
            forall|j: int| 0 <= j < i ==> r@[j]@ == xs@[j]@,
        decreases xs.len() - i,
    {
        r.push(XattrEntry { key: xs[i].key.clone(), value: xs[i].value.clone() });
        i += 1;
    }
    proof {
        assert(xattrs_view(r@) =~= xattrs_view(xs@));
    }
    r
}

impl Volume {
    /// A deep copy with the same mathematical content.
    pub fn duplicate(&self) -> (r: Volume)
        ensures
            r@ == self@,
    {
        let parent_uuid = match &self.parent_uuid {
            Some(p) => Some(p.clone()),
            None => None,
        };
        Volume {
            uuid: self.uuid.clone(),
            name: self.name.clone(),
            size: self.size,
            allocated_bytes: self.allocated_bytes,
            allocated_bytes_snapshots: self.allocated_bytes_snapshots,
            is_snapshot: self.is_snapshot,
            parent_uuid,
            xattrs: copy_xattrs(&self.xattrs),
            usage_cached: self.usage_cached,
        }
    }

    /// Reads one attribute of this volume's blob.
    pub fn get_blob_xattr(&self, key: &str) -> (r: Option<String>)
        ensures
            r matches Some(v) ==> xattr_find(self@.xattrs, key@) == Some(v@),
            r is None ==> xattr_find(self@.xattrs, key@) is None,
    {
        crate::xattrs::xattr_get(&self.xattrs, key)
    }
}

impl VolumeView {
    /// The recorded source snapshot, present exactly on clones.
    pub open spec fn clone_source(self) -> Option<Seq<char>> {
        xattr_find(self.xattrs, CloneXattrs::SourceUuid.key())
    }

    /// The volume is a clone of the snapshot with UUID `snap_uuid`.
    pub open spec fn is_clone_of(self, snap_uuid: Seq<char>) -> bool {
        self.clone_source() == Some(snap_uuid)
    }

    /// The discarded mark of a snapshot blob; absent reads as false.
    pub open spec fn is_discarded(self) -> bool {
        match xattr_find(self.xattrs, SnapshotXattrs::DiscardedSnapshot.key()) {
            Some(v) => crate::params::parse_bool_text(v),
            None => false,
        }
    }
}

/// The registry as a sequence of volume contents.
pub open spec fn rview(vols: Seq<Volume>) -> Seq<VolumeView> {
    vols.map_values(|v: Volume| v@)
}

/// Index of the first volume with the given UUID; the sequence's length
/// when none has it.
pub open spec fn vol_index_of(vols: Seq<VolumeView>, uuid: Seq<char>) -> int
    decreases vols.len(),
{
    if vols.len() == 0 {
        0
    } else if vols[0].uuid == uuid {
        0
    } else {
        1 + vol_index_of(vols.drop_first(), uuid)
    }
}

/// The volume with the given UUID, if any.
pub open spec fn vol_lookup(vols: Seq<VolumeView>, uuid: Seq<char>) -> Option<VolumeView> {
    let i = vol_index_of(vols, uuid);
    if i < vols.len() {
        Some(vols[i])
    } else {
        None
    }
}

/// `vol_index_of` points at the first volume with the UUID, and past the
/// end exactly when no volume has it.
pub proof fn lemma_vol_index_of(vols: Seq<VolumeView>, uuid: Seq<char>)
    ensures
        0 <= vol_index_of(vols, uuid) <= vols.len(),
        vol_index_of(vols, uuid) < vols.len() ==> vols[vol_index_of(vols, uuid)].uuid == uuid,
        forall|j: int| 0 <= j < vol_index_of(vols, uuid) ==> vols[j].uuid != uuid,
    decreases vols.len(),
{
    if vols.len() > 0 && vols[0].uuid != uuid {
        lemma_vol_index_of(vols.drop_first(), uuid);
        assert forall|j: int| 0 <= j < vol_index_of(vols, uuid) implies vols[j].uuid != uuid by {
            if j > 0 {
                assert(vols.drop_first()[j - 1] == vols[j]);
            }
        }
    }
}

/// In a well-formed registry, no two volumes share a UUID.
pub open spec fn uuids_unique(vols: Seq<VolumeView>) -> bool {
    forall|i: int, j: int|
        0 <= i < j < vols.len() ==> vols[i].uuid != vols[j].uuid
}

/// Number of live clones of the snapshot with UUID `snap_uuid`.
pub open spec fn count_clones(vols: Seq<VolumeView>, snap_uuid: Seq<char>) -> nat
    decreases vols.len(),
{
    if vols.len() == 0 {
        0
    } else {
        count_clones(vols.drop_last(), snap_uuid) + if vols.last().is_clone_of(snap_uuid) {
            1nat
        } else {
            0nat
        }
    }
}

/// UUIDs of the live clones of the snapshot, in registry order.
pub open spec fn clones_of(vols: Seq<VolumeView>, snap_uuid: Seq<char>) -> Seq<Seq<char>>
    decreases vols.len(),
{
    if vols.len() == 0 {
        Seq::empty()
    } else if vols.last().is_clone_of(snap_uuid) {
        clones_of(vols.drop_last(), snap_uuid).push(vols.last().uuid)
    } else {
        clones_of(vols.drop_last(), snap_uuid)
    }
}

/// Every clone of the snapshot appears in the clone listing.
pub proof fn lemma_clones_of_complete(vols: Seq<VolumeView>, snap_uuid: Seq<char>, j: int)
    requires
        0 <= j < vols.len(),
        vols[j].is_clone_of(snap_uuid),
    ensures
        clones_of(vols, snap_uuid).contains(vols[j].uuid),
    decreases vols.len(),
{
    let r = clones_of(vols, snap_uuid);
    if j == vols.len() - 1 {
        assert(r[r.len() - 1] == vols[j].uuid);
    } else {
        assert(vols.drop_last()[j] == vols[j]);
        lemma_clones_of_complete(vols.drop_last(), snap_uuid, j);
        let rest = clones_of(vols.drop_last(), snap_uuid);
        let wi = choose|i: int| 0 <= i < rest.len() && rest[i] == vols[j].uuid;
        if vols.last().is_clone_of(snap_uuid) {
            assert(r[wi] == vols[j].uuid);
        } else {
            assert(r[wi] == vols[j].uuid);
        }
    }
}

/// Everything in the clone listing is the UUID of a clone of the
/// snapshot.
pub proof fn lemma_clones_of_elements(vols: Seq<VolumeView>, snap_uuid: Seq<char>, idx: int)
    requires
        0 <= idx < clones_of(vols, snap_uuid).len(),
    ensures
        exists|j: int|
            0 <= j < vols.len() && (#[trigger] vols[j]).is_clone_of(snap_uuid) && vols[j].uuid
                == clones_of(vols, snap_uuid)[idx],
    decreases vols.len(),
{
    let r = clones_of(vols, snap_uuid);
    if vols.last().is_clone_of(snap_uuid) && idx == r.len() - 1 {
        assert(vols[vols.len() - 1].is_clone_of(snap_uuid) && vols[vols.len() - 1].uuid == r[idx]);
    } else {
        lemma_clones_of_elements(vols.drop_last(), snap_uuid, idx);
        let j0 = choose|j: int|
            0 <= j < vols.drop_last().len() && (#[trigger] vols.drop_last()[j]).is_clone_of(
                snap_uuid,
            ) && vols.drop_last()[j].uuid == clones_of(vols.drop_last(), snap_uuid)[idx];
        assert(vols[j0].is_clone_of(snap_uuid) && vols[j0].uuid == r[idx]);
    }
}

/// The clone count is the length of the clone listing.
pub proof fn lemma_count_clones_is_len(vols: Seq<VolumeView>, snap_uuid: Seq<char>)
    ensures
        count_clones(vols, snap_uuid) == clones_of(vols, snap_uuid).len(),
    decreases vols.len(),
{
    if vols.len() > 0 {
        lemma_count_clones_is_len(vols.drop_last(), snap_uuid);
    }
}

/// A typed event published on the outgoing bus after a successful
/// management operation.
#[derive(Clone, Copy, Debug, PartialEq, Eq, Structural)]
pub enum EventAction {
    Create,
    Delete,
}

/// One emitted event: the action and the identifier of the entity.
pub struct EventRecord {
    pub action: EventAction,
    pub id: String,
}

/// The mathematical content of an event.
#[verifier::ext_equal]
pub ghost struct EventView {
    pub action: EventAction,
    pub id: Seq<char>,
}

impl View for EventRecord {
    type V = EventView;

    open spec fn view(&self) -> EventView {
        EventView { action: self.action, id: self.id@ }
    }
}

/// The sequence of emitted events.
pub open spec fn eview(evs: Seq<EventRecord>) -> Seq<EventView> {
    evs.map_values(|e: EventRecord| e@)
}

/// The process-wide device registry, together with the events the engine
/// has emitted on the outgoing bus.
pub struct Registry {
    pub volumes: Vec<Volume>,
    pub events: Vec<EventRecord>,
}

impl Registry {
    /// All volume contents, in registry order.
    pub open spec fn vols(&self) -> Seq<VolumeView> {
        rview(self.volumes@)
    }

    /// All emitted events, oldest first.
    pub open spec fn evs(&self) -> Seq<EventView> {
        eview(self.events@)
    }

    /// No two volumes share a UUID.
    pub open spec fn wf(&self) -> bool {
        uuids_unique(self.vols())
    }

    /// An empty registry with no device.
    pub fn new() -> (r: Registry)
        ensures
            r.vols() == Seq::<VolumeView>::empty(),
            r.evs() == Seq::<EventView>::empty(),
            r.wf(),
    {
        let r = Registry { volumes: Vec::new(), events: Vec::new() };
        proof {
            assert(r.vols() =~= Seq::<VolumeView>::empty());
            assert(r.evs() =~= Seq::<EventView>::empty());
        }
        r
    }

    /// O(n) lookup of a volume's position by UUID.
    pub fn find_index(&self, uuid: &str) -> (r: Option<usize>)
        ensures
            r matches Some(i) ==> i == vol_index_of(self.vols(), uuid@) && i < self.vols().len(),
            r is None ==> vol_lookup(self.vols(), uuid@) is None,
    {
        let ghost vs = self.vols();
        let uuid_s: String = uuid.to_owned();
        let mut i: usize = 0;
        while i < self.volumes.len()
            invariant
                0 <= i <= self.volumes.len(),
                uuid_s@ == uuid@,
                vs == self.vols(),
                vs.len() == self.volumes@.len(),
                forall|j: int| 0 <= j < i ==> vs[j].uuid != uuid@,
            decreases self.volumes.len() - i,
        {
            if self.volumes[i].uuid == uuid_s {
                proof {
                    assert(vs[i as int] == self.volumes@[i as int]@);
                    lemma_vol_index_of(vs, uuid@);
                    let idx = vol_index_of(vs, uuid@);
                    if idx < i as int {
                        assert(vs[idx].uuid == uuid@);
                        assert(false);
                    }
                    if idx > i as int {
                        assert(vs[i as int].uuid != uuid@);
                        assert(false);
                    }
                }
                return Some(i);
            }
            i += 1;
        }
        proof {
            lemma_vol_index_of(vs, uuid@);
            let idx = vol_index_of(vs, uuid@);
            if idx < vs.len() as int {
                assert(vs[idx].uuid == uuid@);
                assert(false);
            }
        }
        None
    }

    /// Whether some volume already carries this blob name.
    pub fn has_name(&self, name: &str) -> (r: bool)
        ensures
            r == exists|j: int| 0 <= j < self.vols().len() && self.vols()[j].name == name@,
    {
        let ghost vs = self.vols();
        let name_s: String = name.to_owned();
        let mut i: usize = 0;
        while i < self.volumes.len()
            invariant
                0 <= i <= self.volumes.len(),
                name_s@ == name@,
                vs == self.vols(),
                vs.len() == self.volumes@.len(),
                forall|j: int| 0 <= j < i ==> vs[j].name != name@,
            decreases self.volumes.len() - i,
        {
            if self.volumes[i].name == name_s {
                proof {
                    assert(vs[i as int] == self.volumes@[i as int]@);
                }
                return true;
            }
            i += 1;
        }
        false
    }

    /// List clones based on the snapshot's UUID: every volume whose
    /// recorded source is that snapshot, by UUID, in registry order.
    pub fn list_clones_by_snapshot_uuid(&self, snap_uuid: &str) -> (r: Vec<String>)
        ensures
            r@.map_values(|s: String| s@) == clones_of(self.vols(), snap_uuid@),
    {
        let ghost vs = self.vols();
        let mut r: Vec<String> = Vec::new();
        let mut i: usize = 0;
        while i < self.volumes.len()
            invariant
                0 <= i <= self.volumes.len(),
                vs == self.vols(),
                vs.len() == self.volumes@.len(),
                r@.map_values(|s: String| s@) == clones_of(vs.take(i as int), snap_uuid@),
            decreases self.volumes.len() - i,
        {
            proof {
                assert(vs.take(i + 1).drop_last() =~= vs.take(i as int));
                assert(vs.take(i + 1).last() == vs[i as int]);
                assert(vs[i as int] == self.volumes@[i as int]@);
            }
            let source = self.volumes[i].get_blob_xattr(CloneXattrs::SourceUuid.name());
            let matched = match &source {
                Some(s) => {
                    let snap_s: String = snap_uuid.to_owned();
                    *s == snap_s
                },
                None => false,
            };
            if matched {
                r.push(self.volumes[i].uuid.clone());
                proof {
                    assert(r@.map_values(|s: String| s@) =~= clones_of(
                        vs.take(i + 1),
                        snap_uuid@,
                    ));
                }
            } else {
                proof {
                    assert(vs[i as int].clone_source() != Some(snap_uuid@));
                    assert(r@.map_values(|s: String| s@) =~= clones_of(
                        vs.take(i + 1),
                        snap_uuid@,
                    ));
                }
            }
            i += 1;
        }
        proof {
            assert(vs.take(vs.len() as int) =~= vs);
        }
        r
    }

    /// Number of live clones of the snapshot.
    pub fn num_clones_of(&self, snap_uuid: &str) -> (r: usize)
        ensures
            r == count_clones(self.vols(), snap_uuid@),
    {
        let list = self.list_clones_by_snapshot_uuid(snap_uuid);
        proof {
            lemma_count_clones_is_len(self.vols(), snap_uuid@);
            assert(list@.map_values(|s: String| s@).len() == list@.len());
        }
        list.len()
    }
}

} // verus!

//! The snapshot/clone engine: creation, enumeration, destruction and
//! garbage collection of snapshots and clones, verified against the
//! registry model.
//!
//! Every operation's contract states the exact registry transform it
//! performs, so the snapshot/clone graph invariants are provable from the
//! contracts alone.

use vstd::prelude::*;

use crate::errors::{BsError, LvsError};
use crate::params::{
    clone_xattrs_of, snapshot_params_of, snapshot_xattrs_complete, snapshot_xattrs_of,
    CloneParams, SnapshotParams, SnapshotParamsView,
};
use crate::registry::{
    count_clones, vol_index_of, vol_lookup, EventAction, EventRecord, EventView, Registry, Volume,
    VolumeView,
};
use crate::xattrs::{xattr_find, SnapshotXattrs};

verus! {

/// Relies on `chrono::Utc::now` and `chrono::DateTime::to_rfc3339`: the
/// current UTC time rendered as a non-empty RFC 3339 string. `Utc::now`
/// panics if the system clock reads before the Unix epoch — an
/// environmental failure outside any caller's control.
#[verifier::external_body]
fn current_utc_time() -> (r: String)
    ensures
        r@.len() > 0,
{
    chrono::Utc::now().to_rfc3339()
}

/// The EEXIST errno the backend reports when a blob name or UUID is
/// already in use.
pub const EEXIST: i32 = 17;

/// The EINVAL errno the backend reports when a clone source is not a
/// snapshot.
pub const EINVAL: i32 = 22;

impl Volume {
    /// Assembles snapshot creation parameters for this volume.
    ///
    /// An empty name, entity id or transaction id is treated as absent and
    /// refuses the whole request; an empty snapshot UUID merely leaves the
    /// field unset so that serialization later names it. The creation time
    /// defaults to the current UTC time and the volume itself becomes the
    /// recorded parent.
    pub fn prepare_snap_config(
        &self,
        snap_name: &str,
        entity_id: &str,
        txn_id: &str,
        snap_uuid: &str,
    ) -> (r: Option<SnapshotParams>)
        ensures
            (snap_name@.len() == 0 || entity_id@.len() == 0 || txn_id@.len() == 0) <==> r is None,
            r matches Some(p) ==> p@.name == Some(snap_name@) && p@.entity_id == Some(entity_id@)
                && p@.txn_id == Some(txn_id@) && p@.parent_id == Some(self.uuid@)
                && p@.snapshot_uuid == (if snap_uuid@.len() == 0 {
                Option::<Seq<char>>::None
            } else {
                Option::<Seq<char>>::Some(snap_uuid@)
            }) && (p@.create_time matches Some(t) && t.len() > 0) && !p@.discarded_snapshot,
    {
        if snap_name.is_empty() {
            return None;
        }
        if entity_id.is_empty() {
            return None;
        }
        if txn_id.is_empty() {
            return None;
        }
        let snap_uuid_opt = if snap_uuid.is_empty() {
            None
        } else {
            Some(snap_uuid.to_owned())
        };
        Some(
            SnapshotParams::new(
                Some(entity_id.to_owned()),
                Some(self.uuid.clone()),
                Some(txn_id.to_owned()),
                Some(snap_name.to_owned()),
                snap_uuid_opt,
                Some(current_utc_time()),
                false,
            ),
        )
    }

    /// Assembles clone creation parameters. Any empty field refuses the
    /// request; the creation time defaults to the current UTC time.
    pub fn prepare_clone_config(
        &self,
        clone_name: &str,
        clone_uuid: &str,
        source_uuid: &str,
    ) -> (r: Option<CloneParams>)
        ensures
            (clone_name@.len() == 0 || clone_uuid@.len() == 0 || source_uuid@.len() == 0) <==> r
                is None,
            r matches Some(p) ==> p@.clone_name == Some(clone_name@) && p@.clone_uuid == Some(
                clone_uuid@,
            ) && p@.source_uuid == Some(source_uuid@) && (p@.clone_create_time matches Some(t)
                && t.len() > 0),
    {
        if clone_name.is_empty() {
            return None;
        }
        if clone_uuid.is_empty() {
            return None;
        }
        if source_uuid.is_empty() {
            return None;
        }
        Some(
            CloneParams::new(
                Some(clone_name.to_owned()),
                Some(clone_uuid.to_owned()),
                Some(source_uuid.to_owned()),
                Some(current_utc_time()),
            ),
        )
    }

    /// Whether this snapshot blob carries the discarded mark.
    pub fn is_discarded_snapshot(&self) -> (r: bool)
        ensures
            r == self@.is_discarded(),
    {
        match self.get_blob_xattr(SnapshotXattrs::DiscardedSnapshot.name()) {
            Some(v) => crate::params::text_to_bool(&v),
            None => false,
        }
    }
}

/// The new snapshot volume that creating from `src` with parameters `p`
/// adds: a read-only blob holding exactly the six snapshot attributes,
/// spliced between the source and the source's previous parent.
pub open spec fn snapshot_volume_of(src: VolumeView, p: SnapshotParamsView) -> VolumeView {
    VolumeView {
        uuid: p.snapshot_uuid.unwrap(),
        name: p.name.unwrap(),
        size: src.size,
        allocated_bytes: 0,
        allocated_bytes_snapshots: 0,
        is_snapshot: true,
        parent_uuid: src.parent_uuid,
        xattrs: snapshot_xattrs_of(p),
        usage_cached: true,
    }
}

/// The registry after a snapshot of the volume at `i` is created: the new
/// snapshot inherits the source's parent and becomes the source's parent.
pub open spec fn create_snapshot_transform(
    vols: Seq<VolumeView>,
    i: int,
    p: SnapshotParamsView,
) -> Seq<VolumeView> {
    let src = vols[i];
    vols.update(
        i,
        VolumeView { parent_uuid: Some(p.snapshot_uuid.unwrap()), ..src },
    ).push(snapshot_volume_of(src, p))
}

/// The snapshot's UUID or blob name is already in use.
pub open spec fn snapshot_ids_taken(vols: Seq<VolumeView>, p: SnapshotParamsView) -> bool {
    ||| vol_lookup(vols, p.snapshot_uuid.unwrap()) is Some
    ||| exists|j: int| 0 <= j < vols.len() && vols[j].name == p.name.unwrap()
}

impl Registry {
    /// Creates a snapshot of the volume `source_uuid` with the given
    /// parameters, persisting exactly the six snapshot attributes on the
    /// new blob and emitting a creation event.
    ///
    /// * An unknown source refuses the request.
    /// * A missing required parameter is a config error; the backend is
    ///   never reached and the registry is unchanged.
    /// * A UUID or name collision is the backend's EEXIST, surfaced with
    ///   the sign inverted.
    pub fn create_snapshot(&mut self, source_uuid: &str, params: SnapshotParams) -> (r: Result<
        String,
        LvsError,
    >)
        requires
            old(self).wf(),
            params@.name is Some,
        ensures
            final(self).wf(),
            vol_lookup(old(self).vols(), source_uuid@) is None ==> *final(self) == *old(self) && (
            r matches Err(LvsError::InvalidBdev { name }) && name@ == source_uuid@),
            vol_lookup(old(self).vols(), source_uuid@) is Some && !params@.is_complete()
                ==> *final(self) == *old(self) && (r matches Err(LvsError::SnapshotConfigFailed {
                name,
                msg,
            }) && name@ == vol_lookup(old(self).vols(), source_uuid@).unwrap().name && msg@
                == crate::params::snapshot_config_missing_msg(params@)),
            vol_lookup(old(self).vols(), source_uuid@) is Some && params@.is_complete()
                && snapshot_ids_taken(old(self).vols(), params@) ==> *final(self) == *old(self)
                && (r matches Err(LvsError::SnapshotCreate { source, msg }) && source.value == 17
                && msg@ == params@.name.unwrap()),
            vol_lookup(old(self).vols(), source_uuid@) is Some && params@.is_complete()
                && !snapshot_ids_taken(old(self).vols(), params@) ==> final(self).vols()
                == create_snapshot_transform(
                old(self).vols(),
                vol_index_of(old(self).vols(), source_uuid@),
                params@,
            ) && final(self).evs() == old(self).evs().push(
                EventView { action: EventAction::Create, id: params@.snapshot_uuid.unwrap() },
            ) && (r matches Ok(u) && u@ == params@.snapshot_uuid.unwrap()),
    {
        let ghost vols0 = self.vols();
        let idx = match self.find_index(source_uuid) {
            Some(i) => i,
            None => {
                return Err(LvsError::InvalidBdev { name: source_uuid.to_owned() });
            },
        };
        let src_name = self.volumes[idx].name.clone();
        let xattrs = match params.prepare_snapshot_xattrs(src_name.as_str()) {
            Ok(x) => x,
            Err(e) => {
                return Err(e);
            },
        };
        let snap_uuid = match &params.snapshot_uuid {
            Some(u) => u.clone(),
            None => {
                proof {
                    assert(false);
                }
                String::new()
            },
        };
        let snap_name = match &params.name {
            Some(n) => n.clone(),
            None => {
                proof {
                    assert(false);
                }
                String::new()
            },
        };
        if self.find_index(snap_uuid.as_str()).is_some() || self.has_name(snap_name.as_str()) {
            return Err(LvsError::SnapshotCreate { source: BsError { value: EEXIST }, msg: snap_name });
        }
        let old_parent = match &self.volumes[idx].parent_uuid {
            Some(p) => Some(p.clone()),
            None => None,
        };
        let mut updated = self.volumes[idx].duplicate();
        updated.parent_uuid = Some(snap_uuid.clone());
        let new_vol = Volume {
            uuid: snap_uuid.clone(),
            name: snap_name,
            size: updated.size,
            allocated_bytes: 0,
            allocated_bytes_snapshots: 0,
            is_snapshot: true,
            parent_uuid: old_parent,
            xattrs,
            usage_cached: true,
        };
        self.volumes.set(idx, updated);
        self.volumes.push(new_vol);
        self.events.push(EventRecord { action: EventAction::Create, id: snap_uuid.clone() });
        proof {
            let vols1 = self.vols();
            let t = create_snapshot_transform(vols0, idx as int, params@);
            assert forall|j: int| 0 <= j < vols1.len() implies vols1[j] == t[j] by {
                assert(vols1[j] == self.volumes@[j]@);
            }
            assert(vols1 =~= t);
            assert(final(self).evs() =~= old(self).evs().push(
                EventView { action: EventAction::Create, id: params@.snapshot_uuid.unwrap() },
            ));
            crate::registry::lemma_vol_index_of(vols0, params@.snapshot_uuid.unwrap());
            assert forall|a: int, b: int| 0 <= a < b < vols1.len() implies vols1[a].uuid
                != vols1[b].uuid by {
                if b == vols1.len() - 1 {
                    assert(vols1[a].uuid == vols0[a].uuid);
                }
            }
        }
        Ok(snap_uuid)
    }

    /// Creates a writable clone of the snapshot `snapshot_uuid`,
    /// persisting exactly the three clone attributes on the new blob and
    /// emitting a creation event.
    ///
    /// The engine does not insist the source is a snapshot; the backend
    /// refuses such a request with EINVAL, and a UUID or name collision
    /// with EEXIST, both surfaced with the sign inverted.
    pub fn create_clone(&mut self, snapshot_uuid: &str, params: CloneParams) -> (r: Result<
        String,
        LvsError,
    >)
        requires
            old(self).wf(),
        ensures
            final(self).wf(),
            vol_lookup(old(self).vols(), snapshot_uuid@) is None ==> *final(self) == *old(self)
                && (r matches Err(LvsError::InvalidBdev { name }) && name@ == snapshot_uuid@),
            vol_lookup(old(self).vols(), snapshot_uuid@) is Some && !params@.is_complete()
                ==> *final(self) == *old(self) && (r matches Err(LvsError::CloneConfigFailed {
                name,
                msg,
            }) && name@ == vol_lookup(old(self).vols(), snapshot_uuid@).unwrap().name && msg@
                == crate::params::clone_config_missing_msg(params@)),
            vol_lookup(old(self).vols(), snapshot_uuid@) is Some && params@.is_complete()
                && !vol_lookup(old(self).vols(), snapshot_uuid@).unwrap().is_snapshot
                ==> *final(self) == *old(self) && (r matches Err(LvsError::SnapshotCloneCreate {
                source,
                msg,
            })
                && source.value == 22),
            vol_lookup(old(self).vols(), snapshot_uuid@) is Some && params@.is_complete()
                && vol_lookup(old(self).vols(), snapshot_uuid@).unwrap().is_snapshot
                && clone_ids_taken(old(self).vols(), params@) ==> *final(self) == *old(self) && (
            r matches Err(LvsError::SnapshotCloneCreate { source, msg }) && source.value == 17),
            vol_lookup(old(self).vols(), snapshot_uuid@) is Some && params@.is_complete()
                && vol_lookup(old(self).vols(), snapshot_uuid@).unwrap().is_snapshot
                && !clone_ids_taken(old(self).vols(), params@) ==> final(self).vols() == old(
                self,
            ).vols().push(
                clone_volume_of(vol_lookup(old(self).vols(), snapshot_uuid@).unwrap(), params@),
            ) && final(self).evs() == old(self).evs().push(
                EventView { action: EventAction::Create, id: params@.clone_uuid.unwrap() },
            ) && (r matches Ok(u) && u@ == params@.clone_uuid.unwrap()),
    {
        let ghost vols0 = self.vols();
        let idx = match self.find_index(snapshot_uuid) {
            Some(i) => i,
            None => {
                return Err(LvsError::InvalidBdev { name: snapshot_uuid.to_owned() });
            },
        };
        let src_name = self.volumes[idx].name.clone();
        let xattrs = match params.prepare_clone_xattrs(src_name.as_str()) {
            Ok(x) => x,
            Err(e) => {
                return Err(e);
            },
        };
        let clone_name = match &params.clone_name {
            Some(n) => n.clone(),
            None => {
                proof {
                    assert(false);
                }
                String::new()
            },
        };
        let clone_uuid = match &params.clone_uuid {
            Some(u) => u.clone(),
            None => {
                proof {
                    assert(false);
                }
                String::new()
            },
        };
        if !self.volumes[idx].is_snapshot {
            return Err(
                LvsError::SnapshotCloneCreate { source: BsError { value: EINVAL }, msg: clone_name },
            );
        }
        if self.find_index(clone_uuid.as_str()).is_some() || self.has_name(clone_name.as_str()) {
            return Err(
                LvsError::SnapshotCloneCreate { source: BsError { value: EEXIST }, msg: clone_name },
            );
        }
        let snap_uuid_own = self.volumes[idx].uuid.clone();
        let new_vol = Volume {
            uuid: clone_uuid.clone(),
            name: clone_name,
            size: self.volumes[idx].size,
            allocated_bytes: 0,
            allocated_bytes_snapshots: 0,
            is_snapshot: false,
            parent_uuid: Some(snap_uuid_own),
            xattrs,
            usage_cached: true,
        };
        self.volumes.push(new_vol);
        self.events.push(EventRecord { action: EventAction::Create, id: clone_uuid.clone() });
        proof {
            let vols1 = self.vols();
            let t = vols0.push(clone_volume_of(vol_lookup(vols0, snapshot_uuid@).unwrap(), params@));
            assert forall|j: int| 0 <= j < vols1.len() implies vols1[j] == t[j] by {
                assert(vols1[j] == self.volumes@[j]@);
            }
            assert(vols1 =~= t);
            assert(final(self).evs() =~= old(self).evs().push(
                EventView { action: EventAction::Create, id: params@.clone_uuid.unwrap() },
            ));
            crate::registry::lemma_vol_index_of(vols0, params@.clone_uuid.unwrap());
            assert forall|a: int, b: int| 0 <= a < b < vols1.len() implies vols1[a].uuid
                != vols1[b].uuid by {
                if b == vols1.len() - 1 {
                    assert(vols1[a].uuid == vols0[a].uuid);
                }
            }
        }
        Ok(clone_uuid)
    }
}

/// The new clone volume: a writable blob whose blob-chain parent is the
/// source snapshot and which holds exactly the three clone attributes.
pub open spec fn clone_volume_of(snap: VolumeView, p: crate::params::CloneParamsView) -> VolumeView {
    VolumeView {
        uuid: p.clone_uuid.unwrap(),
        name: match p.clone_name {
            Some(n) => n,
            None => Seq::empty(),
        },
        size: snap.size,
        allocated_bytes: 0,
        allocated_bytes_snapshots: 0,
        is_snapshot: false,
        parent_uuid: Some(snap.uuid),
        xattrs: clone_xattrs_of(p),
        usage_cached: true,
    }
}

/// The clone's UUID or blob name is already in use.
pub open spec fn clone_ids_taken(vols: Seq<VolumeView>, p: crate::params::CloneParamsView) -> bool {
    ||| vol_lookup(vols, p.clone_uuid.unwrap()) is Some
    ||| exists|j: int|
        0 <= j < vols.len() && vols[j].name == (match p.clone_name {
            Some(n) => n,
            None => Seq::<char>::empty(),
        })
}

/// Everything a snapshot listing reports about one snapshot: the snapshot
/// itself, its recorded parent, its allocation, the parameters read back
/// from its attributes, how many clones pin it, and whether all required
/// attributes were present.
pub struct VolumeSnapshotDescriptor {
    pub snapshot_uuid: String,
    pub parent_uuid: String,
    pub allocated_bytes: u64,
    pub snapshot_params: SnapshotParams,
    pub num_clones: u64,
    pub valid: bool,
}

/// The mathematical content of a snapshot descriptor.
#[verifier::ext_equal]
pub ghost struct DescriptorView {
    pub snapshot_uuid: Seq<char>,
    pub parent_uuid: Seq<char>,
    pub allocated_bytes: u64,
    pub snapshot_params: SnapshotParamsView,
    pub num_clones: nat,
    pub valid: bool,
}

impl View for VolumeSnapshotDescriptor {
    type V = DescriptorView;

    open spec fn view(&self) -> DescriptorView {
        DescriptorView {
            snapshot_uuid: self.snapshot_uuid@,
            parent_uuid: self.parent_uuid@,
            allocated_bytes: self.allocated_bytes,
            snapshot_params: self.snapshot_params@,
            num_clones: self.num_clones as nat,
            valid: self.valid,
        }
    }
}

/// The UUID of the volume the snapshot was taken from, as its attributes
/// record it; empty when the attribute is missing.
pub open spec fn desc_source(d: DescriptorView) -> Seq<char> {
    match d.snapshot_params.parent_id {
        Some(p) => p,
        None => Seq::empty(),
    }
}

impl VolumeSnapshotDescriptor {
    /// The UUID of the volume this snapshot was taken from.
    pub fn source_uuid(&self) -> (r: String)
        ensures
            r@ == desc_source(self@),
    {
        match &self.snapshot_params.parent_id {
            Some(p) => p.clone(),
            None => String::new(),
        }
    }
}

/// The descriptors of a listing, as mathematical values.
pub open spec fn descs_view(ds: Seq<VolumeSnapshotDescriptor>) -> Seq<DescriptorView> {
    ds.map_values(|d: VolumeSnapshotDescriptor| d@)
}

/// The descriptor built for the snapshot volume `v`, or `None` when a
/// parent filter is given and `v`'s recorded parent differs from it.
///
/// The descriptor is still produced, with `valid == false`, when required
/// attributes are missing, so callers can reason about
/// partially-initialised snapshots.
pub open spec fn descriptor_of(
    vols: Seq<VolumeView>,
    v: VolumeView,
    filter: Option<Seq<char>>,
) -> Option<DescriptorView> {
    let params = snapshot_params_of(v.name, v.xattrs);
    let recorded_parent = xattr_find(v.xattrs, SnapshotXattrs::ParentId.key());
    if filter is Some && recorded_parent is Some && recorded_parent != Some(filter.unwrap()) {
        None
    } else {
        Some(
            DescriptorView {
                snapshot_uuid: v.uuid,
                parent_uuid: match filter {
                    Some(pu) => pu,
                    None => match params.parent_id {
                        Some(pid) => if vol_lookup(vols, pid) is Some {
                            pid
                        } else {
                            Seq::empty()
                        },
                        None => Seq::empty(),
                    },
                },
                allocated_bytes: v.allocated_bytes,
                snapshot_params: params,
                num_clones: count_clones(vols, v.uuid),
                valid: snapshot_xattrs_complete(v.xattrs),
            },
        )
    }
}

/// The view of an optional borrowed string filter.
pub open spec fn filter_view(f: Option<&str>) -> Option<Seq<char>> {
    match f {
        Some(s) => Some(s@),
        None => None,
    }
}

impl Registry {
    /// Builds the listing descriptor for the snapshot `snap_uuid`,
    /// dropping it when `parent_filter` is given and the snapshot's
    /// recorded parent is another volume.
    pub fn snapshot_descriptor(&self, snap_uuid: &str, parent_filter: Option<&str>) -> (r: Option<
        VolumeSnapshotDescriptor,
    >)
        ensures
            vol_lookup(self.vols(), snap_uuid@) is None ==> r is None,
            vol_lookup(self.vols(), snap_uuid@) matches Some(v) ==> (match descriptor_of(
                self.vols(),
                v,
                filter_view(parent_filter),
            ) {
                Some(d) => r matches Some(rd) && rd@ == d,
                None => r is None,
            }),
    {
        let idx = match self.find_index(snap_uuid) {
            Some(i) => i,
            None => {
                return None;
            },
        };
        let v = &self.volumes[idx];
        let (params, valid) = crate::params::read_snapshot_params(&v.name, &v.xattrs);
        let recorded_parent = v.get_blob_xattr(SnapshotXattrs::ParentId.name());
        let parent_uuid: String = match parent_filter {
            Some(pf) => {
                if let Some(rp) = &recorded_parent {
                    let pf_s: String = pf.to_owned();
                    if *rp != pf_s {
                        return None;
                    }
                }
                pf.to_owned()
            },
            None => {
                match &params.parent_id {
                    Some(pid) => {
                        if self.find_index(pid.as_str()).is_some() {
                            pid.clone()
                        } else {
                            String::new()
                        }
                    },
                    None => String::new(),
                }
            },
        };
        let num_clones = self.num_clones_of(v.uuid.as_str()) as u64;
        Some(
            VolumeSnapshotDescriptor {
                snapshot_uuid: v.uuid.clone(),
                parent_uuid,
                allocated_bytes: v.allocated_bytes,
                snapshot_params: params,
                num_clones,
                valid,
            },
        )
    }

    /// Lists the single snapshot with the given UUID, if the registry
    /// holds it.
    pub fn list_snapshot_by_snapshot_uuid(&self, snap_uuid: &str) -> (r: Vec<
        VolumeSnapshotDescriptor,
    >)
        ensures
            vol_lookup(self.vols(), snap_uuid@) is None ==> descs_view(r@) == Seq::<
                DescriptorView,
            >::empty(),
            vol_lookup(self.vols(), snap_uuid@) matches Some(v) ==> descs_view(r@) == seq![
                descriptor_of(self.vols(), v, None).unwrap(),
            ],
    {
        let mut r: Vec<VolumeSnapshotDescriptor> = Vec::new();
        if let Some(d) = self.snapshot_descriptor(snap_uuid, None) {
            r.push(d);
        }
        proof {
            if vol_lookup(self.vols(), snap_uuid@) is Some {
                let v = vol_lookup(self.vols(), snap_uuid@).unwrap();
                assert(descriptor_of(self.vols(), v, None) is Some);
                assert(descs_view(r@) =~= seq![descriptor_of(self.vols(), v, None).unwrap()]);
            } else {
                assert(descs_view(r@) =~= Seq::<DescriptorView>::empty());
            }
        }
        r
    }
}

/// In a registry with unique UUIDs, looking a volume up by its own UUID
/// finds exactly it.
pub proof fn lemma_wf_lookup_self(vols: Seq<VolumeView>, i: int)
    requires
        crate::registry::uuids_unique(vols),
        0 <= i < vols.len(),
    ensures
        vol_index_of(vols, vols[i].uuid) == i,
        vol_lookup(vols, vols[i].uuid) == Some(vols[i]),
{
    crate::registry::lemma_vol_index_of(vols, vols[i].uuid);
    let idx = vol_index_of(vols, vols[i].uuid);
    if idx < i {
        assert(vols[idx].uuid == vols[i].uuid);
        assert(false);
    }
    if idx > i {
        assert(vols[i].uuid != vols[i].uuid);
        assert(false);
    }
}

/// The snapshots a full scan reports: every snapshot volume in `prefix`,
/// in registry order, described against `all`, honouring the parent
/// filter.
pub open spec fn list_all_spec(
    prefix: Seq<VolumeView>,
    all: Seq<VolumeView>,
    filter: Option<Seq<char>>,
) -> Seq<DescriptorView>
    decreases prefix.len(),
{
    if prefix.len() == 0 {
        Seq::empty()
    } else {
        let rest = list_all_spec(prefix.drop_last(), all, filter);
        if prefix.last().is_snapshot {
            match descriptor_of(all, prefix.last(), filter) {
                Some(d) => rest.push(d),
                None => rest,
            }
        } else {
            rest
        }
    }
}

impl Volume {
    /// The UUID of the snapshot this volume clones, when it is a clone.
    pub fn is_snapshot_clone(&self) -> (r: Option<String>)
        ensures
            r matches Some(u) ==> self@.clone_source() == Some(u@),
            r is None ==> self@.clone_source() is None,
    {
        self.get_blob_xattr(crate::xattrs::CloneXattrs::SourceUuid.name())
    }
}

impl Registry {
    /// Lists all snapshots, optionally only those whose recorded parent
    /// is `parent_uuid`.
    pub fn list_all_snapshots(&self, parent_uuid: Option<&str>) -> (r: Vec<
        VolumeSnapshotDescriptor,
    >)
        requires
            self.wf(),
        ensures
            descs_view(r@) == list_all_spec(self.vols(), self.vols(), filter_view(parent_uuid)),
    {
        let ghost vols = self.vols();
        let ghost f = filter_view(parent_uuid);
        let mut r: Vec<VolumeSnapshotDescriptor> = Vec::new();
        let mut i: usize = 0;
        while i < self.volumes.len()
            invariant
                0 <= i <= self.volumes.len(),
                self.wf(),
                vols == self.vols(),
                f == filter_view(parent_uuid),
                vols.len() == self.volumes@.len(),
                descs_view(r@) == list_all_spec(vols.take(i as int), vols, f),
            decreases self.volumes.len() - i,
        {
            proof {
                assert(vols.take(i + 1).drop_last() =~= vols.take(i as int));
                assert(vols.take(i + 1).last() == vols[i as int]);
                assert(vols[i as int] == self.volumes@[i as int]@);
                lemma_wf_lookup_self(vols, i as int);
            }
            if self.volumes[i].is_snapshot {
                let uuid = self.volumes[i].uuid.clone();
                match self.snapshot_descriptor(uuid.as_str(), parent_uuid) {
                    Some(d) => {
                        r.push(d);
                        proof {
                            assert(descs_view(r@) =~= list_all_spec(vols.take(i + 1), vols, f));
                        }
                    },
                    None => {
                        proof {
                            assert(descs_view(r@) =~= list_all_spec(vols.take(i + 1), vols, f));
                        }
                    },
                }
            } else {
                proof {
                    assert(descs_view(r@) =~= list_all_spec(vols.take(i + 1), vols, f));
                }
            }
            i += 1;
        }
        proof {
            assert(vols.take(vols.len() as int) =~= vols);
        }
        r
    }

    /// Lists all clones in the registry, by UUID, in registry order.
    pub fn list_all_clones(&self) -> (r: Vec<String>)
        ensures
            r@.map_values(|s: String| s@) == all_clones_spec(self.vols()),
    {
        let ghost vols = self.vols();
        let mut r: Vec<String> = Vec::new();
        let mut i: usize = 0;
        while i < self.volumes.len()
            invariant
                0 <= i <= self.volumes.len(),
                vols == self.vols(),
                vols.len() == self.volumes@.len(),
                r@.map_values(|s: String| s@) == all_clones_spec(vols.take(i as int)),
            decreases self.volumes.len() - i,
        {
            proof {
                assert(vols.take(i + 1).drop_last() =~= vols.take(i as int));
                assert(vols.take(i + 1).last() == vols[i as int]);
                assert(vols[i as int] == self.volumes@[i as int]@);
            }
            if self.volumes[i].is_snapshot_clone().is_some() {
                r.push(self.volumes[i].uuid.clone());
            }
            proof {
                assert(r@.map_values(|s: String| s@) =~= all_clones_spec(vols.take(i + 1)));
            }
            i += 1;
        }
        proof {
            assert(vols.take(vols.len() as int) =~= vols);
        }
        r
    }
}

/// UUIDs of all volumes that record a clone source, in registry order.
pub open spec fn all_clones_spec(vols: Seq<VolumeView>) -> Seq<Seq<char>>
    decreases vols.len(),
{
    if vols.len() == 0 {
        Seq::empty()
    } else if vols.last().clone_source() is Some {
        all_clones_spec(vols.drop_last()).push(vols.last().uuid)
    } else {
        all_clones_spec(vols.drop_last())
    }
}

/// One step up the parent chain from `cur`: the parent blob is found by
/// the back-pointer, its recorded snapshot UUID names the snapshot
/// volume, and that volume's descriptor is produced. The chain ends when
/// any of these is missing.
pub open spec fn chain_step(vols: Seq<VolumeView>, cur: VolumeView) -> Option<
    (DescriptorView, VolumeView),
> {
    match cur.parent_uuid {
        None => None,
        Some(pu) => match vol_lookup(vols, pu) {
            None => None,
            Some(pv) => match xattr_find(pv.xattrs, SnapshotXattrs::SnapshotUuid.key()) {
                None => None,
                Some(su) => match vol_lookup(vols, su) {
                    None => None,
                    Some(sv) => Some((descriptor_of(vols, sv, None).unwrap(), sv)),
                },
            },
        },
    }
}

/// The chain listing from `cur`: ancestors most-recent first, stopping at
/// the chain's end, at the first ancestor recorded for another source
/// volume, or when `fuel` runs out.
pub open spec fn chain_list(
    vols: Seq<VolumeView>,
    cur: VolumeView,
    src: Seq<char>,
    fuel: nat,
) -> Seq<DescriptorView>
    decreases fuel,
{
    if fuel == 0 {
        Seq::empty()
    } else {
        match chain_step(vols, cur) {
            None => Seq::empty(),
            Some(step) => {
                if desc_source(step.0) == src {
                    seq![step.0] + chain_list(vols, step.1, src, (fuel - 1) as nat)
                } else {
                    Seq::empty()
                }
            },
        }
    }
}

impl Registry {
    /// Lists the snapshots of the volume `vol_uuid` by walking its parent
    /// chain, most recent first. The walk stops at the first ancestor
    /// whose recorded source is another volume, which bounds the listing
    /// for clones whose chain continues into unrelated ancestors.
    pub fn list_snapshot_by_source_uuid(&self, vol_uuid: &str) -> (r: Vec<
        VolumeSnapshotDescriptor,
    >)
        requires
            self.wf(),
        ensures
            vol_lookup(self.vols(), vol_uuid@) is None ==> descs_view(r@) == Seq::<
                DescriptorView,
            >::empty(),
            vol_lookup(self.vols(), vol_uuid@) matches Some(v) ==> descs_view(r@) == chain_list(
                self.vols(),
                v,
                vol_uuid@,
                self.vols().len() as nat,
            ),
    {
        let ghost vols = self.vols();
        let mut r: Vec<VolumeSnapshotDescriptor> = Vec::new();
        let start_idx = match self.find_index(vol_uuid) {
            Some(i) => i,
            None => {
                proof {
                    assert(descs_view(r@) =~= Seq::<DescriptorView>::empty());
                }
                return r;
            },
        };
        let target: String = vol_uuid.to_owned();
        let mut cur_idx: usize = start_idx;
        let mut fuel: usize = self.volumes.len();
        proof {
            assert(descs_view(r@) + chain_list(vols, vols[cur_idx as int], vol_uuid@, fuel as nat)
                =~= chain_list(vols, vols[start_idx as int], vol_uuid@, vols.len() as nat));
        }
        while fuel > 0
            invariant
                self.wf(),
                vols == self.vols(),
                vols.len() == self.volumes@.len(),
                0 <= cur_idx < self.volumes.len(),
                0 <= start_idx < self.volumes.len(),
                fuel <= vols.len(),
                target@ == vol_uuid@,
                vol_lookup(vols, vol_uuid@) == Some(vols[start_idx as int]),
                descs_view(r@) + chain_list(vols, vols[cur_idx as int], vol_uuid@, fuel as nat)
                    =~= chain_list(vols, vols[start_idx as int], vol_uuid@, vols.len() as nat),
            decreases fuel,
        {
            let ghost cur_v = vols[cur_idx as int];
            proof {
                assert(cur_v == self.volumes@[cur_idx as int]@);
            }
            let parent_u = match &self.volumes[cur_idx].parent_uuid {
                Some(p) => p.clone(),
                None => {
                    proof {
                        assert(chain_step(vols, cur_v) is None);
                        assert(descs_view(r@) + Seq::<DescriptorView>::empty() =~= descs_view(
                            r@,
                        ));
                    }
                    return r;
                },
            };
            let p_idx = match self.find_index(parent_u.as_str()) {
                Some(i) => i,
                None => {
                    proof {
                        assert(chain_step(vols, cur_v) is None);
                        assert(descs_view(r@) + Seq::<DescriptorView>::empty() =~= descs_view(
                            r@,
                        ));
                    }
                    return r;
                },
            };
            let su = match self.volumes[p_idx].get_blob_xattr(SnapshotXattrs::SnapshotUuid.name())
            {
                Some(s) => s,
                None => {
                    proof {
                        assert(vols[p_idx as int] == self.volumes@[p_idx as int]@);
                        assert(chain_step(vols, cur_v) is None);
                        assert(descs_view(r@) + Seq::<DescriptorView>::empty() =~= descs_view(
                            r@,
                        ));
                    }
                    return r;
                },
            };
            proof {
                assert(vols[p_idx as int] == self.volumes@[p_idx as int]@);
            }
            let s_idx = match self.find_index(su.as_str()) {
                Some(i) => i,
                None => {
                    proof {
                        assert(chain_step(vols, cur_v) is None);
                        assert(descs_view(r@) + Seq::<DescriptorView>::empty() =~= descs_view(
                            r@,
                        ));
                    }
                    return r;
                },
            };
            let ghost sv = vols[s_idx as int];
            let d = match self.snapshot_descriptor(su.as_str(), None) {
                Some(d) => d,
                None => {
                    proof {
                        assert(false);
                    }
                    return r;
                },
            };
            proof {
                assert(chain_step(vols, cur_v) == Some((d@, sv)));
            }
            let src_of_d = d.source_uuid();
            if src_of_d != target {
                proof {
                    assert(desc_source(d@) != vol_uuid@);
                    assert(chain_list(vols, cur_v, vol_uuid@, fuel as nat) =~= Seq::<
                        DescriptorView,
                    >::empty());
                    assert(descs_view(r@) + Seq::<DescriptorView>::empty() =~= descs_view(r@));
                }
                return r;
            }
            let ghost r_before = descs_view(r@);
            r.push(d);
            proof {
                assert(descs_view(r@) =~= r_before.push(d@));
                assert(chain_list(vols, cur_v, vol_uuid@, fuel as nat) =~= seq![d@] + chain_list(
                    vols,
                    sv,
                    vol_uuid@,
                    (fuel - 1) as nat,
                ));
                assert(descs_view(r@) + chain_list(vols, sv, vol_uuid@, (fuel - 1) as nat)
                    =~= r_before + chain_list(vols, cur_v, vol_uuid@, fuel as nat));
            }
            cur_idx = s_idx;
            fuel = fuel - 1;
        }
        proof {
            assert(descs_view(r@) + Seq::<DescriptorView>::empty() =~= descs_view(r@));
        }
        r
    }

    /// A deep copy of the registry with the same contents.
    pub fn duplicate(&self) -> (r: Registry)
        ensures
            r.vols() == self.vols(),
            r.evs() == self.evs(),
    {
        let mut volumes: Vec<Volume> = Vec::new();
        let mut i: usize = 0;
        while i < self.volumes.len()
            invariant
                0 <= i <= self.volumes.len(),
                volumes@.len() == i,
                forall|j: int| 0 <= j < i ==> volumes@[j]@ == self.volumes@[j]@,
            decreases self.volumes.len() - i,
        {
            volumes.push(self.volumes[i].duplicate());
            i += 1;
        }
        let mut events: Vec<EventRecord> = Vec::new();
        let mut k: usize = 0;
        while k < self.events.len()
            invariant
                0 <= k <= self.events.len(),
                events@.len() == k,
                forall|j: int| 0 <= j < k ==> events@[j]@ == self.events@[j]@,
            decreases self.events.len() - k,
        {
            events.push(
                EventRecord { action: self.events[k].action, id: self.events[k].id.clone() },
            );
            k += 1;
        }
        let r = Registry { volumes, events };
        proof {
            assert(r.vols() =~= self.vols());
            assert(r.evs() =~= self.evs());
        }
        r
    }

    /// A parent-chain iterator rooted at the given volume.
    pub fn snapshot_iter(&self, lvol_uuid: &str) -> (r: LvolSnapshotIter)
        ensures
            r.registry.vols() == self.vols(),
            r.inner_uuid@ == lvol_uuid@,
            r.fuel == self.vols().len(),
    {
        LvolSnapshotIter::new(self, lvol_uuid)
    }
}

/// An iterator over a volume's ancestors in the blobstore's back-pointer
/// order. Each `parent` call reports the next ancestor's descriptor.
pub trait AsyncParentIterator {
    type Item;

    fn parent(&mut self) -> Option<Self::Item>;
}

/// Iterator over the parent chain of a volume, against a snapshot of the
/// registry taken when the iterator was made.
pub struct LvolSnapshotIter {
    pub registry: Registry,
    pub inner_uuid: String,
    pub fuel: usize,
}

impl LvolSnapshotIter {
    /// An iterator rooted at the volume `lvol_uuid`, over a copy of the
    /// registry's current device set.
    pub fn new(reg: &Registry, lvol_uuid: &str) -> (r: LvolSnapshotIter)
        ensures
            r.registry.vols() == reg.vols(),
            r.inner_uuid@ == lvol_uuid@,
            r.fuel == reg.vols().len(),
    {
        let registry = reg.duplicate();
        let fuel = registry.volumes.len();
        LvolSnapshotIter { registry, inner_uuid: lvol_uuid.to_owned(), fuel }
    }

    /// One step up the chain: the next ancestor's descriptor, or `None`
    /// when the chain ends or the step budget is spent. A `None` leaves
    /// the iterator exactly as it was, and every step leaves the registry
    /// copy untouched, so once the chain ends the iterator answers `None`
    /// forever, and it answers `Some` at most `fuel` times in all.
    pub fn parent_step(&mut self) -> (r: Option<VolumeSnapshotDescriptor>)
        ensures
            final(self).registry == old(self).registry,
            r is None ==> *final(self) == *old(self),
            r is Some ==> final(self).fuel == old(self).fuel - 1,
            old(self).fuel == 0 ==> r is None,
            old(self).fuel > 0 && vol_lookup(old(self).registry.vols(), old(self).inner_uuid@)
                is None ==> r is None,
            old(self).fuel > 0 && vol_lookup(old(self).registry.vols(), old(self).inner_uuid@)
                is Some ==> (match chain_step(
                old(self).registry.vols(),
                vol_lookup(old(self).registry.vols(), old(self).inner_uuid@).unwrap(),
            ) {
                None => r is None,
                Some(step) => (r matches Some(rd) && rd@ == step.0) && final(self).inner_uuid@
                    == step.1.uuid && final(self).fuel == old(self).fuel - 1,
            }),
    {
        if self.fuel == 0 {
            return None;
        }
        let ghost vols = self.registry.vols();
        let cur_idx = match self.registry.find_index(self.inner_uuid.as_str()) {
            Some(i) => i,
            None => {
                return None;
            },
        };
        let ghost cur_v = vols[cur_idx as int];
        proof {
            assert(cur_v == self.registry.volumes@[cur_idx as int]@);
        }
        let parent_u = match &self.registry.volumes[cur_idx].parent_uuid {
            Some(p) => p.clone(),
            None => {
                return None;
            },
        };
        let p_idx = match self.registry.find_index(parent_u.as_str()) {
            Some(i) => i,
            None => {
                return None;
            },
        };
        let su = match self.registry.volumes[p_idx].get_blob_xattr(
            SnapshotXattrs::SnapshotUuid.name(),
        ) {
            Some(s) => s,
            None => {
                proof {
                    assert(vols[p_idx as int] == self.registry.volumes@[p_idx as int]@);
                }
                return None;
            },
        };
        proof {
            assert(vols[p_idx as int] == self.registry.volumes@[p_idx as int]@);
        }
        let s_idx = match self.registry.find_index(su.as_str()) {
            Some(i) => i,
            None => {
                return None;
            },
        };
        let d = match self.registry.snapshot_descriptor(su.as_str(), None) {
            Some(d) => d,
            None => {
                proof {
                    assert(false);
                }
                return None;
            },
        };
        self.inner_uuid = su;
        self.fuel = self.fuel - 1;
        proof {
            crate::registry::lemma_vol_index_of(vols, final(self).inner_uuid@);
            assert(final(self).inner_uuid@ == vols[s_idx as int].uuid);
        }
        Some(d)
    }
}

impl AsyncParentIterator for LvolSnapshotIter {
    type Item = VolumeSnapshotDescriptor;

    fn parent(&mut self) -> Option<VolumeSnapshotDescriptor> {
        self.parent_step()
    }
}

/// Total bytes the listed snapshots have allocated.
pub open spec fn descs_alloc_sum(ds: Seq<DescriptorView>) -> int
    decreases ds.len(),
{
    if ds.len() == 0 {
        0
    } else {
        descs_alloc_sum(ds.drop_last()) + ds.last().allocated_bytes
    }
}

/// The source-snapshot usage of the volume `v`, §-exact but unclamped:
///
/// * for a snapshot whose parent is a clone, the ancestor total less what
///   the clone and its snapshots have allocated (negative when the
///   ancestor total is smaller);
/// * for a clone, the sum of the allocated bytes of all snapshots
///   recorded under it;
/// * undefined otherwise.
pub open spec fn clone_source_snap_usage_spec(
    vols: Seq<VolumeView>,
    v: VolumeView,
    total_ancestor_snap_size: u64,
) -> Option<int> {
    if v.is_snapshot {
        match xattr_find(v.xattrs, SnapshotXattrs::ParentId.key()) {
            None => None,
            Some(pid) => match vol_lookup(vols, pid) {
                None => None,
                Some(pv) => if pv.clone_source() is Some {
                    Some(
                        total_ancestor_snap_size - (pv.allocated_bytes_snapshots
                            + pv.allocated_bytes),
                    )
                } else {
                    None
                },
            },
        }
    } else if v.clone_source() is Some {
        Some(descs_alloc_sum(list_all_spec(vols, vols, Some(v.uuid))))
    } else {
        None
    }
}

impl Registry {
    /// The source-snapshot usage of `vol_uuid`: how many bytes of its
    /// ancestry a clone (or a snapshot taken of a clone) accounts for.
    /// `None` when the notion does not apply to the volume, and also when
    /// the exact value would fall outside `u64` — the caller gets no
    /// made-up number.
    pub fn calculate_clone_source_snap_usage(
        &self,
        vol_uuid: &str,
        total_ancestor_snap_size: u64,
    ) -> (r: Option<u64>)
        requires
            self.wf(),
        ensures
            vol_lookup(self.vols(), vol_uuid@) is None ==> r is None,
            vol_lookup(self.vols(), vol_uuid@) matches Some(v) ==> (match clone_source_snap_usage_spec(
                self.vols(),
                v,
                total_ancestor_snap_size,
            ) {
                None => r is None,
                Some(x) => if 0 <= x <= u64::MAX {
                    r == Some(x as u64)
                } else {
                    r is None
                },
            }),
    {
        let ghost vols = self.vols();
        let idx = match self.find_index(vol_uuid) {
            Some(i) => i,
            None => {
                return None;
            },
        };
        let v = &self.volumes[idx];
        if v.is_snapshot {
            let pid = match v.get_blob_xattr(SnapshotXattrs::ParentId.name()) {
                Some(p) => p,
                None => {
                    return None;
                },
            };
            let p_idx = match self.find_index(pid.as_str()) {
                Some(i) => i,
                None => {
                    return None;
                },
            };
            proof {
                assert(vols[p_idx as int] == self.volumes@[p_idx as int]@);
            }
            let pv = &self.volumes[p_idx];
            if pv.is_snapshot_clone().is_none() {
                return None;
            }
            if pv.allocated_bytes_snapshots > u64::MAX - pv.allocated_bytes {
                return None;
            }
            let used = pv.allocated_bytes_snapshots + pv.allocated_bytes;
            if used > total_ancestor_snap_size {
                return None;
            }
            Some(total_ancestor_snap_size - used)
        } else if v.is_snapshot_clone().is_some() {
            let uuid = v.uuid.clone();
            let list = self.list_all_snapshots(Some(uuid.as_str()));
            let ghost dvs = descs_view(list@);
            let mut sum: u64 = 0;
            let mut k: usize = 0;
            while k < list.len()
                invariant
                    0 <= k <= list.len(),
                    vols == self.vols(),
                    0 <= idx < vols.len(),
                    vol_lookup(vols, vol_uuid@) == Some(vols[idx as int]),
                    !vols[idx as int].is_snapshot,
                    vols[idx as int].clone_source() is Some,
                    dvs == list_all_spec(vols, vols, Some(vols[idx as int].uuid)),
                    dvs == descs_view(list@),
                    dvs.len() == list@.len(),
                    sum == descs_alloc_sum(dvs.take(k as int)),
                decreases list.len() - k,
            {
                proof {
                    assert(dvs.take(k + 1).drop_last() =~= dvs.take(k as int));
                    assert(dvs.take(k + 1).last() == dvs[k as int]);
                    assert(dvs[k as int] == list@[k as int]@);
                }
                if list[k].allocated_bytes > u64::MAX - sum {
                    proof {
                        lemma_descs_alloc_sum_grows(dvs, k as int + 1);
                    }
                    return None;
                }
                sum = sum + list[k].allocated_bytes;
                k += 1;
            }
            proof {
                assert(dvs.take(dvs.len() as int) =~= dvs);
            }
            Some(sum)
        } else {
            None
        }
    }
}

/// Partial sums of the allocation listing never shrink, so an overflow at
/// a prefix means the whole sum is out of range.
pub proof fn lemma_descs_alloc_sum_grows(ds: Seq<DescriptorView>, k: int)
    requires
        0 <= k <= ds.len(),
    ensures
        descs_alloc_sum(ds) >= descs_alloc_sum(ds.take(k)),
    decreases ds.len() - k,
{
    if k < ds.len() {
        lemma_descs_alloc_sum_grows(ds, k + 1);
        assert(ds.take(k + 1).drop_last() =~= ds.take(k));
        assert(descs_alloc_sum(ds.take(k + 1)) >= descs_alloc_sum(ds.take(k)));
    } else {
        assert(ds.take(k) =~= ds);
    }
}

/// How a remote snapshot request's completion handle must be driven:
/// exactly one of completing it or completing it with a negative errno
/// is invoked per request, and neither awaits locally.
#[derive(Clone, Copy, Debug, PartialEq, Eq, Structural)]
pub enum RemoteCompletion {
    /// Call `complete()` on the request handle.
    Completed,
    /// Call `complete_error` with this (negative) errno.
    CompletedError(i32),
}

/// The ENODEV errno: the volume the request names is gone.
pub const ENODEV: i32 = 19;

impl Registry {
    /// Creates a snapshot on behalf of a remote, write-triggered request.
    /// Instead of being awaited, the outcome says how the caller must
    /// complete the opaque request handle it holds; the unverified shell
    /// performs that one completion call.
    ///
    /// A request that fails before the backend is reached — the source
    /// volume is gone, or a required parameter is missing — is completed
    /// with an error too (ENODEV and EINVAL respectively, sign inverted),
    /// so the data plane is never left waiting on it.
    pub fn create_snapshot_remote(&mut self, source_uuid: &str, params: SnapshotParams) -> (r:
        RemoteCompletion)
        requires
            old(self).wf(),
            params@.name is Some,
        ensures
            final(self).wf(),
            vol_lookup(old(self).vols(), source_uuid@) is None ==> *final(self) == *old(self)
                && r == RemoteCompletion::CompletedError(-19i32),
            vol_lookup(old(self).vols(), source_uuid@) is Some && !params@.is_complete()
                ==> *final(self) == *old(self) && r == RemoteCompletion::CompletedError(-22i32),
            vol_lookup(old(self).vols(), source_uuid@) is Some && params@.is_complete()
                && snapshot_ids_taken(old(self).vols(), params@) ==> *final(self) == *old(self)
                && r == RemoteCompletion::CompletedError(-17i32),
            vol_lookup(old(self).vols(), source_uuid@) is Some && params@.is_complete()
                && !snapshot_ids_taken(old(self).vols(), params@) ==> final(self).vols()
                == create_snapshot_transform(
                old(self).vols(),
                vol_index_of(old(self).vols(), source_uuid@),
                params@,
            ) && r == RemoteCompletion::Completed,
    {
        match self.create_snapshot(source_uuid, params) {
            Ok(_) => RemoteCompletion::Completed,
            Err(e) => match e {
                LvsError::SnapshotCreate { source, msg: _ } => RemoteCompletion::CompletedError(
                    -source.value,
                ),
                LvsError::InvalidBdev { name: _ } => RemoteCompletion::CompletedError(0 - ENODEV),
                _ => RemoteCompletion::CompletedError(0 - EINVAL),
            },
        }
    }
}

} // verus!

//! Destruction and garbage collection of snapshots and clones, and the
//! usage-cache invalidation that accompanies them.

use vstd::prelude::*;

use crate::errors::LvsError;
use crate::registry::{
    count_clones, vol_index_of, vol_lookup, EventAction, EventRecord, EventView, Registry,
    Volume, VolumeView,
};
use crate::xattrs::{xattr_find, xattr_set, CloneXattrs, SnapshotXattrs, XattrView};

verus! {

/// Everything of a volume but its cache flag: what destruction decisions
/// and graph structure depend on.
#[verifier::ext_equal]
pub ghost struct VolumeCore {
    pub uuid: Seq<char>,
    pub name: Seq<char>,
    pub size: u64,
    pub allocated_bytes: u64,
    pub allocated_bytes_snapshots: u64,
    pub is_snapshot: bool,
    pub parent_uuid: Option<Seq<char>>,
    pub xattrs: Seq<XattrView>,
}

pub open spec fn core_of(v: VolumeView) -> VolumeCore {
    VolumeCore {
        uuid: v.uuid,
        name: v.name,
        size: v.size,
        allocated_bytes: v.allocated_bytes,
        allocated_bytes_snapshots: v.allocated_bytes_snapshots,
        is_snapshot: v.is_snapshot,
        parent_uuid: v.parent_uuid,
        xattrs: v.xattrs,
    }
}

pub open spec fn cores(vols: Seq<VolumeView>) -> Seq<VolumeCore> {
    vols.map_values(|v: VolumeView| core_of(v))
}

/// `b` is `a` with nothing changed but used-clusters caches invalidated:
/// same volumes in the same order, and no cache comes back to life.
pub open spec fn cache_resets_only(a: Seq<VolumeView>, b: Seq<VolumeView>) -> bool {
    &&& a.len() == b.len()
    &&& forall|j: int| 0 <= j < a.len() ==> core_of(#[trigger] b[j]) == core_of(a[j])
    &&& forall|j: int| 0 <= j < a.len() ==> (#[trigger] b[j].usage_cached ==> a[j].usage_cached)
}

/// Cache-only change composes.
pub proof fn lemma_cache_resets_only_trans(
    a: Seq<VolumeView>,
    b: Seq<VolumeView>,
    c: Seq<VolumeView>,
)
    requires
        cache_resets_only(a, b),
        cache_resets_only(b, c),
    ensures
        cache_resets_only(a, c),
{
}

/// One invalidated cache stays invalidated across a cache-only change.
pub proof fn lemma_cache_still_reset(a: Seq<VolumeView>, b: Seq<VolumeView>, j: int)
    requires
        cache_resets_only(a, b),
        0 <= j < a.len(),
        a[j].usage_cached == false,
    ensures
        b[j].usage_cached == false,
{
}

/// A reset that has happened stays: further cache-only changes never
/// revive a cache.
pub proof fn lemma_reset_still_done(
    vols0: Seq<VolumeView>,
    a: Seq<VolumeView>,
    b: Seq<VolumeView>,
    su: Seq<char>,
)
    requires
        a.len() == vols0.len(),
        snapshot_and_clones_reset(vols0, a, su),
        cache_resets_only(a, b),
    ensures
        snapshot_and_clones_reset(vols0, b, su),
{
    crate::registry::lemma_vol_index_of(vols0, su);
    assert forall|j: int|
        0 <= j < vols0.len() && (#[trigger] vols0[j]).is_clone_of(su) implies b[j].usage_cached
        == false by {
        assert(a[j].usage_cached == false);
    }
}

/// `lemma_reset_still_done`, over a whole chain.
pub proof fn lemma_chain_reset_still_done(
    vols0: Seq<VolumeView>,
    a: Seq<VolumeView>,
    b: Seq<VolumeView>,
    chain: Seq<Seq<char>>,
)
    requires
        a.len() == vols0.len(),
        chain_reset_done(vols0, a, chain),
        cache_resets_only(a, b),
    ensures
        chain_reset_done(vols0, b, chain),
{
    assert forall|k: int| 0 <= k < chain.len() implies snapshot_and_clones_reset(
        vols0,
        b,
        #[trigger] chain[k],
    ) by {
        lemma_reset_still_done(vols0, a, b, chain[k]);
    }
}

/// A cache-only change preserves UUID uniqueness.
pub proof fn lemma_cache_resets_only_wf(a: Seq<VolumeView>, b: Seq<VolumeView>)
    requires
        cache_resets_only(a, b),
        crate::registry::uuids_unique(a),
    ensures
        crate::registry::uuids_unique(b),
{
    assert forall|i: int, j: int| 0 <= i < j < b.len() implies b[i].uuid != b[j].uuid by {
        assert(core_of(b[i]) == core_of(a[i]));
        assert(core_of(b[j]) == core_of(a[j]));
    }
}

impl Registry {
    /// Invalidates the used-clusters estimate of the volume at `i`.
    fn reset_usage_cache_at(&mut self, i: usize)
        requires
            i < old(self).vols().len(),
        ensures
            final(self).vols() == old(self).vols().update(
                i as int,
                VolumeView { usage_cached: false, ..old(self).vols()[i as int] },
            ),
            final(self).events@ == old(self).events@,
            cache_resets_only(old(self).vols(), final(self).vols()),
    {
        let mut v = self.volumes[i].duplicate();
        v.usage_cached = false;
        self.volumes.set(i, v);
        proof {
            assert(final(self).vols() =~= old(self).vols().update(
                i as int,
                VolumeView { usage_cached: false, ..old(self).vols()[i as int] },
            ));
        }
    }

    /// Invalidates the cache of the volume `uuid`, if the registry holds
    /// it; a miss changes nothing.
    fn reset_usage_cache_of(&mut self, uuid: &str)
        ensures
            cache_resets_only(old(self).vols(), final(self).vols()),
            final(self).events@ == old(self).events@,
            vol_lookup(old(self).vols(), uuid@) is Some ==> final(self).vols()[vol_index_of(
                old(self).vols(),
                uuid@,
            )].usage_cached == false,
    {
        match self.find_index(uuid) {
            Some(i) => {
                self.reset_usage_cache_at(i);
            },
            None => {
                proof {
                    assert(cache_resets_only(self.vols(), self.vols()));
                }
            },
        }
    }

    /// Invalidates the caches of every clone of the snapshot `snap_uuid`.
    fn reset_clone_caches_of(&mut self, snap_uuid: &str)
        requires
            old(self).wf(),
        ensures
            cache_resets_only(old(self).vols(), final(self).vols()),
            final(self).events@ == old(self).events@,
            forall|j: int|
                0 <= j < old(self).vols().len() && (#[trigger] old(self).vols()[j]).is_clone_of(
                    snap_uuid@,
                ) ==> final(self).vols()[j].usage_cached == false,
    {
        let clones = self.list_clones_by_snapshot_uuid(snap_uuid);
        let ghost vols0 = self.vols();
        let ghost cl = clones@.map_values(|s: String| s@);
        let mut k: usize = 0;
        proof {
            assert(cache_resets_only(vols0, self.vols()));
        }
        while k < clones.len()
            invariant
                0 <= k <= clones.len(),
                vols0 == old(self).vols(),
                crate::registry::uuids_unique(vols0),
                cl == clones@.map_values(|s: String| s@),
                cl == crate::registry::clones_of(vols0, snap_uuid@),
                cache_resets_only(vols0, self.vols()),
                self.events@ == old(self).events@,
                forall|idx: int|
                    0 <= idx < k ==> crate::registry::vol_index_of(vols0, #[trigger] cl[idx])
                        < vols0.len() && self.vols()[crate::registry::vol_index_of(
                        vols0,
                        cl[idx],
                    )].usage_cached == false,
            decreases clones.len() - k,
        {
            let ghost mid = self.vols();
            proof {
                crate::registry::lemma_clones_of_elements(vols0, snap_uuid@, k as int);
                let j0 = choose|j: int|
                    0 <= j < vols0.len() && (#[trigger] vols0[j]).is_clone_of(snap_uuid@)
                        && vols0[j].uuid == cl[k as int];
                crate::laws::lemma_vol_index_of_same_uuids(mid, vols0, cl[k as int]);
                crate::registry::lemma_vol_index_of(vols0, cl[k as int]);
                if crate::registry::vol_index_of(vols0, cl[k as int]) >= vols0.len() {
                    assert(vols0[j0].uuid == cl[k as int]);
                    assert(false);
                }
                assert(cl[k as int] == clones@[k as int]@);
            }
            self.reset_usage_cache_of(clones[k].as_str());
            proof {
                lemma_cache_resets_only_trans(vols0, mid, self.vols());
                assert(crate::registry::vol_lookup(mid, cl[k as int]) is Some);
                assert(self.vols()[crate::registry::vol_index_of(
                    vols0,
                    cl[k as int],
                )].usage_cached == false);
                assert forall|idx: int|
                    0 <= idx < k + 1 implies crate::registry::vol_index_of(
                    vols0,
                    #[trigger] cl[idx],
                ) < vols0.len() && self.vols()[crate::registry::vol_index_of(
                    vols0,
                    cl[idx],
                )].usage_cached == false by {
                    if idx < k {
                        let pi = crate::registry::vol_index_of(vols0, cl[idx]);
                        crate::registry::lemma_vol_index_of(vols0, cl[idx]);
                        assert(0 <= pi < vols0.len());
                        assert(mid[pi].usage_cached == false);
                        lemma_cache_still_reset(mid, self.vols(), pi);
                    }
                }
            }
            k += 1;
        }
        proof {
            assert forall|j: int|
                0 <= j < vols0.len() && (#[trigger] vols0[j]).is_clone_of(snap_uuid@) implies self.vols()[j].usage_cached
                == false by {
                crate::registry::lemma_clones_of_complete(vols0, snap_uuid@, j);
                let wi = choose|i: int| 0 <= i < cl.len() && cl[i] == vols0[j].uuid;
                crate::engine::lemma_wf_lookup_self(vols0, j);
            }
        }
    }

    /// Walks the snapshot chain rooted at the volume `vol_uuid`,
    /// invalidating the cache of every snapshot in the chain and of every
    /// clone of each such snapshot. Used when a snapshot is destroyed and
    /// its parent volume still exists.
    pub fn reset_snapshot_tree_usage_cache_with_parent_uuid(&mut self, vol_uuid: &str)
        requires
            old(self).wf(),
        ensures
            cache_resets_only(old(self).vols(), final(self).vols()),
            final(self).events@ == old(self).events@,
            vol_lookup(old(self).vols(), vol_uuid@) matches Some(cur) ==> chain_reset_done(
                old(self).vols(),
                final(self).vols(),
                chain_snapshot_uuids(old(self).vols(), cur, old(self).vols().len() as nat),
            ),
    {
        let ghost vols0 = self.vols();
        let mut cur_uuid: String = vol_uuid.to_owned();
        let mut fuel: usize = self.volumes.len();
        let start_idx = match self.find_index(cur_uuid.as_str()) {
            Some(i) => i,
            None => {
                proof {
                    assert(cache_resets_only(self.vols(), self.vols()));
                }
                return ;
            },
        };
        let ghost chain0 = chain_snapshot_uuids(vols0, vols0[start_idx as int], vols0.len() as nat);
        let ghost mut done: Seq<Seq<char>> = Seq::empty();
        let mut cur_idx: usize = start_idx;
        proof {
            crate::registry::lemma_vol_index_of(vols0, vol_uuid@);
            assert(cache_resets_only(vols0, self.vols()));
            assert(done + chain_snapshot_uuids(vols0, vols0[cur_idx as int], fuel as nat)
                =~= chain0);
        }
        while fuel > 0
            invariant
                vols0 == old(self).vols(),
                crate::registry::uuids_unique(vols0),
                cache_resets_only(vols0, self.vols()),
                self.events@ == old(self).events@,
                0 <= cur_idx < vols0.len(),
                0 <= start_idx < vols0.len(),
                fuel <= vols0.len(),
                vols0.len() == self.volumes@.len(),
                cur_uuid@ == vols0[cur_idx as int].uuid,
                vol_lookup(vols0, vol_uuid@) == Some(vols0[start_idx as int]),
                chain0 == chain_snapshot_uuids(
                    vols0,
                    vols0[start_idx as int],
                    vols0.len() as nat,
                ),
                done + chain_snapshot_uuids(vols0, vols0[cur_idx as int], fuel as nat) =~= chain0,
                chain_reset_done(vols0, self.vols(), done),
            decreases fuel,
        {
            let ghost cur0 = vols0[cur_idx as int];
            let parent_u = match &self.volumes[cur_idx].parent_uuid {
                Some(p) => p.clone(),
                None => {
                    proof {
                        assert(core_of(self.vols()[cur_idx as int]) == core_of(cur0));
                        assert(crate::engine::chain_step(vols0, cur0) is None);
                        assert(done =~= chain0);
                    }
                    return ;
                },
            };
            proof {
                assert(core_of(self.vols()[cur_idx as int]) == core_of(cur0));
                assert(cur0.parent_uuid == Some(parent_u@));
            }
            let p_idx = match self.find_index(parent_u.as_str()) {
                Some(i) => i,
                None => {
                    proof {
                        crate::laws::lemma_vol_index_of_same_uuids(self.vols(), vols0, parent_u@);
                        assert(crate::engine::chain_step(vols0, cur0) is None);
                        assert(done =~= chain0);
                    }
                    return ;
                },
            };
            proof {
                crate::laws::lemma_vol_index_of_same_uuids(self.vols(), vols0, parent_u@);
                assert(core_of(self.vols()[p_idx as int]) == core_of(vols0[p_idx as int]));
            }
            let su = match self.volumes[p_idx].get_blob_xattr(
                SnapshotXattrs::SnapshotUuid.name(),
            ) {
                Some(s) => s,
                None => {
                    proof {
                        assert(crate::engine::chain_step(vols0, cur0) is None);
                        assert(done =~= chain0);
                    }
                    return ;
                },
            };
            let s_idx = match self.find_index(su.as_str()) {
                Some(i) => i,
                None => {
                    proof {
                        crate::laws::lemma_vol_index_of_same_uuids(self.vols(), vols0, su@);
                        assert(crate::engine::chain_step(vols0, cur0) is None);
                        assert(done =~= chain0);
                    }
                    return ;
                },
            };
            proof {
                crate::laws::lemma_vol_index_of_same_uuids(self.vols(), vols0, su@);
                crate::registry::lemma_vol_index_of(vols0, su@);
                assert(crate::engine::chain_step(vols0, cur0) matches Some(step) && step.1
                    == vols0[s_idx as int]);
                assert(vols0[s_idx as int].uuid == su@);
                assert(chain_snapshot_uuids(vols0, cur0, fuel as nat) =~= seq![su@]
                    + chain_snapshot_uuids(vols0, vols0[s_idx as int], (fuel - 1) as nat));
            }
            let ghost mid1 = self.vols();
            self.reset_usage_cache_of(su.as_str());
            proof {
                lemma_cache_resets_only_trans(vols0, mid1, self.vols());
                crate::laws::lemma_vol_index_of_same_uuids(mid1, vols0, su@);
                assert(crate::registry::vol_lookup(mid1, su@) is Some);
                assert(self.vols()[crate::registry::vol_index_of(vols0, su@)].usage_cached
                    == false);
            }
            let ghost mid2 = self.vols();
            proof {
                lemma_cache_resets_only_wf(vols0, mid2);
            }
            self.reset_clone_caches_of(su.as_str());
            proof {
                lemma_cache_resets_only_trans(vols0, mid2, self.vols());
                assert forall|j: int|
                    0 <= j < vols0.len() && (#[trigger] vols0[j]).is_clone_of(su@) implies self.vols()[j].usage_cached
                    == false by {
                    assert(mid2[j].is_clone_of(su@));
                }
                assert(snapshot_and_clones_reset(vols0, self.vols(), su@));
                lemma_chain_reset_still_done(vols0, mid1, mid2, done);
                lemma_chain_reset_still_done(vols0, mid2, self.vols(), done);
                done = done.push(su@);
                assert(chain_reset_done(vols0, self.vols(), done));
                assert(done + chain_snapshot_uuids(vols0, vols0[s_idx as int], (fuel - 1) as nat)
                    =~= chain0);
            }
            cur_uuid = su;
            cur_idx = s_idx;
            fuel = fuel - 1;
        }
        proof {
            assert(done =~= chain0);
        }
    }
}

/// The UUIDs of the snapshots in the parent chain of `cur`, in walk
/// order: the chain is the one the listing walks, one snapshot per step.
pub open spec fn chain_snapshot_uuids(vols: Seq<VolumeView>, cur: VolumeView, fuel: nat) -> Seq<
    Seq<char>,
>
    decreases fuel,
{
    if fuel == 0 {
        Seq::empty()
    } else {
        match crate::engine::chain_step(vols, cur) {
            None => Seq::empty(),
            Some(step) => seq![step.1.uuid] + chain_snapshot_uuids(vols, step.1, (fuel - 1) as nat),
        }
    }
}

/// The snapshot `su` and every clone recorded under it have their caches
/// invalidated in `fin`; positions are read against the pre-state
/// `vols0`, whose volumes `fin` carries in the same order.
pub open spec fn snapshot_and_clones_reset(
    vols0: Seq<VolumeView>,
    fin: Seq<VolumeView>,
    su: Seq<char>,
) -> bool {
    &&& vol_index_of(vols0, su) < vols0.len() ==> fin[vol_index_of(vols0, su)].usage_cached
        == false
    &&& forall|j: int|
        0 <= j < vols0.len() && (#[trigger] vols0[j]).is_clone_of(su) ==> fin[j].usage_cached
            == false
}

/// Every snapshot in `chain` has been invalidated together with its
/// clones.
pub open spec fn chain_reset_done(
    vols0: Seq<VolumeView>,
    fin: Seq<VolumeView>,
    chain: Seq<Seq<char>>,
) -> bool {
    forall|k: int| 0 <= k < chain.len() ==> snapshot_and_clones_reset(vols0, fin, #[trigger] chain[k])
}

/// UUIDs of the snapshot volumes whose recorded parent is `parent`, in
/// registry order.
pub open spec fn snap_children_spec(vols: Seq<VolumeView>, parent: Seq<char>) -> Seq<Seq<char>>
    decreases vols.len(),
{
    if vols.len() == 0 {
        Seq::empty()
    } else if vols.last().is_snapshot && xattr_find(
        vols.last().xattrs,
        SnapshotXattrs::ParentId.key(),
    ) == Some(parent) {
        snap_children_spec(vols.drop_last(), parent).push(vols.last().uuid)
    } else {
        snap_children_spec(vols.drop_last(), parent)
    }
}

/// A chain step depends only on the volumes' cores, not their cache
/// flags.
pub proof fn lemma_chain_step_same_cores(
    a: Seq<VolumeView>,
    b: Seq<VolumeView>,
    ca: VolumeView,
    cb: VolumeView,
)
    requires
        a.len() == b.len(),
        forall|j: int| 0 <= j < a.len() ==> core_of(#[trigger] a[j]) == core_of(b[j]),
        core_of(ca) == core_of(cb),
    ensures
        crate::engine::chain_step(a, ca) is Some <==> crate::engine::chain_step(b, cb) is Some,
        crate::engine::chain_step(a, ca) is Some ==> core_of(
            crate::engine::chain_step(a, ca).unwrap().1,
        ) == core_of(crate::engine::chain_step(b, cb).unwrap().1),
{
    assert forall|j: int| 0 <= j < a.len() implies a[j].uuid == b[j].uuid by {
        assert(core_of(a[j]) == core_of(b[j]));
    }
    match ca.parent_uuid {
        None => {},
        Some(pu) => {
            crate::laws::lemma_vol_index_of_same_uuids(a, b, pu);
            crate::registry::lemma_vol_index_of(a, pu);
            let i = vol_index_of(a, pu);
            if i < a.len() {
                assert(core_of(a[i]) == core_of(b[i]));
                match xattr_find(a[i].xattrs, SnapshotXattrs::SnapshotUuid.key()) {
                    None => {},
                    Some(su) => {
                        crate::laws::lemma_vol_index_of_same_uuids(a, b, su);
                        crate::registry::lemma_vol_index_of(a, su);
                        let s = vol_index_of(a, su);
                        if s < a.len() {
                            assert(core_of(a[s]) == core_of(b[s]));
                        }
                    },
                }
            }
        },
    }
}

/// The chain's snapshot UUIDs depend only on the volumes' cores.
pub proof fn lemma_chain_uuids_same_cores(
    a: Seq<VolumeView>,
    b: Seq<VolumeView>,
    ca: VolumeView,
    cb: VolumeView,
    fuel: nat,
)
    requires
        a.len() == b.len(),
        forall|j: int| 0 <= j < a.len() ==> core_of(#[trigger] a[j]) == core_of(b[j]),
        core_of(ca) == core_of(cb),
    ensures
        chain_snapshot_uuids(a, ca, fuel) == chain_snapshot_uuids(b, cb, fuel),
    decreases fuel,
{
    if fuel > 0 {
        lemma_chain_step_same_cores(a, b, ca, cb);
        match crate::engine::chain_step(a, ca) {
            None => {},
            Some(step) => {
                let stepb = crate::engine::chain_step(b, cb).unwrap();
                assert(step.1.uuid == stepb.1.uuid);
                lemma_chain_uuids_same_cores(a, b, step.1, stepb.1, (fuel - 1) as nat);
            },
        }
    }
}

/// What counts as a completed reset depends only on the base registry's
/// cores.
pub proof fn lemma_reset_done_same_base(
    a: Seq<VolumeView>,
    b: Seq<VolumeView>,
    fin: Seq<VolumeView>,
    chain: Seq<Seq<char>>,
)
    requires
        a.len() == b.len(),
        forall|j: int| 0 <= j < a.len() ==> core_of(#[trigger] a[j]) == core_of(b[j]),
        chain_reset_done(a, fin, chain),
    ensures
        chain_reset_done(b, fin, chain),
{
    assert forall|j: int| 0 <= j < a.len() implies a[j].uuid == b[j].uuid by {
        assert(core_of(a[j]) == core_of(b[j]));
    }
    assert forall|k: int| 0 <= k < chain.len() implies snapshot_and_clones_reset(
        b,
        fin,
        #[trigger] chain[k],
    ) by {
        assert(snapshot_and_clones_reset(a, fin, chain[k]));
        crate::laws::lemma_vol_index_of_same_uuids(a, b, chain[k]);
        assert forall|j: int|
            0 <= j < b.len() && (#[trigger] b[j]).is_clone_of(chain[k]) implies fin[j].usage_cached
            == false by {
            assert(core_of(a[j]) == core_of(b[j]));
            assert(a[j].is_clone_of(chain[k]));
        }
    }
}

/// The volume is a snapshot whose recorded parent is `parent`.
pub open spec fn is_child_snapshot(v: VolumeView, parent: Seq<char>) -> bool {
    v.is_snapshot && xattr_find(v.xattrs, SnapshotXattrs::ParentId.key()) == Some(parent)
}

/// The wildcard walk owes `v` a cache reset within `depth` levels under
/// `parent`: `v` is a snapshot recorded under `parent` itself, or it is
/// owed under some clone of such a snapshot, one level down. Every
/// actual walk is covered by `depth` equal to the registry size, since a
/// longer derivation must revisit a volume.
pub open spec fn obliged(
    vols: Seq<VolumeView>,
    parent: Seq<char>,
    v: VolumeView,
    depth: nat,
) -> bool
    decreases depth,
{
    depth > 0 && (is_child_snapshot(v, parent) || exists|s: int, c: int|
        0 <= s < vols.len() && 0 <= c < vols.len() && is_child_snapshot(
            #[trigger] vols[s],
            parent,
        ) && (#[trigger] vols[c]).is_clone_of(vols[s].uuid) && obliged(
            vols,
            vols[c].uuid,
            v,
            (depth - 1) as nat,
        ))
}

/// Every volume owed a reset under some clone of the snapshot `su` has
/// received it in `fin`.
pub open spec fn seed_rec_done(
    vols0: Seq<VolumeView>,
    fin: Seq<VolumeView>,
    su: Seq<char>,
    depth: nat,
) -> bool {
    forall|c: int, j: int|
        0 <= c < vols0.len() && 0 <= j < vols0.len() && (#[trigger] vols0[c]).is_clone_of(su)
            && obliged(vols0, vols0[c].uuid, #[trigger] vols0[j], depth)
            ==> snapshot_and_clones_reset(vols0, fin, vols0[j].uuid)
}

/// Every volume owed a reset under the clone `cu` has received it in
/// `fin`.
pub open spec fn clone_rec_done(
    vols0: Seq<VolumeView>,
    fin: Seq<VolumeView>,
    cu: Seq<char>,
    depth: nat,
) -> bool {
    forall|j: int|
        0 <= j < vols0.len() && obliged(vols0, cu, #[trigger] vols0[j], depth)
            ==> snapshot_and_clones_reset(vols0, fin, vols0[j].uuid)
}

/// A reset already done stays done, for the obligations under one
/// snapshot's clones.
pub proof fn lemma_seed_rec_done_still(
    vols0: Seq<VolumeView>,
    a: Seq<VolumeView>,
    b: Seq<VolumeView>,
    su: Seq<char>,
    depth: nat,
)
    requires
        a.len() == vols0.len(),
        seed_rec_done(vols0, a, su, depth),
        cache_resets_only(a, b),
    ensures
        seed_rec_done(vols0, b, su, depth),
{
    assert forall|c: int, j: int|
        0 <= c < vols0.len() && 0 <= j < vols0.len() && (#[trigger] vols0[c]).is_clone_of(su)
            && obliged(vols0, vols0[c].uuid, #[trigger] vols0[j], depth) implies snapshot_and_clones_reset(
        vols0,
        b,
        vols0[j].uuid,
    ) by {
        lemma_reset_still_done(vols0, a, b, vols0[j].uuid);
    }
}

/// A reset already done stays done, for the obligations under one clone.
pub proof fn lemma_clone_rec_done_still(
    vols0: Seq<VolumeView>,
    a: Seq<VolumeView>,
    b: Seq<VolumeView>,
    cu: Seq<char>,
    depth: nat,
)
    requires
        a.len() == vols0.len(),
        clone_rec_done(vols0, a, cu, depth),
        cache_resets_only(a, b),
    ensures
        clone_rec_done(vols0, b, cu, depth),
{
    assert forall|j: int|
        0 <= j < vols0.len() && obliged(vols0, cu, #[trigger] vols0[j], depth) implies snapshot_and_clones_reset(
        vols0,
        b,
        vols0[j].uuid,
    ) by {
        lemma_reset_still_done(vols0, a, b, vols0[j].uuid);
    }
}

/// One completed reset, carried across a base registry with the same
/// cores.
pub proof fn lemma_sac_reset_same_base(
    a: Seq<VolumeView>,
    b: Seq<VolumeView>,
    fin: Seq<VolumeView>,
    su: Seq<char>,
)
    requires
        a.len() == b.len(),
        forall|j: int| 0 <= j < a.len() ==> core_of(#[trigger] a[j]) == core_of(b[j]),
        snapshot_and_clones_reset(a, fin, su),
    ensures
        snapshot_and_clones_reset(b, fin, su),
{
    assert forall|j: int| 0 <= j < a.len() implies a[j].uuid == b[j].uuid by {
        assert(core_of(a[j]) == core_of(b[j]));
    }
    crate::laws::lemma_vol_index_of_same_uuids(a, b, su);
    assert forall|j: int|
        0 <= j < b.len() && (#[trigger] b[j]).is_clone_of(su) implies fin[j].usage_cached
        == false by {
        assert(core_of(a[j]) == core_of(b[j]));
        assert(a[j].is_clone_of(su));
    }
}

/// The clone listing depends only on the volumes' cores.
pub proof fn lemma_clones_of_same_cores(a: Seq<VolumeView>, b: Seq<VolumeView>, su: Seq<char>)
    requires
        a.len() == b.len(),
        forall|j: int| 0 <= j < a.len() ==> core_of(#[trigger] a[j]) == core_of(b[j]),
    ensures
        crate::registry::clones_of(a, su) == crate::registry::clones_of(b, su),
    decreases a.len(),
{
    if a.len() > 0 {
        assert(core_of(a[a.len() - 1]) == core_of(b[a.len() - 1]));
        assert forall|j: int|
            0 <= j < a.drop_last().len() implies core_of(#[trigger] a.drop_last()[j]) == core_of(
            b.drop_last()[j],
        ) by {
            assert(a.drop_last()[j] == a[j]);
            assert(core_of(a[j]) == core_of(b[j]));
        }
        lemma_clones_of_same_cores(a.drop_last(), b.drop_last(), su);
    }
}

/// The obligation depends only on the volumes' cores.
pub proof fn lemma_obliged_same_cores(
    a: Seq<VolumeView>,
    b: Seq<VolumeView>,
    parent: Seq<char>,
    i: int,
    depth: nat,
)
    requires
        a.len() == b.len(),
        forall|j: int| 0 <= j < a.len() ==> core_of(#[trigger] a[j]) == core_of(b[j]),
        0 <= i < a.len(),
    ensures
        obliged(a, parent, a[i], depth) == obliged(b, parent, b[i], depth),
    decreases depth,
{
    if depth > 0 {
        assert(core_of(a[i]) == core_of(b[i]));
        if obliged(a, parent, a[i], depth) && !is_child_snapshot(a[i], parent) {
            let (s, c) = choose|s: int, c: int|
                0 <= s < a.len() && 0 <= c < a.len() && is_child_snapshot(#[trigger] a[s], parent)
                    && (#[trigger] a[c]).is_clone_of(a[s].uuid) && obliged(
                    a,
                    a[c].uuid,
                    a[i],
                    (depth - 1) as nat,
                );
            assert(core_of(a[s]) == core_of(b[s]));
            assert(core_of(a[c]) == core_of(b[c]));
            lemma_obliged_same_cores(a, b, a[c].uuid, i, (depth - 1) as nat);
            assert(is_child_snapshot(b[s], parent) && b[c].is_clone_of(b[s].uuid) && obliged(
                b,
                b[c].uuid,
                b[i],
                (depth - 1) as nat,
            ));
        }
        if obliged(b, parent, b[i], depth) && !is_child_snapshot(b[i], parent) {
            let (s, c) = choose|s: int, c: int|
                0 <= s < b.len() && 0 <= c < b.len() && is_child_snapshot(#[trigger] b[s], parent)
                    && (#[trigger] b[c]).is_clone_of(b[s].uuid) && obliged(
                    b,
                    b[c].uuid,
                    b[i],
                    (depth - 1) as nat,
                );
            assert(core_of(a[s]) == core_of(b[s]));
            assert(core_of(a[c]) == core_of(b[c]));
            lemma_obliged_same_cores(a, b, a[c].uuid, i, (depth - 1) as nat);
            assert(is_child_snapshot(a[s], parent) && a[c].is_clone_of(a[s].uuid) && obliged(
                a,
                a[c].uuid,
                a[i],
                (depth - 1) as nat,
            ));
        }
    }
}

/// Every snapshot recorded under `parent` appears in the listing.
pub proof fn lemma_snap_children_complete(vols: Seq<VolumeView>, parent: Seq<char>, j: int)
    requires
        0 <= j < vols.len(),
        is_child_snapshot(vols[j], parent),
    ensures
        snap_children_spec(vols, parent).contains(vols[j].uuid),
    decreases vols.len(),
{
    let r = snap_children_spec(vols, parent);
    if j == vols.len() - 1 {
        assert(r[r.len() - 1] == vols[j].uuid);
    } else {
        assert(vols.drop_last()[j] == vols[j]);
        lemma_snap_children_complete(vols.drop_last(), parent, j);
        let rest = snap_children_spec(vols.drop_last(), parent);
        let wi = choose|i: int| 0 <= i < rest.len() && rest[i] == vols[j].uuid;
        assert(r[wi] == vols[j].uuid);
    }
}

/// Everything in the listing is the UUID of a snapshot recorded under
/// `parent`.
pub proof fn lemma_snap_children_elements(vols: Seq<VolumeView>, parent: Seq<char>, idx: int)
    requires
        0 <= idx < snap_children_spec(vols, parent).len(),
    ensures
        exists|j: int|
            0 <= j < vols.len() && is_child_snapshot(#[trigger] vols[j], parent) && vols[j].uuid
                == snap_children_spec(vols, parent)[idx],
    decreases vols.len(),
{
    let r = snap_children_spec(vols, parent);
    if is_child_snapshot(vols.last(), parent) && idx == r.len() - 1 {
        assert(is_child_snapshot(vols[vols.len() - 1], parent) && vols[vols.len() - 1].uuid
            == r[idx]);
    } else {
        lemma_snap_children_elements(vols.drop_last(), parent, idx);
        let j0 = choose|j: int|
            0 <= j < vols.drop_last().len() && is_child_snapshot(
                #[trigger] vols.drop_last()[j],
                parent,
            ) && vols.drop_last()[j].uuid == snap_children_spec(vols.drop_last(), parent)[idx];
        assert(is_child_snapshot(vols[j0], parent) && vols[j0].uuid == r[idx]);
    }
}

impl Registry {
    /// UUIDs of the snapshots recorded as taken from the volume `parent`.
    fn snapshot_uuids_with_parent(&self, parent: &str) -> (r: Vec<String>)
        ensures
            r@.map_values(|s: String| s@) == snap_children_spec(self.vols(), parent@),
    {
        let ghost vols = self.vols();
        let parent_s: String = parent.to_owned();
        let mut r: Vec<String> = Vec::new();
        let mut i: usize = 0;
        while i < self.volumes.len()
            invariant
                0 <= i <= self.volumes.len(),
                parent_s@ == parent@,
                vols == self.vols(),
                vols.len() == self.volumes@.len(),
                r@.map_values(|s: String| s@) == snap_children_spec(vols.take(i as int), parent@),
            decreases self.volumes.len() - i,
        {
            proof {
                assert(vols.take(i + 1).drop_last() =~= vols.take(i as int));
                assert(vols.take(i + 1).last() == vols[i as int]);
                assert(vols[i as int] == self.volumes@[i as int]@);
            }
            let matched = if self.volumes[i].is_snapshot {
                match self.volumes[i].get_blob_xattr(SnapshotXattrs::ParentId.name()) {
                    Some(p) => p == parent_s,
                    None => false,
                }
            } else {
                false
            };
            if matched {
                r.push(self.volumes[i].uuid.clone());
            }
            proof {
                assert(r@.map_values(|s: String| s@) =~= snap_children_spec(
                    vols.take(i + 1),
                    parent@,
                ));
            }
            i += 1;
        }
        proof {
            assert(vols.take(vols.len() as int) =~= vols);
        }
        r
    }

    /// Wildcard cache invalidation, used when a destroyed snapshot's
    /// parent volume is gone: every snapshot recorded under the parent's
    /// UUID is invalidated with its clones, and each clone's own
    /// snapshot chain is followed in turn, recursively. The recursion
    /// depth is bounded by the registry size, which covers every actual
    /// chain — a longer derivation would have to revisit a volume; a
    /// blob may be walked more than once, which the idempotent flag
    /// makes harmless.
    pub fn reset_snapshot_tree_usage_cache_with_wildcard(&mut self, snapshot_parent_uuid: &str)
        requires
            old(self).wf(),
        ensures
            cache_resets_only(old(self).vols(), final(self).vols()),
            final(self).events@ == old(self).events@,
            forall|j: int|
                0 <= j < old(self).vols().len() && is_child_snapshot(
                    #[trigger] old(self).vols()[j],
                    snapshot_parent_uuid@,
                ) ==> final(self).vols()[j].usage_cached == false,
            forall|j: int, m: int|
                0 <= j < old(self).vols().len() && is_child_snapshot(
                    old(self).vols()[j],
                    snapshot_parent_uuid@,
                ) && 0 <= m < old(self).vols().len() && (#[trigger] old(self).vols()[m]).is_clone_of(
                    #[trigger] old(self).vols()[j].uuid,
                ) ==> final(self).vols()[m].usage_cached == false,
            forall|j: int|
                0 <= j < old(self).vols().len() && obliged(
                    old(self).vols(),
                    snapshot_parent_uuid@,
                    #[trigger] old(self).vols()[j],
                    old(self).vols().len() as nat,
                ) ==> snapshot_and_clones_reset(
                    old(self).vols(),
                    final(self).vols(),
                    old(self).vols()[j].uuid,
                ),
    {
        let ghost vols0 = self.vols();
        let depth = self.volumes.len();
        self.wildcard_closure(snapshot_parent_uuid, depth);
        proof {
            assert forall|j: int|
                0 <= j < vols0.len() && is_child_snapshot(
                    #[trigger] vols0[j],
                    snapshot_parent_uuid@,
                ) implies self.vols()[j].usage_cached == false by {
                assert(obliged(vols0, snapshot_parent_uuid@, vols0[j], depth as nat));
                assert(snapshot_and_clones_reset(vols0, self.vols(), vols0[j].uuid));
                crate::engine::lemma_wf_lookup_self(vols0, j);
            }
            assert forall|j: int, m: int|
                0 <= j < vols0.len() && is_child_snapshot(vols0[j], snapshot_parent_uuid@) && 0 <= m
                    < vols0.len() && (#[trigger] vols0[m]).is_clone_of(
                    #[trigger] vols0[j].uuid,
                ) implies self.vols()[m].usage_cached == false by {
                assert(obliged(vols0, snapshot_parent_uuid@, vols0[j], depth as nat));
                assert(snapshot_and_clones_reset(vols0, self.vols(), vols0[j].uuid));
            }
        }
    }

    /// One level of the wildcard walk: invalidates every snapshot
    /// recorded under `snapshot_parent_uuid` together with its clones,
    /// then recurses into each clone's own snapshot chain with one level
    /// of depth less.
    fn wildcard_closure(&mut self, snapshot_parent_uuid: &str, depth: usize)
        requires
            old(self).wf(),
        ensures
            cache_resets_only(old(self).vols(), final(self).vols()),
            final(self).events@ == old(self).events@,
            forall|j: int|
                0 <= j < old(self).vols().len() && obliged(
                    old(self).vols(),
                    snapshot_parent_uuid@,
                    #[trigger] old(self).vols()[j],
                    depth as nat,
                ) ==> snapshot_and_clones_reset(
                    old(self).vols(),
                    final(self).vols(),
                    old(self).vols()[j].uuid,
                ),
        decreases depth,
    {
        if depth == 0 {
            proof {
                assert(cache_resets_only(self.vols(), self.vols()));
            }
            return ;
        }
        let ghost vols0 = self.vols();
        let seeds = self.snapshot_uuids_with_parent(snapshot_parent_uuid);
        let ghost sl = seeds@.map_values(|s: String| s@);
        let mut k: usize = 0;
        proof {
            assert(cache_resets_only(vols0, self.vols()));
            assert(chain_reset_done(vols0, self.vols(), sl.take(0)));
        }
        while k < seeds.len()
            invariant
                0 <= k <= seeds.len(),
                0 < depth,
                vols0 == old(self).vols(),
                crate::registry::uuids_unique(vols0),
                sl == seeds@.map_values(|s: String| s@),
                sl == snap_children_spec(vols0, snapshot_parent_uuid@),
                cache_resets_only(vols0, self.vols()),
                self.events@ == old(self).events@,
                chain_reset_done(vols0, self.vols(), sl.take(k as int)),
                forall|idx: int|
                    0 <= idx < k ==> seed_rec_done(
                        vols0,
                        self.vols(),
                        #[trigger] sl[idx],
                        (depth - 1) as nat,
                    ),
            decreases seeds.len() - k,
        {
            let ghost mid1 = self.vols();
            proof {
                lemma_snap_children_elements(vols0, snapshot_parent_uuid@, k as int);
                let j0 = choose|j: int|
                    0 <= j < vols0.len() && is_child_snapshot(
                        #[trigger] vols0[j],
                        snapshot_parent_uuid@,
                    ) && vols0[j].uuid == sl[k as int];
                crate::registry::lemma_vol_index_of(vols0, sl[k as int]);
                if crate::registry::vol_index_of(vols0, sl[k as int]) >= vols0.len() {
                    assert(vols0[j0].uuid == sl[k as int]);
                    assert(false);
                }
                crate::laws::lemma_vol_index_of_same_uuids(mid1, vols0, sl[k as int]);
                assert(sl[k as int] == seeds@[k as int]@);
            }
            self.reset_usage_cache_of(seeds[k].as_str());
            proof {
                lemma_cache_resets_only_trans(vols0, mid1, self.vols());
                assert(crate::registry::vol_lookup(mid1, sl[k as int]) is Some);
                assert(self.vols()[crate::registry::vol_index_of(
                    vols0,
                    sl[k as int],
                )].usage_cached == false);
            }
            let ghost mid2 = self.vols();
            proof {
                lemma_cache_resets_only_wf(vols0, mid2);
            }
            self.reset_clone_caches_of(seeds[k].as_str());
            proof {
                lemma_cache_resets_only_trans(vols0, mid2, self.vols());
                assert forall|j: int|
                    0 <= j < vols0.len() && (#[trigger] vols0[j]).is_clone_of(
                        sl[k as int],
                    ) implies self.vols()[j].usage_cached == false by {
                    assert(mid2[j].is_clone_of(sl[k as int]));
                }
                assert(snapshot_and_clones_reset(vols0, self.vols(), sl[k as int]));
                lemma_chain_reset_still_done(vols0, mid1, mid2, sl.take(k as int));
                lemma_chain_reset_still_done(vols0, mid2, self.vols(), sl.take(k as int));
                assert(sl.take(k + 1) =~= sl.take(k as int).push(sl[k as int]));
                assert(chain_reset_done(vols0, self.vols(), sl.take(k + 1)));
                assert forall|idx: int| 0 <= idx < k implies seed_rec_done(
                    vols0,
                    self.vols(),
                    #[trigger] sl[idx],
                    (depth - 1) as nat,
                ) by {
                    lemma_seed_rec_done_still(vols0, mid1, mid2, sl[idx], (depth - 1) as nat);
                    lemma_seed_rec_done_still(
                        vols0,
                        mid2,
                        self.vols(),
                        sl[idx],
                        (depth - 1) as nat,
                    );
                }
            }
            let clones_k = self.list_clones_by_snapshot_uuid(seeds[k].as_str());
            let ghost clk = clones_k@.map_values(|s: String| s@);
            proof {
                lemma_clones_of_same_cores(self.vols(), vols0, sl[k as int]);
                assert(clk == crate::registry::clones_of(vols0, sl[k as int]));
            }
            let mut m: usize = 0;
            while m < clones_k.len()
                invariant
                    0 <= m <= clones_k.len(),
                    0 <= k < seeds@.len(),
                    0 < depth,
                    vols0 == old(self).vols(),
                    crate::registry::uuids_unique(vols0),
                    sl == seeds@.map_values(|s: String| s@),
                    sl == snap_children_spec(vols0, snapshot_parent_uuid@),
                    sl.len() == seeds@.len(),
                    clk == clones_k@.map_values(|s: String| s@),
                    clk == crate::registry::clones_of(vols0, sl[k as int]),
                    cache_resets_only(vols0, self.vols()),
                    self.events@ == old(self).events@,
                    chain_reset_done(vols0, self.vols(), sl.take(k + 1)),
                    forall|idx: int|
                        0 <= idx < k ==> seed_rec_done(
                            vols0,
                            self.vols(),
                            #[trigger] sl[idx],
                            (depth - 1) as nat,
                        ),
                    forall|midx: int|
                        0 <= midx < m ==> clone_rec_done(
                            vols0,
                            self.vols(),
                            #[trigger] clk[midx],
                            (depth - 1) as nat,
                        ),
                decreases clones_k.len() - m,
            {
                let ghost pre = self.vols();
                proof {
                    lemma_cache_resets_only_wf(vols0, pre);
                    assert(clk[m as int] == clones_k@[m as int]@);
                }
                self.wildcard_closure(clones_k[m].as_str(), depth - 1);
                proof {
                    lemma_cache_resets_only_trans(vols0, pre, self.vols());
                    assert forall|j: int|
                        0 <= j < vols0.len() && obliged(
                            vols0,
                            clk[m as int],
                            #[trigger] vols0[j],
                            (depth - 1) as nat,
                        ) implies snapshot_and_clones_reset(
                        vols0,
                        self.vols(),
                        vols0[j].uuid,
                    ) by {
                        lemma_obliged_same_cores(vols0, pre, clk[m as int], j, (depth - 1) as nat);
                        assert(obliged(pre, clk[m as int], pre[j], (depth - 1) as nat));
                        assert(snapshot_and_clones_reset(pre, self.vols(), pre[j].uuid));
                        assert(pre[j].uuid == vols0[j].uuid) by {
                            assert(core_of(pre[j]) == core_of(vols0[j]));
                        }
                        lemma_sac_reset_same_base(pre, vols0, self.vols(), vols0[j].uuid);
                    }
                    assert(clone_rec_done(vols0, self.vols(), clk[m as int], (depth - 1) as nat));
                    lemma_chain_reset_still_done(vols0, pre, self.vols(), sl.take(k + 1));
                    assert forall|idx: int| 0 <= idx < k implies seed_rec_done(
                        vols0,
                        self.vols(),
                        #[trigger] sl[idx],
                        (depth - 1) as nat,
                    ) by {
                        lemma_seed_rec_done_still(
                            vols0,
                            pre,
                            self.vols(),
                            sl[idx],
                            (depth - 1) as nat,
                        );
                    }
                    assert forall|midx: int| 0 <= midx < m implies clone_rec_done(
                        vols0,
                        self.vols(),
                        #[trigger] clk[midx],
                        (depth - 1) as nat,
                    ) by {
                        lemma_clone_rec_done_still(
                            vols0,
                            pre,
                            self.vols(),
                            clk[midx],
                            (depth - 1) as nat,
                        );
                    }
                }
                m += 1;
            }
            proof {
                assert forall|c: int, j: int|
                    0 <= c < vols0.len() && 0 <= j < vols0.len() && (
                    #[trigger] vols0[c]).is_clone_of(sl[k as int]) && obliged(
                        vols0,
                        vols0[c].uuid,
                        #[trigger] vols0[j],
                        (depth - 1) as nat,
                    ) implies snapshot_and_clones_reset(vols0, self.vols(), vols0[j].uuid) by {
                    crate::registry::lemma_clones_of_complete(vols0, sl[k as int], c);
                    let wi = choose|i: int| 0 <= i < clk.len() && clk[i] == vols0[c].uuid;
                    assert(clone_rec_done(vols0, self.vols(), clk[wi], (depth - 1) as nat));
                }
                assert(seed_rec_done(vols0, self.vols(), sl[k as int], (depth - 1) as nat));
            }
            k += 1;
        }
        proof {
            assert(sl.take(sl.len() as int) =~= sl);
            assert forall|j: int|
                0 <= j < vols0.len() && obliged(
                    vols0,
                    snapshot_parent_uuid@,
                    #[trigger] vols0[j],
                    depth as nat,
                ) implies snapshot_and_clones_reset(vols0, self.vols(), vols0[j].uuid) by {
                if is_child_snapshot(vols0[j], snapshot_parent_uuid@) {
                    lemma_snap_children_complete(vols0, snapshot_parent_uuid@, j);
                    let wi = choose|i: int| 0 <= i < sl.len() && sl[i] == vols0[j].uuid;
                    assert(snapshot_and_clones_reset(vols0, self.vols(), sl[wi]));
                } else {
                    let (s, c) = choose|s: int, c: int|
                        0 <= s < vols0.len() && 0 <= c < vols0.len() && is_child_snapshot(
                            #[trigger] vols0[s],
                            snapshot_parent_uuid@,
                        ) && (#[trigger] vols0[c]).is_clone_of(vols0[s].uuid) && obliged(
                            vols0,
                            vols0[c].uuid,
                            vols0[j],
                            (depth - 1) as nat,
                        );
                    lemma_snap_children_complete(vols0, snapshot_parent_uuid@, s);
                    let wi = choose|i: int| 0 <= i < sl.len() && sl[i] == vols0[s].uuid;
                    assert(seed_rec_done(vols0, self.vols(), sl[wi], (depth - 1) as nat));
                }
            }
        }
    }

    /// Invalidates the used-clusters caches of every blob that may share
    /// allocation with the snapshot `vol_uuid` that is about to be (or
    /// was) destroyed.
    ///
    /// For a replica (`is_replica`), the chain rooted at the volume
    /// itself is walked. Otherwise the snapshot's recorded parent is
    /// located: if it still exists its cache is reset and its chain
    /// walked; if it is gone the wildcard sweep runs under the recorded
    /// parent UUID.
    pub fn reset_snapshot_tree_usage_cache(&mut self, vol_uuid: &str, is_replica: bool)
        requires
            old(self).wf(),
        ensures
            cache_resets_only(old(self).vols(), final(self).vols()),
            final(self).events@ == old(self).events@,
            !is_replica && (vol_lookup(old(self).vols(), vol_uuid@) matches Some(v)
                && xattr_find(v.xattrs, SnapshotXattrs::ParentId.key()) matches Some(pu)
                && vol_lookup(old(self).vols(), pu) is Some) ==> final(self).vols()[vol_index_of(
                old(self).vols(),
                xattr_find(
                    vol_lookup(old(self).vols(), vol_uuid@).unwrap().xattrs,
                    SnapshotXattrs::ParentId.key(),
                ).unwrap(),
            )].usage_cached == false,
            is_replica && (vol_lookup(old(self).vols(), vol_uuid@) matches Some(cur))
                ==> chain_reset_done(
                old(self).vols(),
                final(self).vols(),
                chain_snapshot_uuids(
                    old(self).vols(),
                    vol_lookup(old(self).vols(), vol_uuid@).unwrap(),
                    old(self).vols().len() as nat,
                ),
            ),
            !is_replica && (vol_lookup(old(self).vols(), vol_uuid@) matches Some(v)
                && xattr_find(v.xattrs, SnapshotXattrs::ParentId.key()) matches Some(pu)
                && vol_lookup(old(self).vols(), pu) is Some) ==> chain_reset_done(
                old(self).vols(),
                final(self).vols(),
                chain_snapshot_uuids(
                    old(self).vols(),
                    vol_lookup(
                        old(self).vols(),
                        xattr_find(
                            vol_lookup(old(self).vols(), vol_uuid@).unwrap().xattrs,
                            SnapshotXattrs::ParentId.key(),
                        ).unwrap(),
                    ).unwrap(),
                    old(self).vols().len() as nat,
                ),
            ),
            !is_replica && (vol_lookup(old(self).vols(), vol_uuid@) matches Some(v)
                && xattr_find(v.xattrs, SnapshotXattrs::ParentId.key()) matches Some(pu)
                && vol_lookup(old(self).vols(), pu) is None) ==> (forall|j: int|
                0 <= j < old(self).vols().len() && is_child_snapshot(
                    #[trigger] old(self).vols()[j],
                    xattr_find(
                        vol_lookup(old(self).vols(), vol_uuid@).unwrap().xattrs,
                        SnapshotXattrs::ParentId.key(),
                    ).unwrap(),
                ) ==> final(self).vols()[j].usage_cached == false && (forall|m: int|
                    0 <= m < old(self).vols().len() && (#[trigger] old(self).vols()[m]).is_clone_of(
                        old(self).vols()[j].uuid,
                    ) ==> final(self).vols()[m].usage_cached == false)),
            !is_replica && (vol_lookup(old(self).vols(), vol_uuid@) matches Some(v)
                && xattr_find(v.xattrs, SnapshotXattrs::ParentId.key()) matches Some(pu)
                && vol_lookup(old(self).vols(), pu) is None) ==> (forall|j: int|
                0 <= j < old(self).vols().len() && obliged(
                    old(self).vols(),
                    xattr_find(
                        vol_lookup(old(self).vols(), vol_uuid@).unwrap().xattrs,
                        SnapshotXattrs::ParentId.key(),
                    ).unwrap(),
                    #[trigger] old(self).vols()[j],
                    old(self).vols().len() as nat,
                ) ==> snapshot_and_clones_reset(
                    old(self).vols(),
                    final(self).vols(),
                    old(self).vols()[j].uuid,
                )),
    {
        if is_replica {
            self.reset_snapshot_tree_usage_cache_with_parent_uuid(vol_uuid);
            return ;
        }
        let ghost vols0 = self.vols();
        let idx = match self.find_index(vol_uuid) {
            Some(i) => i,
            None => {
                proof {
                    assert(cache_resets_only(self.vols(), self.vols()));
                }
                return ;
            },
        };
        let parent_u = match self.volumes[idx].get_blob_xattr(SnapshotXattrs::ParentId.name()) {
            Some(p) => p,
            None => {
                proof {
                    assert(cache_resets_only(self.vols(), self.vols()));
                }
                return ;
            },
        };
        match self.find_index(parent_u.as_str()) {
            Some(p_idx) => {
                self.reset_usage_cache_at(p_idx);
                let ghost mid = self.vols();
                proof {
                    lemma_cache_resets_only_wf(vols0, mid);
                }
                self.reset_snapshot_tree_usage_cache_with_parent_uuid(parent_u.as_str());
                proof {
                    lemma_cache_resets_only_trans(vols0, mid, self.vols());
                    assert(mid[p_idx as int].usage_cached == false);
                    assert(final(self).vols()[p_idx as int].usage_cached == false);
                    crate::laws::lemma_vol_index_of_same_uuids(mid, vols0, parent_u@);
                    crate::registry::lemma_vol_index_of(vols0, parent_u@);
                    assert(vol_lookup(mid, parent_u@) == Some(mid[p_idx as int]));
                    assert(core_of(mid[p_idx as int]) == core_of(vols0[p_idx as int]));
                    lemma_chain_uuids_same_cores(
                        mid,
                        vols0,
                        mid[p_idx as int],
                        vols0[p_idx as int],
                        vols0.len() as nat,
                    );
                    lemma_reset_done_same_base(
                        mid,
                        vols0,
                        self.vols(),
                        chain_snapshot_uuids(
                            vols0,
                            vols0[p_idx as int],
                            vols0.len() as nat,
                        ),
                    );
                }
            },
            None => {
                self.reset_snapshot_tree_usage_cache_with_wildcard(parent_u.as_str());
                proof {
                    assert forall|j: int|
                        0 <= j < vols0.len() && is_child_snapshot(
                            #[trigger] vols0[j],
                            parent_u@,
                        ) implies final(self).vols()[j].usage_cached == false && (forall|m: int|
                        0 <= m < vols0.len() && (#[trigger] vols0[m]).is_clone_of(vols0[j].uuid)
                            ==> final(self).vols()[m].usage_cached == false) by {
                        assert forall|m: int|
                            0 <= m < vols0.len() && (#[trigger] vols0[m]).is_clone_of(
                                vols0[j].uuid,
                            ) implies final(self).vols()[m].usage_cached == false by {
                            assert(is_child_snapshot(vols0[j], parent_u@));
                        }
                    }
                }
            },
        }
    }
}

/// UUID uniqueness survives removing a volume.
pub proof fn lemma_unique_remove(vols: Seq<VolumeView>, i: int)
    requires
        crate::registry::uuids_unique(vols),
        0 <= i < vols.len(),
    ensures
        crate::registry::uuids_unique(vols.remove(i)),
{
    let r = vols.remove(i);
    assert forall|a: int, b: int| 0 <= a < b < r.len() implies r[a].uuid != r[b].uuid by {
        let a0 = if a < i {
            a
        } else {
            a + 1
        };
        let b0 = if b < i {
            b
        } else {
            b + 1
        };
        assert(r[a] == vols[a0]);
        assert(r[b] == vols[b0]);
    }
}

impl Registry {
    /// Destroys the volume `uuid`: the blob leaves the registry and a
    /// deletion event is emitted. Destroying an unknown volume is
    /// refused.
    pub fn destroy_volume(&mut self, uuid: &str) -> (r: Result<(), LvsError>)
        requires
            old(self).wf(),
        ensures
            final(self).wf(),
            vol_lookup(old(self).vols(), uuid@) is None ==> *final(self) == *old(self) && (
            r matches Err(LvsError::InvalidBdev { name }) && name@ == uuid@),
            vol_lookup(old(self).vols(), uuid@) is Some ==> final(self).vols() == old(
                self,
            ).vols().remove(vol_index_of(old(self).vols(), uuid@)) && final(self).evs() == old(
                self,
            ).evs().push(EventView { action: EventAction::Delete, id: uuid@ }) && r is Ok,
    {
        let ghost vols0 = self.vols();
        let idx = match self.find_index(uuid) {
            Some(i) => i,
            None => {
                return Err(LvsError::InvalidBdev { name: uuid.to_owned() });
            },
        };
        self.volumes.remove(idx);
        self.events.push(EventRecord { action: EventAction::Delete, id: uuid.to_owned() });
        proof {
            assert(final(self).vols() =~= vols0.remove(idx as int));
            assert(final(self).evs() =~= old(self).evs().push(
                EventView { action: EventAction::Delete, id: uuid@ },
            ));
            lemma_unique_remove(vols0, idx as int);
        }
        Ok(())
    }

    /// Destroys the snapshot `snap_uuid`.
    ///
    /// A snapshot pinned by at least one live clone must not be
    /// physically destroyed, because the clones share its clusters: it is
    /// durably marked discarded instead, and the call still succeeds. An
    /// unpinned snapshot's blob is destroyed at once.
    pub fn destroy_snapshot(&mut self, snap_uuid: &str) -> (r: Result<(), LvsError>)
        requires
            old(self).wf(),
        ensures
            final(self).wf(),
            vol_lookup(old(self).vols(), snap_uuid@) is None ==> *final(self) == *old(self) && (
            r matches Err(LvsError::InvalidBdev { name }) && name@ == snap_uuid@),
            vol_lookup(old(self).vols(), snap_uuid@) is Some && count_clones(
                old(self).vols(),
                snap_uuid@,
            ) == 0 ==> final(self).vols() == old(self).vols().remove(
                vol_index_of(old(self).vols(), snap_uuid@),
            ) && final(self).evs() == old(self).evs().push(
                EventView { action: EventAction::Delete, id: snap_uuid@ },
            ) && r is Ok,
            vol_lookup(old(self).vols(), snap_uuid@) is Some && count_clones(
                old(self).vols(),
                snap_uuid@,
            ) > 0 ==> final(self).vols() == old(self).vols().update(
                vol_index_of(old(self).vols(), snap_uuid@),
                VolumeView {
                    xattrs: xattr_set(
                        vol_lookup(old(self).vols(), snap_uuid@).unwrap().xattrs,
                        SnapshotXattrs::DiscardedSnapshot.key(),
                        "true"@,
                    ),
                    ..vol_lookup(old(self).vols(), snap_uuid@).unwrap()
                },
            ) && final(self).evs() == old(self).evs() && r is Ok,
    {
        let ghost vols0 = self.vols();
        let idx = match self.find_index(snap_uuid) {
            Some(i) => i,
            None => {
                return Err(LvsError::InvalidBdev { name: snap_uuid.to_owned() });
            },
        };
        let clones = self.list_clones_by_snapshot_uuid(snap_uuid);
        proof {
            crate::registry::lemma_count_clones_is_len(vols0, snap_uuid@);
        }
        if clones.len() == 0 {
            return self.destroy_volume(snap_uuid);
        }
        let mut v = self.volumes[idx].duplicate();
        crate::xattrs::xattr_put(
            &mut v.xattrs,
            SnapshotXattrs::DiscardedSnapshot.name(),
            crate::params::bool_to_text(true),
        );
        self.volumes.set(idx, v);
        proof {
            crate::params::lemma_bool_text_roundtrip(true);
            assert(final(self).vols() =~= vols0.update(
                idx as int,
                VolumeView {
                    xattrs: xattr_set(
                        vols0[idx as int].xattrs,
                        SnapshotXattrs::DiscardedSnapshot.key(),
                        "true"@,
                    ),
                    ..vols0[idx as int]
                },
            ));
            assert forall|a: int, b: int| 0 <= a < b < final(self).vols().len() implies final(self).vols()[a].uuid
                != final(self).vols()[b].uuid by {
                assert(final(self).vols()[a].uuid == vols0[a].uuid);
                assert(final(self).vols()[b].uuid == vols0[b].uuid);
            }
        }
        Ok(())
    }
}

pub open spec fn core_is_clone_of(c: VolumeCore, snap_uuid: Seq<char>) -> bool {
    xattr_find(c.xattrs, CloneXattrs::SourceUuid.key()) == Some(snap_uuid)
}

pub open spec fn core_discarded(c: VolumeCore) -> bool {
    match xattr_find(c.xattrs, SnapshotXattrs::DiscardedSnapshot.key()) {
        Some(v) => crate::params::parse_bool_text(v),
        None => false,
    }
}

/// Number of live clones of the snapshot `snap_uuid`, over cores.
pub open spec fn core_count_clones(cs: Seq<VolumeCore>, snap_uuid: Seq<char>) -> nat
    decreases cs.len(),
{
    if cs.len() == 0 {
        0
    } else {
        core_count_clones(cs.drop_last(), snap_uuid) + if core_is_clone_of(cs.last(), snap_uuid) {
            1nat
        } else {
            0nat
        }
    }
}

/// A snapshot that was logically destroyed and is no longer pinned by any
/// clone: the garbage collector owes it physical destruction.
pub open spec fn pending_discarded(c: VolumeCore, all: Seq<VolumeCore>) -> bool {
    c.is_snapshot && core_discarded(c) && core_count_clones(all, c.uuid) == 0
}

/// What one garbage-collection pass leaves of `prefix`, judging each
/// volume against the whole pre-sweep registry `all`.
pub open spec fn sweep_rec(prefix: Seq<VolumeCore>, all: Seq<VolumeCore>) -> Seq<VolumeCore>
    decreases prefix.len(),
{
    if prefix.len() == 0 {
        Seq::empty()
    } else {
        let rest = sweep_rec(prefix.drop_last(), all);
        if pending_discarded(prefix.last(), all) {
            rest
        } else {
            rest.push(prefix.last())
        }
    }
}

/// What one garbage-collection pass leaves of the registry.
pub open spec fn sweep_cores(all: Seq<VolumeCore>) -> Seq<VolumeCore> {
    sweep_rec(all, all)
}

/// The two clone counts agree across the core projection.
pub proof fn lemma_count_clones_cores(vols: Seq<VolumeView>, snap_uuid: Seq<char>)
    ensures
        core_count_clones(cores(vols), snap_uuid) == count_clones(vols, snap_uuid),
    decreases vols.len(),
{
    if vols.len() > 0 {
        lemma_count_clones_cores(vols.drop_last(), snap_uuid);
        assert(cores(vols).drop_last() =~= cores(vols.drop_last()));
        assert(cores(vols).last() == core_of(vols.last()));
    }
}

/// A sweep of a registry with nothing pending changes nothing.
pub proof fn lemma_sweep_rec_noop(prefix: Seq<VolumeCore>, all: Seq<VolumeCore>)
    requires
        forall|j: int| 0 <= j < prefix.len() ==> !pending_discarded(#[trigger] prefix[j], all),
    ensures
        sweep_rec(prefix, all) == prefix,
    decreases prefix.len(),
{
    if prefix.len() > 0 {
        lemma_sweep_rec_noop(prefix.drop_last(), all);
        assert(sweep_rec(prefix, all) =~= prefix);
    }
}

/// Every volume the sweep keeps stood in the registry and was not
/// pending.
pub proof fn lemma_sweep_elements(prefix: Seq<VolumeCore>, all: Seq<VolumeCore>)
    ensures
        forall|k: int|
            0 <= k < sweep_rec(prefix, all).len() ==> exists|j: int|
                0 <= j < prefix.len() && #[trigger] sweep_rec(prefix, all)[k] == prefix[j]
                    && !pending_discarded(prefix[j], all),
    decreases prefix.len(),
{
    if prefix.len() > 0 {
        lemma_sweep_elements(prefix.drop_last(), all);
        let r = sweep_rec(prefix, all);
        let rest = sweep_rec(prefix.drop_last(), all);
        assert forall|k: int| 0 <= k < r.len() implies exists|j: int|
            0 <= j < prefix.len() && #[trigger] r[k] == prefix[j] && !pending_discarded(
                prefix[j],
                all,
            ) by {
            if pending_discarded(prefix.last(), all) {
                assert(r == rest);
                let j0 = choose|j: int|
                    0 <= j < prefix.drop_last().len() && rest[k] == prefix.drop_last()[j]
                        && !pending_discarded(prefix.drop_last()[j], all);
                assert(prefix.drop_last()[j0] == prefix[j0]);
            } else {
                if k < rest.len() {
                    let j0 = choose|j: int|
                        0 <= j < prefix.drop_last().len() && rest[k] == prefix.drop_last()[j]
                            && !pending_discarded(prefix.drop_last()[j], all);
                    assert(prefix.drop_last()[j0] == prefix[j0]);
                } else {
                    assert(r[k] == prefix[prefix.len() - 1]);
                }
            }
        }
    }
}

/// A volume that is not pending survives the sweep.
pub proof fn lemma_sweep_keeps(prefix: Seq<VolumeCore>, all: Seq<VolumeCore>, i: int)
    requires
        0 <= i < prefix.len(),
        !pending_discarded(prefix[i], all),
    ensures
        exists|k: int|
            0 <= k < sweep_rec(prefix, all).len() && #[trigger] sweep_rec(prefix, all)[k]
                == prefix[i],
    decreases prefix.len(),
{
    let r = sweep_rec(prefix, all);
    let rest = sweep_rec(prefix.drop_last(), all);
    if i == prefix.len() - 1 {
        assert(r[r.len() - 1] == prefix[i]);
    } else {
        assert(prefix.drop_last()[i] == prefix[i]);
        lemma_sweep_keeps(prefix.drop_last(), all, i);
        let k0 = choose|k: int| 0 <= k < rest.len() && #[trigger] rest[k] == prefix[i];
        assert(r[k0] == prefix[i]);
    }
}

/// The sweep removes no clone, so clone counts are unchanged — provided
/// no volume is at once a snapshot and marked as a clone, which the
/// engine never produces.
pub proof fn lemma_sweep_preserves_clones(
    prefix: Seq<VolumeCore>,
    all: Seq<VolumeCore>,
    snap_uuid: Seq<char>,
)
    requires
        forall|j: int|
            0 <= j < prefix.len() && (#[trigger] prefix[j]).is_snapshot ==> xattr_find(
                prefix[j].xattrs,
                CloneXattrs::SourceUuid.key(),
            ) is None,
    ensures
        core_count_clones(sweep_rec(prefix, all), snap_uuid) == core_count_clones(
            prefix,
            snap_uuid,
        ),
    decreases prefix.len(),
{
    if prefix.len() > 0 {
        assert(forall|j: int|
            0 <= j < prefix.drop_last().len() && (#[trigger] prefix.drop_last()[j]).is_snapshot
                ==> xattr_find(
                prefix.drop_last()[j].xattrs,
                CloneXattrs::SourceUuid.key(),
            ) is None);
        lemma_sweep_preserves_clones(prefix.drop_last(), all, snap_uuid);
        let r = sweep_rec(prefix, all);
        let rest = sweep_rec(prefix.drop_last(), all);
        if pending_discarded(prefix.last(), all) {
            assert(prefix[prefix.len() - 1].is_snapshot);
            assert(!core_is_clone_of(prefix.last(), snap_uuid));
            assert(core_count_clones(prefix, snap_uuid) == core_count_clones(
                prefix.drop_last(),
                snap_uuid,
            ));
        } else {
            assert(r == rest.push(prefix.last()));
            assert(r.drop_last() =~= rest);
            assert(r.last() == prefix.last());
        }
    }
}

/// After a sweep nothing is pending: every snapshot the sweep owed
/// destruction is gone, and what remains is not destroyable.
pub proof fn lemma_sweep_removes_pending(all: Seq<VolumeCore>)
    requires
        forall|j: int|
            0 <= j < all.len() && (#[trigger] all[j]).is_snapshot ==> xattr_find(
                all[j].xattrs,
                CloneXattrs::SourceUuid.key(),
            ) is None,
    ensures
        forall|k: int|
            0 <= k < sweep_cores(all).len() ==> !pending_discarded(
                #[trigger] sweep_cores(all)[k],
                sweep_cores(all),
            ),
{
    let r = sweep_cores(all);
    lemma_sweep_elements(all, all);
    assert forall|k: int| 0 <= k < r.len() implies !pending_discarded(#[trigger] r[k], r) by {
        let j0 = choose|j: int|
            0 <= j < all.len() && r[k] == all[j] && !pending_discarded(all[j], all);
        if r[k].is_snapshot && core_discarded(r[k]) {
            assert(core_count_clones(all, r[k].uuid) > 0);
            lemma_sweep_preserves_clones(all, all, r[k].uuid);
        }
    }
}

impl Registry {
    /// Garbage-collects discarded snapshots, as run on pool import.
    ///
    /// During the destruction of a last linked clone a fault can leave
    /// the discarded snapshot behind; this pass collects every snapshot
    /// that is marked discarded and pinned by no clone, invalidates the
    /// usage caches of each one's tree, destroys them, and announces
    /// each destruction on the event bus. Beyond the destructions and
    /// the cache invalidation nothing changes: no surviving volume's
    /// attributes move and no cache comes back to life. The pass is
    /// best-effort and restartable: a registry with nothing pending is
    /// left untouched.
    pub fn destroy_pending_discarded_snapshot(&mut self)
        requires
            old(self).wf(),
        ensures
            final(self).wf(),
            final(self).evs() == old(self).evs() + delete_events(
                pending_uuids(cores(old(self).vols()), cores(old(self).vols())),
            ),
            cores(final(self).vols()) == sweep_cores(cores(old(self).vols())),
            forall|k: int|
                0 <= k < final(self).vols().len() && (#[trigger] final(self).vols()[k]).usage_cached
                    ==> exists|j: int|
                    0 <= j < old(self).vols().len() && core_of(#[trigger] old(self).vols()[j])
                        == core_of(final(self).vols()[k]) && old(self).vols()[j].usage_cached,
            (forall|j: int|
                0 <= j < old(self).vols().len() ==> !pending_discarded(
                    core_of(#[trigger] old(self).vols()[j]),
                    cores(old(self).vols()),
                )) ==> *final(self) == *old(self),
            (forall|j: int|
                0 <= j < old(self).vols().len() && (#[trigger] old(self).vols()[j]).is_snapshot
                    ==> xattr_find(
                    old(self).vols()[j].xattrs,
                    CloneXattrs::SourceUuid.key(),
                ) is None) ==> (forall|k: int|
                0 <= k < final(self).vols().len() ==> !pending_discarded(
                    core_of(#[trigger] final(self).vols()[k]),
                    cores(final(self).vols()),
                )),
    {
        let ghost vols0 = self.vols();
        let ghost cores0 = cores(vols0);
        let mut candidates: Vec<String> = Vec::new();
        let mut i: usize = 0;
        while i < self.volumes.len()
            invariant
                0 <= i <= self.volumes.len(),
                self.wf(),
                vols0 == self.vols(),
                cores0 == cores(vols0),
                vols0.len() == self.volumes@.len(),
                candidates@.map_values(|s: String| s@) == pending_uuids(
                    cores0.take(i as int),
                    cores0,
                ),
                candidates@.len() == 0 <==> (forall|j: int|
                    0 <= j < i ==> !pending_discarded(core_of(#[trigger] vols0[j]), cores0)),
            decreases self.volumes.len() - i,
        {
            proof {
                assert(vols0[i as int] == self.volumes@[i as int]@);
                assert(cores0.take(i + 1).drop_last() =~= cores0.take(i as int));
                assert(cores0.take(i + 1).last() == core_of(vols0[i as int]));
            }
            let is_pending = if self.volumes[i].is_snapshot {
                if self.volumes[i].is_discarded_snapshot() {
                    let uuid = self.volumes[i].uuid.clone();
                    let n = self.num_clones_of(uuid.as_str());
                    proof {
                        lemma_count_clones_cores(vols0, vols0[i as int].uuid);
                    }
                    n == 0
                } else {
                    false
                }
            } else {
                false
            };
            proof {
                lemma_count_clones_cores(vols0, vols0[i as int].uuid);
            }
            if is_pending {
                candidates.push(self.volumes[i].uuid.clone());
                proof {
                    assert(candidates@.map_values(|s: String| s@) =~= pending_uuids(
                        cores0.take(i + 1),
                        cores0,
                    ));
                }
            } else {
                proof {
                    assert(candidates@.map_values(|s: String| s@) =~= pending_uuids(
                        cores0.take(i + 1),
                        cores0,
                    ));
                }
            }
            i += 1;
        }
        let ghost cv = candidates@.map_values(|s: String| s@);
        proof {
            assert(cores0.take(cores0.len() as int) =~= cores0);
            assert(cv == pending_uuids(cores0, cores0));
        }
        if candidates.len() == 0 {
            proof {
                lemma_sweep_rec_noop(cores0, cores0);
                assert(cores(final(self).vols()) =~= sweep_cores(cores0));
                assert(delete_events(cv) =~= Seq::<EventView>::empty());
                assert(final(self).evs() =~= old(self).evs() + delete_events(cv));
                assert forall|k: int|
                    0 <= k < final(self).vols().len() && (
                    #[trigger] final(self).vols()[k]).usage_cached implies exists|j: int|
                    0 <= j < vols0.len() && core_of(#[trigger] vols0[j]) == core_of(
                        final(self).vols()[k],
                    ) && vols0[j].usage_cached by {
                    assert(core_of(vols0[k]) == core_of(final(self).vols()[k]) && vols0[k].usage_cached);
                }
                if forall|j: int|
                    0 <= j < vols0.len() && (#[trigger] vols0[j]).is_snapshot ==> xattr_find(
                        vols0[j].xattrs,
                        CloneXattrs::SourceUuid.key(),
                    ) is None {
                    lemma_swept_registry_not_pending(vols0, self.vols());
                }
            }
            return ;
        }
        let mut k: usize = 0;
        while k < candidates.len()
            invariant
                vols0 == old(self).vols(),
                crate::registry::uuids_unique(vols0),
                cache_resets_only(vols0, self.vols()),
                self.events@ == old(self).events@,
            decreases candidates.len() - k,
        {
            let ghost mid = self.vols();
            proof {
                lemma_cache_resets_only_wf(vols0, mid);
            }
            self.reset_snapshot_tree_usage_cache(candidates[k].as_str(), false);
            proof {
                lemma_cache_resets_only_trans(vols0, mid, self.vols());
            }
            k += 1;
        }
        proof {
            lemma_cache_resets_only_wf(vols0, self.vols());
        }
        let pre = self.duplicate();
        let ghost pvols = pre.vols();
        proof {
            assert(cache_resets_only(vols0, pvols));
            assert(cores(pvols) =~= cores0);
            assert(crate::registry::uuids_unique(pvols));
        }
        let mut kept: Vec<Volume> = Vec::new();
        let mut m: usize = 0;
        while m < pre.volumes.len()
            invariant
                0 <= m <= pre.volumes.len(),
                pvols == pre.vols(),
                cores0 == cores(pvols),
                crate::registry::uuids_unique(pvols),
                pvols.len() == pre.volumes@.len(),
                cores(crate::registry::rview(kept@)) == sweep_rec(
                    cores(pvols.take(m as int)),
                    cores0,
                ),
                forall|a: int|
                    0 <= a < kept@.len() ==> exists|j: int|
                        0 <= j < m && (#[trigger] kept@[a])@.uuid == pvols[j].uuid && core_of(
                            kept@[a]@,
                        ) == core_of(pvols[j]) && (kept@[a]@.usage_cached
                            ==> pvols[j].usage_cached),
                forall|a: int, b: int|
                    0 <= a < b < kept@.len() ==> (#[trigger] kept@[a])@.uuid != (
                    #[trigger] kept@[b])@.uuid,
            decreases pre.volumes.len() - m,
        {
            proof {
                assert(pvols[m as int] == pre.volumes@[m as int]@);
                assert(cores(pvols.take(m + 1)).drop_last() =~= cores(pvols.take(m as int)));
                assert(cores(pvols.take(m + 1)).last() == core_of(pvols[m as int]));
                lemma_count_clones_cores(pvols, pvols[m as int].uuid);
            }
            let is_pending = if pre.volumes[m].is_snapshot {
                if pre.volumes[m].is_discarded_snapshot() {
                    let uuid = pre.volumes[m].uuid.clone();
                    pre.num_clones_of(uuid.as_str()) == 0
                } else {
                    false
                }
            } else {
                false
            };
            if !is_pending {
                let ghost kept_before = kept@;
                kept.push(pre.volumes[m].duplicate());
                proof {
                    assert(cores(crate::registry::rview(kept@)) =~= sweep_rec(
                        cores(pvols.take(m + 1)),
                        cores0,
                    ));
                    assert forall|a: int, b: int| 0 <= a < b < kept@.len() implies (
                    #[trigger] kept@[a])@.uuid != (#[trigger] kept@[b])@.uuid by {
                        if b == kept@.len() - 1 {
                            let j0 = choose|j: int|
                                0 <= j < m && kept_before[a]@.uuid == pvols[j].uuid && core_of(
                                    kept_before[a]@,
                                ) == core_of(pvols[j]) && (kept_before[a]@.usage_cached
                                    ==> pvols[j].usage_cached);
                            assert(pvols[j0].uuid != pvols[m as int].uuid);
                        }
                    }
                }
            } else {
                proof {
                    assert(cores(crate::registry::rview(kept@)) =~= sweep_rec(
                        cores(pvols.take(m + 1)),
                        cores0,
                    ));
                }
            }
            m += 1;
        }
        self.volumes = kept;
        let ghost fvols = crate::registry::rview(self.volumes@);
        proof {
            assert(pvols.take(pvols.len() as int) =~= pvols);
            assert(cores(fvols) == sweep_rec(cores(pvols), cores0));
            assert(cores(pvols) =~= cores0);
            assert(crate::registry::uuids_unique(fvols));
            if forall|j: int|
                0 <= j < vols0.len() && (#[trigger] vols0[j]).is_snapshot ==> xattr_find(
                    vols0[j].xattrs,
                    CloneXattrs::SourceUuid.key(),
                ) is None {
                lemma_swept_registry_not_pending(vols0, self.vols());
            }
            assert forall|k: int|
                0 <= k < fvols.len() && (#[trigger] fvols[k]).usage_cached implies exists|j: int|
                0 <= j < vols0.len() && core_of(#[trigger] vols0[j]) == core_of(fvols[k])
                    && vols0[j].usage_cached by {
                let j0 = choose|j: int|
                    0 <= j < pvols.len() && fvols[k].uuid == pvols[j].uuid && core_of(fvols[k])
                        == core_of(pvols[j]) && (fvols[k].usage_cached ==> pvols[j].usage_cached);
                assert(core_of(vols0[j0]) == core_of(pvols[j0]));
                assert(pvols[j0].usage_cached ==> vols0[j0].usage_cached);
            }
        }
        let ghost evs0 = old(self).evs();
        let mut e: usize = 0;
        proof {
            assert(self.evs() =~= evs0 + delete_events(cv.take(0)));
        }
        while e < candidates.len()
            invariant
                0 <= e <= candidates.len(),
                crate::registry::rview(self.volumes@) == fvols,
                evs0 == old(self).evs(),
                cv == candidates@.map_values(|s: String| s@),
                self.evs() =~= evs0 + delete_events(cv.take(e as int)),
            decreases candidates.len() - e,
        {
            let ghost evs_before = self.evs();
            proof {
                assert(cv[e as int] == candidates@[e as int]@);
            }
            self.events.push(
                EventRecord { action: EventAction::Delete, id: candidates[e].clone() },
            );
            proof {
                assert(self.evs() =~= evs_before.push(
                    EventView { action: EventAction::Delete, id: cv[e as int] },
                ));
                assert(delete_events(cv.take(e + 1)) =~= delete_events(cv.take(e as int)).push(
                    EventView { action: EventAction::Delete, id: cv[e as int] },
                ));
                assert(self.evs() =~= evs0 + delete_events(cv.take(e + 1)));
            }
            e += 1;
        }
        proof {
            assert(cv.take(cv.len() as int) =~= cv);
            assert(final(self).evs() =~= evs0 + delete_events(cv));
            assert(final(self).vols() == fvols);
            assert forall|k: int|
                0 <= k < final(self).vols().len() && (
                #[trigger] final(self).vols()[k]).usage_cached implies exists|j: int|
                0 <= j < vols0.len() && core_of(#[trigger] vols0[j]) == core_of(
                    final(self).vols()[k],
                ) && vols0[j].usage_cached by {
                assert(fvols[k].usage_cached);
            }
        }
    }
}

/// UUIDs of the snapshots one garbage-collection pass owes destruction,
/// in registry order.
pub open spec fn pending_uuids(prefix: Seq<VolumeCore>, all: Seq<VolumeCore>) -> Seq<Seq<char>>
    decreases prefix.len(),
{
    if prefix.len() == 0 {
        Seq::empty()
    } else {
        let rest = pending_uuids(prefix.drop_last(), all);
        if pending_discarded(prefix.last(), all) {
            rest.push(prefix.last().uuid)
        } else {
            rest
        }
    }
}

/// The deletion events announcing the destroyed snapshots.
pub open spec fn delete_events(us: Seq<Seq<char>>) -> Seq<EventView> {
    us.map_values(|u: Seq<char>| EventView { action: EventAction::Delete, id: u })
}

/// A registry whose contents are what a sweep left behind has nothing
/// pending — provided no volume is at once a snapshot and marked as a
/// clone, which the engine never produces.
proof fn lemma_swept_registry_not_pending(vols0: Seq<VolumeView>, fin: Seq<VolumeView>)
    requires
        forall|j: int|
            0 <= j < vols0.len() && (#[trigger] vols0[j]).is_snapshot ==> xattr_find(
                vols0[j].xattrs,
                CloneXattrs::SourceUuid.key(),
            ) is None,
        cores(fin) == sweep_cores(cores(vols0)),
    ensures
        forall|k: int|
            0 <= k < fin.len() ==> !pending_discarded(core_of(#[trigger] fin[k]), cores(fin)),
{
    let cores0 = cores(vols0);
    assert forall|j: int|
        0 <= j < cores0.len() && (#[trigger] cores0[j]).is_snapshot implies xattr_find(
        cores0[j].xattrs,
        CloneXattrs::SourceUuid.key(),
    ) is None by {
        assert(cores0[j] == core_of(vols0[j]));
    }
    lemma_sweep_removes_pending(cores0);
    assert forall|k: int| 0 <= k < fin.len() implies !pending_discarded(
        core_of(#[trigger] fin[k]),
        cores(fin),
    ) by {
        assert(cores(fin)[k] == core_of(fin[k]));
    }
}

/// The garbage collector is idempotent: a second sweep right after a
/// first one changes nothing.
pub proof fn lemma_sweep_idempotent(all: Seq<VolumeCore>)
    requires
        forall|j: int|
            0 <= j < all.len() && (#[trigger] all[j]).is_snapshot ==> xattr_find(
                all[j].xattrs,
                CloneXattrs::SourceUuid.key(),
            ) is None,
    ensures
        sweep_cores(sweep_cores(all)) == sweep_cores(all),
{
    lemma_sweep_removes_pending(all);
    lemma_sweep_rec_noop(sweep_cores(all), sweep_cores(all));
}

} // verus!

//! Laws of the snapshot/clone graph, proved from the engine's contracts:
//! what creation persists, what pins a snapshot, and what the garbage
//! collector owes and preserves.

use vstd::prelude::*;

use crate::engine::{
    clone_volume_of, create_snapshot_transform, descriptor_of, snapshot_volume_of,
};
use crate::gc::{
    core_count_clones, core_is_clone_of, core_of, cores, pending_discarded, sweep_cores,
    VolumeCore,
};
use crate::params::{clone_xattrs_of, CloneParamsView, SnapshotParamsView};
use crate::registry::{count_clones, VolumeView};
use crate::xattrs::{xattr_find, CloneXattrs};

verus! {

/// A snapshot the engine creates carries all six snapshot attributes, so
/// its listing descriptor is valid.
pub proof fn lemma_created_snapshot_descriptor_valid(
    vols: Seq<VolumeView>,
    i: int,
    p: SnapshotParamsView,
)
    requires
        0 <= i < vols.len(),
        p.is_complete(),
        p.name is Some,
    ensures
        ({
            let vols2 = create_snapshot_transform(vols, i, p);
            descriptor_of(vols2, vols2.last(), None).unwrap().valid
        }),
{
    crate::params::lemma_snapshot_params_roundtrip(p);
    let vols2 = create_snapshot_transform(vols, i, p);
    assert(vols2.last() == snapshot_volume_of(vols[i], p));
}

/// The clone attributes record exactly the requested source snapshot.
pub proof fn lemma_clone_xattrs_source(p: CloneParamsView)
    requires
        p.is_complete(),
    ensures
        xattr_find(clone_xattrs_of(p), CloneXattrs::SourceUuid.key()) == Some(
            p.source_uuid.unwrap(),
        ),
{
    reveal_with_fuel(crate::xattrs::xattr_index_of, 5);
}

/// A clone created from the snapshot `snap` records `snap`'s UUID as its
/// source.
pub proof fn lemma_clone_records_source(snap: VolumeView, p: CloneParamsView)
    requires
        p.is_complete(),
        p.source_uuid == Some(snap.uuid),
    ensures
        clone_volume_of(snap, p).clone_source() == Some(snap.uuid),
        clone_volume_of(snap, p).is_clone_of(snap.uuid),
{
    lemma_clone_xattrs_source(p);
}

/// A volume that records the snapshot as its source makes the snapshot's
/// clone count positive.
pub proof fn lemma_clone_implies_count_pos(vols: Seq<VolumeView>, j: int, snap_uuid: Seq<char>)
    requires
        0 <= j < vols.len(),
        vols[j].is_clone_of(snap_uuid),
    ensures
        count_clones(vols, snap_uuid) > 0,
    decreases vols.len(),
{
    if j == vols.len() - 1 {
    } else {
        assert(vols.drop_last()[j] == vols[j]);
        lemma_clone_implies_count_pos(vols.drop_last(), j, snap_uuid);
    }
}

/// The core-level counterpart of `lemma_clone_implies_count_pos`.
pub proof fn lemma_core_clone_implies_count_pos(cs: Seq<VolumeCore>, j: int, snap_uuid: Seq<char>)
    requires
        0 <= j < cs.len(),
        core_is_clone_of(cs[j], snap_uuid),
    ensures
        core_count_clones(cs, snap_uuid) > 0,
    decreases cs.len(),
{
    if j == cs.len() - 1 {
    } else {
        assert(cs.drop_last()[j] == cs[j]);
        lemma_core_clone_implies_count_pos(cs.drop_last(), j, snap_uuid);
    }
}

/// While any clone of a snapshot lives, the garbage collector keeps the
/// snapshot: it is pinned and must not be physically destroyed.
pub proof fn lemma_pinned_snapshot_survives_sweep(all: Seq<VolumeCore>, si: int, cj: int)
    requires
        0 <= si < all.len(),
        0 <= cj < all.len(),
        core_is_clone_of(all[cj], all[si].uuid),
    ensures
        exists|k: int|
            0 <= k < sweep_cores(all).len() && #[trigger] sweep_cores(all)[k] == all[si],
{
    lemma_core_clone_implies_count_pos(all, cj, all[si].uuid);
    crate::gc::lemma_sweep_keeps(all, all, si);
    let k0 = choose|k: int|
        0 <= k < crate::gc::sweep_rec(all, all).len() && #[trigger] crate::gc::sweep_rec(all, all)[k]
            == all[si];
    assert(sweep_cores(all)[k0] == all[si]);
}

/// Removing one volume lowers the snapshot's clone count exactly when the
/// removed volume was one of its clones.
pub proof fn lemma_count_clones_remove(vols: Seq<VolumeView>, i: int, snap_uuid: Seq<char>)
    requires
        0 <= i < vols.len(),
    ensures
        count_clones(vols.remove(i), snap_uuid) + (if vols[i].is_clone_of(snap_uuid) {
            1nat
        } else {
            0nat
        }) == count_clones(vols, snap_uuid),
    decreases vols.len(),
{
    if i == vols.len() - 1 {
        assert(vols.remove(i) =~= vols.drop_last());
    } else {
        lemma_count_clones_remove(vols.drop_last(), i, snap_uuid);
        assert(vols.remove(i).drop_last() =~= vols.drop_last().remove(i));
        assert(vols.remove(i).last() == vols.last());
    }
}

/// The index of a UUID depends only on the sequence of UUIDs.
pub proof fn lemma_vol_index_of_same_uuids(
    xs: Seq<VolumeView>,
    ys: Seq<VolumeView>,
    uuid: Seq<char>,
)
    requires
        xs.len() == ys.len(),
        forall|j: int| 0 <= j < xs.len() ==> xs[j].uuid == ys[j].uuid,
    ensures
        crate::registry::vol_index_of(xs, uuid) == crate::registry::vol_index_of(ys, uuid),
    decreases xs.len(),
{
    if xs.len() > 0 {
        assert(xs[0].uuid == ys[0].uuid);
        if xs[0].uuid != uuid {
            assert(forall|j: int|
                0 <= j < xs.drop_first().len() ==> xs.drop_first()[j].uuid
                    == ys.drop_first()[j].uuid);
            lemma_vol_index_of_same_uuids(xs.drop_first(), ys.drop_first(), uuid);
        }
    }
}

/// How appending a volume moves UUID indices: found entries stay where
/// they were, and the appended volume answers only for its own UUID.
pub proof fn lemma_vol_index_of_push(xs: Seq<VolumeView>, v: VolumeView, uuid: Seq<char>)
    ensures
        crate::registry::vol_index_of(xs.push(v), uuid) == (if crate::registry::vol_index_of(
            xs,
            uuid,
        ) < xs.len() {
            crate::registry::vol_index_of(xs, uuid)
        } else if v.uuid == uuid {
            xs.len() as int
        } else {
            xs.len() + 1int
        }),
    decreases xs.len(),
{
    crate::registry::lemma_vol_index_of(xs, uuid);
    if xs.len() == 0 {
        assert(xs.push(v)[0] == v);
        assert(xs.push(v).drop_first() =~= Seq::<VolumeView>::empty());
        reveal_with_fuel(crate::registry::vol_index_of, 2);
    } else if xs[0].uuid != uuid {
        assert(xs.push(v)[0] == xs[0]);
        assert(xs.push(v).drop_first() =~= xs.drop_first().push(v));
        lemma_vol_index_of_push(xs.drop_first(), v, uuid);
        crate::registry::lemma_vol_index_of(xs.drop_first(), uuid);
    } else {
        assert(xs.push(v)[0] == xs[0]);
    }
}

/// Where each volume is found after a snapshot creation: the new
/// snapshot answers for its UUID at the end, and every other UUID keeps
/// its place.
pub proof fn lemma_transform_lookup(vols: Seq<VolumeView>, i: int, p: SnapshotParamsView)
    requires
        crate::registry::uuids_unique(vols),
        0 <= i < vols.len(),
        p.is_complete(),
        p.name is Some,
        crate::registry::vol_lookup(vols, p.snapshot_uuid.unwrap()) is None,
    ensures
        ({
            let t = create_snapshot_transform(vols, i, p);
            let su = p.snapshot_uuid.unwrap();
            &&& t.len() == vols.len() + 1
            &&& crate::registry::uuids_unique(t)
            &&& crate::registry::vol_lookup(t, su) == Some(snapshot_volume_of(vols[i], p))
            &&& forall|u: Seq<char>|
                u != su && crate::registry::vol_lookup(vols, u) is Some
                    ==> crate::registry::vol_index_of(t, u) == crate::registry::vol_index_of(
                    vols,
                    u,
                )
            &&& forall|u: Seq<char>|
                u != su && crate::registry::vol_lookup(vols, u) is None
                    ==> crate::registry::vol_lookup(t, u) is None
        }),
{
    let t = create_snapshot_transform(vols, i, p);
    let su = p.snapshot_uuid.unwrap();
    let updated = vols.update(
        i,
        crate::registry::VolumeView { parent_uuid: Some(su), ..vols[i] },
    );
    let snap = snapshot_volume_of(vols[i], p);
    crate::registry::lemma_vol_index_of(vols, su);
    assert forall|u: Seq<char>| true implies crate::registry::vol_index_of(updated, u)
        == crate::registry::vol_index_of(vols, u) by {
        assert(forall|j: int| 0 <= j < vols.len() ==> updated[j].uuid == vols[j].uuid);
        lemma_vol_index_of_same_uuids(updated, vols, u);
    }
    assert forall|u: Seq<char>|
        u != su && crate::registry::vol_lookup(vols, u) is Some implies crate::registry::vol_index_of(
        t,
        u,
    ) == crate::registry::vol_index_of(vols, u) by {
        lemma_vol_index_of_push(updated, snap, u);
        crate::registry::lemma_vol_index_of(vols, u);
    }
    assert forall|u: Seq<char>|
        u != su && crate::registry::vol_lookup(vols, u) is None implies crate::registry::vol_lookup(
        t,
        u,
    ) is None by {
        lemma_vol_index_of_push(updated, snap, u);
        crate::registry::lemma_vol_index_of(vols, u);
    }
    lemma_vol_index_of_push(updated, snap, su);
    assert(crate::registry::vol_index_of(t, su) == vols.len());
    assert(t[vols.len() as int] == snap);
    assert forall|a: int, b: int| 0 <= a < b < t.len() implies t[a].uuid != t[b].uuid by {
        if b == t.len() - 1 {
            assert(t[a].uuid == vols[a].uuid);
            crate::registry::lemma_vol_index_of(vols, su);
        } else {
            assert(t[a].uuid == vols[a].uuid);
            assert(t[b].uuid == vols[b].uuid);
        }
    }
}

/// Creating snapshots of a chainless volume, one after another, makes
/// the chain listing report them most recent first: after S1, S2, S3 the
/// listing from the volume is [S3, S2, S1].
pub proof fn lemma_chain_lists_creation_order(
    vols: Seq<VolumeView>,
    i: int,
    p1: SnapshotParamsView,
    p2: SnapshotParamsView,
    p3: SnapshotParamsView,
    fuel: nat,
)
    requires
        crate::registry::uuids_unique(vols),
        0 <= i < vols.len(),
        vols[i].parent_uuid is None,
        p1.is_complete(),
        p1.name is Some,
        p1.parent_id == Some(vols[i].uuid),
        p2.is_complete(),
        p2.name is Some,
        p2.parent_id == Some(vols[i].uuid),
        p3.is_complete(),
        p3.name is Some,
        p3.parent_id == Some(vols[i].uuid),
        crate::registry::vol_lookup(vols, p1.snapshot_uuid.unwrap()) is None,
        crate::registry::vol_lookup(
            create_snapshot_transform(vols, i, p1),
            p2.snapshot_uuid.unwrap(),
        ) is None,
        crate::registry::vol_lookup(
            create_snapshot_transform(create_snapshot_transform(vols, i, p1), i, p2),
            p3.snapshot_uuid.unwrap(),
        ) is None,
        fuel >= 3,
    ensures
        ({
            let w1 = create_snapshot_transform(vols, i, p1);
            let w2 = create_snapshot_transform(w1, i, p2);
            let w3 = create_snapshot_transform(w2, i, p3);
            let s1 = snapshot_volume_of(vols[i], p1);
            let s2 = snapshot_volume_of(w1[i], p2);
            let s3 = snapshot_volume_of(w2[i], p3);
            crate::engine::chain_list(w3, w3[i], vols[i].uuid, fuel) == seq![
                descriptor_of(w3, s3, None).unwrap(),
                descriptor_of(w3, s2, None).unwrap(),
                descriptor_of(w3, s1, None).unwrap(),
            ]
        }),
{
    let src = vols[i].uuid;
    let su1 = p1.snapshot_uuid.unwrap();
    let su2 = p2.snapshot_uuid.unwrap();
    let su3 = p3.snapshot_uuid.unwrap();
    let w1 = create_snapshot_transform(vols, i, p1);
    let w2 = create_snapshot_transform(w1, i, p2);
    let w3 = create_snapshot_transform(w2, i, p3);
    let s1 = snapshot_volume_of(vols[i], p1);
    let s2 = snapshot_volume_of(w1[i], p2);
    let s3 = snapshot_volume_of(w2[i], p3);
    lemma_transform_lookup(vols, i, p1);
    assert(w1[i] == crate::registry::VolumeView { parent_uuid: Some(su1), ..vols[i] });
    lemma_transform_lookup(w1, i, p2);
    assert(w2[i] == crate::registry::VolumeView { parent_uuid: Some(su2), ..w1[i] });
    lemma_transform_lookup(w2, i, p3);
    assert(w3[i] == crate::registry::VolumeView { parent_uuid: Some(su3), ..w2[i] });

    // The snapshot UUIDs are pairwise distinct and differ from the
    // source volume's: each is absent at the stage it is created.
    assert(crate::registry::vol_lookup(w1, su1) == Some(s1));
    assert(su1 != su2);
    assert(crate::registry::vol_lookup(w2, su2) == Some(s2));
    assert(su2 != su3);
    assert(su1 != src) by {
        crate::registry::lemma_vol_index_of(vols, su1);
    }
    assert(su2 != src) by {
        crate::registry::lemma_vol_index_of(w1, su2);
    }
    assert(su3 != src) by {
        crate::registry::lemma_vol_index_of(w2, su3);
    }

    // Where each snapshot is found in the final registry.
    assert(crate::registry::vol_lookup(w3, su3) == Some(s3));
    assert(crate::registry::vol_lookup(w2, su1) == Some(s1)) by {
        crate::registry::lemma_vol_index_of(w1, su1);
        let k = crate::registry::vol_index_of(w1, su1);
        assert(w1[k] == s1);
        assert(w1[i].uuid == src);
        assert(k != i);
        assert(crate::registry::vol_index_of(w2, su1) == k);
        assert(w2[k] == w1[k]);
    }
    assert(su1 != su3);
    assert(crate::registry::vol_lookup(w3, su1) == Some(s1)) by {
        crate::registry::lemma_vol_index_of(w2, su1);
        let k = crate::registry::vol_index_of(w2, su1);
        assert(w2[k] == s1);
        assert(w2[i].uuid == src);
        assert(k != i);
        assert(crate::registry::vol_index_of(w3, su1) == k);
        assert(w3[k] == w2[k]);
    }
    assert(crate::registry::vol_lookup(w3, su2) == Some(s2)) by {
        crate::registry::lemma_vol_index_of(w2, su2);
        let k = crate::registry::vol_index_of(w2, su2);
        assert(w2[k] == s2);
        assert(w2[i].uuid == src);
        assert(k != i);
        assert(crate::registry::vol_index_of(w3, su2) == k);
        assert(w3[k] == w2[k]);
    }

    // What each snapshot's attributes record.
    crate::params::lemma_snapshot_params_roundtrip(p1);
    crate::params::lemma_snapshot_params_roundtrip(p2);
    crate::params::lemma_snapshot_params_roundtrip(p3);
    assert(xattr_find(s1.xattrs, crate::xattrs::SnapshotXattrs::SnapshotUuid.key()) == Some(su1));
    assert(xattr_find(s2.xattrs, crate::xattrs::SnapshotXattrs::SnapshotUuid.key()) == Some(su2));
    assert(xattr_find(s3.xattrs, crate::xattrs::SnapshotXattrs::SnapshotUuid.key()) == Some(su3));
    assert(xattr_find(s1.xattrs, crate::xattrs::SnapshotXattrs::ParentId.key()) == Some(src));
    assert(xattr_find(s2.xattrs, crate::xattrs::SnapshotXattrs::ParentId.key()) == Some(src));
    assert(xattr_find(s3.xattrs, crate::xattrs::SnapshotXattrs::ParentId.key()) == Some(src));

    let d3 = descriptor_of(w3, s3, None).unwrap();
    let d2 = descriptor_of(w3, s2, None).unwrap();
    let d1 = descriptor_of(w3, s1, None).unwrap();

    // Walk the chain: volume -> S3 -> S2 -> S1 -> end.
    assert(crate::engine::chain_step(w3, w3[i]) == Some((d3, s3)));
    assert(crate::engine::desc_source(d3) == src);
    assert(crate::engine::chain_list(w3, w3[i], src, fuel) =~= seq![d3]
        + crate::engine::chain_list(w3, s3, src, (fuel - 1) as nat));
    assert(s3.parent_uuid == Some(su2));
    assert(crate::engine::chain_step(w3, s3) == Some((d2, s2)));
    assert(crate::engine::desc_source(d2) == src);
    assert(crate::engine::chain_list(w3, s3, src, (fuel - 1) as nat) =~= seq![d2]
        + crate::engine::chain_list(w3, s2, src, (fuel - 2) as nat));
    assert(s2.parent_uuid == Some(su1));
    assert(crate::engine::chain_step(w3, s2) == Some((d1, s1)));
    assert(crate::engine::desc_source(d1) == src);
    assert(crate::engine::chain_list(w3, s2, src, (fuel - 2) as nat) =~= seq![d1]
        + crate::engine::chain_list(w3, s1, src, (fuel - 3) as nat));
    assert(s1.parent_uuid is None);
    assert(crate::engine::chain_list(w3, s1, src, (fuel - 3) as nat) =~= Seq::<
        crate::engine::DescriptorView,
    >::empty());
    assert(crate::engine::chain_list(w3, w3[i], src, fuel) =~= seq![d3, d2, d1]);
}

/// Destroying a pinned snapshot leaves a blob that reads back as
/// discarded: the mark is on its attributes, the volume itself stays.
pub proof fn lemma_destroy_pinned_marks_discarded(v: VolumeView)
    ensures
        (VolumeView {
            xattrs: crate::xattrs::xattr_set(
                v.xattrs,
                crate::xattrs::SnapshotXattrs::DiscardedSnapshot.key(),
                "true"@,
            ),
            ..v
        }).is_discarded(),
{
    crate::xattrs::lemma_xattr_set_find(
        v.xattrs,
        crate::xattrs::SnapshotXattrs::DiscardedSnapshot.key(),
        "true"@,
    );
}

/// Destroying the last clone of a discarded snapshot leaves the snapshot
/// pending, so the next garbage-collection pass destroys it.
pub proof fn lemma_last_clone_destroy_makes_pending(vols: Seq<VolumeView>, si: int, ci: int)
    requires
        0 <= si < vols.len(),
        0 <= ci < vols.len(),
        si != ci,
        vols[si].is_snapshot,
        vols[si].is_discarded(),
        vols[ci].is_clone_of(vols[si].uuid),
        count_clones(vols, vols[si].uuid) == 1,
    ensures
        pending_discarded(core_of(vols[si]), cores(vols.remove(ci))),
{
    lemma_count_clones_remove(vols, ci, vols[si].uuid);
    crate::gc::lemma_count_clones_cores(vols.remove(ci), vols[si].uuid);
}

} // verus!
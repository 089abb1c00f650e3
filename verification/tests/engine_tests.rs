use io_engine::engine::{AsyncParentIterator, LvolSnapshotIter, RemoteCompletion};
use io_engine::xattrs::{CloneXattrs, SnapshotXattrs};
use io_engine::errors::LvsError;
use io_engine::params::{CloneParams, SnapshotParams};
use io_engine::registry::{Registry, Volume};
use io_engine::xattrs::{xattr_get, xattr_put, XattrEntry};

fn vol(uuid: &str, name: &str, size: u64) -> Volume {
    Volume {
        uuid: uuid.to_string(),
        name: name.to_string(),
        size,
        allocated_bytes: 0,
        allocated_bytes_snapshots: 0,
        is_snapshot: false,
        parent_uuid: None,
        xattrs: Vec::new(),
        usage_cached: true,
    }
}

fn registry_with(vols: Vec<Volume>) -> Registry {
    Registry {
        volumes: vols,
        events: Vec::new(),
    }
}

fn snap_params(entity: &str, parent: &str, txn: &str, name: &str, uuid: &str) -> SnapshotParams {
    SnapshotParams::new(
        Some(entity.to_string()),
        Some(parent.to_string()),
        Some(txn.to_string()),
        Some(name.to_string()),
        Some(uuid.to_string()),
        Some("2024-01-01T00:00:00+00:00".to_string()),
        false,
    )
}

fn clone_params(name: &str, uuid: &str, source: &str) -> CloneParams {
    CloneParams::new(
        Some(name.to_string()),
        Some(uuid.to_string()),
        Some(source.to_string()),
        Some("2024-01-02T00:00:00+00:00".to_string()),
    )
}

#[test]
fn snapshot_xattr_keys_are_on_disk_names() {
    assert_eq!(SnapshotXattrs::TxId.name(), "org.openebs.mayastor.snapshot.tx_id");
    assert_eq!(SnapshotXattrs::EntityId.name(), "org.openebs.mayastor.snapshot.entity_id");
    assert_eq!(SnapshotXattrs::ParentId.name(), "org.openebs.mayastor.snapshot.parent_id");
    assert_eq!(SnapshotXattrs::SnapshotUuid.name(), "org.openebs.mayastor.snapshot.uuid");
    assert_eq!(
        SnapshotXattrs::SnapshotCreateTime.name(),
        "org.openebs.mayastor.snapshot.create_time"
    );
    assert_eq!(SnapshotXattrs::DiscardedSnapshot.name(), "org.openebs.mayastor.snapshot.discarded");
    assert_eq!(CloneXattrs::SourceUuid.name(), "org.openebs.mayastor.clone.source_uuid");
    assert_eq!(CloneXattrs::CloneUuid.name(), "org.openebs.mayastor.clone.uuid");
    assert_eq!(CloneXattrs::CloneCreateTime.name(), "org.openebs.mayastor.clone.create_time");
}

#[test]
fn xattr_store_get_and_overwrite() {
    let mut xs: Vec<XattrEntry> = Vec::new();
    assert_eq!(xattr_get(&xs, "a"), None);
    xattr_put(&mut xs, "a", "1".to_string());
    xattr_put(&mut xs, "b", "2".to_string());
    assert_eq!(xattr_get(&xs, "a"), Some("1".to_string()));
    assert_eq!(xattr_get(&xs, "b"), Some("2".to_string()));
    xattr_put(&mut xs, "a", "3".to_string());
    assert_eq!(xattr_get(&xs, "a"), Some("3".to_string()));
    assert_eq!(xs.len(), 2);
}

#[test]
fn params_xattr_roundtrip_all_fields() {
    let p = snap_params("e", "v1", "t1", "s1", "s1-uuid");
    let xs = p.prepare_snapshot_xattrs("vol-name").unwrap();
    assert_eq!(xs.len(), 6);
    let (p2, valid) = io_engine::params::read_snapshot_params(&"s1".to_string(), &xs);
    assert!(valid);
    assert_eq!(p2.entity_id, Some("e".to_string()));
    assert_eq!(p2.parent_id, Some("v1".to_string()));
    assert_eq!(p2.txn_id, Some("t1".to_string()));
    assert_eq!(p2.name, Some("s1".to_string()));
    assert_eq!(p2.snapshot_uuid, Some("s1-uuid".to_string()));
    assert_eq!(p2.create_time, Some("2024-01-01T00:00:00+00:00".to_string()));
    assert_eq!(p2.discarded_snapshot, false);
}

#[test]
fn discarded_flag_serializes_lowercase() {
    let mut p = snap_params("e", "v1", "t1", "s1", "s1-uuid");
    p.discarded_snapshot = true;
    let xs = p.prepare_snapshot_xattrs("vol-name").unwrap();
    let v = xattr_get(&xs, "org.openebs.mayastor.snapshot.discarded");
    assert_eq!(v, Some("true".to_string()));
    let (p2, _) = io_engine::params::read_snapshot_params(&"s1".to_string(), &xs);
    assert!(p2.discarded_snapshot);
}

#[test]
fn prepare_snap_config_rejects_empty_fields() {
    let v = vol("v1", "vol1", 1024);
    assert!(v.prepare_snap_config("", "e", "t", "u").is_none());
    assert!(v.prepare_snap_config("s", "", "t", "u").is_none());
    assert!(v.prepare_snap_config("s", "e", "", "u").is_none());
    let p = v.prepare_snap_config("s", "e", "t", "u").unwrap();
    assert_eq!(p.parent_id, Some("v1".to_string()));
    // The creation time defaults to the current clock reading.
    assert!(!p.create_time.unwrap().is_empty());
    // An empty snapshot UUID is left unset and refused later, at
    // serialization.
    let p2 = v.prepare_snap_config("s", "e", "t", "").unwrap();
    assert!(p2.snapshot_uuid.is_none());
    assert!(p2.prepare_snapshot_xattrs("vol1").is_err());
}

#[test]
fn prepare_clone_config_rejects_empty_fields() {
    let v = vol("s1", "snap1", 1024);
    assert!(v.prepare_clone_config("", "c1", "s1").is_none());
    assert!(v.prepare_clone_config("c", "", "s1").is_none());
    assert!(v.prepare_clone_config("c", "c1", "").is_none());
    let p = v.prepare_clone_config("c", "c1", "s1").unwrap();
    assert_eq!(p.source_uuid, Some("s1".to_string()));
    assert!(!p.clone_create_time.unwrap().is_empty());
}

#[test]
fn create_snapshot_missing_field_is_config_error_without_backend() {
    let mut reg = registry_with(vec![vol("v1", "vol1", 1024)]);
    let mut p = snap_params("e", "v1", "t1", "s1", "s1-uuid");
    p.txn_id = None;
    let r = reg.create_snapshot("v1", p);
    match r {
        Err(LvsError::SnapshotConfigFailed { name, msg }) => {
            assert_eq!(name, "vol1");
            assert_eq!(msg, "txn id not provided");
        }
        _ => panic!("expected a config error"),
    }
    assert_eq!(reg.volumes.len(), 1);
    assert_eq!(reg.events.len(), 0);
}

#[test]
fn create_snapshot_unknown_source_is_refused() {
    let mut reg = registry_with(vec![]);
    let r = reg.create_snapshot("nope", snap_params("e", "nope", "t", "s", "u"));
    assert!(matches!(r, Err(LvsError::InvalidBdev { .. })));
}

#[test]
fn create_snapshot_duplicate_uuid_is_eexist() {
    let mut reg = registry_with(vec![vol("v1", "vol1", 1024)]);
    reg.create_snapshot("v1", snap_params("e", "v1", "t1", "s1", "s1-uuid")).unwrap();
    let r = reg.create_snapshot("v1", snap_params("e", "v1", "t2", "s2", "s1-uuid"));
    match r {
        Err(LvsError::SnapshotCreate { source, msg }) => {
            assert_eq!(source.value, 17);
            assert_eq!(msg, "s2");
        }
        _ => panic!("expected a backend EEXIST"),
    }
}

#[test]
fn snapshot_creation_and_listing() {
    let mut reg = registry_with(vec![vol("v1", "vol1", 1024)]);
    let p = snap_params("e", "v1", "t1", "s1", "s1-uuid");
    let snap_uuid = reg.create_snapshot("v1", p).unwrap();
    assert_eq!(snap_uuid, "s1-uuid");
    let idx = reg.find_index("s1-uuid").unwrap();
    assert!(reg.volumes[idx].is_snapshot);
    assert_eq!(reg.volumes[idx].xattrs.len(), 6);
    assert_eq!(
        reg.volumes[idx].get_blob_xattr("org.openebs.mayastor.snapshot.parent_id"),
        Some("v1".to_string())
    );
    let list = reg.list_snapshot_by_source_uuid("v1");
    assert_eq!(list.len(), 1);
    assert!(list[0].valid);
    assert_eq!(list[0].parent_uuid, "v1");
    assert_eq!(list[0].num_clones, 0);
    assert_eq!(list[0].snapshot_uuid, "s1-uuid");
    // The creation was announced on the event bus.
    assert_eq!(reg.events.len(), 1);
    assert_eq!(reg.events[0].id, "s1-uuid");
}

#[test]
fn chain_lists_most_recent_first() {
    let mut reg = registry_with(vec![vol("v1", "vol1", 1024)]);
    reg.create_snapshot("v1", snap_params("e", "v1", "t1", "s1", "u1")).unwrap();
    reg.create_snapshot("v1", snap_params("e", "v1", "t2", "s2", "u2")).unwrap();
    reg.create_snapshot("v1", snap_params("e", "v1", "t3", "s3", "u3")).unwrap();
    let list = reg.list_snapshot_by_source_uuid("v1");
    let uuids: Vec<String> = list.iter().map(|d| d.snapshot_uuid.clone()).collect();
    assert_eq!(uuids, vec!["u3".to_string(), "u2".to_string(), "u1".to_string()]);
}

#[test]
fn chain_listing_stops_at_foreign_ancestor() {
    let mut reg = registry_with(vec![vol("v1", "vol1", 1024)]);
    reg.create_snapshot("v1", snap_params("e", "v1", "t1", "s1", "u1")).unwrap();
    reg.create_snapshot("v1", snap_params("e", "v1", "t2", "s2", "u2")).unwrap();
    reg.create_clone("u2", clone_params("c", "c1", "u2")).unwrap();
    reg.create_snapshot("c1", snap_params("e", "c1", "t3", "s3", "u3")).unwrap();
    let list = reg.list_snapshot_by_source_uuid("c1");
    let uuids: Vec<String> = list.iter().map(|d| d.snapshot_uuid.clone()).collect();
    assert_eq!(uuids, vec!["u3".to_string()]);
}

#[test]
fn clone_then_snapshot_destroy_preserved() {
    let mut reg = registry_with(vec![vol("v1", "vol1", 1024)]);
    reg.create_snapshot("v1", snap_params("e", "v1", "t1", "s1", "u1")).unwrap();
    reg.create_clone("u1", clone_params("c", "c1", "u1")).unwrap();
    // Destroying a pinned snapshot marks it discarded and succeeds.
    reg.destroy_snapshot("u1").unwrap();
    let idx = reg.find_index("u1").expect("snapshot must survive");
    assert_eq!(
        reg.volumes[idx].get_blob_xattr("org.openebs.mayastor.snapshot.discarded"),
        Some("true".to_string())
    );
    let list = reg.list_snapshot_by_snapshot_uuid("u1");
    assert_eq!(list.len(), 1);
    assert!(list[0].valid);
    // Destroying the clone leaves the snapshot in place...
    reg.destroy_volume("c1").unwrap();
    assert!(reg.find_index("u1").is_some());
    // ...until the next garbage-collection pass.
    reg.destroy_pending_discarded_snapshot();
    assert!(reg.find_index("u1").is_none());
}

#[test]
fn destroy_unpinned_snapshot_removes_blob() {
    let mut reg = registry_with(vec![vol("v1", "vol1", 1024)]);
    reg.create_snapshot("v1", snap_params("e", "v1", "t1", "s1", "u1")).unwrap();
    reg.destroy_snapshot("u1").unwrap();
    assert!(reg.find_index("u1").is_none());
}

#[test]
fn garbage_collector_is_idempotent() {
    let mut reg = registry_with(vec![vol("v1", "vol1", 1024)]);
    reg.create_snapshot("v1", snap_params("e", "v1", "t1", "s1", "u1")).unwrap();
    reg.create_snapshot("v1", snap_params("e", "v1", "t2", "s2", "u2")).unwrap();
    reg.create_clone("u1", clone_params("ca", "c1", "u1")).unwrap();
    reg.create_clone("u2", clone_params("cb", "c2", "u2")).unwrap();
    reg.destroy_snapshot("u1").unwrap();
    reg.destroy_snapshot("u2").unwrap();
    reg.destroy_volume("c1").unwrap();
    reg.destroy_volume("c2").unwrap();
    // Two discarded snapshots, no clones left.
    let events_before = reg.events.len();
    reg.destroy_pending_discarded_snapshot();
    assert!(reg.find_index("u1").is_none());
    assert!(reg.find_index("u2").is_none());
    // Each physical destruction was announced on the event bus.
    assert_eq!(reg.events.len(), events_before + 2);
    assert_eq!(reg.events[events_before].id, "u1");
    assert_eq!(reg.events[events_before + 1].id, "u2");
    let before = reg.volumes.len();
    // The second pass is a no-op and returns without error.
    reg.destroy_pending_discarded_snapshot();
    assert_eq!(reg.volumes.len(), before);
    assert_eq!(reg.events.len(), events_before + 2);
}

#[test]
fn clone_records_source_and_counts() {
    let mut reg = registry_with(vec![vol("v1", "vol1", 1024)]);
    reg.create_snapshot("v1", snap_params("e", "v1", "t1", "s1", "u1")).unwrap();
    reg.create_clone("u1", clone_params("c", "c1", "u1")).unwrap();
    let cidx = reg.find_index("c1").unwrap();
    assert!(!reg.volumes[cidx].is_snapshot);
    assert_eq!(reg.volumes[cidx].is_snapshot_clone(), Some("u1".to_string()));
    assert_eq!(reg.num_clones_of("u1"), 1);
    assert_eq!(reg.list_clones_by_snapshot_uuid("u1"), vec!["c1".to_string()]);
    assert_eq!(reg.list_all_clones(), vec!["c1".to_string()]);
}

#[test]
fn clone_of_non_snapshot_is_einval() {
    let mut reg = registry_with(vec![vol("v1", "vol1", 1024)]);
    let r = reg.create_clone("v1", clone_params("c", "c1", "v1"));
    match r {
        Err(LvsError::SnapshotCloneCreate { source, .. }) => assert_eq!(source.value, 22),
        _ => panic!("expected a backend EINVAL"),
    }
}

#[test]
fn descriptor_invalid_when_xattr_missing() {
    let mut s = vol("u1", "s1", 1024);
    s.is_snapshot = true;
    let mut xs = Vec::new();
    xattr_put(&mut xs, "org.openebs.mayastor.snapshot.uuid", "u1".to_string());
    s.xattrs = xs;
    let reg = registry_with(vec![s]);
    let d = reg.snapshot_descriptor("u1", None).unwrap();
    assert!(!d.valid);
    // The descriptor is still returned so callers can see the partial
    // state.
    assert_eq!(d.snapshot_uuid, "u1");
}

#[test]
fn list_all_snapshots_filters_by_parent() {
    let mut reg = registry_with(vec![vol("v1", "vol1", 1024), vol("v2", "vol2", 1024)]);
    reg.create_snapshot("v1", snap_params("e", "v1", "t1", "s1", "u1")).unwrap();
    reg.create_snapshot("v2", snap_params("e", "v2", "t2", "s2", "u2")).unwrap();
    let all = reg.list_all_snapshots(None);
    assert_eq!(all.len(), 2);
    let only_v1 = reg.list_all_snapshots(Some("v1"));
    assert_eq!(only_v1.len(), 1);
    assert_eq!(only_v1[0].snapshot_uuid, "u1");
}

#[test]
fn snapshot_iterator_walks_parents() {
    let mut reg = registry_with(vec![vol("v1", "vol1", 1024)]);
    reg.create_snapshot("v1", snap_params("e", "v1", "t1", "s1", "u1")).unwrap();
    reg.create_snapshot("v1", snap_params("e", "v1", "t2", "s2", "u2")).unwrap();
    let mut it = LvolSnapshotIter::new(&reg, "v1");
    let d1 = it.parent().expect("first ancestor");
    assert_eq!(d1.snapshot_uuid, "u2");
    let d2 = it.parent().expect("second ancestor");
    assert_eq!(d2.snapshot_uuid, "u1");
    assert!(it.parent().is_none());
}

#[test]
fn remote_snapshot_completion_outcomes() {
    let mut reg = registry_with(vec![vol("v1", "vol1", 1024)]);
    let ok = reg.create_snapshot_remote("v1", snap_params("e", "v1", "t1", "s1", "u1"));
    assert_eq!(ok, RemoteCompletion::Completed);
    let dup = reg.create_snapshot_remote("v1", snap_params("e", "v1", "t2", "s2", "u1"));
    assert_eq!(dup, RemoteCompletion::CompletedError(-17));
    // A request that never reaches the backend is still completed, with
    // an error, so the data plane is not left waiting.
    let mut p = snap_params("e", "v1", "t3", "s3", "u3");
    p.entity_id = None;
    let bad = reg.create_snapshot_remote("v1", p);
    assert_eq!(bad, RemoteCompletion::CompletedError(-22));
    let gone = reg.create_snapshot_remote("nope", snap_params("e", "nope", "t4", "s4", "u4"));
    assert_eq!(gone, RemoteCompletion::CompletedError(-19));
}

#[test]
fn usage_cache_reset_walks_parent_tree() {
    let mut reg = registry_with(vec![vol("v1", "vol1", 1024)]);
    reg.create_snapshot("v1", snap_params("e", "v1", "t1", "s1", "u1")).unwrap();
    reg.create_clone("u1", clone_params("c", "c1", "u1")).unwrap();
    for v in reg.volumes.iter() {
        assert!(v.usage_cached);
    }
    reg.reset_snapshot_tree_usage_cache("u1", false);
    // The snapshot's parent volume, the chain snapshot and its clone all
    // lose their cached estimates.
    let vi = reg.find_index("v1").unwrap();
    let si = reg.find_index("u1").unwrap();
    let ci = reg.find_index("c1").unwrap();
    assert!(!reg.volumes[vi].usage_cached);
    assert!(!reg.volumes[si].usage_cached);
    assert!(!reg.volumes[ci].usage_cached);
}

#[test]
fn usage_cache_wildcard_when_parent_is_gone() {
    let mut reg = registry_with(vec![vol("v1", "vol1", 1024)]);
    reg.create_snapshot("v1", snap_params("e", "v1", "t1", "s1", "u1")).unwrap();
    reg.create_clone("u1", clone_params("c", "c1", "u1")).unwrap();
    // The clone has a snapshot chain of its own, which the wildcard
    // sweep must recurse into.
    reg.create_snapshot("c1", snap_params("e", "c1", "t2", "s2", "u2")).unwrap();
    reg.create_clone("u2", clone_params("d", "c2", "u2")).unwrap();
    reg.destroy_volume("v1").unwrap();
    // The snapshot's recorded parent no longer exists: the wildcard
    // sweep still finds the snapshot by its recorded parent UUID.
    reg.reset_snapshot_tree_usage_cache("u1", false);
    let si = reg.find_index("u1").unwrap();
    let ci = reg.find_index("c1").unwrap();
    let s2i = reg.find_index("u2").unwrap();
    let c2i = reg.find_index("c2").unwrap();
    assert!(!reg.volumes[si].usage_cached);
    assert!(!reg.volumes[ci].usage_cached);
    assert!(!reg.volumes[s2i].usage_cached);
    assert!(!reg.volumes[c2i].usage_cached);
}

#[test]
fn clone_source_snap_usage_sums_snapshots() {
    let mut reg = registry_with(vec![vol("v1", "vol1", 1024)]);
    reg.create_snapshot("v1", snap_params("e", "v1", "t1", "s1", "u1")).unwrap();
    reg.create_clone("u1", clone_params("c", "c1", "u1")).unwrap();
    reg.create_snapshot("c1", snap_params("e", "c1", "t2", "s2", "u2")).unwrap();
    reg.create_snapshot("c1", snap_params("e", "c1", "t3", "s3", "u3")).unwrap();
    let i2 = reg.find_index("u2").unwrap();
    reg.volumes[i2].allocated_bytes = 100;
    let i3 = reg.find_index("u3").unwrap();
    reg.volumes[i3].allocated_bytes = 28;
    // For a clone: the sum over the snapshots recorded under it.
    assert_eq!(reg.calculate_clone_source_snap_usage("c1", 0), Some(128));
    // For a snapshot whose parent is the clone: ancestor total less the
    // clone's own accounting.
    let ci = reg.find_index("c1").unwrap();
    reg.volumes[ci].allocated_bytes = 10;
    reg.volumes[ci].allocated_bytes_snapshots = 30;
    assert_eq!(reg.calculate_clone_source_snap_usage("u2", 100), Some(60));
    // Underflow yields no made-up number.
    assert_eq!(reg.calculate_clone_source_snap_usage("u2", 5), None);
    // For a plain volume the notion does not apply.
    assert_eq!(reg.calculate_clone_source_snap_usage("v1", 100), None);
}

#[test]
fn create_snapshot_duplicate_name_is_eexist() {
    let mut reg = registry_with(vec![vol("v1", "vol1", 1024)]);
    reg.create_snapshot("v1", snap_params("e", "v1", "t1", "s1", "u1")).unwrap();
    let r = reg.create_snapshot("v1", snap_params("e", "v1", "t2", "s1", "u2"));
    match r {
        Err(LvsError::SnapshotCreate { source, .. }) => assert_eq!(source.value, 17),
        _ => panic!("expected a backend EEXIST"),
    }
}

#[test]
fn listing_unknown_snapshot_is_empty() {
    let reg = registry_with(vec![vol("v1", "vol1", 1024)]);
    assert!(reg.list_snapshot_by_snapshot_uuid("nope").is_empty());
    assert!(reg.list_snapshot_by_source_uuid("nope").is_empty());
}

#[test]
fn clone_xattrs_carry_exact_keys() {
    let p = clone_params("c", "c1", "u1");
    let xs = p.prepare_clone_xattrs("snap1").unwrap();
    assert_eq!(xs.len(), 3);
    assert_eq!(
        xattr_get(&xs, "org.openebs.mayastor.clone.source_uuid"),
        Some("u1".to_string())
    );
    assert_eq!(xattr_get(&xs, "org.openebs.mayastor.clone.uuid"), Some("c1".to_string()));
    assert_eq!(
        xattr_get(&xs, "org.openebs.mayastor.clone.create_time"),
        Some("2024-01-02T00:00:00+00:00".to_string())
    );
}

#[test]
fn clone_missing_field_is_config_error() {
    let mut reg = registry_with(vec![vol("v1", "vol1", 1024)]);
    reg.create_snapshot("v1", snap_params("e", "v1", "t1", "s1", "u1")).unwrap();
    let mut p = clone_params("c", "c1", "u1");
    p.source_uuid = None;
    let r = reg.create_clone("u1", p);
    match r {
        Err(LvsError::CloneConfigFailed { name, msg }) => {
            assert_eq!(name, "s1");
            assert_eq!(msg, "source uuid not provided");
        }
        _ => panic!("expected a clone config error"),
    }
    assert_eq!(reg.volumes.len(), 2);
}

#[test]
fn clone_missing_name_is_config_error() {
    let mut reg = registry_with(vec![vol("v1", "vol1", 1024)]);
    reg.create_snapshot("v1", snap_params("e", "v1", "t1", "s1", "u1")).unwrap();
    let mut p = clone_params("c", "c1", "u1");
    p.clone_name = None;
    let r = reg.create_clone("u1", p);
    match r {
        Err(LvsError::CloneConfigFailed { name, msg }) => {
            assert_eq!(name, "s1");
            assert_eq!(msg, "clone_name not provided");
        }
        _ => panic!("expected a clone config error"),
    }
}

#[test]
fn config_error_names_missing_field() {
    let mut reg = registry_with(vec![vol("v1", "vol1", 1024)]);
    let mut p = snap_params("e", "v1", "t1", "s1", "u1");
    p.snapshot_uuid = None;
    match reg.create_snapshot("v1", p) {
        Err(LvsError::SnapshotConfigFailed { msg, .. }) => {
            assert_eq!(msg, "snapshot_uuid not provided");
        }
        _ => panic!("expected a config error"),
    }
    let mut p2 = snap_params("e", "v1", "t2", "s2", "u2");
    p2.create_time = None;
    match reg.create_snapshot("v1", p2) {
        Err(LvsError::SnapshotConfigFailed { msg, .. }) => {
            assert_eq!(msg, "create_time not provided");
        }
        _ => panic!("expected a config error"),
    }
}

#[test]
fn descriptor_parent_empty_when_parent_gone() {
    let mut reg = registry_with(vec![vol("v1", "vol1", 1024)]);
    reg.create_snapshot("v1", snap_params("e", "v1", "t1", "s1", "u1")).unwrap();
    reg.destroy_volume("v1").unwrap();
    let d = reg.snapshot_descriptor("u1", None).unwrap();
    assert!(d.valid);
    assert_eq!(d.parent_uuid, "");
    assert_eq!(d.source_uuid(), "v1");
}

#[test]
fn backend_error_description_is_meaningful() {
    let e = io_engine::errors::BsError::from_errno(-17);
    assert_eq!(e.value, 17);
    assert_eq!(e.description(), "File exists");
}

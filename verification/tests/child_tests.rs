use io_engine::child::{
    BdevInfo, ChildState, ChildStatusConfig, NexusChild, Reason, RebuildJobInfo,
};
use io_engine::errors::{ChildError, ChildIoError, CoreError};

fn bdev(name: &str, size: u64, driver: &str) -> BdevInfo {
    BdevInfo {
        name: name.to_string(),
        size_in_bytes: size,
        num_blocks: size / 512,
        block_len: 512,
        driver: driver.to_string(),
    }
}

fn gib(n: u64) -> u64 {
    n * 1024 * 1024 * 1024
}

fn open_child(size: u64) -> NexusChild {
    let mut c = NexusChild::new(
        "uri://child".to_string(),
        "nexus0".to_string(),
        Some(bdev("dev0", size, "aio")),
    );
    c.open(size, true, None).unwrap();
    c
}

#[test]
fn new_child_starts_init_without_descriptor() {
    let c = NexusChild::new("uri://c".to_string(), "n".to_string(), None);
    assert_eq!(c.state(), ChildState::Init);
    assert!(c.desc.is_none());
    assert!(c.bdev_handle.is_none());
    assert!(!c.is_accessible());
}

#[test]
fn child_open_smaller_than_nexus() {
    let mut c = NexusChild::new(
        "uri://child".to_string(),
        "nexus0".to_string(),
        Some(bdev("dev0", gib(1), "aio")),
    );
    let r = c.open(gib(2), true, None);
    match r {
        Err(ChildError::ChildTooSmall { child_size, parent_size }) => {
            assert_eq!(child_size, gib(1));
            assert_eq!(parent_size, gib(2));
        }
        _ => panic!("expected ChildTooSmall"),
    }
    assert_eq!(c.state(), ChildState::ConfigInvalid);
    assert!(c.desc.is_none());
    assert!(c.bdev_handle.is_none());
}

#[test]
fn child_open_success_acquires_descriptor() {
    let mut c = NexusChild::new(
        "uri://child".to_string(),
        "nexus0".to_string(),
        Some(bdev("dev0", gib(2), "aio")),
    );
    let r = c.open(gib(2), true, Some(64));
    assert_eq!(r.unwrap(), "uri://child");
    assert_eq!(c.state(), ChildState::Open);
    assert!(c.desc.is_some());
    assert!(c.bdev_handle.is_some());
    assert!(c.err_store.is_some());
    assert!(c.is_accessible());
}

#[test]
fn child_open_device_failure_faults_cant_open() {
    let mut c = NexusChild::new(
        "uri://child".to_string(),
        "nexus0".to_string(),
        Some(bdev("dev0", gib(2), "aio")),
    );
    let r = c.open(gib(1), false, None);
    assert!(matches!(r, Err(ChildError::OpenChild)));
    assert_eq!(c.state(), ChildState::Faulted(Reason::CantOpen));
    // A faulted child cannot be reopened.
    let r2 = c.open(gib(1), true, None);
    assert!(matches!(r2, Err(ChildError::ChildFaulted)));
}

#[test]
fn child_fault_out_of_sync_keeps_accessibility() {
    let mut cfg = ChildStatusConfig::new();
    let mut c = open_child(gib(1));
    c.fault(Reason::OutOfSync, &mut cfg);
    assert!(c.is_accessible());
    assert_eq!(c.state(), ChildState::Faulted(Reason::OutOfSync));
    assert!(c.desc.is_some());
    assert!(c.bdev_handle.is_some());
    // A later harder fault closes the descriptor and ends accessibility.
    c.fault(Reason::IoError, &mut cfg);
    assert_eq!(c.state(), ChildState::Faulted(Reason::IoError));
    assert!(c.desc.is_none());
    assert!(c.bdev_handle.is_none());
    assert!(!c.is_accessible());
}

#[test]
fn accessibility_matches_state_table() {
    let mut cfg = ChildStatusConfig::new();
    let mut c = open_child(gib(1));
    assert!(c.is_accessible());
    c.offline(&mut cfg);
    assert_eq!(c.state(), ChildState::Closed);
    assert!(!c.is_accessible());
    c.online(gib(1), true, None, &mut cfg).unwrap();
    assert_eq!(c.state(), ChildState::Faulted(Reason::OutOfSync));
    assert!(c.is_accessible());
    c.fault(Reason::Rpc, &mut cfg);
    assert!(!c.is_accessible());
}

#[test]
fn status_table_reflects_every_observable_transition() {
    let mut cfg = ChildStatusConfig::new();
    let mut c = open_child(gib(1));
    c.fault(Reason::OutOfSync, &mut cfg);
    assert_eq!(cfg.entries.len(), 1);
    assert_eq!(cfg.entries[0].parent, "nexus0");
    assert_eq!(cfg.entries[0].name, "uri://child");
    assert_eq!(cfg.entries[0].state, ChildState::Faulted(Reason::OutOfSync));
    c.offline(&mut cfg);
    assert_eq!(cfg.entries.len(), 1);
    assert_eq!(cfg.entries[0].state, ChildState::Closed);
    c.online(gib(1), true, None, &mut cfg).unwrap();
    assert_eq!(cfg.entries[0].state, ChildState::Faulted(Reason::OutOfSync));
}

#[test]
fn get_dev_refuses_inaccessible_child() {
    let mut c = open_child(gib(1));
    assert!(c.get_dev().is_ok());
    c.close();
    assert!(matches!(c.get_dev(), Err(ChildError::ChildInaccessible)));
}

#[test]
fn get_descriptor_requires_open_descriptor() {
    let c = NexusChild::new("uri://c".to_string(), "n".to_string(), None);
    match c.get_descriptor() {
        Err(CoreError::InvalidDescriptor { name }) => assert_eq!(name, "uri://c"),
        _ => panic!("expected InvalidDescriptor"),
    }
    let o = open_child(gib(1));
    assert_eq!(o.get_descriptor().unwrap().device_name, "dev0");
}

#[test]
fn io_refused_without_handle() {
    let c = NexusChild::new("uri://c".to_string(), "n".to_string(), None);
    match c.write_at() {
        Err(ChildIoError::InvalidDescriptor { name }) => assert_eq!(name, "uri://c"),
        _ => panic!("expected InvalidDescriptor"),
    }
    match c.read_at() {
        Err(ChildIoError::InvalidDescriptor { name }) => assert_eq!(name, "uri://c"),
        _ => panic!("expected InvalidDescriptor"),
    }
    let o = open_child(gib(1));
    assert_eq!(o.write_at().unwrap().device_name, "dev0");
    assert_eq!(o.read_at().unwrap().device_name, "dev0");
}

#[test]
fn destroy_only_from_closed() {
    let mut c = open_child(gib(1));
    c.close();
    assert!(c.destroy());
    let mut n = NexusChild::new("uri://c".to_string(), "n".to_string(), None);
    n.close();
    assert!(!n.destroy());
}

#[test]
fn rebuild_observation() {
    let mut cfg = ChildStatusConfig::new();
    let mut c = open_child(gib(1));
    assert!(!c.rebuilding(true));
    c.fault(Reason::OutOfSync, &mut cfg);
    assert!(c.rebuilding(true));
    assert!(!c.rebuilding(false));
    let job = RebuildJobInfo { nexus: "nexus0".to_string(), progress: 42 };
    assert_eq!(c.get_rebuild_progress(Some(&job)), 42);
    assert_eq!(c.get_rebuild_progress(None), -1);
}

#[test]
fn locality_follows_driver() {
    let local = NexusChild::new(
        "uri://c".to_string(),
        "n".to_string(),
        Some(bdev("d", gib(1), "aio")),
    );
    assert_eq!(local.is_local(), Some(true));
    let nvme = NexusChild::new(
        "uri://c".to_string(),
        "n".to_string(),
        Some(bdev("d", gib(1), "nvme")),
    );
    assert_eq!(nvme.is_local(), Some(false));
    let iscsi = NexusChild::new(
        "uri://c".to_string(),
        "n".to_string(),
        Some(bdev("d", gib(1), "iscsi")),
    );
    assert_eq!(iscsi.is_local(), Some(false));
    let bare = NexusChild::new("uri://c".to_string(), "n".to_string(), None);
    assert_eq!(bare.is_local(), None);
}

#[test]
fn reason_descriptions_are_stable() {
    assert_eq!(Reason::Unknown.description(), "Unknown");
    assert_eq!(
        Reason::OutOfSync.description(),
        "The child is out of sync and requires a rebuild"
    );
    assert_eq!(Reason::CantOpen.description(), "The child bdev could not be opened");
    assert_eq!(Reason::IoError.description(), "The child had too many I/O errors");
}

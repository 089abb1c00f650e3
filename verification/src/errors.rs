//! Error taxonomy of the snapshot/clone engine and the nexus child machine.

use vstd::prelude::*;

verus! {

/// A failure reported by the blobstore backend, carried as a positive errno.
///
/// The backend hands completion callbacks a negative errno; the sign is
/// inverted before it is stored here, so `value` is always positive.
#[derive(Clone, Copy, Debug, PartialEq, Eq, Structural)]
pub struct BsError {
    pub value: i32,
}

impl BsError {
    /// Wraps the (negative) errno `e` delivered by a backend completion.
    pub fn from_errno(e: i32) -> (r: BsError)
        requires
            e < 0,
            e > i32::MIN,
        ensures
            r.value == -e,
    {
        BsError { value: -e }
    }

    /// A human-readable description of the errno, for diagnostics.
    pub fn description(&self) -> (r: String)
        ensures
            r@.len() > 0,
    {
        errno_desc(self.value)
    }
}

/// Relies on `nix::errno::Errno::from_raw` and `nix::errno::Errno::desc`:
/// `desc` is total (unknown codes map to a catch-all variant) and returns
/// a fixed, non-empty description string for every variant.
#[verifier::external_body]
fn errno_desc(code: i32) -> (r: String)
    ensures
        r@.len() > 0,
{
    nix::errno::Errno::from_raw(code).desc().to_owned()
}

/// Errors returned by the snapshot/clone engine.
#[derive(Debug)]
pub enum LvsError {
    /// A required snapshot parameter was missing; `name` is the source
    /// volume's device name and `msg` names the field.
    SnapshotConfigFailed { name: String, msg: String },
    /// A required clone parameter was missing.
    CloneConfigFailed { name: String, msg: String },
    /// The backend failed a snapshot creation.
    SnapshotCreate { source: BsError, msg: String },
    /// The backend failed a clone creation.
    SnapshotCloneCreate { source: BsError, msg: String },
    /// The operation names a volume the registry does not hold.
    InvalidBdev { name: String },
}

/// Errors of the nexus child lifecycle.
#[derive(Debug)]
pub enum ChildError {
    ChildNotOffline,
    ChildNotClosed,
    /// The child is faulted and cannot be reopened.
    ChildFaulted,
    /// The child's backing device is smaller than the nexus it must mirror.
    ChildTooSmall { child_size: u64, parent_size: u64 },
    /// The backing device open call failed.
    OpenChild,
    ChildInaccessible,
    /// The child holds no descriptor or handle although its state says so.
    ChildInvalid,
    /// The child was asked to open without a backing device.
    OpenWithoutBdev,
    /// A handle could not be created for the freshly opened device.
    HandleCreate,
}

/// Errors raised on the I/O path through a child.
#[derive(Debug)]
pub enum ChildIoError {
    /// A write through the child failed.
    WriteError { name: String },
    /// A read through the child failed.
    ReadError { name: String },
    /// The child holds no descriptor the I/O could use.
    InvalidDescriptor { name: String },
}

/// Errors of the core device layer observed by the child machine.
#[derive(Debug)]
pub enum CoreError {
    InvalidDescriptor { name: String },
}

} // verus!

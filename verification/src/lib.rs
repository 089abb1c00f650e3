//! Core of a block-storage subsystem built on a copy-on-write blobstore.
//!
//! The crate verifies the two subsystems where correctness is non-trivial:
//!
//! * the snapshot/clone engine: creation, enumeration, destruction and
//!   garbage collection of snapshots and clones of logical volumes, with
//!   snapshot metadata persisted as extended attributes on the backing blob;
//! * the nexus child lifecycle: the state machine governing a single replica
//!   of a mirrored nexus, its fault taxonomy and its I/O gating.
//!
//! The blobstore itself is an external collaborator reached over a C ABI; it
//! is modelled here as an in-memory registry of volumes so that every
//! decision the engine makes is verified. The asynchronous plumbing that
//! drives the real backend lives outside this library.

pub mod child;
pub mod engine;
pub mod errors;
pub mod gc;
pub mod laws;
pub mod params;
pub mod registry;
pub mod xattrs;

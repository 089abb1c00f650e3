//! Lifecycle of a nexus child: one replica of a mirrored nexus.
//!
//! The child's decision logic is strictly synchronous and fully verified
//! here. The two points where the outside world answers — the backing
//! device open call and the rebuild-registry lookup — enter as explicit
//! arguments, so every decision is verified for every possible answer.

use vstd::prelude::*;

use crate::errors::{ChildError, ChildIoError, CoreError};

verus! {

/// Why a child is faulted.
#[derive(Clone, Copy, Debug, PartialEq, Eq, Structural)]
pub enum Reason {
    /// No particular reason; typically the init state.
    Unknown,
    /// Out of sync: needs to be rebuilt.
    OutOfSync,
    /// Cannot open.
    CantOpen,
    /// The child failed to rebuild successfully.
    RebuildFailed,
    /// The child faulted due to I/O errors.
    IoError,
    /// The child was explicitly faulted over RPC.
    Rpc,
}

impl Reason {
    pub open spec fn description_spec(self) -> Seq<char> {
        match self {
            Reason::Unknown => "Unknown"@,
            Reason::OutOfSync => "The child is out of sync and requires a rebuild"@,
            Reason::CantOpen => "The child bdev could not be opened"@,
            Reason::RebuildFailed => "The child failed to rebuild successfully"@,
            Reason::IoError => "The child had too many I/O errors"@,
            Reason::Rpc => "The child is faulted due to a rpc call"@,
        }
    }

    /// A human-readable account of the reason.
    pub fn description(&self) -> (r: String)
        ensures
            r@ == self.description_spec(),
    {
        match self {
            Reason::Unknown => "Unknown".to_owned(),
            Reason::OutOfSync => "The child is out of sync and requires a rebuild".to_owned(),
            Reason::CantOpen => "The child bdev could not be opened".to_owned(),
            Reason::RebuildFailed => "The child failed to rebuild successfully".to_owned(),
            Reason::IoError => "The child had too many I/O errors".to_owned(),
            Reason::Rpc => "The child is faulted due to a rpc call".to_owned(),
        }
    }
}

/// State of a nexus child.
#[derive(Clone, Copy, Debug, PartialEq, Eq, Structural)]
pub enum ChildState {
    /// Not opened yet, but in the process of opening.
    Init,
    /// Cannot serve this nexus: incompatible properties.
    ConfigInvalid,
    /// Open for read/write.
    Open,
    /// Closed by the nexus.
    Closed,
    /// Faulted for the given reason.
    Faulted(Reason),
}

impl ChildState {
    pub open spec fn description_spec(self) -> Seq<char> {
        match self {
            ChildState::Init => "Init"@,
            ChildState::ConfigInvalid => "Config parameters are invalid"@,
            ChildState::Open => "Child is open"@,
            ChildState::Closed => "Closed"@,
            ChildState::Faulted(_) => "Faulted"@,
        }
    }

    /// A human-readable account of the state; a faulted state's reason
    /// has its own description.
    pub fn description(&self) -> (r: String)
        ensures
            r@ == self.description_spec(),
    {
        match self {
            ChildState::Init => "Init".to_owned(),
            ChildState::ConfigInvalid => "Config parameters are invalid".to_owned(),
            ChildState::Open => "Child is open".to_owned(),
            ChildState::Closed => "Closed".to_owned(),
            ChildState::Faulted(_) => "Faulted".to_owned(),
        }
    }
}

/// The backing block device of a child.
pub struct BdevInfo {
    pub name: String,
    pub size_in_bytes: u64,
    pub num_blocks: u64,
    pub block_len: u32,
    pub driver: String,
}

/// A descriptor obtained by opening the backing device.
pub struct Descriptor {
    pub device_name: String,
}

/// An I/O handle derived from an open descriptor.
pub struct BdevHandle {
    pub device_name: String,
}

/// Ring buffer of recent I/O errors, allocated when configured.
pub struct NexusErrStore {
    pub capacity: u64,
}

/// A rebuild job as the process-wide rebuild registry reports it.
pub struct RebuildJobInfo {
    /// Name of the nexus the job rebuilds for.
    pub nexus: String,
    /// Completion in percent, 0 to 100.
    pub progress: u32,
}

/// One row of the persisted child-status table.
pub struct ChildStatusEntry {
    pub parent: String,
    pub name: String,
    pub state: ChildState,
}

/// The mathematical content of one status row.
#[verifier::ext_equal]
pub ghost struct ChildStatusView {
    pub parent: Seq<char>,
    pub name: Seq<char>,
    pub state: ChildState,
}

impl View for ChildStatusEntry {
    type V = ChildStatusView;

    open spec fn view(&self) -> ChildStatusView {
        ChildStatusView { parent: self.parent@, name: self.name@, state: self.state }
    }
}

/// The rows of the status table.
pub open spec fn status_view(es: Seq<ChildStatusEntry>) -> Seq<ChildStatusView> {
    es.map_values(|e: ChildStatusEntry| e@)
}

/// Index of the first row for the child, or the length when none is.
pub open spec fn status_index_of(
    es: Seq<ChildStatusView>,
    parent: Seq<char>,
    name: Seq<char>,
) -> int
    decreases es.len(),
{
    if es.len() == 0 {
        0
    } else if es[0].parent == parent && es[0].name == name {
        0
    } else {
        1 + status_index_of(es.drop_first(), parent, name)
    }
}

/// The state the table records for the child, if any.
pub open spec fn status_find(
    es: Seq<ChildStatusView>,
    parent: Seq<char>,
    name: Seq<char>,
) -> Option<ChildState> {
    let i = status_index_of(es, parent, name);
    if i < es.len() {
        Some(es[i].state)
    } else {
        None
    }
}

/// The table after the child's row is set to `state`.
pub open spec fn status_set(
    es: Seq<ChildStatusView>,
    parent: Seq<char>,
    name: Seq<char>,
    state: ChildState,
) -> Seq<ChildStatusView> {
    let i = status_index_of(es, parent, name);
    if i < es.len() {
        es.update(i, ChildStatusView { parent: parent, name: name, state: state })
    } else {
        es.push(ChildStatusView { parent: parent, name: name, state: state })
    }
}

pub proof fn lemma_status_index_of(es: Seq<ChildStatusView>, parent: Seq<char>, name: Seq<char>)
    ensures
        0 <= status_index_of(es, parent, name) <= es.len(),
        status_index_of(es, parent, name) < es.len() ==> es[status_index_of(es, parent, name)].parent
            == parent && es[status_index_of(es, parent, name)].name == name,
        forall|j: int|
            0 <= j < status_index_of(es, parent, name) ==> !(es[j].parent == parent && es[j].name
                == name),
    decreases es.len(),
{
    if es.len() > 0 && !(es[0].parent == parent && es[0].name == name) {
        lemma_status_index_of(es.drop_first(), parent, name);
        assert forall|j: int| 0 <= j < status_index_of(es, parent, name) implies !(es[j].parent
            == parent && es[j].name == name) by {
            if j > 0 {
                assert(es.drop_first()[j - 1] == es[j]);
            }
        }
    }
}

/// Writing a row and reading it back gives the state just written.
pub proof fn lemma_status_set_reflects(
    es: Seq<ChildStatusView>,
    parent: Seq<char>,
    name: Seq<char>,
    state: ChildState,
)
    ensures
        status_find(status_set(es, parent, name, state), parent, name) == Some(state),
{
    lemma_status_index_of(es, parent, name);
    let i = status_index_of(es, parent, name);
    let es2 = status_set(es, parent, name, state);
    lemma_status_index_of(es2, parent, name);
    let i2 = status_index_of(es2, parent, name);
    if i2 < i {
        assert(!(es[i2].parent == parent && es[i2].name == name));
        assert(es2[i2] == es[i2]);
        assert(false);
    }
    if i2 > i {
        assert(es2[i].parent == parent && es2[i].name == name);
        assert(false);
    }
}

/// The persisted child-status table: one row per child, loaded on nexus
/// assembly and rewritten after every observable state transition.
pub struct ChildStatusConfig {
    pub entries: Vec<ChildStatusEntry>,
}

impl ChildStatusConfig {
    pub open spec fn rows(&self) -> Seq<ChildStatusView> {
        status_view(self.entries@)
    }

    /// An empty table.
    pub fn new() -> (r: ChildStatusConfig)
        ensures
            r.rows() == Seq::<ChildStatusView>::empty(),
    {
        let r = ChildStatusConfig { entries: Vec::new() };
        proof {
            assert(r.rows() =~= Seq::<ChildStatusView>::empty());
        }
        r
    }

    /// Records the child's current state, overwriting its row or adding
    /// one.
    pub fn record(&mut self, parent: &str, name: &str, state: ChildState)
        ensures
            final(self).rows() == status_set(old(self).rows(), parent@, name@, state),
            status_find(final(self).rows(), parent@, name@) == Some(state),
    {
        let ghost es = self.rows();
        let parent_s: String = parent.to_owned();
        let name_s: String = name.to_owned();
        proof {
            lemma_status_set_reflects(es, parent@, name@, state);
        }
        let mut i: usize = 0;
        while i < self.entries.len()
            invariant
                0 <= i <= self.entries.len(),
                parent_s@ == parent@,
                name_s@ == name@,
                self.entries@ == old(self).entries@,
                es == self.rows(),
                es.len() == self.entries@.len(),
                forall|j: int| 0 <= j < i ==> !(es[j].parent == parent@ && es[j].name == name@),
            decreases self.entries.len() - i,
        {
            if self.entries[i].parent == parent_s && self.entries[i].name == name_s {
                proof {
                    assert(es[i as int] == self.entries@[i as int]@);
                    lemma_status_index_of(es, parent@, name@);
                    let idx = status_index_of(es, parent@, name@);
                    if idx < i as int {
                        assert(es[idx].parent == parent@ && es[idx].name == name@);
                        assert(false);
                    }
                    if idx > i as int {
                        assert(!(es[i as int].parent == parent@ && es[i as int].name == name@));
                        assert(false);
                    }
                }
                let entry = ChildStatusEntry { parent: parent_s, name: name_s, state };
                self.entries.set(i, entry);
                proof {
                    assert(self.rows() =~= status_set(es, parent@, name@, state));
                    lemma_status_set_reflects(es, parent@, name@, state);
                }
                return ;
            }
            i += 1;
        }
        proof {
            lemma_status_index_of(es, parent@, name@);
            let idx = status_index_of(es, parent@, name@);
            if idx < es.len() as int {
                assert(es[idx].parent == parent@ && es[idx].name == name@);
                assert(false);
            }
        }
        self.entries.push(ChildStatusEntry { parent: parent_s, name: name_s, state });
        proof {
            assert(self.rows() =~= status_set(es, parent@, name@, state));
        }
    }
}

/// One replica belonging to a nexus, identified by the URI that created it.
pub struct NexusChild {
    /// Name of the parent nexus.
    pub parent: String,
    /// Name of the child: the URI used to create it.
    pub name: String,
    /// The backing device, when one is attached.
    pub bdev: Option<BdevInfo>,
    /// Descriptor acquired by opening the backing device.
    pub desc: Option<Descriptor>,
    /// Current lifecycle state.
    pub state: ChildState,
    /// I/O handle derived from the descriptor.
    pub bdev_handle: Option<BdevHandle>,
    /// Ring of recent I/O errors, when configured.
    pub err_store: Option<NexusErrStore>,
}

impl NexusChild {
    /// Creates a child in the `Init` state, holding no descriptor.
    pub fn new(name: String, parent: String, bdev: Option<BdevInfo>) -> (r: NexusChild)
        ensures
            r.name == name,
            r.parent == parent,
            r.bdev == bdev,
            r.desc is None,
            r.bdev_handle is None,
            r.err_store is None,
            r.state == ChildState::Init,
    {
        NexusChild {
            name,
            bdev,
            parent,
            desc: None,
            state: ChildState::Init,
            bdev_handle: None,
            err_store: None,
        }
    }

    /// The current state of the child.
    pub fn state(&self) -> (r: ChildState)
        ensures
            r == self.state,
    {
        self.state
    }

    /// The child may receive reads and writes exactly in `Open` and
    /// `Faulted(OutOfSync)`; an out-of-sync child still takes I/O because
    /// it is being rebuilt and needs its label and metadata written.
    pub fn is_accessible(&self) -> (r: bool)
        ensures
            r == (self.state == ChildState::Open || self.state == ChildState::Faulted(
                Reason::OutOfSync,
            )),
    {
        self.state == ChildState::Open || self.state == ChildState::Faulted(Reason::OutOfSync)
    }

    /// Opens the child read/write and claims the device.
    ///
    /// Only a child that is not faulted can be opened, and only with its
    /// backing device attached. `device_opened` is the outcome of the
    /// backing open call, which the unverified device layer performs.
    ///
    /// * A faulted child is refused outright.
    /// * A backing device smaller than the nexus moves the child to
    ///   `ConfigInvalid` and reports both sizes.
    /// * A failed backing open moves the child to `Faulted(CantOpen)`.
    /// * Otherwise the child acquires descriptor and handle, allocates the
    ///   error ring when `err_store_capacity` asks for one, and is `Open`.
    pub fn open(
        &mut self,
        parent_size: u64,
        device_opened: bool,
        err_store_capacity: Option<u64>,
    ) -> (r: Result<String, ChildError>)
        requires
            !(old(self).state matches ChildState::Faulted(_)) ==> old(self).bdev is Some,
        ensures
            final(self).name == old(self).name,
            final(self).parent == old(self).parent,
            final(self).bdev == old(self).bdev,
            old(self).state matches ChildState::Faulted(_) ==> *final(self) == *old(self) && (
            r matches Err(e) && e == ChildError::ChildFaulted),
            !(old(self).state matches ChildState::Faulted(_)) && parent_size > old(
                self,
            ).bdev.unwrap().size_in_bytes ==> *final(self) == (NexusChild {
                state: ChildState::ConfigInvalid,
                ..*old(self)
            }) && (r matches Err(e) && e == (ChildError::ChildTooSmall {
                child_size: old(self).bdev.unwrap().size_in_bytes,
                parent_size: parent_size,
            })),
            !(old(self).state matches ChildState::Faulted(_)) && parent_size <= old(
                self,
            ).bdev.unwrap().size_in_bytes && !device_opened ==> *final(self) == (NexusChild {
                state: ChildState::Faulted(Reason::CantOpen),
                ..*old(self)
            }) && (r matches Err(e) && e == ChildError::OpenChild),
            !(old(self).state matches ChildState::Faulted(_)) && parent_size <= old(
                self,
            ).bdev.unwrap().size_in_bytes && device_opened ==> final(self).state
                == ChildState::Open && final(self).desc is Some && final(self).bdev_handle is Some
                && (r matches Ok(n) && n == old(self).name) && final(self).err_store
                == match err_store_capacity {
                Some(c) => Some(NexusErrStore { capacity: c }),
                None => old(self).err_store,
            },
    {
        match self.state {
            ChildState::Faulted(_) => {
                return Err(ChildError::ChildFaulted);
            },
            _ => {},
        }
        let child_size = match &self.bdev {
            Some(b) => b.size_in_bytes,
            None => {
                proof {
                    assert(false);
                }
                0
            },
        };
        if parent_size > child_size {
            self.state = ChildState::ConfigInvalid;
            return Err(ChildError::ChildTooSmall { child_size, parent_size });
        }
        if !device_opened {
            self.state = ChildState::Faulted(Reason::CantOpen);
            return Err(ChildError::OpenChild);
        }
        let device_name = match &self.bdev {
            Some(b) => b.name.clone(),
            None => {
                proof {
                    assert(false);
                }
                String::new()
            },
        };
        self.bdev_handle = Some(BdevHandle { device_name: device_name.clone() });
        self.desc = Some(Descriptor { device_name });
        match err_store_capacity {
            Some(c) => {
                self.err_store = Some(NexusErrStore { capacity: c });
            },
            None => {},
        }
        self.state = ChildState::Open;
        Ok(self.name.clone())
    }

    /// Releases descriptor and handle together; the backing device stays.
    fn close_handles(&mut self)
        ensures
            *final(self) == (NexusChild { desc: None, bdev_handle: None, ..*old(self) }),
    {
        self.bdev_handle = None;
        self.desc = None;
    }

    /// Closes the child: descriptor and handle are dropped, the state
    /// becomes `Closed`.
    pub fn close(&mut self) -> (r: ChildState)
        ensures
            *final(self) == (NexusChild {
                desc: None,
                bdev_handle: None,
                state: ChildState::Closed,
                ..*old(self)
            }),
            r == ChildState::Closed,
    {
        self.close_handles();
        self.state = ChildState::Closed;
        ChildState::Closed
    }

    /// Persists this child's state into the status table. Writing the
    /// table to disk is the unverified shell's duty; a failure there is
    /// logged and swallowed, never propagated.
    pub fn save_state_change(&self, cfg: &mut ChildStatusConfig)
        ensures
            final(cfg).rows() == status_set(old(cfg).rows(), self.parent@, self.name@, self.state),
            status_find(final(cfg).rows(), self.parent@, self.name@) == Some(self.state),
    {
        cfg.record(self.parent.as_str(), self.name.as_str(), self.state);
    }

    /// Faults the child. An out-of-sync child keeps descriptor and handle
    /// because it will subsequently be rebuilt; any other reason closes
    /// them first. The new state is persisted.
    pub fn fault(&mut self, reason: Reason, cfg: &mut ChildStatusConfig)
        ensures
            reason == Reason::OutOfSync ==> *final(self) == (NexusChild {
                state: ChildState::Faulted(reason),
                ..*old(self)
            }),
            reason != Reason::OutOfSync ==> *final(self) == (NexusChild {
                state: ChildState::Faulted(reason),
                desc: None,
                bdev_handle: None,
                ..*old(self)
            }),
            final(cfg).rows() == status_set(
                old(cfg).rows(),
                old(self).parent@,
                old(self).name@,
                ChildState::Faulted(reason),
            ),
            status_find(final(cfg).rows(), old(self).parent@, old(self).name@) == Some(
                ChildState::Faulted(reason),
            ),
    {
        match reason {
            Reason::OutOfSync => {
                self.state = ChildState::Faulted(reason);
            },
            _ => {
                self.close_handles();
                self.state = ChildState::Faulted(reason);
            },
        }
        self.save_state_change(cfg);
    }

    /// Takes the child temporarily offline: close, then persist.
    pub fn offline(&mut self, cfg: &mut ChildStatusConfig)
        ensures
            *final(self) == (NexusChild {
                desc: None,
                bdev_handle: None,
                state: ChildState::Closed,
                ..*old(self)
            }),
            final(cfg).rows() == status_set(
                old(cfg).rows(),
                old(self).parent@,
                old(self).name@,
                ChildState::Closed,
            ),
            status_find(final(cfg).rows(), old(self).parent@, old(self).name@) == Some(
                ChildState::Closed,
            ),
    {
        self.close();
        self.save_state_change(cfg);
    }

    /// Brings a previously offlined child back: reopen, then mark it
    /// out-of-sync so it will be rebuilt, and persist that state. The
    /// result of the reopen is handed back unchanged.
    pub fn online(
        &mut self,
        parent_size: u64,
        device_opened: bool,
        err_store_capacity: Option<u64>,
        cfg: &mut ChildStatusConfig,
    ) -> (r: Result<String, ChildError>)
        requires
            !(old(self).state matches ChildState::Faulted(_)) ==> old(self).bdev is Some,
        ensures
            final(self).state == ChildState::Faulted(Reason::OutOfSync),
            final(self).name == old(self).name,
            final(self).parent == old(self).parent,
            final(self).bdev == old(self).bdev,
            status_find(final(cfg).rows(), old(self).parent@, old(self).name@) == Some(
                ChildState::Faulted(Reason::OutOfSync),
            ),
            old(self).state matches ChildState::Faulted(_) ==> (r matches Err(e) && e
                == ChildError::ChildFaulted),
            !(old(self).state matches ChildState::Faulted(_)) && parent_size > old(
                self,
            ).bdev.unwrap().size_in_bytes ==> (r matches Err(e) && e == (ChildError::ChildTooSmall {
                child_size: old(self).bdev.unwrap().size_in_bytes,
                parent_size: parent_size,
            })),
            !(old(self).state matches ChildState::Faulted(_)) && parent_size <= old(
                self,
            ).bdev.unwrap().size_in_bytes && !device_opened ==> (r matches Err(e) && e
                == ChildError::OpenChild),
            !(old(self).state matches ChildState::Faulted(_)) && parent_size <= old(
                self,
            ).bdev.unwrap().size_in_bytes && device_opened ==> (r matches Ok(n) && n == old(
                self,
            ).name) && final(self).desc is Some && final(self).bdev_handle is Some,
    {
        let result = self.open(parent_size, device_opened, err_store_capacity);
        self.state = ChildState::Faulted(Reason::OutOfSync);
        self.save_state_change(cfg);
        result
    }

    /// True iff the rebuild registry knows a job for this child and the
    /// child is out of sync. `job_found` is the registry lookup's outcome.
    pub fn rebuilding(&self, job_found: bool) -> (r: bool)
        ensures
            r == (job_found && self.state == ChildState::Faulted(Reason::OutOfSync)),
    {
        job_found && self.state == ChildState::Faulted(Reason::OutOfSync)
    }

    /// A descriptor to this child, if it holds one.
    pub fn get_descriptor(&self) -> (r: Result<Descriptor, CoreError>)
        ensures
            self.desc matches Some(d) ==> (r matches Ok(rd) && rd.device_name@
                == d.device_name@),
            self.desc is None ==> (r matches Err(CoreError::InvalidDescriptor { name }) && name@
                == self.name@),
    {
        match &self.desc {
            Some(d) => Ok(Descriptor { device_name: d.device_name.clone() }),
            None => Err(CoreError::InvalidDescriptor { name: self.name.clone() }),
        }
    }

    /// References to the child's device and I/O handle; an inaccessible
    /// child refuses, and an accessible one without both is invalid.
    pub fn get_dev(&self) -> (r: Result<(&BdevInfo, &BdevHandle), ChildError>)
        ensures
            !(self.state == ChildState::Open || self.state == ChildState::Faulted(
                Reason::OutOfSync,
            )) ==> (r matches Err(e) && e == ChildError::ChildInaccessible),
            (self.state == ChildState::Open || self.state == ChildState::Faulted(
                Reason::OutOfSync,
            )) && self.bdev is Some && self.bdev_handle is Some ==> (r matches Ok(t) && *t.0
                == self.bdev.unwrap() && *t.1 == self.bdev_handle.unwrap()),
            (self.state == ChildState::Open || self.state == ChildState::Faulted(
                Reason::OutOfSync,
            )) && (self.bdev is None || self.bdev_handle is None) ==> (r matches Err(e) && e
                == ChildError::ChildInvalid),
    {
        if !self.is_accessible() {
            return Err(ChildError::ChildInaccessible);
        }
        if let Some(bdev) = &self.bdev {
            if let Some(desc) = &self.bdev_handle {
                return Ok((bdev, desc));
            }
        }
        Err(ChildError::ChildInvalid)
    }

    /// Admits a write through this child: the I/O handle the awaited
    /// DMA write must go through, performed by the data-plane shell,
    /// which wraps a device failure as `WriteError`. A child holding no
    /// handle refuses with `InvalidDescriptor` naming it.
    pub fn write_at(&self) -> (r: Result<&BdevHandle, ChildIoError>)
        ensures
            self.bdev_handle matches Some(h) ==> (r matches Ok(rh) && *rh == h),
            self.bdev_handle is None ==> (r matches Err(ChildIoError::InvalidDescriptor {
                name,
            }) && name@ == self.name@),
    {
        match &self.bdev_handle {
            Some(h) => Ok(h),
            None => Err(ChildIoError::InvalidDescriptor { name: self.name.clone() }),
        }
    }

    /// Admits a read through this child: the I/O handle the awaited DMA
    /// read must go through, performed by the data-plane shell, which
    /// wraps a device failure as `ReadError`. A child holding no handle
    /// refuses with `InvalidDescriptor` naming it.
    pub fn read_at(&self) -> (r: Result<&BdevHandle, ChildIoError>)
        ensures
            self.bdev_handle matches Some(h) ==> (r matches Ok(rh) && *rh == h),
            self.bdev_handle is None ==> (r matches Err(ChildIoError::InvalidDescriptor {
                name,
            }) && name@ == self.name@),
    {
        match &self.bdev_handle {
            Some(h) => Ok(h),
            None => Err(ChildIoError::InvalidDescriptor { name: self.name.clone() }),
        }
    }

    /// Whether the caller must release the backing bdev through the
    /// child's URI. Destroying is permitted only from `Closed`.
    pub fn destroy(&self) -> (r: bool)
        requires
            self.state == ChildState::Closed,
        ensures
            r == (self.bdev is Some),
    {
        self.bdev.is_some()
    }

    /// The rebuild progress in percent, or -1 when no job is rebuilding
    /// this child. `job` is what the rebuild registry's lookup returned.
    pub fn get_rebuild_progress(&self, job: Option<&RebuildJobInfo>) -> (r: i32)
        requires
            job matches Some(j) ==> j.nexus@ == self.parent@ && j.progress <= 100,
        ensures
            job matches Some(j) ==> r == j.progress as i32,
            job is None ==> r == -1,
    {
        match job {
            Some(j) => j.progress as i32,
            None => -1,
        }
    }

    /// A child is local when its backing device is not reached over a
    /// network fabric; unknown without a backing device.
    pub fn is_local(&self) -> (r: Option<bool>)
        ensures
            self.bdev matches Some(b) ==> r == Some(b.driver@ != "nvme"@ && b.driver@ != "iscsi"@),
            self.bdev is None ==> r is None,
    {
        match &self.bdev {
            Some(bdev) => {
                let nvme: String = "nvme".to_owned();
                let iscsi: String = "iscsi".to_owned();
                let local = bdev.driver != nvme && bdev.driver != iscsi;
                Some(local)
            },
            None => None,
        }
    }
}

} // verus!

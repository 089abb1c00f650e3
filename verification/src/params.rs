//! Value objects for snapshot and clone creation, and their 1:1
//! serialization to and from blob extended attributes.

use vstd::prelude::*;

use crate::errors::LvsError;
use crate::xattrs::{
    xattr_find, xattrs_view, CloneXattrs, SnapshotXattrs, XattrEntry, XattrView,
};

verus! {

/// Parameters of a snapshot. Every field but `discarded_snapshot` is
/// mandatory on creation; a missing field fails serialization.
pub struct SnapshotParams {
    pub entity_id: Option<String>,
    pub parent_id: Option<String>,
    pub txn_id: Option<String>,
    pub name: Option<String>,
    pub snapshot_uuid: Option<String>,
    pub create_time: Option<String>,
    pub discarded_snapshot: bool,
}

/// The mathematical content of `SnapshotParams`.
#[verifier::ext_equal]
pub ghost struct SnapshotParamsView {
    pub entity_id: Option<Seq<char>>,
    pub parent_id: Option<Seq<char>>,
    pub txn_id: Option<Seq<char>>,
    pub name: Option<Seq<char>>,
    pub snapshot_uuid: Option<Seq<char>>,
    pub create_time: Option<Seq<char>>,
    pub discarded_snapshot: bool,
}

pub open spec fn opt_view(o: Option<String>) -> Option<Seq<char>> {
    match o {
        Some(s) => Some(s@),
        None => None,
    }
}

impl View for SnapshotParams {
    type V = SnapshotParamsView;

    open spec fn view(&self) -> SnapshotParamsView {
        SnapshotParamsView {
            entity_id: opt_view(self.entity_id),
            parent_id: opt_view(self.parent_id),
            txn_id: opt_view(self.txn_id),
            name: opt_view(self.name),
            snapshot_uuid: opt_view(self.snapshot_uuid),
            create_time: opt_view(self.create_time),
            discarded_snapshot: self.discarded_snapshot,
        }
    }
}

impl SnapshotParams {
    pub fn new(
        entity_id: Option<String>,
        parent_id: Option<String>,
        txn_id: Option<String>,
        name: Option<String>,
        snapshot_uuid: Option<String>,
        create_time: Option<String>,
        discarded_snapshot: bool,
    ) -> (r: SnapshotParams)
        ensures
            r.entity_id == entity_id,
            r.parent_id == parent_id,
            r.txn_id == txn_id,
            r.name == name,
            r.snapshot_uuid == snapshot_uuid,
            r.create_time == create_time,
            r.discarded_snapshot == discarded_snapshot,
    {
        SnapshotParams {
            entity_id,
            parent_id,
            txn_id,
            name,
            snapshot_uuid,
            create_time,
            discarded_snapshot,
        }
    }
}

/// Parameters of a clone. All fields are mandatory.
pub struct CloneParams {
    pub clone_name: Option<String>,
    pub clone_uuid: Option<String>,
    pub source_uuid: Option<String>,
    pub clone_create_time: Option<String>,
}

/// The mathematical content of `CloneParams`.
#[verifier::ext_equal]
pub ghost struct CloneParamsView {
    pub clone_name: Option<Seq<char>>,
    pub clone_uuid: Option<Seq<char>>,
    pub source_uuid: Option<Seq<char>>,
    pub clone_create_time: Option<Seq<char>>,
}

impl View for CloneParams {
    type V = CloneParamsView;

    open spec fn view(&self) -> CloneParamsView {
        CloneParamsView {
            clone_name: opt_view(self.clone_name),
            clone_uuid: opt_view(self.clone_uuid),
            source_uuid: opt_view(self.source_uuid),
            clone_create_time: opt_view(self.clone_create_time),
        }
    }
}

impl CloneParams {
    pub fn new(
        clone_name: Option<String>,
        clone_uuid: Option<String>,
        source_uuid: Option<String>,
        clone_create_time: Option<String>,
    ) -> (r: CloneParams)
        ensures
            r.clone_name == clone_name,
            r.clone_uuid == clone_uuid,
            r.source_uuid == source_uuid,
            r.clone_create_time == clone_create_time,
    {
        CloneParams { clone_name, clone_uuid, source_uuid, clone_create_time }
    }
}

/// The textual form a boolean attribute is stored in.
pub open spec fn bool_text(b: bool) -> Seq<char> {
    if b {
        "true"@
    } else {
        "false"@
    }
}

/// How a stored boolean attribute is read back: anything but the exact
/// lowercase `true` reads as false.
pub open spec fn parse_bool_text(s: Seq<char>) -> bool {
    s == "true"@
}

/// Renders `b` in its on-disk textual form.
pub fn bool_to_text(b: bool) -> (r: String)
    ensures
        r@ == bool_text(b),
{
    if b {
        "true".to_owned()
    } else {
        "false".to_owned()
    }
}

/// Reads a stored boolean attribute back.
pub fn text_to_bool(s: &String) -> (r: bool)
    ensures
        r == parse_bool_text(s@),
{
    let t: String = "true".to_owned();
    *s == t
}

/// Reading a boolean back from its textual form recovers it.
pub proof fn lemma_bool_text_roundtrip(b: bool)
    ensures
        parse_bool_text(bool_text(b)) == b,
{
    reveal_strlit("true");
    reveal_strlit("false");
    assert("true"@.len() == 4);
    assert("false"@.len() == 5);
}

impl SnapshotParamsView {
    /// All fields that serialization requires are present.
    pub open spec fn is_complete(self) -> bool {
        &&& self.txn_id is Some
        &&& self.entity_id is Some
        &&& self.parent_id is Some
        &&& self.snapshot_uuid is Some
        &&& self.create_time is Some
    }
}

/// The exact attribute table a complete snapshot parameter set serializes
/// to, in the fixed key order the engine writes.
pub open spec fn snapshot_xattrs_of(p: SnapshotParamsView) -> Seq<XattrView> {
    seq![
        XattrView { key: SnapshotXattrs::TxId.key(), value: p.txn_id.unwrap() },
        XattrView { key: SnapshotXattrs::EntityId.key(), value: p.entity_id.unwrap() },
        XattrView { key: SnapshotXattrs::ParentId.key(), value: p.parent_id.unwrap() },
        XattrView { key: SnapshotXattrs::SnapshotUuid.key(), value: p.snapshot_uuid.unwrap() },
        XattrView { key: SnapshotXattrs::SnapshotCreateTime.key(), value: p.create_time.unwrap() },
        XattrView {
            key: SnapshotXattrs::DiscardedSnapshot.key(),
            value: bool_text(p.discarded_snapshot),
        },
    ]
}

/// The message naming the first missing required snapshot field, in the
/// order serialization checks them.
pub open spec fn snapshot_config_missing_msg(p: SnapshotParamsView) -> Seq<char> {
    if p.txn_id is None {
        "txn id not provided"@
    } else if p.entity_id is None {
        "entity id not provided"@
    } else if p.parent_id is None {
        "parent id not provided"@
    } else if p.snapshot_uuid is None {
        "snapshot_uuid not provided"@
    } else {
        "create_time not provided"@
    }
}

impl CloneParamsView {
    /// All fields are mandatory on a clone: serialization requires the
    /// three attribute values, and the blob needs its name.
    pub open spec fn is_complete(self) -> bool {
        &&& self.source_uuid is Some
        &&& self.clone_create_time is Some
        &&& self.clone_uuid is Some
        &&& self.clone_name is Some
    }
}

/// The message naming the first missing required clone field, in the
/// order serialization checks them.
pub open spec fn clone_config_missing_msg(p: CloneParamsView) -> Seq<char> {
    if p.source_uuid is None {
        "source uuid not provided"@
    } else if p.clone_create_time is None {
        "create_time not provided"@
    } else if p.clone_uuid is None {
        "clone_uuid not provided"@
    } else {
        "clone_name not provided"@
    }
}

/// The exact attribute table a complete clone parameter set serializes to.
pub open spec fn clone_xattrs_of(p: CloneParamsView) -> Seq<XattrView> {
    seq![
        XattrView { key: CloneXattrs::SourceUuid.key(), value: p.source_uuid.unwrap() },
        XattrView { key: CloneXattrs::CloneUuid.key(), value: p.clone_uuid.unwrap() },
        XattrView { key: CloneXattrs::CloneCreateTime.key(), value: p.clone_create_time.unwrap() },
    ]
}

/// The snapshot parameters read back from a blob: each field from its
/// attribute, the name from the blob itself.
pub open spec fn snapshot_params_of(name: Seq<char>, xs: Seq<XattrView>) -> SnapshotParamsView {
    SnapshotParamsView {
        entity_id: xattr_find(xs, SnapshotXattrs::EntityId.key()),
        parent_id: xattr_find(xs, SnapshotXattrs::ParentId.key()),
        txn_id: xattr_find(xs, SnapshotXattrs::TxId.key()),
        name: Some(name),
        snapshot_uuid: xattr_find(xs, SnapshotXattrs::SnapshotUuid.key()),
        create_time: xattr_find(xs, SnapshotXattrs::SnapshotCreateTime.key()),
        discarded_snapshot: match xattr_find(xs, SnapshotXattrs::DiscardedSnapshot.key()) {
            Some(v) => parse_bool_text(v),
            None => false,
        },
    }
}

/// All six snapshot attributes are present in `xs`.
pub open spec fn snapshot_xattrs_complete(xs: Seq<XattrView>) -> bool {
    &&& xattr_find(xs, SnapshotXattrs::TxId.key()) is Some
    &&& xattr_find(xs, SnapshotXattrs::EntityId.key()) is Some
    &&& xattr_find(xs, SnapshotXattrs::ParentId.key()) is Some
    &&& xattr_find(xs, SnapshotXattrs::SnapshotUuid.key()) is Some
    &&& xattr_find(xs, SnapshotXattrs::SnapshotCreateTime.key()) is Some
    &&& xattr_find(xs, SnapshotXattrs::DiscardedSnapshot.key()) is Some
}

/// Reads the snapshot parameters and their validity back from a blob's
/// attribute table. The boolean result is false iff a required attribute
/// is missing.
pub fn read_snapshot_params(name: &String, xs: &Vec<XattrEntry>) -> (r: (SnapshotParams, bool))
    ensures
        r.0@ == snapshot_params_of(name@, xattrs_view(xs@)),
        r.1 == snapshot_xattrs_complete(xattrs_view(xs@)),
{
    let txn_id = crate::xattrs::xattr_get(xs, SnapshotXattrs::TxId.name());
    let entity_id = crate::xattrs::xattr_get(xs, SnapshotXattrs::EntityId.name());
    let parent_id = crate::xattrs::xattr_get(xs, SnapshotXattrs::ParentId.name());
    let snapshot_uuid = crate::xattrs::xattr_get(xs, SnapshotXattrs::SnapshotUuid.name());
    let create_time = crate::xattrs::xattr_get(xs, SnapshotXattrs::SnapshotCreateTime.name());
    let discarded = crate::xattrs::xattr_get(xs, SnapshotXattrs::DiscardedSnapshot.name());
    let valid = txn_id.is_some() && entity_id.is_some() && parent_id.is_some()
        && snapshot_uuid.is_some() && create_time.is_some() && discarded.is_some();
    let discarded_snapshot = match &discarded {
        Some(v) => text_to_bool(v),
        None => false,
    };
    let params = SnapshotParams {
        entity_id,
        parent_id,
        txn_id,
        name: Some(name.clone()),
        snapshot_uuid,
        create_time,
        discarded_snapshot,
    };
    (params, valid)
}

impl SnapshotParams {
    /// Serializes the parameters into the six snapshot attributes, in the
    /// fixed key order. A missing required field yields a config error
    /// naming it; `bdev_name` names the source volume in that error.
    pub fn prepare_snapshot_xattrs(&self, bdev_name: &str) -> (r: Result<
        Vec<XattrEntry>,
        LvsError,
    >)
        ensures
            self@.is_complete() ==> (r matches Ok(xs) && xattrs_view(xs@) == snapshot_xattrs_of(
                self@,
            )),
            !self@.is_complete() ==> (r matches Err(LvsError::SnapshotConfigFailed {
                name,
                msg,
            }) && name@ == bdev_name@ && msg@ == snapshot_config_missing_msg(self@)),
    {
        let mut xs: Vec<XattrEntry> = Vec::new();
        let txn_id = match &self.txn_id {
            Some(v) => v.clone(),
            None => {
                return Err(LvsError::SnapshotConfigFailed {
                    name: bdev_name.to_owned(),
                    msg: "txn id not provided".to_owned(),
                });
            },
        };
        let entity_id = match &self.entity_id {
            Some(v) => v.clone(),
            None => {
                return Err(LvsError::SnapshotConfigFailed {
                    name: bdev_name.to_owned(),
                    msg: "entity id not provided".to_owned(),
                });
            },
        };
        let parent_id = match &self.parent_id {
            Some(v) => v.clone(),
            None => {
                return Err(LvsError::SnapshotConfigFailed {
                    name: bdev_name.to_owned(),
                    msg: "parent id not provided".to_owned(),
                });
            },
        };
        let snapshot_uuid = match &self.snapshot_uuid {
            Some(v) => v.clone(),
            None => {
                return Err(LvsError::SnapshotConfigFailed {
                    name: bdev_name.to_owned(),
                    msg: "snapshot_uuid not provided".to_owned(),
                });
            },
        };
        let create_time = match &self.create_time {
            Some(v) => v.clone(),
            None => {
                return Err(LvsError::SnapshotConfigFailed {
                    name: bdev_name.to_owned(),
                    msg: "create_time not provided".to_owned(),
                });
            },
        };
        xs.push(XattrEntry { key: SnapshotXattrs::TxId.name().to_owned(), value: txn_id });
        xs.push(XattrEntry { key: SnapshotXattrs::EntityId.name().to_owned(), value: entity_id });
        xs.push(XattrEntry { key: SnapshotXattrs::ParentId.name().to_owned(), value: parent_id });
        xs.push(
            XattrEntry {
                key: SnapshotXattrs::SnapshotUuid.name().to_owned(),
                value: snapshot_uuid,
            },
        );
        xs.push(
            XattrEntry {
                key: SnapshotXattrs::SnapshotCreateTime.name().to_owned(),
                value: create_time,
            },
        );
        xs.push(
            XattrEntry {
                key: SnapshotXattrs::DiscardedSnapshot.name().to_owned(),
                value: bool_to_text(self.discarded_snapshot),
            },
        );
        proof {
            assert(xattrs_view(xs@) =~= snapshot_xattrs_of(self@));
        }
        Ok(xs)
    }
}

impl CloneParams {
    /// Serializes the parameters into the three clone attributes, in the
    /// fixed key order.
    pub fn prepare_clone_xattrs(&self, bdev_name: &str) -> (r: Result<Vec<XattrEntry>, LvsError>)
        ensures
            self@.is_complete() ==> (r matches Ok(xs) && xattrs_view(xs@) == clone_xattrs_of(
                self@,
            )),
            !self@.is_complete() ==> (r matches Err(LvsError::CloneConfigFailed { name, msg })
                && name@ == bdev_name@ && msg@ == clone_config_missing_msg(self@)),
    {
        let mut xs: Vec<XattrEntry> = Vec::new();
        let source_uuid = match &self.source_uuid {
            Some(v) => v.clone(),
            None => {
                return Err(LvsError::CloneConfigFailed {
                    name: bdev_name.to_owned(),
                    msg: "source uuid not provided".to_owned(),
                });
            },
        };
        let clone_create_time = match &self.clone_create_time {
            Some(v) => v.clone(),
            None => {
                return Err(LvsError::CloneConfigFailed {
                    name: bdev_name.to_owned(),
                    msg: "create_time not provided".to_owned(),
                });
            },
        };
        let clone_uuid = match &self.clone_uuid {
            Some(v) => v.clone(),
            None => {
                return Err(LvsError::CloneConfigFailed {
                    name: bdev_name.to_owned(),
                    msg: "clone_uuid not provided".to_owned(),
                });
            },
        };
        if self.clone_name.is_none() {
            return Err(LvsError::CloneConfigFailed {
                name: bdev_name.to_owned(),
                msg: "clone_name not provided".to_owned(),
            });
        }
        xs.push(XattrEntry { key: CloneXattrs::SourceUuid.name().to_owned(), value: source_uuid });
        xs.push(XattrEntry { key: CloneXattrs::CloneUuid.name().to_owned(), value: clone_uuid });
        xs.push(
            XattrEntry {
                key: CloneXattrs::CloneCreateTime.name().to_owned(),
                value: clone_create_time,
            },
        );
        proof {
            assert(xattrs_view(xs@) =~= clone_xattrs_of(self@));
        }
        Ok(xs)
    }
}

/// Serializing a complete snapshot parameter set and reading it back
/// recovers every field.
pub proof fn lemma_snapshot_params_roundtrip(p: SnapshotParamsView)
    requires
        p.is_complete(),
        p.name is Some,
    ensures
        snapshot_params_of(p.name.unwrap(), snapshot_xattrs_of(p)) == p,
        snapshot_xattrs_complete(snapshot_xattrs_of(p)),
{
    crate::xattrs::lemma_xattr_keys_distinct();
    lemma_bool_text_roundtrip(p.discarded_snapshot);
    let xs = snapshot_xattrs_of(p);
    reveal_with_fuel(crate::xattrs::xattr_index_of, 8);
    assert(snapshot_params_of(p.name.unwrap(), xs) =~= p);
}

} // verus!

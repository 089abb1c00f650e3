//! Extended-attribute keys persisted on snapshot and clone blobs.
//!
//! The key strings are part of the on-disk format and must not change.

use vstd::prelude::*;

verus! {

/// Keys of the six extended attributes carried by every snapshot blob.
#[derive(Clone, Copy, Debug, PartialEq, Eq, Structural)]
pub enum SnapshotXattrs {
    TxId,
    EntityId,
    ParentId,
    SnapshotUuid,
    SnapshotCreateTime,
    DiscardedSnapshot,
}

/// Keys of the three extended attributes carried by every clone blob.
#[derive(Clone, Copy, Debug, PartialEq, Eq, Structural)]
pub enum CloneXattrs {
    SourceUuid,
    CloneUuid,
    CloneCreateTime,
}

impl SnapshotXattrs {
    /// The on-disk key this attribute is stored under.
    pub open spec fn key(self) -> Seq<char> {
        match self {
            SnapshotXattrs::TxId => "org.openebs.mayastor.snapshot.tx_id"@,
            SnapshotXattrs::EntityId => "org.openebs.mayastor.snapshot.entity_id"@,
            SnapshotXattrs::ParentId => "org.openebs.mayastor.snapshot.parent_id"@,
            SnapshotXattrs::SnapshotUuid => "org.openebs.mayastor.snapshot.uuid"@,
            SnapshotXattrs::SnapshotCreateTime => "org.openebs.mayastor.snapshot.create_time"@,
            SnapshotXattrs::DiscardedSnapshot => "org.openebs.mayastor.snapshot.discarded"@,
        }
    }

    pub fn name(&self) -> (r: &'static str)
        ensures
            r@ == self.key(),
    {
        match self {
            SnapshotXattrs::TxId => "org.openebs.mayastor.snapshot.tx_id",
            SnapshotXattrs::EntityId => "org.openebs.mayastor.snapshot.entity_id",
            SnapshotXattrs::ParentId => "org.openebs.mayastor.snapshot.parent_id",
            SnapshotXattrs::SnapshotUuid => "org.openebs.mayastor.snapshot.uuid",
            SnapshotXattrs::SnapshotCreateTime => "org.openebs.mayastor.snapshot.create_time",
            SnapshotXattrs::DiscardedSnapshot => "org.openebs.mayastor.snapshot.discarded",
        }
    }
}

impl CloneXattrs {
    /// The on-disk key this attribute is stored under.
    pub open spec fn key(self) -> Seq<char> {
        match self {
            CloneXattrs::SourceUuid => "org.openebs.mayastor.clone.source_uuid"@,
            CloneXattrs::CloneUuid => "org.openebs.mayastor.clone.uuid"@,
            CloneXattrs::CloneCreateTime => "org.openebs.mayastor.clone.create_time"@,
        }
    }

    pub fn name(&self) -> (r: &'static str)
        ensures
            r@ == self.key(),
    {
        match self {
            CloneXattrs::SourceUuid => "org.openebs.mayastor.clone.source_uuid",
            CloneXattrs::CloneUuid => "org.openebs.mayastor.clone.uuid",
            CloneXattrs::CloneCreateTime => "org.openebs.mayastor.clone.create_time",
        }
    }
}

/// One extended attribute: a key/value pair of UTF-8 strings attached to a
/// blob and persisted alongside it.
pub struct XattrEntry {
    pub key: String,
    pub value: String,
}

/// The mathematical content of one attribute.
#[verifier::ext_equal]
pub ghost struct XattrView {
    pub key: Seq<char>,
    pub value: Seq<char>,
}

impl View for XattrEntry {
    type V = XattrView;

    open spec fn view(&self) -> XattrView {
        XattrView { key: self.key@, value: self.value@ }
    }
}

/// The attribute table of a blob, as a sequence of key/value pairs.
pub open spec fn xattrs_view(xs: Seq<XattrEntry>) -> Seq<XattrView> {
    xs.map_values(|e: XattrEntry| e@)
}

/// Index of the first entry stored under `key`; the sequence's length when
/// no entry is.
pub open spec fn xattr_index_of(xs: Seq<XattrView>, key: Seq<char>) -> int
    decreases xs.len(),
{
    if xs.len() == 0 {
        0
    } else if xs[0].key == key {
        0
    } else {
        1 + xattr_index_of(xs.drop_first(), key)
    }
}

/// The value stored under `key`, if any.
pub open spec fn xattr_find(xs: Seq<XattrView>, key: Seq<char>) -> Option<Seq<char>> {
    let i = xattr_index_of(xs, key);
    if i < xs.len() {
        Some(xs[i].value)
    } else {
        None
    }
}

/// The table after `key` is durably set to `value`: the first entry under
/// `key` is overwritten, or a new entry is appended.
pub open spec fn xattr_set(xs: Seq<XattrView>, key: Seq<char>, value: Seq<char>) -> Seq<
    XattrView,
> {
    let i = xattr_index_of(xs, key);
    if i < xs.len() {
        xs.update(i, XattrView { key: key, value: value })
    } else {
        xs.push(XattrView { key: key, value: value })
    }
}

/// `xattr_index_of` points at the first entry under `key`, and past the end
/// exactly when no entry is under `key`.
pub proof fn lemma_xattr_index_of(xs: Seq<XattrView>, key: Seq<char>)
    ensures
        0 <= xattr_index_of(xs, key) <= xs.len(),
        xattr_index_of(xs, key) < xs.len() ==> xs[xattr_index_of(xs, key)].key == key,
        forall|j: int| 0 <= j < xattr_index_of(xs, key) ==> xs[j].key != key,
    decreases xs.len(),
{
    if xs.len() > 0 && xs[0].key != key {
        lemma_xattr_index_of(xs.drop_first(), key);
        assert forall|j: int| 0 <= j < xattr_index_of(xs, key) implies xs[j].key != key by {
            if j > 0 {
                assert(xs.drop_first()[j - 1] == xs[j]);
            }
        }
    }
}

/// Setting a key and reading it back gives the value just written.
pub proof fn lemma_xattr_set_find(xs: Seq<XattrView>, key: Seq<char>, value: Seq<char>)
    ensures
        xattr_find(xattr_set(xs, key, value), key) == Some(value),
{
    lemma_xattr_index_of(xs, key);
    let i = xattr_index_of(xs, key);
    let xs2 = xattr_set(xs, key, value);
    lemma_xattr_index_of(xs2, key);
    let i2 = xattr_index_of(xs2, key);
    if i2 < i {
        assert(xs[i2].key != key);
        assert(xs2[i2] == xs[i2]);
        assert(false);
    }
    if i2 > i {
        assert(xs2[i].key == key);
        assert(false);
    }
}

/// Looks up the first entry stored under `key`.
pub fn xattr_get(xs: &Vec<XattrEntry>, key: &str) -> (r: Option<String>)
    ensures
        r matches Some(v) ==> xattr_find(xattrs_view(xs@), key@) == Some(v@),
        r is None ==> xattr_find(xattrs_view(xs@), key@) is None,
{
    let ghost vs = xattrs_view(xs@);
    let key_s: String = key.to_owned();
    proof {
        lemma_xattr_index_of(vs, key@);
    }
    let mut i: usize = 0;
    while i < xs.len()
        invariant
            0 <= i <= xs.len(),
            key_s@ == key@,
            vs == xattrs_view(xs@),
            vs.len() == xs@.len(),
            forall|j: int| 0 <= j < i ==> vs[j].key != key@,
        decreases xs.len() - i,
    {
        if xs[i].key == key_s {
            proof {
                assert(vs[i as int] == xs@[i as int]@);
                lemma_xattr_index_of(vs, key@);
                let idx = xattr_index_of(vs, key@);
                if idx < i as int {
                    assert(vs[idx].key == key@);
                    assert(false);
                }
                if idx > i as int {
                    assert(vs[i as int].key != key@);
                    assert(false);
                }
            }
            return Some(xs[i].value.clone());
        }
        i += 1;
    }
    proof {
        lemma_xattr_index_of(vs, key@);
        let idx = xattr_index_of(vs, key@);
        if idx < vs.len() as int {
            assert(vs[idx].key == key@);
            assert(false);
        }
    }
    None
}

/// Durably sets `key` to `value`, overwriting the first entry under `key`
/// or appending a new one.
pub fn xattr_put(xs: &mut Vec<XattrEntry>, key: &str, value: String)
    ensures
        xattrs_view(final(xs)@) == xattr_set(xattrs_view(old(xs)@), key@, value@),
{
    let ghost vs = xattrs_view(old(xs)@);
    let key_s: String = key.to_owned();
    proof {
        lemma_xattr_index_of(vs, key@);
    }
    let mut i: usize = 0;
    while i < xs.len()
        invariant
            0 <= i <= xs.len(),
            key_s@ == key@,
            xs@ == old(xs)@,
            vs == xattrs_view(xs@),
            vs.len() == xs@.len(),
            forall|j: int| 0 <= j < i ==> vs[j].key != key@,
        decreases xs.len() - i,
    {
        if xs[i].key == key_s {
            proof {
                assert(vs[i as int] == xs@[i as int]@);
                lemma_xattr_index_of(vs, key@);
                let idx = xattr_index_of(vs, key@);
                if idx < i as int {
                    assert(vs[idx].key == key@);
                    assert(false);
                }
                if idx > i as int {
                    assert(vs[i as int].key != key@);
                    assert(false);
                }
            }
            let entry = XattrEntry { key: xs[i].key.clone(), value };
            xs.set(i, entry);
            proof {
                assert(xattrs_view(xs@) =~= xattr_set(vs, key@, value@));
            }
            return ;
        }
        i += 1;
    }
    proof {
        lemma_xattr_index_of(vs, key@);
        let idx = xattr_index_of(vs, key@);
        if idx < vs.len() as int {
            assert(vs[idx].key == key@);
            assert(false);
        }
    }
    xs.push(XattrEntry { key: key.to_owned(), value });
    proof {
        assert(xattrs_view(xs@) =~= xattr_set(vs, key@, value@));
    }
}

/// The nine keys are pairwise distinct; attribute writes keyed by one of
/// them never clobber another.
pub proof fn lemma_xattr_keys_distinct()
    ensures
        SnapshotXattrs::TxId.key() != SnapshotXattrs::EntityId.key(),
        SnapshotXattrs::TxId.key() != SnapshotXattrs::ParentId.key(),
        SnapshotXattrs::TxId.key() != SnapshotXattrs::SnapshotUuid.key(),
        SnapshotXattrs::TxId.key() != SnapshotXattrs::SnapshotCreateTime.key(),
        SnapshotXattrs::TxId.key() != SnapshotXattrs::DiscardedSnapshot.key(),
        SnapshotXattrs::EntityId.key() != SnapshotXattrs::ParentId.key(),
        SnapshotXattrs::EntityId.key() != SnapshotXattrs::SnapshotUuid.key(),
        SnapshotXattrs::EntityId.key() != SnapshotXattrs::SnapshotCreateTime.key(),
        SnapshotXattrs::EntityId.key() != SnapshotXattrs::DiscardedSnapshot.key(),
        SnapshotXattrs::ParentId.key() != SnapshotXattrs::SnapshotUuid.key(),
        SnapshotXattrs::ParentId.key() != SnapshotXattrs::SnapshotCreateTime.key(),
        SnapshotXattrs::ParentId.key() != SnapshotXattrs::DiscardedSnapshot.key(),
        SnapshotXattrs::SnapshotUuid.key() != SnapshotXattrs::SnapshotCreateTime.key(),
        SnapshotXattrs::SnapshotUuid.key() != SnapshotXattrs::DiscardedSnapshot.key(),
        SnapshotXattrs::SnapshotCreateTime.key() != SnapshotXattrs::DiscardedSnapshot.key(),
        CloneXattrs::SourceUuid.key() != CloneXattrs::CloneUuid.key(),
        CloneXattrs::SourceUuid.key() != CloneXattrs::CloneCreateTime.key(),
        CloneXattrs::CloneUuid.key() != CloneXattrs::CloneCreateTime.key(),
        SnapshotXattrs::TxId.key() != CloneXattrs::SourceUuid.key(),
        SnapshotXattrs::TxId.key() != CloneXattrs::CloneUuid.key(),
        SnapshotXattrs::TxId.key() != CloneXattrs::CloneCreateTime.key(),
        SnapshotXattrs::EntityId.key() != CloneXattrs::SourceUuid.key(),
        SnapshotXattrs::EntityId.key() != CloneXattrs::CloneUuid.key(),
        SnapshotXattrs::EntityId.key() != CloneXattrs::CloneCreateTime.key(),
        SnapshotXattrs::ParentId.key() != CloneXattrs::SourceUuid.key(),
        SnapshotXattrs::ParentId.key() != CloneXattrs::CloneUuid.key(),
        SnapshotXattrs::ParentId.key() != CloneXattrs::CloneCreateTime.key(),
        SnapshotXattrs::SnapshotUuid.key() != CloneXattrs::SourceUuid.key(),
        SnapshotXattrs::SnapshotUuid.key() != CloneXattrs::CloneUuid.key(),
        SnapshotXattrs::SnapshotUuid.key() != CloneXattrs::CloneCreateTime.key(),
        SnapshotXattrs::SnapshotCreateTime.key() != CloneXattrs::SourceUuid.key(),
        SnapshotXattrs::SnapshotCreateTime.key() != CloneXattrs::CloneUuid.key(),
        SnapshotXattrs::SnapshotCreateTime.key() != CloneXattrs::CloneCreateTime.key(),
        SnapshotXattrs::DiscardedSnapshot.key() != CloneXattrs::SourceUuid.key(),
        SnapshotXattrs::DiscardedSnapshot.key() != CloneXattrs::CloneUuid.key(),
        SnapshotXattrs::DiscardedSnapshot.key() != CloneXattrs::CloneCreateTime.key(),
{
    reveal_strlit("org.openebs.mayastor.snapshot.tx_id");
    reveal_strlit("org.openebs.mayastor.snapshot.entity_id");
    reveal_strlit("org.openebs.mayastor.snapshot.parent_id");
    reveal_strlit("org.openebs.mayastor.snapshot.uuid");
    reveal_strlit("org.openebs.mayastor.snapshot.create_time");
    reveal_strlit("org.openebs.mayastor.snapshot.discarded");
    reveal_strlit("org.openebs.mayastor.clone.source_uuid");
    reveal_strlit("org.openebs.mayastor.clone.uuid");
    reveal_strlit("org.openebs.mayastor.clone.create_time");
    assert(SnapshotXattrs::TxId.key().len() == 35);
    assert(SnapshotXattrs::EntityId.key().len() == 39);
    assert(SnapshotXattrs::ParentId.key().len() == 39);
    assert(SnapshotXattrs::SnapshotUuid.key().len() == 34);
    assert(SnapshotXattrs::SnapshotCreateTime.key().len() == 41);
    assert(SnapshotXattrs::DiscardedSnapshot.key().len() == 39);
    assert(CloneXattrs::SourceUuid.key().len() == 38);
    assert(CloneXattrs::CloneUuid.key().len() == 31);
    assert(CloneXattrs::CloneCreateTime.key().len() == 38);
    assert(SnapshotXattrs::EntityId.key()[30] != SnapshotXattrs::ParentId.key()[30]);
    assert(SnapshotXattrs::EntityId.key()[30] != SnapshotXattrs::DiscardedSnapshot.key()[30]);
    assert(SnapshotXattrs::ParentId.key()[30] != SnapshotXattrs::DiscardedSnapshot.key()[30]);
    assert(CloneXattrs::SourceUuid.key()[27] != CloneXattrs::CloneCreateTime.key()[27]);
}

} // verus!

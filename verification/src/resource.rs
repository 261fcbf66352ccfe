//! Type-erased resource table.
//!
//! Handlers stash native values (an opened archive, a raw byte buffer)
//! behind small integer handles instead of serializing them across the
//! host boundary. Handles are allocated from an ever-incrementing 64-bit
//! counter and are never reused within a table's lifetime; an entry stays
//! valid until it is explicitly removed.

use vstd::prelude::*;
use std::collections::HashMap;
use crate::archiver::ByteArchive;

verus! {

broadcast use vstd::std_specs::hash::group_hash_axioms;

/// Handle to a generic stored resource.
#[derive(Clone, Copy, Debug, PartialEq, Eq, Structural)]
pub struct TResource {
    pub id: u64,
}

/// Handle to a stored raw byte buffer.
#[derive(Clone, Copy, Debug, PartialEq, Eq, Structural)]
pub struct TBlobResource {
    pub id: u64,
}

/// A stored native value, tagged by kind. Looking an entry up under the
/// wrong kind yields "not found", exactly as looking up an absent handle
/// does.
pub enum ResourceValue {
    Blob(Vec<u8>),
    Archive(ByteArchive),
}

/// The table of stored resources. It is the sole owner of every stored
/// value; handlers access entries only through it for the duration of a
/// call.
pub struct ResourceManager {
    alloc_id: u64,
    resources: HashMap<u64, ResourceValue>,
}

impl ResourceManager {
    /// The stored entries, keyed by handle id.
    pub closed spec fn table(self) -> Map<u64, ResourceValue> {
        self.resources@
    }

    /// The id the next allocation will use.
    pub closed spec fn next_id(self) -> u64 {
        self.alloc_id
    }

    /// Every allocated id lies below the counter, so a fresh id never
    /// collides with a stored entry.
    pub closed spec fn wf(self) -> bool {
        forall|k: u64| #[trigger] self.resources@.dom().contains(k) ==> k < self.alloc_id
    }

    pub fn new() -> (r: Self)
        ensures
            r.wf(),
            r.table() == Map::<u64, ResourceValue>::empty(),
            r.next_id() == 0,
    {
        ResourceManager { alloc_id: 0, resources: HashMap::new() }
    }

    /// Whether a fresh handle can still be handed out; the counter never
    /// wraps, so an unverified caller tests this before allocating.
    pub fn can_allocate(&self) -> (r: bool)
        ensures
            r == (self.next_id() < u64::MAX),
    {
        self.alloc_id < u64::MAX
    }

    /// Stores a value and returns a fresh generic handle.
    pub fn allocate(&mut self, resource: ResourceValue) -> (r: TResource)
        requires
            old(self).wf(),
            old(self).next_id() < u64::MAX,
        ensures
            final(self).wf(),
            r.id == old(self).next_id(),
            !old(self).table().dom().contains(r.id),
            final(self).table() == old(self).table().insert(r.id, resource),
            final(self).next_id() == old(self).next_id() + 1,
    {
        let id = self.alloc_id;
        self.alloc_id = self.alloc_id + 1;
        self.resources.insert(id, resource);
        TResource { id }
    }

    /// Stores a raw byte buffer and returns a fresh blob handle.
    pub fn allocate_blob(&mut self, resource: Vec<u8>) -> (r: TBlobResource)
        requires
            old(self).wf(),
            old(self).next_id() < u64::MAX,
        ensures
            final(self).wf(),
            r.id == old(self).next_id(),
            !old(self).table().dom().contains(r.id),
            final(self).table() == old(self).table().insert(r.id, ResourceValue::Blob(resource)),
            final(self).next_id() == old(self).next_id() + 1,
    {
        let id = self.alloc_id;
        self.alloc_id = self.alloc_id + 1;
        self.resources.insert(id, ResourceValue::Blob(resource));
        TBlobResource { id }
    }

    /// Looks a handle up; `None` exactly when no entry is stored under it.
    pub fn get(&self, handle: &TResource) -> (r: Option<&ResourceValue>)
        ensures
            match r {
                Some(v) => self.table().dom().contains(handle.id) && *v == self.table()[handle.id],
                None => !self.table().dom().contains(handle.id),
            },
    {
        self.resources.get(&handle.id)
    }

    /// Looks a blob handle up; `None` when the handle is absent or the
    /// stored value is not a byte buffer.
    pub fn get_blob(&self, handle: &TBlobResource) -> (r: Option<&Vec<u8>>)
        ensures
            match r {
                Some(v) => self.table().dom().contains(handle.id) && self.table()[handle.id]
                    == ResourceValue::Blob(*v),
                None => !self.table().dom().contains(handle.id) || !(self.table()[handle.id]
                    is Blob),
            },
    {
        match self.resources.get(&handle.id) {
            Some(ResourceValue::Blob(b)) => Some(b),
            _ => None,
        }
    }

    /// Takes the entry out of the table for exclusive use; the caller is
    /// expected to `restore` it under the same handle when done. This
    /// realizes the table's one-mutable-borrow-at-a-time discipline.
    pub fn take(&mut self, handle: &TResource) -> (r: Option<ResourceValue>)
        ensures
            final(self).table() == old(self).table().remove(handle.id),
            final(self).next_id() == old(self).next_id(),
            old(self).wf() ==> final(self).wf(),
            match r {
                Some(v) => old(self).table().dom().contains(handle.id) && v == old(
                    self,
                ).table()[handle.id],
                None => !old(self).table().dom().contains(handle.id),
            },
            old(self).wf() && r is Some ==> handle.id < old(self).next_id(),
    {
        self.resources.remove(&handle.id)
    }

    /// Puts a value taken with `take` back under its handle.
    pub fn restore(&mut self, handle: &TResource, resource: ResourceValue)
        requires
            old(self).wf(),
            handle.id < old(self).next_id(),
        ensures
            final(self).wf(),
            final(self).table() == old(self).table().insert(handle.id, resource),
            final(self).next_id() == old(self).next_id(),
    {
        self.resources.insert(handle.id, resource);
    }

    /// Deletes the entry if present; idempotent, no error if already
    /// absent.
    pub fn remove(&mut self, handle: &TResource)
        ensures
            final(self).table() == old(self).table().remove(handle.id),
            final(self).next_id() == old(self).next_id(),
            old(self).wf() ==> final(self).wf(),
    {
        self.resources.remove(&handle.id);
    }
}

/// Removing a handle is idempotent: once an entry is gone, removing it
/// again leaves the table unchanged.
pub proof fn lemma_remove_idempotent(t: Map<u64, ResourceValue>, id: u64)
    ensures
        t.remove(id).remove(id) == t.remove(id),
{
    assert(t.remove(id).remove(id) =~= t.remove(id));
}

/// A handle allocated under `id` refers to the stored value, other entries
/// are untouched, and after removal the handle is gone again.
pub proof fn lemma_handle_lifecycle(t: Map<u64, ResourceValue>, id: u64, v: ResourceValue)
    requires
        !t.dom().contains(id),
    ensures
        t.insert(id, v)[id] == v,
        t.insert(id, v).dom().contains(id),
        forall|k: u64| k != id ==> t.insert(id, v).dom().contains(k) == t.dom().contains(k),
        forall|k: u64| t.dom().contains(k) && k != id ==> t.insert(id, v)[k] == t[k],
        !t.insert(id, v).remove(id).dom().contains(id),
        t.insert(id, v).remove(id) == t,
{
    assert(t.insert(id, v).remove(id) =~= t);
}

} // verus!

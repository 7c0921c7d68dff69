//! Identifiers of entities: the slice that stores an entity's type, and the
//! entity's key inside that slice.
use crate::type_map::TypeKey;
use vstd::prelude::*;

verus! {

/// Identifies the slice that stores the entities of one type.
#[derive(Debug, Copy, Clone)]
pub struct SliceId(u32);

impl SliceId {
    /// The slice's number.
    pub closed spec fn value(&self) -> u32 {
        self.0
    }

    /// The slice stored under `key`; the key's index is truncated to 32 bits.
    pub fn from_key<V>(key: TypeKey<V>) -> (id: Self)
        ensures
            id.value() == key.index_spec() as u32,
    {
        SliceId(key.index() as u32)
    }

    /// The slice's position in its store.
    pub fn index(self) -> (index: usize)
        ensures
            index == self.value(),
    {
        self.0 as usize
    }
}

/// Identifies one entity: its slice and its key inside the slice.
#[derive(Debug, Copy, Clone)]
pub struct EntityId {
    slice_id: SliceId,
    key: u64,
}

impl EntityId {
    /// The slice of the entity.
    pub closed spec fn slice(&self) -> SliceId {
        self.slice_id
    }

    /// The entity's key inside its slice, as raw data.
    pub closed spec fn key(&self) -> u64 {
        self.key
    }

    /// The entity stored under `key` in the slice `slice_id`.
    pub fn new(slice_id: SliceId, key: u64) -> (id: Self)
        ensures
            id.slice() == slice_id,
            id.key() == key,
    {
        EntityId { slice_id, key }
    }

    /// Returns the slice of the entity.
    pub fn slice_id(&self) -> (slice_id: SliceId)
        ensures
            slice_id == self.slice(),
    {
        self.slice_id
    }

    /// Returns the entity's key inside its slice, as raw data.
    pub fn key_data(&self) -> (key: u64)
        ensures
            key == self.key(),
    {
        self.key
    }
}

} // verus!

//! A small map that stores one value per Rust type.
//!
//! Values are stored densely in a vector, next to the vector of the type ids
//! they belong to. Once a type is inserted, its [`TypeKey`] stays stable even
//! if later inserts add more entries or replace the value for that same type.
use std::any::TypeId;
use std::marker::PhantomData;
use vstd::prelude::*;
use vstd::std_specs::cmp::PartialEqSpecImpl;
use vstd::std_specs::convert::FromSpecImpl;

verus! {

/// Opaque identity of a Rust type.
#[verifier::external_type_specification]
#[verifier::external_body]
pub struct ExTypeId(TypeId);

/// `TypeId::of::<T>()`: the identity of type `T`.  Nothing is stated about
/// the value; the maps below only compare ids for equality.
#[verifier::external_body]
pub(crate) fn type_id_of<T: ?Sized + 'static>() -> TypeId {
    TypeId::of::<T>()
}

/// `TypeId == TypeId`: two ids compare equal exactly when they are the same
/// value (they then denote the same type).
#[verifier::external_body]
fn same_type_id(a: &TypeId, b: &TypeId) -> (same: bool)
    ensures
        same == (*a == *b),
{
    *a == *b
}

/// A stable key for a value stored inside a [`TypeMap`].
///
/// The key is parameterized by the mapped value type so keys from unrelated
/// maps cannot be mixed accidentally.
#[derive(Debug)]
pub struct TypeKey<V> {
    key: usize,
    _phantom: PhantomData<V>,
}

impl<V> Copy for TypeKey<V> {}

impl<V> Clone for TypeKey<V> {
    fn clone(&self) -> (key: Self)
        ensures
            key == *self,
    {
        *self
    }
}

impl<V> PartialEq for TypeKey<V> {
    fn eq(&self, other: &Self) -> (r: bool) {
        self.key == other.key
    }
}

impl<V> PartialEqSpecImpl for TypeKey<V> {
    open spec fn obeys_eq_spec() -> bool {
        true
    }

    open spec fn eq_spec(&self, other: &Self) -> bool {
        self.index_spec() == other.index_spec()
    }
}

impl<V> Eq for TypeKey<V> {}

impl<V> From<usize> for TypeKey<V> {
    fn from(value: usize) -> (key: Self) {
        TypeKey::from_index(value)
    }
}

impl<V> From<TypeKey<V>> for usize {
    fn from(key: TypeKey<V>) -> (index: usize) {
        key.key
    }
}

impl<V> FromSpecImpl<TypeKey<V>> for usize {
    open spec fn obeys_from_spec() -> bool {
        true
    }

    open spec fn from_spec(key: TypeKey<V>) -> usize {
        key.index_spec()
    }
}

impl<V> FromSpecImpl<usize> for TypeKey<V> {
    open spec fn obeys_from_spec() -> bool {
        true
    }

    open spec fn from_spec(v: usize) -> Self {
        Self::index_key(v)
    }
}

impl<V> TypeKey<V> {
    /// The key's index inside the backing storage.
    pub closed spec fn index_spec(&self) -> usize {
        self.key
    }

    /// The key for index `index`.
    pub closed spec fn index_key(index: usize) -> Self {
        TypeKey { key: index, _phantom: PhantomData }
    }

    /// The key for an index has that index.
    pub broadcast proof fn lemma_index_key(index: usize)
        ensures
            #[trigger] Self::index_key(index).index_spec() == index,
    {
    }

    /// Creates the key for an index in the backing storage.
    pub fn from_index(key: usize) -> (k: Self)
        ensures
            k == Self::index_key(key),
    {
        TypeKey { key, _phantom: PhantomData }
    }

    /// Returns the key's raw index inside the backing storage.
    ///
    /// This is mainly useful for debugging and tests.
    pub fn index(&self) -> (index: usize)
        ensures
            index == self.index_spec(),
    {
        self.key
    }

    /// Renders the key as its index in decimal.
    pub fn to_string(&self) -> (text: String)
        ensures
            text@ == crate::text::decimal(self.index_spec() as nat),
    {
        let mut text = String::new();
        crate::text::push_decimal(&mut text, self.key);
        text
    }
}

/// Stores at most one value for each concrete `'static` type.
pub struct TypeMap<V> {
    entries: Vec<V>,
    /// `type_ids[i]` is the type whose value is `entries[i]`
    type_ids: Vec<TypeId>,
}

impl<V> Default for TypeMap<V> {
    fn default() -> (map: Self)
        ensures
            map.entries() == Seq::<V>::empty(),
            map.type_ids() == Seq::<TypeId>::empty(),
    {
        TypeMap::new()
    }
}

/// The position of `id` in `ids`, when it occurs there.
pub open spec fn slot_of(ids: Seq<TypeId>, id: TypeId) -> int {
    choose|i: int| 0 <= i < ids.len() && ids[i] == id
}

impl<V> TypeMap<V> {
    /// The stored values, in insertion order of their types.
    pub closed spec fn entries(&self) -> Seq<V> {
        self.entries@
    }

    /// The type id that each stored value belongs to.
    pub closed spec fn type_ids(&self) -> Seq<TypeId> {
        self.type_ids@
    }

    /// One type id per entry, and no type id twice.
    pub open spec fn wf(&self) -> bool {
        &&& self.type_ids().len() == self.entries().len()
        &&& self.type_ids().no_duplicates()
    }

    /// Every map keeps one type id per entry and no type id twice.
    #[verifier::type_invariant]
    pub open spec fn well_formed(&self) -> bool {
        self.wf()
    }

    /// A value is stored for `id`.
    pub open spec fn contains_id(&self, id: TypeId) -> bool {
        self.type_ids().contains(id)
    }

    /// The index at which the value for `id` is stored.
    pub open spec fn slot(&self, id: TypeId) -> int {
        slot_of(self.type_ids(), id)
    }

    /// What looking up `id` gives.
    pub open spec fn lookup(&self, id: TypeId) -> Option<V> {
        if self.contains_id(id) {
            Some(self.entries()[self.slot(id)])
        } else {
            None
        }
    }

    /// This map is `before` with `value` stored for `id`, and `key` is the
    /// key of that value: the value replaces the one stored for `id`, or is
    /// appended when `id` had none.
    pub open spec fn inserted(&self, before: Self, id: TypeId, value: V, key: TypeKey<V>) -> bool {
        if before.contains_id(id) {
            &&& key.index_spec() == before.slot(id)
            &&& self.type_ids() == before.type_ids()
            &&& self.entries() == before.entries().update(before.slot(id), value)
        } else {
            &&& key.index_spec() == before.entries().len()
            &&& self.type_ids() == before.type_ids().push(id)
            &&& self.entries() == before.entries().push(value)
        }
    }

    /// Creates an empty type map.
    pub fn new() -> (map: Self)
        ensures
            map.entries() == Seq::<V>::empty(),
            map.type_ids() == Seq::<TypeId>::empty(),
    {
        TypeMap { entries: Vec::new(), type_ids: Vec::new() }
    }

    /// Returns the number of distinct types stored in the map.
    pub fn len(&self) -> (len: usize)
        ensures
            len == self.entries().len(),
    {
        self.entries.len()
    }

    /// Returns `true` when the map contains no entries.
    pub fn is_empty(&self) -> (empty: bool)
        ensures
            empty == (self.entries().len() == 0),
    {
        self.entries.len() == 0
    }

    /// Finds the index that holds the value for `id`.
    fn find(&self, id: &TypeId) -> (index: Option<usize>)
        ensures
            match index {
                Some(i) => self.contains_id(*id) && i == self.slot(*id) && i < self.entries().len(),
                None => !self.contains_id(*id),
            },
    {
        proof {
            use_type_invariant(self);
        }
        let mut i: usize = 0;
        while i < self.type_ids.len()
            invariant
                self.wf(),
                i <= self.type_ids@.len(),
                forall|j: int| 0 <= j < i ==> self.type_ids@[j] != *id,
            decreases self.type_ids@.len() - i,
        {
            if same_type_id(&self.type_ids[i], id) {
                proof {
                    assert(self.type_ids@[i as int] == *id);
                    let s = slot_of(self.type_ids@, *id);
                    assert(0 <= s < self.type_ids@.len() && self.type_ids@[s] == *id);
                }
                return Some(i);
            }
            i = i + 1;
        }
        None
    }

    /// Returns `true` if a value has been stored for `id`.
    pub fn contains_by_id(&self, id: &TypeId) -> (found: bool)
        ensures
            found == self.contains_id(*id),
    {
        self.find(id).is_some()
    }

    /// Returns the stable key for `id` if that type is present in the map.
    pub fn key_by_id(&self, id: &TypeId) -> (key: Option<TypeKey<V>>)
        ensures
            match key {
                Some(k) => self.contains_id(*id) && k.index_spec() == self.slot(*id),
                None => !self.contains_id(*id),
            },
    {
        match self.find(id) {
            Some(index) => Some(TypeKey::from_index(index)),
            None => None,
        }
    }

    /// Inserts a value for the type `id`.
    ///
    /// If the type is already present, the existing value is replaced and its
    /// stable key is returned unchanged; otherwise the value is appended.
    pub fn insert_by_id(&mut self, id: TypeId, value: V) -> (key: TypeKey<V>)
        ensures
            final(self).inserted(*old(self), id, value, key),
    {
        let found = self.find(&id);
        let mut taken = TypeMap::new();
        std::mem::swap(self, &mut taken);
        proof {
            use_type_invariant(&taken);
        }
        let TypeMap { mut entries, mut type_ids } = taken;
        let ghost before_ids = type_ids@;
        match found {
            Some(index) => {
                entries.set(index, value);
                *self = TypeMap { entries, type_ids };
                TypeKey::from_index(index)
            },
            None => {
                let index = entries.len();
                entries.push(value);
                type_ids.push(id);
                proof {
                    assert forall|a: int, b: int|
                        0 <= a < type_ids@.len() && 0 <= b < type_ids@.len() && a != b
                        implies type_ids@[a] != type_ids@[b] by {
                        if b == index as int {
                            assert(before_ids.contains(type_ids@[a]));
                        } else if a == index as int {
                            assert(before_ids.contains(type_ids@[b]));
                        }
                    }
                }
                *self = TypeMap { entries, type_ids };
                TypeKey::from_index(index)
            },
        }
    }

    /// Returns the value stored for `id`.
    pub fn get_by_id(&self, id: &TypeId) -> (value: Option<&V>)
        ensures
            match value {
                Some(v) => self.lookup(*id) == Some(*v),
                None => self.lookup(*id) is None,
            },
    {
        match self.find(id) {
            Some(index) => Some(&self.entries[index]),
            None => None,
        }
    }

    /// Returns the mutable value stored for `id`.
    pub fn get_mut_by_id(&mut self, id: &TypeId) -> (value: Option<&mut V>)
        ensures
            final(self).type_ids() == old(self).type_ids(),
            match value {
                Some(v) => final(self).got_mut(*old(self), *id, Some(*v), *final(v)),
                None => final(self).got_mut(*old(self), *id, None, arbitrary()),
            },
    {
        proof {
            use_type_invariant(&*self);
        }
        match self.find(id) {
            Some(index) => Some(&mut self.entries[index]),
            None => None,
        }
    }

    /// Returns the mutable value stored at `key`.
    pub fn get_by_key_mut(&mut self, key: TypeKey<V>) -> (value: Option<&mut V>)
        ensures
            final(self).type_ids() == old(self).type_ids(),
            match value {
                Some(v) => {
                    &&& key.index_spec() < old(self).entries().len()
                    &&& *v == old(self).entries()[key.index_spec() as int]
                    &&& final(self).entries() == old(self).entries().update(key.index_spec() as int, *final(v))
                },
                None => key.index_spec() >= old(self).entries().len() && final(self).entries() == old(self).entries(),
            },
    {
        proof {
            use_type_invariant(&*self);
        }
        if key.key < self.entries.len() {
            Some(&mut self.entries[key.key])
        } else {
            None
        }
    }

    /// Stores `value` for `id` and returns its key and mutable access to it.
    fn insert_with_key(&mut self, id: TypeId, value: V) -> (inserted: (TypeKey<V>, &mut V))
        ensures
            *inserted.1 == value,
            final(self).type_ids() == old(self).type_ids() || final(self).type_ids() == old(self).type_ids().push(id),
            old(self).contains_id(id) ==> {
                &&& inserted.0.index_spec() == old(self).slot(id)
                &&& final(self).type_ids() == old(self).type_ids()
                &&& final(self).entries() == old(self).entries().update(old(self).slot(id), *final(inserted.1))
            },
            !old(self).contains_id(id) ==> {
                &&& inserted.0.index_spec() == old(self).entries().len()
                &&& final(self).type_ids() == old(self).type_ids().push(id)
                &&& final(self).entries() == old(self).entries().push(*final(inserted.1))
            },
    {
        proof {
            use_type_invariant(&*self);
        }
        let ghost stored = value;
        let key = self.insert_by_id(id, value);
        proof {
            use_type_invariant(&*self);
            law_insert_then_lookup(*old(self), *self, id, stored, key);
        }
        let index = key.key;
        (key, &mut self.entries[index])
    }

    /// Returns the value stored at `key`.
    pub fn get_by_key(&self, key: TypeKey<V>) -> (value: Option<&V>)
        ensures
            match value {
                Some(v) => key.index_spec() < self.entries().len() && *v == self.entries()[key.index_spec() as int],
                None => key.index_spec() >= self.entries().len(),
            },
    {
        if key.key < self.entries.len() {
            Some(&self.entries[key.key])
        } else {
            None
        }
    }
}

impl<V: Default> TypeMap<V> {
    /// This map is `before` after looking up or default-inserting the value
    /// for `id`: an existing value was kept (`current` is it, `updated` what
    /// the caller left in its place), else a new value `current`, which
    /// `V::default()` gave, was appended for `id`.  `key` is the value's key.
    pub open spec fn got_or_inserted(
        &self,
        before: Self,
        id: TypeId,
        key: TypeKey<V>,
        current: V,
        updated: V,
    ) -> bool {
        if before.contains_id(id) {
            &&& key.index_spec() == before.slot(id)
            &&& current == before.entries()[before.slot(id)]
            &&& self.type_ids() == before.type_ids()
            &&& self.entries() == before.entries().update(before.slot(id), updated)
        } else {
            &&& key.index_spec() == before.entries().len()
            &&& call_ensures(V::default, (), current)
            &&& self.type_ids() == before.type_ids().push(id)
            &&& self.entries() == before.entries().push(updated)
        }
    }

}

impl<V: Default> TypeMap<V> {
    /// Returns the stable key and mutable value for `id`, inserting
    /// `V::default()` if needed.
    pub fn get_or_insert_default_with_key_mut_by_id(&mut self, id: TypeId) -> (entry: (TypeKey<V>, &mut V))
        ensures
            final(self).got_or_inserted(*old(self), id, entry.0, *entry.1, *final(entry.1)),
    {
        proof {
            use_type_invariant(&*self);
        }
        match self.find(&id) {
            Some(index) => (TypeKey::from_index(index), &mut self.entries[index]),
            None => {
                let value = V::default();
                self.insert_with_key(id, value)
            },
        }
    }

    /// Returns the stable key and mutable value for `T`, inserting
    /// `V::default()` if needed.
    pub fn get_or_insert_default_with_key_mut<T: 'static>(&mut self) -> (entry: (TypeKey<V>, &mut V))
        ensures
            exists|id: TypeId|
                #[trigger] final(self).got_or_inserted(*old(self), id, entry.0, *entry.1, *final(entry.1)),
    {
        let id = type_id_of::<T>();
        let entry = self.get_or_insert_default_with_key_mut_by_id(id);
        entry
    }

    /// Returns the stable key and value for `T`, inserting `V::default()` if needed.
    pub fn get_or_insert_default_with_key<T: 'static>(&mut self) -> (entry: (TypeKey<V>, &V))
        ensures
            exists|id: TypeId|
                #[trigger] final(self).got_or_inserted(*old(self), id, entry.0, *entry.1, *entry.1),
    {
        proof {
            use_type_invariant(&*self);
        }
        let id = type_id_of::<T>();
        let (key, _) = self.get_or_insert_default_with_key_mut_by_id(id);
        proof {
            use_type_invariant(&*self);
        }
        let value = &self.entries[key.key];
        let entry = (key, value);
        assert(final(self).got_or_inserted(*old(self), id, entry.0, *entry.1, *entry.1));
        entry
    }

    /// Returns the value stored for `T`, inserting `V::default()` if needed.
    pub fn get_or_insert_default<T: 'static>(&mut self) -> (value: &V)
        ensures
            exists|id: TypeId, key: TypeKey<V>|
                #[trigger] final(self).got_or_inserted(*old(self), id, key, *value, *value),
    {
        proof {
            use_type_invariant(&*self);
        }
        let id = type_id_of::<T>();
        let (key, _) = self.get_or_insert_default_with_key_mut_by_id(id);
        proof {
            use_type_invariant(&*self);
        }
        &self.entries[key.key]
    }

    /// Returns the mutable value stored for `T`, inserting `V::default()` if needed.
    pub fn get_or_insert_default_mut<T: 'static>(&mut self) -> (value: &mut V)
        ensures
            exists|id: TypeId, key: TypeKey<V>|
                #[trigger] final(self).got_or_inserted(*old(self), id, key, *value, *final(value)),
    {
        let id = type_id_of::<T>();
        let (key, value) = self.get_or_insert_default_with_key_mut_by_id(id);
        value
    }
}

impl<V> TypeMap<V> {
    /// Returns `true` if a value has been stored for `T`.
    pub fn contains<T: 'static>(&self) -> (found: bool)
        ensures
            exists|id: TypeId| found == self.contains_id(id),
    {
        let id = type_id_of::<T>();
        self.contains_by_id(&id)
    }

    /// Returns the stable key for `T` if the type is present in the map.
    pub fn key<T: 'static>(&self) -> (key: Option<TypeKey<V>>)
        ensures
            exists|id: TypeId|
                match key {
                    Some(k) => self.contains_id(id) && k.index_spec() == self.slot(id),
                    None => !self.contains_id(id),
                },
    {
        let id = type_id_of::<T>();
        self.key_by_id(&id)
    }

    /// Inserts a value for `T`.
    ///
    /// If `T` is already present, the existing value is replaced and its
    /// stable key is returned unchanged.
    pub fn insert<T: 'static>(&mut self, value: V) -> (key: TypeKey<V>)
        ensures
            exists|id: TypeId| #[trigger] final(self).inserted(*old(self), id, value, key),
    {
        let id = type_id_of::<T>();
        let key = self.insert_by_id(id, value);
        assert(final(self).inserted(*old(self), id, value, key));
        key
    }

    /// Returns the mutable value stored for `T`.
    pub fn get_mut<T: 'static>(&mut self) -> (value: Option<&mut V>)
        ensures
            final(self).type_ids() == old(self).type_ids(),
            match value {
                Some(v) => exists|id: TypeId| #[trigger] final(self).got_mut(*old(self), id, Some(*v), *final(v)),
                None => exists|id: TypeId| #[trigger] final(self).got_mut(*old(self), id, None, arbitrary()),
            },
    {
        let id = type_id_of::<T>();
        let value = self.get_mut_by_id(&id);
        value
    }

    /// This map is `before` after handing out mutable access to the value for
    /// `id`: `value` is that access (holding the stored value), `updated` what
    /// the caller left behind; `None` when no value was stored.
    pub open spec fn got_mut(&self, before: Self, id: TypeId, value: Option<V>, updated: V) -> bool {
        match value {
            Some(v) => {
                &&& before.lookup(id) == Some(v)
                &&& self.entries() == before.entries().update(before.slot(id), updated)
            },
            None => before.lookup(id) is None && self.entries() == before.entries(),
        }
    }

    /// Returns the value stored for `T`.
    pub fn get<T: 'static>(&self) -> (value: Option<&V>)
        ensures
            exists|id: TypeId|
                match value {
                    Some(v) => self.lookup(id) == Some(*v),
                    None => self.lookup(id) is None,
                },
    {
        let id = type_id_of::<T>();
        self.get_by_id(&id)
    }
}

/// The slot of an id is the one position that holds it.
pub proof fn lemma_slot_unique(ids: Seq<TypeId>, id: TypeId, i: int)
    requires
        ids.no_duplicates(),
        0 <= i < ids.len(),
        ids[i] == id,
    ensures
        slot_of(ids, id) == i,
{
    let s = slot_of(ids, id);
    assert(0 <= s < ids.len() && ids[s] == id);
}

/// Inserting into a well-formed map gives a well-formed map.
pub proof fn lemma_inserted_wf<V>(before: TypeMap<V>, after: TypeMap<V>, id: TypeId, value: V, key: TypeKey<V>)
    requires
        before.wf(),
        after.inserted(before, id, value, key),
    ensures
        after.wf(),
{
    if !before.contains_id(id) {
        let ids = after.type_ids();
        assert forall|a: int, b: int| 0 <= a < ids.len() && 0 <= b < ids.len() && a != b implies ids[a]
            != ids[b] by {
            if a == before.type_ids().len() {
                assert(before.type_ids().contains(ids[b]));
            } else if b == before.type_ids().len() {
                assert(before.type_ids().contains(ids[a]));
            }
        }
    }
}

/// After a value is inserted for a type, looking the type up gives that
/// value, and the returned key is the type's slot.
pub proof fn law_insert_then_lookup<V>(before: TypeMap<V>, after: TypeMap<V>, id: TypeId, value: V, key: TypeKey<V>)
    requires
        before.wf(),
        after.inserted(before, id, value, key),
    ensures
        after.wf(),
        after.lookup(id) == Some(value),
        after.slot(id) == key.index_spec(),
        after.entries()[key.index_spec() as int] == value,
{
    lemma_inserted_wf(before, after, id, value, key);
    let k = key.index_spec() as int;
    if before.contains_id(id) {
        let s = before.slot(id);
        assert(0 <= s < before.type_ids().len() && before.type_ids()[s] == id);
    } else {
        assert(after.type_ids()[k] == id);
    }
    assert(after.contains_id(id));
    lemma_slot_unique(after.type_ids(), id, k);
}

/// Inserting again for the same type keeps the key: a type's key is
/// stable.
pub proof fn law_reinsert_keeps_key<V>(
    first: TypeMap<V>,
    second: TypeMap<V>,
    third: TypeMap<V>,
    id: TypeId,
    value: V,
    replacement: V,
    key: TypeKey<V>,
    again: TypeKey<V>,
)
    requires
        first.wf(),
        second.inserted(first, id, value, key),
        third.inserted(second, id, replacement, again),
    ensures
        again.index_spec() == key.index_spec(),
        third.type_ids() == second.type_ids(),
        third.lookup(id) == Some(replacement),
{
    law_insert_then_lookup(first, second, id, value, key);
    law_insert_then_lookup(second, third, id, replacement, again);
}

/// Inserting for one type leaves the value and the key of every other
/// type as they were.
pub proof fn law_insert_keeps_others<V>(
    before: TypeMap<V>,
    after: TypeMap<V>,
    id: TypeId,
    value: V,
    key: TypeKey<V>,
    other: TypeId,
)
    requires
        before.wf(),
        after.inserted(before, id, value, key),
        other != id,
    ensures
        after.lookup(other) == before.lookup(other),
        before.contains_id(other) ==> after.slot(other) == before.slot(other),
{
    lemma_inserted_wf(before, after, id, value, key);
    if before.contains_id(other) {
        let s = before.slot(other);
        assert(0 <= s < before.type_ids().len() && before.type_ids()[s] == other);
        assert(after.type_ids()[s] == other);
        assert(after.contains_id(other));
        lemma_slot_unique(after.type_ids(), other, s);
        if before.contains_id(id) {
            let t = before.slot(id);
            assert(0 <= t < before.type_ids().len() && before.type_ids()[t] == id);
            assert(t != s);
        }
    } else {
        if after.contains_id(other) {
            let i = choose|i: int| 0 <= i < after.type_ids().len() && after.type_ids()[i] == other;
            if i < before.type_ids().len() {
                assert(before.type_ids()[i] == other);
            }
        }
    }
}

/// In a well-formed map every stored type has a slot below the length that
/// holds it, every slot below the length belongs to the type stored there,
/// and distinct stored types have distinct slots: the keys are dense.
pub proof fn law_slots_are_dense<V>(map: TypeMap<V>)
    requires
        map.wf(),
    ensures
        forall|id: TypeId|
            #[trigger] map.contains_id(id) ==> 0 <= map.slot(id) < map.entries().len() && map.type_ids()[map.slot(id)]
                == id,
        forall|i: int|
            0 <= i < map.entries().len() ==> map.contains_id(#[trigger] map.type_ids()[i]) && map.slot(
                map.type_ids()[i],
            ) == i,
        forall|a: TypeId, b: TypeId|
            #[trigger] map.contains_id(a) && #[trigger] map.contains_id(b) && a != b ==> map.slot(a) != map.slot(b),
{
    assert forall|id: TypeId| #[trigger] map.contains_id(id) implies 0 <= map.slot(id) < map.entries().len()
        && map.type_ids()[map.slot(id)] == id by {
        let s = map.slot(id);
        assert(0 <= s < map.type_ids().len() && map.type_ids()[s] == id);
    }
    assert forall|i: int| 0 <= i < map.entries().len() implies map.contains_id(#[trigger] map.type_ids()[i])
        && map.slot(map.type_ids()[i]) == i by {
        assert(map.type_ids().contains(map.type_ids()[i]));
        lemma_slot_unique(map.type_ids(), map.type_ids()[i], i);
    }
}

/// Across any sequence of inserts, a type keeps the key it had, and every
/// key an insert returned keeps naming the type it was returned for.
pub proof fn law_keys_survive_inserts<V>(
    maps: Seq<TypeMap<V>>,
    ids: Seq<TypeId>,
    values: Seq<V>,
    keys: Seq<TypeKey<V>>,
)
    requires
        maps.len() == ids.len() + 1,
        values.len() == ids.len(),
        keys.len() == ids.len(),
        maps[0].wf(),
        forall|i: int| 0 <= i < ids.len() ==> #[trigger] maps[i + 1].inserted(maps[i], ids[i], values[i], keys[i]),
    ensures
        maps[ids.len() as int].wf(),
        forall|id: TypeId|
            #[trigger] maps[0].contains_id(id) ==> maps[ids.len() as int].contains_id(id) && maps[ids.len() as int].slot(
                id,
            ) == maps[0].slot(id),
        forall|i: int|
            0 <= i < ids.len() ==> maps[ids.len() as int].contains_id(#[trigger] ids[i]) && maps[ids.len() as int].slot(
                ids[i],
            ) == keys[i].index_spec(),
    decreases ids.len(),
{
    if ids.len() > 0 {
        let n = ids.len() - 1;
        let earlier = maps.subrange(0, n + 1);
        assert forall|i: int| 0 <= i < n implies #[trigger] earlier[i + 1].inserted(
            earlier[i],
            ids.subrange(0, n)[i],
            values.subrange(0, n)[i],
            keys.subrange(0, n)[i],
        ) by {
            assert(maps[i + 1].inserted(maps[i], ids[i], values[i], keys[i]));
        }
        law_keys_survive_inserts(earlier, ids.subrange(0, n), values.subrange(0, n), keys.subrange(0, n));
        let prev = maps[n];
        let last = maps[n + 1];
        assert(earlier[n] == prev);
        assert(earlier[0] == maps[0]);
        assert(last.inserted(prev, ids[n], values[n], keys[n]));
        law_insert_then_lookup(prev, last, ids[n], values[n], keys[n]);
        assert forall|id: TypeId| #[trigger] maps[0].contains_id(id) implies last.contains_id(id) && last.slot(id)
            == maps[0].slot(id) by {
            assert(earlier[0].contains_id(id));
            assert(prev.contains_id(id) && prev.slot(id) == maps[0].slot(id));
            if id != ids[n] {
                law_insert_keeps_others(prev, last, ids[n], values[n], keys[n], id);
                assert(last.lookup(id) == prev.lookup(id));
            } else {
                assert(last.slot(id) == prev.slot(id));
            }
        }
        assert forall|i: int| 0 <= i < ids.len() implies last.contains_id(#[trigger] ids[i]) && last.slot(ids[i])
            == keys[i].index_spec() by {
            if i < n {
                assert(ids.subrange(0, n)[i] == ids[i]);
                assert(keys.subrange(0, n)[i] == keys[i]);
                assert(prev.contains_id(ids[i]) && prev.slot(ids[i]) == keys[i].index_spec());
                if ids[i] != ids[n] {
                    law_insert_keeps_others(prev, last, ids[n], values[n], keys[n], ids[i]);
                    assert(last.lookup(ids[i]) == prev.lookup(ids[i]));
                } else {
                    assert(last.slot(ids[i]) == prev.slot(ids[i]));
                }
            }
        }
    }
}

} // verus!

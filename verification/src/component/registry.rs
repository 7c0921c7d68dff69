//! The registry of component kinds, one entry per component type.
use crate::component::Component;
use crate::error::{ErrorKindView, PixuiError, PixuiErrorView, root_error};
use crate::text::{decimal, push_decimal};
use crate::type_map::{TypeKey, TypeMap, type_id_of};
use std::any::TypeId;
use vstd::prelude::*;
use vstd::string::StringExecFns;

verus! {

/// Identifies a registered component kind.
#[derive(Debug, Copy, Clone)]
pub struct ComponentId(usize);

impl ComponentId {
    /// The position of the component kind in its registry.
    pub closed spec fn index_spec(&self) -> usize {
        self.0
    }

    /// The id for a position in the registry.
    pub fn from_index(index: usize) -> (id: Self)
        ensures
            id.index_spec() == index,
    {
        ComponentId(index)
    }

    /// The position of the component kind in its registry.
    pub fn index(&self) -> (index: usize)
        ensures
            index == self.index_spec(),
    {
        self.0
    }
}

/// What the registry keeps for a component kind.
pub struct ComponentHolder {}

/// The error for an id that no registered component kind has.
pub open spec fn no_such_component(index: usize) -> PixuiErrorView {
    root_error(ErrorKindView::Message("no such component: "@ + decimal(index as nat)), None)
}

/// The registered component kinds.
pub struct ComponentRegistry {
    components: TypeMap<ComponentHolder>,
}

impl ComponentRegistry {
    /// The type of each registered component kind, in order of first
    /// registration; a kind's position is its id.
    pub closed spec fn type_ids(&self) -> Seq<TypeId> {
        self.components.type_ids()
    }

    /// This registry is `before` with the kind of type `type_id`
    /// registered, and `id` is that kind's id: the one it had, or the next
    /// position.
    pub open spec fn registered(&self, before: Self, type_id: TypeId, id: ComponentId) -> bool {
        if before.type_ids().contains(type_id) {
            &&& self.type_ids() == before.type_ids()
            &&& before.type_ids()[id.index_spec() as int] == type_id
            &&& id.index_spec() < before.type_ids().len()
        } else {
            &&& self.type_ids() == before.type_ids().push(type_id)
            &&& id.index_spec() == before.type_ids().len()
        }
    }

    /// Creates an empty registry.
    pub fn new() -> (registry: Self)
        ensures
            registry.type_ids() == Seq::<TypeId>::empty(),
    {
        ComponentRegistry { components: TypeMap::new() }
    }

    /// Registers the component kind of type `type_id`; registering a type
    /// again keeps its id.
    pub fn register_type_id(&mut self, type_id: TypeId) -> (id: ComponentId)
        ensures
            final(self).registered(*old(self), type_id, id),
    {
        let mut components = TypeMap::new();
        std::mem::swap(&mut components, &mut self.components);
        let ghost before = components;
        proof {
            use_type_invariant(&components);
        }
        let key = components.insert_by_id(type_id, ComponentHolder {});
        proof {
            if before.contains_id(type_id) {
                let i = choose|i: int| 0 <= i < before.type_ids().len() && before.type_ids()[i] == type_id;
                assert(before.type_ids()[i] == type_id);
            }
        }
        self.components = components;
        ComponentId::from_index(key.index())
    }

    /// Registers the component kind `C`; registering a kind again keeps
    /// its id.
    pub fn register<C: Component + 'static>(&mut self) -> (id: ComponentId)
        ensures
            exists|type_id: TypeId| #[trigger] final(self).registered(*old(self), type_id, id),
    {
        let type_id = type_id_of::<C>();
        let id = self.register_type_id(type_id);
        assert(final(self).registered(*old(self), type_id, id));
        id
    }

    /// The entry of the component kind `id`.
    pub fn get(&self, id: ComponentId) -> (holder: Result<&ComponentHolder, PixuiError>)
        ensures
            holder is Ok <==> id.index_spec() < self.type_ids().len(),
            holder matches Err(error) ==> error@ == no_such_component(id.index_spec()),
    {
        proof {
            use_type_invariant(&self.components);
            TypeKey::<ComponentHolder>::lemma_index_key(id.0);
        }
        match self.components.get_by_key(TypeKey::from_index(id.0)) {
            Some(holder) => Ok(holder),
            None => {
                let mut message = String::from_str("no such component: ");
                push_decimal(&mut message, id.0);
                Err(PixuiError::message_string(message))
            },
        }
    }
}

impl Default for ComponentRegistry {
    fn default() -> (registry: Self)
        ensures
            registry.type_ids() == Seq::<TypeId>::empty(),
    {
        ComponentRegistry::new()
    }
}

/// A registered component kind has a valid id, under which its type is
/// stored, so [`ComponentRegistry::get`] finds it.
pub proof fn law_registered_id_is_found(
    before: ComponentRegistry,
    after: ComponentRegistry,
    type_id: TypeId,
    id: ComponentId,
)
    requires
        after.registered(before, type_id, id),
    ensures
        id.index_spec() < after.type_ids().len(),
        after.type_ids()[id.index_spec() as int] == type_id,
{
}

/// Registering a component kind again gives the id it already had and
/// changes nothing else.
pub proof fn law_register_again_keeps_id(
    first: ComponentRegistry,
    second: ComponentRegistry,
    third: ComponentRegistry,
    type_id: TypeId,
    id: ComponentId,
    again: ComponentId,
)
    requires
        first.type_ids().no_duplicates(),
        second.registered(first, type_id, id),
        third.registered(second, type_id, again),
    ensures
        again.index_spec() == id.index_spec(),
        third.type_ids() == second.type_ids(),
{
    let ids = second.type_ids();
    if !first.type_ids().contains(type_id) {
        assert forall|a: int, b: int| 0 <= a < ids.len() && 0 <= b < ids.len() && a != b implies ids[a]
            != ids[b] by {
            if a == first.type_ids().len() {
                assert(first.type_ids().contains(ids[b]));
            } else if b == first.type_ids().len() {
                assert(first.type_ids().contains(ids[a]));
            }
        }
    }
    assert(ids[id.index_spec() as int] == type_id);
    assert(ids.contains(type_id));
}

/// Registering a component kind of another type gives another id, and the
/// first kind keeps its id.
pub proof fn law_distinct_types_get_distinct_ids(
    first: ComponentRegistry,
    second: ComponentRegistry,
    third: ComponentRegistry,
    type_id: TypeId,
    other: TypeId,
    id: ComponentId,
    other_id: ComponentId,
)
    requires
        first.type_ids().no_duplicates(),
        second.registered(first, type_id, id),
        third.registered(second, other, other_id),
        type_id != other,
    ensures
        other_id.index_spec() != id.index_spec(),
        third.type_ids()[id.index_spec() as int] == type_id,
{
    let ids = second.type_ids();
    if !first.type_ids().contains(type_id) {
        assert forall|a: int, b: int| 0 <= a < ids.len() && 0 <= b < ids.len() && a != b implies ids[a]
            != ids[b] by {
            if a == first.type_ids().len() {
                assert(first.type_ids().contains(ids[b]));
            } else if b == first.type_ids().len() {
                assert(first.type_ids().contains(ids[a]));
            }
        }
    }
    assert(ids[id.index_spec() as int] == type_id);
}

} // verus!

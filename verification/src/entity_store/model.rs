//! The entities of the store, and what holds of the store at all times.

use crate::json::{clone_json, field_views, Json, JsonView};
use crate::mqtt_topics::EntityTopicId;
use vstd::prelude::*;

verus! {

/// What an entity is.
#[derive(Clone, Copy, PartialEq, Eq, Structural, Debug)]
pub enum EntityType {
    MainDevice,
    ChildDevice,
    Service,
}

/// A device or a service, as the store knows it.
#[derive(Debug)]
pub struct EntityMetadata {
    /// The entity's name on the local bus.
    pub topic_id: EntityTopicId,
    /// The entity's name in the cloud.
    pub external_id: String,
    pub entity_type: EntityType,
    /// The entity under which this one stands; none for the main device.
    pub parent: Option<EntityTopicId>,
    /// The other properties that came with the registration.
    pub other: Vec<(String, Json)>,
}

/// An entity as contracts speak of it.
pub struct EntityView {
    pub topic_id: Seq<char>,
    pub external_id: Seq<char>,
    pub entity_type: EntityType,
    pub parent: Option<Seq<char>>,
    pub other: Seq<(Seq<char>, JsonView)>,
}

impl EntityMetadata {
    pub open spec fn view(&self) -> EntityView {
        EntityView {
            topic_id: self.topic_id@,
            external_id: self.external_id@,
            entity_type: self.entity_type,
            parent: match self.parent {
                Some(parent) => Some(parent@),
                None => None,
            },
            other: field_views(self.other@),
        }
    }

    /// The main device, under its usual name and with the given name in the
    /// cloud.
    pub fn main_device(device_id: String) -> (entity: EntityMetadata)
        ensures
            entity@ == main_device_view(device_id@),
    {
        let other: Vec<(String, Json)> = Vec::new();
        assert(field_views(other@) =~= Seq::<(Seq<char>, JsonView)>::empty());
        EntityMetadata {
            topic_id: EntityTopicId::default_main_device(),
            external_id: device_id,
            entity_type: EntityType::MainDevice,
            parent: None,
            other,
        }
    }
}

impl Clone for EntityMetadata {
    fn clone(&self) -> (copy: EntityMetadata)
        ensures
            copy@ == self@,
    {
        let mut other: Vec<(String, Json)> = Vec::new();
        let mut i: usize = 0;
        while i < self.other.len()
            invariant
                i <= self.other.len(),
                other@.len() == i,
                forall|k: int|
                    0 <= k < i ==> other@[k].0@ == self.other@[k].0@ && other@[k].1@
                        == self.other@[k].1@,
            decreases self.other.len() - i,
        {
            other.push((self.other[i].0.clone(), clone_json(&self.other[i].1)));
            i += 1;
        }
        assert(field_views(other@) =~= field_views(self.other@));
        EntityMetadata {
            topic_id: self.topic_id.clone(),
            external_id: self.external_id.clone(),
            entity_type: self.entity_type,
            parent: match &self.parent {
                Some(parent) => Some(parent.clone()),
                None => None,
            },
            other,
        }
    }
}

/// The main device under its usual name.
pub open spec fn main_device_view(device_id: Seq<char>) -> EntityView {
    EntityView {
        topic_id: "device/main//"@,
        external_id: device_id,
        entity_type: EntityType::MainDevice,
        parent: None,
        other: Seq::empty(),
    }
}

/// The views of a list of entities.
pub open spec fn entity_views(entities: Seq<EntityMetadata>) -> Seq<EntityView> {
    entities.map_values(|e: EntityMetadata| e@)
}

/// The names of the entities on the local bus.
pub open spec fn topics_of(entities: Seq<EntityView>) -> Seq<Seq<char>> {
    entities.map_values(|e: EntityView| e.topic_id)
}

/// The names of the entities in the cloud.
pub open spec fn external_ids_of(entities: Seq<EntityView>) -> Seq<Seq<char>> {
    entities.map_values(|e: EntityView| e.external_id)
}

/// Tells whether an entity can stand under the entity of the given name:
/// that entity is among the given ones, and is a device.
pub open spec fn is_attachable(registered: Seq<EntityView>, topic: Seq<char>) -> bool {
    exists|j: int|
        0 <= j < registered.len() && (#[trigger] registered[j]).topic_id == topic
            && registered[j].entity_type != EntityType::Service
}

/// Tells whether the entity at a place stands under an entity that comes
/// before it.
pub open spec fn parent_before(registered: Seq<EntityView>, i: int) -> bool {
    &&& registered[i].entity_type != EntityType::MainDevice
    &&& registered[i].parent is Some
    &&& is_attachable(registered.take(i), registered[i].parent.unwrap())
}

/// Tells whether an entity waits for its parent: it is not the main device,
/// it names a parent, and it cannot stand under it yet.
pub open spec fn is_waiting(registered: Seq<EntityView>, entity: EntityView) -> bool {
    &&& entity.entity_type != EntityType::MainDevice
    &&& entity.parent is Some
    &&& !is_attachable(registered, entity.parent.unwrap())
}

/// No name of the first list is a name of the second.
pub open spec fn disjoint(a: Seq<Seq<char>>, b: Seq<Seq<char>>) -> bool {
    forall|i: int, j: int| 0 <= i < a.len() && 0 <= j < b.len() ==> a[i] != b[j]
}

/// The store as contracts speak of it: the registered entities, in the
/// order in which they were registered, and the entities that wait for their
/// parents.
pub struct StoreView {
    pub registered: Seq<EntityView>,
    pub pending: Seq<EntityView>,
}

impl StoreView {
    /// All the entities that the store knows.
    pub open spec fn entities(self) -> Set<EntityView> {
        (self.registered + self.pending).to_set()
    }

    /// The main device.
    pub open spec fn main_device(self) -> EntityView {
        self.registered[0]
    }

    /// The names of the registered entities.
    pub open spec fn registered_topics(self) -> Set<Seq<char>> {
        topics_of(self.registered).to_set()
    }

    /// No two entities have one name on the local bus, nor one name in the
    /// cloud, whether they are registered or wait.
    pub open spec fn names_are_unique(self) -> bool {
        &&& topics_of(self.registered).no_duplicates()
        &&& topics_of(self.pending).no_duplicates()
        &&& disjoint(topics_of(self.registered), topics_of(self.pending))
        &&& external_ids_of(self.registered).no_duplicates()
        &&& external_ids_of(self.pending).no_duplicates()
        &&& disjoint(external_ids_of(self.registered), external_ids_of(self.pending))
    }

    /// The first registered entity is the main device, and it is the only
    /// one; every other registered entity stands under a device that was
    /// registered before it.
    pub open spec fn parents_come_first(self) -> bool {
        &&& self.registered.len() >= 1
        &&& self.registered[0].entity_type == EntityType::MainDevice
        &&& self.registered[0].parent is None
        &&& forall|i: int| 1 <= i < self.registered.len() ==> #[trigger] parent_before(self.registered, i)
    }

    /// Every entity that waits does so for a reason: it cannot stand under
    /// its parent yet.
    pub open spec fn waiting_is_justified(self) -> bool {
        forall|i: int|
            0 <= i < self.pending.len() ==> is_waiting(self.registered, #[trigger] self.pending[i])
    }

    /// What holds of the store between any two operations.
    pub open spec fn wf(self) -> bool {
        &&& self.parents_come_first()
        &&& self.names_are_unique()
        &&& self.waiting_is_justified()
    }
}

} // verus!

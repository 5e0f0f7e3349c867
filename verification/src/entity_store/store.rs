//! The entity store: the devices and services that the gateway knows, each
//! under its parent.

use crate::entity_store::laws::lax_run;
use crate::entity_store::model::{
    disjoint, entity_views, external_ids_of, is_attachable, is_waiting, parent_before, topics_of,
    EntityMetadata, EntityType, EntityView, StoreView,
};
use crate::json::{field_views, Json, JsonView};
use crate::mqtt_topics::{
    default_device_of, default_parent_of, default_service_of, entity_text, EntityTopicId,
};
use crate::text::{chars_of, owned, same_text, split_text, string_of};
use vstd::prelude::*;

verus! {

/// How a registration comes in.
#[derive(Clone, Copy, PartialEq, Eq, Structural, Debug)]
pub enum Protocol {
    /// One entity at a time, each after its parent: an entity whose parent
    /// is not registered is refused.
    HTTP,
    /// In any order: an entity whose parent is not registered waits for it.
    MQTT,
}

/// Why the store refused a request.
#[derive(Clone, Copy, PartialEq, Eq, Structural, Debug)]
pub enum EntityStoreError {
    /// The parent is not registered.
    ParentMissing,
    /// The parent is a service.
    InvalidParent,
    /// There is a main device already.
    MainDeviceAlreadyRegistered,
    /// Another entity has the same name in the cloud.
    ExternalIdAlreadyUsed,
    /// The entity's name is not of the usual scheme, so that nothing can be
    /// told of the entity from its name.
    NonDefaultTopicScheme,
}

/// The request to register an entity.
#[derive(Debug)]
pub struct EntityRegistrationMessage {
    pub topic_id: EntityTopicId,
    /// The entity's name in the cloud; where none is given, one is made of
    /// the main device's and of the entity's name on the local bus.
    pub external_id: Option<String>,
    pub entity_type: EntityType,
    /// The entity's parent; where none is given, a service stands under the
    /// device that its name gives, and anything else under the main device.
    pub parent: Option<EntityTopicId>,
    pub other: Vec<(String, Json)>,
}

/// A registration as contracts speak of it.
pub struct RegistrationView {
    pub topic_id: Seq<char>,
    pub external_id: Option<Seq<char>>,
    pub entity_type: EntityType,
    pub parent: Option<Seq<char>>,
    pub other: Seq<(Seq<char>, JsonView)>,
}

impl EntityRegistrationMessage {
    pub open spec fn view(&self) -> RegistrationView {
        RegistrationView {
            topic_id: self.topic_id@,
            external_id: match self.external_id {
                Some(id) => Some(id@),
                None => None,
            },
            entity_type: self.entity_type,
            parent: match self.parent {
                Some(parent) => Some(parent@),
                None => None,
            },
            other: field_views(self.other@),
        }
    }
}

impl Clone for EntityRegistrationMessage {
    fn clone(&self) -> (copy: EntityRegistrationMessage)
        ensures
            copy@ == self@,
    {
        let mut other: Vec<(String, Json)> = Vec::new();
        let mut i: usize = 0;
        while i < self.other.len()
            invariant
                i <= self.other.len(),
                other@.len() == i,
                forall|k: int|
                    0 <= k < i ==> other@[k].0@ == self.other@[k].0@ && other@[k].1@
                        == self.other@[k].1@,
            decreases self.other.len() - i,
        {
            other.push((self.other[i].0.clone(), crate::json::clone_json(&self.other[i].1)));
            i += 1;
        }
        assert(field_views(other@) =~= field_views(self.other@));
        EntityRegistrationMessage {
            topic_id: self.topic_id.clone(),
            external_id: crate::text::clone_option(&self.external_id),
            entity_type: self.entity_type,
            parent: match &self.parent {
                Some(parent) => Some(parent.clone()),
                None => None,
            },
            other,
        }
    }
}

/// A name without the slashes at its end.
pub open spec fn without_trailing_slashes(text: Seq<char>) -> Seq<char>
    decreases text.len(),
{
    if text.len() > 0 && text.last() == '/' {
        without_trailing_slashes(text.drop_last())
    } else {
        text
    }
}

/// A name with a colon in place of each slash.
pub open spec fn with_colons(text: Seq<char>) -> Seq<char> {
    text.map_values(
        |c: char|
            if c == '/' {
                ':'
            } else {
                c
            },
    )
}

/// The name that an entity gets in the cloud where it brings none: the main
/// device's name, a colon, and the entity's name on the local bus without the
/// slashes at its end and with a colon for each other slash. For
/// `device/child1//` that is `<main>:device:child1`.
pub open spec fn default_external_id(main_external_id: Seq<char>, topic_id: Seq<char>) -> Seq<char> {
    main_external_id + seq![':'] + with_colons(without_trailing_slashes(topic_id))
}

/// The parent that an entity gets where it names none.
pub open spec fn default_parent(
    entity_type: EntityType,
    topic_id: Seq<char>,
    main_topic_id: Seq<char>,
) -> Seq<char> {
    match default_parent_of(split_text(topic_id, '/')) {
        Some(parent) if entity_type == EntityType::Service => parent,
        _ => main_topic_id,
    }
}

/// The entity that a registration stands for.
pub open spec fn registered_entity(main: EntityView, registration: RegistrationView) -> EntityView {
    EntityView {
        topic_id: registration.topic_id,
        external_id: match registration.external_id {
            Some(id) => id,
            None => default_external_id(main.external_id, registration.topic_id),
        },
        entity_type: registration.entity_type,
        parent: Some(
            match registration.parent {
                Some(parent) => parent,
                None => default_parent(
                    registration.entity_type,
                    registration.topic_id,
                    main.topic_id,
                ),
            },
        ),
        other: registration.other,
    }
}

/// What the store makes of a registration.
pub enum Registration {
    /// The entity is known already: nothing changes.
    Ignored,
    /// The registration is refused: nothing changes.
    Refused(EntityStoreError),
    /// The entity is taken.
    Accepted,
}

/// What the store makes of a registration. Over HTTP the parent is looked
/// at before anything else: a registration whose parent is not registered is
/// refused as `ParentMissing`, and one whose parent is a service as
/// `InvalidParent`, whether the store knows the entity or not. Then an
/// entity that is known is passed over; a second main device is refused, and
/// so is a name in the cloud that another entity has; any other entity is
/// taken.
pub open spec fn registration_of(
    store: StoreView,
    registration: RegistrationView,
    protocol: Protocol,
) -> Registration {
    let entity = registered_entity(store.main_device(), registration);
    let all = store.registered + store.pending;
    if protocol == Protocol::HTTP && !is_attachable(store.registered, entity.parent.unwrap()) {
        if topics_of(store.registered).contains(entity.parent.unwrap()) {
            Registration::Refused(EntityStoreError::InvalidParent)
        } else {
            Registration::Refused(EntityStoreError::ParentMissing)
        }
    } else if topics_of(all).contains(entity.topic_id) {
        Registration::Ignored
    } else if entity.entity_type == EntityType::MainDevice {
        Registration::Refused(EntityStoreError::MainDeviceAlreadyRegistered)
    } else if external_ids_of(all).contains(entity.external_id) {
        Registration::Refused(EntityStoreError::ExternalIdAlreadyUsed)
    } else {
        Registration::Accepted
    }
}

/// The names that a list of identifiers holds.
pub open spec fn topic_texts(ids: Seq<EntityTopicId>) -> Seq<Seq<char>> {
    ids.map_values(|id: EntityTopicId| id@)
}

pub(crate) fn find_topic(entities: &Vec<EntityMetadata>, topic: &str) -> (r: Option<usize>)
    ensures
        match r {
            Some(i) => i < entities@.len() && entities@[i as int]@.topic_id == topic@
                && topics_of(entity_views(entities@)).contains(topic@),
            None => !topics_of(entity_views(entities@)).contains(topic@),
        },
{
    let mut i: usize = 0;
    while i < entities.len()
        invariant
            i <= entities.len(),
            forall|k: int| 0 <= k < i ==> entities@[k]@.topic_id != topic@,
        decreases entities.len() - i,
    {
        if same_text(entities[i].topic_id.as_str(), topic) {
            assert(topics_of(entity_views(entities@))[i as int] == topic@);
            return Some(i);
        }
        i += 1;
    }
    assert forall|k: int| 0 <= k < topics_of(entity_views(entities@)).len() implies topics_of(
        entity_views(entities@),
    )[k] != topic@ by {
        assert(topics_of(entity_views(entities@))[k] == entities@[k]@.topic_id);
    }
    None
}

pub(crate) fn find_external_id(entities: &Vec<EntityMetadata>, external_id: &str) -> (r: Option<
    usize,
>)
    ensures
        match r {
            Some(i) => i < entities@.len() && entities@[i as int]@.external_id == external_id@
                && external_ids_of(entity_views(entities@)).contains(external_id@),
            None => !external_ids_of(entity_views(entities@)).contains(external_id@),
        },
{
    let mut i: usize = 0;
    while i < entities.len()
        invariant
            i <= entities.len(),
            forall|k: int| 0 <= k < i ==> entities@[k]@.external_id != external_id@,
        decreases entities.len() - i,
    {
        if same_text(entities[i].external_id.as_str(), external_id) {
            assert(external_ids_of(entity_views(entities@))[i as int] == external_id@);
            return Some(i);
        }
        i += 1;
    }
    assert forall|k: int|
        0 <= k < external_ids_of(entity_views(entities@)).len() implies external_ids_of(
        entity_views(entities@),
    )[k] != external_id@ by {
        assert(external_ids_of(entity_views(entities@))[k] == entities@[k]@.external_id);
    }
    None
}

pub(crate) fn attachable(registered: &Vec<EntityMetadata>, topic: &str) -> (r: bool)
    ensures
        r == is_attachable(entity_views(registered@), topic@),
{
    let mut i: usize = 0;
    while i < registered.len()
        invariant
            i <= registered.len(),
            forall|k: int|
                0 <= k < i ==> !(entities_at(registered@, k).topic_id == topic@ && entities_at(
                    registered@,
                    k,
                ).entity_type != EntityType::Service),
        decreases registered.len() - i,
    {
        let is_device = match registered[i].entity_type {
            EntityType::Service => false,
            _ => true,
        };
        if is_device && same_text(registered[i].topic_id.as_str(), topic) {
            assert(entity_views(registered@)[i as int].topic_id == topic@);
            return true;
        }
        i += 1;
    }
    assert forall|j: int| 0 <= j < entity_views(registered@).len() implies !((
    #[trigger] entity_views(registered@)[j]).topic_id == topic@ && entity_views(
        registered@,
    )[j].entity_type != EntityType::Service) by {
        assert(entity_views(registered@)[j] == entities_at(registered@, j));
    }
    false
}

/// The view of the entity at a place.
pub open spec fn entities_at(entities: Seq<EntityMetadata>, k: int) -> EntityView {
    entities[k]@
}

/// The name that an entity gets in the cloud where it brings none.
pub fn make_default_external_id(main_external_id: &str, topic_id: &EntityTopicId) -> (id: String)
    ensures
        id@ == default_external_id(main_external_id@, topic_id@),
{
    let chars = chars_of(topic_id.as_str());
    let mut end: usize = chars.len();
    assert(chars@.take(chars.len() as int) =~= chars@);
    while end > 0 && chars[end - 1] == '/'
        invariant
            end <= chars.len(),
            without_trailing_slashes(chars@) == without_trailing_slashes(chars@.take(end as int)),
        decreases end,
    {
        proof {
            assert(chars@.take(end as int).drop_last() =~= chars@.take(end - 1));
        }
        end -= 1;
    }
    assert(without_trailing_slashes(chars@) == chars@.take(end as int)) by {
        if end > 0 {
            assert(chars@.take(end as int).last() == chars@[end - 1]);
        }
    }
    let mut out = chars_of(main_external_id);
    out.push(':');
    let ghost start = out@;
    let ghost kept = chars@.take(end as int);
    let mut i: usize = 0;
    while i < end
        invariant
            i <= end <= chars.len(),
            kept == chars@.take(end as int),
            out@ == start + with_colons(kept).take(i as int),
        decreases end - i,
    {
        let c = chars[i];
        out.push(if c == '/' {
            ':'
        } else {
            c
        });
        i += 1;
        assert(with_colons(kept).take(i as int) =~= with_colons(kept).take(i - 1).push(
            with_colons(kept)[i - 1],
        ));
    }
    assert(with_colons(kept).take(end as int) =~= with_colons(kept));
    assert(start =~= main_external_id@ + seq![':']);
    string_of(&out)
}

/// Tells whether each of the entities names a parent and is no main device.
pub open spec fn all_have_parents(entities: Seq<EntityView>) -> bool {
    forall|k: int|
        0 <= k < entities.len() ==> (#[trigger] entities[k]).entity_type
            != EntityType::MainDevice && entities[k].parent is Some
}

pub(crate) proof fn lemma_push_keeps_parents_first(registered: Seq<EntityView>, entity: EntityView)
    requires
        (StoreView { registered, pending: Seq::empty() }).parents_come_first(),
        entity.entity_type != EntityType::MainDevice,
        entity.parent is Some,
        is_attachable(registered, entity.parent.unwrap()),
    ensures
        (StoreView { registered: registered.push(entity), pending: Seq::empty() }).parents_come_first(),
{
    let after = registered.push(entity);
    assert forall|i: int| 1 <= i < after.len() implies #[trigger] parent_before(after, i) by {
        if i < registered.len() {
            assert(parent_before(registered, i));
            assert(after.take(i) =~= registered.take(i));
        } else {
            assert(after.take(i) =~= registered);
        }
    }
}

proof fn lemma_add_name(a: Seq<Seq<char>>, b: Seq<Seq<char>>, name: Seq<char>)
    requires
        a.no_duplicates(),
        b.no_duplicates(),
        disjoint(a, b),
        !(a + b).contains(name),
    ensures
        a.push(name).no_duplicates(),
        disjoint(a.push(name), b),
        b.push(name).no_duplicates(),
        disjoint(a, b.push(name)),
{
    assert forall|k: int| 0 <= k < a.len() implies a[k] != name by {
        assert((a + b)[k] == a[k]);
    }
    assert forall|k: int| 0 <= k < b.len() implies b[k] != name by {
        assert((a + b)[a.len() + k] == b[k]);
    }
}

proof fn lemma_move_name(a: Seq<Seq<char>>, b: Seq<Seq<char>>, i: int)
    requires
        a.no_duplicates(),
        b.no_duplicates(),
        disjoint(a, b),
        0 <= i < b.len(),
    ensures
        a.push(b[i]).no_duplicates(),
        b.remove(i).no_duplicates(),
        disjoint(a.push(b[i]), b.remove(i)),
{
    let a2 = a.push(b[i]);
    let b2 = b.remove(i);
    assert forall|x: int, y: int| 0 <= x < a2.len() && 0 <= y < b2.len() implies a2[x]
        != b2[y] by {
        let y0 = if y < i {
            y
        } else {
            y + 1
        };
        assert(b2[y] == b[y0]);
    }
    assert forall|x: int, y: int| 0 <= x < b2.len() && 0 <= y < b2.len() && x != y implies b2[x]
        != b2[y] by {
        let x0 = if x < i {
            x
        } else {
            x + 1
        };
        let y0 = if y < i {
            y
        } else {
            y + 1
        };
        assert(b2[x] == b[x0] && b2[y] == b[y0]);
    }
}

proof fn lemma_promote(registered: Seq<EntityView>, pending: Seq<EntityView>, i: int)
    requires
        (StoreView { registered, pending }).parents_come_first(),
        (StoreView { registered, pending }).names_are_unique(),
        all_have_parents(pending),
        0 <= i < pending.len(),
        is_attachable(registered, pending[i].parent.unwrap()),
    ensures
        (StoreView {
            registered: registered.push(pending[i]),
            pending: pending.remove(i),
        }).parents_come_first(),
        (StoreView {
            registered: registered.push(pending[i]),
            pending: pending.remove(i),
        }).names_are_unique(),
        all_have_parents(pending.remove(i)),
        (StoreView { registered: registered.push(pending[i]), pending: pending.remove(i) }).entities()
            == (StoreView { registered, pending }).entities(),
{
    let entity = pending[i];
    let registered2 = registered.push(entity);
    let pending2 = pending.remove(i);
    lemma_push_keeps_parents_first(registered, entity);
    lemma_move_name(topics_of(registered), topics_of(pending), i);
    lemma_move_name(external_ids_of(registered), external_ids_of(pending), i);
    assert(topics_of(registered2) =~= topics_of(registered).push(topics_of(pending)[i]));
    assert(topics_of(pending2) =~= topics_of(pending).remove(i));
    assert(external_ids_of(registered2) =~= external_ids_of(registered).push(
        external_ids_of(pending)[i],
    ));
    assert(external_ids_of(pending2) =~= external_ids_of(pending).remove(i));
    assert forall|k: int| 0 <= k < pending2.len() implies (#[trigger] pending2[k]).entity_type
        != EntityType::MainDevice && pending2[k].parent is Some by {
        let k0 = if k < i {
            k
        } else {
            k + 1
        };
        assert(pending2[k] == pending[k0]);
    }
    let before = registered + pending;
    let after = registered2 + pending2;
    assert forall|e: EntityView| after.contains(e) <==> before.contains(e) by {
        if after.contains(e) {
            let k = choose|k: int| 0 <= k < after.len() && after[k] == e;
            if k < registered.len() {
                assert(before[k] == e);
            } else if k == registered.len() {
                assert(before[registered.len() + i] == e);
            } else {
                let y = k - registered2.len();
                let y0 = if y < i {
                    y
                } else {
                    y + 1
                };
                assert(pending2[y] == pending[y0]);
                assert(before[registered.len() + y0] == e);
            }
        }
        if before.contains(e) {
            let k = choose|k: int| 0 <= k < before.len() && before[k] == e;
            if k < registered.len() {
                assert(after[k] == e);
            } else {
                let y0 = k - registered.len();
                if y0 == i {
                    assert(after[registered.len() as int] == e);
                } else {
                    let y = if y0 < i {
                        y0
                    } else {
                        y0 - 1
                    };
                    assert(pending2[y] == pending[y0]);
                    assert(after[registered2.len() + y] == e);
                }
            }
        }
    }
    assert(after.to_set() =~= before.to_set());
}

/// Promotes the entities that wait, as long as one of them can stand under
/// its parent.
fn cascade(
    registered: &mut Vec<EntityMetadata>,
    pending: &mut Vec<EntityMetadata>,
    promoted: &mut Vec<EntityTopicId>,
)
    requires
        (StoreView {
            registered: entity_views(old(registered)@),
            pending: entity_views(old(pending)@),
        }).parents_come_first(),
        (StoreView {
            registered: entity_views(old(registered)@),
            pending: entity_views(old(pending)@),
        }).names_are_unique(),
        all_have_parents(entity_views(old(pending)@)),
    ensures
        (StoreView {
            registered: entity_views(final(registered)@),
            pending: entity_views(final(pending)@),
        }).wf(),
        (StoreView {
            registered: entity_views(final(registered)@),
            pending: entity_views(final(pending)@),
        }).entities() == (StoreView {
            registered: entity_views(old(registered)@),
            pending: entity_views(old(pending)@),
        }).entities(),
        old(registered)@.len() <= final(registered)@.len(),
        entity_views(final(registered)@).take(old(registered)@.len() as int) == entity_views(
            old(registered)@,
        ),
        topic_texts(final(promoted)@) == topic_texts(old(promoted)@) + topics_of(
            entity_views(final(registered)@).skip(old(registered)@.len() as int),
        ),
        old(pending)@.len() == 0 ==> final(registered)@ == old(registered)@ && final(pending)@.len() == 0,
{
    let ghost before = StoreView {
        registered: entity_views(registered@),
        pending: entity_views(pending@),
    };
    let ghost n0 = registered@.len() as int;
    let ghost promoted0 = topic_texts(promoted@);
    let mut i: usize = 0;
    proof {
        assert(before.registered.take(n0) =~= before.registered);
        assert(before.registered.skip(n0) =~= Seq::<EntityView>::empty());
        assert(topic_texts(promoted@) =~= promoted0 + topics_of(before.registered.skip(n0)));
    }
    while i < pending.len()
        invariant
            i <= pending@.len(),
            (StoreView {
                registered: entity_views(registered@),
                pending: entity_views(pending@),
            }).parents_come_first(),
            (StoreView {
                registered: entity_views(registered@),
                pending: entity_views(pending@),
            }).names_are_unique(),
            all_have_parents(entity_views(pending@)),
            forall|k: int|
                0 <= k < i ==> is_waiting(
                    entity_views(registered@),
                    #[trigger] entity_views(pending@)[k],
                ),
            (StoreView {
                registered: entity_views(registered@),
                pending: entity_views(pending@),
            }).entities() == before.entities(),
            0 <= n0 <= registered@.len(),
            entity_views(registered@).take(n0) == before.registered,
            topic_texts(promoted@) == promoted0 + topics_of(entity_views(registered@).skip(n0)),
            old(pending)@.len() == 0 ==> registered@ == old(registered)@ && pending@.len() == 0,
        decreases pending@.len(), pending@.len() - i,
    {
        let ghost reg = entity_views(registered@);
        let ghost pend = entity_views(pending@);
        assert(pend[i as int] == pending@[i as int]@);
        let can_attach = match &pending[i].parent {
            Some(parent) => attachable(registered, parent.as_str()),
            None => false,
        };
        if can_attach {
            proof {
                lemma_promote(reg, pend, i as int);
            }
            let ghost old_promoted = promoted@;
            let entity = pending.remove(i);
            let id = entity.topic_id.clone();
            promoted.push(id);
            registered.push(entity);
            proof {
                assert(entity_views(registered@) =~= reg.push(pend[i as int]));
                assert(entity_views(pending@) =~= pend.remove(i as int));
                assert(n0 <= reg.len());
                assert(reg.push(pend[i as int]).take(n0) =~= reg.take(n0));
                assert(entity_views(registered@).take(n0) =~= reg.take(n0));
                assert(topic_texts(promoted@) =~= topic_texts(old_promoted).push(id@));
                assert(reg.push(pend[i as int]).skip(n0) =~= reg.skip(n0).push(pend[i as int]));
                assert(topics_of(entity_views(registered@).skip(n0)) =~= topics_of(
                    reg.skip(n0),
                ).push(pend[i as int].topic_id));
            }
            i = 0;
        } else {
            assert(is_waiting(reg, pend[i as int]));
            i += 1;
        }
    }
}

proof fn lemma_contains_in_either<A>(a: Seq<A>, b: Seq<A>, x: A)
    ensures
        (a + b).contains(x) <==> a.contains(x) || b.contains(x),
{
    if (a + b).contains(x) {
        let k = choose|k: int| 0 <= k < (a + b).len() && (a + b)[k] == x;
        if k < a.len() {
            assert(a[k] == x);
        } else {
            assert(b[k - a.len()] == x);
        }
    }
    if a.contains(x) {
        let k = choose|k: int| 0 <= k < a.len() && a[k] == x;
        assert((a + b)[k] == x);
    }
    if b.contains(x) {
        let k = choose|k: int| 0 <= k < b.len() && b[k] == x;
        assert((a + b)[a.len() + k] == x);
    }
}

proof fn lemma_added_entity(a: Seq<EntityView>, b: Seq<EntityView>, entity: EntityView)
    ensures
        (a.push(entity) + b).to_set() == (a + b).to_set().insert(entity),
        (a + b.push(entity)).to_set() == (a + b).to_set().insert(entity),
{
    assert forall|e: EntityView| #[trigger]
        (a.push(entity) + b).contains(e) <==> ((a + b).contains(e) || e == entity) by {
        lemma_contains_in_either(a.push(entity), b, e);
        lemma_contains_in_either(a, b, e);
        if a.push(entity).contains(e) {
            let k = choose|k: int| 0 <= k < a.push(entity).len() && a.push(entity)[k] == e;
            if k < a.len() {
                assert(a[k] == e);
            }
        }
        if a.contains(e) {
            let k = choose|k: int| 0 <= k < a.len() && a[k] == e;
            assert(a.push(entity)[k] == e);
        }
        assert(a.push(entity)[a.len() as int] == entity);
    }
    assert forall|e: EntityView| #[trigger]
        (a + b.push(entity)).contains(e) <==> ((a + b).contains(e) || e == entity) by {
        lemma_contains_in_either(a, b.push(entity), e);
        lemma_contains_in_either(a, b, e);
        if b.push(entity).contains(e) {
            let k = choose|k: int| 0 <= k < b.push(entity).len() && b.push(entity)[k] == e;
            if k < b.len() {
                assert(b[k] == e);
            }
        }
        if b.contains(e) {
            let k = choose|k: int| 0 <= k < b.len() && b[k] == e;
            assert(b.push(entity)[k] == e);
        }
        assert(b.push(entity)[b.len() as int] == entity);
    }
    assert((a.push(entity) + b).to_set() =~= (a + b).to_set().insert(entity));
    assert((a + b.push(entity)).to_set() =~= (a + b).to_set().insert(entity));
}

/// The devices and services that the gateway knows. The registered
/// entities are kept in the order of their registration, so that each comes
/// behind its parent; the others wait for their parents.
#[derive(Debug)]
pub struct EntityStore {
    registered: Vec<EntityMetadata>,
    pending: Vec<EntityMetadata>,
}

impl EntityStore {
    pub closed spec fn view(&self) -> StoreView {
        StoreView {
            registered: entity_views(self.registered@),
            pending: entity_views(self.pending@),
        }
    }

    /// What holds of the store between any two operations.
    pub open spec fn wf(&self) -> bool {
        self@.wf()
    }

    /// A store that knows the main device alone, under its usual name and
    /// with the given name in the cloud.
    pub fn new(device_id: &str) -> (store: EntityStore)
        ensures
            store.wf(),
            store@.registered == seq![crate::entity_store::model::main_device_view(device_id@)],
            store@.pending.len() == 0,
    {
        let mut registered: Vec<EntityMetadata> = Vec::new();
        registered.push(EntityMetadata::main_device(owned(device_id)));
        let store = EntityStore { registered, pending: Vec::new() };
        proof {
            assert(store@.registered =~= seq![
                crate::entity_store::model::main_device_view(device_id@),
            ]);
            assert(store@.pending =~= Seq::<EntityView>::empty());
        }
        store
    }

    /// The main device.
    pub fn main_device(&self) -> (entity: &EntityMetadata)
        requires
            self.wf(),
        ensures
            entity@ == self@.main_device(),
    {
        &self.registered[0]
    }

    /// The registered entity of the given name on the local bus.
    pub fn get(&self, topic_id: &str) -> (r: Option<&EntityMetadata>)
        ensures
            match r {
                Some(entity) => self@.registered.contains(entity@) && entity@.topic_id
                    == topic_id@,
                None => !topics_of(self@.registered).contains(topic_id@),
            },
    {
        match find_topic(&self.registered, topic_id) {
            Some(i) => {
                assert(self@.registered[i as int] == self.registered@[i as int]@);
                Some(&self.registered[i])
            },
            None => None,
        }
    }

    /// The registered entity of the given name in the cloud.
    pub fn get_by_external_id(&self, external_id: &str) -> (r: Option<&EntityMetadata>)
        ensures
            match r {
                Some(entity) => self@.registered.contains(entity@) && entity@.external_id
                    == external_id@,
                None => !external_ids_of(self@.registered).contains(external_id@),
            },
    {
        match find_external_id(&self.registered, external_id) {
            Some(i) => {
                assert(self@.registered[i as int] == self.registered@[i as int]@);
                Some(&self.registered[i])
            },
            None => None,
        }
    }

    /// Tells whether the entity of the given name waits for its parent.
    pub fn is_pending(&self, topic_id: &str) -> (r: bool)
        ensures
            r == topics_of(self@.pending).contains(topic_id@),
    {
        match find_topic(&self.pending, topic_id) {
            Some(i) => {
                assert(topics_of(self@.pending)[i as int] == topic_id@);
                true
            },
            None => false,
        }
    }

    /// The registered entities, in the order of their registration.
    pub fn registered_entities(&self) -> (entities: Vec<EntityMetadata>)
        ensures
            entity_views(entities@) == self@.registered,
    {
        copy_entities(&self.registered)
    }

    /// The entities that wait for their parents.
    pub fn pending_entities(&self) -> (entities: Vec<EntityMetadata>)
        ensures
            entity_views(entities@) == self@.pending,
    {
        copy_entities(&self.pending)
    }

    /// The names of the registered entities, in the order of their
    /// registration: each behind its parent.
    pub fn registered_topic_ids(&self) -> (ids: Vec<EntityTopicId>)
        ensures
            topic_texts(ids@) == topics_of(self@.registered),
    {
        let mut ids: Vec<EntityTopicId> = Vec::new();
        let mut i: usize = 0;
        assert(topic_texts(ids@) =~= topics_of(self@.registered).take(0));
        while i < self.registered.len()
            invariant
                i <= self.registered.len(),
                topic_texts(ids@) == topics_of(self@.registered).take(i as int),
            decreases self.registered.len() - i,
        {
            let ghost before = ids@;
            let id = self.registered[i].topic_id.clone();
            ids.push(id);
            i += 1;
            assert(topic_texts(ids@) =~= topic_texts(before).push(id@));
            assert(topics_of(self@.registered).take(i as int) =~= topics_of(
                self@.registered,
            ).take(i - 1).push(id@));
        }
        assert(topics_of(self@.registered).take(self.registered.len() as int) =~= topics_of(
            self@.registered,
        ));
        ids
    }

    /// Registers an entity. What comes back are the names of the entities
    /// that are registered by this: the entity itself, if it can stand under
    /// its parent, and then each entity that waited for it or for one of
    /// these. Over MQTT an entity that cannot stand under its parent yet
    /// waits, and nothing comes back. Over HTTP a registration whose parent
    /// is not registered fails with `ParentMissing`, whatever else holds of
    /// it, and the store stays as it was. No entity that was registered
    /// ceases to be.
    pub fn register(&mut self, registration: EntityRegistrationMessage, protocol: Protocol) -> (r:
        Result<Vec<EntityTopicId>, EntityStoreError>)
        requires
            old(self).wf(),
        ensures
            final(self).wf(),
            final(self)@.main_device() == old(self)@.main_device(),
            protocol == Protocol::MQTT ==> crate::entity_store::laws::lax_step(
                old(self)@,
                registration@,
                final(self)@,
            ),
            protocol == Protocol::HTTP && !topics_of(old(self)@.registered).contains(
                registered_entity(old(self)@.main_device(), registration@).parent.unwrap(),
            ) ==> r == Err::<Vec<EntityTopicId>, EntityStoreError>(
                EntityStoreError::ParentMissing,
            ) && final(self)@ == old(self)@,
            match registration_of(old(self)@, registration@, protocol) {
                Registration::Ignored => r matches Ok(ids) && ids@.len() == 0 && final(self)@
                    == old(self)@,
                Registration::Refused(e) => r == Err::<Vec<EntityTopicId>, EntityStoreError>(e)
                    && final(self)@ == old(self)@,
                Registration::Accepted => {
                    &&& r matches Ok(ids)
                    &&& final(self)@.entities() == old(self)@.entities().insert(
                        registered_entity(old(self)@.main_device(), registration@),
                    )
                    &&& old(self)@.registered.len() <= final(self)@.registered.len()
                    &&& final(self)@.registered.take(old(self)@.registered.len() as int) == old(self)@.registered
                    &&& topic_texts(ids@) == topics_of(
                        final(self)@.registered.skip(old(self)@.registered.len() as int),
                    )
                    &&& old(self)@.pending.len() == 0 && protocol == Protocol::HTTP ==> ids@.len()
                        == 1 && final(self)@.registered == old(self)@.registered.push(
                        registered_entity(old(self)@.main_device(), registration@),
                    )
                },
            },
    {
        let ghost before = self@;
        let ghost expected = registered_entity(before.main_device(), registration@);
        let EntityRegistrationMessage { topic_id, external_id, entity_type, parent, other } =
            registration;
        assert(before.registered[0] == self.registered@[0]@);
        let external_id = match external_id {
            Some(id) => id,
            None => make_default_external_id(self.registered[0].external_id.as_str(), &topic_id),
        };
        let parent = match parent {
            Some(parent) => parent,
            None => {
                let named = match entity_type {
                    EntityType::Service => topic_id.default_parent_identifier(),
                    _ => None,
                };
                match named {
                    Some(parent) => parent,
                    None => self.registered[0].topic_id.clone(),
                }
            },
        };
        let mut promoted: Vec<EntityTopicId> = Vec::new();
        proof {
            lemma_contains_in_either(
                topics_of(before.registered),
                topics_of(before.pending),
                topic_id@,
            );
            lemma_contains_in_either(
                external_ids_of(before.registered),
                external_ids_of(before.pending),
                external_id@,
            );
            assert(topics_of(before.registered + before.pending) =~= topics_of(before.registered)
                + topics_of(before.pending));
            assert(external_ids_of(before.registered + before.pending) =~= external_ids_of(
                before.registered,
            ) + external_ids_of(before.pending));
        }
        let can_attach = attachable(&self.registered, parent.as_str());
        proof {
            if is_attachable(before.registered, parent@) {
                let j = choose|j: int|
                    0 <= j < before.registered.len() && (#[trigger] before.registered[j]).topic_id
                        == parent@ && before.registered[j].entity_type != EntityType::Service;
                assert(topics_of(before.registered)[j] == parent@);
            }
        }
        if !can_attach {
            match protocol {
                Protocol::HTTP => {
                    if find_topic(&self.registered, parent.as_str()).is_some() {
                        assert(topics_of(before.registered).contains(parent@)) by {
                            lemma_found_topic(
                                StoreView { registered: before.registered, pending: Seq::empty() },
                                parent@,
                            );
                            lemma_contains_in_either(
                                topics_of(before.registered),
                                Seq::empty(),
                                parent@,
                            );
                            assert(before.registered + Seq::<EntityView>::empty()
                                =~= before.registered);
                        }
                        return Err(EntityStoreError::InvalidParent);
                    }
                    return Err(EntityStoreError::ParentMissing);
                },
                Protocol::MQTT => {},
            }
        }
        if find_topic(&self.registered, topic_id.as_str()).is_some() || find_topic(
            &self.pending,
            topic_id.as_str(),
        ).is_some() {
            assert(topics_of(before.registered + before.pending).contains(topic_id@)) by {
                lemma_found_topic(before, topic_id@);
            }
            return Ok(promoted);
        }
        match entity_type {
            EntityType::MainDevice => {
                return Err(EntityStoreError::MainDeviceAlreadyRegistered);
            },
            _ => {},
        }
        if find_external_id(&self.registered, external_id.as_str()).is_some() || find_external_id(
            &self.pending,
            external_id.as_str(),
        ).is_some() {
            assert(external_ids_of(before.registered + before.pending).contains(external_id@))
                by {
                lemma_found_external_id(before, external_id@);
            }
            return Err(EntityStoreError::ExternalIdAlreadyUsed);
        }
        let entity = EntityMetadata {
            topic_id,
            external_id,
            entity_type,
            parent: Some(parent),
            other,
        };
        assert(entity@ == expected);
        proof {
            lemma_add_name(
                topics_of(before.registered),
                topics_of(before.pending),
                expected.topic_id,
            );
            lemma_add_name(
                external_ids_of(before.registered),
                external_ids_of(before.pending),
                expected.external_id,
            );
            lemma_added_entity(before.registered, before.pending, expected);
        }
        if can_attach {
            promoted.push(entity.topic_id.clone());
            self.registered.push(entity);
            proof {
                assert(entity_views(self.registered@) =~= before.registered.push(expected));
                assert(topics_of(before.registered.push(expected)) =~= topics_of(
                    before.registered,
                ).push(expected.topic_id));
                assert(external_ids_of(before.registered.push(expected)) =~= external_ids_of(
                    before.registered,
                ).push(expected.external_id));
                lemma_push_keeps_parents_first(before.registered, expected);
                assert(all_have_parents(before.pending)) by {
                    assert forall|k: int| 0 <= k < before.pending.len() implies (
                    #[trigger] before.pending[k]).entity_type != EntityType::MainDevice
                        && before.pending[k].parent is Some by {
                        assert(is_waiting(before.registered, before.pending[k]));
                    }
                }
                assert(topic_texts(promoted@) =~= seq![expected.topic_id]);
            }
            cascade(&mut self.registered, &mut self.pending, &mut promoted);
            proof {
                let n = before.registered.len() as int;
                let after = self@;
                assert(after.registered.take(n) =~= after.registered.take(n + 1).take(n));
                assert(before.registered.push(expected).take(n) =~= before.registered);
                assert(after.registered[n] == after.registered.take(n + 1)[n]);
                assert(topics_of(after.registered.skip(n)) =~= seq![expected.topic_id]
                    + topics_of(after.registered.skip(n + 1)));
            }
        } else {
            self.pending.push(entity);
            proof {
                let after = self@;
                assert(after.pending =~= before.pending.push(expected));
                assert(topics_of(after.pending) =~= topics_of(before.pending).push(
                    expected.topic_id,
                ));
                assert(external_ids_of(after.pending) =~= external_ids_of(before.pending).push(
                    expected.external_id,
                ));
                assert forall|i: int| 0 <= i < after.pending.len() implies is_waiting(
                    after.registered,
                    #[trigger] after.pending[i],
                ) by {
                    if i < before.pending.len() {
                        assert(is_waiting(before.registered, before.pending[i]));
                    }
                }
                assert(after.registered.take(before.registered.len() as int)
                    =~= before.registered);
                assert(topic_texts(promoted@) =~= topics_of(
                    after.registered.skip(before.registered.len() as int),
                ));
            }
        }
        Ok(promoted)
    }
}

impl EntityStore {
    /// Takes an entity out of the store, with all that stands under it,
    /// whether registered or waiting. What comes back are the names of the
    /// entities taken out, the given one first. The main device stays, and
    /// nothing is done for an entity that the store does not know.
    pub fn deregister(&mut self, topic_id: &EntityTopicId) -> (ids: Vec<EntityTopicId>)
        requires
            old(self).wf(),
        ensures
            final(self).wf(),
            final(self)@.main_device() == old(self)@.main_device(),
            if topic_id@ == old(self)@.main_device().topic_id || !topics_of(
                old(self)@.registered + old(self)@.pending,
            ).contains(topic_id@) {
                ids@.len() == 0 && final(self)@ == old(self)@
            } else {
                &&& crate::entity_store::removal::is_subtree(
                    old(self)@.registered + old(self)@.pending,
                    topic_id@,
                    topic_texts(ids@),
                )
                &&& final(self)@.registered == old(self)@.registered.filter(
                    crate::entity_store::removal::outside(topic_texts(ids@)),
                )
                &&& final(self)@.pending == old(self)@.pending.filter(
                    crate::entity_store::removal::outside(topic_texts(ids@)),
                )
            },
    {
        let ghost before = self@;
        let ghost all = before.registered + before.pending;
        assert(before.registered[0] == self.registered@[0]@);
        proof {
            lemma_contains_in_either(
                topics_of(before.registered),
                topics_of(before.pending),
                topic_id@,
            );
            assert(topics_of(all) =~= topics_of(before.registered) + topics_of(before.pending));
        }
        if same_text(topic_id.as_str(), self.registered[0].topic_id.as_str()) {
            return Vec::new();
        }
        if find_topic(&self.registered, topic_id.as_str()).is_none() && find_topic(
            &self.pending,
            topic_id.as_str(),
        ).is_none() {
            return Vec::new();
        }
        let ids = crate::entity_store::removal::subtree(&self.registered, &self.pending, topic_id);
        proof {
            let names = topic_texts(ids@);
            let main = before.registered[0];
            assert forall|k: int| 0 <= k < names.len() implies names[k] != main.topic_id by {
                if k >= 1 && names[k] == main.topic_id {
                    assert(crate::entity_store::removal::is_under_earlier(all, names, k));
                    let i = choose|i: int|
                        0 <= i < all.len() && (#[trigger] all[i]).topic_id == names[k]
                            && crate::entity_store::removal::stands_under(all[i], names.take(k));
                    if i < before.registered.len() {
                        assert(all[i] == before.registered[i]);
                        if i != 0 {
                            assert(topics_of(before.registered)[i] == topics_of(
                                before.registered,
                            )[0]);
                        }
                    } else {
                        assert(all[i] == before.pending[i - before.registered.len()]);
                        assert(topics_of(before.registered)[0] == topics_of(before.pending)[i
                            - before.registered.len()]);
                    }
                }
            }
            crate::entity_store::removal::lemma_removal_keeps_wf(before, names);
        }
        let mut registered: Vec<EntityMetadata> = Vec::new();
        core::mem::swap(&mut registered, &mut self.registered);
        self.registered = crate::entity_store::removal::retain_outside(registered, &ids);
        let mut pending: Vec<EntityMetadata> = Vec::new();
        core::mem::swap(&mut pending, &mut self.pending);
        self.pending = crate::entity_store::removal::retain_outside(pending, &ids);
        ids
    }
}

/// The views of a list of registrations.
pub open spec fn registration_views(made: Seq<EntityRegistrationMessage>) -> Seq<RegistrationView> {
    made.map_values(|m: EntityRegistrationMessage| m@)
}

/// The registration that is made up for an entity of which nothing is
/// known but its name.
pub open spec fn made_up_registration(topic_id: Seq<char>, entity_type: EntityType) -> RegistrationView {
    RegistrationView {
        topic_id,
        external_id: None,
        entity_type,
        parent: None,
        other: Seq::empty(),
    }
}

/// The registrations that are made up when something is heard of an entity
/// that the store does not know: for `device/<device>//`, a child device
/// under the main device; for `device/<device>/service/<service>`, a service
/// under its device, and before it the device, if the store does not know it
/// either. Nothing for an entity that the store knows, and a fault for a name
/// of another scheme.
pub open spec fn auto_registrations(store: StoreView, topic_id: Seq<char>) -> Result<
    Seq<RegistrationView>,
    EntityStoreError,
> {
    let segments = split_text(topic_id, '/');
    let known = topics_of(store.registered + store.pending);
    if known.contains(topic_id) {
        Ok(Seq::empty())
    } else if default_service_of(segments) is Some {
        let device = entity_text(segments[1], Seq::empty(), Seq::empty());
        let service = made_up_registration(topic_id, EntityType::Service);
        if known.contains(device) {
            Ok(seq![service])
        } else {
            Ok(seq![made_up_registration(device, EntityType::ChildDevice), service])
        }
    } else if default_device_of(segments) is Some {
        Ok(seq![made_up_registration(topic_id, EntityType::ChildDevice)])
    } else {
        Err(EntityStoreError::NonDefaultTopicScheme)
    }
}

impl EntityStore {
    fn knows(&self, topic_id: &str) -> (r: bool)
        ensures
            r == topics_of(self@.registered + self@.pending).contains(topic_id@),
    {
        proof {
            lemma_contains_in_either(
                topics_of(self@.registered),
                topics_of(self@.pending),
                topic_id@,
            );
            assert(topics_of(self@.registered + self@.pending) =~= topics_of(self@.registered)
                + topics_of(self@.pending));
        }
        find_topic(&self.registered, topic_id).is_some() || find_topic(
            &self.pending,
            topic_id,
        ).is_some()
    }

    fn make_up(topic_id: &EntityTopicId, entity_type: EntityType) -> (r: EntityRegistrationMessage)
        ensures
            r@ == made_up_registration(topic_id@, entity_type),
    {
        let other: Vec<(String, Json)> = Vec::new();
        assert(field_views(other@) =~= Seq::<(Seq<char>, JsonView)>::empty());
        EntityRegistrationMessage {
            topic_id: topic_id.clone(),
            external_id: None,
            entity_type,
            parent: None,
            other,
        }
    }

    /// The registrations that are made up for an entity of which something
    /// is heard. The store is left as it is.
    pub fn made_up_registrations(&self, topic_id: &EntityTopicId) -> (r: Result<
        Vec<EntityRegistrationMessage>,
        EntityStoreError,
    >)
        ensures
            match auto_registrations(self@, topic_id@) {
                Ok(registrations) => r matches Ok(made) && registration_views(made@)
                    == registrations,
                Err(e) => r == Err::<Vec<EntityRegistrationMessage>, EntityStoreError>(e),
            },
    {
        let mut made: Vec<EntityRegistrationMessage> = Vec::new();
        assert(registration_views(made@) =~= Seq::<RegistrationView>::empty());
        if self.knows(topic_id.as_str()) {
            return Ok(made);
        }
        if topic_id.default_service_name().is_some() {
            let device = match topic_id.default_parent_identifier() {
                Some(device) => device,
                None => {
                    return Err(EntityStoreError::NonDefaultTopicScheme);
                },
            };
            if !self.knows(device.as_str()) {
                made.push(Self::make_up(&device, EntityType::ChildDevice));
            }
            let ghost first = registration_views(made@);
            made.push(Self::make_up(topic_id, EntityType::Service));
            assert(registration_views(made@) =~= first.push(
                made_up_registration(topic_id@, EntityType::Service),
            ));
            assert(first.len() > 0 ==> first =~= seq![
                made_up_registration(device@, EntityType::ChildDevice),
            ]);
            Ok(made)
        } else if topic_id.default_device_name().is_some() {
            made.push(Self::make_up(topic_id, EntityType::ChildDevice));
            assert(registration_views(made@) =~= seq![
                made_up_registration(topic_id@, EntityType::ChildDevice),
            ]);
            Ok(made)
        } else {
            Err(EntityStoreError::NonDefaultTopicScheme)
        }
    }

    /// Registers an entity of which something was heard before it was
    /// registered. What is not known of it is told from its name. The
    /// registrations that were made up come back, so that they can be
    /// published for others to see.
    pub fn auto_register(&mut self, topic_id: &EntityTopicId) -> (r: Result<
        Vec<EntityRegistrationMessage>,
        EntityStoreError,
    >)
        requires
            old(self).wf(),
        ensures
            final(self).wf(),
            match auto_registrations(old(self)@, topic_id@) {
                Ok(registrations) => {
                    &&& r matches Ok(made)
                    &&& registration_views(made@) == registrations
                    &&& lax_run(old(self)@, registrations, final(self)@)
                },
                Err(e) => r == Err::<Vec<EntityRegistrationMessage>, EntityStoreError>(e)
                    && final(self)@ == old(self)@,
            },
    {
        let ghost before = self@;
        let mut made: Vec<EntityRegistrationMessage> = Vec::new();
        assert(registration_views(made@) =~= Seq::<RegistrationView>::empty());
        if self.knows(topic_id.as_str()) {
            return Ok(made);
        }
        let segments = topic_id.to_segments();
        let is_service = topic_id.default_service_name().is_some();
        let is_device = topic_id.default_device_name().is_some();
        if is_service {
            let device = match topic_id.default_parent_identifier() {
                Some(device) => device,
                None => {
                    return Err(EntityStoreError::NonDefaultTopicScheme);
                },
            };
            if !self.knows(device.as_str()) {
                let _ = self.register(
                    Self::make_up(&device, EntityType::ChildDevice),
                    Protocol::MQTT,
                );
                made.push(Self::make_up(&device, EntityType::ChildDevice));
            }
            let ghost middle = self@;
            let ghost first = registration_views(made@);
            let _ = self.register(Self::make_up(topic_id, EntityType::Service), Protocol::MQTT);
            made.push(Self::make_up(topic_id, EntityType::Service));
            proof {
                let all = registration_views(made@);
                let service = made_up_registration(topic_id@, EntityType::Service);
                assert(all =~= first.push(service));
                assert(all.drop_last() =~= first);
                assert(crate::entity_store::laws::lax_step(middle, service, self@));
                if first.len() > 0 {
                    let child = first[0];
                    assert(first.len() == 1);
                    assert(first.last() == child);
                    assert(first.drop_last() =~= Seq::<RegistrationView>::empty());
                    assert(lax_run(before, first.drop_last(), before));
                    assert(crate::entity_store::laws::lax_step(before, first.last(), middle));
                    assert(lax_run(before, first, middle));
                } else {
                    assert(middle == before);
                    assert(lax_run(before, first, middle));
                }
                assert(all.last() == service);
                assert(crate::entity_store::laws::lax_step(middle, all.last(), self@));
                assert(lax_run(before, all, self@));
            }
            Ok(made)
        } else if is_device {
            let _ = self.register(Self::make_up(topic_id, EntityType::ChildDevice), Protocol::MQTT);
            made.push(Self::make_up(topic_id, EntityType::ChildDevice));
            proof {
                let all = registration_views(made@);
                let child = made_up_registration(topic_id@, EntityType::ChildDevice);
                assert(all =~= seq![child]);
                assert(all.last() == child);
                assert(all.drop_last() =~= Seq::<RegistrationView>::empty());
                assert(lax_run(before, all.drop_last(), before));
                assert(crate::entity_store::laws::lax_step(before, all.last(), self@));
                assert(lax_run(before, all, self@));
            }
            Ok(made)
        } else {
            Err(EntityStoreError::NonDefaultTopicScheme)
        }
    }
}

fn copy_entities(entities: &Vec<EntityMetadata>) -> (copies: Vec<EntityMetadata>)
    ensures
        entity_views(copies@) == entity_views(entities@),
{
    let mut copies: Vec<EntityMetadata> = Vec::new();
    let mut i: usize = 0;
    assert(entity_views(copies@) =~= entity_views(entities@).take(0));
    while i < entities.len()
        invariant
            i <= entities.len(),
            entity_views(copies@) == entity_views(entities@).take(i as int),
        decreases entities.len() - i,
    {
        let ghost before = copies@;
        let copy = entities[i].clone();
        copies.push(copy);
        i += 1;
        assert(entity_views(copies@) =~= entity_views(before).push(copy@));
        assert(entity_views(entities@).take(i as int) =~= entity_views(entities@).take(
            i - 1,
        ).push(copy@));
    }
    assert(entity_views(entities@).take(entities.len() as int) =~= entity_views(entities@));
    copies
}

proof fn lemma_found_topic(store: StoreView, topic: Seq<char>)
    requires
        topics_of(store.registered).contains(topic) || topics_of(store.pending).contains(topic),
    ensures
        topics_of(store.registered + store.pending).contains(topic),
{
    lemma_contains_in_either(topics_of(store.registered), topics_of(store.pending), topic);
    assert(topics_of(store.registered + store.pending) =~= topics_of(store.registered)
        + topics_of(store.pending));
}

proof fn lemma_found_external_id(store: StoreView, id: Seq<char>)
    requires
        external_ids_of(store.registered).contains(id) || external_ids_of(store.pending).contains(
            id,
        ),
    ensures
        external_ids_of(store.registered + store.pending).contains(id),
{
    lemma_contains_in_either(
        external_ids_of(store.registered),
        external_ids_of(store.pending),
        id,
    );
    assert(external_ids_of(store.registered + store.pending) =~= external_ids_of(
        store.registered,
    ) + external_ids_of(store.pending));
}

} // verus!

//! What holds of every store: which entities are registered, and that no
//! two entities share a name.

use crate::entity_store::model::{
    external_ids_of, is_attachable, is_waiting, parent_before, topics_of, EntityType, EntityView,
    StoreView,
};
use crate::entity_store::store::{registered_entity, registration_of, Protocol, RegistrationView};
use vstd::prelude::*;

verus! {

/// Tells whether an entity is connected to the main device: it is the main
/// device, or it stands under a device that is connected to it. `depth`
/// bounds the number of steps up to the main device.
pub open spec fn is_connected(
    entities: Set<EntityView>,
    main: Seq<char>,
    topic: Seq<char>,
    depth: nat,
) -> bool
    decreases depth,
{
    topic == main || (depth > 0 && exists|e: EntityView, p: EntityView|
        #![trigger entities.contains(e), entities.contains(p)]
        entities.contains(e) && entities.contains(p) && e.topic_id == topic && e.parent == Some(
            p.topic_id,
        ) && p.entity_type != EntityType::Service && is_connected(
            entities,
            main,
            p.topic_id,
            (depth - 1) as nat,
        ))
}

/// An entity that is connected within some number of steps is connected
/// within any greater number.
pub proof fn lemma_connected_deeper(
    entities: Set<EntityView>,
    main: Seq<char>,
    topic: Seq<char>,
    depth: nat,
    deeper: nat,
)
    requires
        is_connected(entities, main, topic, depth),
        depth <= deeper,
    ensures
        is_connected(entities, main, topic, deeper),
    decreases depth,
{
    if topic != main {
        let (e, p) = choose|e: EntityView, p: EntityView|
            #![trigger entities.contains(e), entities.contains(p)]
            entities.contains(e) && entities.contains(p) && e.topic_id == topic && e.parent
                == Some(p.topic_id) && p.entity_type != EntityType::Service && is_connected(
                entities,
                main,
                p.topic_id,
                (depth - 1) as nat,
            );
        lemma_connected_deeper(entities, main, p.topic_id, (depth - 1) as nat, (deeper - 1) as nat);
    }
}

/// Two entities of a store with one name on the local bus are one entity.
pub proof fn lemma_topic_names_one_entity(store: StoreView, a: EntityView, b: EntityView)
    requires
        store.names_are_unique(),
        store.entities().contains(a),
        store.entities().contains(b),
        a.topic_id == b.topic_id,
    ensures
        a == b,
{
    let all = store.registered + store.pending;
    let n = store.registered.len() as int;
    let i = choose|i: int| 0 <= i < all.len() && all[i] == a;
    let j = choose|j: int| 0 <= j < all.len() && all[j] == b;
    if i != j {
        if i < n && j < n {
            assert(topics_of(store.registered)[i] == topics_of(store.registered)[j]);
        } else if i >= n && j >= n {
            assert(topics_of(store.pending)[i - n] == topics_of(store.pending)[j - n]);
        } else if i < n {
            assert(topics_of(store.registered)[i] == topics_of(store.pending)[j - n]);
        } else {
            assert(topics_of(store.registered)[j] == topics_of(store.pending)[i - n]);
        }
    }
}

/// No two entities of a store share a name in the cloud, whether they are
/// registered or wait for their parents.
pub proof fn lemma_external_ids_are_unique(store: StoreView, a: EntityView, b: EntityView)
    requires
        store.wf(),
        store.entities().contains(a),
        store.entities().contains(b),
        a.external_id == b.external_id,
    ensures
        a == b,
{
    let all = store.registered + store.pending;
    let n = store.registered.len() as int;
    let i = choose|i: int| 0 <= i < all.len() && all[i] == a;
    let j = choose|j: int| 0 <= j < all.len() && all[j] == b;
    if i != j {
        if i < n && j < n {
            assert(external_ids_of(store.registered)[i] == external_ids_of(store.registered)[j]);
        } else if i >= n && j >= n {
            assert(external_ids_of(store.pending)[i - n] == external_ids_of(store.pending)[j
                - n]);
        } else if i < n {
            assert(external_ids_of(store.registered)[i] == external_ids_of(store.pending)[j
                - n]);
        } else {
            assert(external_ids_of(store.registered)[j] == external_ids_of(store.pending)[i
                - n]);
        }
    }
}

/// No two registered entities share a name in the cloud.
pub proof fn lemma_registered_external_ids_differ(store: StoreView, i: int, j: int)
    requires
        store.wf(),
        0 <= i < store.registered.len(),
        0 <= j < store.registered.len(),
        i != j,
    ensures
        store.registered[i].external_id != store.registered[j].external_id,
{
    assert(external_ids_of(store.registered)[i] != external_ids_of(store.registered)[j]);
}

proof fn lemma_registered_is_connected_at(store: StoreView, i: int)
    requires
        store.wf(),
        0 <= i < store.registered.len(),
    ensures
        is_connected(
            store.entities(),
            store.main_device().topic_id,
            store.registered[i].topic_id,
            i as nat,
        ),
    decreases i,
{
    if i > 0 {
        let all = store.registered + store.pending;
        assert(parent_before(store.registered, i));
        let parent = store.registered[i].parent.unwrap();
        let before = store.registered.take(i);
        let j = choose|j: int|
            0 <= j < before.len() && (#[trigger] before[j]).topic_id == parent
                && before[j].entity_type != EntityType::Service;
        assert(before[j] == store.registered[j]);
        lemma_registered_is_connected_at(store, j);
        lemma_connected_deeper(
            store.entities(),
            store.main_device().topic_id,
            parent,
            j as nat,
            (i - 1) as nat,
        );
        let e = store.registered[i];
        let p = store.registered[j];
        assert(all[i] == e && all[j] == p);
        assert(store.entities().contains(e) && store.entities().contains(p));
    }
}

proof fn lemma_connected_is_registered(store: StoreView, topic: Seq<char>, depth: nat)
    requires
        store.wf(),
        is_connected(store.entities(), store.main_device().topic_id, topic, depth),
    ensures
        topics_of(store.registered).contains(topic),
    decreases depth,
{
    let entities = store.entities();
    let main = store.main_device().topic_id;
    let all = store.registered + store.pending;
    let n = store.registered.len() as int;
    if topic == main {
        assert(topics_of(store.registered)[0] == topic);
    } else {
        let (e, p) = choose|e: EntityView, p: EntityView|
            #![trigger entities.contains(e), entities.contains(p)]
            entities.contains(e) && entities.contains(p) && e.topic_id == topic && e.parent
                == Some(p.topic_id) && p.entity_type != EntityType::Service && is_connected(
                entities,
                main,
                p.topic_id,
                (depth - 1) as nat,
            );
        lemma_connected_is_registered(store, p.topic_id, (depth - 1) as nat);
        let j = choose|j: int|
            0 <= j < topics_of(store.registered).len() && topics_of(store.registered)[j]
                == p.topic_id;
        assert(all[j] == store.registered[j]);
        assert(entities.contains(store.registered[j]));
        lemma_topic_names_one_entity(store, store.registered[j], p);
        assert(is_attachable(store.registered, p.topic_id));
        let k = choose|k: int| 0 <= k < all.len() && all[k] == e;
        if k < n {
            assert(topics_of(store.registered)[k] == topic);
        } else {
            assert(store.pending[k - n] == e);
            assert(is_waiting(store.registered, store.pending[k - n]));
        }
    }
}

/// The registered entities are those that are connected to the main device.
pub proof fn lemma_registered_are_the_connected(store: StoreView, topic: Seq<char>)
    requires
        store.wf(),
    ensures
        store.registered_topics().contains(topic) <==> exists|depth: nat|
            is_connected(store.entities(), store.main_device().topic_id, topic, depth),
{
    if store.registered_topics().contains(topic) {
        let i = choose|i: int|
            0 <= i < topics_of(store.registered).len() && topics_of(store.registered)[i]
                == topic;
        lemma_registered_is_connected_at(store, i);
    }
    if exists|depth: nat|
        is_connected(store.entities(), store.main_device().topic_id, topic, depth) {
        let depth = choose|depth: nat|
            is_connected(store.entities(), store.main_device().topic_id, topic, depth);
        lemma_connected_is_registered(store, topic, depth);
    }
}

/// Which entities are registered depends on nothing but the entities that
/// the store knows: two stores that know the same entities have registered
/// the same ones, in whatever order the entities came.
pub proof fn lemma_registered_is_determined(a: StoreView, b: StoreView)
    requires
        a.wf(),
        b.wf(),
        a.entities() == b.entities(),
    ensures
        a.registered_topics() == b.registered_topics(),
{
    let all_a = a.registered + a.pending;
    let all_b = b.registered + b.pending;
    assert(all_a[0] == a.registered[0]);
    assert(all_b[0] == b.registered[0]);
    assert(a.entities().contains(a.main_device()));
    assert(b.entities().contains(b.main_device()));
    lemma_only_main_has_no_parent(a, b.main_device());
    assert forall|topic: Seq<char>|
        a.registered_topics().contains(topic) == b.registered_topics().contains(topic) by {
        lemma_registered_are_the_connected(a, topic);
        lemma_registered_are_the_connected(b, topic);
    }
    assert(a.registered_topics() =~= b.registered_topics());
}

/// The main device is the only entity of a store that is a main device.
pub proof fn lemma_only_main_has_no_parent(store: StoreView, entity: EntityView)
    requires
        store.wf(),
        store.entities().contains(entity),
        entity.entity_type == EntityType::MainDevice,
    ensures
        entity == store.main_device(),
{
    let all = store.registered + store.pending;
    let n = store.registered.len() as int;
    let k = choose|k: int| 0 <= k < all.len() && all[k] == entity;
    if k >= n {
        assert(is_waiting(store.registered, store.pending[k - n]));
    } else if k > 0 {
        assert(parent_before(store.registered, k));
    }
}

/// One registration that came in any order: the store after it knows the
/// entities that it knew, and the new entity if the registration is taken;
/// and all holds of it that holds of every store.
pub open spec fn lax_step(before: StoreView, registration: RegistrationView, after: StoreView) -> bool {
    &&& after.wf()
    &&& after.main_device() == before.main_device()
    &&& after.entities() == if registration_of(before, registration, Protocol::MQTT)
        is Accepted {
        before.entities().insert(registered_entity(before.main_device(), registration))
    } else {
        before.entities()
    }
}

/// The registrations came one after the other, in any order, and led from
/// one store to the other.
pub open spec fn lax_run(
    before: StoreView,
    registrations: Seq<RegistrationView>,
    after: StoreView,
) -> bool
    decreases registrations.len(),
{
    if registrations.len() == 0 {
        after == before
    } else {
        exists|middle: StoreView|
            #![trigger lax_step(middle, registrations.last(), after)]
            lax_run(before, registrations.drop_last(), middle) && lax_step(
                middle,
                registrations.last(),
                after,
            )
    }
}

/// The entities that the registrations stand for.
pub open spec fn registered_entities(
    main: EntityView,
    registrations: Seq<RegistrationView>,
) -> Seq<EntityView> {
    registrations.map_values(|r: RegistrationView| registered_entity(main, r))
}

/// The registrations agree with the store and with each other: none is for
/// a main device; one that brings a name that the store knows, on the local
/// bus or in the cloud, is for that very entity, as the store knows it; and
/// two that bring one name are for one and the same entity. So a
/// registration may come again, as it does when a broker hands out what it
/// kept; what is left out are two registrations that say different things of
/// one name.
pub open spec fn are_in_agreement(store: StoreView, registrations: Seq<RegistrationView>) -> bool {
    let news = registered_entities(store.main_device(), registrations);
    &&& forall|i: int|
        0 <= i < news.len() ==> (#[trigger] news[i]).entity_type != EntityType::MainDevice
    &&& forall|i: int, e: EntityView|
        0 <= i < news.len() && store.entities().contains(e) ==> (#[trigger] news[i]) == e || (
        news[i].topic_id != (#[trigger] e.topic_id) && news[i].external_id != e.external_id)
    &&& forall|i: int, j: int|
        0 <= i < news.len() && 0 <= j < news.len() && i != j ==> (#[trigger] news[i]) == (
        #[trigger] news[j]) || (news[i].topic_id != news[j].topic_id && news[i].external_id
            != news[j].external_id)
}

/// After registrations that agree, in whatever order they came and however
/// often each came, the store knows the entities that it knew and those of
/// the registrations.
pub proof fn lemma_run_entities(
    before: StoreView,
    registrations: Seq<RegistrationView>,
    after: StoreView,
)
    requires
        before.wf(),
        lax_run(before, registrations, after),
        are_in_agreement(before, registrations),
    ensures
        after.wf(),
        after.main_device() == before.main_device(),
        after.entities() == before.entities().union(
            registered_entities(before.main_device(), registrations).to_set(),
        ),
    decreases registrations.len(),
{
    let main = before.main_device();
    let news = registered_entities(main, registrations);
    if registrations.len() == 0 {
        assert(before.entities().union(news.to_set()) =~= before.entities());
    } else {
        let init = registrations.drop_last();
        let last = registrations.last();
        let middle = choose|middle: StoreView|
            #![trigger lax_step(middle, registrations.last(), after)]
            lax_run(before, init, middle) && lax_step(middle, last, after);
        let init_news = registered_entities(main, init);
        assert forall|i: int| 0 <= i < init_news.len() implies init_news[i] == news[i] by {}
        lemma_run_entities(before, init, middle);
        let entity = registered_entity(main, last);
        assert(news[news.len() - 1] == entity);
        let all = middle.registered + middle.pending;
        if middle.entities().contains(entity) {
            let k = choose|k: int| 0 <= k < all.len() && all[k] == entity;
            assert(topics_of(all)[k] == entity.topic_id);
            assert(registration_of(middle, last, Protocol::MQTT) is Ignored);
        } else {
            assert(!topics_of(all).contains(entity.topic_id)) by {
                if topics_of(all).contains(entity.topic_id) {
                    let k = choose|k: int|
                        0 <= k < topics_of(all).len() && topics_of(all)[k] == entity.topic_id;
                    let known = all[k];
                    assert(middle.entities().contains(known));
                    if init_news.to_set().contains(known) {
                        let m = choose|m: int| 0 <= m < init_news.len() && init_news[m] == known;
                        assert(news[m] == news[news.len() - 1] || news[m].topic_id
                            != news[news.len() - 1].topic_id);
                    } else {
                        assert(before.entities().contains(known));
                        assert(news[news.len() - 1] == known || news[news.len() - 1].topic_id
                            != known.topic_id);
                    }
                }
            }
            assert(!external_ids_of(all).contains(entity.external_id)) by {
                if external_ids_of(all).contains(entity.external_id) {
                    let k = choose|k: int|
                        0 <= k < external_ids_of(all).len() && external_ids_of(all)[k]
                            == entity.external_id;
                    let known = all[k];
                    assert(middle.entities().contains(known));
                    if init_news.to_set().contains(known) {
                        let m = choose|m: int| 0 <= m < init_news.len() && init_news[m] == known;
                        assert(news[m] == news[news.len() - 1] || news[m].external_id
                            != news[news.len() - 1].external_id);
                    } else {
                        assert(before.entities().contains(known));
                        assert(news[news.len() - 1] == known || news[news.len() - 1].topic_id
                            != known.topic_id);
                    }
                }
            }
            assert(registration_of(middle, last, Protocol::MQTT) is Accepted);
        }
        assert(news =~= init_news.push(entity));
        assert(news.to_set() =~= init_news.to_set().insert(entity)) by {
            assert forall|x: EntityView| news.to_set().contains(x) <==> (init_news.to_set().contains(
                x,
            ) || x == entity) by {
                if news.contains(x) {
                    let m = choose|m: int| 0 <= m < news.len() && news[m] == x;
                    if m < init_news.len() {
                        assert(init_news[m] == x);
                    }
                }
                if init_news.contains(x) {
                    let m = choose|m: int| 0 <= m < init_news.len() && init_news[m] == x;
                    assert(news[m] == x);
                }
            }
        }
        assert(after.entities() =~= before.entities().union(news.to_set()));
    }
}

/// Registrations that agree do so in whatever order they come, and however
/// often each comes.
proof fn lemma_agreement_in_any_order(
    store: StoreView,
    first: Seq<RegistrationView>,
    second: Seq<RegistrationView>,
)
    requires
        first.to_set() == second.to_set(),
        are_in_agreement(store, first),
    ensures
        are_in_agreement(store, second),
{
    let main = store.main_device();
    let news = registered_entities(main, first);
    let others = registered_entities(main, second);
    assert forall|i: int| 0 <= i < second.len() implies exists|k: int|
        0 <= k < first.len() && first[k] == #[trigger] second[i] by {
        assert(second.to_set().contains(second[i]));
        assert(first.contains(second[i]));
    }
    assert forall|i: int| 0 <= i < others.len() implies (#[trigger] others[i]).entity_type
        != EntityType::MainDevice by {
        let k = choose|k: int| 0 <= k < first.len() && first[k] == second[i];
        assert(news[k] == others[i]);
    }
    assert forall|i: int, e: EntityView|
        0 <= i < others.len() && store.entities().contains(e) implies (#[trigger] others[i]) == e
        || (others[i].topic_id != (#[trigger] e.topic_id) && others[i].external_id
        != e.external_id) by {
        let k = choose|k: int| 0 <= k < first.len() && first[k] == second[i];
        assert(news[k] == others[i]);
    }
    assert forall|i: int, j: int|
        0 <= i < others.len() && 0 <= j < others.len() && i != j implies (#[trigger] others[i])
        == (#[trigger] others[j]) || (others[i].topic_id != others[j].topic_id
        && others[i].external_id != others[j].external_id) by {
        let k = choose|k: int| 0 <= k < first.len() && first[k] == second[i];
        let l = choose|l: int| 0 <= l < first.len() && first[l] == second[j];
        assert(news[k] == others[i]);
        assert(news[l] == others[j]);
    }
}

/// Neither the order of the registrations matters nor how often each
/// comes: whenever two runs of registrations hold the same registrations, and
/// these agree, the store knows the same entities in the end, and has
/// registered the same ones: those that are connected to the main device.
pub proof fn lemma_same_registrations_register_the_same(
    before: StoreView,
    first: Seq<RegistrationView>,
    second: Seq<RegistrationView>,
    a: StoreView,
    b: StoreView,
)
    requires
        before.wf(),
        first.to_set() == second.to_set(),
        are_in_agreement(before, first),
        lax_run(before, first, a),
        lax_run(before, second, b),
    ensures
        a.entities() == b.entities(),
        a.registered_topics() == b.registered_topics(),
        forall|topic: Seq<char>|
            a.registered_topics().contains(topic) <==> exists|depth: nat|
                is_connected(a.entities(), a.main_device().topic_id, topic, depth),
{
    let main = before.main_device();
    lemma_agreement_in_any_order(before, first, second);
    lemma_run_entities(before, first, a);
    lemma_run_entities(before, second, b);
    let news_a = registered_entities(main, first);
    let news_b = registered_entities(main, second);
    assert forall|x: EntityView| news_a.to_set().contains(x) == news_b.to_set().contains(x) by {
        if news_a.contains(x) {
            let m = choose|m: int| 0 <= m < news_a.len() && news_a[m] == x;
            assert(first.to_set().contains(first[m]));
            assert(second.contains(first[m]));
            let k = choose|k: int| 0 <= k < second.len() && second[k] == first[m];
            assert(news_b[k] == x);
        }
        if news_b.contains(x) {
            let m = choose|m: int| 0 <= m < news_b.len() && news_b[m] == x;
            assert(second.to_set().contains(second[m]));
            assert(first.contains(second[m]));
            let k = choose|k: int| 0 <= k < first.len() && first[k] == second[m];
            assert(news_a[k] == x);
        }
    }
    assert(news_a.to_set() =~= news_b.to_set());
    lemma_registered_is_determined(a, b);
    assert forall|topic: Seq<char>|
        a.registered_topics().contains(topic) <==> exists|depth: nat|
            is_connected(a.entities(), a.main_device().topic_id, topic, depth) by {
        lemma_registered_are_the_connected(a, topic);
    }
}

/// The order in which entities are registered does not matter: whenever
/// the same registrations come in two orders, and they agree, the store knows
/// the same entities in the end, and has registered the same ones: those that
/// are connected to the main device.
pub proof fn lemma_any_order_registers_the_same(
    before: StoreView,
    first: Seq<RegistrationView>,
    second: Seq<RegistrationView>,
    a: StoreView,
    b: StoreView,
)
    requires
        before.wf(),
        first.to_multiset() == second.to_multiset(),
        are_in_agreement(before, first),
        lax_run(before, first, a),
        lax_run(before, second, b),
    ensures
        a.entities() == b.entities(),
        a.registered_topics() == b.registered_topics(),
        forall|topic: Seq<char>|
            a.registered_topics().contains(topic) <==> exists|depth: nat|
                is_connected(a.entities(), a.main_device().topic_id, topic, depth),
{
    assert(first.to_set() =~= second.to_set()) by {
        broadcast use vstd::seq_lib::group_to_multiset_ensures;

        assert forall|r: RegistrationView| first.contains(r) == second.contains(r) by {
            assert(first.contains(r) <==> first.to_multiset().count(r) > 0);
            assert(second.contains(r) <==> second.to_multiset().count(r) > 0);
        }
    }
    lemma_same_registrations_register_the_same(before, first, second, a, b);
}

/// Over MQTT a registration that comes early is kept: an entity that the
/// store does not know, that is no main device and whose name in the cloud is
/// free, is known to the store afterwards as it was registered, with its
/// type, its parent and its properties, whether its parent is registered or
/// not; and nothing that the store knew is lost.
pub proof fn lemma_early_registration_is_kept(
    before: StoreView,
    registration: RegistrationView,
    after: StoreView,
)
    requires
        before.wf(),
        lax_step(before, registration, after),
        registration.entity_type != EntityType::MainDevice,
        !topics_of(before.registered + before.pending).contains(registration.topic_id),
        !external_ids_of(before.registered + before.pending).contains(
            registered_entity(before.main_device(), registration).external_id,
        ),
    ensures
        after.entities().contains(registered_entity(before.main_device(), registration)),
        topics_of(after.registered + after.pending).contains(registration.topic_id),
        forall|e: EntityView| before.entities().contains(e) ==> after.entities().contains(e),
{
    let entity = registered_entity(before.main_device(), registration);
    assert(registration_of(before, registration, Protocol::MQTT) is Accepted);
    assert(after.entities().contains(entity));
    let all = after.registered + after.pending;
    let k = choose|k: int| 0 <= k < all.len() && all[k] == entity;
    assert(topics_of(all)[k] == registration.topic_id);
}

} // verus!

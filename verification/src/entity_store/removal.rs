//! Taking an entity out of the store, with all that stands under it.

use crate::entity_store::model::{
    entity_views, external_ids_of, is_attachable, is_waiting, parent_before, topics_of,
    EntityMetadata, EntityType, EntityView, StoreView,
};
use crate::entity_store::store::topic_texts;
use crate::mqtt_topics::EntityTopicId;
use crate::text::same_text;
use vstd::prelude::*;

verus! {

/// The entities whose names are not among the given ones.
pub open spec fn outside(ids: Seq<Seq<char>>) -> spec_fn(EntityView) -> bool {
    |e: EntityView| !ids.contains(e.topic_id)
}

/// Tells whether an entity stands under one of the entities of the given
/// names.
pub open spec fn stands_under(entity: EntityView, ids: Seq<Seq<char>>) -> bool {
    entity.parent is Some && ids.contains(entity.parent.unwrap())
}

/// Tells whether the names are closed in the given entities: an entity that
/// stands under one of them is one of them.
pub open spec fn is_closed(entities: Seq<EntityView>, ids: Seq<Seq<char>>) -> bool {
    forall|i: int|
        0 <= i < entities.len() && stands_under(#[trigger] entities[i], ids) ==> ids.contains(
            entities[i].topic_id,
        )
}

/// Tells whether each name but the first is that of an entity which stands
/// under one whose name comes before it.
pub open spec fn each_under_earlier(entities: Seq<EntityView>, ids: Seq<Seq<char>>) -> bool {
    forall|k: int| 1 <= k < ids.len() ==> #[trigger] is_under_earlier(entities, ids, k)
}

/// Tells whether the name at a place is that of an entity which stands under
/// one whose name comes before it.
pub open spec fn is_under_earlier(entities: Seq<EntityView>, ids: Seq<Seq<char>>, k: int) -> bool {
    exists|i: int|
        0 <= i < entities.len() && (#[trigger] entities[i]).topic_id == ids[k] && stands_under(
            entities[i],
            ids.take(k),
        )
}

/// The names of an entity and of all that stands under it, directly or not:
/// the entity's name comes first, each other name is that of an entity that
/// stands under one named before it, and no entity that stands under one of
/// them is left out.
pub open spec fn is_subtree(entities: Seq<EntityView>, root: Seq<char>, ids: Seq<Seq<char>>) -> bool {
    &&& ids.len() >= 1
    &&& ids[0] == root
    &&& ids.no_duplicates()
    &&& each_under_earlier(entities, ids)
    &&& is_closed(entities, ids)
}

fn contains_id(ids: &Vec<EntityTopicId>, topic: &str) -> (r: bool)
    ensures
        r == topic_texts(ids@).contains(topic@),
{
    let mut i: usize = 0;
    while i < ids.len()
        invariant
            i <= ids.len(),
            forall|k: int| 0 <= k < i ==> topic_texts(ids@)[k] != topic@,
        decreases ids.len() - i,
    {
        if same_text(ids[i].as_str(), topic) {
            assert(topic_texts(ids@)[i as int] == topic@);
            return true;
        }
        i += 1;
    }
    false
}

/// The place of an entity that stands under one of the named entities and
/// is not named itself.
fn next_descendant(entities: &Vec<EntityMetadata>, ids: &Vec<EntityTopicId>) -> (r: Option<usize>)
    ensures
        match r {
            Some(i) => i < entities@.len() && stands_under(
                entity_views(entities@)[i as int],
                topic_texts(ids@),
            ) && !topic_texts(ids@).contains(entity_views(entities@)[i as int].topic_id),
            None => is_closed(entity_views(entities@), topic_texts(ids@)),
        },
{
    let mut i: usize = 0;
    while i < entities.len()
        invariant
            i <= entities.len(),
            forall|k: int|
                0 <= k < i && stands_under(
                    #[trigger] entity_views(entities@)[k],
                    topic_texts(ids@),
                ) ==> topic_texts(ids@).contains(entity_views(entities@)[k].topic_id),
        decreases entities.len() - i,
    {
        assert(entity_views(entities@)[i as int] == entities@[i as int]@);
        let under = match &entities[i].parent {
            Some(parent) => contains_id(ids, parent.as_str()),
            None => false,
        };
        if under && !contains_id(ids, entities[i].topic_id.as_str()) {
            return Some(i);
        }
        i += 1;
    }
    None
}

proof fn lemma_names_bounded(ids: Seq<Seq<char>>, all: Seq<Seq<char>>)
    requires
        ids.no_duplicates(),
        forall|k: int| 0 <= k < ids.len() ==> all.contains(#[trigger] ids[k]),
    ensures
        ids.len() <= all.len(),
{
    ids.unique_seq_to_set();
    all.lemma_cardinality_of_set();
    assert(ids.to_set().subset_of(all.to_set())) by {
        assert forall|x: Seq<char>| ids.to_set().contains(x) implies all.to_set().contains(x) by {
            let k = choose|k: int| 0 <= k < ids.len() && ids[k] == x;
            assert(all.contains(ids[k]));
        }
    }
    vstd::seq_lib::seq_to_set_is_finite(all);
    vstd::set_lib::lemma_len_subset(ids.to_set(), all.to_set());
}

/// The names of an entity and of all that stands under it, among the
/// registered entities and among those that wait.
pub(crate) fn subtree(
    registered: &Vec<EntityMetadata>,
    pending: &Vec<EntityMetadata>,
    root: &EntityTopicId,
) -> (ids: Vec<EntityTopicId>)
    requires
        topics_of(entity_views(registered@) + entity_views(pending@)).contains(root@),
    ensures
        is_subtree(entity_views(registered@) + entity_views(pending@), root@, topic_texts(ids@)),
        forall|k: int|
            0 <= k < ids@.len() ==> topics_of(
                entity_views(registered@) + entity_views(pending@),
            ).contains(#[trigger] topic_texts(ids@)[k]),
{
    let ghost reg = entity_views(registered@);
    let ghost pend = entity_views(pending@);
    let ghost all = reg + pend;
    let mut ids: Vec<EntityTopicId> = Vec::new();
    ids.push(root.clone());
    proof {
        assert(topic_texts(ids@) =~= seq![root@]);
        lemma_names_bounded(topic_texts(ids@), topics_of(all));
    }
    loop
        invariant
            reg == entity_views(registered@),
            pend == entity_views(pending@),
            all == reg + pend,
            ids@.len() >= 1,
            topic_texts(ids@)[0] == root@,
            topic_texts(ids@).no_duplicates(),
            each_under_earlier(all, topic_texts(ids@)),
            forall|k: int|
                0 <= k < ids@.len() ==> topics_of(all).contains(#[trigger] topic_texts(ids@)[k]),
            ids@.len() <= all.len(),
        ensures
            is_closed(all, topic_texts(ids@)),
        decreases all.len() - ids@.len(),
    {
        let ghost names = topic_texts(ids@);
        let found = match next_descendant(registered, &ids) {
            Some(i) => {
                assert(all[i as int] == reg[i as int]);
                Some(registered[i].topic_id.clone())
            },
            None => match next_descendant(pending, &ids) {
                Some(i) => {
                    assert(all[reg.len() + i] == pend[i as int]);
                    Some(pending[i].topic_id.clone())
                },
                None => None,
            },
        };
        match found {
            Some(id) => {
                let ghost at = choose|i: int|
                    0 <= i < all.len() && all[i].topic_id == id@ && stands_under(all[i], names);
                ids.push(id);
                proof {
                    let after = topic_texts(ids@);
                    assert(after =~= names.push(id@));
                    assert(topics_of(all)[at] == id@);
                    assert forall|k: int| 1 <= k < after.len() implies #[trigger] is_under_earlier(
                        all,
                        after,
                        k,
                    ) by {
                        if k < names.len() {
                            assert(after.take(k) =~= names.take(k));
                            assert(is_under_earlier(all, names, k));
                            let i = choose|i: int|
                                0 <= i < all.len() && (#[trigger] all[i]).topic_id == names[k]
                                    && stands_under(all[i], names.take(k));
                            assert(all[i].topic_id == after[k]);
                        } else {
                            assert(after.take(k) =~= names);
                            assert(all[at].topic_id == after[k]);
                        }
                    }
                    assert forall|k: int| 0 <= k < after.len() implies topics_of(all).contains(
                        #[trigger] after[k],
                    ) by {
                        if k < names.len() {
                            assert(after[k] == names[k]);
                        }
                    }
                    lemma_names_bounded(after, topics_of(all));
                }
            },
            None => {
                proof {
                    assert forall|i: int|
                        0 <= i < all.len() && stands_under(
                            #[trigger] all[i],
                            names,
                        ) implies names.contains(all[i].topic_id) by {
                        if i < reg.len() {
                            assert(all[i] == reg[i]);
                        } else {
                            assert(all[i] == pend[i - reg.len()]);
                        }
                    }
                }
                break ;
            },
        }
    }
    ids
}

/// The entities whose names are not among the given ones, in their order.
pub(crate) fn retain_outside(entities: Vec<EntityMetadata>, ids: &Vec<EntityTopicId>) -> (kept: Vec<
    EntityMetadata,
>)
    ensures
        entity_views(kept@) == entity_views(entities@).filter(outside(topic_texts(ids@))),
{
    let mut entities = entities;
    let ghost all = entity_views(entities@);
    let ghost keep = outside(topic_texts(ids@));
    let mut i: usize = 0;
    let ghost mut done: int = 0;
    proof {
        assert(all.take(0) =~= Seq::<EntityView>::empty());
        assert(all.take(0).filter(keep) + all.skip(0) =~= all) by {
            reveal(Seq::filter);
        }
    }
    while i < entities.len()
        invariant
            i <= entities.len(),
            0 <= done <= all.len(),
            entities@.len() - i == all.len() - done,
            keep == outside(topic_texts(ids@)),
            entity_views(entities@) == all.take(done).filter(keep) + all.skip(done),
            i == all.take(done).filter(keep).len(),
        decreases entities.len() - i,
    {
        let ghost before = entity_views(entities@);
        proof {
            assert(all.take(done + 1).drop_last() =~= all.take(done));
            assert(all.take(done + 1).last() == all[done]);
            assert(before[i as int] == all.skip(done)[0]);
            assert(before[i as int] == entities@[i as int]@);
            reveal(Seq::filter);
        }
        if contains_id(ids, entities[i].topic_id.as_str()) {
            entities.remove(i);
            proof {
                assert(entity_views(entities@) =~= before.remove(i as int));
                assert(before.remove(i as int) =~= all.take(done + 1).filter(keep) + all.skip(
                    done + 1,
                ));
            }
        } else {
            proof {
                assert(before =~= all.take(done + 1).filter(keep) + all.skip(done + 1));
            }
            i += 1;
        }
        proof {
            done = done + 1;
        }
    }
    proof {
        assert(all.take(done) =~= all);
        assert(all.skip(done) =~= Seq::<EntityView>::empty());
        assert(entity_views(entities@) =~= all.filter(keep));
    }
    entities
}

/// What a filter keeps was there before, and meets the filter.
pub proof fn lemma_filter_elements(s: Seq<EntityView>, pred: spec_fn(EntityView) -> bool)
    ensures
        forall|k: int|
            0 <= k < s.filter(pred).len() ==> s.contains(#[trigger] s.filter(pred)[k]) && pred(
                s.filter(pred)[k],
            ),
    decreases s.len(),
{
    reveal(Seq::filter);
    if s.len() > 0 {
        let init = s.drop_last();
        lemma_filter_elements(init, pred);
        assert forall|k: int| 0 <= k < s.filter(pred).len() implies s.contains(
            #[trigger] s.filter(pred)[k],
        ) && pred(s.filter(pred)[k]) by {
            if k < init.filter(pred).len() {
                let e = init.filter(pred)[k];
                assert(init.contains(e));
                let m = choose|m: int| 0 <= m < init.len() && init[m] == e;
                assert(s[m] == e);
            } else {
                assert(s[s.len() - 1] == s.last());
            }
        }
    }
}

/// A filter keeps names apart that were apart.
pub proof fn lemma_filter_keeps_unique(
    s: Seq<EntityView>,
    pred: spec_fn(EntityView) -> bool,
    key: spec_fn(EntityView) -> Seq<char>,
)
    requires
        s.map_values(key).no_duplicates(),
    ensures
        s.filter(pred).map_values(key).no_duplicates(),
    decreases s.len(),
{
    reveal(Seq::filter);
    if s.len() > 0 {
        let init = s.drop_last();
        assert forall|i: int, j: int|
            0 <= i < init.len() && 0 <= j < init.len() && i != j implies init.map_values(key)[i]
            != init.map_values(key)[j] by {
            assert(s.map_values(key)[i] != s.map_values(key)[j]);
        }
        lemma_filter_keeps_unique(init, pred, key);
        lemma_filter_elements(init, pred);
        let kept = init.filter(pred);
        if pred(s.last()) {
            let all = kept.push(s.last());
            assert forall|i: int, j: int|
                0 <= i < all.len() && 0 <= j < all.len() && i != j implies all.map_values(key)[i]
                != all.map_values(key)[j] by {
                if i < kept.len() && j < kept.len() {
                    assert(kept.map_values(key)[i] != kept.map_values(key)[j]);
                } else {
                    let other = if i < kept.len() {
                        i
                    } else {
                        j
                    };
                    assert(init.contains(kept[other]));
                    let m = choose|m: int| 0 <= m < init.len() && init[m] == kept[other];
                    assert(s.map_values(key)[m] != s.map_values(key)[s.len() - 1]);
                }
            }
        }
    }
}

proof fn lemma_filter_keeps_parents_first(registered: Seq<EntityView>, ids: Seq<Seq<char>>, n: int)
    requires
        (StoreView { registered, pending: Seq::empty() }).parents_come_first(),
        is_closed(registered, ids),
        !ids.contains(registered[0].topic_id),
        1 <= n <= registered.len(),
    ensures
        (StoreView {
            registered: registered.take(n).filter(outside(ids)),
            pending: Seq::empty(),
        }).parents_come_first(),
        registered.take(n).filter(outside(ids))[0] == registered[0],
    decreases n,
{
    reveal(Seq::filter);
    let keep = outside(ids);
    if n == 1 {
        assert(registered.take(1).drop_last() =~= Seq::<EntityView>::empty());
        assert(registered.take(1).last() == registered[0]);
        assert(registered.take(1).filter(keep) =~= seq![registered[0]]);
    } else {
        lemma_filter_keeps_parents_first(registered, ids, n - 1);
        let init = registered.take(n - 1);
        let entity = registered[n - 1];
        assert(registered.take(n).drop_last() =~= init);
        assert(registered.take(n).last() == entity);
        if keep(entity) {
            assert(parent_before(registered, n - 1));
            let parent = entity.parent.unwrap();
            let j = choose|j: int|
                0 <= j < init.len() && (#[trigger] init[j]).topic_id == parent
                    && init[j].entity_type != EntityType::Service;
            assert(!ids.contains(parent)) by {
                if ids.contains(parent) {
                    assert(stands_under(registered[n - 1], ids));
                }
            }
            assert(keep(init[j]));
            init.lemma_filter_contains(keep, j);
            let kept = init.filter(keep);
            let m = choose|m: int| 0 <= m < kept.len() && kept[m] == init[j];
            assert(is_attachable(kept, parent)) by {
                assert(kept[m].topic_id == parent);
            }
            crate::entity_store::store::lemma_push_keeps_parents_first(kept, entity);
        }
    }
}

/// Taking out a set of entities that is closed, and does not hold the main
/// device, leaves a store of which all holds that held before.
pub proof fn lemma_removal_keeps_wf(store: StoreView, ids: Seq<Seq<char>>)
    requires
        store.wf(),
        is_closed(store.registered + store.pending, ids),
        !ids.contains(store.registered[0].topic_id),
    ensures
        (StoreView {
            registered: store.registered.filter(outside(ids)),
            pending: store.pending.filter(outside(ids)),
        }).wf(),
        store.registered.filter(outside(ids))[0] == store.registered[0],
{
    let keep = outside(ids);
    let registered = store.registered.filter(keep);
    let pending = store.pending.filter(keep);
    let all = store.registered + store.pending;
    assert(is_closed(store.registered, ids)) by {
        assert forall|i: int|
            0 <= i < store.registered.len() && stands_under(
                #[trigger] store.registered[i],
                ids,
            ) implies ids.contains(store.registered[i].topic_id) by {
            assert(all[i] == store.registered[i]);
        }
    }
    assert(store.registered.take(store.registered.len() as int) =~= store.registered);
    lemma_filter_keeps_parents_first(store.registered, ids, store.registered.len() as int);
    lemma_filter_elements(store.registered, keep);
    lemma_filter_elements(store.pending, keep);
    let topic = |e: EntityView| e.topic_id;
    let external = |e: EntityView| e.external_id;
    assert(topics_of(store.registered) =~= store.registered.map_values(topic));
    assert(topics_of(store.pending) =~= store.pending.map_values(topic));
    assert(external_ids_of(store.registered) =~= store.registered.map_values(external));
    assert(external_ids_of(store.pending) =~= store.pending.map_values(external));
    lemma_filter_keeps_unique(store.registered, keep, topic);
    lemma_filter_keeps_unique(store.pending, keep, topic);
    lemma_filter_keeps_unique(store.registered, keep, external);
    lemma_filter_keeps_unique(store.pending, keep, external);
    assert(topics_of(registered) =~= registered.map_values(topic));
    assert(topics_of(pending) =~= pending.map_values(topic));
    assert(external_ids_of(registered) =~= registered.map_values(external));
    assert(external_ids_of(pending) =~= pending.map_values(external));
    assert forall|i: int, j: int|
        0 <= i < registered.len() && 0 <= j < pending.len() implies topics_of(registered)[i]
        != topics_of(pending)[j] && external_ids_of(registered)[i] != external_ids_of(
        pending,
    )[j] by {
        assert(store.registered.contains(registered[i]));
        assert(store.pending.contains(pending[j]));
        let a = choose|a: int| 0 <= a < store.registered.len() && store.registered[a] == registered[i];
        let b = choose|b: int| 0 <= b < store.pending.len() && store.pending[b] == pending[j];
        assert(topics_of(store.registered)[a] != topics_of(store.pending)[b]);
        assert(external_ids_of(store.registered)[a] != external_ids_of(store.pending)[b]);
    }
    assert forall|i: int| 0 <= i < pending.len() implies is_waiting(
        registered,
        #[trigger] pending[i],
    ) by {
        assert(store.pending.contains(pending[i]));
        let b = choose|b: int| 0 <= b < store.pending.len() && store.pending[b] == pending[i];
        assert(is_waiting(store.registered, store.pending[b]));
        let parent = pending[i].parent.unwrap();
        if is_attachable(registered, parent) {
            let j = choose|j: int|
                0 <= j < registered.len() && (#[trigger] registered[j]).topic_id == parent
                    && registered[j].entity_type != EntityType::Service;
            assert(store.registered.contains(registered[j]));
            let a = choose|a: int|
                0 <= a < store.registered.len() && store.registered[a] == registered[j];
            assert(store.registered[a].topic_id == parent);
        }
    }
}

} // verus!

//! The log of the entity store: what is written down of registrations and
//! deregistrations, so that the store can be built again.

use crate::entity_store::laws::{
    are_in_agreement, lax_run, lax_step, lemma_registered_is_determined, lemma_run_entities,
    registered_entities,
};
use crate::entity_store::model::{
    entity_views, external_ids_of, is_waiting, parent_before, topics_of, EntityMetadata, EntityType,
    EntityView, StoreView,
};
use crate::entity_store::registration::registration_parsed;
use crate::entity_store::removal::{is_subtree, outside};
use crate::entity_store::store::{
    EntityRegistrationMessage, EntityStore, Protocol, RegistrationView,
};
use crate::json::{Json, JsonView};
use crate::json_codec::json_printed;
use crate::mqtt::message::{MqttMessage, MqttMessageView};
use crate::mqtt::topic::{is_valid_topic, QoS};
use crate::mqtt_topics::{
    parsed_topic, topic_text, Channel, ChannelView, EntityTopicId, MqttSchema,
};
use crate::text::owned;
use vstd::prelude::*;
use vstd::utf8::encode_utf8;

verus! {

/// What is written down of a change of the store.
#[derive(Debug)]
pub enum LogRecord {
    /// An entity was registered.
    Registered(EntityRegistrationMessage),
    /// An entity was taken out.
    Deregistered(EntityTopicId),
}

/// A record as contracts speak of it.
pub enum RecordView {
    Registered(RegistrationView),
    Deregistered(Seq<char>),
}

impl LogRecord {
    pub open spec fn view(&self) -> RecordView {
        match self {
            LogRecord::Registered(registration) => RecordView::Registered(registration@),
            LogRecord::Deregistered(topic_id) => RecordView::Deregistered(topic_id@),
        }
    }

    /// Reads a record from a message of the log: an empty message on an
    /// entity's topic says that the entity was taken out, and a registration
    /// says that it was registered. None for any other message: such a record
    /// is damaged, and is passed over.
    pub fn from_message(schema: &MqttSchema, message: &MqttMessage) -> (r: Option<LogRecord>)
        ensures
            match record_parsed(schema.root@, message.topic@, message.payload@) {
                Some(view) => r matches Some(record) && record@ == view,
                None => r is None,
            },
    {
        if message.payload.len() == 0 {
            match schema.entity_channel_of(message.topic.name()) {
                Ok((topic_id, Channel::EntityMetadata)) => Some(LogRecord::Deregistered(topic_id)),
                _ => None,
            }
        } else {
            match EntityRegistrationMessage::new(schema, message) {
                Some(registration) => Some(LogRecord::Registered(registration)),
                None => None,
            }
        }
    }
}

/// The record that a message of the log stands for.
pub open spec fn record_parsed(root: Seq<char>, topic: Seq<char>, payload: Seq<u8>) -> Option<
    RecordView,
> {
    if payload.len() == 0 {
        match parsed_topic(root, topic) {
            Ok((topic_id, ChannelView::EntityMetadata)) => Some(RecordView::Deregistered(topic_id)),
            _ => None,
        }
    } else {
        match registration_parsed(root, topic, payload) {
            Some(registration) => Some(RecordView::Registered(registration)),
            None => None,
        }
    }
}

/// One record of the log was applied: a registration is taken as those that
/// come in any order; a deregistration takes the entity out with all that
/// stands under it; a damaged record changes nothing.
pub open spec fn record_step(before: StoreView, record: Option<RecordView>, after: StoreView) -> bool {
    match record {
        None => after == before,
        Some(RecordView::Registered(registration)) => lax_step(before, registration, after),
        Some(RecordView::Deregistered(topic_id)) => {
            &&& after.wf()
            &&& after.main_device() == before.main_device()
            &&& if topic_id == before.main_device().topic_id || !topics_of(
                before.registered + before.pending,
            ).contains(topic_id) {
                after == before
            } else {
                exists|ids: Seq<Seq<char>>|
                    #![trigger outside(ids)]
                    is_subtree(before.registered + before.pending, topic_id, ids)
                        && after.registered == before.registered.filter(outside(ids))
                        && after.pending == before.pending.filter(outside(ids))
            }
        },
    }
}

/// The records of the log were applied one after the other.
pub open spec fn replay_run(
    before: StoreView,
    records: Seq<Option<RecordView>>,
    after: StoreView,
) -> bool
    decreases records.len(),
{
    if records.len() == 0 {
        after == before
    } else {
        exists|middle: StoreView|
            #![trigger record_step(middle, records.last(), after)]
            replay_run(before, records.drop_last(), middle) && record_step(
                middle,
                records.last(),
                after,
            )
    }
}

/// The views of a list of records, of which some are damaged.
pub open spec fn record_views(records: Seq<Option<LogRecord>>) -> Seq<Option<RecordView>> {
    records.map_values(
        |r: Option<LogRecord>|
            match r {
                Some(record) => Some(record@),
                None => None,
            },
    )
}

/// The registration that brings an entity back as it is.
pub open spec fn registration_for(entity: EntityView) -> RegistrationView {
    RegistrationView {
        topic_id: entity.topic_id,
        external_id: Some(entity.external_id),
        entity_type: entity.entity_type,
        parent: entity.parent,
        other: entity.other,
    }
}

/// The registrations that bring back all the entities of a store but the
/// main device: the registered ones in their order, then those that wait.
pub open spec fn snapshot_of(store: StoreView) -> Seq<RegistrationView> {
    (store.registered.skip(1) + store.pending).map_values(|e: EntityView| registration_for(e))
}

fn registration_of_entity(entity: &EntityMetadata) -> (r: EntityRegistrationMessage)
    ensures
        r@ == registration_for(entity@),
{
    let copy = entity.clone();
    EntityRegistrationMessage {
        topic_id: copy.topic_id,
        external_id: Some(copy.external_id),
        entity_type: copy.entity_type,
        parent: copy.parent,
        other: copy.other,
    }
}

impl EntityStore {
    /// Applies a record of the log. A damaged record is passed over.
    pub fn apply_record(&mut self, record: Option<LogRecord>)
        requires
            old(self).wf(),
        ensures
            final(self).wf(),
            record_step(
                old(self)@,
                match record {
                    Some(r) => Some(r@),
                    None => None,
                },
                final(self)@,
            ),
    {
        match record {
            None => {},
            Some(LogRecord::Registered(registration)) => {
                let _ = self.register(registration, Protocol::MQTT);
            },
            Some(LogRecord::Deregistered(topic_id)) => {
                let ids = self.deregister(&topic_id);
                assert(outside(crate::entity_store::store::topic_texts(ids@)) == outside(
                    crate::entity_store::store::topic_texts(ids@),
                ));
            },
        }
    }

    /// Builds the store again from its log.
    pub fn replay(device_id: &str, records: &Vec<Option<LogRecord>>) -> (store: EntityStore)
        ensures
            store.wf(),
            replay_run(
                (StoreView {
                    registered: seq![crate::entity_store::model::main_device_view(device_id@)],
                    pending: Seq::empty(),
                }),
                record_views(records@),
                store@,
            ),
    {
        let mut store = EntityStore::new(device_id);
        let ghost start = store@;
        let ghost all = record_views(records@);
        proof {
            assert(start.pending =~= Seq::<EntityView>::empty());
            assert(all.take(0) =~= Seq::<Option<RecordView>>::empty());
        }
        let mut done: usize = 0;
        while done < records.len()
            invariant
                store.wf(),
                done <= records@.len(),
                all == record_views(records@),
                replay_run(start, all.take(done as int), store@),
            decreases records@.len() - done,
        {
            let ghost middle = store@;
            let record = match &records[done] {
                Some(LogRecord::Registered(registration)) => Some(
                    LogRecord::Registered(registration.clone()),
                ),
                Some(LogRecord::Deregistered(topic_id)) => Some(
                    LogRecord::Deregistered(topic_id.clone()),
                ),
                None => None,
            };
            store.apply_record(record);
            proof {
                let next = all.take(done + 1);
                assert(next.drop_last() =~= all.take(done as int));
                assert(next.last() == all[done as int]);
                assert(record_step(middle, next.last(), store@));
            }
            done += 1;
        }
        assert(all.take(done as int) =~= all);
        store
    }

    /// The registrations that bring back all that the store knows, but for
    /// the main device. The log can be written anew with these alone.
    pub fn snapshot(&self) -> (registrations: Vec<EntityRegistrationMessage>)
        requires
            self.wf(),
        ensures
            crate::entity_store::store::registration_views(registrations@) == snapshot_of(self@),
    {
        let ghost expected = snapshot_of(self@);
        let registered = self.registered_entities();
        let pending = self.pending_entities();
        let mut registrations: Vec<EntityRegistrationMessage> = Vec::new();
        let mut i: usize = 1;
        assert(crate::entity_store::store::registration_views(registrations@) =~= expected.take(
            0,
        ));
        while i < registered.len()
            invariant
                1 <= i <= registered@.len(),
                entity_views(registered@) == self@.registered,
                entity_views(pending@) == self@.pending,
                expected == snapshot_of(self@),
                crate::entity_store::store::registration_views(registrations@) == expected.take(
                    i - 1,
                ),
            decreases registered@.len() - i,
        {
            let ghost before = registrations@;
            let registration = registration_of_entity(&registered[i]);
            registrations.push(registration);
            proof {
                assert(self@.registered[i as int] == registered@[i as int]@);
                assert((self@.registered.skip(1) + self@.pending)[i - 1]
                    == self@.registered[i as int]);
                assert(expected[i - 1] == registration@);
                assert(crate::entity_store::store::registration_views(registrations@)
                    =~= crate::entity_store::store::registration_views(before).push(
                    registration@,
                ));
                assert(expected.take(i as int) =~= expected.take(i - 1).push(registration@));
            }
            i += 1;
        }
        let ghost n = (registered@.len() - 1) as int;
        let mut k: usize = 0;
        assert(expected.len() == n + pending@.len());
        while k < pending.len()
            invariant
                k <= pending@.len(),
                n == registered@.len() - 1,
                expected.len() == n + pending@.len(),
                entity_views(registered@) == self@.registered,
                entity_views(pending@) == self@.pending,
                expected == snapshot_of(self@),
                crate::entity_store::store::registration_views(registrations@) == expected.take(
                    n + k,
                ),
            decreases pending@.len() - k,
        {
            let ghost before = registrations@;
            let registration = registration_of_entity(&pending[k]);
            registrations.push(registration);
            proof {
                assert(self@.pending[k as int] == pending@[k as int]@);
                assert((self@.registered.skip(1) + self@.pending)[n + k] == self@.pending[k as int]);
                assert(expected[n + k] == registration@);
                assert(crate::entity_store::store::registration_views(registrations@)
                    =~= crate::entity_store::store::registration_views(before).push(
                    registration@,
                ));
                assert(expected.take(n + k + 1) =~= expected.take(n + k).push(registration@));
            }
            k += 1;
        }
        assert(expected.take(n + pending@.len()) =~= expected);
        registrations
    }
}

/// Writing the log anew loses nothing: a store that is built from the
/// snapshot of another knows the same entities, and has registered the same.
pub proof fn lemma_snapshot_brings_all_back(store: StoreView, rebuilt: StoreView)
    requires
        store.wf(),
        lax_run(
            (StoreView { registered: seq![store.main_device()], pending: Seq::empty() }),
            snapshot_of(store),
            rebuilt,
        ),
    ensures
        rebuilt.entities() == store.entities(),
        rebuilt.registered_topics() == store.registered_topics(),
{
    let main = store.main_device();
    let start = StoreView { registered: seq![main], pending: Seq::empty() };
    let others = store.registered.skip(1) + store.pending;
    let snapshot = snapshot_of(store);
    let news = registered_entities(main, snapshot);
    let n = store.registered.len() as int;
    assert(start.wf()) by {
        assert(start.pending.len() == 0);
        assert(topics_of(start.registered).len() == 1);
        assert(external_ids_of(start.registered).len() == 1);
    }
    assert forall|i: int| 0 <= i < others.len() implies others[i].entity_type
        != EntityType::MainDevice && others[i].parent is Some && #[trigger] news[i]
        == others[i] by {
        if i < n - 1 {
            assert(others[i] == store.registered[i + 1]);
            assert(parent_before(store.registered, i + 1));
        } else {
            assert(others[i] == store.pending[i - (n - 1)]);
            assert(is_waiting(store.registered, store.pending[i - (n - 1)]));
        }
    }
    assert(news =~= others);
    assert(start.main_device() == main);
    assert forall|i: int, e: EntityView|
        0 <= i < news.len() && start.entities().contains(e) implies (#[trigger] news[i]).topic_id
        != (#[trigger] e.topic_id) && news[i].external_id != e.external_id by {
        assert(e == main);
        lemma_differ_from_main(store, i);
    }
    assert forall|i: int, j: int|
        0 <= i < news.len() && 0 <= j < news.len() && i != j implies (
    #[trigger] news[i]).topic_id != (#[trigger] news[j]).topic_id && news[i].external_id
        != news[j].external_id by {
        lemma_others_differ(store, i, j);
    }
    assert(are_in_agreement(start, snapshot));
    lemma_run_entities(start, snapshot, rebuilt);
    assert(rebuilt.entities() =~= store.entities()) by {
        let all = store.registered + store.pending;
        assert forall|e: EntityView| store.entities().contains(e) <==> (e == main
            || news.to_set().contains(e)) by {
            if all.contains(e) {
                let k = choose|k: int| 0 <= k < all.len() && all[k] == e;
                if k > 0 {
                    assert(others[k - 1] == e);
                }
            }
            if others.contains(e) {
                let k = choose|k: int| 0 <= k < others.len() && others[k] == e;
                assert(all[k + 1] == e);
            }
            assert(all[0] == main);
        }
        assert forall|e: EntityView| start.entities().contains(e) <==> e == main by {
            assert((start.registered + start.pending) =~= seq![main]);
            assert(seq![main][0] == main);
        }
    }
    lemma_registered_is_determined(rebuilt, store);
}

/// The records that say that the given entities were registered.
pub open spec fn registered_records(registrations: Seq<RegistrationView>) -> Seq<Option<RecordView>> {
    registrations.map_values(|r: RegistrationView| Some(RecordView::Registered(r)))
}

/// Replaying records of registrations is registering in any order.
pub proof fn lemma_replay_registers(
    before: StoreView,
    registrations: Seq<RegistrationView>,
    after: StoreView,
)
    requires
        replay_run(before, registered_records(registrations), after),
    ensures
        lax_run(before, registrations, after),
    decreases registrations.len(),
{
    let records = registered_records(registrations);
    if registrations.len() > 0 {
        let middle = choose|middle: StoreView|
            #![trigger record_step(middle, records.last(), after)]
            replay_run(before, records.drop_last(), middle) && record_step(
                middle,
                records.last(),
                after,
            );
        assert(records.drop_last() =~= registered_records(registrations.drop_last()));
        lemma_replay_registers(before, registrations.drop_last(), middle);
        assert(records.last() == Some(RecordView::Registered(registrations.last())));
        assert(lax_step(middle, registrations.last(), after));
    }
}

/// A store that is built again from the snapshot of another, written as a
/// log, knows the same entities and has registered the same.
pub proof fn lemma_replayed_snapshot(store: StoreView, rebuilt: StoreView)
    requires
        store.wf(),
        replay_run(
            (StoreView { registered: seq![store.main_device()], pending: Seq::empty() }),
            registered_records(snapshot_of(store)),
            rebuilt,
        ),
    ensures
        rebuilt.entities() == store.entities(),
        rebuilt.registered_topics() == store.registered_topics(),
{
    lemma_replay_registers(
        StoreView { registered: seq![store.main_device()], pending: Seq::empty() },
        snapshot_of(store),
        rebuilt,
    );
    lemma_snapshot_brings_all_back(store, rebuilt);
}

proof fn lemma_differ_from_main(store: StoreView, i: int)
    requires
        store.wf(),
        0 <= i < (store.registered.skip(1) + store.pending).len(),
    ensures
        (store.registered.skip(1) + store.pending)[i].topic_id != store.registered[0].topic_id,
        (store.registered.skip(1) + store.pending)[i].external_id
            != store.registered[0].external_id,
{
    let n = store.registered.len() as int;
    if i < n - 1 {
        assert(topics_of(store.registered)[i + 1] != topics_of(store.registered)[0]);
        assert(external_ids_of(store.registered)[i + 1] != external_ids_of(store.registered)[0]);
    } else {
        assert(topics_of(store.registered)[0] != topics_of(store.pending)[i - (n - 1)]);
        assert(external_ids_of(store.registered)[0] != external_ids_of(store.pending)[i - (n
            - 1)]);
    }
}

proof fn lemma_others_differ(store: StoreView, i: int, j: int)
    requires
        store.wf(),
        0 <= i < (store.registered.skip(1) + store.pending).len(),
        0 <= j < (store.registered.skip(1) + store.pending).len(),
        i != j,
    ensures
        (store.registered.skip(1) + store.pending)[i].topic_id != (store.registered.skip(1)
            + store.pending)[j].topic_id,
        (store.registered.skip(1) + store.pending)[i].external_id != (store.registered.skip(1)
            + store.pending)[j].external_id,
{
    let n = store.registered.len() as int;
    let t_reg = topics_of(store.registered);
    let t_pend = topics_of(store.pending);
    let x_reg = external_ids_of(store.registered);
    let x_pend = external_ids_of(store.pending);
    if i < n - 1 && j < n - 1 {
        assert(t_reg[i + 1] != t_reg[j + 1]);
        assert(x_reg[i + 1] != x_reg[j + 1]);
    } else if i >= n - 1 && j >= n - 1 {
        assert(t_pend[i - (n - 1)] != t_pend[j - (n - 1)]);
        assert(x_pend[i - (n - 1)] != x_pend[j - (n - 1)]);
    } else if i < n - 1 {
        assert(t_reg[i + 1] != t_pend[j - (n - 1)]);
        assert(x_reg[i + 1] != x_pend[j - (n - 1)]);
    } else {
        assert(t_reg[j + 1] != t_pend[i - (n - 1)]);
        assert(x_reg[j + 1] != x_pend[i - (n - 1)]);
    }
}

/// The type of the alarm that tells that the log was given up.
pub open spec fn log_alarm_type() -> Seq<char> {
    "entity_store_log"@
}

/// The payload of the alarm that tells that the log was given up.
pub open spec fn log_alarm_payload() -> JsonView {
    JsonView::Object(
        seq![
            ("severity"@, JsonView::Text("major"@)),
            (
                "text"@,
                JsonView::Text("The log of the entity store cannot be written: the store goes on in memory alone"@),
            ),
        ],
    )
}

/// The alarm of the main device that tells that the log was given up, after
/// it could not be written too many times in a row. None where the topic's
/// name would hold a wildcard or the payload cannot be written.
pub open spec fn log_alarm(root: Seq<char>) -> Option<MqttMessageView> {
    let topic = topic_text(root, "device/main//"@, ChannelView::Alarm(log_alarm_type()));
    match json_printed(log_alarm_payload()) {
        Some(text) if is_valid_topic(topic) => Some(
            MqttMessageView { topic, payload: encode_utf8(text), qos: QoS::AtLeastOnce, retain: false },
        ),
        _ => None,
    }
}

/// The alarm to be raised when the log is given up. From then on the store
/// goes on in memory alone.
pub fn log_given_up_alarm(schema: &MqttSchema) -> (r: Option<MqttMessage>)
    ensures
        match log_alarm(schema.root@) {
            Some(view) => r matches Some(message) && message@ == view,
            None => r is None,
        },
{
    let mut fields: Vec<(String, Json)> = Vec::new();
    fields.push((owned("severity"), Json::Text(owned("major"))));
    fields.push(
        (
            owned("text"),
            Json::Text(
                owned(
                    "The log of the entity store cannot be written: the store goes on in memory alone",
                ),
            ),
        ),
    );
    let payload = Json::Object(fields);
    proof {
        payload.lemma_view();
        assert(payload@->Object_0 =~= log_alarm_payload()->Object_0);
    }
    let text = match payload.to_text() {
        Some(text) => text,
        None => {
            return None;
        },
    };
    let channel = Channel::Alarm { alarm_type: owned("entity_store_log") };
    match schema.topic_for(&EntityTopicId::default_main_device(), &channel) {
        Ok(topic) => Some(MqttMessage::from_text(&topic, text.as_str())),
        Err(_) => None,
    }
}

} // verus!

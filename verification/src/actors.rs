//! The decisions of the actor runtime: where each message goes, what an
//! actor's builder needs before it can be spawned, and how the runtime comes
//! to its end.

use crate::mqtt::message::MqttMessage;
use crate::mqtt::topic::{QoS, TopicFilter};
use crate::text::{clone_strings, owned, texts};
use vstd::prelude::*;

verus! {

/// The capacity that a channel has where none is asked for.
pub const DEFAULT_CHANNEL_CAPACITY: usize = 10;

/// The time, in seconds, that actors are given to come to their end once
/// the runtime shuts down.
pub const DEFAULT_GRACE_PERIOD_SECS: u64 = 10;

/// A channel could not be used.
#[derive(Clone, Copy, PartialEq, Eq, Structural, Debug)]
pub enum ChannelError {
    SendError,
    ReceiveError,
}

/// An actor lacks a peer that it cannot do without.
#[derive(Debug)]
pub enum LinkError {
    MissingPeer { role: String },
}

/// A message as the MQTT actor sees it.
#[derive(Debug)]
pub enum MqttActorMessage {
    /// A message that came from the broker.
    DirectMessage(MqttMessage),
    /// A message that a peer wants published.
    PeerMessage(MqttMessage),
}

/// The places of the filters that accept a topic, among the first `n`.
pub open spec fn accepting(filters: Seq<TopicFilter>, topic: Seq<char>, n: int) -> Seq<usize>
    decreases n,
{
    if n <= 0 {
        Seq::empty()
    } else if filters[n - 1].accepts(topic) {
        accepting(filters, topic, n - 1).push((n - 1) as usize)
    } else {
        accepting(filters, topic, n - 1)
    }
}

/// The peers that are to get a message of the broker: those whose
/// subscriptions accept the message's topic, in the order in which they
/// subscribed.
pub fn matching_peers(subscriptions: &Vec<TopicFilter>, message: &MqttMessage) -> (peers: Vec<usize>)
    ensures
        peers@ == accepting(subscriptions@, message.topic@, subscriptions@.len() as int),
{
    let mut peers: Vec<usize> = Vec::new();
    let mut i: usize = 0;
    while i < subscriptions.len()
        invariant
            i <= subscriptions.len(),
            peers@ == accepting(subscriptions@, message.topic@, i as int),
        decreases subscriptions.len() - i,
    {
        if subscriptions[i].accept(message) {
            peers.push(i);
        }
        i += 1;
    }
    peers
}

/// The patterns of the first `n` filters, one after the other.
pub open spec fn all_patterns(filters: Seq<TopicFilter>, n: int) -> Seq<Seq<char>>
    decreases n,
{
    if n <= 0 {
        Seq::empty()
    } else {
        all_patterns(filters, n - 1) + texts(filters[n - 1].patterns@)
    }
}

/// The filter that the MQTT actor subscribes with: all the patterns of all
/// its peers.
pub fn combined_topic_filter(subscriptions: &Vec<TopicFilter>) -> (filter: TopicFilter)
    ensures
        texts(filter.patterns@) == all_patterns(subscriptions@, subscriptions@.len() as int),
        filter.qos == QoS::AtLeastOnce,
{
    let mut filter = TopicFilter::empty();
    assert(texts(filter.patterns@) =~= Seq::<Seq<char>>::empty());
    let mut i: usize = 0;
    while i < subscriptions.len()
        invariant
            i <= subscriptions.len(),
            filter.qos == QoS::AtLeastOnce,
            texts(filter.patterns@) == all_patterns(subscriptions@, i as int),
        decreases subscriptions.len() - i,
    {
        let copy = TopicFilter {
            patterns: clone_strings(&subscriptions[i].patterns),
            qos: subscriptions[i].qos,
        };
        filter.add_all(copy);
        i += 1;
    }
    filter
}

/// Where the MQTT actor sends a message.
#[derive(Debug)]
pub enum MqttRoute {
    /// To the peers at these places.
    ToPeers(Vec<usize>, MqttMessage),
    /// To the broker.
    ToBroker(MqttMessage),
}

/// Tells where the MQTT actor sends a message: a message of the broker goes
/// to the peers that subscribed to its topic, and a message of a peer goes to
/// the broker.
pub fn mqtt_route(subscriptions: &Vec<TopicFilter>, message: MqttActorMessage) -> (route: MqttRoute)
    ensures
        match message {
            MqttActorMessage::DirectMessage(m) => route matches MqttRoute::ToPeers(peers, sent)
                && sent == m && peers@ == accepting(
                subscriptions@,
                m.topic@,
                subscriptions@.len() as int,
            ),
            MqttActorMessage::PeerMessage(m) => route matches MqttRoute::ToBroker(sent) && sent
                == m,
        },
{
    match message {
        MqttActorMessage::DirectMessage(message) => {
            let peers = matching_peers(subscriptions, &message);
            MqttRoute::ToPeers(peers, message)
        },
        MqttActorMessage::PeerMessage(message) => MqttRoute::ToBroker(message),
    }
}

/// What the builder of the MQTT actor keeps of its peers: their
/// subscriptions, in the order in which they were added.
#[derive(Debug)]
pub struct MqttActorBuilder {
    pub subscriptions: Vec<TopicFilter>,
}

impl MqttActorBuilder {
    /// A builder without peer.
    pub fn new() -> (builder: MqttActorBuilder)
        ensures
            builder.subscriptions@.len() == 0,
    {
        MqttActorBuilder { subscriptions: Vec::new() }
    }

    /// Adds a peer with its subscriptions. What comes back is the peer's
    /// place, by which it is named when messages are routed.
    pub fn add_client(&mut self, subscriptions: TopicFilter) -> (place: usize)
        ensures
            final(self).subscriptions@ == old(self).subscriptions@.push(subscriptions),
            place == old(self).subscriptions@.len(),
    {
        let place = self.subscriptions.len();
        self.subscriptions.push(subscriptions);
        place
    }

    /// The filter that the MQTT actor subscribes with.
    pub fn build(&self) -> (filter: TopicFilter)
        ensures
            texts(filter.patterns@) == all_patterns(
                self.subscriptions@,
                self.subscriptions@.len() as int,
            ),
    {
        combined_topic_filter(&self.subscriptions)
    }
}

/// Something happened to a watched file.
#[derive(Debug)]
pub struct FileEvent {
    pub path: String,
}

/// A request to watch a file.
#[derive(Debug)]
pub struct FileRequest {
    pub path: String,
}

/// A request over HTTP.
#[derive(Debug)]
pub struct HttpRequest {
    pub method: String,
    pub url: String,
    pub body: Vec<u8>,
}

/// An answer over HTTP.
#[derive(Debug)]
pub struct HttpResponse {
    pub status: u16,
    pub body: Vec<u8>,
}

/// A request over HTTP failed; the text says why.
#[derive(Debug)]
pub struct HttpError {
    pub reason: String,
}

/// What the configuration manager takes in of its own accord.
#[derive(Debug)]
pub enum ConfigInput {
    MqttMessage(MqttMessage),
    FileEvent(FileEvent),
}

/// All that the configuration manager takes in: what comes of its own
/// accord, and the answers to its requests.
#[derive(Debug)]
pub enum ConfigInputAndResponse {
    MqttMessage(MqttMessage),
    FileEvent(FileEvent),
    HttpResult(Result<HttpResponse, HttpError>),
}

/// What the configuration manager sends.
#[derive(Debug)]
pub enum ConfigOutput {
    MqttMessage(MqttMessage),
    HttpRequest(HttpRequest),
    FileRequest(FileRequest),
}

/// The peers of the configuration manager.
#[derive(Clone, Copy, PartialEq, Eq, Structural, Debug)]
pub enum ConfigPeer {
    Mqtt,
    Http,
    FileWatcher,
}

/// The two channels on which the configuration manager takes its input.
#[derive(Debug)]
pub enum ConfigChannel {
    /// What comes of its own accord.
    Events(ConfigInput),
    /// The answers to its requests.
    HttpResponses(Result<HttpResponse, HttpError>),
}

impl ConfigInputAndResponse {
    /// The message as it is handed to the actor, for something that came of
    /// its own accord.
    pub fn from_input(input: ConfigInput) -> (message: ConfigInputAndResponse)
        ensures
            match input {
                ConfigInput::MqttMessage(m) => message == ConfigInputAndResponse::MqttMessage(m),
                ConfigInput::FileEvent(e) => message == ConfigInputAndResponse::FileEvent(e),
            },
    {
        match input {
            ConfigInput::MqttMessage(message) => ConfigInputAndResponse::MqttMessage(message),
            ConfigInput::FileEvent(message) => ConfigInputAndResponse::FileEvent(message),
        }
    }

    /// The channel on which a message goes to the actor: answers over HTTP
    /// have a channel of their own, so that the actor can await an answer
    /// while other messages queue.
    pub fn channel(self) -> (channel: ConfigChannel)
        ensures
            match self {
                ConfigInputAndResponse::MqttMessage(m) => channel == ConfigChannel::Events(
                    ConfigInput::MqttMessage(m),
                ),
                ConfigInputAndResponse::FileEvent(e) => channel == ConfigChannel::Events(
                    ConfigInput::FileEvent(e),
                ),
                ConfigInputAndResponse::HttpResult(r) => channel == ConfigChannel::HttpResponses(
                    r,
                ),
            },
    {
        match self {
            ConfigInputAndResponse::MqttMessage(msg) => ConfigChannel::Events(
                ConfigInput::MqttMessage(msg),
            ),
            ConfigInputAndResponse::FileEvent(msg) => ConfigChannel::Events(
                ConfigInput::FileEvent(msg),
            ),
            ConfigInputAndResponse::HttpResult(msg) => ConfigChannel::HttpResponses(msg),
        }
    }
}

impl ConfigOutput {
    /// The peer to which a message goes.
    pub fn peer(&self) -> (peer: ConfigPeer)
        ensures
            peer == match self {
                ConfigOutput::MqttMessage(_) => ConfigPeer::Mqtt,
                ConfigOutput::HttpRequest(_) => ConfigPeer::Http,
                ConfigOutput::FileRequest(_) => ConfigPeer::FileWatcher,
            },
    {
        match self {
            ConfigOutput::MqttMessage(_) => ConfigPeer::Mqtt,
            ConfigOutput::HttpRequest(_) => ConfigPeer::Http,
            ConfigOutput::FileRequest(_) => ConfigPeer::FileWatcher,
        }
    }
}

/// The configuration manager.
#[derive(Debug)]
pub struct ConfigManagerActor {}

impl ConfigManagerActor {
    /// What the configuration manager asks of the cloud when a message
    /// comes over MQTT.
    pub fn process_mqtt_message(&mut self, message: &MqttMessage) -> (request: HttpRequest)
        ensures
            request.method@ == "GET"@,
            request.url@ == "https://my-tenant.c8y.io"@,
            request.body@.len() == 0,
    {
        HttpRequest { method: owned("GET"), url: owned("https://my-tenant.c8y.io"), body: Vec::new() }
    }
}

/// What the builder of the log manager knows of its peers.
#[derive(Debug)]
pub struct LogManagerBuilder {
    pub mqtt_connected: bool,
    pub http_connected: bool,
    pub fs_connected: bool,
}

impl LogManagerBuilder {
    /// A builder without peer.
    pub fn new() -> (builder: LogManagerBuilder)
        ensures
            !builder.mqtt_connected,
            !builder.http_connected,
            !builder.fs_connected,
    {
        LogManagerBuilder { mqtt_connected: false, http_connected: false, fs_connected: false }
    }

    /// The topics that the log manager subscribes to.
    pub fn subscriptions() -> (filter: TopicFilter)
        ensures
            texts(filter.patterns@) == seq!["c8y/s/ds"@],
    {
        TopicFilter::new_unchecked("c8y/s/ds")
    }

    /// Notes that the builder is connected to the HTTP proxy of the cloud.
    pub fn with_c8y_http_proxy(&mut self)
        ensures
            final(self).http_connected,
            final(self).mqtt_connected == old(self).mqtt_connected,
            final(self).fs_connected == old(self).fs_connected,
    {
        self.http_connected = true;
    }

    /// Notes that the builder is connected to MQTT.
    pub fn with_mqtt_connection(&mut self)
        ensures
            final(self).mqtt_connected,
            final(self).http_connected == old(self).http_connected,
            final(self).fs_connected == old(self).fs_connected,
    {
        self.mqtt_connected = true;
    }

    /// Notes that the builder is connected to the file watcher.
    pub fn with_fs_connection(&mut self)
        ensures
            final(self).fs_connected,
            final(self).http_connected == old(self).http_connected,
            final(self).mqtt_connected == old(self).mqtt_connected,
    {
        self.fs_connected = true;
    }

    /// Tells whether the actor can be spawned: it cannot do without MQTT,
    /// nor without HTTP. The first of the two that is missing is named.
    pub fn check_peers(&self) -> (r: Result<(), LinkError>)
        ensures
            match r {
                Ok(_) => self.mqtt_connected && self.http_connected,
                Err(LinkError::MissingPeer { role }) => if !self.mqtt_connected {
                    role@ == "mqtt"@
                } else {
                    !self.http_connected && role@ == "http"@
                },
            },
    {
        if !self.mqtt_connected {
            return Err(LinkError::MissingPeer { role: owned("mqtt") });
        }
        if !self.http_connected {
            return Err(LinkError::MissingPeer { role: owned("http") });
        }
        Ok(())
    }
}

/// Messages that wait to be taken, each in the queue of the source that it
/// came from.
#[derive(Debug)]
pub struct FanIn<T> {
    queues: Vec<Vec<T>>,
}

impl<T> FanIn<T> {
    /// The messages that wait, by source, the oldest first.
    pub closed spec fn view(&self) -> Seq<Seq<T>> {
        self.queues@.map_values(|q: Vec<T>| q@)
    }

    /// A fan-in of the given number of sources, with nothing waiting.
    pub fn new(sources: usize) -> (fan_in: FanIn<T>)
        ensures
            fan_in@.len() == sources,
            forall|i: int| 0 <= i < sources ==> (#[trigger] fan_in@[i]).len() == 0,
    {
        let mut queues: Vec<Vec<T>> = Vec::new();
        let mut i: usize = 0;
        while i < sources
            invariant
                i <= sources,
                queues@.len() == i,
                forall|k: int| 0 <= k < i ==> (#[trigger] queues@[k])@.len() == 0,
            decreases sources - i,
        {
            queues.push(Vec::new());
            i += 1;
        }
        FanIn { queues }
    }

    /// Takes in a message of a source, behind those of the same source that
    /// wait. The message comes back where there is no such source.
    pub fn push(&mut self, source: usize, message: T) -> (r: Result<(), T>)
        ensures
            match r {
                Ok(_) => source < old(self)@.len() && final(self)@ == old(self)@.update(
                    source as int,
                    old(self)@[source as int].push(message),
                ),
                Err(back) => source >= old(self)@.len() && back == message && final(self)@ == old(self)@,
            },
    {
        if source >= self.queues.len() {
            return Err(message);
        }
        let ghost before = self@;
        let mut queue: Vec<T> = Vec::new();
        core::mem::swap(&mut queue, &mut self.queues[source]);
        queue.push(message);
        self.queues[source] = queue;
        assert(self@ =~= before.update(source as int, before[source as int].push(message)));
        Ok(())
    }

    /// Hands out the oldest message of the first source that has one, with
    /// the source's place. The messages of each source come out in the order
    /// in which they came in; nothing is promised of the order between
    /// sources.
    pub fn pop(&mut self) -> (r: Option<(usize, T)>)
        ensures
            match r {
                Some((source, message)) => {
                    &&& source < old(self)@.len()
                    &&& old(self)@[source as int].len() > 0
                    &&& message == old(self)@[source as int][0]
                    &&& final(self)@ == old(self)@.update(
                        source as int,
                        old(self)@[source as int].drop_first(),
                    )
                    &&& forall|i: int| 0 <= i < source ==> (#[trigger] old(self)@[i]).len() == 0
                },
                None => {
                    &&& final(self)@ == old(self)@
                    &&& forall|i: int|
                        0 <= i < old(self)@.len() ==> (#[trigger] old(self)@[i]).len() == 0
                },
            },
    {
        let ghost before = self@;
        let mut i: usize = 0;
        while i < self.queues.len()
            invariant
                i <= self.queues.len(),
                self@ == before,
                before == old(self)@,
                forall|k: int| 0 <= k < i ==> (#[trigger] before[k]).len() == 0,
            decreases self.queues.len() - i,
        {
            assert(before[i as int] == self.queues@[i as int]@);
            if self.queues[i].len() > 0 {
                let mut queue: Vec<T> = Vec::new();
                core::mem::swap(&mut queue, &mut self.queues[i]);
                assert(queue@ == before[i as int]);
                let message = queue.remove(0);
                assert(message == before[i as int][0]);
                assert(queue@ =~= before[i as int].drop_first());
                self.queues[i] = queue;
                assert(self@ =~= before.update(i as int, before[i as int].drop_first()));
                return Some((i, message));
            }
            i += 1;
        }
        None
    }
}

/// How an actor came to its end.
#[derive(Debug)]
pub enum ActorExit {
    /// Its input was closed, and it came to its end of itself.
    Completed,
    /// It failed, and the runtime cannot go on without it.
    Fatal(String),
}

/// What happens to the runtime.
#[derive(Debug)]
pub enum RuntimeEvent {
    /// The process was told to stop.
    ShutdownSignal,
    /// An actor came to its end.
    ActorFinished(ActorExit),
    /// The time given to the actors has run out.
    GracePeriodElapsed,
}

/// What the runtime does next.
#[derive(Debug)]
pub enum RuntimeAction {
    /// Nothing: the actors go on.
    Continue,
    /// The inputs of all the actors are closed, and the time given to them
    /// starts to run.
    CloseInputs,
    /// The actors that are still running are aborted.
    AbortRemaining,
    /// The runtime ends, with the first fatal failure that it saw, if any.
    Exit(Option<String>),
}

/// The supervisor's state: the number of actors that are running, whether
/// the runtime is shutting down, and the first fatal failure that it saw.
#[derive(Debug)]
pub struct Supervisor {
    pub running: usize,
    pub shutting_down: bool,
    pub first_error: Option<String>,
}

/// The supervisor's state as contracts speak of it.
pub struct SupervisorView {
    pub running: nat,
    pub shutting_down: bool,
    pub first_error: Option<Seq<char>>,
}

/// An event as contracts speak of it.
pub enum EventView {
    ShutdownSignal,
    Completed,
    Fatal(Seq<char>),
    GracePeriodElapsed,
}

/// An action as contracts speak of it.
pub enum ActionView {
    Continue,
    CloseInputs,
    AbortRemaining,
    Exit(Option<Seq<char>>),
}

impl SupervisorView {
    /// The state after an event. The first fatal failure is kept. An actor
    /// that ends is one actor less.
    pub open spec fn after(self, event: EventView) -> SupervisorView {
        let first_error = match (self.first_error, event) {
            (None, EventView::Fatal(reason)) => Some(reason),
            _ => self.first_error,
        };
        let running: nat = match event {
            EventView::Completed | EventView::Fatal(_) => if self.running > 0 {
                (self.running - 1) as nat
            } else {
                0
            },
            EventView::GracePeriodElapsed => if self.shutting_down {
                0
            } else {
                self.running
            },
            EventView::ShutdownSignal => self.running,
        };
        let shutting_down = self.shutting_down || match event {
            EventView::ShutdownSignal | EventView::Fatal(_) => true,
            _ => false,
        };
        SupervisorView { running, shutting_down, first_error }
    }

    /// What is done on an event. The runtime ends once no actor runs; it
    /// starts to shut down on a signal and on a fatal failure; and once the
    /// time given to the actors has run out, those that run are aborted.
    pub open spec fn action(self, event: EventView) -> ActionView {
        let next = self.after(event);
        match event {
            EventView::GracePeriodElapsed => if self.shutting_down && self.running > 0 {
                ActionView::AbortRemaining
            } else {
                ActionView::Continue
            },
            _ => if next.running == 0 {
                ActionView::Exit(next.first_error)
            } else if next.shutting_down && !self.shutting_down {
                ActionView::CloseInputs
            } else {
                ActionView::Continue
            },
        }
    }
}

impl RuntimeEvent {
    pub open spec fn view(&self) -> EventView {
        match self {
            RuntimeEvent::ShutdownSignal => EventView::ShutdownSignal,
            RuntimeEvent::ActorFinished(ActorExit::Completed) => EventView::Completed,
            RuntimeEvent::ActorFinished(ActorExit::Fatal(reason)) => EventView::Fatal(reason@),
            RuntimeEvent::GracePeriodElapsed => EventView::GracePeriodElapsed,
        }
    }
}

impl RuntimeAction {
    pub open spec fn view(&self) -> ActionView {
        match self {
            RuntimeAction::Continue => ActionView::Continue,
            RuntimeAction::CloseInputs => ActionView::CloseInputs,
            RuntimeAction::AbortRemaining => ActionView::AbortRemaining,
            RuntimeAction::Exit(error) => ActionView::Exit(crate::text::option_view(*error)),
        }
    }
}

impl Supervisor {
    pub open spec fn view(&self) -> SupervisorView {
        SupervisorView {
            running: self.running as nat,
            shutting_down: self.shutting_down,
            first_error: crate::text::option_view(self.first_error),
        }
    }

    /// The supervisor of the given number of actors.
    pub fn new(actors: usize) -> (supervisor: Supervisor)
        ensures
            supervisor@ == (SupervisorView {
                running: actors as nat,
                shutting_down: false,
                first_error: None,
            }),
    {
        Supervisor { running: actors, shutting_down: false, first_error: None }
    }

    /// Takes an event, and tells what the runtime does next.
    pub fn handle(&mut self, event: RuntimeEvent) -> (action: RuntimeAction)
        ensures
            final(self)@ == old(self)@.after(event@),
            action@ == old(self)@.action(event@),
    {
        let was_shutting_down = self.shutting_down;
        let was_running = self.running;
        match event {
            RuntimeEvent::GracePeriodElapsed => {
                if was_shutting_down {
                    self.running = 0;
                }
                if was_shutting_down && was_running > 0 {
                    RuntimeAction::AbortRemaining
                } else {
                    RuntimeAction::Continue
                }
            },
            RuntimeEvent::ShutdownSignal => {
                self.shutting_down = true;
                self.next_action(was_shutting_down)
            },
            RuntimeEvent::ActorFinished(exit) => {
                if self.running > 0 {
                    self.running = self.running - 1;
                }
                match exit {
                    ActorExit::Completed => {},
                    ActorExit::Fatal(reason) => {
                        self.shutting_down = true;
                        if self.first_error.is_none() {
                            self.first_error = Some(reason);
                        }
                    },
                }
                self.next_action(was_shutting_down)
            },
        }
    }

    fn next_action(&self, was_shutting_down: bool) -> (action: RuntimeAction)
        ensures
            action@ == if self.running == 0 {
                ActionView::Exit(self@.first_error)
            } else if self.shutting_down && !was_shutting_down {
                ActionView::CloseInputs
            } else {
                ActionView::Continue
            },
    {
        if self.running == 0 {
            RuntimeAction::Exit(crate::text::clone_option(&self.first_error))
        } else if self.shutting_down && !was_shutting_down {
            RuntimeAction::CloseInputs
        } else {
            RuntimeAction::Continue
        }
    }
}

/// The runtime ends with the first fatal failure that it saw: once a
/// failure is kept, no later event puts another in its place.
pub proof fn lemma_first_error_is_kept(state: SupervisorView, event: EventView)
    requires
        state.first_error is Some,
    ensures
        state.after(event).first_error == state.first_error,
{
}

/// Once the runtime shuts down, it goes on shutting down.
pub proof fn lemma_shutdown_is_final(state: SupervisorView, event: EventView)
    requires
        state.shutting_down,
    ensures
        state.after(event).shutting_down,
{
}

} // verus!

//! The services of a server, and its main loop.
use crate::config::{ConfigChange, ServerConfig, ServerServiceConfig};
use crate::multi_map::MultiMap;
use crate::outside::sha256;
use crate::protocol::{digest, Digest};
use crate::registry::Registry;
use crate::wire::text_bytes;
use std::sync::Arc;
use vstd::prelude::*;

verus! {

/// Data channels kept ready for a TCP service.
pub const TCP_POOL_SIZE: usize = 8;

/// Data channels kept ready for a UDP service.
pub const UDP_POOL_SIZE: usize = 2;

/// The size of the queues between tasks.
pub const CHAN_SIZE: usize = 2048;

/// Seconds that a step of a handshake may take.
pub const HANDSHAKE_TIMEOUT: u64 = 5;

/// Seconds that control channels are given to close.
pub const SHUTDOWN_GRACE_SECS: u64 = 10;

/// Services by the digest of their name.
pub type ServiceMap = Registry<Digest, Arc<ServerServiceConfig>>;

/// What a service is called on the wire.
pub open spec fn service_digest(name: Seq<char>) -> Seq<u8> {
    sha256(text_bytes(name))
}

/// Each service under the digest of its name; of two names with one digest,
/// the later.
pub open spec fn services_by_digest(
    services: Seq<(String, Arc<ServerServiceConfig>)>,
) -> Map<Seq<u8>, Arc<ServerServiceConfig>>
    decreases services.len(),
{
    if services.len() == 0 {
        Map::empty()
    } else {
        services_by_digest(services.drop_last()).insert(
            service_digest(services.last().0@),
            services.last().1,
        )
    }
}

/// The services of a server by digest.
pub fn generate_service_hashmap(server_config: &ServerConfig) -> (r: ServiceMap)
    ensures
        r.wf(),
        r@ == services_by_digest(server_config.services@),
{
    let mut ret: ServiceMap = Registry::new();
    let mut i: usize = 0;
    let ghost all = server_config.services@;
    assert(all.take(0) =~= Seq::empty());
    while i < server_config.services.len()
        invariant
            ret.wf(),
            all == server_config.services@,
            i <= all.len(),
            ret@ == services_by_digest(all.take(i as int)),
        decreases all.len() - i,
    {
        let entry = &server_config.services[i];
        let key: Digest = digest(entry.0.as_str().as_bytes());
        ret.insert(key, Arc::clone(&entry.1));
        assert(all.take(i + 1).drop_last() =~= all.take(i as int));
        i = i + 1;
    }
    assert(all.take(i as int) =~= all);
    ret
}

/// What came of a change of the configuration.
#[derive(Debug)]
pub enum Reloaded<H> {
    /// The services are up to date; this control channel, if any, is to be
    /// shut down.
    Done(Option<H>),
    /// The change is not for a server.
    Ignored,
}

/// The digest of the service of a server that a change is about, if it is about
/// one.
pub open spec fn changed_service(change: ConfigChange) -> Option<Seq<u8>> {
    match change {
        ConfigChange::AddServerService(cfg) => Some(service_digest(cfg.name@)),
        ConfigChange::DeleteServerService(name) => Some(service_digest(name@)),
        _ => None,
    }
}

/// The services after a change.
pub open spec fn services_after(
    services: Map<Seq<u8>, Arc<ServerServiceConfig>>,
    change: ConfigChange,
) -> Map<Seq<u8>, Arc<ServerServiceConfig>> {
    match change {
        ConfigChange::AddServerService(cfg) => services.insert(service_digest(cfg.name@), cfg),
        ConfigChange::DeleteServerService(name) => services.remove(service_digest(name@)),
        _ => services,
    }
}

/// The control channels after a change.
pub open spec fn channels_after<H>(
    channels: Map<Seq<u8>, (Digest, H)>,
    change: ConfigChange,
) -> Map<Seq<u8>, (Digest, H)> {
    match changed_service(change) {
        Some(key) => channels.remove(key),
        None => channels,
    }
}

/// Takes a change of the configuration: the service is replaced or forgotten,
/// and its control channel with it, so that its client comes back.
pub fn handle_hot_reload<H>(
    services: &mut ServiceMap,
    channels: &mut MultiMap<H>,
    change: ConfigChange,
) -> (r: Reloaded<H>)
    requires
        old(services).wf(),
        old(channels).wf(),
    ensures
        final(services).wf(),
        final(channels).wf(),
        final(services)@ == services_after(old(services)@, change),
        final(channels)@ == channels_after(old(channels)@, change),
        r is Ignored <==> changed_service(change) is None,
        r matches Reloaded::Done(shut) ==> (shut is Some <==> old(channels)@.dom().contains(
            changed_service(change)->0,
        )),
        change matches ConfigChange::AddServerService(cfg) ==> {
            let key = service_digest(cfg.name@);
            &&& final(services)@ == old(services)@.insert(key, cfg)
            &&& final(channels)@ == old(channels)@.remove(key)
            &&& r == Reloaded::Done(
                if old(channels)@.dom().contains(key) {
                    Some(old(channels)@[key].1)
                } else {
                    None::<H>
                },
            )
        },
        change matches ConfigChange::DeleteServerService(name) ==> {
            let key = service_digest(name@);
            &&& final(services)@ == old(services)@.remove(key)
            &&& final(channels)@ == old(channels)@.remove(key)
            &&& r == Reloaded::Done(
                if old(channels)@.dom().contains(key) {
                    Some(old(channels)@[key].1)
                } else {
                    None::<H>
                },
            )
        },
        change is AddClientService || change is DeleteClientService ==> {
            &&& final(services)@ == old(services)@
            &&& final(channels)@ == old(channels)@
            &&& r is Ignored
        },
{
    match change {
        ConfigChange::AddServerService(cfg) => {
            let key: Digest = digest(cfg.name.as_str().as_bytes());
            services.insert(key, cfg);
            Reloaded::Done(channels.remove1(&key))
        },
        ConfigChange::DeleteServerService(name) => {
            let key: Digest = digest(name.as_str().as_bytes());
            let _ = services.remove(&key);
            Reloaded::Done(channels.remove1(&key))
        },
        _ => Reloaded::Ignored,
    }
}

/// How many handshakes may run at a time, if that is limited.
pub fn handshake_limit(max_inflight_handshakes: u32) -> (r: Option<usize>)
    ensures
        r == (if max_inflight_handshakes == 0 {
            None
        } else {
            Some(max_inflight_handshakes as usize)
        }),
{
    if max_inflight_handshakes == 0 {
        None
    } else {
        Some(max_inflight_handshakes as usize)
    }
}

/// Whether a handshake may begin.
#[derive(Clone, Copy, Debug, PartialEq, Eq, Structural)]
pub enum HandshakeRoom {
    /// Their number is not limited.
    Unlimited,
    /// There is room, and it is taken.
    Taken,
    /// There is none.
    Full,
}

/// What happens to a running server.
#[derive(Clone, Copy, Debug, PartialEq, Eq, Structural)]
pub enum ServerEvent {
    /// Accepting failed in the operating system; whether there is a delay left
    /// to wait for.
    AcceptIoError(bool),
    /// Accepting failed in the transport.
    AcceptTransportError,
    /// A connection came in.
    Accepted(HandshakeRoom),
    /// A handshake ended.
    HandshakeEnded,
    /// The server is to end.
    Shutdown,
    /// The configuration changed.
    Update,
    /// No change of the configuration will come any more.
    UpdatesEnded,
}

/// What a server does next.
#[derive(Clone, Copy, Debug, PartialEq, Eq, Structural)]
pub enum ServerAction {
    /// Wait for the next event.
    Continue,
    /// Sleep for the next delay, then go on.
    Delay,
    /// Begin a handshake; the next delay is the shortest again.
    StartHandshake,
    /// Drop the connection; the next delay is the shortest again.
    RefuseConnection,
    /// Take the change of the configuration.
    Reload,
    /// Shut the control channels down and end.
    Stop,
}

/// The main loop of a server.
#[derive(Debug)]
pub struct ServerLoop {
    update_enabled: bool,
}

/// What an event asks for.
pub open spec fn server_action(event: ServerEvent) -> ServerAction {
    match event {
        ServerEvent::AcceptIoError(delay_left) => if delay_left {
            ServerAction::Delay
        } else {
            ServerAction::Stop
        },
        ServerEvent::AcceptTransportError => ServerAction::Continue,
        ServerEvent::Accepted(room) => if room is Full {
            ServerAction::RefuseConnection
        } else {
            ServerAction::StartHandshake
        },
        ServerEvent::HandshakeEnded => ServerAction::Continue,
        ServerEvent::Shutdown => ServerAction::Stop,
        ServerEvent::Update => ServerAction::Reload,
        ServerEvent::UpdatesEnded => ServerAction::Continue,
    }
}

impl ServerLoop {
    /// Whether changes of the configuration are waited for.
    pub closed spec fn listens(&self) -> bool {
        self.update_enabled
    }

    /// A server that waits for changes of its configuration.
    pub fn start() -> (r: ServerLoop)
        ensures
            r.listens(),
    {
        ServerLoop { update_enabled: true }
    }

    /// Whether to wait for changes of the configuration.
    pub fn update_enabled(&self) -> (r: bool)
        ensures
            r == self.listens(),
    {
        self.update_enabled
    }

    /// Takes an event. Once no change can come, none is waited for.
    pub fn on_event(&mut self, event: ServerEvent) -> (r: ServerAction)
        ensures
            r == server_action(event),
            final(self).listens() == (old(self).listens() && !(event is UpdatesEnded)),
    {
        match event {
            ServerEvent::AcceptIoError(true) => ServerAction::Delay,
            ServerEvent::AcceptIoError(false) => ServerAction::Stop,
            ServerEvent::AcceptTransportError => ServerAction::Continue,
            ServerEvent::Accepted(HandshakeRoom::Full) => ServerAction::RefuseConnection,
            ServerEvent::Accepted(_) => ServerAction::StartHandshake,
            ServerEvent::HandshakeEnded => ServerAction::Continue,
            ServerEvent::Shutdown => ServerAction::Stop,
            ServerEvent::Update => ServerAction::Reload,
            ServerEvent::UpdatesEnded => {
                self.update_enabled = false;
                ServerAction::Continue
            },
        }
    }
}

/// A service that is deleted right after it was added is not served, and
/// others are as before.
pub proof fn deleting_undoes_adding(
    services: Map<Seq<u8>, Arc<ServerServiceConfig>>,
    cfg: Arc<ServerServiceConfig>,
)
    ensures
        ({
            let key = service_digest(cfg.name@);
            let after = services.insert(key, cfg).remove(key);
            &&& !after.dom().contains(key)
            &&& after == services.remove(key)
        }),
{
    let key = service_digest(cfg.name@);
    assert(services.insert(key, cfg).remove(key) =~= services.remove(key));
}

/// Each service of the configuration whose name has a digest of its own is
/// found under it.
pub proof fn every_service_is_found(
    services: Seq<(String, Arc<ServerServiceConfig>)>,
    i: int,
)
    requires
        0 <= i < services.len(),
        forall|j: int|
            0 <= j < services.len() && j != i ==> service_digest((#[trigger] services[j]).0@)
                != service_digest(services[i].0@),
    ensures
        services_by_digest(services).dom().contains(service_digest(services[i].0@)),
        services_by_digest(services)[service_digest(services[i].0@)] == services[i].1,
    decreases services.len(),
{
    if i < services.len() - 1 {
        let front = services.drop_last();
        assert(front[i] == services[i]);
        assert forall|j: int| 0 <= j < front.len() && j != i implies service_digest(
            (#[trigger] front[j]).0@,
        ) != service_digest(front[i].0@) by {
            assert(front[j] == services[j]);
        }
        every_service_is_found(front, i);
        assert(service_digest(services[services.len() - 1].0@) != service_digest(services[i].0@));
    }
}

/// A server goes on until it is told to end, or there is no delay left to wait
/// for after a failure of the operating system; a failure of a connection, of a
/// handshake, or the end of changes never ends it.
pub proof fn the_server_ends_exactly_for_cause(event: ServerEvent)
    ensures
        server_action(event) is Stop <==> event is Shutdown || event == ServerEvent::AcceptIoError(
            false,
        ),
        server_action(event) is Delay <==> event == ServerEvent::AcceptIoError(true),
        server_action(event) is Continue <==> event is AcceptTransportError || event
            is HandshakeEnded || event is UpdatesEnded,
{
}

/// Every connection that comes in is shaken hands with, unless the number of
/// handshakes is limited and there is no room for another: then it is refused.
/// Every change of the configuration is taken.
pub proof fn connections_are_shaken_hands_with(event: ServerEvent)
    ensures
        server_action(event) is StartHandshake <==> event == ServerEvent::Accepted(
            HandshakeRoom::Unlimited,
        ) || event == ServerEvent::Accepted(HandshakeRoom::Taken),
        server_action(event) is RefuseConnection <==> event == ServerEvent::Accepted(
            HandshakeRoom::Full,
        ),
        server_action(event) is Reload <==> event is Update,
{
}

/// What is found under a digest is a service of the configuration whose name
/// has that digest, and of several such the last.
pub proof fn only_configured_services_are_found(
    services: Seq<(String, Arc<ServerServiceConfig>)>,
    key: Seq<u8>,
) -> (i: int)
    requires
        services_by_digest(services).dom().contains(key),
    ensures
        0 <= i < services.len(),
        service_digest(services[i].0@) == key,
        services_by_digest(services)[key] == services[i].1,
        forall|j: int| i < j < services.len() ==> service_digest((#[trigger] services[j]).0@) != key,
    decreases services.len(),
{
    if services.len() == 0 {
        0
    } else if service_digest(services.last().0@) == key {
        services.len() - 1
    } else {
        let front = services.drop_last();
        let i = only_configured_services_are_found(front, key);
        assert forall|j: int| i < j < services.len() implies service_digest(
            (#[trigger] services[j]).0@,
        ) != key by {
            if j < front.len() {
                assert(front[j] == services[j]);
            }
        }
        i
    }
}

/// A service is called by the SHA-256 digest of its name's UTF-8 bytes, on both
/// sides.
pub proof fn services_go_by_the_digest_of_their_name(
    service: ServerServiceConfig,
    name: Seq<char>,
    bytes: Seq<u8>,
)
    requires
        bytes == vstd::utf8::encode_utf8(name),
    ensures
        service_digest(name) == sha256(bytes),
        service.name@ == name ==> service_digest(service.name@) == sha256(bytes),
{
}

/// Every name of the configuration is found, by its digest.
pub proof fn every_name_is_found(services: Seq<(String, Arc<ServerServiceConfig>)>, i: int)
    requires
        0 <= i < services.len(),
    ensures
        services_by_digest(services).dom().contains(service_digest(services[i].0@)),
    decreases services.len(),
{
    if i < services.len() - 1 {
        assert(services.drop_last()[i] == services[i]);
        every_name_is_found(services.drop_last(), i);
    }
}

/// A change of a service is for that service alone: added, it is served as the
/// change says; deleted, it is not served; and either way its control channel
/// is gone. Every other service and channel stays, and a change for a client
/// touches none.
pub proof fn changes_are_for_one_service<H>(
    services: Map<Seq<u8>, Arc<ServerServiceConfig>>,
    channels: Map<Seq<u8>, (Digest, H)>,
    change: ConfigChange,
    other: Seq<u8>,
)
    ensures
        changed_service(change) is None <==> change is AddClientService || change
            is DeleteClientService,
        changed_service(change) is None ==> services_after(services, change) == services
            && channels_after(channels, change) == channels,
        change matches ConfigChange::AddServerService(cfg) ==> {
            let key = sha256(text_bytes(cfg.name@));
            &&& services_after(services, change).dom().contains(key)
            &&& services_after(services, change)[key] == cfg
            &&& !channels_after(channels, change).dom().contains(key)
            &&& changed_service(change) == Some(key)
        },
        change matches ConfigChange::DeleteServerService(name) ==> {
            let key = sha256(text_bytes(name@));
            &&& !services_after(services, change).dom().contains(key)
            &&& !channels_after(channels, change).dom().contains(key)
            &&& changed_service(change) == Some(key)
        },
        changed_service(change) != Some(other) ==> {
            &&& services_after(services, change).dom().contains(other)
                <==> services.dom().contains(other)
            &&& services.dom().contains(other) ==> services_after(services, change)[other]
                == services[other]
            &&& channels_after(channels, change).dom().contains(other)
                <==> channels.dom().contains(other)
            &&& channels.dom().contains(other) ==> channels_after(channels, change)[other]
                == channels[other]
        },
{
}

} // verus!

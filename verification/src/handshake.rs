//! How a server takes new connections: who may serve a service, and where a
//! data channel goes.
use crate::config::ServerServiceConfig;
use crate::multi_map::{first_of, has_second, second_keys_differ, MultiMap};
use crate::outside::{hex_chars, hex_encode};
use crate::protocol::{
    accepted_version, ack_bytes, derive_session_key, encode_ack, encode_hello, fresh_nonce,
    hello_bytes, is_accepted_version, session_key_of, Ack, DataChannelMode, Digest, Hello,
    ServiceType, PROTO_V3,
};
use crate::server::ServiceMap;
use crate::wire::{same_bytes, text_bytes};
use std::sync::Arc;
use vstd::prelude::*;
use vstd::string::StringExecFns;

verus! {

/// A control channel that is open.
#[derive(Debug)]
pub struct ChannelRecord<H> {
    /// When its client started, by the client's own account.
    pub timestamp: u64,
    /// What its service carries.
    pub service_type: ServiceType,
    /// Whether it takes multiplexed connections.
    pub mux: bool,
    /// What it is reached by.
    pub handle: H,
}

/// The control channels of a server by service digest and by session key.
pub type ControlChannelMap<H> = MultiMap<ChannelRecord<H>>;

/// What a connection is, by its hello.
#[derive(Debug)]
pub enum Greeting {
    /// It opens a control channel; its timestamp is to be read.
    ControlChannel(u8, Digest),
    /// It opens a data channel; its mode is to be read.
    ModalDataChannel(Digest),
    /// It opens a data channel of a version without modes.
    PlainDataChannel(Digest),
    /// Its version is not spoken.
    UnknownVersion(u8),
}

/// What a hello asks for.
pub open spec fn greeting_of(h: Hello) -> Greeting {
    match h {
        Hello::ControlChannelHello(v, d) => if accepted_version(v) {
            Greeting::ControlChannel(v, d)
        } else {
            Greeting::UnknownVersion(v)
        },
        Hello::DataChannelHello(v, d) => if v == PROTO_V3 {
            Greeting::ModalDataChannel(d)
        } else if accepted_version(v) {
            Greeting::PlainDataChannel(d)
        } else {
            Greeting::UnknownVersion(v)
        },
    }
}

/// Sorts a connection by its hello.
pub fn greet(hello: Hello) -> (r: Greeting)
    ensures
        r == greeting_of(hello),
{
    match hello {
        Hello::ControlChannelHello(v, d) => {
            if is_accepted_version(v) {
                Greeting::ControlChannel(v, d)
            } else {
                Greeting::UnknownVersion(v)
            }
        },
        Hello::DataChannelHello(v, d) => {
            if v == PROTO_V3 {
                Greeting::ModalDataChannel(d)
            } else if is_accepted_version(v) {
                Greeting::PlainDataChannel(d)
            } else {
                Greeting::UnknownVersion(v)
            }
        },
    }
}

/// The server's hello: the client's version and a nonce.
pub fn server_hello(version: u8, nonce: Digest) -> (r: Vec<u8>)
    ensures
        r@ == hello_bytes(Hello::ControlChannelHello(version, nonce)),
{
    encode_hello(&Hello::ControlChannelHello(version, nonce))
}

/// Why a control channel was refused.
#[derive(Debug)]
pub enum Refusal {
    /// There is no such service: its digest in hexadecimal.
    UnknownService(String),
    /// The service has no token: its name.
    NoToken(String),
    /// The client does not know the token: the name of the service.
    WrongAuth(String),
    /// The client is older than the one that serves the service.
    Stale,
}

/// What a refused client is told.
pub open spec fn refusal_ack(r: Refusal) -> Ack {
    match r {
        Refusal::UnknownService(_) => Ack::ServiceNotExist,
        _ => Ack::AuthFailed,
    }
}

/// What to write to a refused client.
pub fn refusal_reply(refusal: &Refusal) -> (r: Vec<u8>)
    ensures
        r@ == ack_bytes(refusal_ack(*refusal)),
{
    match refusal {
        Refusal::UnknownService(_) => encode_ack(Ack::ServiceNotExist),
        _ => encode_ack(Ack::AuthFailed),
    }
}

/// How a refusal is told.
pub open spec fn refusal_chars(r: Refusal) -> Seq<char> {
    match r {
        Refusal::UnknownService(digest) => "未找到服务: "@ + digest@,
        Refusal::NoToken(name) => "服务 "@ + name@ + " 未配置token"@,
        Refusal::WrongAuth(name) => "服务 "@ + name@ + " 认证失败"@,
        Refusal::Stale => "拒绝连接: 已有更新的客户端"@,
    }
}

/// Tells a refusal.
pub fn refusal_text(refusal: &Refusal) -> (r: String)
    ensures
        r@ == refusal_chars(*refusal),
{
    match refusal {
        Refusal::UnknownService(digest) => "未找到服务: ".to_owned().concat(digest.as_str()),
        Refusal::NoToken(name) => "服务 ".to_owned().concat(name.as_str()).concat(
            " 未配置token",
        ),
        Refusal::WrongAuth(name) => "服务 ".to_owned().concat(name.as_str()).concat(
            " 认证失败",
        ),
        Refusal::Stale => "拒绝连接: 已有更新的客户端".to_owned(),
    }
}

/// Whether a refusal ends the handshake with an error: a client that is too old
/// is turned away without one.
pub fn ends_with_error(refusal: &Refusal) -> (r: bool)
    ensures
        r == !(*refusal is Stale),
{
    match refusal {
        Refusal::Stale => false,
        _ => true,
    }
}

/// There is such a service, and it has a token.
pub open spec fn servable(
    services: Map<Seq<u8>, Arc<ServerServiceConfig>>,
    service_digest: Seq<u8>,
) -> bool {
    services.dom().contains(service_digest) && services[service_digest].token is Some
}

/// What the client sent is the digest of the service's token and the nonce.
pub open spec fn auth_matches(
    service: ServerServiceConfig,
    nonce: Seq<u8>,
    auth: Seq<u8>,
) -> bool {
    service.token is Some && auth == session_key_of(text_bytes(service.token->0@), nonce)
}

/// A service that a control channel may be opened for, as far as is known
/// before the client has shown that it knows the token.
pub fn find_service(services: &ServiceMap, service_digest: &Digest) -> (r: Result<
    Arc<ServerServiceConfig>,
    Refusal,
>)
    requires
        services.wf(),
    ensures
        r is Ok <==> servable(services@, service_digest@),
        r matches Ok(s) ==> s == services@[service_digest@],
        !services@.dom().contains(service_digest@) ==> (r matches Err(
            Refusal::UnknownService(text),
        ) && text@ == hex_chars(service_digest@)),
        services@.dom().contains(service_digest@) && services@[service_digest@].token is None ==> (
        r matches Err(Refusal::NoToken(name)) && name@ == services@[service_digest@].name@),
{
    match services.get(service_digest) {
        None => Err(Refusal::UnknownService(hex_encode(service_digest.as_slice()))),
        Some(service) => match &service.token {
            None => Err(Refusal::NoToken(service.name.as_str().to_owned())),
            Some(_) => Ok(Arc::clone(service)),
        },
    }
}

/// The session key, if the client has shown that it knows the token.
pub fn check_auth(service: &ServerServiceConfig, nonce: &Digest, auth: &Digest) -> (r: Result<
    Digest,
    Refusal,
>)
    ensures
        r is Ok <==> auth_matches(*service, nonce@, auth@),
        r matches Ok(key) ==> key@ == auth@,
        r matches Err(e) ==> (e matches Refusal::WrongAuth(name) && name@ == service.name@),
{
    match &service.token {
        Some(token) => {
            let session_key: Digest = derive_session_key(token.as_str(), nonce);
            if same_bytes(session_key.as_slice(), auth.as_slice()) {
                Ok(session_key)
            } else {
                Err(Refusal::WrongAuth(service.name.as_str().to_owned()))
            }
        },
        None => Err(Refusal::WrongAuth(service.name.as_str().to_owned())),
    }
}

/// The client of a service is newer than this timestamp.
pub open spec fn is_stale<H>(
    channels: Map<Seq<u8>, (Digest, ChannelRecord<H>)>,
    service_digest: Seq<u8>,
    timestamp: u64,
) -> bool {
    channels.dom().contains(service_digest) && channels[service_digest].1.timestamp > timestamp
}

/// Refuses a client that is older than the one that serves the service.
pub fn check_timestamp<H>(
    channels: &ControlChannelMap<H>,
    service_digest: &Digest,
    timestamp: u64,
) -> (r: Result<(), Refusal>)
    requires
        channels.wf(),
    ensures
        r == (if is_stale(channels@, service_digest@, timestamp) {
            Err(Refusal::Stale)
        } else {
            Ok::<(), Refusal>(())
        }),
{
    match channels.get1(service_digest) {
        Some(existing) => {
            if existing.timestamp > timestamp {
                Err(Refusal::Stale)
            } else {
                Ok(())
            }
        },
        None => Ok(()),
    }
}

/// The channels without the one that a new one takes the place of: that of the
/// same service, or else one with the same session key.
pub open spec fn displaced<H>(
    channels: Map<Seq<u8>, (Digest, ChannelRecord<H>)>,
    service_digest: Seq<u8>,
    session_key: Seq<u8>,
) -> Map<Seq<u8>, (Digest, ChannelRecord<H>)> {
    if channels.dom().contains(service_digest) {
        channels.remove(service_digest)
    } else if has_second(channels, session_key) {
        channels.remove(first_of(channels, session_key))
    } else {
        channels
    }
}

/// The channel that a new one takes the place of, if there is one.
pub open spec fn makes_way<H>(
    channels: Map<Seq<u8>, (Digest, ChannelRecord<H>)>,
    service_digest: Seq<u8>,
    session_key: Seq<u8>,
) -> Option<ChannelRecord<H>> {
    if channels.dom().contains(service_digest) {
        Some(channels[service_digest].1)
    } else if has_second(channels, session_key) {
        Some(channels[first_of(channels, session_key)].1)
    } else {
        None
    }
}

/// What opening a control channel leads to.
#[derive(Debug)]
pub struct Established<H> {
    /// The channel it took the place of, which is to be shut down.
    pub replaced: Option<ChannelRecord<H>>,
    /// The new channel itself, where it could not be kept.
    pub rejected: Option<ChannelRecord<H>>,
}

/// Keeps a new control channel.
pub fn establish<H>(
    channels: &mut ControlChannelMap<H>,
    service_digest: Digest,
    session_key: Digest,
    record: ChannelRecord<H>,
) -> (r: Established<H>)
    requires
        old(channels).wf(),
    ensures
        final(channels).wf(),
        second_keys_differ(final(channels)@),
        r.replaced == makes_way(old(channels)@, service_digest@, session_key@),
        r.replaced == (if old(channels)@.dom().contains(service_digest@) {
            Some(old(channels)@[service_digest@].1)
        } else if has_second(old(channels)@, session_key@) {
            Some(old(channels)@[first_of(old(channels)@, session_key@)].1)
        } else {
            None
        }),
        ({
            let rest = displaced(old(channels)@, service_digest@, session_key@);
            if has_second(rest, session_key@) {
                &&& final(channels)@ == rest
                &&& r.rejected == Some(record)
            } else {
                &&& final(channels)@ == rest.insert(service_digest@, (session_key, record))
                &&& r.rejected is None
            }
        }),
{
    let replaced = if channels.get1(&service_digest).is_some() {
        channels.remove1(&service_digest)
    } else if channels.get2(&session_key).is_some() {
        channels.remove2(&session_key)
    } else {
        None
    };
    assert(channels@ == displaced(old(channels)@, service_digest@, session_key@));
    assert(!channels@.dom().contains(service_digest@));
    match channels.insert(service_digest, session_key, record) {
        Ok(_) => Established { replaced, rejected: None },
        Err(back) => Established { replaced, rejected: Some(back) },
    }
}

/// Forgets the control channel with a session key: its task has ended, or its
/// service does not answer.
pub fn discard<H>(channels: &mut ControlChannelMap<H>, session_key: &Digest) -> (r: Option<
    ChannelRecord<H>,
>)
    requires
        old(channels).wf(),
    ensures
        final(channels).wf(),
        r is Some <==> has_second(old(channels)@, session_key@),
        r matches Some(c) ==> c == old(channels)@[first_of(old(channels)@, session_key@)].1
            && final(channels)@ == old(channels)@.remove(
            first_of(old(channels)@, session_key@),
        ),
        r is None ==> final(channels)@ == old(channels)@,
{
    channels.remove2(session_key)
}

/// Where a data channel goes.
#[derive(Clone, Copy, Debug, PartialEq, Eq, Structural)]
pub enum DataRoute {
    /// To the pool of data channels of the control channel.
    ToPool,
    /// To the multiplexed connections of the control channel.
    ToMux,
    /// Nowhere: no control channel has this session key.
    UnknownSession,
    /// Nowhere: the control channel takes no multiplexed connections.
    MuxDisabled,
    /// Nowhere: TCP visitors of this version are multiplexed.
    PlainRefused,
}

/// Where a data channel with a session key and a mode goes. A version without
/// modes has none.
pub open spec fn data_route<H>(
    channels: Map<Seq<u8>, (Digest, ChannelRecord<H>)>,
    session_key: Seq<u8>,
    mode: Option<DataChannelMode>,
) -> DataRoute {
    if !has_second(channels, session_key) {
        DataRoute::UnknownSession
    } else {
        let c = channels[first_of(channels, session_key)].1;
        match mode {
            None => DataRoute::ToPool,
            Some(DataChannelMode::Plain) => if c.service_type is Tcp {
                DataRoute::PlainRefused
            } else {
                DataRoute::ToPool
            },
            Some(DataChannelMode::Mux) => if c.mux {
                DataRoute::ToMux
            } else {
                DataRoute::MuxDisabled
            },
        }
    }
}

/// Finds where a data channel goes.
pub fn route_data_channel<H>(
    channels: &ControlChannelMap<H>,
    session_key: &Digest,
    mode: Option<DataChannelMode>,
) -> (r: DataRoute)
    requires
        channels.wf(),
    ensures
        r == data_route(channels@, session_key@, mode),
{
    match channels.get2(session_key) {
        None => DataRoute::UnknownSession,
        Some(c) => match mode {
            None => DataRoute::ToPool,
            Some(DataChannelMode::Plain) => match c.service_type {
                ServiceType::Tcp => DataRoute::PlainRefused,
                ServiceType::Udp => DataRoute::ToPool,
            },
            Some(DataChannelMode::Mux) => {
                if c.mux {
                    DataRoute::ToMux
                } else {
                    DataRoute::MuxDisabled
                }
            },
        },
    }
}

/// What a client that opens a control channel for a service with a token is
/// told, by what it sent for authentication and its timestamp.
pub open spec fn auth_answer<H>(
    service: ServerServiceConfig,
    channels: Map<Seq<u8>, (Digest, ChannelRecord<H>)>,
    service_digest: Seq<u8>,
    nonce: Seq<u8>,
    auth: Seq<u8>,
    timestamp: u64,
) -> Ack {
    if !auth_matches(service, nonce, auth) {
        Ack::AuthFailed
    } else if is_stale(channels, service_digest, timestamp) {
        Ack::AuthFailed
    } else {
        Ack::Accepted
    }
}

/// What a client that opens a control channel is told in the end.
pub open spec fn control_answer<H>(
    services: Map<Seq<u8>, Arc<ServerServiceConfig>>,
    channels: Map<Seq<u8>, (Digest, ChannelRecord<H>)>,
    service_digest: Seq<u8>,
    nonce: Seq<u8>,
    auth: Seq<u8>,
    timestamp: u64,
) -> Ack {
    if !services.dom().contains(service_digest) {
        Ack::ServiceNotExist
    } else if !servable(services, service_digest) {
        Ack::AuthFailed
    } else {
        auth_answer(
            *services[service_digest],
            channels,
            service_digest,
            nonce,
            auth,
            timestamp,
        )
    }
}

/// A client that opens a control channel, while it is being checked.
#[derive(Debug)]
pub struct ControlHandshake {
    version: u8,
    service_digest: Digest,
    timestamp: u64,
    nonce: Digest,
    service: Option<Arc<ServerServiceConfig>>,
}

/// A client that opens a control channel, while it is being checked.
pub struct HandshakeState {
    /// The version that it speaks.
    pub version: u8,
    /// The service that it names.
    pub service_digest: Digest,
    /// Its timestamp.
    pub timestamp: u64,
    /// The nonce that it was sent.
    pub nonce: Digest,
    /// The service, once it was found.
    pub service: Option<Arc<ServerServiceConfig>>,
}

impl View for ControlHandshake {
    type V = HandshakeState;

    closed spec fn view(&self) -> HandshakeState {
        HandshakeState {
            version: self.version,
            service_digest: self.service_digest,
            timestamp: self.timestamp,
            nonce: self.nonce,
            service: self.service,
        }
    }
}

impl ControlHandshake {
    /// Begins with a nonce, and with the hello that carries it.
    pub fn begin_with(version: u8, service_digest: Digest, timestamp: u64, nonce: Digest) -> (r: (
        ControlHandshake,
        Vec<u8>,
    ))
        ensures
            r.0@ == (HandshakeState { version, service_digest, timestamp, nonce, service: None }),
            r.1@ == hello_bytes(Hello::ControlChannelHello(version, nonce)),
    {
        let hello: Vec<u8> = server_hello(version, nonce);
        (ControlHandshake { version, service_digest, timestamp, nonce, service: None }, hello)
    }

    /// Begins with a nonce of its own, and with the hello that carries it.
    pub fn begin(version: u8, service_digest: Digest, timestamp: u64) -> (r: (
        ControlHandshake,
        Vec<u8>,
    ))
        ensures
            r.0@ == (HandshakeState {
                version,
                service_digest,
                timestamp,
                nonce: r.0@.nonce,
                service: None,
            }),
            r.1@ == hello_bytes(Hello::ControlChannelHello(version, r.0@.nonce)),
    {
        ControlHandshake::begin_with(version, service_digest, timestamp, fresh_nonce())
    }

    /// Looks the service up. Where a client may serve it, what it sends for
    /// authentication is to be read.
    pub fn look_up(&mut self, services: &ServiceMap) -> (r: Result<(), Refusal>)
        requires
            services.wf(),
        ensures
            r is Ok <==> servable(services@, old(self)@.service_digest@),
            r is Ok ==> final(self)@ == (HandshakeState {
                service: Some(services@[old(self)@.service_digest@]),
                ..old(self)@
            }),
            r matches Err(e) ==> final(self)@ == old(self)@ && refusal_ack(e) == (
            if services@.dom().contains(old(self)@.service_digest@) {
                Ack::AuthFailed
            } else {
                Ack::ServiceNotExist
            }),
            r matches Err(e) ==> if services@.dom().contains(old(self)@.service_digest@) {
                e matches Refusal::NoToken(name) && name@
                    == services@[old(self)@.service_digest@].name@
            } else {
                e matches Refusal::UnknownService(text) && text@ == hex_chars(
                    old(self)@.service_digest@,
                )
            },
    {
        match find_service(services, &self.service_digest) {
            Ok(service) => {
                self.service = Some(service);
                Ok(())
            },
            Err(e) => Err(e),
        }
    }

    /// Takes what the client sent for authentication. The session key, if the
    /// client is accepted.
    pub fn judge<H>(&self, auth: &Digest, channels: &ControlChannelMap<H>) -> (r: Result<
        Digest,
        Refusal,
    >)
        requires
            channels.wf(),
            self@.service is Some,
        ensures
            ({
                let answer = auth_answer(
                    *self@.service->0,
                    channels@,
                    self@.service_digest@,
                    self@.nonce@,
                    auth@,
                    self@.timestamp,
                );
                &&& r is Ok <==> answer is Accepted
                &&& r matches Err(e) ==> refusal_ack(e) == answer
            }),
            r matches Ok(key) ==> key@ == auth@,
            r matches Err(e) ==> if auth_matches(*self@.service->0, self@.nonce@, auth@) {
                e is Stale
            } else {
                e matches Refusal::WrongAuth(name) && name@ == self@.service->0.name@
            },
    {
        match &self.service {
            Some(service) => match check_auth(service, &self.nonce, auth) {
                Err(e) => Err(e),
                Ok(session_key) => match check_timestamp(
                    channels,
                    &self.service_digest,
                    self.timestamp,
                ) {
                    Err(e) => Err(e),
                    Ok(_) => Ok(session_key),
                },
            },
            None => Err(Refusal::Stale),
        }
    }

    /// The service, once it was found.
    pub fn service(&self) -> (r: Option<Arc<ServerServiceConfig>>)
        ensures
            r == self@.service,
    {
        match &self.service {
            Some(service) => Some(Arc::clone(service)),
            None => None,
        }
    }
}

/// A handshake comes to the answer that the services, the channels and what
/// the client sent call for: a refusal where the service is looked up, or else
/// the answer to the authentication.
pub proof fn handshake_comes_to_the_answer<H>(
    services: Map<Seq<u8>, Arc<ServerServiceConfig>>,
    channels: Map<Seq<u8>, (Digest, ChannelRecord<H>)>,
    s: HandshakeState,
    auth: Seq<u8>,
)
    ensures
        ({
            let answer = control_answer(
                services,
                channels,
                s.service_digest@,
                s.nonce@,
                auth,
                s.timestamp,
            );
            if servable(services, s.service_digest@) {
                answer == auth_answer(
                    *services[s.service_digest@],
                    channels,
                    s.service_digest@,
                    s.nonce@,
                    auth,
                    s.timestamp,
                )
            } else if services.dom().contains(s.service_digest@) {
                answer == Ack::AuthFailed
            } else {
                answer == Ack::ServiceNotExist
            }
        }),
{
}

/// A client is accepted only if what it sent is the digest of the service's
/// token and the nonce of this handshake.
pub proof fn only_token_holders_are_accepted<H>(
    services: Map<Seq<u8>, Arc<ServerServiceConfig>>,
    channels: Map<Seq<u8>, (Digest, ChannelRecord<H>)>,
    service_digest: Seq<u8>,
    nonce: Seq<u8>,
    auth: Seq<u8>,
    timestamp: u64,
)
    requires
        control_answer(services, channels, service_digest, nonce, auth, timestamp) is Accepted,
    ensures
        services.dom().contains(service_digest),
        services[service_digest].token is Some,
        auth == session_key_of(text_bytes(services[service_digest].token->0@), nonce),
        !is_stale(channels, service_digest, timestamp),
{
}

/// A client that holds the token of a known service is accepted if no newer
/// client serves it; a client as old as the one that does is.
pub proof fn token_holders_are_accepted<H>(
    services: Map<Seq<u8>, Arc<ServerServiceConfig>>,
    channels: Map<Seq<u8>, (Digest, ChannelRecord<H>)>,
    service_digest: Seq<u8>,
    nonce: Seq<u8>,
    timestamp: u64,
)
    requires
        services.dom().contains(service_digest),
        services[service_digest].token is Some,
        channels.dom().contains(service_digest) ==> channels[service_digest].1.timestamp
            <= timestamp,
    ensures
        control_answer(
            services,
            channels,
            service_digest,
            nonce,
            session_key_of(text_bytes(services[service_digest].token->0@), nonce),
            timestamp,
        ) is Accepted,
{
}

/// No refused client is told of timestamps, so that clients of every version
/// understand the answer.
pub proof fn refusals_are_understood_by_all_versions(r: Refusal)
    ensures
        refusal_ack(r) is ServiceNotExist || refusal_ack(r) is AuthFailed,
        r is Stale ==> refusal_ack(r) is AuthFailed,
{
}

/// A control channel that was kept is found by the data channels of its
/// client, and every other service's channel is as before, but for one that
/// had the same session key.
pub proof fn established_channel_is_found<H>(
    before: Map<Seq<u8>, (Digest, ChannelRecord<H>)>,
    service_digest: Seq<u8>,
    session_key: Digest,
    record: ChannelRecord<H>,
    other: Seq<u8>,
)
    requires
        second_keys_differ(before),
        !has_second(displaced(before, service_digest, session_key@), session_key@),
    ensures
        ({
            let after = displaced(before, service_digest, session_key@).insert(
                service_digest,
                (session_key, record),
            );
            &&& has_second(after, session_key@)
            &&& first_of(after, session_key@) == service_digest
            &&& after[first_of(after, session_key@)].1 == record
            &&& other != service_digest && before.dom().contains(other) && before[other].0@
                != session_key@ ==> after.dom().contains(other) && after[other] == before[other]
        }),
{
    let rest = displaced(before, service_digest, session_key@);
    let after = rest.insert(service_digest, (session_key, record));
    assert(after.dom().contains(service_digest) && after[service_digest].0@ == session_key@);
    let f = first_of(after, session_key@);
    assert(after.dom().contains(f) && after[f].0@ == session_key@);
    if f != service_digest {
        assert(rest.dom().contains(f) && rest[f].0@ == session_key@);
    }
}

/// When the task of a channel that was replaced ends, cleaning up after it
/// leaves its successor alone, whose session key is another.
pub proof fn cleanup_leaves_the_successor<H>(
    channels: Map<Seq<u8>, (Digest, ChannelRecord<H>)>,
    service_digest: Seq<u8>,
    old_key: Seq<u8>,
)
    requires
        second_keys_differ(channels),
        channels.dom().contains(service_digest),
        channels[service_digest].0@ != old_key,
        has_second(channels, old_key),
    ensures
        channels.remove(first_of(channels, old_key)).dom().contains(service_digest),
        channels.remove(first_of(channels, old_key))[service_digest] == channels[service_digest],
{
    let f = first_of(channels, old_key);
    assert(channels.dom().contains(f) && channels[f].0@ == old_key);
}

/// Connections of every version but those that are spoken are turned away,
/// whatever they are for.
pub proof fn only_spoken_versions_are_greeted(h: Hello)
    ensures
        greeting_of(h) is UnknownVersion <==> !accepted_version(crate::protocol::hello_version(h)),
{
}

/// A control channel that takes the place of another of the same service is
/// never of an older client.
pub proof fn replacements_are_never_older<H>(
    before: Map<Seq<u8>, (Digest, ChannelRecord<H>)>,
    service_digest: Seq<u8>,
    session_key: Digest,
    record: ChannelRecord<H>,
)
    requires
        before.dom().contains(service_digest),
        !is_stale(before, service_digest, record.timestamp),
    ensures
        ({
            let after = displaced(before, service_digest, session_key@).insert(
                service_digest,
                (session_key, record),
            );
            after[service_digest].1.timestamp >= before[service_digest].1.timestamp
        }),
{
}

/// A plain data channel is turned away where TCP visitors are multiplexed, and
/// taken for UDP and in the version without modes.
pub proof fn plain_channels_are_for_udp_and_old_clients<H>(
    channels: Map<Seq<u8>, (Digest, ChannelRecord<H>)>,
    session_key: Seq<u8>,
)
    requires
        has_second(channels, session_key),
    ensures
        ({
            let tcp = channels[first_of(channels, session_key)].1.service_type is Tcp;
            let plain = Some(DataChannelMode::Plain);
            &&& data_route(channels, session_key, None) == DataRoute::ToPool
            &&& tcp ==> data_route(channels, session_key, plain) == DataRoute::PlainRefused
            &&& !tcp ==> data_route(channels, session_key, plain) == DataRoute::ToPool
        }),
{
}

/// With an empty table of channels, or another client's session key, a data
/// channel is not taken.
pub proof fn strangers_get_no_data_channel<H>(
    channels: Map<Seq<u8>, (Digest, ChannelRecord<H>)>,
    session_key: Seq<u8>,
    mode: Option<DataChannelMode>,
)
    requires
        forall|d: Seq<u8>| #[trigger]
            channels.dom().contains(d) ==> channels[d].0@ != session_key,
    ensures
        data_route(channels, session_key, mode) == DataRoute::UnknownSession,
{
}

/// A connection in a spoken version is taken for what its hello says, with the
/// version and the digest of the hello; whether a mode follows depends on the
/// version.
pub proof fn hellos_are_taken_at_their_word(version: u8, d: Digest)
    ensures
        2 <= version <= 3 ==> greeting_of(Hello::ControlChannelHello(version, d))
            == Greeting::ControlChannel(version, d),
        version == 3 ==> greeting_of(Hello::DataChannelHello(version, d))
            == Greeting::ModalDataChannel(d),
        version == 2 ==> greeting_of(Hello::DataChannelHello(version, d))
            == Greeting::PlainDataChannel(d),
        !(2 <= version <= 3) ==> greeting_of(Hello::ControlChannelHello(version, d))
            == Greeting::UnknownVersion(version) && greeting_of(
            Hello::DataChannelHello(version, d),
        ) == Greeting::UnknownVersion(version),
{
}

/// Only a client that names an unknown service is told so; every other refusal
/// is told as a failed authentication.
pub proof fn only_unknown_services_are_told(r: Refusal)
    ensures
        refusal_ack(r) is ServiceNotExist <==> r is UnknownService,
        refusal_ack(r) is AuthFailed <==> !(r is UnknownService),
{
}

/// A client is turned away for its age exactly when one that started later, by
/// its own account, serves the same service; clients of other services do not
/// matter.
pub proof fn only_newer_clients_turn_others_away<H>(
    channels: Map<Seq<u8>, (Digest, ChannelRecord<H>)>,
    service_digest: Seq<u8>,
    timestamp: u64,
    other: Seq<u8>,
    entry: (Digest, ChannelRecord<H>),
)
    requires
        other != service_digest,
    ensures
        is_stale(channels, service_digest, timestamp) <==> channels.dom().contains(service_digest)
            && timestamp < channels[service_digest].1.timestamp,
        is_stale(channels.insert(other, entry), service_digest, timestamp) == is_stale(
            channels,
            service_digest,
            timestamp,
        ),
        !is_stale(channels.remove(service_digest), service_digest, timestamp),
{
}

/// What a client is told in the end: of an unknown service exactly where there
/// is none of that digest; that it is accepted exactly where it sent the digest
/// of the service's token and the nonce and no newer client serves the
/// service; and that its authentication failed in every other case.
pub proof fn clients_are_told_what_holds<H>(
    services: Map<Seq<u8>, Arc<ServerServiceConfig>>,
    channels: Map<Seq<u8>, (Digest, ChannelRecord<H>)>,
    service_digest: Seq<u8>,
    nonce: Seq<u8>,
    auth: Seq<u8>,
    timestamp: u64,
)
    ensures
        ({
            let answer = control_answer(
                services,
                channels,
                service_digest,
                nonce,
                auth,
                timestamp,
            );
            let known = services.dom().contains(service_digest);
            let token = services[service_digest].token;
            let newer = channels.dom().contains(service_digest)
                && channels[service_digest].1.timestamp > timestamp;
            let right = known && token is Some && auth == crate::outside::sha256(
                text_bytes(token->0@) + nonce,
            ) && !newer;
            &&& answer is ServiceNotExist <==> !known
            &&& answer is Accepted <==> right
            &&& answer is AuthFailed <==> known && !right
        }),
{
}

/// The same of a service that was found: the answer depends on nothing but its
/// token, the nonce, what the client sent, and whether a newer client serves
/// it.
pub proof fn authentication_takes_the_token<H>(
    service: ServerServiceConfig,
    channels: Map<Seq<u8>, (Digest, ChannelRecord<H>)>,
    service_digest: Seq<u8>,
    nonce: Seq<u8>,
    auth: Seq<u8>,
    timestamp: u64,
)
    ensures
        ({
            let answer = auth_answer(service, channels, service_digest, nonce, auth, timestamp);
            let newer = channels.dom().contains(service_digest)
                && channels[service_digest].1.timestamp > timestamp;
            let right = service.token is Some && auth == crate::outside::sha256(
                text_bytes(service.token->0@) + nonce,
            );
            &&& answer is Accepted <==> right && !newer
            &&& answer is AuthFailed <==> !right || newer
            &&& auth_matches(service, nonce, auth) <==> right
        }),
{
}

/// A new control channel takes the place of that of its service. Where there is
/// none, it takes that of the channel with its session key, and where there is
/// none of that either, nobody's; no other channel is touched.
pub proof fn one_channel_at_most_makes_way<H>(
    channels: Map<Seq<u8>, (Digest, ChannelRecord<H>)>,
    service_digest: Seq<u8>,
    session_key: Seq<u8>,
    other: Seq<u8>,
)
    requires
        second_keys_differ(channels),
    ensures
        ({
            let rest = displaced(channels, service_digest, session_key);
            let replaces = channels.dom().contains(service_digest);
            &&& !rest.dom().contains(service_digest)
            &&& rest.dom().contains(other) <==> channels.dom().contains(other) && other
                != service_digest && (replaces || channels[other].0@ != session_key)
            &&& rest.dom().contains(other) ==> rest[other] == channels[other]
        }),
{
    if !channels.dom().contains(service_digest) && has_second(channels, session_key) {
        let f = first_of(channels, session_key);
        assert(channels.dom().contains(f) && channels[f].0@ == session_key);
    }
}

/// A new control channel is kept unless its service's old one made way and yet
/// another service's has the same session key.
pub proof fn new_channels_are_kept<H>(
    channels: Map<Seq<u8>, (Digest, ChannelRecord<H>)>,
    service_digest: Seq<u8>,
    session_key: Seq<u8>,
)
    requires
        second_keys_differ(channels),
        forall|d: Seq<u8>| #[trigger]
            channels.dom().contains(d) && d != service_digest ==> channels[d].0@ != session_key,
    ensures
        !has_second(displaced(channels, service_digest, session_key), session_key),
{
    let rest = displaced(channels, service_digest, session_key);
    if has_second(rest, session_key) {
        let f = first_of(rest, session_key);
        assert(rest.dom().contains(f) && rest[f].0@ == session_key);
        assert(channels.dom().contains(f));
    }
}

/// A data channel with the session key of a control channel goes where that one
/// takes it: one of the version without modes to the pool; a plain one to the
/// pool, unless TCP visitors are multiplexed; a multiplexed connection to the
/// others, where there are any. Only an unknown session key leads nowhere else.
pub proof fn data_channels_find_their_way<H>(
    channels: Map<Seq<u8>, (Digest, ChannelRecord<H>)>,
    d: Seq<u8>,
    mode: Option<DataChannelMode>,
)
    requires
        second_keys_differ(channels),
        channels.dom().contains(d),
    ensures
        ({
            let key = channels[d].0@;
            let c = channels[d].1;
            let route = data_route(channels, key, mode);
            &&& route is ToPool <==> mode is None || (mode == Some(DataChannelMode::Plain)
                && c.service_type is Udp)
            &&& route is PlainRefused <==> mode == Some(DataChannelMode::Plain) && c.service_type
                is Tcp
            &&& route is ToMux <==> mode == Some(DataChannelMode::Mux) && c.mux
            &&& route is MuxDisabled <==> mode == Some(DataChannelMode::Mux) && !c.mux
            &&& !(route is UnknownSession)
        }),
{
    crate::multi_map::a_second_key_leads_to_its_value(channels, d);
}

/// A refusal is told of every service in the same words around its name, or
/// behind them its digest.
pub proof fn refusals_name_the_service(a: String, b: String, more: Seq<char>)
    requires
        b@ == a@ + more,
    ensures
        refusal_chars(Refusal::UnknownService(b)) == refusal_chars(Refusal::UnknownService(a))
            + more,
        ({
            let n = 3 + a@.len() as int;
            let x = refusal_chars(Refusal::NoToken(a));
            let y = refusal_chars(Refusal::WrongAuth(a));
            &&& refusal_chars(Refusal::NoToken(b)) == x.take(n) + more + x.skip(n)
            &&& refusal_chars(Refusal::WrongAuth(b)) == y.take(n) + more + y.skip(n)
            &&& x.subrange(3, n) == a@
            &&& y.subrange(3, n) == a@
        }),
{
    reveal_strlit("服务 ");
    let n = 3 + a@.len() as int;
    let x = refusal_chars(Refusal::NoToken(a));
    let y = refusal_chars(Refusal::WrongAuth(a));
    assert(refusal_chars(Refusal::UnknownService(b)) =~= refusal_chars(Refusal::UnknownService(a))
        + more);
    assert(refusal_chars(Refusal::NoToken(b)) =~= x.take(n) + more + x.skip(n));
    assert(refusal_chars(Refusal::WrongAuth(b)) =~= y.take(n) + more + y.skip(n));
    assert(x.subrange(3, n) =~= a@);
    assert(y.subrange(3, n) =~= a@);
}

/// The channel that makes way for a new one, and is to be shut down, is that of
/// the same service; where there is none, the one with the same session key;
/// and where there is none of that either, no channel.
pub proof fn the_channel_that_makes_way_is_handed_out<H>(
    channels: Map<Seq<u8>, (Digest, ChannelRecord<H>)>,
    service_digest: Seq<u8>,
    session_key: Seq<u8>,
    d: Seq<u8>,
)
    requires
        second_keys_differ(channels),
    ensures
        channels.dom().contains(service_digest) ==> makes_way(
            channels,
            service_digest,
            session_key,
        ) == Some(channels[service_digest].1),
        !channels.dom().contains(service_digest) && channels.dom().contains(d) && channels[d].0@
            == session_key ==> makes_way(channels, service_digest, session_key) == Some(
            channels[d].1,
        ),
        makes_way(channels, service_digest, session_key) is None <==> displaced(
            channels,
            service_digest,
            session_key,
        ) == channels,
{
    if !channels.dom().contains(service_digest) && has_second(channels, session_key) {
        let f = first_of(channels, session_key);
        assert(channels.dom().contains(f) && channels[f].0@ == session_key);
        assert(!channels.remove(f).dom().contains(f));
    }
    if channels.dom().contains(service_digest) {
        assert(!channels.remove(service_digest).dom().contains(service_digest));
    }
}

} // verus!

//! The client's end: how it opens control and data channels, and what it does
//! when it is asked for more.
use crate::config::{ClientServiceConfig, ConfigChange};
use crate::data_channel_handler::{get_data_channel_tcp_handler, get_data_channel_udp_handler};
use crate::mux::{target_step, PoolState};
use crate::protocol::{
    derive_session_key, digest, encode_auth, encode_hello, encode_mode, hello_bytes, mode_byte,
    session_key_of, Ack, ControlChannelCmd, ControlChannelMuxResp, DataChannelCmd,
    DataChannelMode, Digest, Hello, MuxRespKind, ServiceType, CURRENT_PROTO_VERSION,
};
use crate::registry::Registry;
use crate::server::service_digest;
use crate::text::{version_mismatch, version_mismatch_text};
use crate::wire::{le_bytes, le_u64, push_all, text_bytes};
use std::sync::Arc;
use vstd::prelude::*;
use vstd::string::StringExecFns;

verus! {

/// The longest wait between two attempts to run a control channel, in seconds.
pub const CONTROL_RETRY_MAX_SECS: u64 = 60;

/// A control channel that ran for longer than this was a good one.
pub const GOOD_RUN_MS: u64 = 10_000;

/// What a client does about a change of its configuration.
#[derive(Debug)]
pub enum ClientReload {
    /// Start a control channel for the service, in the place of any other.
    Start(Arc<ClientServiceConfig>),
    /// Drop the control channel of the service of that name.
    Drop(String),
    /// The change is not for a client.
    Ignored,
}

/// Takes a change of the configuration.
pub fn client_hot_reload(change: ConfigChange) -> (r: ClientReload)
    ensures
        change matches ConfigChange::AddClientService(cfg) ==> r == ClientReload::Start(cfg),
        change matches ConfigChange::DeleteClientService(name) ==> r == ClientReload::Drop(name),
        change is AddServerService || change is DeleteServerService ==> r is Ignored,
{
    match change {
        ConfigChange::AddClientService(cfg) => ClientReload::Start(cfg),
        ConfigChange::DeleteClientService(name) => ClientReload::Drop(name),
        _ => ClientReload::Ignored,
    }
}

/// Why a control or data channel of a client ended.
#[derive(Debug)]
pub enum ClientError {
    /// The server's hello is one for a data channel.
    UnexpectedHello,
    /// The server speaks another version.
    VersionMismatch(u8),
    /// A newer client serves the service.
    RejectedDueToTimestamp,
    /// The server refused.
    AuthenticationFailed(Ack),
    /// Nobody handles the TCP channels of the service.
    MissingTcpHandler,
    /// Nobody handles the UDP channels of the service.
    MissingUdpHandler,
    /// A multiplexed connection was asked for, but the service is not TCP.
    MuxNeedsTcp,
    /// The server's commands ended.
    CommandsEnded,
    /// The server has been silent for too long.
    HeartbeatTimeout,
    /// The server forwards TCP, but the service is not TCP.
    ExpectTcp,
    /// The server forwards UDP, but the service is not UDP.
    ExpectUdp,
}

/// How an error of a service is told.
pub open spec fn error_text(e: ClientError, service_name: Seq<char>) -> Seq<char> {
    match e {
        ClientError::UnexpectedHello => "Unexpected type of hello"@,
        ClientError::VersionMismatch(version) => version_mismatch(version),
        ClientError::RejectedDueToTimestamp => "认证失败(时间戳过旧): "@ + service_name,
        ClientError::AuthenticationFailed(_) => "Authentication failed: "@ + service_name,
        ClientError::MissingTcpHandler => "未注册 TCP 直连处理器: "@ + service_name,
        ClientError::MissingUdpHandler => "未注册 UDP 直连处理器: "@ + service_name,
        ClientError::MuxNeedsTcp => "mux 仅支持 TCP 服务: "@ + service_name,
        ClientError::CommandsEnded => "控制指令通道已关闭"@,
        ClientError::HeartbeatTimeout => "Heartbeat timed out"@,
        ClientError::ExpectTcp => "Expect TCP traffic. Please check the configuration."@,
        ClientError::ExpectUdp => "Expect UDP traffic. Please check the configuration."@,
    }
}

/// Tells an error of a service.
pub fn client_error_text(e: &ClientError, service_name: &str) -> (r: String)
    ensures
        r@ == error_text(*e, service_name@),
{
    match e {
        ClientError::UnexpectedHello => "Unexpected type of hello".to_owned(),
        ClientError::VersionMismatch(version) => version_mismatch_text(*version),
        ClientError::RejectedDueToTimestamp => "认证失败(时间戳过旧): ".to_owned().concat(
            service_name,
        ),
        ClientError::AuthenticationFailed(_) => "Authentication failed: ".to_owned().concat(
            service_name,
        ),
        ClientError::MissingTcpHandler => "未注册 TCP 直连处理器: ".to_owned().concat(
            service_name,
        ),
        ClientError::MissingUdpHandler => "未注册 UDP 直连处理器: ".to_owned().concat(
            service_name,
        ),
        ClientError::MuxNeedsTcp => "mux 仅支持 TCP 服务: ".to_owned().concat(service_name),
        ClientError::CommandsEnded => "控制指令通道已关闭".to_owned(),
        ClientError::HeartbeatTimeout => "Heartbeat timed out".to_owned(),
        ClientError::ExpectTcp => {
            "Expect TCP traffic. Please check the configuration.".to_owned()
        },
        ClientError::ExpectUdp => {
            "Expect UDP traffic. Please check the configuration.".to_owned()
        },
    }
}

/// The first message on a control channel: a hello with the digest of the
/// service's name, and the timestamp.
pub open spec fn control_opening(service_digest: Digest, timestamp: u64) -> Seq<u8> {
    hello_bytes(Hello::ControlChannelHello(CURRENT_PROTO_VERSION, service_digest)) + le_bytes(
        timestamp as nat,
        8,
    )
}

/// Writes the first message on a control channel.
pub fn open_control_channel(service_digest: &Digest, timestamp: u64) -> (r: Vec<u8>)
    ensures
        r@ == control_opening(*service_digest, timestamp),
{
    let mut bytes: Vec<u8> = encode_hello(
        &Hello::ControlChannelHello(CURRENT_PROTO_VERSION, *service_digest),
    );
    let stamp: Vec<u8> = le_u64(timestamp);
    push_all(&mut bytes, stamp.as_slice());
    bytes
}

/// What is wrong with the server's hello, if anything is.
pub open spec fn hello_fault(hello: Hello) -> Option<ClientError> {
    match hello {
        Hello::DataChannelHello(_, _) => Some(ClientError::UnexpectedHello),
        Hello::ControlChannelHello(version, _) => if version == CURRENT_PROTO_VERSION {
            None
        } else {
            Some(ClientError::VersionMismatch(version))
        },
    }
}

/// Takes the server's hello. The session key, and what to write to show that
/// the token is known.
pub fn on_server_hello(service: &ClientServiceConfig, hello: Hello) -> (r: Result<
    (Digest, Vec<u8>),
    ClientError,
>)
    requires
        service.token is Some,
    ensures
        r is Ok <==> hello_fault(hello) is None,
        r matches Err(e) ==> hello_fault(hello) == Some(e),
        match hello {
            Hello::DataChannelHello(_, _) => r matches Err(e) && e is UnexpectedHello,
            Hello::ControlChannelHello(version, nonce) => if version != CURRENT_PROTO_VERSION {
                r matches Err(e) && e == ClientError::VersionMismatch(version)
            } else {
                r matches Ok(p) && p.0@ == session_key_of(
                    text_bytes(service.token->0@),
                    nonce@,
                ) && p.1@ == p.0@
            },
        },
{
    match hello {
        Hello::DataChannelHello(_, _) => Err(ClientError::UnexpectedHello),
        Hello::ControlChannelHello(version, nonce) => {
            if version != CURRENT_PROTO_VERSION {
                return Err(ClientError::VersionMismatch(version));
            }
            match &service.token {
                Some(token) => {
                    let session_key: Digest = derive_session_key(token.as_str(), &nonce);
                    let auth: Vec<u8> = encode_auth(&session_key);
                    Ok((session_key, auth))
                },
                None => Err(ClientError::UnexpectedHello),
            }
        },
    }
}

/// What the server's answer to the authentication amounts to.
pub open spec fn ack_verdict(ack: Ack) -> Result<(), ClientError> {
    match ack {
        Ack::Accepted => Ok(()),
        Ack::RejectedDueToTimestamp => Err(ClientError::RejectedDueToTimestamp),
        _ => Err(ClientError::AuthenticationFailed(ack)),
    }
}

/// Takes the server's answer to the authentication.
pub fn on_ack(ack: Ack) -> (r: Result<(), ClientError>)
    ensures
        r == ack_verdict(ack),
        r == (match ack {
            Ack::Accepted => Ok::<(), ClientError>(()),
            Ack::RejectedDueToTimestamp => Err(ClientError::RejectedDueToTimestamp),
            _ => Err(ClientError::AuthenticationFailed(ack)),
        }),
{
    match ack {
        Ack::Accepted => Ok(()),
        Ack::RejectedDueToTimestamp => Err(ClientError::RejectedDueToTimestamp),
        _ => Err(ClientError::AuthenticationFailed(ack)),
    }
}

/// How far the opening of a control channel has come.
#[derive(Clone, Copy, Debug)]
pub enum DialogPhase {
    /// The server's hello is to come.
    AwaitHello,
    /// The server's answer to the authentication is to come.
    AwaitAck(Digest),
    /// The server accepted the client, with this session key.
    Open(Digest),
    /// The channel failed.
    Failed,
}

/// A client that opens a control channel for a service.
#[derive(Debug)]
pub struct ControlDialog {
    service: Arc<ClientServiceConfig>,
    phase: DialogPhase,
}

impl ControlDialog {
    /// The service that it is for.
    pub closed spec fn service(&self) -> Arc<ClientServiceConfig> {
        self.service
    }

    /// How far it has come.
    pub closed spec fn phase(&self) -> DialogPhase {
        self.phase
    }

    /// Begins with the first message, which names the service by the digest of
    /// its name.
    pub fn start(service: Arc<ClientServiceConfig>, timestamp: u64) -> (r: (
        ControlDialog,
        Vec<u8>,
    ))
        ensures
            r.0.service() == service,
            r.0.phase() is AwaitHello,
            exists|d: Digest|
                d@ == service_digest(service.name@) && r.1@ == #[trigger] control_opening(
                    d,
                    timestamp,
                ),
    {
        let d: Digest = digest(service.name.as_str().as_bytes());
        let opening: Vec<u8> = open_control_channel(&d, timestamp);
        assert(d@ == service_digest(service.name@) && opening@ == control_opening(d, timestamp));
        (ControlDialog { service, phase: DialogPhase::AwaitHello }, opening)
    }

    /// Takes the server's hello. What to write to show that the token is known.
    pub fn on_hello(&mut self, hello: Hello) -> (r: Result<Vec<u8>, ClientError>)
        requires
            old(self).phase() is AwaitHello,
            old(self).service().token is Some,
        ensures
            final(self).service() == old(self).service(),
            r is Ok <==> hello_fault(hello) is None,
            r matches Err(e) ==> hello_fault(hello) == Some(e),
            match hello {
                Hello::DataChannelHello(_, _) => r matches Err(e) && e is UnexpectedHello,
                Hello::ControlChannelHello(version, nonce) => if version
                    != CURRENT_PROTO_VERSION {
                    r matches Err(e) && e == ClientError::VersionMismatch(version)
                } else {
                    &&& r matches Ok(auth) && auth@ == session_key_of(
                        text_bytes(old(self).service().token->0@),
                        nonce@,
                    )
                    &&& final(self).phase() matches DialogPhase::AwaitAck(key) && key@
                        == session_key_of(text_bytes(old(self).service().token->0@), nonce@)
                },
            },
            r is Err ==> final(self).phase() is Failed,
    {
        match on_server_hello(&self.service, hello) {
            Ok((session_key, auth)) => {
                self.phase = DialogPhase::AwaitAck(session_key);
                Ok(auth)
            },
            Err(e) => {
                self.phase = DialogPhase::Failed;
                Err(e)
            },
        }
    }

    /// Takes the server's answer. The session key, if the client was accepted.
    pub fn on_ack(&mut self, ack: Ack) -> (r: Result<Digest, ClientError>)
        requires
            old(self).phase() is AwaitAck,
        ensures
            final(self).service() == old(self).service(),
            r is Ok <==> ack_verdict(ack) is Ok,
            r matches Err(e) ==> ack_verdict(ack) == Err::<(), ClientError>(e),
            match ack {
                Ack::Accepted => r matches Ok(key) && old(self).phase() == DialogPhase::AwaitAck(
                    key,
                ) && final(self).phase() == DialogPhase::Open(key),
                Ack::RejectedDueToTimestamp => r matches Err(e) && e is RejectedDueToTimestamp
                    && final(self).phase() is Failed,
                _ => r matches Err(e) && e == ClientError::AuthenticationFailed(ack)
                    && final(self).phase() is Failed,
            },
    {
        match (on_ack(ack), self.phase) {
            (Ok(_), DialogPhase::AwaitAck(key)) => {
                self.phase = DialogPhase::Open(key);
                Ok(key)
            },
            (Err(e), _) => {
                self.phase = DialogPhase::Failed;
                Err(e)
            },
            _ => {
                self.phase = DialogPhase::Failed;
                Err(ClientError::UnexpectedHello)
            },
        }
    }
}

/// The first message on a data channel: a hello with the session key, and the
/// mode.
pub open spec fn data_opening(session_key: Digest, mode: DataChannelMode) -> Seq<u8> {
    hello_bytes(Hello::DataChannelHello(CURRENT_PROTO_VERSION, session_key)) + seq![
        mode_byte(mode),
    ]
}

/// Writes the first message on a data channel.
pub fn open_data_channel(session_key: &Digest, mode: DataChannelMode) -> (r: Vec<u8>)
    ensures
        r@ == data_opening(*session_key, mode),
{
    let mut bytes: Vec<u8> = encode_hello(
        &Hello::DataChannelHello(CURRENT_PROTO_VERSION, *session_key),
    );
    bytes.push(encode_mode(mode));
    assert(bytes@ =~= data_opening(*session_key, mode));
    bytes
}

/// Who takes a data channel or a stream.
#[derive(Clone, Copy, Debug, PartialEq, Eq, Structural)]
pub enum Forward {
    /// The handler of TCP channels.
    Tcp,
    /// The handler of UDP channels.
    Udp,
    /// Nobody: UDP is not multiplexed.
    RefuseUdp,
}

/// Who takes a data channel: the handler of what the service carries, where the
/// server forwards the same.
pub open spec fn data_forward(cmd: DataChannelCmd, service_type: ServiceType) -> Result<
    Forward,
    ClientError,
> {
    match (cmd, service_type) {
        (DataChannelCmd::StartForwardTcp, ServiceType::Tcp) => Ok(Forward::Tcp),
        (DataChannelCmd::StartForwardUdp, ServiceType::Udp) => Ok(Forward::Udp),
        (DataChannelCmd::StartForwardTcp, ServiceType::Udp) => Err(ClientError::ExpectTcp),
        (DataChannelCmd::StartForwardUdp, ServiceType::Tcp) => Err(ClientError::ExpectUdp),
    }
}

/// Who takes a stream: the handler of TCP channels, or nobody.
pub open spec fn stream_forward(cmd: DataChannelCmd, service_type: ServiceType) -> Result<
    Forward,
    ClientError,
> {
    match (cmd, service_type) {
        (DataChannelCmd::StartForwardTcp, ServiceType::Tcp) => Ok(Forward::Tcp),
        (DataChannelCmd::StartForwardTcp, ServiceType::Udp) => Err(ClientError::ExpectTcp),
        (DataChannelCmd::StartForwardUdp, _) => Ok(Forward::RefuseUdp),
    }
}

/// Who takes a data channel on which the server sent this command.
pub fn route_data_cmd(cmd: DataChannelCmd, service_type: ServiceType) -> (r: Result<
    Forward,
    ClientError,
>)
    ensures
        r == data_forward(cmd, service_type),
{
    match (cmd, service_type) {
        (DataChannelCmd::StartForwardTcp, ServiceType::Tcp) => Ok(Forward::Tcp),
        (DataChannelCmd::StartForwardUdp, ServiceType::Udp) => Ok(Forward::Udp),
        (DataChannelCmd::StartForwardTcp, ServiceType::Udp) => Err(ClientError::ExpectTcp),
        (DataChannelCmd::StartForwardUdp, ServiceType::Tcp) => Err(ClientError::ExpectUdp),
    }
}

/// Who takes a stream on which the server sent this command.
pub fn route_mux_stream(cmd: DataChannelCmd, service_type: ServiceType) -> (r: Result<
    Forward,
    ClientError,
>)
    ensures
        r == stream_forward(cmd, service_type),
{
    match (cmd, service_type) {
        (DataChannelCmd::StartForwardTcp, ServiceType::Tcp) => Ok(Forward::Tcp),
        (DataChannelCmd::StartForwardTcp, ServiceType::Udp) => Err(ClientError::ExpectTcp),
        (DataChannelCmd::StartForwardUdp, _) => Ok(Forward::RefuseUdp),
    }
}

/// Someone handles the channels of a service.
pub open spec fn has_handler<A, B>(
    service: ClientServiceConfig,
    tcp: Map<Seq<char>, Arc<A>>,
    udp: Map<Seq<char>, Arc<B>>,
) -> bool {
    match service.service_type {
        ServiceType::Tcp => tcp.dom().contains(service.name@),
        ServiceType::Udp => udp.dom().contains(service.name@),
    }
}

/// What is wrong with a service without a handler.
pub open spec fn missing_handler(service: ClientServiceConfig) -> ClientError {
    match service.service_type {
        ServiceType::Tcp => ClientError::MissingTcpHandler,
        ServiceType::Udp => ClientError::MissingUdpHandler,
    }
}

/// Checks that someone handles the channels of a service.
pub fn ensure_data_channel_handler<A, B>(
    service: &ClientServiceConfig,
    tcp: &Registry<String, Arc<A>>,
    udp: &Registry<String, Arc<B>>,
) -> (r: Result<(), ClientError>)
    requires
        tcp.wf(),
        udp.wf(),
    ensures
        r is Ok <==> has_handler(*service, tcp@, udp@),
        r matches Err(e) ==> e == missing_handler(*service) && error_text(e, service.name@) == (
        match service.service_type {
            ServiceType::Tcp => "未注册 TCP 直连处理器: "@,
            ServiceType::Udp => "未注册 UDP 直连处理器: "@,
        }) + service.name@,
{
    match service.service_type {
        ServiceType::Tcp => {
            if tcp.get(&service.name).is_none() {
                return Err(ClientError::MissingTcpHandler);
            }
        },
        ServiceType::Udp => {
            if udp.get(&service.name).is_none() {
                return Err(ClientError::MissingUdpHandler);
            }
        },
    }
    Ok(())
}

/// Who takes the TCP channels of a service.
pub fn tcp_handler_of<H>(service: &ClientServiceConfig, tcp: &Registry<String, Arc<H>>) -> (r:
    Result<Arc<H>, ClientError>)
    requires
        tcp.wf(),
    ensures
        r is Ok <==> tcp@.dom().contains(service.name@),
        r matches Ok(h) ==> h == tcp@[service.name@],
        r matches Err(e) ==> e == ClientError::MissingTcpHandler && error_text(e, service.name@)
            == "未注册 TCP 直连处理器: "@ + service.name@,
{
    match get_data_channel_tcp_handler(tcp, service.name.as_str()) {
        Some(h) => Ok(h),
        None => Err(ClientError::MissingTcpHandler),
    }
}

/// Who takes the UDP channels of a service.
pub fn udp_handler_of<H>(service: &ClientServiceConfig, udp: &Registry<String, Arc<H>>) -> (r:
    Result<Arc<H>, ClientError>)
    requires
        udp.wf(),
    ensures
        r is Ok <==> udp@.dom().contains(service.name@),
        r matches Ok(h) ==> h == udp@[service.name@],
        r matches Err(e) ==> e == ClientError::MissingUdpHandler && error_text(e, service.name@)
            == "未注册 UDP 直连处理器: "@ + service.name@,
{
    match get_data_channel_udp_handler(udp, service.name.as_str()) {
        Some(h) => Ok(h),
        None => Err(ClientError::MissingUdpHandler),
    }
}

/// What happens to a control channel that was accepted.
#[derive(Clone, Copy, Debug, PartialEq, Eq, Structural)]
pub enum ChannelEvent {
    /// The server's command.
    Command(ControlChannelCmd),
    /// The server's commands ended.
    CommandsEnded,
    /// Nothing came for the heartbeat timeout.
    HeartbeatTimeout,
    /// The channel is to end.
    Shutdown,
}

/// What the client does about it.
#[derive(Debug)]
pub enum ChannelAction {
    /// Nothing.
    Nothing,
    /// Open a data channel, if the limit allows.
    OpenDataChannel,
    /// Open a multiplexed connection, if the client's bound allows, and say
    /// what came of it.
    OpenMux,
    /// End in order.
    Stop,
    /// End with this error.
    Fail(ClientError),
}

/// What an event asks for.
pub open spec fn channel_action<A, B>(
    service: ClientServiceConfig,
    tcp: Map<Seq<char>, Arc<A>>,
    udp: Map<Seq<char>, Arc<B>>,
    event: ChannelEvent,
) -> ChannelAction {
    match event {
        ChannelEvent::Command(ControlChannelCmd::CreateDataChannel) => if has_handler(
            service,
            tcp,
            udp,
        ) {
            ChannelAction::OpenDataChannel
        } else {
            ChannelAction::Fail(missing_handler(service))
        },
        ChannelEvent::Command(ControlChannelCmd::CreateDataMux) => if service.service_type
            is Udp {
            ChannelAction::Fail(ClientError::MuxNeedsTcp)
        } else if has_handler(service, tcp, udp) {
            ChannelAction::OpenMux
        } else {
            ChannelAction::Fail(missing_handler(service))
        },
        ChannelEvent::Command(ControlChannelCmd::HeartBeat) => ChannelAction::Nothing,
        ChannelEvent::CommandsEnded => ChannelAction::Fail(ClientError::CommandsEnded),
        ChannelEvent::HeartbeatTimeout => ChannelAction::Fail(ClientError::HeartbeatTimeout),
        ChannelEvent::Shutdown => ChannelAction::Stop,
    }
}

/// Takes an event of a control channel that was accepted.
pub fn on_channel_event<A, B>(
    service: &ClientServiceConfig,
    tcp: &Registry<String, Arc<A>>,
    udp: &Registry<String, Arc<B>>,
    event: ChannelEvent,
) -> (r: ChannelAction)
    requires
        tcp.wf(),
        udp.wf(),
    ensures
        r == channel_action(*service, tcp@, udp@, event),
{
    match event {
        ChannelEvent::Command(ControlChannelCmd::CreateDataChannel) => {
            match ensure_data_channel_handler(service, tcp, udp) {
                Ok(_) => ChannelAction::OpenDataChannel,
                Err(e) => ChannelAction::Fail(e),
            }
        },
        ChannelEvent::Command(ControlChannelCmd::CreateDataMux) => {
            if service.service_type != ServiceType::Tcp {
                return ChannelAction::Fail(ClientError::MuxNeedsTcp);
            }
            match ensure_data_channel_handler(service, tcp, udp) {
                Ok(_) => ChannelAction::OpenMux,
                Err(e) => ChannelAction::Fail(e),
            }
        },
        ChannelEvent::Command(ControlChannelCmd::HeartBeat) => ChannelAction::Nothing,
        ChannelEvent::CommandsEnded => ChannelAction::Fail(ClientError::CommandsEnded),
        ChannelEvent::HeartbeatTimeout => ChannelAction::Fail(ClientError::HeartbeatTimeout),
        ChannelEvent::Shutdown => ChannelAction::Stop,
    }
}

/// Whether a data channel may be opened, where its service may have a limiter
/// and that may have granted a permit.
pub fn may_open_data_channel(limited: bool, granted: bool) -> (r: bool)
    ensures
        r == (limited ==> granted),
{
    !limited || granted
}

/// The multiplexed connections of a service at the client.
#[derive(Debug)]
pub struct MuxSlots {
    active: usize,
    max_pool: usize,
}

/// The multiplexed connections of a service at the client.
pub struct SlotState {
    /// How many there are, or are being made.
    pub active: nat,
    /// How many there may be.
    pub max_pool: nat,
}

impl SlotState {
    /// There are no more than there may be.
    pub open spec fn wf(self) -> bool {
        self.active <= self.max_pool
    }
}

/// A number as far as it fits in 16 bits.
pub open spec fn capped(n: nat) -> u16 {
    if n > u16::MAX {
        u16::MAX
    } else {
        n as u16
    }
}

/// What the server is told about a request.
pub open spec fn mux_answer(s: SlotState, kind: MuxRespKind) -> ControlChannelMuxResp {
    ControlChannelMuxResp { kind, max_pool: capped(s.max_pool), active: capped(s.active) }
}

/// Whether there may be another connection.
pub open spec fn slot_free(s: SlotState) -> bool {
    s.active < s.max_pool
}

/// The connections after one was asked for: one more, if there may be another.
pub open spec fn slot_taken(s: SlotState) -> SlotState {
    if slot_free(s) {
        SlotState { active: s.active + 1, ..s }
    } else {
        s
    }
}

/// The connections after one was closed or could not be made.
pub open spec fn slot_released(s: SlotState) -> SlotState {
    if s.active > 0 {
        SlotState { active: (s.active - 1) as nat, ..s }
    } else {
        s
    }
}

fn cap(n: usize) -> (r: u16)
    ensures
        r == capped(n as nat),
{
    if n > 65535 {
        65535
    } else {
        n as u16
    }
}

impl View for MuxSlots {
    type V = SlotState;

    closed spec fn view(&self) -> SlotState {
        SlotState { active: self.active as nat, max_pool: self.max_pool as nat }
    }
}

impl MuxSlots {
    /// No connections yet.
    pub fn new(max_pool: usize) -> (r: MuxSlots)
        ensures
            r@ == (SlotState { active: 0, max_pool: max_pool as nat }),
            r@.wf(),
    {
        MuxSlots { active: 0, max_pool }
    }

    fn answer(&self, kind: MuxRespKind) -> (r: ControlChannelMuxResp)
        ensures
            r == mux_answer(self@, kind),
    {
        ControlChannelMuxResp { kind, max_pool: cap(self.max_pool), active: cap(self.active) }
    }

    /// Takes a request for a connection: where there may be another, it is
    /// counted; where not, this is what the server is told.
    pub fn take(&mut self) -> (r: Result<(), ControlChannelMuxResp>)
        requires
            old(self)@.wf(),
        ensures
            final(self)@.wf(),
            r is Ok <==> slot_free(old(self)@),
            final(self)@ == slot_taken(old(self)@),
            r is Ok <==> old(self)@.active < old(self)@.max_pool,
            r is Ok ==> final(self)@ == (SlotState { active: old(self)@.active + 1, ..old(self)@ }),
            r matches Err(resp) ==> final(self)@ == old(self)@ && resp == mux_answer(
                old(self)@,
                MuxRespKind::Rejected,
            ),
    {
        if self.active >= self.max_pool {
            return Err(self.answer(MuxRespKind::Rejected));
        }
        self.active = self.active + 1;
        Ok(())
    }

    /// The connection could not be made: its place is free again, and this is
    /// what the server is told.
    pub fn on_failed(&mut self) -> (r: ControlChannelMuxResp)
        requires
            old(self)@.wf(),
            old(self)@.active > 0,
        ensures
            final(self)@.wf(),
            final(self)@ == (SlotState { active: (old(self)@.active - 1) as nat, ..old(self)@ }),
            final(self)@ == slot_released(old(self)@),
            r == mux_answer(final(self)@, MuxRespKind::Failed),
    {
        self.active = self.active - 1;
        self.answer(MuxRespKind::Failed)
    }

    /// The connection was made: this is what the server is told.
    pub fn on_connected(&self) -> (r: ControlChannelMuxResp)
        ensures
            r == mux_answer(self@, MuxRespKind::Accepted),
    {
        self.answer(MuxRespKind::Accepted)
    }

    /// How many connections there are.
    pub fn active(&self) -> (r: usize)
        ensures
            r == self@.active,
    {
        self.active
    }

    /// A connection was closed: its place is free again.
    pub fn release(&mut self)
        requires
            old(self)@.wf(),
            old(self)@.active > 0,
        ensures
            final(self)@.wf(),
            final(self)@ == slot_released(old(self)@),
            final(self)@ == (SlotState { active: (old(self)@.active - 1) as nat, ..old(self)@ }),
    {
        self.active = self.active - 1;
    }
}

/// What a client does when the run of a control channel has ended.
#[derive(Clone, Copy, Debug, PartialEq, Eq, Structural)]
pub enum RetryAction {
    /// Nothing more.
    End,
    /// Wait for the next delay and run it again.
    Retry,
    /// The same, with the shortest delay again: the run was a good one.
    RetryAfresh,
}

/// What follows the run of a control channel.
pub open spec fn retry_action(in_order: bool, told_to_end: bool, ran_ms: u64) -> RetryAction {
    if in_order || told_to_end {
        RetryAction::End
    } else if ran_ms > GOOD_RUN_MS {
        RetryAction::RetryAfresh
    } else {
        RetryAction::Retry
    }
}

/// Decides whether to run a control channel again: it ended in order or with
/// an error, the client may have been told to end, and the run took so many
/// milliseconds.
pub fn after_control_run(in_order: bool, told_to_end: bool, ran_ms: u64) -> (r: RetryAction)
    ensures
        r == (if in_order || told_to_end {
            RetryAction::End
        } else if ran_ms > GOOD_RUN_MS {
            RetryAction::RetryAfresh
        } else {
            RetryAction::Retry
        }),
        r == retry_action(in_order, told_to_end, ran_ms),
        r is End <==> in_order || told_to_end,
        r is RetryAfresh ==> ran_ms > 10_000,
        r is Retry ==> ran_ms <= 10_000,
{
    if in_order || told_to_end {
        RetryAction::End
    } else if ran_ms > GOOD_RUN_MS {
        RetryAction::RetryAfresh
    } else {
        RetryAction::Retry
    }
}

/// A client that knows the token is let in: what it sends for the server's
/// nonce is what the server expects.
pub proof fn both_sides_derive_the_same_key(
    client: ClientServiceConfig,
    server: crate::config::ServerServiceConfig,
    nonce: Seq<u8>,
)
    requires
        client.token is Some,
        server.token is Some,
        client.token->0@ == server.token->0@,
    ensures
        crate::handshake::auth_matches(
            server,
            nonce,
            session_key_of(text_bytes(client.token->0@), nonce),
        ),
{
}

/// What a client opens a control channel with is understood by the server: its
/// hello is one for a control channel, in a version that the server speaks,
/// and the timestamp can be read back.
pub proof fn server_understands_the_opening(service_digest: Digest, timestamp: u64)
    ensures
        crate::handshake::greeting_of(
            Hello::ControlChannelHello(CURRENT_PROTO_VERSION, service_digest),
        ) == crate::handshake::Greeting::ControlChannel(CURRENT_PROTO_VERSION, service_digest),
        control_opening(service_digest, timestamp).len() == 37 + 8,
        control_opening(service_digest, timestamp).subrange(0, 37) == hello_bytes(
            Hello::ControlChannelHello(CURRENT_PROTO_VERSION, service_digest),
        ),
        crate::wire::le_value(control_opening(service_digest, timestamp).subrange(37, 45))
            == timestamp,
{
    let h = Hello::ControlChannelHello(CURRENT_PROTO_VERSION, service_digest);
    crate::protocol::hello_length_does_not_depend_on_version(h);
    reveal_with_fuel(crate::wire::byte_range, 9);
    crate::wire::le_bytes_read_back(timestamp as nat, 8);
    let all = control_opening(service_digest, timestamp);
    assert(all.subrange(0, 37) =~= hello_bytes(h));
    assert(all.subrange(37, 45) =~= le_bytes(timestamp as nat, 8));
}

/// A multiplexed connection of the client of a TCP service is taken by the
/// server where the control channel takes them.
pub proof fn server_takes_the_multiplexed_connection<H>(
    channels: Map<Seq<u8>, (Digest, crate::handshake::ChannelRecord<H>)>,
    session_key: Digest,
)
    requires
        crate::multi_map::has_second(channels, session_key@),
        channels[crate::multi_map::first_of(channels, session_key@)].1.mux,
    ensures
        crate::handshake::greeting_of(
            Hello::DataChannelHello(CURRENT_PROTO_VERSION, session_key),
        ) == crate::handshake::Greeting::ModalDataChannel(session_key),
        data_opening(session_key, DataChannelMode::Mux).last() == mode_byte(DataChannelMode::Mux),
        crate::handshake::data_route(channels, session_key@, Some(DataChannelMode::Mux))
            == crate::handshake::DataRoute::ToMux,
{
}

/// Once the server has the client's word on a request, it asks for another
/// connection only while it has fewer than the client allows.
pub proof fn server_heeds_the_clients_bound(
    s: SlotState,
    kind: MuxRespKind,
    p: PoolState,
    now_ms: u64,
)
    requires
        s.max_pool < u16::MAX,
        p.client_max_pool == mux_answer(s, kind).max_pool,
        target_step(p, now_ms).request,
    ensures
        p.sessions.len() < s.max_pool,
{
}

/// UDP is never multiplexed: the server plans no shared connections for a UDP
/// service, its client refuses to make one, and no stream is forwarded as UDP.
pub proof fn udp_is_never_multiplexed<A, B>(
    server: crate::config::ServerServiceConfig,
    client: ClientServiceConfig,
    version: u8,
    tcp: Map<Seq<char>, Arc<A>>,
    udp: Map<Seq<char>, Arc<B>>,
    cmd: DataChannelCmd,
)
    requires
        server.service_type is Udp,
        client.service_type is Udp,
    ensures
        !crate::control::shares_connections(server, version),
        channel_action(
            client,
            tcp,
            udp,
            ChannelEvent::Command(ControlChannelCmd::CreateDataMux),
        ) == ChannelAction::Fail(ClientError::MuxNeedsTcp),
        stream_forward(cmd, client.service_type) != Ok::<Forward, ClientError>(Forward::Udp),
{
}

/// What can happen to the multiplexed connections of a client.
pub enum SlotEvent {
    /// One is asked for.
    Take,
    /// One is closed, or could not be made.
    Release,
}

/// The connections after a series of events.
pub open spec fn slots_after(s: SlotState, events: Seq<SlotEvent>) -> SlotState
    decreases events.len(),
{
    if events.len() == 0 {
        s
    } else {
        let t = slots_after(s, events.drop_last());
        match events.last() {
            SlotEvent::Take => slot_taken(t),
            SlotEvent::Release => slot_released(t),
        }
    }
}

/// However often the server asks, a client never has more multiplexed
/// connections of a service than it allows.
pub proof fn client_bound_is_kept(s: SlotState, events: Seq<SlotEvent>)
    requires
        s.wf(),
    ensures
        slots_after(s, events).wf(),
        slots_after(s, events).max_pool == s.max_pool,
    decreases events.len(),
{
    if events.len() > 0 {
        client_bound_is_kept(s, events.drop_last());
    }
}

/// A control channel that was accepted ends only for cause: in order only when
/// it is to end, and with an error only when the commands end, nothing came
/// for the heartbeat timeout, a data channel or a multiplexed connection is
/// asked for and nobody handles the service, or a multiplexed connection is
/// asked of a service that is not TCP. For each of these it does end.
pub proof fn channels_end_exactly_for_cause<A, B>(
    service: ClientServiceConfig,
    tcp: Map<Seq<char>, Arc<A>>,
    udp: Map<Seq<char>, Arc<B>>,
    event: ChannelEvent,
)
    ensures
        ({
            let action = channel_action(service, tcp, udp, event);
            let handled = if service.service_type is Tcp {
                tcp.dom().contains(service.name@)
            } else {
                udp.dom().contains(service.name@)
            };
            let plain = event == ChannelEvent::Command(ControlChannelCmd::CreateDataChannel);
            let mux = event == ChannelEvent::Command(ControlChannelCmd::CreateDataMux);
            &&& action is Stop <==> event is Shutdown
            &&& action == ChannelAction::Fail(ClientError::CommandsEnded) <==> event
                is CommandsEnded
            &&& action == ChannelAction::Fail(ClientError::HeartbeatTimeout) <==> event
                is HeartbeatTimeout
            &&& action == ChannelAction::Fail(ClientError::MuxNeedsTcp) <==> mux
                && service.service_type is Udp
            &&& action == ChannelAction::Fail(ClientError::MissingTcpHandler) <==> (plain || mux)
                && service.service_type is Tcp && !handled
            &&& action == ChannelAction::Fail(ClientError::MissingUdpHandler) <==> plain
                && service.service_type is Udp && !handled
            &&& action matches ChannelAction::Fail(e) ==> e is CommandsEnded || e
                is HeartbeatTimeout || e is MuxNeedsTcp || e is MissingTcpHandler || e
                is MissingUdpHandler
        }),
{
}

/// A heartbeat changes nothing, whatever the service carries and whoever
/// handles it; and nothing else is passed over.
pub proof fn heartbeats_change_nothing<A, B>(
    service: ClientServiceConfig,
    tcp: Map<Seq<char>, Arc<A>>,
    udp: Map<Seq<char>, Arc<B>>,
    event: ChannelEvent,
)
    ensures
        channel_action(service, tcp, udp, event) is Nothing <==> event == ChannelEvent::Command(
            ControlChannelCmd::HeartBeat,
        ),
{
}

/// What the server asks for is opened wherever somebody handles the service: a
/// data channel of any service, and a multiplexed connection of a TCP service.
/// Neither is opened without being asked for.
pub proof fn what_is_asked_for_is_opened<A, B>(
    service: ClientServiceConfig,
    tcp: Map<Seq<char>, Arc<A>>,
    udp: Map<Seq<char>, Arc<B>>,
    event: ChannelEvent,
)
    ensures
        ({
            let action = channel_action(service, tcp, udp, event);
            let name = service.name@;
            &&& action is OpenDataChannel <==> event == ChannelEvent::Command(
                ControlChannelCmd::CreateDataChannel,
            ) && ((service.service_type is Tcp && tcp.dom().contains(name)) || (
            service.service_type is Udp && udp.dom().contains(name)))
            &&& action is OpenMux <==> event == ChannelEvent::Command(
                ControlChannelCmd::CreateDataMux,
            ) && service.service_type is Tcp && tcp.dom().contains(name)
        }),
{
}

/// A service is handled exactly by a handler of what it carries, under its own
/// name; handlers of other services, and of the other kind, do not count.
pub proof fn handlers_are_for_their_service<A, B>(
    service: ClientServiceConfig,
    tcp: Map<Seq<char>, Arc<A>>,
    udp: Map<Seq<char>, Arc<B>>,
    other: Seq<char>,
    a: Arc<A>,
    b: Arc<B>,
)
    requires
        other != service.name@,
    ensures
        has_handler(service, tcp.insert(other, a), udp.insert(other, b)) == has_handler(
            service,
            tcp,
            udp,
        ),
        service.service_type is Tcp ==> has_handler(service, tcp.insert(service.name@, a), udp)
            && !has_handler(service, tcp.remove(service.name@), udp.insert(service.name@, b)),
        service.service_type is Udp ==> has_handler(service, tcp, udp.insert(service.name@, b))
            && !has_handler(service, tcp.insert(service.name@, a), udp.remove(service.name@)),
        missing_handler(service) is MissingTcpHandler <==> service.service_type is Tcp,
        missing_handler(service) is MissingUdpHandler <==> service.service_type is Udp,
{
}

/// A data channel is taken exactly when the server forwards what the service
/// carries, and by the handler of that; otherwise the error says what the
/// server forwards.
pub proof fn channels_carry_what_the_service_does(cmd: DataChannelCmd, service_type: ServiceType)
    ensures
        ({
            let r = data_forward(cmd, service_type);
            let same = (cmd is StartForwardTcp) == (service_type is Tcp);
            &&& r is Ok <==> same
            &&& r matches Ok(f) ==> (f is Tcp <==> service_type is Tcp) && (f is Udp
                <==> service_type is Udp)
            &&& r matches Err(e) ==> (e is ExpectTcp <==> cmd is StartForwardTcp) && (e is ExpectUdp
                <==> cmd is StartForwardUdp)
        }),
{
}

/// A stream is taken by the handler of TCP channels exactly where the server
/// forwards TCP for a TCP service; UDP on a stream is refused without an
/// error, and TCP for a UDP service with one.
pub proof fn streams_carry_tcp(cmd: DataChannelCmd, service_type: ServiceType)
    ensures
        ({
            let r = stream_forward(cmd, service_type);
            &&& r == Ok::<Forward, ClientError>(Forward::Tcp) <==> cmd is StartForwardTcp
                && service_type is Tcp
            &&& r == Ok::<Forward, ClientError>(Forward::RefuseUdp) <==> cmd is StartForwardUdp
            &&& r == Err::<Forward, ClientError>(ClientError::ExpectTcp) <==> cmd is StartForwardTcp
                && service_type is Udp
        }),
{
}

/// What a client opens a data channel with is a hello with its session key, in
/// the version that it speaks, and one byte more, which tells its mode.
pub proof fn server_understands_the_data_channel(session_key: Digest, mode: DataChannelMode)
    ensures
        data_opening(session_key, mode).len() == 37 + 1,
        data_opening(session_key, mode).subrange(0, 37) == hello_bytes(
            Hello::DataChannelHello(CURRENT_PROTO_VERSION, session_key),
        ),
        data_opening(session_key, mode)[37] == (if mode is Mux {
            1u8
        } else {
            0u8
        }),
        crate::handshake::greeting_of(
            Hello::DataChannelHello(CURRENT_PROTO_VERSION, session_key),
        ) == crate::handshake::Greeting::ModalDataChannel(session_key),
{
    let h = Hello::DataChannelHello(CURRENT_PROTO_VERSION, session_key);
    crate::protocol::hello_length_does_not_depend_on_version(h);
    assert(data_opening(session_key, mode).subrange(0, 37) =~= hello_bytes(h));
}

/// A number that fits in 16 bits is told as it is, and a larger one as the
/// largest that does; the server is told of the client's bound and of its
/// connections by these.
pub proof fn the_server_is_told_what_the_client_has(s: SlotState, kind: MuxRespKind)
    ensures
        ({
            let r = mux_answer(s, kind);
            &&& r.kind == kind
            &&& s.max_pool <= 65535 ==> r.max_pool == s.max_pool
            &&& s.max_pool > 65535 ==> r.max_pool == 65535
            &&& s.active <= 65535 ==> r.active == s.active
            &&& s.active > 65535 ==> r.active == 65535
        }),
{
}

/// An error of one service is told as one of any other, with the name in its
/// place at the end: a longer name, and the text goes on with it. An error that
/// has nothing to do with the service is told the same for all.
pub proof fn errors_name_the_service(
    e: ClientError,
    name: Seq<char>,
    more: Seq<char>,
    a: Ack,
    b: Ack,
)
    ensures
        error_text(ClientError::AuthenticationFailed(a), name) == error_text(
            ClientError::AuthenticationFailed(b),
            name,
        ),
        e matches ClientError::VersionMismatch(version) ==> error_text(e, name)
            == version_mismatch(version),
        ({
            let named = e is RejectedDueToTimestamp || e is AuthenticationFailed || e
                is MissingTcpHandler || e is MissingUdpHandler || e is MuxNeedsTcp;
            &&& named ==> error_text(e, name + more) == error_text(e, name) + more
            &&& !named ==> error_text(e, name + more) == error_text(e, name)
        }),
{
    assert(error_text(ClientError::MuxNeedsTcp, name + more) =~= error_text(
        ClientError::MuxNeedsTcp,
        name,
    ) + more);
    assert(error_text(ClientError::MissingTcpHandler, name + more) =~= error_text(
        ClientError::MissingTcpHandler,
        name,
    ) + more);
    assert(error_text(ClientError::MissingUdpHandler, name + more) =~= error_text(
        ClientError::MissingUdpHandler,
        name,
    ) + more);
    assert(error_text(ClientError::RejectedDueToTimestamp, name + more) =~= error_text(
        ClientError::RejectedDueToTimestamp,
        name,
    ) + more);
    if e is AuthenticationFailed {
        assert(error_text(e, name + more) =~= error_text(e, name) + more);
    }
}

/// A client speaks version three: so says the hello that it opens a control
/// channel or a data channel with, which carries the digest of the service or
/// the session key.
pub proof fn clients_speak_version_three(d: Digest, timestamp: u64, mode: DataChannelMode)
    ensures
        control_opening(d, timestamp)[0] == 0,
        control_opening(d, timestamp)[4] == 3,
        control_opening(d, timestamp).subrange(5, 37) == d@,
        data_opening(d, mode)[0] == 1,
        data_opening(d, mode)[4] == 3,
        data_opening(d, mode).subrange(5, 37) == d@,
{
    let c = Hello::ControlChannelHello(CURRENT_PROTO_VERSION, d);
    let h = Hello::DataChannelHello(CURRENT_PROTO_VERSION, d);
    crate::protocol::hello_length_does_not_depend_on_version(c);
    crate::protocol::hello_length_does_not_depend_on_version(h);
    crate::protocol::hellos_have_their_places(c);
    crate::protocol::hellos_have_their_places(h);
    assert(control_opening(d, timestamp).subrange(5, 37) =~= hello_bytes(c).skip(5));
    assert(data_opening(d, mode).subrange(5, 37) =~= hello_bytes(h).skip(5));
}

/// Another multiplexed connection is made exactly while there are fewer than
/// the client allows; each that is made counts for one, and each that is closed
/// or fails frees its place for another. The bound stays.
pub proof fn places_are_counted(s: SlotState)
    ensures
        slot_free(s) <==> s.active < s.max_pool,
        slot_free(s) ==> slot_taken(s).active == s.active + 1 && slot_released(slot_taken(s)) == s,
        !slot_free(s) ==> slot_taken(s) == s,
        s.active > 0 ==> slot_released(s).active == s.active - 1,
        s.active == 0 ==> slot_released(s).active == 0,
        slot_taken(s).max_pool == s.max_pool,
        slot_released(s).max_pool == s.max_pool,
{
}

/// A client that was asked for connections, and lost none, has as many as it
/// was asked for, up to its bound.
pub proof fn clients_make_what_they_allow(max_pool: nat, events: Seq<SlotEvent>)
    requires
        forall|i: int| 0 <= i < events.len() ==> (#[trigger] events[i]) is Take,
    ensures
        slots_after(SlotState { active: 0, max_pool }, events).active == (if events.len()
            <= max_pool {
            events.len()
        } else {
            max_pool
        }),
        slots_after(SlotState { active: 0, max_pool }, events).max_pool == max_pool,
    decreases events.len(),
{
    if events.len() > 0 {
        let before = events.drop_last();
        assert forall|i: int| 0 <= i < before.len() implies (#[trigger] before[i]) is Take by {
            assert(before[i] == events[i]);
        }
        clients_make_what_they_allow(max_pool, before);
        assert(events[events.len() - 1] is Take);
    }
}

/// A control channel that was lost is run again, until the client is told to
/// end; one that ended in order is not. After a run of more than ten seconds
/// the waits begin again with the shortest.
pub proof fn lost_channels_are_run_again(in_order: bool, told_to_end: bool, ran_ms: u64)
    ensures
        retry_action(in_order, told_to_end, ran_ms) is End <==> in_order || told_to_end,
        retry_action(in_order, told_to_end, ran_ms) is RetryAfresh <==> !in_order && !told_to_end
            && ran_ms > 10_000,
        retry_action(in_order, told_to_end, ran_ms) is Retry <==> !in_order && !told_to_end
            && ran_ms <= 10_000,
{
}

/// A client is let in exactly by the answer that says so; of the others, one
/// tells that a newer client serves the service, and the rest are kept as they
/// came.
pub proof fn only_one_answer_lets_in(ack: Ack)
    ensures
        ack_verdict(ack) is Ok <==> ack is Accepted,
        ack_verdict(ack) matches Err(e) ==> (e is RejectedDueToTimestamp <==> ack
            is RejectedDueToTimestamp),
        !(ack is Accepted) && !(ack is RejectedDueToTimestamp) ==> ack_verdict(ack) == Err::<
            (),
            ClientError,
        >(ClientError::AuthenticationFailed(ack)),
{
}

/// A client goes on exactly from a hello for a control channel in version
/// three; from one in another version the error tells which.
pub proof fn clients_take_one_hello(version: u8, d: Digest)
    ensures
        hello_fault(Hello::ControlChannelHello(version, d)) is None <==> version == 3,
        version != 3 ==> hello_fault(Hello::ControlChannelHello(version, d)) == Some(
            ClientError::VersionMismatch(version),
        ),
        hello_fault(Hello::DataChannelHello(version, d)) == Some(ClientError::UnexpectedHello),
{
}

} // verus!

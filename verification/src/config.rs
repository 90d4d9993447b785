//! What servers and clients are told about their services.
use crate::mux::MuxSelect;
use crate::protocol::ServiceType;
use std::sync::Arc;
use vstd::prelude::*;

verus! {

/// Multiplexed connections of a service.
pub const DEFAULT_MUX_POOL_SIZE: usize = 4;

/// Streams on one multiplexed connection.
pub const DEFAULT_MUX_MAX_STREAMS: usize = 256;

/// Seconds after which an unused multiplexed connection is closed.
pub const DEFAULT_MUX_IDLE_TIMEOUT_SECS: u64 = 300;

/// Seconds after which a silent stream is closed.
pub const DEFAULT_STREAM_IDLE_TIMEOUT_SECS: u64 = 360;

/// A service, as the server sees it.
#[derive(Debug)]
pub struct ServerServiceConfig {
    /// The name both sides know it by.
    pub name: String,
    /// Where visitors connect.
    pub bind_addr: String,
    /// What it carries.
    pub service_type: ServiceType,
    /// The secret both sides share. Without one, nobody can serve it.
    pub token: Option<String>,
    /// How many multiplexed connections it has.
    pub mux_pool_size: usize,
    /// How many streams each of them carries at most.
    pub mux_max_streams: usize,
    /// How one of them is chosen.
    pub mux_select: MuxSelect,
    /// Seconds after which an unused one is closed; zero for never.
    pub mux_idle_timeout: u64,
    /// Seconds after which a silent stream is closed; zero for never.
    pub stream_idle_timeout: u64,
    /// Whether its data channels send small packets at once; as the system has it
    /// where this is not told.
    pub nodelay: Option<bool>,
}

impl ServerServiceConfig {
    /// A TCP service with the usual settings and no token.
    pub fn with_name(name: &str) -> (r: ServerServiceConfig)
        ensures
            r.name@ == name@,
            r.bind_addr@ == ""@,
            r.service_type == ServiceType::Tcp,
            r.token is None,
            r.mux_pool_size == 4,
            r.mux_max_streams == 256,
            r.mux_select == MuxSelect::LeastStreams,
            r.mux_idle_timeout == 300,
            r.stream_idle_timeout == 360,
            r.nodelay is None,
    {
        ServerServiceConfig {
            name: name.to_owned(),
            bind_addr: "".to_owned(),
            service_type: ServiceType::Tcp,
            token: None,
            mux_pool_size: DEFAULT_MUX_POOL_SIZE,
            mux_max_streams: DEFAULT_MUX_MAX_STREAMS,
            mux_select: MuxSelect::LeastStreams,
            mux_idle_timeout: DEFAULT_MUX_IDLE_TIMEOUT_SECS,
            stream_idle_timeout: DEFAULT_STREAM_IDLE_TIMEOUT_SECS,
            nodelay: None,
        }
    }
}

/// A server.
#[derive(Debug)]
pub struct ServerConfig {
    /// Where clients connect.
    pub bind_addr: String,
    /// Its services by name.
    pub services: Vec<(String, Arc<ServerServiceConfig>)>,
    /// Seconds between heartbeats; zero for none.
    pub heartbeat_interval: u64,
    /// Seconds that a visitor waits for a data channel; zero for no limit.
    pub data_channel_wait_timeout: u64,
    /// Handshakes at a time; zero for no limit.
    pub max_inflight_handshakes: u32,
}

/// A service, as the client sees it.
#[derive(Debug)]
pub struct ClientServiceConfig {
    /// The name both sides know it by.
    pub name: String,
    /// Where it is to be found.
    pub local_addr: String,
    /// What it carries.
    pub service_type: ServiceType,
    /// The secret both sides share.
    pub token: Option<String>,
    /// How many multiplexed connections the client makes for it at most.
    pub mux_max_pool: usize,
    /// Whether its data channels send small packets at once; as the system has it
    /// where this is not told.
    pub nodelay: Option<bool>,
}

/// A client.
#[derive(Debug)]
pub struct ClientConfig {
    /// Where the server is.
    pub remote_addr: String,
    /// Its services by name.
    pub services: Vec<(String, Arc<ClientServiceConfig>)>,
    /// Seconds without a heartbeat after which a control channel is given up;
    /// zero for never.
    pub heartbeat_timeout: u64,
}

/// A change of the configuration of a running server or client.
#[derive(Debug)]
pub enum ConfigChange {
    /// A service of a server is new or has changed.
    AddServerService(Arc<ServerServiceConfig>),
    /// A service of a server is gone.
    DeleteServerService(String),
    /// A service of a client is new or has changed.
    AddClientService(Arc<ClientServiceConfig>),
    /// A service of a client is gone.
    DeleteClientService(String),
}

} // verus!

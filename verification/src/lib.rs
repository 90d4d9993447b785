//! The decisions of a reverse tunnel: what its peers say to each other, which
//! channels exist, when they are asked for and when they are given up.

pub mod client;
pub mod config;
pub mod constants;
pub mod control;
pub mod data_channel_handler;
pub mod data_channel_limit;
pub mod dns_probe;
pub mod handshake;
pub mod health;
pub mod http_probe;
pub mod multi_map;
pub mod mux;
pub mod outside;
pub mod protocol;
pub mod registry;
pub mod server;
pub mod tcp_pool;
pub mod text;
pub mod udp_pool;
pub mod wire;

//! Sizes, and how long to wait between attempts.
use vstd::prelude::*;

verus! {

/// The largest UDP packet.
pub const UDP_BUFFER_SIZE: usize = 0x10000;

/// UDP packets that may wait to be sent.
pub const UDP_SENDQ_SIZE: usize = 1024;

/// Seconds after which a silent UDP visitor is forgotten.
pub const UDP_TIMEOUT: u64 = 60;

/// How the waits between attempts grow, with a random part added to each.
#[derive(Clone, Copy, Debug, PartialEq, Eq, Structural)]
pub struct BackoffPolicy {
    /// By how many per cent of itself each wait is the next.
    pub factor_percent: u32,
    /// The first wait.
    pub min_delay_ms: u64,
    /// The longest wait: so many seconds,
    pub max_delay_secs: u64,
    /// and so many milliseconds.
    pub max_delay_ms: u32,
    /// How long all waits together may take, in milliseconds, if that is
    /// limited.
    pub total_delay_ms: Option<u64>,
}

/// Between attempts to listen, or to accept a visitor.
pub fn listen_backoff() -> (r: BackoffPolicy)
    ensures
        r.factor_percent == 150,
        r.min_delay_ms == 500,
        r.max_delay_secs == 1,
        r.max_delay_ms == 0,
        r.total_delay_ms is None,
{
    BackoffPolicy {
        factor_percent: 150,
        min_delay_ms: 500,
        max_delay_secs: 1,
        max_delay_ms: 0,
        total_delay_ms: None,
    }
}

/// Between attempts to run a control channel, at most so many seconds.
pub fn run_control_chan_backoff(interval: u64) -> (r: BackoffPolicy)
    ensures
        r.factor_percent == 300,
        r.min_delay_ms == 500,
        r.max_delay_secs == interval,
        r.max_delay_ms == 0,
        r.total_delay_ms is None,
{
    BackoffPolicy {
        factor_percent: 300,
        min_delay_ms: 500,
        max_delay_secs: interval,
        max_delay_ms: 0,
        total_delay_ms: None,
    }
}

/// Between requests for connections or data channels.
pub fn request_backoff() -> (r: BackoffPolicy)
    ensures
        r.factor_percent == 150,
        r.min_delay_ms == 100,
        r.max_delay_secs == 5,
        r.max_delay_ms == 0,
        r.total_delay_ms is None,
{
    BackoffPolicy {
        factor_percent: 150,
        min_delay_ms: 100,
        max_delay_secs: 5,
        max_delay_ms: 0,
        total_delay_ms: None,
    }
}

/// Between attempts to connect a data channel: for ten seconds in all.
pub fn data_channel_backoff() -> (r: BackoffPolicy)
    ensures
        r.factor_percent == 200,
        r.min_delay_ms == 100,
        r.max_delay_secs == 0,
        r.max_delay_ms == 100,
        r.total_delay_ms == Some(10_000u64),
{
    BackoffPolicy {
        factor_percent: 200,
        min_delay_ms: 100,
        max_delay_secs: 0,
        max_delay_ms: 100,
        total_delay_ms: Some(10_000),
    }
}

} // verus!

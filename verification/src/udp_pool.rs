//! How a server joins the visitors of a UDP service with its client: one data
//! channel at a time, and another when it breaks or goes silent.
use crate::mux::elapsed_ms;
use crate::protocol::{data_cmd_bytes, encode_data_cmd, DataChannelCmd};
use vstd::prelude::*;

verus! {

/// Seconds that one read may take.
pub const UDP_READ_TIMEOUT_SECS: u64 = 10;

/// Seconds that one write may take.
pub const UDP_WRITE_TIMEOUT_SECS: u64 = 10;

/// Milliseconds of silence after which another data channel is asked for.
pub const UDP_ACTIVITY_TIMEOUT_MS: u64 = 300_000;

/// What the pool of a UDP service is at.
#[derive(Clone, Copy, Debug, PartialEq, Eq, Structural)]
pub enum UdpPhase {
    /// Waiting for a data channel, or for the time to ask for one again.
    AwaitChannel,
    /// Telling the client to forward.
    WriteCommand,
    /// Waiting for traffic from either side.
    AwaitTraffic,
    /// Writing a visitor's packet to the data channel.
    WriteTraffic,
    /// Reading the client's packet from the data channel.
    ReadTraffic,
    /// Sending the client's packet to its visitor.
    SendTraffic,
    /// Asking for another data channel.
    RequestChannel,
    /// Ended.
    Stopped,
}

/// What happens to the pool. Times are milliseconds of one clock.
#[derive(Clone, Copy, Debug, PartialEq, Eq, Structural)]
pub enum UdpEvent {
    /// A data channel came.
    ChannelArrived,
    /// No data channel will come any more.
    ChannelsEnded,
    /// It is time to ask for a data channel again.
    RetryDue,
    /// The client was told to forward, at this time.
    CommandWritten(u64),
    /// The client could not be told to forward.
    CommandFailed,
    /// A visitor's packet came, at this time.
    Inbound(u64),
    /// The visitors' side failed to receive.
    SocketFailed,
    /// Neither side had anything for the length of a read, at this time.
    ReadTimedOut(u64),
    /// A packet of the client begins.
    HeaderRead,
    /// The client's packet is complete, at this time.
    Outbound(u64),
    /// The packet was passed on, or could not be passed to the visitor.
    PassedOn,
    /// The data channel is broken.
    ChannelFailed,
    /// Another data channel was asked for; whether there is a delay after
    /// which to ask again.
    Requested(bool),
    /// No other data channel can be asked for.
    RequestFailed,
    /// The service is to end.
    Shutdown,
}

/// The state of the pool of a UDP service.
pub struct UdpState {
    /// What it is at.
    pub phase: UdpPhase,
    /// Whether there is a time at which to ask for a data channel again.
    pub retry_armed: bool,
    /// When the data channel was last used, or became ready.
    pub last_activity_ms: u64,
}

/// The pool of a UDP service.
#[derive(Debug)]
pub struct UdpPool {
    phase: UdpPhase,
    retry_armed: bool,
    last_activity_ms: u64,
}

/// The data channel has been silent for longer than it may.
pub open spec fn is_silent(last_activity_ms: u64, now_ms: u64) -> bool {
    elapsed_ms(now_ms, last_activity_ms) > UDP_ACTIVITY_TIMEOUT_MS
}

/// The events that can happen in a state.
pub open spec fn udp_expects(s: UdpState, event: UdpEvent) -> bool {
    match s.phase {
        UdpPhase::AwaitChannel => {
            ||| event is ChannelArrived
            ||| event is ChannelsEnded
            ||| event is RetryDue && s.retry_armed
            ||| event is Shutdown
        },
        UdpPhase::WriteCommand => event is CommandWritten || event is CommandFailed,
        UdpPhase::AwaitTraffic => {
            ||| event is Inbound
            ||| event is SocketFailed
            ||| event is ReadTimedOut
            ||| event is HeaderRead
            ||| event is ChannelFailed
            ||| event is Shutdown
        },
        UdpPhase::WriteTraffic => event is PassedOn || event is ChannelFailed,
        UdpPhase::ReadTraffic => event is Outbound || event is ChannelFailed,
        UdpPhase::SendTraffic => event is PassedOn,
        UdpPhase::RequestChannel => event is Requested || event is RequestFailed,
        UdpPhase::Stopped => false,
    }
}

/// What follows an event.
pub open spec fn udp_step(s: UdpState, event: UdpEvent) -> UdpState {
    match event {
        UdpEvent::ChannelArrived => UdpState { phase: UdpPhase::WriteCommand, ..s },
        UdpEvent::ChannelsEnded => UdpState { phase: UdpPhase::Stopped, ..s },
        UdpEvent::RetryDue => UdpState { phase: UdpPhase::RequestChannel, ..s },
        UdpEvent::CommandWritten(now) => UdpState {
            phase: UdpPhase::AwaitTraffic,
            last_activity_ms: now,
            ..s
        },
        UdpEvent::CommandFailed => UdpState { phase: UdpPhase::RequestChannel, ..s },
        UdpEvent::Inbound(now) => UdpState {
            phase: UdpPhase::WriteTraffic,
            last_activity_ms: now,
            ..s
        },
        UdpEvent::SocketFailed => s,
        UdpEvent::ReadTimedOut(now) => if is_silent(s.last_activity_ms, now) {
            UdpState { phase: UdpPhase::RequestChannel, ..s }
        } else {
            s
        },
        UdpEvent::HeaderRead => UdpState { phase: UdpPhase::ReadTraffic, ..s },
        UdpEvent::Outbound(now) => UdpState {
            phase: UdpPhase::SendTraffic,
            last_activity_ms: now,
            ..s
        },
        UdpEvent::PassedOn => UdpState { phase: UdpPhase::AwaitTraffic, ..s },
        UdpEvent::ChannelFailed => UdpState { phase: UdpPhase::RequestChannel, ..s },
        UdpEvent::Requested(delay_left) => UdpState {
            phase: UdpPhase::AwaitChannel,
            retry_armed: delay_left,
            ..s
        },
        UdpEvent::RequestFailed => UdpState { phase: UdpPhase::Stopped, ..s },
        UdpEvent::Shutdown => UdpState { phase: UdpPhase::Stopped, ..s },
    }
}

/// A pool that waits for its first data channel.
pub open spec fn udp_at_start() -> UdpState {
    UdpState { phase: UdpPhase::AwaitChannel, retry_armed: false, last_activity_ms: 0 }
}

impl View for UdpPool {
    type V = UdpState;

    closed spec fn view(&self) -> UdpState {
        UdpState {
            phase: self.phase,
            retry_armed: self.retry_armed,
            last_activity_ms: self.last_activity_ms,
        }
    }
}

impl UdpPool {
    /// A pool that waits for its first data channel, and asks for none: the
    /// control channel has done so.
    pub fn start() -> (r: UdpPool)
        ensures
            r@ == udp_at_start(),
    {
        UdpPool { phase: UdpPhase::AwaitChannel, retry_armed: false, last_activity_ms: 0 }
    }

    /// What the client is told.
    pub fn command() -> (r: Vec<u8>)
        ensures
            r@ == data_cmd_bytes(DataChannelCmd::StartForwardUdp),
    {
        encode_data_cmd(DataChannelCmd::StartForwardUdp)
    }

    /// What the pool is at.
    pub fn phase(&self) -> (r: UdpPhase)
        ensures
            r == self@.phase,
    {
        self.phase
    }

    /// Whether there is a time at which to ask for a data channel again.
    pub fn retry_armed(&self) -> (r: bool)
        ensures
            r == self@.retry_armed,
    {
        self.retry_armed
    }

    /// Takes an event and says what to do next.
    pub fn on_event(&mut self, event: UdpEvent) -> (r: UdpPhase)
        requires
            udp_expects(old(self)@, event),
        ensures
            final(self)@ == udp_step(old(self)@, event),
            r == final(self)@.phase,
    {
        match event {
            UdpEvent::ChannelArrived => {
                self.phase = UdpPhase::WriteCommand;
            },
            UdpEvent::ChannelsEnded => {
                self.phase = UdpPhase::Stopped;
            },
            UdpEvent::RetryDue => {
                self.phase = UdpPhase::RequestChannel;
            },
            UdpEvent::CommandWritten(now) => {
                self.phase = UdpPhase::AwaitTraffic;
                self.last_activity_ms = now;
            },
            UdpEvent::CommandFailed => {
                self.phase = UdpPhase::RequestChannel;
            },
            UdpEvent::Inbound(now) => {
                self.phase = UdpPhase::WriteTraffic;
                self.last_activity_ms = now;
            },
            UdpEvent::SocketFailed => {},
            UdpEvent::ReadTimedOut(now) => {
                if now.saturating_sub(self.last_activity_ms) > UDP_ACTIVITY_TIMEOUT_MS {
                    self.phase = UdpPhase::RequestChannel;
                }
            },
            UdpEvent::HeaderRead => {
                self.phase = UdpPhase::ReadTraffic;
            },
            UdpEvent::Outbound(now) => {
                self.phase = UdpPhase::SendTraffic;
                self.last_activity_ms = now;
            },
            UdpEvent::PassedOn => {
                self.phase = UdpPhase::AwaitTraffic;
            },
            UdpEvent::ChannelFailed => {
                self.phase = UdpPhase::RequestChannel;
            },
            UdpEvent::Requested(delay_left) => {
                self.phase = UdpPhase::AwaitChannel;
                self.retry_armed = delay_left;
            },
            UdpEvent::RequestFailed => {
                self.phase = UdpPhase::Stopped;
            },
            UdpEvent::Shutdown => {
                self.phase = UdpPhase::Stopped;
            },
        }
        self.phase
    }
}

/// The state after a series of events.
pub open spec fn udp_run(events: Seq<UdpEvent>) -> UdpState
    decreases events.len(),
{
    if events.len() == 0 {
        udp_at_start()
    } else {
        udp_step(udp_run(events.drop_last()), events.last())
    }
}

/// Each event of a series could happen when it did.
pub open spec fn udp_run_ok(events: Seq<UdpEvent>) -> bool
    decreases events.len(),
{
    events.len() > 0 ==> udp_run_ok(events.drop_last()) && udp_expects(
        udp_run(events.drop_last()),
        events.last(),
    )
}

/// The pool asks for no data channel before it was given one.
pub proof fn no_request_before_the_first_channel(events: Seq<UdpEvent>)
    requires
        udp_run_ok(events),
        forall|i: int| 0 <= i < events.len() ==> !(#[trigger] events[i] is ChannelArrived),
    ensures
        !(udp_run(events).phase is RequestChannel),
        !udp_run(events).retry_armed,
        udp_run(events).phase is AwaitChannel || udp_run(events).phase is Stopped,
    decreases events.len(),
{
    if events.len() > 0 {
        let before = events.drop_last();
        assert forall|i: int| 0 <= i < before.len() implies !(#[trigger] before[i]
            is ChannelArrived) by {
            assert(before[i] == events[i]);
        }
        no_request_before_the_first_channel(before);
        assert(!(events[events.len() - 1] is ChannelArrived));
    }
}

/// A data channel that has just become ready counts as just used: it is not
/// given up for silence before it has been silent for the whole time itself.
pub proof fn a_new_channel_starts_the_clock_again(s: UdpState, ready_ms: u64, now_ms: u64)
    requires
        s.phase is WriteCommand,
        elapsed_ms(now_ms, ready_ms) <= UDP_ACTIVITY_TIMEOUT_MS,
    ensures
        udp_step(udp_step(s, UdpEvent::CommandWritten(ready_ms)), UdpEvent::ReadTimedOut(now_ms))
            == udp_step(s, UdpEvent::CommandWritten(ready_ms)),
{
}

/// Each time a data channel is given up, another is asked for; the pool waits
/// for one only at the start or after having asked.
pub proof fn the_pool_waits_only_for_what_it_asked_for(events: Seq<UdpEvent>)
    requires
        events.len() > 0,
        udp_run_ok(events),
        udp_run(events).phase is AwaitChannel,
    ensures
        events.last() is Requested,
        udp_run(events.drop_last()).phase is RequestChannel,
{
    let before = udp_run(events.drop_last());
    assert(udp_expects(before, events.last()));
}

/// A pool goes on until it is told to end, or nobody is left to bring data
/// channels or to take requests for them.
pub proof fn the_pool_ends_only_for_cause(events: Seq<UdpEvent>)
    requires
        udp_run_ok(events),
        udp_run(events).phase is Stopped,
    ensures
        events.len() > 0,
        events.last() is Shutdown || events.last() is ChannelsEnded || events.last()
            is RequestFailed,
{
    if events.len() > 0 {
        let before = udp_run(events.drop_last());
        assert(udp_expects(before, events.last()));
    }
}

/// A data channel that is found broken is given up, whatever the pool was doing
/// with it and however often that has happened before: another one is asked
/// for.
pub proof fn a_broken_channel_is_replaced(events: Seq<UdpEvent>)
    requires
        events.len() > 0,
        events.last() is ChannelFailed || events.last() is CommandFailed,
    ensures
        udp_run(events).phase is RequestChannel,
{
}

/// A data channel can be found broken whenever it is used: while the client is
/// told to forward, while traffic is awaited, written or read.
pub proof fn a_channel_may_break_at_any_use(s: UdpState)
    ensures
        udp_expects(s, UdpEvent::CommandFailed) <==> s.phase is WriteCommand,
        udp_expects(s, UdpEvent::ChannelFailed) <==> s.phase is AwaitTraffic || s.phase
            is WriteTraffic || s.phase is ReadTraffic,
        udp_expects(s, UdpEvent::Shutdown) <==> s.phase is AwaitChannel || s.phase is AwaitTraffic,
        udp_expects(s, UdpEvent::ChannelArrived) <==> s.phase is AwaitChannel,
{
}

/// The pool asks for a data channel exactly when one broke, one has gone
/// silent, or it is time to ask again.
pub proof fn channels_are_asked_for_exactly_for_cause(s: UdpState, event: UdpEvent)
    requires
        udp_expects(s, event),
    ensures
        udp_step(s, event).phase is RequestChannel <==> {
            ||| event is ChannelFailed
            ||| event is CommandFailed
            ||| event is RetryDue
            ||| event matches UdpEvent::ReadTimedOut(now) && now - s.last_activity_ms > 300_000
        },
{
}

/// When a data channel was last used, or became ready.
pub open spec fn last_use(events: Seq<UdpEvent>) -> u64
    decreases events.len(),
{
    if events.len() == 0 {
        0
    } else {
        match events.last() {
            UdpEvent::CommandWritten(t) => t,
            UdpEvent::Inbound(t) => t,
            UdpEvent::Outbound(t) => t,
            _ => last_use(events.drop_last()),
        }
    }
}

/// A data channel is given up for silence exactly when it was last used, in
/// either direction, or became ready, more than five minutes ago; otherwise the
/// pool goes on waiting for traffic.
pub proof fn a_silent_channel_is_replaced(events: Seq<UdpEvent>, now_ms: u64)
    requires
        udp_run_ok(events),
        udp_run(events).phase is AwaitTraffic,
    ensures
        ({
            let after = udp_run(events.push(UdpEvent::ReadTimedOut(now_ms)));
            &&& now_ms - last_use(events) > 300_000 ==> after.phase is RequestChannel
            &&& now_ms - last_use(events) <= 300_000 ==> after.phase is AwaitTraffic
        }),
{
    lemma_last_use(events);
    assert(events.push(UdpEvent::ReadTimedOut(now_ms)).drop_last() =~= events);
}

proof fn lemma_last_use(events: Seq<UdpEvent>)
    ensures
        udp_run(events).last_activity_ms == last_use(events),
    decreases events.len(),
{
    if events.len() > 0 {
        lemma_last_use(events.drop_last());
    }
}

/// A data channel that comes is put to use: the client is told to forward over
/// it, and once it was told, traffic from either side is waited for.
pub proof fn a_new_channel_is_put_to_use(s: UdpState, ready_ms: u64)
    requires
        s.phase is AwaitChannel,
    ensures
        ({
            let told = udp_step(s, UdpEvent::ChannelArrived);
            let ready = udp_step(told, UdpEvent::CommandWritten(ready_ms));
            &&& udp_expects(s, UdpEvent::ChannelArrived)
            &&& told.phase is WriteCommand
            &&& udp_expects(told, UdpEvent::CommandWritten(ready_ms))
            &&& ready.phase is AwaitTraffic
            &&& ready.last_activity_ms == ready_ms
        }),
{
}

/// A visitor's packet is written to the data channel, and the client's packet
/// is read whole and then sent to its visitor; after either, traffic is waited
/// for again, with the time of the packet noted.
pub proof fn packets_are_passed_on(s: UdpState, at_ms: u64)
    requires
        s.phase is AwaitTraffic,
    ensures
        ({
            let inbound = udp_step(s, UdpEvent::Inbound(at_ms));
            let written = udp_step(inbound, UdpEvent::PassedOn);
            let begun = udp_step(s, UdpEvent::HeaderRead);
            let outbound = udp_step(begun, UdpEvent::Outbound(at_ms));
            let sent = udp_step(outbound, UdpEvent::PassedOn);
            &&& inbound.phase is WriteTraffic
            &&& udp_expects(inbound, UdpEvent::PassedOn)
            &&& written.phase is AwaitTraffic
            &&& written.last_activity_ms == at_ms
            &&& begun.phase is ReadTraffic
            &&& udp_expects(begun, UdpEvent::Outbound(at_ms))
            &&& outbound.phase is SendTraffic
            &&& udp_expects(outbound, UdpEvent::PassedOn)
            &&& sent.phase is AwaitTraffic
            &&& sent.last_activity_ms == at_ms
            &&& written.retry_armed == s.retry_armed && sent.retry_armed == s.retry_armed
        }),
{
}

/// A visitors' side that fails to receive does not disturb the data channel.
pub proof fn a_failing_socket_changes_nothing(s: UdpState)
    ensures
        udp_step(s, UdpEvent::SocketFailed) == s,
{
}

/// Whether there is a delay after which to ask again, by the last request.
pub open spec fn last_delay(events: Seq<UdpEvent>) -> bool
    decreases events.len(),
{
    if events.len() == 0 {
        false
    } else {
        match events.last() {
            UdpEvent::Requested(d) => d,
            _ => last_delay(events.drop_last()),
        }
    }
}

/// A request that brings no data channel is made again when its delay is over,
/// as often as it takes, and only where the last request left a delay.
pub proof fn requests_are_made_again(events: Seq<UdpEvent>)
    requires
        udp_run_ok(events),
        udp_run(events).phase is AwaitChannel,
    ensures
        udp_run_ok(events.push(UdpEvent::RetryDue)) <==> last_delay(events),
        udp_run(events.push(UdpEvent::RetryDue)).phase is RequestChannel,
        udp_run(events).retry_armed == last_delay(events),
{
    lemma_last_delay(events);
    assert(events.push(UdpEvent::RetryDue).drop_last() =~= events);
}

proof fn lemma_last_delay(events: Seq<UdpEvent>)
    ensures
        udp_run(events).retry_armed == last_delay(events),
    decreases events.len(),
{
    if events.len() > 0 {
        lemma_last_delay(events.drop_last());
    }
}

/// A request that was sent is waited for; one that nobody takes ends the pool,
/// and so do the end of data channels and of the service.
pub proof fn the_pool_ends_exactly_for_cause(s: UdpState, event: UdpEvent)
    requires
        udp_expects(s, event),
    ensures
        udp_step(s, event).phase is Stopped <==> event is Shutdown || event is ChannelsEnded || event
            is RequestFailed,
        event is Requested ==> udp_step(s, event).phase is AwaitChannel,
{
}

} // verus!

//! The server's end of a control channel: what it writes, and when it ends.
use crate::config::ServerServiceConfig;
use crate::mux::{
    answered, cleaned, responded, with_session, without_session, MuxPool, MuxPoolConfig, PoolState,
};
use crate::protocol::{
    ack_bytes, control_cmd_bytes, control_cmd_tag, encode_ack, encode_control_cmd, Ack,
    ControlChannelCmd, ControlChannelMuxResp, DataChannelRequest, ServiceType, PROTO_V2, PROTO_V3,
};
use crate::server::{CHAN_SIZE, TCP_POOL_SIZE, UDP_POOL_SIZE};
use vstd::prelude::*;

verus! {

/// Seconds that writing a command may take.
pub const CONTROL_CHANNEL_WRITE_TIMEOUT: u64 = 5;

/// What a control channel is set up with.
#[derive(Clone, Copy, Debug, PartialEq, Eq, Structural)]
pub struct ControlPlan {
    /// Whether its visitors share multiplexed connections.
    pub mux_enabled: bool,
    /// How many data channels are asked for at the start.
    pub pool_size: usize,
    /// How many data channels may wait.
    pub data_channel_queue: usize,
    /// How many requests for data channels may wait.
    pub request_queue: usize,
}

/// Visitors share connections where the service is TCP and the client speaks
/// the version for it.
pub open spec fn shares_connections(service: ServerServiceConfig, version: u8) -> bool {
    service.service_type is Tcp && version == PROTO_V3
}

/// How many data channels are asked for at the start.
pub open spec fn initial_pool_size(service: ServerServiceConfig, version: u8) -> usize {
    match service.service_type {
        ServiceType::Tcp => if version == PROTO_V3 {
            service.mux_pool_size
        } else {
            TCP_POOL_SIZE
        },
        ServiceType::Udp => UDP_POOL_SIZE,
    }
}

/// Plans the control channel of a service and a client's version.
pub fn plan_control_channel(service: &ServerServiceConfig, version: u8) -> (r: ControlPlan)
    ensures
        r == (ControlPlan {
            mux_enabled: shares_connections(*service, version),
            pool_size: initial_pool_size(*service, version),
            data_channel_queue: 4096,
            request_queue: 1024,
        }),
{
    let (mux_enabled, pool_size) = match service.service_type {
        ServiceType::Tcp => {
            if version == PROTO_V3 {
                (true, service.mux_pool_size)
            } else {
                (false, TCP_POOL_SIZE)
            }
        },
        ServiceType::Udp => (false, UDP_POOL_SIZE),
    };
    ControlPlan {
        mux_enabled,
        pool_size,
        data_channel_queue: CHAN_SIZE * 2,
        request_queue: CHAN_SIZE / 2,
    }
}

/// The pool of multiplexed connections of a control channel, where it has one.
pub fn plan_mux_pool(service: &ServerServiceConfig, version: u8) -> (r: Option<MuxPool>)
    ensures
        r is Some <==> shares_connections(*service, version),
        r matches Some(pool) ==> pool@.wf() && pool@ == (PoolState {
            config: MuxPoolConfig {
                select: service.mux_select,
                target: service.mux_pool_size,
                max_streams: service.mux_max_streams,
                idle_timeout: if service.mux_idle_timeout == 0 {
                    None
                } else {
                    Some(service.mux_idle_timeout)
                },
            },
            sessions: Seq::empty(),
            pending: Seq::empty(),
            client_max_pool: u16::MAX,
            rr: 0,
            next_id: 1,
        }),
{
    match service.service_type {
        ServiceType::Tcp => {
            if version == PROTO_V3 {
                Some(
                    MuxPool::new(
                        service.mux_select,
                        service.mux_pool_size,
                        service.mux_max_streams,
                        service.mux_idle_timeout,
                    ),
                )
            } else {
                None
            }
        },
        ServiceType::Udp => None,
    }
}

/// What happens to a control channel.
#[derive(Clone, Copy, Debug, PartialEq, Eq, Structural)]
pub enum ControlEvent {
    /// A data channel is asked for.
    Request(DataChannelRequest),
    /// Nobody can ask for data channels any more.
    RequestsEnded,
    /// It is time for a heartbeat.
    HeartbeatDue,
    /// The channel is to end.
    Shutdown,
}

/// What a control channel does next.
#[derive(Debug)]
pub enum ControlAction {
    /// Write this command, as these bytes. The flag says that, once written, it
    /// counts as a request for a multiplexed connection.
    Write(ControlChannelCmd, Vec<u8>, bool),
    /// Nothing: a request for a multiplexed connection is on its way.
    Skip,
    /// End.
    Stop,
}

/// How writing a command went.
#[derive(Clone, Copy, Debug, PartialEq, Eq, Structural)]
pub enum WriteOutcome {
    Written,
    Failed,
    TimedOut,
}

/// What follows a write.
#[derive(Clone, Copy, Debug, PartialEq, Eq, Structural)]
pub enum AfterWrite {
    /// Go on.
    Continue,
    /// Count a request for a multiplexed connection, then go on.
    CountRequest,
    /// End with the error.
    Fail,
}

/// A control channel that is open.
#[derive(Debug)]
pub struct ControlChannel {
    version: u8,
    mux_enabled: bool,
    pool_size: usize,
    heartbeat_interval: u64,
}

/// A control channel that is open.
pub struct ControlState {
    /// The version that the client speaks.
    pub version: u8,
    /// Whether visitors share multiplexed connections.
    pub mux_enabled: bool,
    /// How many data channels are asked for at the start.
    pub pool_size: nat,
    /// Seconds between heartbeats; zero for none.
    pub heartbeat_interval: nat,
}

/// The command that an event asks for, if it asks for one: a request for a
/// multiplexed connection is one only where visitors share them, and otherwise
/// one for a data channel.
pub open spec fn command_for(s: ControlState, event: ControlEvent) -> Option<ControlChannelCmd> {
    match event {
        ControlEvent::Request(DataChannelRequest::Mux) => if s.mux_enabled && s.version
            == PROTO_V3 {
            Some(ControlChannelCmd::CreateDataMux)
        } else {
            Some(ControlChannelCmd::CreateDataChannel)
        },
        ControlEvent::Request(DataChannelRequest::Plain) => Some(
            ControlChannelCmd::CreateDataChannel,
        ),
        ControlEvent::HeartbeatDue => Some(ControlChannelCmd::HeartBeat),
        _ => None,
    }
}

/// The requests that a control channel begins with.
pub open spec fn initial_requests(s: ControlState) -> Seq<DataChannelRequest> {
    if s.mux_enabled {
        seq![DataChannelRequest::Mux]
    } else {
        Seq::new(s.pool_size, |i: int| DataChannelRequest::Plain)
    }
}

impl View for ControlChannel {
    type V = ControlState;

    closed spec fn view(&self) -> ControlState {
        ControlState {
            version: self.version,
            mux_enabled: self.mux_enabled,
            pool_size: self.pool_size as nat,
            heartbeat_interval: self.heartbeat_interval as nat,
        }
    }
}

/// What a control channel does next, but for the bytes.
pub enum ControlStep {
    /// Write this command; whether it counts as a request for a multiplexed
    /// connection.
    Write(ControlChannelCmd, bool),
    /// Nothing.
    Skip,
    /// End.
    Stop,
}

/// What follows an event, with so many requests for multiplexed connections on
/// their way.
pub open spec fn control_step(s: ControlState, event: ControlEvent, pending: nat) -> ControlStep {
    match command_for(s, event) {
        None => ControlStep::Stop,
        Some(cmd) => if cmd is CreateDataMux && pending > 0 {
            ControlStep::Skip
        } else {
            ControlStep::Write(cmd, cmd is CreateDataMux)
        },
    }
}

impl ControlChannel {
    /// Opens a control channel. The first thing it writes is that the client
    /// was accepted.
    pub fn open(plan: &ControlPlan, version: u8, heartbeat_interval: u64) -> (r: (
        ControlChannel,
        Vec<u8>,
    ))
        ensures
            r.0@ == (ControlState {
                version,
                mux_enabled: plan.mux_enabled,
                pool_size: plan.pool_size as nat,
                heartbeat_interval: heartbeat_interval as nat,
            }),
            r.1@ == ack_bytes(Ack::Accepted),
    {
        (
            ControlChannel {
                version,
                mux_enabled: plan.mux_enabled,
                pool_size: plan.pool_size,
                heartbeat_interval,
            },
            encode_ack(Ack::Accepted),
        )
    }

    /// The requests to make at the start.
    pub fn first_requests(&self) -> (r: Vec<DataChannelRequest>)
        ensures
            r@ == initial_requests(self@),
    {
        let mut requests: Vec<DataChannelRequest> = Vec::new();
        if self.mux_enabled {
            requests.push(DataChannelRequest::Mux);
        } else {
            let mut i: usize = 0;
            while i < self.pool_size
                invariant
                    i <= self.pool_size,
                    requests@ == Seq::new(i as nat, |j: int| DataChannelRequest::Plain),
                decreases self.pool_size - i,
            {
                requests.push(DataChannelRequest::Plain);
                i = i + 1;
                assert(requests@ =~= Seq::new(i as nat, |j: int| DataChannelRequest::Plain));
            }
        }
        assert(requests@ =~= initial_requests(self@));
        requests
    }

    /// Seconds until the next heartbeat, if there are heartbeats.
    pub fn heartbeat_after(&self) -> (r: Option<u64>)
        ensures
            r is Some <==> self@.heartbeat_interval != 0,
            r matches Some(s) ==> s == self@.heartbeat_interval,
    {
        if self.heartbeat_interval != 0 {
            Some(self.heartbeat_interval)
        } else {
            None
        }
    }

    /// Takes an event; `pending` is how many requests for multiplexed
    /// connections are on their way.
    pub fn on_event(&self, event: ControlEvent, pending: usize) -> (r: ControlAction)
        ensures
            match control_step(self@, event, pending as nat) {
                ControlStep::Stop => r is Stop,
                ControlStep::Skip => r is Skip,
                ControlStep::Write(cmd, counts) => r matches ControlAction::Write(c, bytes, n)
                    && c == cmd && n == counts && Some(bytes@) == control_cmd_bytes(
                    self@.version,
                    cmd,
                ),
            },
            match command_for(self@, event) {
                None => r is Stop,
                Some(cmd) => if cmd is CreateDataMux && pending > 0 {
                    r is Skip
                } else {
                    r matches ControlAction::Write(c, bytes, counts) && c == cmd && Some(bytes@)
                        == control_cmd_bytes(self@.version, cmd) && counts == (cmd
                        is CreateDataMux)
                },
            },
    {
        match event {
            ControlEvent::Request(DataChannelRequest::Mux) => {
                if self.mux_enabled && self.version == PROTO_V3 {
                    if pending > 0 {
                        return ControlAction::Skip;
                    }
                    self.write(ControlChannelCmd::CreateDataMux, true)
                } else {
                    self.write(ControlChannelCmd::CreateDataChannel, false)
                }
            },
            ControlEvent::Request(DataChannelRequest::Plain) => {
                self.write(ControlChannelCmd::CreateDataChannel, false)
            },
            ControlEvent::HeartbeatDue => self.write(ControlChannelCmd::HeartBeat, false),
            ControlEvent::RequestsEnded => ControlAction::Stop,
            ControlEvent::Shutdown => ControlAction::Stop,
        }
    }

    fn write(&self, cmd: ControlChannelCmd, counts: bool) -> (r: ControlAction)
        requires
            control_cmd_tag(self@.version, cmd) is Some,
        ensures
            r matches ControlAction::Write(c, bytes, n) && c == cmd && Some(bytes@)
                == control_cmd_bytes(self@.version, cmd) && n == counts,
    {
        match encode_control_cmd(self.version, cmd) {
            Some(bytes) => ControlAction::Write(cmd, bytes, counts),
            None => ControlAction::Stop,
        }
    }
}

/// How it is told that writing a command took too long.
pub open spec fn write_timeout_chars(cmd: ControlChannelCmd) -> Seq<char> {
    match cmd {
        ControlChannelCmd::HeartBeat => "写入心跳超时"@,
        _ => "写入 创建数据通道 超时"@,
    }
}

/// Tells that writing a command took too long.
pub fn write_timeout_text(cmd: ControlChannelCmd) -> (r: String)
    ensures
        r@ == write_timeout_chars(cmd),
{
    match cmd {
        ControlChannelCmd::HeartBeat => "写入心跳超时".to_owned(),
        _ => "写入 创建数据通道 超时".to_owned(),
    }
}

/// What follows an outcome of the write of a command.
pub open spec fn write_step(outcome: WriteOutcome, counts: bool) -> AfterWrite {
    match outcome {
        WriteOutcome::Written => if counts {
            AfterWrite::CountRequest
        } else {
            AfterWrite::Continue
        },
        _ => AfterWrite::Fail,
    }
}

/// What follows the write of a command.
pub fn after_write(outcome: WriteOutcome, counts: bool) -> (r: AfterWrite)
    ensures
        r == write_step(outcome, counts),
        r == (if !(outcome is Written) {
            AfterWrite::Fail
        } else if counts {
            AfterWrite::CountRequest
        } else {
            AfterWrite::Continue
        }),
{
    match outcome {
        WriteOutcome::Written => {
            if counts {
                AfterWrite::CountRequest
            } else {
                AfterWrite::Continue
            }
        },
        _ => AfterWrite::Fail,
    }
}

/// A client of version 2 is never asked for a multiplexed connection, whatever
/// happens on its channel.
pub proof fn version_2_is_never_asked_to_multiplex(s: ControlState, event: ControlEvent)
    requires
        s.version == PROTO_V2,
    ensures
        command_for(s, event) != Some(ControlChannelCmd::CreateDataMux),
        command_for(s, event) matches Some(cmd) ==> control_cmd_tag(PROTO_V2, cmd) is Some,
{
}

/// The requests that a channel begins with are for the connections that its
/// visitors will use: one multiplexed connection, where they share them, and
/// else as many data channels as are kept ready.
pub proof fn first_requests_fit_the_service(
    service: ServerServiceConfig,
    version: u8,
    heartbeat_interval: nat,
    i: int,
)
    requires
        0 <= i < initial_requests(planned(service, version, heartbeat_interval)).len(),
    ensures
        ({
            let s = planned(service, version, heartbeat_interval);
            let first = initial_requests(s);
            &&& shares_connections(service, version) ==> first.len() == 1 && command_for(
                s,
                ControlEvent::Request(first[i]),
            ) == Some(ControlChannelCmd::CreateDataMux)
            &&& !shares_connections(service, version) ==> first.len() == initial_pool_size(
                service,
                version,
            ) && command_for(s, ControlEvent::Request(first[i])) == Some(
                ControlChannelCmd::CreateDataChannel,
            )
        }),
{
}

/// The control channel of a service and a client's version.
pub open spec fn planned(
    service: ServerServiceConfig,
    version: u8,
    heartbeat_interval: nat,
) -> ControlState {
    ControlState {
        version,
        mux_enabled: shares_connections(service, version),
        pool_size: initial_pool_size(service, version) as nat,
        heartbeat_interval,
    }
}


/// What happens to the requests for multiplexed connections of a channel.
pub enum MuxTraffic {
    /// The channel took a request at this time.
    Requested(u64),
    /// The client answered.
    Responded(ControlChannelMuxResp),
    /// A connection came in at this time.
    Joined(u64),
    /// A connection was closed at this time.
    Left(u64, u64),
    /// The number of connections was looked at, at this time.
    Looked(u64),
}

/// The pool of a channel after one of these.
pub open spec fn after_traffic(s: ControlState, p: PoolState, t: MuxTraffic) -> PoolState {
    match t {
        MuxTraffic::Requested(now) => if command_for(
            s,
            ControlEvent::Request(DataChannelRequest::Mux),
        ) == Some(ControlChannelCmd::CreateDataMux) && p.pending.len() == 0 {
            PoolState { pending: p.pending.push(now), ..p }
        } else {
            p
        },
        MuxTraffic::Responded(resp) => responded(p, resp),
        MuxTraffic::Joined(now) => cleaned(with_session(answered(p), now), now),
        MuxTraffic::Left(id, now) => cleaned(without_session(p, id), now),
        MuxTraffic::Looked(now) => cleaned(p, now),
    }
}

/// The pool of a channel after a series of them.
pub open spec fn after_all_traffic(s: ControlState, p: PoolState, ts: Seq<MuxTraffic>) -> PoolState
    decreases ts.len(),
{
    if ts.len() == 0 {
        p
    } else {
        after_traffic(s, after_all_traffic(s, p, ts.drop_last()), ts.last())
    }
}

/// However often a multiplexed connection is asked for, and whatever the
/// client answers, there is never more than one request on its way.
pub proof fn requests_never_pile_up(s: ControlState, p: PoolState, ts: Seq<MuxTraffic>)
    requires
        p.pending.len() <= 1,
    ensures
        after_all_traffic(s, p, ts).pending.len() <= 1,
    decreases ts.len(),
{
    if ts.len() > 0 {
        requests_never_pile_up(s, p, ts.drop_last());
        let q = after_all_traffic(s, p, ts.drop_last());
        match ts.last() {
            MuxTraffic::Joined(now) => {
                lemma_cleaning_shrinks(answered(q).pending, now);
            },
            MuxTraffic::Left(_, now) => {
                lemma_cleaning_shrinks(q.pending, now);
            },
            MuxTraffic::Looked(now) => {
                lemma_cleaning_shrinks(q.pending, now);
            },
            _ => {},
        }
    }
}

proof fn lemma_cleaning_shrinks(pending: Seq<u64>, now: u64)
    ensures
        crate::mux::without_stale(pending, now).len() <= pending.len(),
    decreases pending.len(),
{
    if pending.len() > 0 {
        lemma_cleaning_shrinks(pending.drop_first(), now);
    }
}

/// Visitors share connections exactly where the service is TCP and the client
/// speaks version three. Then one connection is asked for at the start, and
/// else eight data channels for TCP and two for UDP.
pub proof fn channels_begin_with_what_they_need(
    service: ServerServiceConfig,
    version: u8,
    heartbeat_interval: nat,
)
    ensures
        ({
            let tcp = service.service_type is Tcp;
            let first = initial_requests(planned(service, version, heartbeat_interval));
            &&& shares_connections(service, version) <==> tcp && version == 3
            &&& first.len() == (if tcp && version == 3 {
                1
            } else if tcp {
                8
            } else {
                2nat
            })
            &&& forall|i: int|
                0 <= i < first.len() ==> ((#[trigger] first[i]) is Mux <==> tcp && version == 3)
            &&& tcp && version == 3 ==> initial_pool_size(service, version)
                == service.mux_pool_size
        }),
{
}

/// A channel begins with as many requests as it has data channels to keep
/// ready, all of them for data channels; or with one for a multiplexed
/// connection.
pub proof fn first_requests_are_counted(s: ControlState)
    ensures
        s.mux_enabled ==> initial_requests(s).len() == 1 && initial_requests(s)[0] is Mux,
        !s.mux_enabled ==> initial_requests(s).len() == s.pool_size,
        !s.mux_enabled ==> forall|i: int|
            0 <= i < s.pool_size ==> (#[trigger] initial_requests(s)[i]) is Plain,
{
}

/// A channel writes a command for every request and every heartbeat, and ends
/// exactly when it is to end or nobody can ask for data channels any more. A
/// heartbeat is written exactly when one is due; a multiplexed connection is
/// asked for exactly when one is wanted and both sides know how; in every other
/// case a request is for a data channel.
pub proof fn every_request_is_written(s: ControlState, event: ControlEvent)
    ensures
        command_for(s, event) is None <==> event is Shutdown || event is RequestsEnded,
        command_for(s, event) == Some(ControlChannelCmd::HeartBeat) <==> event is HeartbeatDue,
        command_for(s, event) == Some(ControlChannelCmd::CreateDataMux) <==> event
            == ControlEvent::Request(DataChannelRequest::Mux) && s.mux_enabled && s.version == 3,
        command_for(s, event) == Some(ControlChannelCmd::CreateDataChannel) <==> event
            == ControlEvent::Request(DataChannelRequest::Plain) || (event == ControlEvent::Request(
            DataChannelRequest::Mux,
        ) && !(s.mux_enabled && s.version == 3)),
{
}

/// Nothing is passed over but a request for a multiplexed connection while
/// another is on its way. Everything else that is asked for is written, and
/// exactly the requests for multiplexed connections count as such.
pub proof fn only_repeated_requests_are_skipped(s: ControlState, event: ControlEvent, pending: nat)
    ensures
        ({
            let step = control_step(s, event, pending);
            let mux = event == ControlEvent::Request(DataChannelRequest::Mux) && s.mux_enabled
                && s.version == 3;
            &&& step is Skip <==> mux && pending > 0
            &&& step is Stop <==> event is Shutdown || event is RequestsEnded
            &&& step == ControlStep::Write(ControlChannelCmd::CreateDataMux, true) <==> mux
                && pending == 0
            &&& step == ControlStep::Write(ControlChannelCmd::HeartBeat, false) <==> event
                is HeartbeatDue
            &&& step == ControlStep::Write(ControlChannelCmd::CreateDataChannel, false) <==> event
                is Request && !mux
        }),
{
}

/// A channel ends exactly when a command could not be written in time, or at
/// all; what was written counts exactly if it is a request for a multiplexed
/// connection.
pub proof fn unwritten_commands_end_the_channel(outcome: WriteOutcome, counts: bool)
    ensures
        write_step(outcome, counts) is Fail <==> outcome is Failed || outcome is TimedOut,
        write_step(outcome, counts) is CountRequest <==> outcome is Written && counts,
        write_step(outcome, counts) is Continue <==> outcome is Written && !counts,
{
}

} // verus!

//! How a server joins the visitors of a TCP service with its client.
use crate::mux::{elapsed_ms, millis};
use crate::protocol::{data_cmd_bytes, encode_data_cmd, DataChannelCmd};
use vstd::prelude::*;

verus! {

/// How handing something to a queue went.
#[derive(Clone, Copy, Debug, PartialEq, Eq, Structural)]
pub enum SendOutcome {
    Sent,
    Full,
    Closed,
}

/// What happens while visitors are let in.
#[derive(Clone, Copy, Debug, PartialEq, Eq, Structural)]
pub enum AcceptEvent {
    /// Accepting failed; whether there is a delay to wait for.
    Failed(bool),
    /// A visitor came in.
    Accepted,
    /// A data channel was asked for.
    Requested(SendOutcome),
    /// The visitor was handed on.
    Queued(SendOutcome),
    /// The service is to end.
    Shutdown,
}

/// What letting visitors in does next.
#[derive(Clone, Copy, Debug, PartialEq, Eq, Structural)]
pub enum AcceptAction {
    /// Wait for the next visitor.
    Wait,
    /// Sleep for the next delay, then wait for the next visitor.
    Delay,
    /// Ask for a data channel, without waiting for room.
    RequestChannel,
    /// Hand the visitor on, without waiting for room.
    QueueVisitor,
    /// The visitor was handed on: the next delay is the shortest again.
    Served,
    /// Close the visitor, then wait for the next.
    DropVisitor,
    /// End.
    Stop,
}

/// What an event asks for. Where visitors share connections, no data channel
/// is asked for each of them.
pub open spec fn accept_action(use_mux: bool, event: AcceptEvent) -> AcceptAction {
    match event {
        AcceptEvent::Failed(delay_left) => if delay_left {
            AcceptAction::Delay
        } else {
            AcceptAction::Wait
        },
        AcceptEvent::Accepted => if use_mux {
            AcceptAction::QueueVisitor
        } else {
            AcceptAction::RequestChannel
        },
        AcceptEvent::Requested(SendOutcome::Sent) => AcceptAction::QueueVisitor,
        AcceptEvent::Queued(SendOutcome::Sent) => AcceptAction::Served,
        AcceptEvent::Requested(SendOutcome::Full) | AcceptEvent::Queued(SendOutcome::Full) =>
            AcceptAction::DropVisitor,
        AcceptEvent::Requested(SendOutcome::Closed) | AcceptEvent::Queued(SendOutcome::Closed) =>
            AcceptAction::Stop,
        AcceptEvent::Shutdown => AcceptAction::Stop,
    }
}

/// Takes an event while visitors are let in.
pub fn on_accept_event(use_mux: bool, event: AcceptEvent) -> (r: AcceptAction)
    ensures
        r == accept_action(use_mux, event),
{
    match event {
        AcceptEvent::Failed(true) => AcceptAction::Delay,
        AcceptEvent::Failed(false) => AcceptAction::Wait,
        AcceptEvent::Accepted => {
            if use_mux {
                AcceptAction::QueueVisitor
            } else {
                AcceptAction::RequestChannel
            }
        },
        AcceptEvent::Requested(outcome) => match outcome {
            SendOutcome::Sent => AcceptAction::QueueVisitor,
            SendOutcome::Full => AcceptAction::DropVisitor,
            SendOutcome::Closed => AcceptAction::Stop,
        },
        AcceptEvent::Queued(outcome) => match outcome {
            SendOutcome::Sent => AcceptAction::Served,
            SendOutcome::Full => AcceptAction::DropVisitor,
            SendOutcome::Closed => AcceptAction::Stop,
        },
        AcceptEvent::Shutdown => AcceptAction::Stop,
    }
}

/// How many visitors were handed on in a series of events.
pub open spec fn visitors_queued(use_mux: bool, events: Seq<AcceptEvent>) -> nat
    decreases events.len(),
{
    if events.len() == 0 {
        0
    } else {
        visitors_queued(use_mux, events.drop_last()) + (if accept_action(use_mux, events.last())
            is QueueVisitor {
            1nat
        } else {
            0nat
        })
    }
}

/// How many data channels were asked for in a series of events.
pub open spec fn channels_requested(events: Seq<AcceptEvent>) -> nat
    decreases events.len(),
{
    if events.len() == 0 {
        0
    } else {
        channels_requested(events.drop_last()) + (if events.last() == AcceptEvent::Requested(
            SendOutcome::Sent,
        ) {
            1nat
        } else {
            0nat
        })
    }
}

/// Where visitors do not share connections, a data channel is asked for each
/// visitor that is handed on.
pub proof fn each_visitor_has_a_request(events: Seq<AcceptEvent>)
    ensures
        visitors_queued(false, events) == channels_requested(events),
    decreases events.len(),
{
    if events.len() > 0 {
        each_visitor_has_a_request(events.drop_last());
    }
}

/// How visitors of a TCP service are served.
#[derive(Clone, Copy, Debug, PartialEq, Eq, Structural)]
pub struct TcpPool {
    /// Whether they share multiplexed connections.
    pub use_mux: bool,
    /// Seconds that a visitor waits, if that is limited.
    pub wait_timeout: Option<u64>,
    /// Seconds after which a silent stream is closed, if it ever is.
    pub stream_idle_timeout: Option<u64>,
}

/// What happens to a visitor.
#[derive(Clone, Copy, Debug, PartialEq, Eq, Structural)]
pub enum VisitorEvent {
    /// It is its turn.
    Arrived,
    /// It has waited for longer than it may.
    WaitTimedOut,
    /// No stream could be opened.
    StreamFailed,
    /// There is a stream or a data channel for it.
    Connected,
    /// No data channel will come any more.
    ChannelsEnded,
    /// The client was told to forward.
    CommandWritten,
    /// The client could not be told to forward.
    CommandFailed,
    /// Another data channel was asked for.
    Requested,
    /// No other data channel can be asked for.
    RequestFailed,
}

/// What is done for a visitor next.
#[derive(Clone, Copy, Debug, PartialEq, Eq, Structural)]
pub enum VisitorAction {
    /// Open a stream, for as long as a visitor may wait.
    OpenStream,
    /// Take the next data channel, for as long as a visitor may wait.
    TakeChannel,
    /// Tell the client to forward.
    WriteCommand,
    /// Forward in both directions, with this limit on silence.
    Forward(Option<u64>),
    /// Ask for another data channel.
    RequestChannel,
    /// Close the visitor.
    CloseVisitor,
    /// Serve no more visitors.
    StopPool,
}

/// What an event asks for.
pub open spec fn visitor_action(pool: TcpPool, event: VisitorEvent) -> VisitorAction {
    match event {
        VisitorEvent::Arrived => if pool.use_mux {
            VisitorAction::OpenStream
        } else {
            VisitorAction::TakeChannel
        },
        VisitorEvent::WaitTimedOut | VisitorEvent::StreamFailed => VisitorAction::CloseVisitor,
        VisitorEvent::Connected => VisitorAction::WriteCommand,
        VisitorEvent::CommandWritten => VisitorAction::Forward(
            if pool.use_mux {
                pool.stream_idle_timeout
            } else {
                None
            },
        ),
        VisitorEvent::CommandFailed => if pool.use_mux {
            VisitorAction::CloseVisitor
        } else {
            VisitorAction::RequestChannel
        },
        VisitorEvent::Requested => VisitorAction::TakeChannel,
        VisitorEvent::ChannelsEnded | VisitorEvent::RequestFailed => VisitorAction::StopPool,
    }
}

/// Seconds, where zero stands for no limit.
pub fn optional_secs(secs: u64) -> (r: Option<u64>)
    ensures
        r == (if secs == 0 {
            None
        } else {
            Some(secs)
        }),
{
    if secs == 0 {
        None
    } else {
        Some(secs)
    }
}

impl TcpPool {
    /// How visitors are served, by the settings, where zero stands for no
    /// limit.
    pub fn new(use_mux: bool, data_channel_wait_timeout: u64, stream_idle_timeout: u64) -> (r:
        TcpPool)
        ensures
            r.use_mux == use_mux,
            r.wait_timeout == (if data_channel_wait_timeout == 0 {
                None
            } else {
                Some(data_channel_wait_timeout)
            }),
            r.stream_idle_timeout == (if stream_idle_timeout == 0 {
                None
            } else {
                Some(stream_idle_timeout)
            }),
    {
        TcpPool {
            use_mux,
            wait_timeout: optional_secs(data_channel_wait_timeout),
            stream_idle_timeout: optional_secs(stream_idle_timeout),
        }
    }

    /// What the client is told.
    pub fn command() -> (r: Vec<u8>)
        ensures
            r@ == data_cmd_bytes(DataChannelCmd::StartForwardTcp),
    {
        encode_data_cmd(DataChannelCmd::StartForwardTcp)
    }

    /// Takes an event of a visitor.
    pub fn on_visitor_event(&self, event: VisitorEvent) -> (r: VisitorAction)
        ensures
            r == visitor_action(*self, event),
    {
        match event {
            VisitorEvent::Arrived => {
                if self.use_mux {
                    VisitorAction::OpenStream
                } else {
                    VisitorAction::TakeChannel
                }
            },
            VisitorEvent::WaitTimedOut | VisitorEvent::StreamFailed => VisitorAction::CloseVisitor,
            VisitorEvent::Connected => VisitorAction::WriteCommand,
            VisitorEvent::CommandWritten => {
                if self.use_mux {
                    VisitorAction::Forward(self.stream_idle_timeout)
                } else {
                    VisitorAction::Forward(None)
                }
            },
            VisitorEvent::CommandFailed => {
                if self.use_mux {
                    VisitorAction::CloseVisitor
                } else {
                    VisitorAction::RequestChannel
                }
            },
            VisitorEvent::Requested => VisitorAction::TakeChannel,
            VisitorEvent::ChannelsEnded | VisitorEvent::RequestFailed => VisitorAction::StopPool,
        }
    }
}

/// Which event can follow an action for a visitor.
pub open spec fn may_follow(pool: TcpPool, action: VisitorAction, event: VisitorEvent) -> bool {
    match action {
        VisitorAction::OpenStream => event is Connected || event is StreamFailed || (event
            is WaitTimedOut && pool.wait_timeout is Some),
        VisitorAction::TakeChannel => event is Connected || event is ChannelsEnded || (event
            is WaitTimedOut && pool.wait_timeout is Some),
        VisitorAction::WriteCommand => event is CommandWritten || event is CommandFailed,
        VisitorAction::RequestChannel => event is Requested || event is RequestFailed,
        _ => false,
    }
}

/// The last action after a series of events of one visitor.
pub open spec fn visitor_run(pool: TcpPool, events: Seq<VisitorEvent>) -> VisitorAction {
    visitor_action(pool, events.last())
}

/// The events of one visitor, from its turn on.
pub open spec fn visitor_events_ok(pool: TcpPool, events: Seq<VisitorEvent>) -> bool
    decreases events.len(),
{
    if events.len() == 0 {
        false
    } else if events.len() == 1 {
        events[0] is Arrived
    } else {
        visitor_events_ok(pool, events.drop_last()) && may_follow(
            pool,
            visitor_run(pool, events.drop_last()),
            events.last(),
        )
    }
}

/// A visitor that does not share a connection is closed only for having waited
/// too long: a broken data channel is replaced. And without a limit it is
/// never closed.
pub proof fn waiting_visitors_are_not_dropped(pool: TcpPool, events: Seq<VisitorEvent>)
    requires
        !pool.use_mux,
        visitor_events_ok(pool, events),
        visitor_run(pool, events) is CloseVisitor,
    ensures
        events.last() is WaitTimedOut,
        pool.wait_timeout is Some,
{
    lemma_no_stream_without_mux(pool, events);
}

proof fn lemma_no_stream_without_mux(pool: TcpPool, events: Seq<VisitorEvent>)
    requires
        !pool.use_mux,
        visitor_events_ok(pool, events),
    ensures
        !(visitor_run(pool, events) is OpenStream),
        !(events.last() is StreamFailed),
        events.last() is WaitTimedOut ==> pool.wait_timeout is Some,
    decreases events.len(),
{
    if events.len() > 1 {
        lemma_no_stream_without_mux(pool, events.drop_last());
    }
}

/// A visitor is forwarded only after the client was told to forward.
pub proof fn forwarding_follows_the_command(pool: TcpPool, events: Seq<VisitorEvent>)
    requires
        visitor_events_ok(pool, events),
        visitor_run(pool, events) is Forward,
    ensures
        events.len() >= 3,
        events.last() is CommandWritten,
        events[events.len() - 2] is Connected,
{
    assert(events.last() is CommandWritten);
    let before = events.drop_last();
    assert(visitor_events_ok(pool, before));
    assert(visitor_run(pool, before) is WriteCommand);
    assert(before.last() is Connected);
}

/// Both directions of a connection that is being forwarded.
#[derive(Debug)]
pub struct Forwarding {
    idle_timeout: u64,
    left_done: bool,
    right_done: bool,
}

/// What is left to do.
#[derive(Clone, Copy, Debug, PartialEq, Eq, Structural)]
pub struct ForwardStep {
    /// Break off the copy from left to right.
    pub abort_left: bool,
    /// Break off the copy from right to left.
    pub abort_right: bool,
    /// Both directions have ended.
    pub finished: bool,
}

/// Which directions have ended.
pub struct ForwardState {
    /// Seconds of silence that are allowed.
    pub idle_timeout: u64,
    /// From left to right.
    pub left_done: bool,
    /// From right to left.
    pub right_done: bool,
}

/// What happens to a connection that is being forwarded. Times are
/// milliseconds of one clock.
#[derive(Clone, Copy, Debug, PartialEq, Eq, Structural)]
pub enum ForwardEvent {
    /// The copy from left to right ended; whether in order.
    LeftEnded(bool),
    /// The copy from right to left ended; whether in order.
    RightEnded(bool),
    /// A second has passed; the time now and that of the last byte.
    Tick(u64, u64),
}

/// What follows an event: an orderly end of one direction leaves the other
/// alone, any other breaks it off, and silence breaks off both.
pub open spec fn forward_step(s: ForwardState, event: ForwardEvent) -> (ForwardState, ForwardStep) {
    match event {
        ForwardEvent::LeftEnded(in_order) => {
            let abort = !in_order && !s.right_done;
            let t = ForwardState { left_done: true, right_done: s.right_done || abort, ..s };
            (t, ForwardStep { abort_left: false, abort_right: abort, finished: t.right_done })
        },
        ForwardEvent::RightEnded(in_order) => {
            let abort = !in_order && !s.left_done;
            let t = ForwardState { right_done: true, left_done: s.left_done || abort, ..s };
            (t, ForwardStep { abort_left: abort, abort_right: false, finished: t.left_done })
        },
        ForwardEvent::Tick(now, last) => if elapsed_ms(now, last) >= millis(s.idle_timeout) {
            (
                s,
                ForwardStep {
                    abort_left: !s.left_done,
                    abort_right: !s.right_done,
                    finished: true,
                },
            )
        } else {
            (
                s,
                ForwardStep {
                    abort_left: false,
                    abort_right: false,
                    finished: s.left_done && s.right_done,
                },
            )
        },
    }
}

impl View for Forwarding {
    type V = ForwardState;

    closed spec fn view(&self) -> ForwardState {
        ForwardState {
            idle_timeout: self.idle_timeout,
            left_done: self.left_done,
            right_done: self.right_done,
        }
    }
}

impl Forwarding {
    /// Begins with both directions open.
    pub fn start(idle_timeout: u64) -> (r: Forwarding)
        ensures
            r@ == (ForwardState { idle_timeout, left_done: false, right_done: false }),
    {
        Forwarding { idle_timeout, left_done: false, right_done: false }
    }

    /// Whether the copy from left to right has ended.
    pub fn left_done(&self) -> (r: bool)
        ensures
            r == self@.left_done,
    {
        self.left_done
    }

    /// Whether the copy from right to left has ended.
    pub fn right_done(&self) -> (r: bool)
        ensures
            r == self@.right_done,
    {
        self.right_done
    }

    /// Takes an event.
    pub fn on_event(&mut self, event: ForwardEvent) -> (r: ForwardStep)
        ensures
            (final(self)@, r) == forward_step(old(self)@, event),
    {
        match event {
            ForwardEvent::LeftEnded(in_order) => {
                self.left_done = true;
                let abort = !in_order && !self.right_done;
                if abort {
                    self.right_done = true;
                }
                ForwardStep { abort_left: false, abort_right: abort, finished: self.right_done }
            },
            ForwardEvent::RightEnded(in_order) => {
                self.right_done = true;
                let abort = !in_order && !self.left_done;
                if abort {
                    self.left_done = true;
                }
                ForwardStep { abort_left: abort, abort_right: false, finished: self.left_done }
            },
            ForwardEvent::Tick(now, last) => {
                let limit: u64 = self.idle_timeout.wrapping_mul(1000);
                if now.saturating_sub(last) >= limit {
                    ForwardStep {
                        abort_left: !self.left_done,
                        abort_right: !self.right_done,
                        finished: true,
                    }
                } else {
                    ForwardStep {
                        abort_left: false,
                        abort_right: false,
                        finished: self.left_done && self.right_done,
                    }
                }
            },
        }
    }
}

/// A connection whose one side has closed in order goes on in the other
/// direction, as long as it is not silent for too long.
pub proof fn half_closed_connections_go_on(s: ForwardState, now: u64, last: u64)
    requires
        !s.left_done,
        !s.right_done,
        elapsed_ms(now, last) < millis(s.idle_timeout),
    ensures
        ({
            let (t, step) = forward_step(s, ForwardEvent::LeftEnded(true));
            &&& !step.abort_right && !step.finished
            &&& !forward_step(t, ForwardEvent::Tick(now, last)).1.finished
            &&& forward_step(t, ForwardEvent::RightEnded(true)).1.finished
        }),
        ({
            let (t, step) = forward_step(s, ForwardEvent::RightEnded(true));
            &&& !step.abort_left && !step.finished
            &&& !forward_step(t, ForwardEvent::Tick(now, last)).1.finished
            &&& forward_step(t, ForwardEvent::LeftEnded(true)).1.finished
        }),
{
}

/// When forwarding has finished, neither direction is left running: each has
/// ended or is broken off.
pub proof fn nothing_is_left_running(s: ForwardState, event: ForwardEvent)
    requires
        forward_step(s, event).1.finished,
    ensures
        ({
            let (t, step) = forward_step(s, event);
            &&& t.left_done || step.abort_left
            &&& t.right_done || step.abort_right
        }),
{
}

/// What one direction of a copy does with what it read.
#[derive(Clone, Copy, Debug, PartialEq, Eq, Structural)]
pub enum CopyAction {
    /// Write so many bytes and note the time.
    Write(usize),
    /// Close the writing side and end in order.
    CloseWriter,
}

/// Takes the number of bytes that were read; none stands for the end.
pub fn on_copy_read(n: usize) -> (r: CopyAction)
    ensures
        r == (if n == 0 {
            CopyAction::CloseWriter
        } else {
            CopyAction::Write(n)
        }),
{
    if n == 0 {
        CopyAction::CloseWriter
    } else {
        CopyAction::Write(n)
    }
}

/// A visitor that is let in is handed on at once where visitors share
/// connections, and else once a data channel was asked for it; nothing else
/// leads to a visitor being handed on or a data channel being asked for.
pub proof fn visitors_are_handed_on(use_mux: bool, event: AcceptEvent)
    ensures
        accept_action(use_mux, event) is QueueVisitor <==> (use_mux && event is Accepted) || event
            == AcceptEvent::Requested(SendOutcome::Sent),
        accept_action(use_mux, event) is RequestChannel <==> !use_mux && event is Accepted,
        accept_action(use_mux, event) is Served <==> event == AcceptEvent::Queued(
            SendOutcome::Sent,
        ),
{
}

/// A visitor is dropped exactly when there is no room for it or its request.
/// Letting visitors in ends exactly when the service does, or nobody takes
/// visitors or requests any more; a failure to accept never ends it, but has
/// it wait for as long as there is a delay.
pub proof fn letting_in_ends_exactly_for_cause(use_mux: bool, event: AcceptEvent)
    ensures
        accept_action(use_mux, event) is DropVisitor <==> event == AcceptEvent::Requested(
            SendOutcome::Full,
        ) || event == AcceptEvent::Queued(SendOutcome::Full),
        accept_action(use_mux, event) is Stop <==> event is Shutdown || event
            == AcceptEvent::Requested(SendOutcome::Closed) || event == AcceptEvent::Queued(
            SendOutcome::Closed,
        ),
        accept_action(use_mux, event) is Delay <==> event == AcceptEvent::Failed(true),
        accept_action(use_mux, event) is Wait <==> event == AcceptEvent::Failed(false),
{
}

/// A visitor whose turn it is gets a stream opened or a data channel taken;
/// once there is one, the client is told to forward, and once it was told, the
/// visitor is forwarded. Nothing stands between, whatever the service.
pub proof fn visitors_are_served(pool: TcpPool)
    ensures
        ({
            let come = seq![VisitorEvent::Arrived];
            let joined = come.push(VisitorEvent::Connected);
            let told = joined.push(VisitorEvent::CommandWritten);
            &&& visitor_events_ok(pool, come)
            &&& visitor_events_ok(pool, joined)
            &&& visitor_events_ok(pool, told)
            &&& visitor_run(pool, come) == if pool.use_mux {
                VisitorAction::OpenStream
            } else {
                VisitorAction::TakeChannel
            }
            &&& visitor_run(pool, joined) == VisitorAction::WriteCommand
            &&& visitor_run(pool, told) is Forward
        }),
{
    let come = seq![VisitorEvent::Arrived];
    let joined = come.push(VisitorEvent::Connected);
    let told = joined.push(VisitorEvent::CommandWritten);
    assert(joined.drop_last() =~= come);
    assert(told.drop_last() =~= joined);
    assert(visitor_events_ok(pool, come));
    assert(visitor_events_ok(pool, joined));
}

/// However a visitor came to a stream or a data channel, the next step is to
/// tell the client to forward; and after that was written the visitor is
/// forwarded, with the limit on silence of its service where it shares a
/// connection, and else without one.
pub proof fn connected_visitors_are_forwarded(pool: TcpPool, events: Seq<VisitorEvent>)
    requires
        visitor_events_ok(pool, events),
        events.last() is Connected,
    ensures
        visitor_run(pool, events) is WriteCommand,
        visitor_events_ok(pool, events.push(VisitorEvent::CommandWritten)),
        visitor_run(pool, events.push(VisitorEvent::CommandWritten)) == VisitorAction::Forward(
            if pool.use_mux {
                pool.stream_idle_timeout
            } else {
                None
            },
        ),
{
    assert(events.push(VisitorEvent::CommandWritten).drop_last() =~= events);
}

/// A visitor is closed only after its wait ran out, no stream could be opened,
/// or its stream broke before the client was told to forward; the last two
/// only where visitors share connections.
pub proof fn visitors_are_closed_only_for_cause(pool: TcpPool, events: Seq<VisitorEvent>)
    requires
        visitor_events_ok(pool, events),
        visitor_run(pool, events) is CloseVisitor,
    ensures
        events.len() > 1,
        (events.last() is WaitTimedOut && pool.wait_timeout is Some) || (pool.use_mux && (
        events.last() is StreamFailed || events.last() is CommandFailed)),
{
    if !pool.use_mux {
        waiting_visitors_are_not_dropped(pool, events);
    } else {
        assert(events.len() > 1);
        let before = visitor_run(pool, events.drop_last());
        assert(may_follow(pool, before, events.last()));
    }
}

/// Each event leads to one action: which events lead to closing a visitor, to
/// forwarding it, to telling the client, to asking for another data channel,
/// to taking one, to opening a stream, and to serving nobody any more.
pub proof fn each_action_has_its_events(pool: TcpPool, event: VisitorEvent)
    ensures
        visitor_action(pool, event) is CloseVisitor <==> event is WaitTimedOut || event
            is StreamFailed || (pool.use_mux && event is CommandFailed),
        visitor_action(pool, event) is Forward <==> event is CommandWritten,
        visitor_action(pool, event) is WriteCommand <==> event is Connected,
        visitor_action(pool, event) is RequestChannel <==> !pool.use_mux && event is CommandFailed,
        visitor_action(pool, event) is TakeChannel <==> (!pool.use_mux && event is Arrived) || event
            is Requested,
        visitor_action(pool, event) is OpenStream <==> pool.use_mux && event is Arrived,
        visitor_action(pool, event) is StopPool <==> event is ChannelsEnded || event
            is RequestFailed,
{
}

/// A visitor whose data channel breaks before the client was told to forward
/// goes on: another data channel is asked for, then taken, and the visitor is
/// forwarded over that one.
pub proof fn a_broken_channel_does_not_cost_the_visitor(pool: TcpPool, events: Seq<VisitorEvent>)
    requires
        !pool.use_mux,
        visitor_events_ok(pool, events),
        events.last() is CommandFailed,
    ensures
        visitor_run(pool, events) is RequestChannel,
        ({
            let asked = events.push(VisitorEvent::Requested);
            let joined = asked.push(VisitorEvent::Connected);
            let told = joined.push(VisitorEvent::CommandWritten);
            &&& visitor_events_ok(pool, told)
            &&& visitor_run(pool, asked) is TakeChannel
            &&& visitor_run(pool, told) == VisitorAction::Forward(None)
        }),
{
    let asked = events.push(VisitorEvent::Requested);
    let joined = asked.push(VisitorEvent::Connected);
    let told = joined.push(VisitorEvent::CommandWritten);
    assert(asked.drop_last() =~= events);
    assert(joined.drop_last() =~= asked);
    assert(told.drop_last() =~= joined);
    assert(visitor_events_ok(pool, asked));
    assert(visitor_events_ok(pool, joined));
}

/// A direction that ends is marked so, in order or not. One that ends in order
/// leaves the other alone; one that breaks has the other broken off, unless it
/// has ended before. Forwarding has finished exactly when both have ended.
pub proof fn a_broken_direction_ends_both(s: ForwardState, in_order: bool)
    ensures
        ({
            let (t, step) = forward_step(s, ForwardEvent::LeftEnded(in_order));
            &&& t.left_done
            &&& !step.abort_left
            &&& in_order ==> t.right_done == s.right_done && !step.abort_right
            &&& !in_order ==> t.right_done && step.abort_right == !s.right_done
            &&& step.finished == t.right_done
            &&& t.idle_timeout == s.idle_timeout
        }),
        ({
            let (t, step) = forward_step(s, ForwardEvent::RightEnded(in_order));
            &&& t.right_done
            &&& !step.abort_right
            &&& in_order ==> t.left_done == s.left_done && !step.abort_left
            &&& !in_order ==> t.left_done && step.abort_left == !s.left_done
            &&& step.finished == t.left_done
            &&& t.idle_timeout == s.idle_timeout
        }),
{
}

/// Silence breaks a connection off exactly when the last byte lies as many
/// seconds back as are allowed: then whatever still runs is broken off, and
/// before that nothing is.
pub proof fn silence_ends_forwarding_after_the_timeout(s: ForwardState, now: u64, last: u64)
    requires
        last <= now,
        s.idle_timeout * 1000 <= u64::MAX,
    ensures
        ({
            let (t, step) = forward_step(s, ForwardEvent::Tick(now, last));
            let silent = now - last >= s.idle_timeout * 1000;
            &&& t == s
            &&& step.finished <==> silent || (s.left_done && s.right_done)
            &&& step.abort_left <==> silent && !s.left_done
            &&& step.abort_right <==> silent && !s.right_done
        }),
{
    crate::mux::a_second_is_a_thousand_milliseconds(s.idle_timeout);
}

} // verus!

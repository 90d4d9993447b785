use rathole::tcp_pool::{
    on_accept_event, on_copy_read, optional_secs, AcceptAction, AcceptEvent, CopyAction,
    ForwardEvent, ForwardStep, Forwarding, SendOutcome, TcpPool, VisitorAction, VisitorEvent,
};
use rathole::udp_pool::{UdpEvent, UdpPhase, UdpPool};

#[test]
fn visitors_are_let_in() {
    let plain = |event| on_accept_event(false, event);
    assert_eq!(plain(AcceptEvent::Accepted), AcceptAction::RequestChannel);
    assert_eq!(
        plain(AcceptEvent::Requested(SendOutcome::Sent)),
        AcceptAction::QueueVisitor
    );
    assert_eq!(
        plain(AcceptEvent::Requested(SendOutcome::Full)),
        AcceptAction::DropVisitor
    );
    assert_eq!(plain(AcceptEvent::Requested(SendOutcome::Closed)), AcceptAction::Stop);
    assert_eq!(plain(AcceptEvent::Queued(SendOutcome::Sent)), AcceptAction::Served);
    assert_eq!(plain(AcceptEvent::Queued(SendOutcome::Full)), AcceptAction::DropVisitor);
    assert_eq!(plain(AcceptEvent::Queued(SendOutcome::Closed)), AcceptAction::Stop);
    assert_eq!(plain(AcceptEvent::Failed(true)), AcceptAction::Delay);
    assert_eq!(plain(AcceptEvent::Failed(false)), AcceptAction::Wait);
    assert_eq!(plain(AcceptEvent::Shutdown), AcceptAction::Stop);
    assert_eq!(on_accept_event(true, AcceptEvent::Accepted), AcceptAction::QueueVisitor);
}

#[test]
fn visitor_with_a_data_channel() {
    let pool = TcpPool::new(false, 1, 0);
    assert_eq!(pool.wait_timeout, Some(1));
    assert_eq!(TcpPool::command(), vec![0, 0, 0, 0]);
    assert_eq!(pool.on_visitor_event(VisitorEvent::Arrived), VisitorAction::TakeChannel);
    assert_eq!(pool.on_visitor_event(VisitorEvent::Connected), VisitorAction::WriteCommand);
    // A broken data channel is replaced.
    assert_eq!(
        pool.on_visitor_event(VisitorEvent::CommandFailed),
        VisitorAction::RequestChannel
    );
    assert_eq!(pool.on_visitor_event(VisitorEvent::Requested), VisitorAction::TakeChannel);
    assert_eq!(
        pool.on_visitor_event(VisitorEvent::CommandWritten),
        VisitorAction::Forward(None)
    );
    assert_eq!(
        pool.on_visitor_event(VisitorEvent::WaitTimedOut),
        VisitorAction::CloseVisitor
    );
    assert_eq!(pool.on_visitor_event(VisitorEvent::ChannelsEnded), VisitorAction::StopPool);
    assert_eq!(pool.on_visitor_event(VisitorEvent::RequestFailed), VisitorAction::StopPool);
}

#[test]
fn visitor_with_a_stream() {
    let pool = TcpPool::new(true, 0, 360);
    assert_eq!(pool.wait_timeout, None);
    assert_eq!(pool.on_visitor_event(VisitorEvent::Arrived), VisitorAction::OpenStream);
    assert_eq!(
        pool.on_visitor_event(VisitorEvent::CommandWritten),
        VisitorAction::Forward(Some(360))
    );
    assert_eq!(
        pool.on_visitor_event(VisitorEvent::CommandFailed),
        VisitorAction::CloseVisitor
    );
    assert_eq!(
        pool.on_visitor_event(VisitorEvent::StreamFailed),
        VisitorAction::CloseVisitor
    );
    assert_eq!(optional_secs(0), None);
    assert_eq!(optional_secs(9), Some(9));
}

fn step(abort_left: bool, abort_right: bool, finished: bool) -> ForwardStep {
    ForwardStep {
        abort_left,
        abort_right,
        finished,
    }
}

#[test]
fn half_closed_connections() {
    let mut f = Forwarding::start(10);
    assert_eq!(f.on_event(ForwardEvent::LeftEnded(true)), step(false, false, false));
    assert!(f.left_done() && !f.right_done());
    assert_eq!(f.on_event(ForwardEvent::Tick(9_999, 0)), step(false, false, false));
    assert_eq!(f.on_event(ForwardEvent::RightEnded(true)), step(false, false, true));

    let mut f = Forwarding::start(10);
    assert_eq!(f.on_event(ForwardEvent::LeftEnded(true)), step(false, false, false));
    assert_eq!(f.on_event(ForwardEvent::Tick(10_000, 0)), step(false, true, true));
}

#[test]
fn broken_and_silent_connections() {
    let mut f = Forwarding::start(10);
    assert_eq!(f.on_event(ForwardEvent::LeftEnded(false)), step(false, true, true));
    let mut f = Forwarding::start(10);
    assert_eq!(f.on_event(ForwardEvent::RightEnded(false)), step(true, false, true));
    let mut f = Forwarding::start(10);
    assert_eq!(f.on_event(ForwardEvent::Tick(25_000, 15_001)), step(false, false, false));
    assert_eq!(f.on_event(ForwardEvent::Tick(25_001, 15_001)), step(true, true, true));
    // The last byte may be later than the tick.
    let mut f = Forwarding::start(10);
    assert_eq!(f.on_event(ForwardEvent::Tick(5, 10)), step(false, false, false));
    assert_eq!(on_copy_read(0), CopyAction::CloseWriter);
    assert_eq!(on_copy_read(7), CopyAction::Write(7));
}

#[test]
fn udp_pool_asks_for_nothing_at_the_start() {
    let mut pool = UdpPool::start();
    assert_eq!(pool.phase(), UdpPhase::AwaitChannel);
    assert!(!pool.retry_armed());
    assert_eq!(pool.on_event(UdpEvent::Shutdown), UdpPhase::Stopped);
    assert_eq!(UdpPool::command(), vec![1, 0, 0, 0]);
}

fn ready(now: u64) -> UdpPool {
    let mut pool = UdpPool::start();
    assert_eq!(pool.on_event(UdpEvent::ChannelArrived), UdpPhase::WriteCommand);
    assert_eq!(pool.on_event(UdpEvent::CommandWritten(now)), UdpPhase::AwaitTraffic);
    pool
}

#[test]
fn silent_udp_channel_is_replaced_and_the_clock_starts_again() {
    let mut pool = ready(1_000);
    assert_eq!(pool.on_event(UdpEvent::ReadTimedOut(301_000)), UdpPhase::AwaitTraffic);
    assert_eq!(pool.on_event(UdpEvent::ReadTimedOut(301_001)), UdpPhase::RequestChannel);
    assert_eq!(pool.on_event(UdpEvent::Requested(true)), UdpPhase::AwaitChannel);
    assert!(pool.retry_armed());
    assert_eq!(pool.on_event(UdpEvent::RetryDue), UdpPhase::RequestChannel);
    assert_eq!(pool.on_event(UdpEvent::Requested(false)), UdpPhase::AwaitChannel);
    assert!(!pool.retry_armed());
    assert_eq!(pool.on_event(UdpEvent::ChannelArrived), UdpPhase::WriteCommand);
    assert_eq!(pool.on_event(UdpEvent::CommandWritten(400_000)), UdpPhase::AwaitTraffic);
    assert_eq!(pool.on_event(UdpEvent::ReadTimedOut(500_000)), UdpPhase::AwaitTraffic);
}

#[test]
fn udp_traffic_in_both_directions() {
    let mut pool = ready(0);
    assert_eq!(pool.on_event(UdpEvent::Inbound(200_000)), UdpPhase::WriteTraffic);
    assert_eq!(pool.on_event(UdpEvent::PassedOn), UdpPhase::AwaitTraffic);
    assert_eq!(pool.on_event(UdpEvent::ReadTimedOut(500_000)), UdpPhase::AwaitTraffic);
    assert_eq!(pool.on_event(UdpEvent::HeaderRead), UdpPhase::ReadTraffic);
    assert_eq!(pool.on_event(UdpEvent::Outbound(600_000)), UdpPhase::SendTraffic);
    assert_eq!(pool.on_event(UdpEvent::PassedOn), UdpPhase::AwaitTraffic);
    assert_eq!(pool.on_event(UdpEvent::ReadTimedOut(900_000)), UdpPhase::AwaitTraffic);
    assert_eq!(pool.on_event(UdpEvent::SocketFailed), UdpPhase::AwaitTraffic);
    assert_eq!(pool.on_event(UdpEvent::Shutdown), UdpPhase::Stopped);
}

#[test]
fn broken_udp_channels_are_replaced() {
    let mut pool = UdpPool::start();
    pool.on_event(UdpEvent::ChannelArrived);
    assert_eq!(pool.on_event(UdpEvent::CommandFailed), UdpPhase::RequestChannel);
    assert_eq!(pool.on_event(UdpEvent::RequestFailed), UdpPhase::Stopped);

    let mut pool = ready(0);
    assert_eq!(pool.on_event(UdpEvent::ChannelFailed), UdpPhase::RequestChannel);
    let mut pool = ready(0);
    pool.on_event(UdpEvent::Inbound(1));
    assert_eq!(pool.on_event(UdpEvent::ChannelFailed), UdpPhase::RequestChannel);
    let mut pool = ready(0);
    pool.on_event(UdpEvent::HeaderRead);
    assert_eq!(pool.on_event(UdpEvent::ChannelFailed), UdpPhase::RequestChannel);

    let mut pool = UdpPool::start();
    assert_eq!(pool.on_event(UdpEvent::ChannelsEnded), UdpPhase::Stopped);
}

use rathole::config::{ClientServiceConfig, ConfigChange, ServerConfig, ServerServiceConfig};
use rathole::control::{
    after_write, plan_control_channel, plan_mux_pool, write_timeout_text, AfterWrite,
    ControlAction, ControlChannel, ControlEvent, WriteOutcome,
};
use rathole::handshake::{
    check_auth, check_timestamp, discard, ends_with_error, establish, find_service, greet,
    refusal_reply, refusal_text, route_data_channel, server_hello, ChannelRecord, ControlChannelMap,
    ControlHandshake, DataRoute, Greeting, Refusal,
};
use rathole::multi_map::MultiMap;
use rathole::protocol::{
    decode_hello, derive_session_key, digest, encode_ack, Ack, ControlChannelCmd,
    DataChannelMode, DataChannelRequest, Hello, ServiceType, PROTO_V1, PROTO_V2, PROTO_V3,
};
use rathole::server::{
    generate_service_hashmap, handle_hot_reload, handshake_limit, HandshakeRoom, Reloaded,
    ServerAction, ServerEvent, ServerLoop, ServiceMap,
};
use std::sync::Arc;

fn service(name: &str, token: Option<&str>) -> Arc<ServerServiceConfig> {
    let mut s = ServerServiceConfig::with_name(name);
    s.token = token.map(|t| t.to_string());
    Arc::new(s)
}

fn services() -> ServiceMap {
    generate_service_hashmap(&ServerConfig {
        bind_addr: "127.0.0.1:0".to_string(),
        services: vec![
            ("web".to_string(), service("web", Some("secret"))),
            ("open".to_string(), service("open", None)),
        ],
        heartbeat_interval: 30,
        data_channel_wait_timeout: 10,
        max_inflight_handshakes: 0,
    })
}

fn record(timestamp: u64, service_type: ServiceType, mux: bool) -> ChannelRecord<u32> {
    ChannelRecord {
        timestamp,
        service_type,
        mux,
        handle: timestamp as u32,
    }
}

#[test]
fn services_are_found_by_the_digest_of_their_name() {
    let map = services();
    assert_eq!(map.len(), 2);
    assert_eq!(map.get(&digest(b"web")).unwrap().name, "web");
    assert!(map.get(&digest(b"nothing")).is_none());
    let usual = map.get(&digest(b"open")).unwrap();
    assert_eq!(usual.mux_pool_size, 4);
    assert_eq!(usual.mux_max_streams, 256);
    assert_eq!(usual.mux_idle_timeout, 300);
    assert_eq!(usual.stream_idle_timeout, 360);
}

#[test]
fn hellos_are_sorted() {
    let d = [3u8; 32];
    for v in [PROTO_V2, PROTO_V3] {
        assert!(matches!(
            greet(Hello::ControlChannelHello(v, d)),
            Greeting::ControlChannel(w, e) if w == v && e == d
        ));
    }
    assert!(matches!(
        greet(Hello::DataChannelHello(PROTO_V3, d)),
        Greeting::ModalDataChannel(e) if e == d
    ));
    assert!(matches!(
        greet(Hello::DataChannelHello(PROTO_V2, d)),
        Greeting::PlainDataChannel(e) if e == d
    ));
    for v in [0, PROTO_V1, 4] {
        assert!(matches!(
            greet(Hello::ControlChannelHello(v, d)),
            Greeting::UnknownVersion(w) if w == v
        ));
        assert!(matches!(
            greet(Hello::DataChannelHello(v, d)),
            Greeting::UnknownVersion(w) if w == v
        ));
    }
}

#[test]
fn server_answers_in_the_version_of_the_client() {
    let nonce = [8u8; 32];
    let (_, hello) = ControlHandshake::begin_with(PROTO_V2, digest(b"web"), 1, nonce);
    assert_eq!(hello, server_hello(PROTO_V2, nonce));
    assert!(matches!(
        decode_hello(&hello),
        Some(Hello::ControlChannelHello(PROTO_V2, n)) if n == nonce
    ));
    let (_, one) = ControlHandshake::begin(PROTO_V3, digest(b"web"), 1);
    let (_, two) = ControlHandshake::begin(PROTO_V3, digest(b"web"), 1);
    assert_ne!(one, two);
}

#[test]
fn whole_handshakes() {
    let map = services();
    let mut channels: ControlChannelMap<u32> = MultiMap::new();
    let nonce = [8u8; 32];
    let right = derive_session_key("secret", &nonce);

    let (mut hs, _) = ControlHandshake::begin_with(PROTO_V3, digest(b"web"), 50, nonce);
    assert!(hs.service().is_none());
    assert!(hs.look_up(&map).is_ok());
    assert_eq!(hs.service().unwrap().name, "web");
    assert_eq!(hs.judge(&right, &channels).unwrap(), right);
    assert!(matches!(
        hs.judge(&[0; 32], &channels),
        Err(Refusal::WrongAuth(name)) if name == "web"
    ));
    establish(&mut channels, digest(b"web"), [1; 32], record(51, ServiceType::Tcp, true));
    assert!(matches!(hs.judge(&right, &channels), Err(Refusal::Stale)));

    let (mut hs, _) = ControlHandshake::begin_with(PROTO_V3, digest(b"none"), 50, nonce);
    assert!(matches!(hs.look_up(&map), Err(Refusal::UnknownService(_))));
    let (mut hs, _) = ControlHandshake::begin_with(PROTO_V3, digest(b"open"), 50, nonce);
    assert!(matches!(hs.look_up(&map), Err(Refusal::NoToken(name)) if name == "open"));
}

#[test]
fn refusals_are_told() {
    let name = || "web".to_string();
    assert_eq!(refusal_text(&Refusal::UnknownService("ba78".to_string())), "未找到服务: ba78");
    assert_eq!(refusal_text(&Refusal::NoToken(name())), "服务 web 未配置token");
    assert_eq!(refusal_text(&Refusal::WrongAuth(name())), "服务 web 认证失败");
    assert_eq!(refusal_text(&Refusal::Stale), "拒绝连接: 已有更新的客户端");
}

#[test]
fn slow_writes_are_told() {
    assert_eq!(write_timeout_text(ControlChannelCmd::HeartBeat), "写入心跳超时");
    for cmd in [ControlChannelCmd::CreateDataChannel, ControlChannelCmd::CreateDataMux] {
        assert_eq!(write_timeout_text(cmd), "写入 创建数据通道 超时");
    }
}

#[test]
fn unknown_services_are_refused() {
    // The digest of "abc", in hexadecimal.
    match find_service(&services(), &digest(b"abc")) {
        Err(refusal) => {
            assert_eq!(refusal_reply(&refusal), encode_ack(Ack::ServiceNotExist));
            assert!(ends_with_error(&refusal));
            assert!(matches!(
                refusal,
                Refusal::UnknownService(text)
                    if text == "ba7816bf8f01cfea414140de5dae2223b00361a396177a9cb410ff61f20015ad"
            ));
        }
        Ok(_) => panic!("there is no such service"),
    }
}

#[test]
fn services_without_a_token_are_refused() {
    match find_service(&services(), &digest(b"open")) {
        Err(refusal) => {
            assert_eq!(refusal_reply(&refusal), encode_ack(Ack::AuthFailed));
            assert!(ends_with_error(&refusal));
            assert!(matches!(refusal, Refusal::NoToken(name) if name == "open"));
        }
        Ok(_) => panic!("the service has no token"),
    }
}

#[test]
fn authentication_takes_the_token() {
    let web = find_service(&services(), &digest(b"web")).unwrap();
    let nonce = [5u8; 32];
    let right = derive_session_key("secret", &nonce);
    assert_eq!(check_auth(&web, &nonce, &right).unwrap(), right);

    let wrong = derive_session_key("guess", &nonce);
    let refusal = check_auth(&web, &nonce, &wrong).unwrap_err();
    assert!(ends_with_error(&refusal));
    assert_eq!(refusal_reply(&refusal), encode_ack(Ack::AuthFailed));
    assert!(matches!(refusal, Refusal::WrongAuth(name) if name == "web"));
    // The answer to another nonce is of no use.
    assert!(check_auth(&web, &[6u8; 32], &right).is_err());
    assert!(check_auth(&service("open", None), &nonce, &right).is_err());
}

#[test]
fn older_clients_do_not_displace_newer_ones() {
    let mut map: ControlChannelMap<u32> = MultiMap::new();
    let d = digest(b"web");
    assert!(check_timestamp(&map, &d, 0).is_ok());
    establish(&mut map, d, [1; 32], record(100, ServiceType::Tcp, false));
    let refusal = check_timestamp(&map, &d, 99).unwrap_err();
    assert_eq!(refusal_reply(&refusal), encode_ack(Ack::AuthFailed));
    assert!(matches!(refusal, Refusal::Stale));
    assert!(!ends_with_error(&refusal));
    assert!(check_timestamp(&map, &d, 100).is_ok());
    assert!(check_timestamp(&map, &d, 101).is_ok());
    assert!(check_timestamp(&map, &digest(b"other"), 0).is_ok());
}

#[test]
fn new_channels_take_the_place_of_old_ones() {
    let mut map: ControlChannelMap<u32> = MultiMap::new();
    let web = digest(b"web");
    let first = establish(&mut map, web, [1; 32], record(1, ServiceType::Tcp, false));
    assert!(first.replaced.is_none() && first.rejected.is_none());
    let second = establish(&mut map, web, [2; 32], record(2, ServiceType::Tcp, false));
    assert_eq!(second.replaced.unwrap().handle, 1);
    assert!(second.rejected.is_none());
    assert_eq!(map.len(), 1);
    assert_eq!(map.get2(&[2; 32]).unwrap().handle, 2);
    assert!(map.get2(&[1; 32]).is_none());

    // Cleaning up after the first leaves the second alone.
    assert!(discard(&mut map, &[1; 32]).is_none());
    assert_eq!(map.get1(&web).unwrap().handle, 2);
    assert_eq!(discard(&mut map, &[2; 32]).unwrap().handle, 2);
    assert_eq!(map.len(), 0);
}

#[test]
fn clashing_session_keys() {
    let mut map: ControlChannelMap<u32> = MultiMap::new();
    establish(&mut map, [1; 32], [9; 32], record(1, ServiceType::Tcp, false));
    // Another service with the same key takes the place.
    let out = establish(&mut map, [2; 32], [9; 32], record(2, ServiceType::Tcp, false));
    assert_eq!(out.replaced.unwrap().handle, 1);
    assert_eq!(map.len(), 1);
    // A service that has a channel gives that up first, and then finds the key
    // in use.
    establish(&mut map, [3; 32], [8; 32], record(3, ServiceType::Tcp, false));
    let out = establish(&mut map, [3; 32], [9; 32], record(4, ServiceType::Tcp, false));
    assert_eq!(out.replaced.unwrap().handle, 3);
    assert_eq!(out.rejected.unwrap().handle, 4);
    assert_eq!(map.len(), 1);
}

#[test]
fn data_channels_are_routed() {
    let mut map: ControlChannelMap<u32> = MultiMap::new();
    establish(&mut map, [1; 32], [11; 32], record(1, ServiceType::Tcp, true));
    establish(&mut map, [2; 32], [12; 32], record(2, ServiceType::Udp, false));
    establish(&mut map, [3; 32], [13; 32], record(3, ServiceType::Tcp, false));
    let plain = Some(DataChannelMode::Plain);
    let mux = Some(DataChannelMode::Mux);
    assert_eq!(route_data_channel(&map, &[11; 32], mux), DataRoute::ToMux);
    assert_eq!(route_data_channel(&map, &[11; 32], plain), DataRoute::PlainRefused);
    assert_eq!(route_data_channel(&map, &[11; 32], None), DataRoute::ToPool);
    assert_eq!(route_data_channel(&map, &[12; 32], plain), DataRoute::ToPool);
    assert_eq!(route_data_channel(&map, &[12; 32], mux), DataRoute::MuxDisabled);
    assert_eq!(route_data_channel(&map, &[13; 32], mux), DataRoute::MuxDisabled);
    for mode in [None, plain, mux] {
        assert_eq!(route_data_channel(&map, &[14; 32], mode), DataRoute::UnknownSession);
    }
}

#[test]
fn configuration_changes_are_taken() {
    let mut map = services();
    let mut channels: MultiMap<u32> = MultiMap::new();
    let web = digest(b"web");
    assert!(channels.insert(web, [1; 32], 7).is_ok());
    assert!(matches!(
        handle_hot_reload(
            &mut map,
            &mut channels,
            ConfigChange::AddServerService(service("web", Some("new")))
        ),
        Reloaded::Done(Some(7))
    ));
    assert_eq!(map.get(&web).unwrap().token.as_deref(), Some("new"));
    assert_eq!(channels.len(), 0);

    assert!(matches!(
        handle_hot_reload(
            &mut map,
            &mut channels,
            ConfigChange::DeleteServerService("web".to_string())
        ),
        Reloaded::Done(None)
    ));
    assert!(map.get(&web).is_none());
    assert!(matches!(find_service(&map, &web), Err(Refusal::UnknownService(_))));

    let for_client = ConfigChange::AddClientService(Arc::new(ClientServiceConfig {
        name: "web".to_string(),
        local_addr: "127.0.0.1:0".to_string(),
        service_type: ServiceType::Tcp,
        token: None,
        mux_max_pool: 1,
        nodelay: None,
    }));
    assert!(matches!(
        handle_hot_reload(&mut map, &mut channels, for_client),
        Reloaded::Ignored
    ));
    assert!(matches!(
        handle_hot_reload(
            &mut map,
            &mut channels,
            ConfigChange::DeleteClientService("open".to_string())
        ),
        Reloaded::Ignored
    ));
    assert_eq!(map.len(), 1);
}

#[test]
fn main_loop_of_a_server() {
    assert_eq!(handshake_limit(0), None);
    assert_eq!(handshake_limit(5), Some(5));
    let mut l = ServerLoop::start();
    assert!(l.update_enabled());
    assert_eq!(l.on_event(ServerEvent::AcceptIoError(true)), ServerAction::Delay);
    assert_eq!(l.on_event(ServerEvent::AcceptIoError(false)), ServerAction::Stop);
    assert_eq!(l.on_event(ServerEvent::AcceptTransportError), ServerAction::Continue);
    for room in [HandshakeRoom::Unlimited, HandshakeRoom::Taken] {
        assert_eq!(l.on_event(ServerEvent::Accepted(room)), ServerAction::StartHandshake);
    }
    assert_eq!(
        l.on_event(ServerEvent::Accepted(HandshakeRoom::Full)),
        ServerAction::RefuseConnection
    );
    assert_eq!(l.on_event(ServerEvent::HandshakeEnded), ServerAction::Continue);
    assert_eq!(l.on_event(ServerEvent::Update), ServerAction::Reload);
    assert!(l.update_enabled());
    assert_eq!(l.on_event(ServerEvent::UpdatesEnded), ServerAction::Continue);
    assert!(!l.update_enabled());
    assert_eq!(l.on_event(ServerEvent::Shutdown), ServerAction::Stop);
}

fn udp(name: &str) -> ServerServiceConfig {
    let mut s = ServerServiceConfig::with_name(name);
    s.service_type = ServiceType::Udp;
    s
}

#[test]
fn control_channels_are_planned() {
    let mut tcp = ServerServiceConfig::with_name("t");
    tcp.mux_pool_size = 6;
    tcp.mux_max_streams = 9;
    tcp.mux_idle_timeout = 20;

    let plan = plan_control_channel(&tcp, PROTO_V3);
    assert!(plan.mux_enabled);
    assert_eq!(plan.pool_size, 6);
    assert_eq!(plan.data_channel_queue, 4096);
    assert_eq!(plan.request_queue, 1024);
    let pool = plan_mux_pool(&tcp, PROTO_V3).unwrap();
    assert_eq!(pool.max_streams(), 9);
    assert_eq!(pool.idle_timeout(), Some(20));

    let plan = plan_control_channel(&tcp, PROTO_V2);
    assert!(!plan.mux_enabled);
    assert_eq!(plan.pool_size, 8);
    assert!(plan_mux_pool(&tcp, PROTO_V2).is_none());

    let plan = plan_control_channel(&udp("u"), PROTO_V3);
    assert!(!plan.mux_enabled);
    assert_eq!(plan.pool_size, 2);
    assert!(plan_mux_pool(&udp("u"), PROTO_V3).is_none());
}

fn written(action: ControlAction) -> (ControlChannelCmd, Vec<u8>, bool) {
    match action {
        ControlAction::Write(cmd, bytes, counts) => (cmd, bytes, counts),
        other => panic!("{:?}", other),
    }
}

#[test]
fn version_three_multiplexes() {
    let tcp = ServerServiceConfig::with_name("t");
    let plan = plan_control_channel(&tcp, PROTO_V3);
    let (channel, accepted) = ControlChannel::open(&plan, PROTO_V3, 30);
    assert_eq!(accepted, encode_ack(Ack::Accepted));
    assert_eq!(channel.first_requests(), vec![DataChannelRequest::Mux]);
    assert_eq!(channel.heartbeat_after(), Some(30));
    let mux = ControlEvent::Request(DataChannelRequest::Mux);
    assert_eq!(
        written(channel.on_event(mux, 0)),
        (ControlChannelCmd::CreateDataMux, vec![1, 0, 0, 0], true)
    );
    assert!(matches!(channel.on_event(mux, 1), ControlAction::Skip));
    assert_eq!(
        written(channel.on_event(ControlEvent::Request(DataChannelRequest::Plain), 1)),
        (ControlChannelCmd::CreateDataChannel, vec![0, 0, 0, 0], false)
    );
    assert_eq!(
        written(channel.on_event(ControlEvent::HeartbeatDue, 1)),
        (ControlChannelCmd::HeartBeat, vec![2, 0, 0, 0], false)
    );
    assert!(matches!(channel.on_event(ControlEvent::Shutdown, 0), ControlAction::Stop));
    assert!(matches!(channel.on_event(ControlEvent::RequestsEnded, 0), ControlAction::Stop));
}

#[test]
fn version_two_does_not_multiplex() {
    let tcp = ServerServiceConfig::with_name("t");
    let plan = plan_control_channel(&tcp, PROTO_V2);
    let (channel, _) = ControlChannel::open(&plan, PROTO_V2, 0);
    assert_eq!(channel.first_requests(), vec![DataChannelRequest::Plain; 8]);
    assert_eq!(channel.heartbeat_after(), None);
    assert_eq!(
        written(channel.on_event(ControlEvent::Request(DataChannelRequest::Mux), 1)),
        (ControlChannelCmd::CreateDataChannel, vec![0, 0, 0, 0], false)
    );
    assert_eq!(
        written(channel.on_event(ControlEvent::HeartbeatDue, 0)),
        (ControlChannelCmd::HeartBeat, vec![1, 0, 0, 0], false)
    );
    let plan = plan_control_channel(&udp("u"), PROTO_V3);
    let (channel, _) = ControlChannel::open(&plan, PROTO_V3, 0);
    assert_eq!(channel.first_requests(), vec![DataChannelRequest::Plain; 2]);
}

#[test]
fn writes_are_followed_up() {
    assert_eq!(after_write(WriteOutcome::Written, false), AfterWrite::Continue);
    assert_eq!(after_write(WriteOutcome::Written, true), AfterWrite::CountRequest);
    for outcome in [WriteOutcome::Failed, WriteOutcome::TimedOut] {
        assert_eq!(after_write(outcome, true), AfterWrite::Fail);
        assert_eq!(after_write(outcome, false), AfterWrite::Fail);
    }
}

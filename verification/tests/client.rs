use rathole::client::{
    after_control_run, client_error_text, client_hot_reload, ensure_data_channel_handler, may_open_data_channel,
    on_ack, on_channel_event, on_server_hello, open_control_channel, open_data_channel,
    route_data_cmd, route_mux_stream, tcp_handler_of, udp_handler_of, ChannelAction, ChannelEvent,
    ClientError, ClientReload, ControlDialog, Forward, MuxSlots, RetryAction,
};
use rathole::config::{ClientServiceConfig, ConfigChange, ServerServiceConfig};
use rathole::constants::{
    data_channel_backoff, listen_backoff, request_backoff, run_control_chan_backoff,
    UDP_BUFFER_SIZE, UDP_SENDQ_SIZE, UDP_TIMEOUT,
};
use rathole::handshake::check_auth;
use rathole::protocol::{
    decode_hello, derive_session_key, digest, Ack, ControlChannelCmd, DataChannelCmd, DataChannelMode, Hello,
    MuxRespKind, ServiceType, PROTO_V2, PROTO_V3,
};
use rathole::registry::Registry;
use std::sync::Arc;

fn service(service_type: ServiceType) -> ClientServiceConfig {
    ClientServiceConfig {
        name: "svc".to_string(),
        local_addr: "127.0.0.1:0".to_string(),
        service_type,
        token: Some("secret".to_string()),
        mux_max_pool: 2,
        nodelay: None,
    }
}

#[test]
fn control_channel_opens_with_hello_and_timestamp() {
    let d = digest(b"svc");
    let bytes = open_control_channel(&d, 0x0102_0304);
    assert_eq!(bytes.len(), 45);
    assert!(matches!(
        decode_hello(&bytes),
        Some(Hello::ControlChannelHello(PROTO_V3, e)) if e == d
    ));
    assert_eq!(bytes[37..], [4, 3, 2, 1, 0, 0, 0, 0]);
}

#[test]
fn data_channel_opens_with_hello_and_mode() {
    let key = [7u8; 32];
    for (mode, byte) in [(DataChannelMode::Plain, 0), (DataChannelMode::Mux, 1)] {
        let bytes = open_data_channel(&key, mode);
        assert_eq!(bytes.len(), 38);
        assert!(matches!(
            decode_hello(&bytes),
            Some(Hello::DataChannelHello(PROTO_V3, k)) if k == key
        ));
        assert_eq!(bytes[37], byte);
    }
}

#[test]
fn server_accepts_what_the_client_sends() {
    let mut server = ServerServiceConfig::with_name("svc");
    server.token = Some("secret".to_string());
    let nonce = [9u8; 32];
    let (key, auth) = on_server_hello(
        &service(ServiceType::Tcp),
        Hello::ControlChannelHello(PROTO_V3, nonce),
    )
    .unwrap();
    assert_eq!(auth, key.to_vec());
    assert_eq!(check_auth(&server, &nonce, &key).unwrap(), key);
}

#[test]
fn dialogs_with_a_server() {
    let svc = Arc::new(service(ServiceType::Tcp));
    let (mut dialog, opening) = ControlDialog::start(Arc::clone(&svc), 77);
    assert_eq!(opening, open_control_channel(&digest(b"svc"), 77));
    let nonce = [9u8; 32];
    let key = derive_session_key("secret", &nonce);
    let auth = dialog
        .on_hello(Hello::ControlChannelHello(PROTO_V3, nonce))
        .unwrap();
    assert_eq!(auth, key.to_vec());
    assert_eq!(dialog.on_ack(Ack::Accepted).unwrap(), key);

    let (mut dialog, _) = ControlDialog::start(Arc::clone(&svc), 77);
    assert!(matches!(
        dialog.on_hello(Hello::ControlChannelHello(PROTO_V2, nonce)),
        Err(ClientError::VersionMismatch(PROTO_V2))
    ));
    let (mut dialog, _) = ControlDialog::start(svc, 77);
    assert!(dialog.on_hello(Hello::ControlChannelHello(PROTO_V3, nonce)).is_ok());
    assert!(matches!(
        dialog.on_ack(Ack::AuthFailed),
        Err(ClientError::AuthenticationFailed(Ack::AuthFailed))
    ));
}

#[test]
fn unexpected_hellos_end_the_channel() {
    let svc = service(ServiceType::Tcp);
    assert!(matches!(
        on_server_hello(&svc, Hello::DataChannelHello(PROTO_V3, [0; 32])),
        Err(ClientError::UnexpectedHello)
    ));
    assert!(matches!(
        on_server_hello(&svc, Hello::ControlChannelHello(PROTO_V2, [0; 32])),
        Err(ClientError::VersionMismatch(PROTO_V2))
    ));
}

#[test]
fn answers_to_the_authentication() {
    assert!(on_ack(Ack::Accepted).is_ok());
    assert!(matches!(
        on_ack(Ack::RejectedDueToTimestamp),
        Err(ClientError::RejectedDueToTimestamp)
    ));
    for ack in [Ack::ServiceNotExist, Ack::AuthFailed] {
        assert!(matches!(
            on_ack(ack),
            Err(ClientError::AuthenticationFailed(a)) if a == ack
        ));
    }
}

#[test]
fn data_channels_go_to_the_right_handler() {
    let (tcp, udp) = (ServiceType::Tcp, ServiceType::Udp);
    let (fwd_tcp, fwd_udp) = (DataChannelCmd::StartForwardTcp, DataChannelCmd::StartForwardUdp);
    assert_eq!(route_data_cmd(fwd_tcp, tcp).unwrap(), Forward::Tcp);
    assert_eq!(route_data_cmd(fwd_udp, udp).unwrap(), Forward::Udp);
    assert!(matches!(route_data_cmd(fwd_tcp, udp), Err(ClientError::ExpectTcp)));
    assert!(matches!(route_data_cmd(fwd_udp, tcp), Err(ClientError::ExpectUdp)));
    assert_eq!(route_mux_stream(fwd_tcp, tcp).unwrap(), Forward::Tcp);
    assert!(matches!(route_mux_stream(fwd_tcp, udp), Err(ClientError::ExpectTcp)));
    assert_eq!(route_mux_stream(fwd_udp, tcp).unwrap(), Forward::RefuseUdp);
    assert_eq!(route_mux_stream(fwd_udp, udp).unwrap(), Forward::RefuseUdp);
}

#[test]
fn missing_handlers_fail_fast() {
    let mut tcp: Registry<String, Arc<u8>> = Registry::new();
    let mut udp: Registry<String, Arc<u8>> = Registry::new();
    assert!(matches!(
        ensure_data_channel_handler(&service(ServiceType::Tcp), &tcp, &udp),
        Err(ClientError::MissingTcpHandler)
    ));
    assert!(matches!(
        ensure_data_channel_handler(&service(ServiceType::Udp), &tcp, &udp),
        Err(ClientError::MissingUdpHandler)
    ));
    tcp.insert("svc".to_string(), Arc::new(1));
    assert!(ensure_data_channel_handler(&service(ServiceType::Tcp), &tcp, &udp).is_ok());
    assert!(ensure_data_channel_handler(&service(ServiceType::Udp), &tcp, &udp).is_err());
    udp.insert("svc".to_string(), Arc::new(1));
    assert!(ensure_data_channel_handler(&service(ServiceType::Udp), &tcp, &udp).is_ok());
}

#[test]
fn tcp_handler_missing_fast_fail() {
    let svc = ClientServiceConfig {
        name: "test_tcp_handler_missing_fast_fail".to_string(),
        ..service(ServiceType::Tcp)
    };
    let tcp: Registry<String, Arc<u8>> = Registry::new();
    let err = tcp_handler_of(&svc, &tcp).unwrap_err();
    let text = client_error_text(&err, &svc.name);
    assert!(text.contains("未注册 TCP 直连处理器"), "unexpected error: {}", text);
    assert_eq!(text, "未注册 TCP 直连处理器: test_tcp_handler_missing_fast_fail");
}

#[test]
fn udp_handler_missing_fast_fail() {
    let svc = ClientServiceConfig {
        name: "test_udp_handler_missing_fast_fail".to_string(),
        ..service(ServiceType::Udp)
    };
    let udp: Registry<String, Arc<u8>> = Registry::new();
    let err = udp_handler_of(&svc, &udp).unwrap_err();
    let text = client_error_text(&err, &svc.name);
    assert!(text.contains("未注册 UDP 直连处理器"), "unexpected error: {}", text);
    assert_eq!(text, "未注册 UDP 直连处理器: test_udp_handler_missing_fast_fail");
}

#[test]
fn errors_are_told() {
    for (e, text) in [
        (ClientError::UnexpectedHello, "Unexpected type of hello"),
        (ClientError::VersionMismatch(12), "Protocol version mismatched: 12"),
        (ClientError::RejectedDueToTimestamp, "认证失败(时间戳过旧): svc"),
        (ClientError::AuthenticationFailed(Ack::AuthFailed), "Authentication failed: svc"),
        (ClientError::MissingTcpHandler, "未注册 TCP 直连处理器: svc"),
        (ClientError::MissingUdpHandler, "未注册 UDP 直连处理器: svc"),
        (ClientError::MuxNeedsTcp, "mux 仅支持 TCP 服务: svc"),
        (ClientError::CommandsEnded, "控制指令通道已关闭"),
        (ClientError::HeartbeatTimeout, "Heartbeat timed out"),
        (ClientError::ExpectTcp, "Expect TCP traffic. Please check the configuration."),
        (ClientError::ExpectUdp, "Expect UDP traffic. Please check the configuration."),
    ] {
        assert_eq!(client_error_text(&e, "svc"), text);
    }
}

#[test]
fn channels_go_to_the_handler_of_their_service() {
    let svc = service(ServiceType::Tcp);
    let mut tcp: Registry<String, Arc<u8>> = Registry::new();
    let mut udp: Registry<String, Arc<u8>> = Registry::new();
    tcp.insert("other".to_string(), Arc::new(9));
    assert!(matches!(tcp_handler_of(&svc, &tcp), Err(ClientError::MissingTcpHandler)));
    assert!(matches!(udp_handler_of(&svc, &udp), Err(ClientError::MissingUdpHandler)));
    tcp.insert("svc".to_string(), Arc::new(1));
    udp.insert("svc".to_string(), Arc::new(2));
    assert_eq!(*tcp_handler_of(&svc, &tcp).unwrap(), 1);
    assert_eq!(*udp_handler_of(&svc, &udp).unwrap(), 2);
}

#[test]
fn commands_of_the_server() {
    let none: Registry<String, Arc<u8>> = Registry::new();
    let mut some: Registry<String, Arc<u8>> = Registry::new();
    some.insert("svc".to_string(), Arc::new(1));
    let tcp = service(ServiceType::Tcp);
    let udp = service(ServiceType::Udp);
    let create = ChannelEvent::Command(ControlChannelCmd::CreateDataChannel);
    let mux = ChannelEvent::Command(ControlChannelCmd::CreateDataMux);
    let beat = ChannelEvent::Command(ControlChannelCmd::HeartBeat);
    assert!(matches!(
        on_channel_event(&tcp, &some, &none, create),
        ChannelAction::OpenDataChannel
    ));
    assert!(matches!(
        on_channel_event(&tcp, &none, &some, create),
        ChannelAction::Fail(ClientError::MissingTcpHandler)
    ));
    assert!(matches!(on_channel_event(&tcp, &some, &none, mux), ChannelAction::OpenMux));
    assert!(matches!(
        on_channel_event(&tcp, &none, &none, mux),
        ChannelAction::Fail(ClientError::MissingTcpHandler)
    ));
    assert!(matches!(
        on_channel_event(&udp, &some, &some, mux),
        ChannelAction::Fail(ClientError::MuxNeedsTcp)
    ));
    assert!(matches!(
        on_channel_event(&udp, &none, &some, create),
        ChannelAction::OpenDataChannel
    ));
    assert!(matches!(on_channel_event(&udp, &none, &none, beat), ChannelAction::Nothing));
    assert!(matches!(
        on_channel_event(&tcp, &none, &none, ChannelEvent::CommandsEnded),
        ChannelAction::Fail(ClientError::CommandsEnded)
    ));
    assert!(matches!(
        on_channel_event(&tcp, &none, &none, ChannelEvent::HeartbeatTimeout),
        ChannelAction::Fail(ClientError::HeartbeatTimeout)
    ));
    assert!(matches!(
        on_channel_event(&tcp, &none, &none, ChannelEvent::Shutdown),
        ChannelAction::Stop
    ));
    assert!(may_open_data_channel(false, false));
    assert!(may_open_data_channel(true, true));
    assert!(!may_open_data_channel(true, false));
}

#[test]
fn multiplexed_connections_are_bounded() {
    let mut slots = MuxSlots::new(2);
    assert!(slots.take().is_ok());
    let resp = slots.on_connected();
    assert_eq!((resp.kind, resp.max_pool, resp.active), (MuxRespKind::Accepted, 2, 1));
    assert!(slots.take().is_ok());
    let resp = slots.take().unwrap_err();
    assert_eq!((resp.kind, resp.max_pool, resp.active), (MuxRespKind::Rejected, 2, 2));
    let resp = slots.on_failed();
    assert_eq!((resp.kind, resp.max_pool, resp.active), (MuxRespKind::Failed, 2, 1));
    slots.release();
    assert_eq!(slots.active(), 0);
    let resp = MuxSlots::new(0).take().unwrap_err();
    assert_eq!((resp.kind, resp.max_pool, resp.active), (MuxRespKind::Rejected, 0, 0));
    assert_eq!(MuxSlots::new(70_000).on_connected().max_pool, u16::MAX);
}

#[test]
fn control_channels_are_run_again() {
    assert_eq!(after_control_run(true, false, 0), RetryAction::End);
    assert_eq!(after_control_run(false, true, 0), RetryAction::End);
    assert_eq!(after_control_run(false, false, 10_000), RetryAction::Retry);
    assert_eq!(after_control_run(false, false, 10_001), RetryAction::RetryAfresh);
}

#[test]
fn client_takes_its_own_changes() {
    let svc = Arc::new(service(ServiceType::Tcp));
    assert!(matches!(
        client_hot_reload(ConfigChange::AddClientService(svc)),
        ClientReload::Start(s) if s.name == "svc"
    ));
    assert!(matches!(
        client_hot_reload(ConfigChange::DeleteClientService("svc".to_string())),
        ClientReload::Drop(name) if name == "svc"
    ));
    assert!(matches!(
        client_hot_reload(ConfigChange::DeleteServerService("svc".to_string())),
        ClientReload::Ignored
    ));
    let server = Arc::new(ServerServiceConfig::with_name("svc"));
    assert!(matches!(
        client_hot_reload(ConfigChange::AddServerService(server)),
        ClientReload::Ignored
    ));
}

#[test]
fn waits_between_attempts() {
    let p = listen_backoff();
    assert_eq!((p.factor_percent, p.min_delay_ms), (150, 500));
    assert_eq!((p.max_delay_secs, p.max_delay_ms, p.total_delay_ms), (1, 0, None));
    let p = run_control_chan_backoff(60);
    assert_eq!((p.factor_percent, p.min_delay_ms), (300, 500));
    assert_eq!((p.max_delay_secs, p.max_delay_ms, p.total_delay_ms), (60, 0, None));
    let p = request_backoff();
    assert_eq!((p.factor_percent, p.min_delay_ms), (150, 100));
    assert_eq!((p.max_delay_secs, p.max_delay_ms, p.total_delay_ms), (5, 0, None));
    let p = data_channel_backoff();
    assert_eq!((p.factor_percent, p.min_delay_ms), (200, 100));
    assert_eq!((p.max_delay_secs, p.max_delay_ms, p.total_delay_ms), (0, 100, Some(10_000)));
    assert_eq!(UDP_BUFFER_SIZE, 65_536);
    assert_eq!(UDP_SENDQ_SIZE, 1024);
    assert_eq!(UDP_TIMEOUT, 60);
}

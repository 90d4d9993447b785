use rathole::dns_probe::{
    build_dns_query, build_socks5_udp_packet, check_dns_reply, dns_error_text,
    dns_probe_packet, dns_target, new_dns_probe, parse_socks5_udp_payload, DnsProbeError, DnsServer,
};
use rathole::health::{
    no_target_text, HealthProbeConfig, ProbeAction, ProbeTask, ScanStep, TargetScan,
};
use rathole::http_probe::{
    answer_first_line, build_http_request, build_socks5_connect, http_error_text,
    http_error_text_with_line, is_good_status, HttpProbe, HttpProbeAction, HttpProbeError,
};
use rathole::protocol::ServiceType;
use rathole::text::{decimal_text, hex_byte_text, version_mismatch_text};

fn exchange(action: HttpProbeAction) -> (Vec<u8>, usize) {
    match action {
        HttpProbeAction::Exchange(bytes, n) => (bytes, n),
        other => panic!("{:?}", other),
    }
}

fn at_answer(reply_kind: u8) -> HttpProbe {
    let (mut probe, _) = HttpProbe::start("h.example");
    let _ = probe.on_reply(&[5, 0]);
    let _ = probe.on_reply(&[5, 0, 0, reply_kind]);
    if reply_kind == 3 {
        let _ = probe.on_reply(&[2]);
        let _ = probe.on_reply(&[0; 4]);
    } else if reply_kind == 1 {
        let _ = probe.on_reply(&[0; 6]);
    } else {
        let _ = probe.on_reply(&[0; 18]);
    }
    probe
}

#[test]
fn http_probe_goes_through_the_proxy() {
    let (mut probe, first) = HttpProbe::start("ab.c");
    assert_eq!(exchange(first), (vec![5, 1, 0], 2));
    let (connect, n) = exchange(probe.on_reply(&[5, 0]));
    assert_eq!(connect, b"\x05\x01\x00\x03\x04ab.c\x00\x50".to_vec());
    assert_eq!(n, 4);
    assert_eq!(exchange(probe.on_reply(&[5, 0, 0, 1])), (vec![], 6));
    match probe.on_reply(&[0; 6]) {
        HttpProbeAction::SendAndReadSome(bytes, n) => {
            assert_eq!(n, 256);
            assert_eq!(
                bytes,
                b"GET / HTTP/1.1\r\nHost: ab.c\r\nUser-Agent: rathole-health\r\nConnection: close\r\n\r\n"
                    .to_vec()
            );
        }
        other => panic!("{:?}", other),
    }
    assert!(matches!(
        probe.on_reply(b"HTTP/1.1 204 No Content\r\n"),
        HttpProbeAction::Finish(Ok(()))
    ));
}

#[test]
fn http_probe_skips_each_kind_of_address() {
    for kind in [1u8, 3, 4] {
        let mut probe = at_answer(kind);
        assert!(matches!(
            probe.on_reply(b"HTTP/1.0 301 Moved"),
            HttpProbeAction::Finish(Ok(()))
        ));
    }
    let (mut probe, _) = HttpProbe::start("h");
    let _ = probe.on_reply(&[5, 0]);
    assert_eq!(exchange(probe.on_reply(&[5, 0, 0, 3])), (vec![], 1));
    assert_eq!(exchange(probe.on_reply(&[255])), (vec![], 257));
    let (mut probe, _) = HttpProbe::start("h");
    let _ = probe.on_reply(&[5, 0]);
    assert_eq!(exchange(probe.on_reply(&[5, 0, 0, 4])), (vec![], 18));
}

#[test]
fn http_probe_tells_its_failures_apart() {
    let (mut probe, _) = HttpProbe::start("h");
    assert!(matches!(
        probe.on_reply(&[5, 255]),
        HttpProbeAction::Finish(Err(HttpProbeError::MethodRefused(5, 255)))
    ));
    let (mut probe, _) = HttpProbe::start("h");
    let _ = probe.on_reply(&[5, 0]);
    assert!(matches!(
        probe.on_reply(&[5, 1, 0, 1]),
        HttpProbeAction::Finish(Err(HttpProbeError::ConnectRefused(1)))
    ));
    let (mut probe, _) = HttpProbe::start("h");
    let _ = probe.on_reply(&[5, 0]);
    assert!(matches!(
        probe.on_reply(&[5, 0, 0, 2]),
        HttpProbeAction::Finish(Err(HttpProbeError::BadAddressType))
    ));
    assert!(matches!(
        at_answer(1).on_reply(&[]),
        HttpProbeAction::Finish(Err(HttpProbeError::NoResponse))
    ));
    match at_answer(1).on_reply(b"HTTP/1.1 500 Oops\r\nX: y") {
        HttpProbeAction::Finish(Err(HttpProbeError::BadStatusLine(line))) => {
            assert_eq!(line, b"HTTP/1.1 500 Oops".to_vec());
        }
        other => panic!("{:?}", other),
    }
}

#[test]
fn status_lines() {
    assert!(is_good_status(b"HTTP/1.1 200 OK"));
    assert!(is_good_status(b"HTTP/1.1 3"));
    assert!(is_good_status(b"HTTP/1.0 2"));
    assert!(!is_good_status(b"HTTP/1.1 "));
    assert!(!is_good_status(b"HTTP/2.0 200"));
    assert!(!is_good_status(b"HTTP/1.2 200"));
    assert!(!is_good_status(b"http/1.1 200"));
    assert_eq!(answer_first_line(b"one\ntwo"), b"one".to_vec());
    assert_eq!(answer_first_line(b"one\r\ntwo"), b"one".to_vec());
    assert_eq!(answer_first_line(b"one\r"), b"one\r".to_vec());
    assert_eq!(answer_first_line(b"\n"), Vec::<u8>::new());
    assert_eq!(build_socks5_connect(""), vec![5, 1, 0, 3, 0, 0, 80]);
    assert!(build_http_request("x.y").starts_with(b"GET / HTTP/1.1\r\nHost: x.y\r\n"));
}

#[test]
fn long_host_lengths_wrap() {
    let host = "a".repeat(300);
    let bytes = build_socks5_connect(&host);
    assert_eq!(bytes.len(), 5 + 300 + 2);
    assert_eq!(bytes[4], 44);
}

#[test]
fn dns_query_edges() {
    let root = build_dns_query("", 1);
    assert_eq!(root[12..], [0, 0, 0, 1, 0, 1]);
    let trailing = build_dns_query("a.", 1);
    assert_eq!(trailing[12..], [1, b'a', 0, 0, 0, 1, 0, 1]);
}

#[test]
fn dns_packet_payload_reads_back() {
    let pkt = build_socks5_udp_packet([9, 8, 7, 6], 5353, b"payload");
    assert_eq!(parse_socks5_udp_payload(&pkt), Some(b"payload" as &[u8]));
    let empty = build_socks5_udp_packet([9, 8, 7, 6], 5353, b"");
    assert_eq!(parse_socks5_udp_payload(&empty), None);
    assert_eq!(parse_socks5_udp_payload(&[0, 0, 0, 9, 1, 2]), None);
    assert_eq!(parse_socks5_udp_payload(&[0, 0, 0, 3]), None);
    assert_eq!(parse_socks5_udp_payload(&[0, 0, 0]), None);
    assert_eq!(parse_socks5_udp_payload(&[0, 0, 0, 1, 1, 2, 3, 4, 0, 53]), None);
}

#[test]
fn dns_targets() {
    assert_eq!(dns_target(DnsServer::V4([1, 1, 1, 1], 53)), Ok(([1, 1, 1, 1], 53)));
    assert_eq!(dns_target(DnsServer::V6), Err(DnsProbeError::Ipv6Server));
    assert_eq!(dns_target(DnsServer::Unreadable), Err(DnsProbeError::InvalidServer));
}

#[test]
fn dns_probe_carries_its_number() {
    let probe = new_dns_probe([1, 2, 3, 4], 53, "example.com");
    assert_eq!(probe.packet, dns_probe_packet([1, 2, 3, 4], 53, "example.com", probe.id));
    assert_eq!(probe.packet[10..12], probe.id.to_be_bytes());
    // Numbers are drawn anew.
    let ids: Vec<u16> = (0..16)
        .map(|_| new_dns_probe([1, 2, 3, 4], 53, "e").id)
        .collect();
    assert!(ids.iter().any(|id| *id != ids[0]));
}

fn reply(header: &[u8]) -> Vec<u8> {
    build_socks5_udp_packet([1, 1, 1, 1], 53, header)
}

#[test]
fn dns_replies_are_judged() {
    let good = [0x12, 0x34, 0x81, 0x80, 0, 1, 0, 1, 0, 0, 0, 0];
    assert_eq!(check_dns_reply(&reply(&good), 0x1234), Ok(()));
    assert_eq!(
        check_dns_reply(&reply(&good), 0x1235),
        Err(DnsProbeError::IdMismatch)
    );
    assert_eq!(
        check_dns_reply(&reply(&good[..11]), 0x1234),
        Err(DnsProbeError::TooShort)
    );
    assert_eq!(check_dns_reply(&[0, 0], 0x1234), Err(DnsProbeError::BadPacket));
    assert_eq!(check_dns_reply(&[0, 0, 0], 0x1234), Err(DnsProbeError::BadPacket));
    let mut refused = good;
    refused[3] = 0x85;
    assert_eq!(
        check_dns_reply(&reply(&refused), 0x1234),
        Err(DnsProbeError::ErrorCode(5))
    );
    // An echo of the query is no answer.
    let query = build_dns_query("example.com", 0x1234);
    assert_eq!(
        check_dns_reply(&reply(&query), 0x1234),
        Err(DnsProbeError::NotAResponse)
    );
}

#[test]
fn targets_are_tried_in_order() {
    let (mut scan, step) = TargetScan::start::<&str>(3);
    assert!(matches!(step, ScanStep::Try(0)));
    assert!(matches!(scan.on_outcome(Err("a")), ScanStep::Try(1)));
    assert!(matches!(scan.on_outcome(Err("b")), ScanStep::Try(2)));
    assert!(matches!(scan.on_outcome(Err("c")), ScanStep::Fail("c")));

    let (mut scan, _) = TargetScan::start::<&str>(3);
    assert!(matches!(scan.on_outcome(Err("a")), ScanStep::Try(1)));
    assert!(matches!(scan.on_outcome::<&str>(Ok(())), ScanStep::Succeed));

    let (_, step) = TargetScan::start::<&str>(0);
    assert!(matches!(step, ScanStep::NoTarget));
}

fn config(enabled: bool, max_failures: u32) -> HealthProbeConfig {
    HealthProbeConfig {
        enabled,
        interval_secs: 1,
        timeout_secs: 1,
        max_failures,
        tcp_hosts: vec!["mock.local".to_string()],
        dns_servers: vec!["8.8.8.8:53".to_string()],
        dns_query_domain: "test.com".to_string(),
    }
}

#[test]
fn quick_probes_end_with_the_first_success() {
    let mut task = ProbeTask::start(&config(true, 5)).unwrap();
    assert_eq!(task.on_probe(false), ProbeAction::ProbeNow);
    assert_eq!(task.on_probe(false), ProbeAction::ProbeNow);
    assert_eq!(task.failures(), 2);
    assert_eq!(task.on_probe(true), ProbeAction::Wait);
    assert_eq!(task.failures(), 0);
}

#[test]
fn failures_in_a_row_give_the_service_up() {
    let mut task = ProbeTask::start(&config(true, 3)).unwrap();
    assert_eq!(task.on_probe(false), ProbeAction::ProbeNow);
    assert_eq!(task.on_probe(false), ProbeAction::ProbeNow);
    assert_eq!(task.on_probe(false), ProbeAction::GiveUp);
    assert_eq!(task.failures(), 3);

    for max in [0, 1] {
        let mut task = ProbeTask::start(&config(true, max)).unwrap();
        assert_eq!(task.on_probe(true), ProbeAction::Wait);
        assert_eq!(task.on_probe(false), ProbeAction::GiveUp);
    }
}

#[test]
fn three_quick_probes_follow_a_failure() {
    let mut task = ProbeTask::start(&config(true, 100)).unwrap();
    assert_eq!(task.on_probe(false), ProbeAction::ProbeNow);
    assert_eq!(task.on_probe(false), ProbeAction::ProbeNow);
    assert_eq!(task.on_probe(false), ProbeAction::ProbeNow);
    assert_eq!(task.on_probe(false), ProbeAction::Wait);
    assert_eq!(task.on_probe(false), ProbeAction::ProbeNow);
    assert_eq!(task.failures(), 5);
}

#[test]
fn disabled_probes_do_not_start() {
    assert!(ProbeTask::start(&config(false, 1)).is_none());
}

#[test]
fn numbers_are_written_out() {
    for n in [0u64, 9, 10, 99, 100, 255, 1_002_003, u64::MAX] {
        assert_eq!(decimal_text(n), format!("{}", n));
    }
    for b in 0..=255u8 {
        assert_eq!(hex_byte_text(b), format!("{:x}", b));
    }
    assert_eq!(version_mismatch_text(200), "Protocol version mismatched: 200");
}

#[test]
fn http_failures_are_told() {
    for (e, text) in [
        (HttpProbeError::MethodRefused(5, 255), "TCP 健康探测: SOCKS5 无认证协商失败: [5, 255]"),
        (HttpProbeError::ConnectRefused(5), "TCP 健康探测: SOCKS5 CONNECT 失败: REP=0x5"),
        (HttpProbeError::ConnectRefused(0xa0), "TCP 健康探测: SOCKS5 CONNECT 失败: REP=0xa0"),
        (HttpProbeError::BadAddressType, "TCP 健康探测: 非法 ATYP"),
        (HttpProbeError::NoResponse, "TCP 健康探测: 无响应体"),
    ] {
        assert_eq!(http_error_text(&e), text);
        assert_eq!(http_error_text_with_line(&e, "HTTP/1.1 404"), text);
    }
    let line = |bytes: &[u8]| HttpProbeError::BadStatusLine(bytes.to_vec());
    assert_eq!(
        http_error_text(&line(b"HTTP/1.1 404 Not Found")),
        "TCP 健康探测: HTTP 首行异常: HTTP/1.1 404 Not Found"
    );
    assert_eq!(
        http_error_text(&line("HTTP/1.1 404 没有".as_bytes())),
        "TCP 健康探测: HTTP 首行异常: HTTP/1.1 404 没有"
    );
    // Bytes that are no text are replaced.
    assert_eq!(
        http_error_text(&line(b"no\xfftext")),
        "TCP 健康探测: HTTP 首行异常: no\u{fffd}text"
    );
    assert_eq!(
        http_error_text_with_line(&line(b""), "x y"),
        "TCP 健康探测: HTTP 首行异常: x y"
    );
}

#[test]
fn dns_failures_are_told() {
    for (e, text) in [
        (DnsProbeError::InvalidServer, "无效的 DNS 服务器地址: 1.1.1.1:53"),
        (DnsProbeError::Ipv6Server, "暂不支持 IPv6 DNS 服务器"),
        (DnsProbeError::BadPacket, "解析 SOCKS5 UDP 响应失败"),
        (DnsProbeError::TooShort, "DNS 响应过短"),
        (DnsProbeError::IdMismatch, "DNS 响应 ID 不匹配"),
        (DnsProbeError::NotAResponse, "DNS 响应 QR 位异常"),
        (DnsProbeError::ErrorCode(15), "DNS 响应 RCODE 非 0: 15"),
    ] {
        assert_eq!(dns_error_text(&e, "1.1.1.1:53"), text);
    }
}

#[test]
fn empty_lists_of_targets_are_told() {
    assert_eq!(no_target_text(ServiceType::Tcp), "没有可用的 TCP 探测目标");
    assert_eq!(no_target_text(ServiceType::Udp), "没有可用的 DNS 服务器");
}

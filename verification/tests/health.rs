use rathole::dns_probe::{build_dns_query, build_socks5_udp_packet, parse_socks5_udp_payload};
use rathole::health::{
    HealthProbeConfig, HEALTH_PROBE_DEFAULT_DNS_QUERY, HEALTH_PROBE_DEFAULT_DNS_SERVERS,
    HEALTH_PROBE_DEFAULT_INTERVAL_SECS, HEALTH_PROBE_DEFAULT_MAX_FAILURES,
    HEALTH_PROBE_DEFAULT_TCP_HOSTS, HEALTH_PROBE_DEFAULT_TIMEOUT_SECS,
};

#[test]
fn test_build_dns_query() {
    let query = build_dns_query("example.com", 0x1234);

    assert_eq!(query[0..2], [0x12, 0x34]); // ID
    assert_eq!(query[2..4], [0x01, 0x00]); // RD=1
    assert_eq!(query[4..6], [0x00, 0x01]); // QDCOUNT=1
    assert_eq!(query[6..8], [0x00, 0x00]); // ANCOUNT=0
    assert_eq!(query[8..10], [0x00, 0x00]); // NSCOUNT=0
    assert_eq!(query[10..12], [0x00, 0x00]); // ARCOUNT=0

    let expected_domain = [
        7, b'e', b'x', b'a', b'm', b'p', b'l', b'e', // "example"
        3, b'c', b'o', b'm', // "com"
        0,    // the root
    ];
    assert_eq!(&query[12..12 + expected_domain.len()], &expected_domain);

    let qtype_qclass_offset = 12 + expected_domain.len();
    assert_eq!(
        query[qtype_qclass_offset..qtype_qclass_offset + 2],
        [0x00, 0x01]
    ); // QTYPE=A
    assert_eq!(
        query[qtype_qclass_offset + 2..qtype_qclass_offset + 4],
        [0x00, 0x01]
    ); // QCLASS=IN
}

#[test]
fn test_build_socks5_udp_packet() {
    let dst_ip = [1, 2, 3, 4];
    let dst_port = 53;
    let payload = b"test";

    let packet = build_socks5_udp_packet(dst_ip, dst_port, payload);

    assert_eq!(packet[0..2], [0x00, 0x00]); // RSV
    assert_eq!(packet[2], 0x00); // FRAG
    assert_eq!(packet[3], 0x01); // ATYP=IPv4
    assert_eq!(packet[4..8], [1, 2, 3, 4]); // DST.ADDR
    assert_eq!(packet[8..10], [0x00, 0x35]); // DST.PORT (53)
    assert_eq!(&packet[10..], b"test"); // PAYLOAD
}

#[test]
fn test_parse_socks5_udp_payload() {
    let packet = vec![
        0x00, 0x00, // RSV
        0x00, // FRAG
        0x01, // ATYP=IPv4
        1, 2, 3, 4, // DST.ADDR
        0x00, 0x35, // DST.PORT (53)
        b't', b'e', b's', b't', // PAYLOAD
    ];

    let payload = parse_socks5_udp_payload(&packet);
    assert_eq!(payload, Some(b"test" as &[u8]));

    // too short
    let short_packet = vec![0x00, 0x00];
    assert_eq!(parse_socks5_udp_payload(&short_packet), None);

    // an IPv6 address
    let ipv6_packet = vec![
        0x00, 0x00, // RSV
        0x00, // FRAG
        0x04, // ATYP=IPv6
    ];
    let mut ipv6_full = ipv6_packet;
    ipv6_full.extend_from_slice(&[0u8; 16]); // the address
    ipv6_full.extend_from_slice(&[0x00, 0x35]); // the port
    ipv6_full.extend_from_slice(b"test"); // the payload

    let payload = parse_socks5_udp_payload(&ipv6_full);
    assert_eq!(payload, Some(b"test" as &[u8]));

    // a domain name
    let domain_packet = vec![
        0x00, 0x00, // RSV
        0x00, // FRAG
        0x03, // ATYP=DOMAIN
        0x07, // length of the name
        b'e', b'x', b'a', b'm', b'p', b'l', b'e', // "example"
        0x00, 0x35, // the port
        b't', b'e', b's', b't', // the payload
    ];

    let payload = parse_socks5_udp_payload(&domain_packet);
    assert_eq!(payload, Some(b"test" as &[u8]));
}

#[test]
fn test_health_probe_config_default() {
    let config = HealthProbeConfig::default();

    assert!(config.enabled);
    assert_eq!(config.interval_secs, HEALTH_PROBE_DEFAULT_INTERVAL_SECS);
    assert_eq!(config.timeout_secs, HEALTH_PROBE_DEFAULT_TIMEOUT_SECS);
    assert_eq!(config.max_failures, HEALTH_PROBE_DEFAULT_MAX_FAILURES);
    assert_eq!(config.tcp_hosts.len(), HEALTH_PROBE_DEFAULT_TCP_HOSTS.len());
    assert_eq!(
        config.dns_servers.len(),
        HEALTH_PROBE_DEFAULT_DNS_SERVERS.len()
    );
    assert_eq!(config.dns_query_domain, HEALTH_PROBE_DEFAULT_DNS_QUERY);
}

#[test]
fn test_health_probe_config_clone() {
    let config1 = HealthProbeConfig::default();
    let config2 = config1.clone();

    assert_eq!(config1.enabled, config2.enabled);
    assert_eq!(config1.interval_secs, config2.interval_secs);
    assert_eq!(config1.timeout_secs, config2.timeout_secs);
    assert_eq!(config1.max_failures, config2.max_failures);
    assert_eq!(config1.tcp_hosts, config2.tcp_hosts);
    assert_eq!(config1.dns_servers, config2.dns_servers);
    assert_eq!(config1.dns_query_domain, config2.dns_query_domain);
}

#[test]
fn defaults_name_the_usual_targets() {
    let config = HealthProbeConfig::default();
    assert_eq!(config.interval_secs, 45);
    assert_eq!(config.timeout_secs, 5);
    assert_eq!(config.max_failures, 3);
    assert_eq!(
        config.tcp_hosts,
        vec!["www.google.com", "www.cloudflare.com", "www.bing.com"]
    );
    assert_eq!(
        config.dns_servers,
        vec!["1.1.1.1:53", "8.8.8.8:53", "208.67.222.222:53"]
    );
    assert_eq!(config.dns_query_domain, "www.baidu.com");
}

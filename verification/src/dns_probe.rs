//! A DNS query sent through a SOCKS5 UDP relay, and the check of its answer.
use crate::outside::random_u16;
use crate::text::{decimal, decimal_text};
use crate::wire::{be_u16, be_value, push_all, push_be_u16, text_bytes};
use vstd::prelude::*;
use vstd::slice::slice_subrange;
use vstd::string::StringExecFns;

verus! {

/// Why a DNS probe failed.
#[derive(Clone, Copy, Debug, PartialEq, Eq, Structural)]
pub enum DnsProbeError {
    /// The server's address could not be read.
    InvalidServer,
    /// The server's address is an IPv6 address.
    Ipv6Server,
    /// The answer is not a SOCKS5 UDP packet with a payload.
    BadPacket,
    /// The payload is shorter than a DNS header.
    TooShort,
    /// The answer is to another query.
    IdMismatch,
    /// The answer is itself a query.
    NotAResponse,
    /// The server answered with an error code.
    ErrorCode(u16),
}

/// How the failure of a probe of a DNS server is told.
pub open spec fn dns_error_chars(e: DnsProbeError, dns_server: Seq<char>) -> Seq<char> {
    match e {
        DnsProbeError::InvalidServer => "无效的 DNS 服务器地址: "@ + dns_server,
        DnsProbeError::Ipv6Server => "暂不支持 IPv6 DNS 服务器"@,
        DnsProbeError::BadPacket => "解析 SOCKS5 UDP 响应失败"@,
        DnsProbeError::TooShort => "DNS 响应过短"@,
        DnsProbeError::IdMismatch => "DNS 响应 ID 不匹配"@,
        DnsProbeError::NotAResponse => "DNS 响应 QR 位异常"@,
        DnsProbeError::ErrorCode(code) => "DNS 响应 RCODE 非 0: "@ + decimal(code as nat),
    }
}

/// Tells the failure of a probe of a DNS server.
pub fn dns_error_text(e: &DnsProbeError, dns_server: &str) -> (r: String)
    ensures
        r@ == dns_error_chars(*e, dns_server@),
{
    match e {
        DnsProbeError::InvalidServer => "无效的 DNS 服务器地址: ".to_owned().concat(dns_server),
        DnsProbeError::Ipv6Server => "暂不支持 IPv6 DNS 服务器".to_owned(),
        DnsProbeError::BadPacket => "解析 SOCKS5 UDP 响应失败".to_owned(),
        DnsProbeError::TooShort => "DNS 响应过短".to_owned(),
        DnsProbeError::IdMismatch => "DNS 响应 ID 不匹配".to_owned(),
        DnsProbeError::NotAResponse => "DNS 响应 QR 位异常".to_owned(),
        DnsProbeError::ErrorCode(code) => "DNS 响应 RCODE 非 0: ".to_owned().concat(
            decimal_text(*code as u64).as_str(),
        ),
    }
}

/// The address of a DNS server, as it was read from the configuration.
#[derive(Clone, Copy, Debug)]
pub enum DnsServer {
    Unreadable,
    V4([u8; 4], u16),
    V6,
}

/// A query on its way.
#[derive(Debug)]
pub struct DnsProbe {
    pub id: u16,
    pub packet: Vec<u8>,
}

/// The bytes before the first dot.
pub open spec fn first_label(name: Seq<u8>) -> Seq<u8>
    decreases name.len(),
{
    if name.len() == 0 || name[0] == 46 {
        Seq::empty()
    } else {
        seq![name[0]] + first_label(name.drop_first())
    }
}

/// A label is as long as the dot after it allows.
proof fn lemma_first_label(name: Seq<u8>)
    ensures
        first_label(name).len() <= name.len(),
        first_label(name) == name.take(first_label(name).len() as int),
        first_label(name).len() < name.len() ==> name[first_label(name).len() as int] == 46,
        forall|i: int| 0 <= i < first_label(name).len() ==> name[i] != 46,
    decreases name.len(),
{
    if name.len() == 0 || name[0] == 46 {
        assert(first_label(name) =~= name.take(0));
    } else {
        let rest = name.drop_first();
        lemma_first_label(rest);
        let k = first_label(rest).len() as int;
        assert(first_label(name) =~= name.take(k + 1));
        assert forall|i: int| 0 <= i < k + 1 implies name[i] != 46 by {
            if i > 0 {
                assert(rest[i - 1] == name[i]);
            }
        }
    }
}

proof fn lemma_first_label_is(name: Seq<u8>, k: int)
    requires
        0 <= k <= name.len(),
        forall|i: int| 0 <= i < k ==> name[i] != 46,
        k < name.len() ==> name[k] == 46,
    ensures
        first_label(name) == name.take(k),
{
    lemma_first_label(name);
    let m = first_label(name).len() as int;
    if m < k {
        assert(name[m] == 46);
    }
    if m > k {
        assert(name[k] != 46);
    }
}

/// The labels of a name, each after its length in one byte.
pub open spec fn dns_labels(name: Seq<u8>) -> Seq<u8>
    decreases name.len(),
    via dns_labels_shrinks
{
    let label = first_label(name);
    let coded = seq![(label.len() % 256) as u8] + label;
    if label.len() == name.len() {
        coded
    } else {
        coded + dns_labels(name.skip(label.len() as int + 1))
    }
}

#[via_fn]
proof fn dns_labels_shrinks(name: Seq<u8>) {
    lemma_first_label(name);
}

/// A query for the IPv4 address of a name, with recursion desired: the header,
/// the name's labels, and the type and class of the question.
pub open spec fn dns_query(name: Seq<u8>, id: u16) -> Seq<u8> {
    be_u16(id) + be_u16(0x0100) + be_u16(1) + be_u16(0) + be_u16(0) + be_u16(0) + dns_labels(name)
        + seq![0u8] + be_u16(1) + be_u16(1)
}

/// Writes a DNS query.
pub fn build_dns_query(qname: &str, id: u16) -> (r: Vec<u8>)
    ensures
        r@ == dns_query(text_bytes(qname@), id),
{
    let name = qname.as_bytes();
    let mut v: Vec<u8> = Vec::new();
    push_be_u16(&mut v, id);
    push_be_u16(&mut v, 0x0100);
    push_be_u16(&mut v, 1);
    push_be_u16(&mut v, 0);
    push_be_u16(&mut v, 0);
    push_be_u16(&mut v, 0);
    let ghost header = v@;
    assert(header =~= be_u16(id) + be_u16(0x0100) + be_u16(1) + be_u16(0) + be_u16(0) + be_u16(0));
    push_labels(&mut v, name);
    v.push(0);
    push_be_u16(&mut v, 1);
    push_be_u16(&mut v, 1);
    assert(v@ =~= dns_query(name@, id));
    v
}

fn push_labels(v: &mut Vec<u8>, name: &[u8])
    ensures
        final(v)@ == old(v)@ + dns_labels(name@),
{
    let ghost before = v@;
    let mut start: usize = 0;
    let mut more: bool = true;
    assert(name@.skip(0) =~= name@);
    while more
        invariant
            start <= name@.len(),
            more ==> v@ + dns_labels(name@.skip(start as int)) == before + dns_labels(name@),
            !more ==> v@ == before + dns_labels(name@),
        decreases name@.len() - start, (if more { 1int } else { 0int }),
    {
        let ghost rest = name@.skip(start as int);
        let ghost written = v@;
        let mut end: usize = start;
        while end < name.len() && name[end] != 46
            invariant
                start <= end <= name@.len(),
                rest == name@.skip(start as int),
                forall|i: int| 0 <= i < end - start ==> rest[i] != 46,
            decreases name@.len() - end,
        {
            assert(rest[end - start] == name@[end as int]);
            end = end + 1;
        }
        let ghost k = end - start;
        proof {
            if end < name@.len() {
                assert(rest[k] == name@[end as int]);
            }
            lemma_first_label_is(rest, k);
        }
        let label = slice_subrange(name, start, end);
        assert(label@ =~= first_label(rest));
        let size: usize = (end - start) % 256;
        v.push(size as u8);
        push_all(v, label);
        if end < name.len() {
            start = end + 1;
            assert(name@.skip(start as int) =~= rest.skip(k + 1));
            assert(v@ + dns_labels(name@.skip(start as int)) =~= written + dns_labels(rest));
        } else {
            more = false;
            assert(v@ =~= written + dns_labels(rest));
        }
    }
}

/// A SOCKS5 UDP packet to an IPv4 address: no fragment, the address, the port
/// and the payload.
pub open spec fn socks5_udp_packet(ip: Seq<u8>, port: u16, payload: Seq<u8>) -> Seq<u8> {
    seq![0u8, 0u8, 0u8, 1u8] + ip + be_u16(port) + payload
}

/// Writes a SOCKS5 UDP packet.
pub fn build_socks5_udp_packet(dst_ip: [u8; 4], dst_port: u16, payload: &[u8]) -> (r: Vec<u8>)
    ensures
        r@ == socks5_udp_packet(dst_ip@, dst_port, payload@),
{
    let mut v: Vec<u8> = Vec::new();
    v.push(0);
    v.push(0);
    v.push(0);
    v.push(1);
    push_all(&mut v, dst_ip.as_slice());
    push_be_u16(&mut v, dst_port);
    push_all(&mut v, payload);
    assert(v@ =~= socks5_udp_packet(dst_ip@, dst_port, payload@));
    v
}

/// How long the address field of a SOCKS5 UDP packet is, where its kind is
/// known and its length can be read.
pub open spec fn socks5_address_len(pkt: Seq<u8>) -> Option<int> {
    if pkt.len() < 4 {
        None
    } else if pkt[3] == 1 {
        Some(4)
    } else if pkt[3] == 4 {
        Some(16)
    } else if pkt[3] == 3 && pkt.len() >= 5 {
        Some(1 + pkt[4])
    } else {
        None
    }
}

/// The payload of a SOCKS5 UDP packet: what follows the address and the port,
/// if anything does.
pub open spec fn socks5_udp_payload(pkt: Seq<u8>) -> Option<Seq<u8>> {
    match socks5_address_len(pkt) {
        Some(n) => if pkt.len() > 4 + n + 2 {
            Some(pkt.skip(4 + n + 2))
        } else {
            None
        },
        None => None,
    }
}

/// The payload of a SOCKS5 UDP packet.
pub fn parse_socks5_udp_payload(pkt: &[u8]) -> (r: Option<&[u8]>)
    ensures
        r is Some <==> socks5_udp_payload(pkt@) is Some,
        r matches Some(p) ==> p@ == socks5_udp_payload(pkt@)->0,
{
    if pkt.len() < 4 {
        return None;
    }
    let kind: u8 = pkt[3];
    let addr_len: usize = if kind == 1 {
        4
    } else if kind == 4 {
        16
    } else if kind == 3 {
        if pkt.len() < 5 {
            return None;
        }
        1 + pkt[4] as usize
    } else {
        return None;
    };
    let hdr_len: usize = 4 + addr_len + 2;
    if pkt.len() <= hdr_len {
        return None;
    }
    let p = slice_subrange(pkt, hdr_len, pkt.len());
    assert(p@ =~= pkt@.skip(hdr_len as int));
    Some(p)
}

/// A payload that was put into a packet is read back from it.
pub proof fn packet_payload_reads_back(ip: Seq<u8>, port: u16, payload: Seq<u8>)
    requires
        ip.len() == 4,
        payload.len() > 0,
    ensures
        socks5_udp_payload(socks5_udp_packet(ip, port, payload)) == Some(payload),
{
    let pkt = socks5_udp_packet(ip, port, payload);
    assert(pkt[3] == 1);
    assert(pkt.skip(10) =~= payload);
}

/// A packet with nothing in it is read as one that cannot be used.
pub proof fn empty_payload_is_not_read(ip: Seq<u8>, port: u16)
    requires
        ip.len() == 4,
    ensures
        socks5_udp_payload(socks5_udp_packet(ip, port, Seq::empty())) is None,
{
    assert(socks5_udp_packet(ip, port, Seq::empty())[3] == 1);
}

/// What is wrong with the address of a server, if anything is.
pub open spec fn server_fault(server: DnsServer) -> Option<DnsProbeError> {
    match server {
        DnsServer::V4(_, _) => None,
        DnsServer::V6 => Some(DnsProbeError::Ipv6Server),
        DnsServer::Unreadable => Some(DnsProbeError::InvalidServer),
    }
}

/// Where a query goes, if the server's address can be used.
pub fn dns_target(server: DnsServer) -> (r: Result<([u8; 4], u16), DnsProbeError>)
    ensures
        r is Ok <==> server_fault(server) is None,
        r matches Err(e) ==> server_fault(server) == Some(e),
        server matches DnsServer::V4(ip, port) ==> r == Ok::<([u8; 4], u16), DnsProbeError>(
            (ip, port),
        ),
        server is V6 ==> r == Err::<([u8; 4], u16), DnsProbeError>(DnsProbeError::Ipv6Server),
        server is Unreadable ==> r == Err::<([u8; 4], u16), DnsProbeError>(
            DnsProbeError::InvalidServer,
        ),
{
    match server {
        DnsServer::V4(ip, port) => Ok((ip, port)),
        DnsServer::V6 => Err(DnsProbeError::Ipv6Server),
        DnsServer::Unreadable => Err(DnsProbeError::InvalidServer),
    }
}

/// The packet of a query with a given number.
pub fn dns_probe_packet(ip: [u8; 4], port: u16, qname: &str, id: u16) -> (r: Vec<u8>)
    ensures
        r@ == socks5_udp_packet(ip@, port, dns_query(text_bytes(qname@), id)),
{
    let query = build_dns_query(qname, id);
    build_socks5_udp_packet(ip, port, query.as_slice())
}

/// A query with a number of its own.
pub fn new_dns_probe(ip: [u8; 4], port: u16, qname: &str) -> (r: DnsProbe)
    ensures
        r.packet@ == socks5_udp_packet(ip@, port, dns_query(text_bytes(qname@), r.id)),
{
    let id: u16 = random_u16();
    DnsProbe { id, packet: dns_probe_packet(ip, port, qname, id) }
}

/// What an answer to the query `id` amounts to.
pub open spec fn dns_reply_verdict(pkt: Seq<u8>, id: u16) -> Result<(), DnsProbeError> {
    match socks5_udp_payload(pkt) {
        None => Err(DnsProbeError::BadPacket),
        Some(p) => if p.len() < 12 {
            Err(DnsProbeError::TooShort)
        } else if be_value(p[0], p[1]) != id {
            Err(DnsProbeError::IdMismatch)
        } else if p[2] < 128 {
            Err(DnsProbeError::NotAResponse)
        } else if p[3] % 16 != 0 {
            Err(DnsProbeError::ErrorCode((p[3] % 16) as u16))
        } else {
            Ok(())
        },
    }
}

/// Checks an answer to the query `id`.
pub fn check_dns_reply(pkt: &[u8], id: u16) -> (r: Result<(), DnsProbeError>)
    ensures
        r == dns_reply_verdict(pkt@, id),
{
    match parse_socks5_udp_payload(pkt) {
        None => Err(DnsProbeError::BadPacket),
        Some(p) => {
            if p.len() < 12 {
                return Err(DnsProbeError::TooShort);
            }
            let rid: u16 = p[0] as u16 * 256 + p[1] as u16;
            if rid != id {
                return Err(DnsProbeError::IdMismatch);
            }
            if p[2] < 128 {
                return Err(DnsProbeError::NotAResponse);
            }
            let rcode: u8 = p[3] % 16;
            if rcode != 0 {
                return Err(DnsProbeError::ErrorCode(rcode as u16));
            }
            Ok(())
        },
    }
}

/// A server that echoes a query back is not taken for one that answers it.
pub proof fn echoed_query_is_no_answer(ip: Seq<u8>, port: u16, name: Seq<u8>, id: u16)
    requires
        ip.len() == 4,
    ensures
        dns_reply_verdict(socks5_udp_packet(ip, port, dns_query(name, id)), id) == Err::<
            (),
            DnsProbeError,
        >(DnsProbeError::NotAResponse),
{
    let q = dns_query(name, id);
    assert(q.len() >= 12);
    packet_payload_reads_back(ip, port, q);
    assert(q[0] == (id / 256) as u8 && q[1] == (id % 256) as u8 && q[2] == 1);
}

/// The name whose labels are read from `s`: each is as long as the byte before
/// it says, and a dot stands between two.
pub open spec fn joined_labels(s: Seq<u8>) -> Seq<u8>
    decreases s.len(),
{
    if s.len() == 0 || s.len() <= s[0] {
        Seq::empty()
    } else {
        let n = s[0] as int;
        let rest = s.skip(1 + n);
        if rest.len() == 0 {
            s.subrange(1, 1 + n)
        } else {
            s.subrange(1, 1 + n) + seq![46u8] + joined_labels(rest)
        }
    }
}

/// No label of a name is longer than one byte can tell: among any 256 bytes in
/// a row there is a dot.
pub open spec fn labels_are_short(name: Seq<u8>) -> bool {
    forall|i: int| 0 <= i && i + 256 <= name.len() ==> #[trigger] dot_near(name, i)
}

/// There is a dot among the 256 bytes from `i` on.
pub open spec fn dot_near(name: Seq<u8>, i: int) -> bool {
    exists|j: int| i <= j < i + 256 && #[trigger] name[j] == 46
}

/// The labels of a query read back to the name that was asked for.
pub proof fn labels_are_read_back(name: Seq<u8>)
    requires
        labels_are_short(name),
    ensures
        joined_labels(dns_labels(name)) == name,
    decreases name.len(),
{
    lemma_first_label(name);
    labels_have_their_places(name);
    let label = first_label(name);
    let k = label.len() as int;
    if k >= 256 {
        assert(dot_near(name, 0));
    }
    let coded = dns_labels(name);
    assert(coded[0] == k);
    if k == name.len() {
        assert(coded.skip(1 + k) =~= Seq::empty());
        assert(coded.subrange(1, 1 + k) =~= name);
    } else {
        let rest = name.skip(k + 1);
        assert forall|i: int| 0 <= i && i + 256 <= rest.len() implies #[trigger] dot_near(
            rest,
            i,
        ) by {
            let m = i + k + 1;
            assert(dot_near(name, m));
            let j = choose|j: int| m <= j < m + 256 && #[trigger] name[j] == 46;
            assert(rest[j - k - 1] == 46);
        }
        labels_are_read_back(rest);
        labels_have_their_places(rest);
        assert(coded.skip(1 + k) =~= dns_labels(rest));
        assert(coded.subrange(1, 1 + k) =~= label);
        assert(name =~= label + seq![46u8] + rest);
    }
}

/// Two names that are asked for in the same words are the same name.
pub proof fn names_are_told_apart(a: Seq<u8>, b: Seq<u8>)
    requires
        labels_are_short(a),
        labels_are_short(b),
        dns_labels(a) == dns_labels(b),
    ensures
        a == b,
{
    labels_are_read_back(a);
    labels_are_read_back(b);
}

/// The labels of a name take one byte more than the name. Every byte of the
/// name but its dots stands one place further on; in the first place, and in
/// the place after each dot, stands the length of the label that follows, in
/// one byte.
pub proof fn labels_have_their_places(name: Seq<u8>)
    ensures
        dns_labels(name).len() == name.len() + 1,
        forall|i: int|
            0 <= i < name.len() && name[i] != 46 ==> #[trigger] dns_labels(name)[i + 1] == name[i],
        forall|i: int, k: int| #[trigger]
            label_at(name, i, k) ==> dns_labels(name)[i] == k % 256,
    decreases name.len(),
{
    lemma_first_label(name);
    let label = first_label(name);
    let n = label.len() as int;
    let coded = dns_labels(name);
    if n == name.len() {
        assert forall|i: int, k: int| #[trigger] label_at(name, i, k) implies coded[i] == k
            % 256 by {
            if i > 0 {
                assert(name[i - 1] != 46);
            }
            if k < n {
                assert(name[i + k] != 46);
            }
        }
    } else {
        let rest = name.skip(n + 1);
        labels_have_their_places(rest);
        let tail = dns_labels(rest);
        assert(coded == seq![(n % 256) as u8] + label + tail);
        assert forall|i: int| 0 <= i < name.len() && name[i] != 46 implies #[trigger] coded[i + 1]
            == name[i] by {
            if i > n {
                assert(rest[i - n - 1] == name[i]);
                assert(tail[i - n - 1 + 1] == rest[i - n - 1]);
                assert(coded[i + 1] == tail[i - n]);
            }
        }
        assert forall|i: int, k: int| #[trigger] label_at(name, i, k) implies coded[i] == k
            % 256 by {
            if i == 0 {
                if k < n {
                    assert(name[k] != 46);
                }
                if k > n {
                    assert(name[i + n] != 46);
                }
            } else if i <= n {
                assert(name[i - 1] != 46);
            } else {
                let m = i - n - 1;
                assert(label_at(rest, m, k)) by {
                    if m > 0 {
                        assert(rest[m - 1] == name[i - 1]);
                    }
                    assert forall|j: int| m <= j < m + k implies #[trigger] rest[j] != 46 by {
                        assert(rest[j] == name[j + n + 1]);
                    }
                    if m + k < rest.len() {
                        assert(rest[m + k] == name[i + k]);
                    }
                }
                assert(coded[i] == tail[m]);
            }
        }
    }
}

/// A label of `k` bytes begins at `i`: what comes before it and after it is a
/// dot or an end of the name, and there is none in it.
pub open spec fn label_at(name: Seq<u8>, i: int, k: int) -> bool {
    &&& 0 <= i
    &&& 0 <= k
    &&& i + k <= name.len()
    &&& i > 0 ==> name[i - 1] == 46
    &&& forall|j: int| i <= j < i + k ==> #[trigger] name[j] != 46
    &&& i + k < name.len() ==> name[i + k] == 46
}

/// A query carries its number, asks one question, and asks it of a server that
/// is to look further; the question is the name's labels, an empty one, and the
/// type and class of an IPv4 address.
pub proof fn a_query_asks_for_the_name(name: Seq<u8>, id: u16)
    ensures
        ({
            let q = dns_query(name, id);
            let n = name.len() as int;
            &&& q.len() == n + 18
            &&& q[0] * 256 + q[1] == id
            &&& q[2] == 1 && q[3] == 0
            &&& q[4] == 0 && q[5] == 1
            &&& forall|i: int| 6 <= i < 12 ==> #[trigger] q[i] == 0
            &&& q.subrange(12, 13 + n) == dns_labels(name)
            &&& q[13 + n] == 0
            &&& q.subrange(14 + n, 18 + n) == seq![0u8, 1u8, 0u8, 1u8]
        }),
{
    labels_have_their_places(name);
    let q = dns_query(name, id);
    let n = name.len() as int;
    assert(q.subrange(12, 13 + n) =~= dns_labels(name));
    assert(q.subrange(14 + n, 18 + n) =~= seq![0u8, 1u8, 0u8, 1u8]);
}

/// A packet goes to its address and port, and holds its payload as it is.
pub proof fn a_packet_is_addressed(ip: Seq<u8>, port: u16, payload: Seq<u8>)
    requires
        ip.len() == 4,
    ensures
        ({
            let pkt = socks5_udp_packet(ip, port, payload);
            &&& pkt.len() == 10 + payload.len()
            &&& pkt.subrange(0, 4) == seq![0u8, 0u8, 0u8, 1u8]
            &&& pkt.subrange(4, 8) == ip
            &&& pkt[8] * 256 + pkt[9] == port
            &&& pkt.skip(10) == payload
        }),
{
    let pkt = socks5_udp_packet(ip, port, payload);
    assert(pkt.subrange(0, 4) =~= seq![0u8, 0u8, 0u8, 1u8]);
    assert(pkt.subrange(4, 8) =~= ip);
    assert(pkt.skip(10) =~= payload);
}

/// The payload is found behind the address and the port, of whatever kind the
/// address is: four bytes, sixteen, or a name after its length. A packet with
/// an address of another kind has none.
pub proof fn the_payload_follows_the_address(
    head: Seq<u8>,
    kind: u8,
    address: Seq<u8>,
    port: Seq<u8>,
    payload: Seq<u8>,
)
    requires
        head.len() == 3,
        port.len() == 2,
        kind == 1 ==> address.len() == 4,
        kind == 4 ==> address.len() == 16,
        kind == 3 ==> address.len() > 0 && address.len() == 1 + address[0],
    ensures
        ({
            let pkt = head + seq![kind] + address + port + payload;
            &&& payload.len() > 0 && (kind == 1 || kind == 3 || kind == 4) ==> socks5_udp_payload(
                pkt,
            ) == Some(payload)
            &&& payload.len() == 0 || !(kind == 1 || kind == 3 || kind == 4) ==> socks5_udp_payload(
                pkt,
            ) is None
        }),
{
    let pkt = head + seq![kind] + address + port + payload;
    assert(pkt[3] == kind);
    if kind == 3 {
        assert(pkt[4] == address[0]);
    }
    assert(pkt.skip(4 + address.len() as int + 2) =~= payload);
}

/// A packet too short to tell the kind of its address has no payload.
pub proof fn short_packets_have_no_payload(pkt: Seq<u8>)
    requires
        pkt.len() < 7,
    ensures
        socks5_udp_payload(pkt) is None,
{
}

/// An answer is a good one exactly when it is at least as long as a header,
/// carries the number of the query, is marked as an answer, and its code says
/// that there was no error.
pub proof fn good_answers_are_taken(pkt: Seq<u8>, p: Seq<u8>, id: u16)
    requires
        socks5_udp_payload(pkt) == Some(p),
    ensures
        dns_reply_verdict(pkt, id) is Ok <==> p.len() >= 12 && p[0] * 256 + p[1] == id && p[2] / 128
            == 1 && p[3] % 16 == 0,
{
}

/// Of what can be wrong with an answer, the first is told: it holds nothing,
/// is too short, is to another query, is none, or tells of an error.
pub proof fn the_first_fault_is_told(pkt: Seq<u8>, id: u16)
    ensures
        ({
            let v = dns_reply_verdict(pkt, id);
            let held = socks5_udp_payload(pkt);
            &&& v == Err::<(), DnsProbeError>(DnsProbeError::BadPacket) <==> held is None
            &&& v == Err::<(), DnsProbeError>(DnsProbeError::TooShort) <==> held is Some
                && held->0.len() < 12
            &&& v == Err::<(), DnsProbeError>(DnsProbeError::IdMismatch) <==> held is Some
                && held->0.len() >= 12 && held->0[0] * 256 + held->0[1] != id
            &&& v == Err::<(), DnsProbeError>(DnsProbeError::NotAResponse) <==> held is Some
                && held->0.len() >= 12 && held->0[0] * 256 + held->0[1] == id && held->0[2] < 128
            &&& v matches Err(DnsProbeError::ErrorCode(code)) ==> held is Some && held->0.len()
                >= 12 && code == held->0[3] % 16 && 0 < code < 16
            &&& v matches Err(e) ==> !(e is InvalidServer) && !(e is Ipv6Server)
        }),
{
}

/// What is told of an unreadable address ends with it, and what is told of an
/// error code with its number; everything else is told without the server.
pub proof fn dns_failures_name_the_server(
    e: DnsProbeError,
    server: Seq<char>,
    more: Seq<char>,
    code: u16,
)
    ensures
        e is InvalidServer ==> dns_error_chars(e, server + more) == dns_error_chars(e, server)
            + more,
        !(e is InvalidServer) ==> dns_error_chars(e, server + more) == dns_error_chars(e, server),
        dns_error_chars(DnsProbeError::ErrorCode(code), server) == dns_error_chars(
            DnsProbeError::ErrorCode(0),
            server,
        ).drop_last() + decimal(code as nat),
{
    assert(dns_error_chars(DnsProbeError::InvalidServer, server + more) =~= dns_error_chars(
        DnsProbeError::InvalidServer,
        server,
    ) + more);
    assert(decimal(0).len() == 1);
    assert(dns_error_chars(DnsProbeError::ErrorCode(code), server) =~= dns_error_chars(
        DnsProbeError::ErrorCode(0),
        server,
    ).drop_last() + decimal(code as nat));
}

/// A server can be asked exactly by an IPv4 address; of the others, the error
/// tells an IPv6 address from one that could not be read.
pub proof fn servers_are_asked_by_ipv4(server: DnsServer)
    ensures
        server_fault(server) is None <==> server is V4,
        server_fault(server) == Some(DnsProbeError::Ipv6Server) <==> server is V6,
        server_fault(server) == Some(DnsProbeError::InvalidServer) <==> server is Unreadable,
{
}

} // verus!

//! The messages of the control and data channels.
use crate::outside::{
    bincode_digest, bincode_read_digest, bincode_read_tagged_digest, bincode_read_tagged_pair,
    bincode_read_variant, bincode_tagged_digest, bincode_tagged_pair, bincode_variant,
    random_32_bytes, sha256_digest,
};
use crate::wire::{le_bytes, le_bytes_read_back, le_value, text_bytes};
use vstd::prelude::*;

verus! {

broadcast use vstd::seq_lib::group_seq_properties;

/// Width of a digest.
pub const HASH_WIDTH_IN_BYTES: usize = 32;

/// The version without a timestamp; no longer spoken.
pub const PROTO_V1: u8 = 1;

/// The version with a data channel for each visitor.
pub const PROTO_V2: u8 = 2;

/// The version in which TCP visitors share multiplexed connections.
pub const PROTO_V3: u8 = 3;

/// The version that the client speaks.
pub const CURRENT_PROTO_VERSION: u8 = 3;

/// A SHA-256 digest: a service's identity, a nonce or a session key.
pub type Digest = [u8; 32];

/// What a tunnelled service carries.
#[derive(Clone, Copy, Debug, PartialEq, Eq, Structural)]
pub enum ServiceType {
    Tcp,
    Udp,
}

/// The first message on a connection, from either side.
#[derive(Clone, Copy, Debug)]
pub enum Hello {
    /// Opens a control channel: the version, and a service digest (from the
    /// client) or a nonce (from the server).
    ControlChannelHello(u8, Digest),
    /// Opens a data channel: the version and the session key.
    DataChannelHello(u8, Digest),
}

/// The server's answer to an authentication.
#[derive(Clone, Copy, Debug, PartialEq, Eq, Structural)]
pub enum Ack {
    Accepted,
    ServiceNotExist,
    AuthFailed,
    RejectedDueToTimestamp,
}

/// What the server asks of the client over a control channel.
#[derive(Clone, Copy, Debug, PartialEq, Eq, Structural)]
pub enum ControlChannelCmd {
    CreateDataChannel,
    CreateDataMux,
    HeartBeat,
}

/// What the server asks of the client over a data channel.
#[derive(Clone, Copy, Debug, PartialEq, Eq, Structural)]
pub enum DataChannelCmd {
    StartForwardTcp,
    StartForwardUdp,
}

/// How a version 3 data channel is used.
#[derive(Clone, Copy, Debug, PartialEq, Eq, Structural)]
pub enum DataChannelMode {
    Plain,
    Mux,
}

/// How the client took a request for a multiplexed connection.
#[derive(Clone, Copy, Debug, PartialEq, Eq, Structural)]
pub enum MuxRespKind {
    Accepted,
    Rejected,
    Failed,
}

/// The client's answer to a request for a multiplexed connection.
#[derive(Clone, Copy, Debug, PartialEq, Eq, Structural)]
pub struct ControlChannelMuxResp {
    pub kind: MuxRespKind,
    pub max_pool: u16,
    pub active: u16,
}

/// What the rest of the server asks a control channel for.
#[derive(Clone, Copy, Debug, PartialEq, Eq, Structural)]
pub enum DataChannelRequest {
    Plain,
    Mux,
}

/// The versions that a server accepts.
pub open spec fn accepted_version(version: u8) -> bool {
    version == PROTO_V2 || version == PROTO_V3
}

/// Whether a server accepts `version`.
pub fn is_accepted_version(version: u8) -> (r: bool)
    ensures
        r == accepted_version(version),
{
    version == PROTO_V2 || version == PROTO_V3
}

/// The digest of a message.
pub fn digest(data: &[u8]) -> (r: Digest)
    ensures
        r@ == crate::outside::sha256(data@),
{
    sha256_digest(data)
}

/// The session key of a token and a nonce: the digest of one after the other.
pub open spec fn session_key_of(token: Seq<u8>, nonce: Seq<u8>) -> Seq<u8> {
    crate::outside::sha256(token + nonce)
}

/// The session key that both sides derive from the token and the nonce.
pub fn derive_session_key(token: &str, nonce: &Digest) -> (r: Digest)
    ensures
        r@ == session_key_of(text_bytes(token@), nonce@),
{
    let mut both: Vec<u8> = Vec::new();
    crate::wire::push_all(&mut both, token.as_bytes());
    crate::wire::push_all(&mut both, nonce.as_slice());
    assert(both@ =~= text_bytes(token@) + nonce@);
    digest(both.as_slice())
}

/// A nonce for one handshake: 32 bytes drawn at random, so nothing is stated of them.
pub fn fresh_nonce() -> (r: Digest) {
    random_32_bytes()
}

/// Which of its two messages a hello is, as a number.
pub open spec fn hello_tag(h: Hello) -> u32 {
    match h {
        Hello::ControlChannelHello(_, _) => 0,
        Hello::DataChannelHello(_, _) => 1,
    }
}

/// The version that a hello announces.
pub open spec fn hello_version(h: Hello) -> u8 {
    match h {
        Hello::ControlChannelHello(v, _) => v,
        Hello::DataChannelHello(v, _) => v,
    }
}

/// The digest that a hello carries.
pub open spec fn hello_digest(h: Hello) -> Digest {
    match h {
        Hello::ControlChannelHello(_, d) => d,
        Hello::DataChannelHello(_, d) => d,
    }
}

/// A hello on the wire: its tag, its version and its digest.
pub open spec fn hello_bytes(h: Hello) -> Seq<u8> {
    le_bytes(hello_tag(h) as nat, 4) + seq![hello_version(h)] + hello_digest(h)@
}

/// Writes a hello.
pub fn encode_hello(h: &Hello) -> (r: Vec<u8>)
    ensures
        r@ == hello_bytes(*h),
{
    match h {
        Hello::ControlChannelHello(v, d) => bincode_tagged_digest(0, *v, d),
        Hello::DataChannelHello(v, d) => bincode_tagged_digest(1, *v, d),
    }
}

/// The length of a hello.
pub const HELLO_LEN: usize = 37;

/// The length of an answer or a command.
pub const TAG_LEN: usize = 4;

/// The length of the answer to a request for a multiplexed connection.
pub const MUX_RESP_LEN: usize = 8;

/// Reads a hello from the front of `bytes`, if there is one.
pub fn decode_hello(bytes: &[u8]) -> (r: Option<Hello>)
    ensures
        r matches Some(h) ==> hello_bytes(h).is_prefix_of(bytes@),
        r is None ==> forall|h: Hello| !(#[trigger] hello_bytes(h)).is_prefix_of(bytes@),
{
    match bincode_read_tagged_digest(bytes) {
        None => {
            assert forall|h: Hello| !(#[trigger] hello_bytes(h)).is_prefix_of(bytes@) by {
                hello_length_does_not_depend_on_version(h);
            }
            None
        },
        Some((tag, version, d)) => {
            let r = match tag {
                0 => Some(Hello::ControlChannelHello(version, d)),
                1 => Some(Hello::DataChannelHello(version, d)),
                _ => None,
            };
            proof {
                let front = bytes@.take(37);
                le_bytes_read_back_u32(tag);
                assert(front.take(4) =~= le_bytes(tag as nat, 4));
                assert(front =~= bytes@.subrange(0, 37));
                if r is None {
                    assert forall|h: Hello| !(#[trigger] hello_bytes(h)).is_prefix_of(bytes@) by {
                        hello_length_does_not_depend_on_version(h);
                        le_bytes_read_back_u32(hello_tag(h));
                        assert(hello_bytes(h).take(4) =~= le_bytes(hello_tag(h) as nat, 4));
                    }
                }
            }
            r
        },
    }
}

/// A hello has the same length in every version, so that one read fits all.
pub proof fn hello_length_does_not_depend_on_version(h: Hello)
    ensures
        hello_bytes(h).len() == 4 + 1 + HASH_WIDTH_IN_BYTES,
{
    le_bytes_read_back_u32(hello_tag(h));
}

proof fn le_bytes_read_back_u32(x: u32)
    ensures
        le_bytes(x as nat, 4).len() == 4,
        le_value(le_bytes(x as nat, 4)) == x,
{
    reveal_with_fuel(crate::wire::byte_range, 5);
    le_bytes_read_back(x as nat, 4);
}

/// From bytes that begin with a hello, that hello is read and no other.
pub proof fn hello_is_read_back(h: Hello, rest: Seq<u8>, read: Hello)
    ensures
        hello_bytes(read).is_prefix_of(hello_bytes(h) + rest) <==> read == h,
{
    let (x, y) = (hello_bytes(h), hello_bytes(read));
    hello_length_does_not_depend_on_version(h);
    hello_length_does_not_depend_on_version(read);
    assert((x + rest).subrange(0, 37) =~= x);
    if y == x {
        le_bytes_read_back_u32(hello_tag(h));
        le_bytes_read_back_u32(hello_tag(read));
        assert(x.subrange(0, 4) =~= le_bytes(hello_tag(h) as nat, 4));
        assert(y.subrange(0, 4) =~= le_bytes(hello_tag(read) as nat, 4));
        assert(x[4] == hello_version(h) && y[4] == hello_version(read));
        assert(x.subrange(5, 37) =~= hello_digest(h)@);
        assert(y.subrange(5, 37) =~= hello_digest(read)@);
        assert(hello_digest(h) =~= hello_digest(read));
    }
}

/// The number of an answer.
pub open spec fn ack_tag(a: Ack) -> u32 {
    match a {
        Ack::Accepted => 0,
        Ack::ServiceNotExist => 1,
        Ack::AuthFailed => 2,
        Ack::RejectedDueToTimestamp => 3,
    }
}

/// An answer on the wire.
pub open spec fn ack_bytes(a: Ack) -> Seq<u8> {
    le_bytes(ack_tag(a) as nat, 4)
}

/// Writes an answer.
pub fn encode_ack(a: Ack) -> (r: Vec<u8>)
    ensures
        r@ == ack_bytes(a),
{
    match a {
        Ack::Accepted => bincode_variant(0),
        Ack::ServiceNotExist => bincode_variant(1),
        Ack::AuthFailed => bincode_variant(2),
        Ack::RejectedDueToTimestamp => bincode_variant(3),
    }
}

/// Reads an answer from the front of `bytes`, if there is one.
pub fn decode_ack(bytes: &[u8]) -> (r: Option<Ack>)
    ensures
        r matches Some(a) ==> ack_bytes(a).is_prefix_of(bytes@),
        r is None ==> forall|a: Ack| !(#[trigger] ack_bytes(a)).is_prefix_of(bytes@),
{
    match bincode_read_variant(bytes) {
        None => {
            proof {
                lemma_too_short(bytes@);
            }
            None
        },
        Some(tag) => {
            proof {
                lemma_tag_in_front(bytes@, tag);
            }
            match tag {
                0 => Some(Ack::Accepted),
                1 => Some(Ack::ServiceNotExist),
                2 => Some(Ack::AuthFailed),
                3 => Some(Ack::RejectedDueToTimestamp),
                _ => None,
            }
        },
    }
}

proof fn lemma_too_short(bytes: Seq<u8>)
    requires
        bytes.len() < 4,
    ensures
        forall|tag: u32| !(#[trigger] le_bytes(tag as nat, 4)).is_prefix_of(bytes),
{
    assert forall|tag: u32| !(#[trigger] le_bytes(tag as nat, 4)).is_prefix_of(bytes) by {
        le_bytes_read_back_u32(tag);
    }
}

proof fn lemma_tags_differ(tag: u32)
    ensures
        forall|other: u32| #[trigger]
            le_bytes(other as nat, 4) == le_bytes(tag as nat, 4) ==> other == tag,
{
    le_bytes_read_back_u32(tag);
    assert forall|other: u32| #[trigger]
        le_bytes(other as nat, 4) == le_bytes(tag as nat, 4) implies other == tag by {
        le_bytes_read_back_u32(other);
    }
}

/// The number at the front of `bytes` is `tag`, and no other.
proof fn lemma_tag_in_front(bytes: Seq<u8>, tag: u32)
    requires
        bytes.len() >= 4,
        le_bytes(tag as nat, 4) == bytes.take(4),
    ensures
        forall|other: u32|
            (#[trigger] le_bytes(other as nat, 4)).is_prefix_of(bytes) <==> other == tag,
{
    lemma_tags_differ(tag);
    assert forall|other: u32|
        (#[trigger] le_bytes(other as nat, 4)).is_prefix_of(bytes) <==> other == tag by {
        le_bytes_read_back_u32(other);
        assert(bytes.take(4) =~= bytes.subrange(0, 4));
    }
}

proof fn lemma_tag_is_read_back(tag: u32, rest: Seq<u8>, read: u32)
    ensures
        le_bytes(read as nat, 4).is_prefix_of(le_bytes(tag as nat, 4) + rest) <==> read == tag,
{
    le_bytes_read_back_u32(tag);
    let all = le_bytes(tag as nat, 4) + rest;
    assert(all.take(4) =~= le_bytes(tag as nat, 4));
    lemma_tag_in_front(all, tag);
}

/// From bytes that begin with an answer, that answer is read and no other.
pub proof fn ack_is_read_back(a: Ack, rest: Seq<u8>, read: Ack)
    ensures
        ack_bytes(read).is_prefix_of(ack_bytes(a) + rest) <==> read == a,
{
    lemma_tag_is_read_back(ack_tag(a), rest, ack_tag(read));
}

/// Writes an authentication: the session key alone.
pub fn encode_auth(session_key: &Digest) -> (r: Vec<u8>)
    ensures
        r@ == session_key@,
{
    bincode_digest(session_key)
}

/// Reads an authentication from the front of `bytes`, if it is all there.
pub fn decode_auth(bytes: &[u8]) -> (r: Option<Digest>)
    ensures
        r is Some <==> bytes@.len() >= HASH_WIDTH_IN_BYTES,
        r matches Some(d) ==> d@ == bytes@.take(HASH_WIDTH_IN_BYTES as int),
{
    bincode_read_digest(bytes)
}

/// The number of a command in a version. Version 2 knows two commands and
/// numbers them as it always did; it has no number for the third.
pub open spec fn control_cmd_tag(version: u8, cmd: ControlChannelCmd) -> Option<u32> {
    if version == PROTO_V2 {
        match cmd {
            ControlChannelCmd::CreateDataChannel => Some(0),
            ControlChannelCmd::HeartBeat => Some(1),
            ControlChannelCmd::CreateDataMux => None,
        }
    } else {
        match cmd {
            ControlChannelCmd::CreateDataChannel => Some(0),
            ControlChannelCmd::CreateDataMux => Some(1),
            ControlChannelCmd::HeartBeat => Some(2),
        }
    }
}

/// A command on the wire, in a version that has it.
pub open spec fn control_cmd_bytes(version: u8, cmd: ControlChannelCmd) -> Option<Seq<u8>> {
    match control_cmd_tag(version, cmd) {
        Some(tag) => Some(le_bytes(tag as nat, 4)),
        None => None,
    }
}

/// Writes a command in a version; `None` where the version lacks it.
pub fn encode_control_cmd(version: u8, cmd: ControlChannelCmd) -> (r: Option<Vec<u8>>)
    ensures
        r is Some <==> control_cmd_bytes(version, cmd) is Some,
        r matches Some(b) ==> b@ == control_cmd_bytes(version, cmd)->0,
{
    if version == PROTO_V2 {
        match cmd {
            ControlChannelCmd::CreateDataChannel => Some(bincode_variant(0)),
            ControlChannelCmd::HeartBeat => Some(bincode_variant(1)),
            ControlChannelCmd::CreateDataMux => None,
        }
    } else {
        match cmd {
            ControlChannelCmd::CreateDataChannel => Some(bincode_variant(0)),
            ControlChannelCmd::CreateDataMux => Some(bincode_variant(1)),
            ControlChannelCmd::HeartBeat => Some(bincode_variant(2)),
        }
    }
}

/// Reads a command of a version from the front of `bytes`, if there is one.
pub fn decode_control_cmd(version: u8, bytes: &[u8]) -> (r: Option<ControlChannelCmd>)
    ensures
        r matches Some(c) ==> (control_cmd_bytes(version, c) matches Some(b) && b.is_prefix_of(
            bytes@,
        )),
        r is None ==> forall|c: ControlChannelCmd|
            (#[trigger] control_cmd_bytes(version, c)) matches Some(b) ==> !b.is_prefix_of(bytes@),
{
    match bincode_read_variant(bytes) {
        None => {
            proof {
                lemma_too_short(bytes@);
            }
            None
        },
        Some(tag) => {
            proof {
                lemma_tag_in_front(bytes@, tag);
            }
            if version == PROTO_V2 {
                match tag {
                    0 => Some(ControlChannelCmd::CreateDataChannel),
                    1 => Some(ControlChannelCmd::HeartBeat),
                    _ => None,
                }
            } else {
                match tag {
                    0 => Some(ControlChannelCmd::CreateDataChannel),
                    1 => Some(ControlChannelCmd::CreateDataMux),
                    2 => Some(ControlChannelCmd::HeartBeat),
                    _ => None,
                }
            }
        },
    }
}

/// From bytes that begin with a command of a version, that command is read in
/// that version and no other.
pub proof fn control_cmd_is_read_back(
    version: u8,
    cmd: ControlChannelCmd,
    rest: Seq<u8>,
    read: ControlChannelCmd,
)
    requires
        control_cmd_bytes(version, cmd) is Some,
    ensures
        (control_cmd_bytes(version, read) matches Some(b) && b.is_prefix_of(
            control_cmd_bytes(version, cmd)->0 + rest,
        )) <==> read == cmd,
{
    if control_cmd_tag(version, read) is Some {
        lemma_tag_is_read_back(
            control_cmd_tag(version, cmd)->0,
            rest,
            control_cmd_tag(version, read)->0,
        );
    }
}

/// The number of a data channel command.
pub open spec fn data_cmd_tag(cmd: DataChannelCmd) -> u32 {
    match cmd {
        DataChannelCmd::StartForwardTcp => 0,
        DataChannelCmd::StartForwardUdp => 1,
    }
}

/// A data channel command on the wire.
pub open spec fn data_cmd_bytes(cmd: DataChannelCmd) -> Seq<u8> {
    le_bytes(data_cmd_tag(cmd) as nat, 4)
}

/// Writes a data channel command.
pub fn encode_data_cmd(cmd: DataChannelCmd) -> (r: Vec<u8>)
    ensures
        r@ == data_cmd_bytes(cmd),
{
    match cmd {
        DataChannelCmd::StartForwardTcp => bincode_variant(0),
        DataChannelCmd::StartForwardUdp => bincode_variant(1),
    }
}

/// Reads a data channel command from the front of `bytes`, if there is one.
pub fn decode_data_cmd(bytes: &[u8]) -> (r: Option<DataChannelCmd>)
    ensures
        r matches Some(c) ==> data_cmd_bytes(c).is_prefix_of(bytes@),
        r is None ==> forall|c: DataChannelCmd|
            !(#[trigger] data_cmd_bytes(c)).is_prefix_of(bytes@),
{
    match bincode_read_variant(bytes) {
        None => {
            proof {
                lemma_too_short(bytes@);
            }
            None
        },
        Some(tag) => {
            proof {
                lemma_tag_in_front(bytes@, tag);
            }
            match tag {
                0 => Some(DataChannelCmd::StartForwardTcp),
                1 => Some(DataChannelCmd::StartForwardUdp),
                _ => None,
            }
        },
    }
}

/// From bytes that begin with a data channel command, that command is read and
/// no other.
pub proof fn data_cmd_is_read_back(cmd: DataChannelCmd, rest: Seq<u8>, read: DataChannelCmd)
    ensures
        data_cmd_bytes(read).is_prefix_of(data_cmd_bytes(cmd) + rest) <==> read == cmd,
{
    lemma_tag_is_read_back(data_cmd_tag(cmd), rest, data_cmd_tag(read));
}

/// The number of a client's word on a request.
pub open spec fn mux_kind_tag(kind: MuxRespKind) -> u32 {
    match kind {
        MuxRespKind::Accepted => 0,
        MuxRespKind::Rejected => 1,
        MuxRespKind::Failed => 2,
    }
}

/// The answer to a request for a multiplexed connection on the wire.
pub open spec fn mux_resp_bytes(resp: ControlChannelMuxResp) -> Seq<u8> {
    le_bytes(mux_kind_tag(resp.kind) as nat, 4) + le_bytes(resp.max_pool as nat, 2) + le_bytes(
        resp.active as nat,
        2,
    )
}

/// Writes the answer to a request for a multiplexed connection.
pub fn encode_mux_resp(resp: &ControlChannelMuxResp) -> (r: Vec<u8>)
    ensures
        r@ == mux_resp_bytes(*resp),
{
    match resp.kind {
        MuxRespKind::Accepted => bincode_tagged_pair(0, resp.max_pool, resp.active),
        MuxRespKind::Rejected => bincode_tagged_pair(1, resp.max_pool, resp.active),
        MuxRespKind::Failed => bincode_tagged_pair(2, resp.max_pool, resp.active),
    }
}

/// Reads the answer to a request for a multiplexed connection from the front
/// of `bytes`, if there is one.
pub fn decode_mux_resp(bytes: &[u8]) -> (r: Option<ControlChannelMuxResp>)
    ensures
        r matches Some(resp) ==> mux_resp_bytes(resp).is_prefix_of(bytes@),
        r is None ==> forall|resp: ControlChannelMuxResp|
            !(#[trigger] mux_resp_bytes(resp)).is_prefix_of(bytes@),
{
    match bincode_read_tagged_pair(bytes) {
        None => {
            assert forall|resp: ControlChannelMuxResp|
                !(#[trigger] mux_resp_bytes(resp)).is_prefix_of(bytes@) by {
                lemma_mux_resp_parts(resp);
            }
            None
        },
        Some((tag, max_pool, active)) => {
            let r = match tag {
                0 => Some(
                    ControlChannelMuxResp { kind: MuxRespKind::Accepted, max_pool, active },
                ),
                1 => Some(
                    ControlChannelMuxResp { kind: MuxRespKind::Rejected, max_pool, active },
                ),
                2 => Some(ControlChannelMuxResp { kind: MuxRespKind::Failed, max_pool, active }),
                _ => None,
            };
            proof {
                let front = bytes@.take(8);
                le_bytes_read_back_u32(tag);
                assert(front.take(4) =~= le_bytes(tag as nat, 4));
                assert(front =~= bytes@.subrange(0, 8));
                if r is None {
                    assert forall|resp: ControlChannelMuxResp|
                        !(#[trigger] mux_resp_bytes(resp)).is_prefix_of(bytes@) by {
                        lemma_mux_resp_parts(resp);
                    }
                } else {
                    lemma_mux_resp_parts(r->0);
                }
            }
            r
        },
    }
}

proof fn lemma_mux_resp_parts(resp: ControlChannelMuxResp)
    ensures
        mux_resp_bytes(resp).len() == 8,
        le_value(mux_resp_bytes(resp).take(4)) == mux_kind_tag(resp.kind),
        le_value(mux_resp_bytes(resp).subrange(4, 6)) == resp.max_pool,
        le_value(mux_resp_bytes(resp).subrange(6, 8)) == resp.active,
{
    reveal_with_fuel(crate::wire::byte_range, 3);
    le_bytes_read_back_u32(mux_kind_tag(resp.kind));
    le_bytes_read_back(resp.max_pool as nat, 2);
    le_bytes_read_back(resp.active as nat, 2);
    let all = mux_resp_bytes(resp);
    assert(all.take(4) =~= le_bytes(mux_kind_tag(resp.kind) as nat, 4));
    assert(all.subrange(4, 6) =~= le_bytes(resp.max_pool as nat, 2));
    assert(all.subrange(6, 8) =~= le_bytes(resp.active as nat, 2));
}

/// From bytes that begin with the answer to a request for a multiplexed
/// connection, that answer is read and no other.
pub proof fn mux_resp_is_read_back(
    resp: ControlChannelMuxResp,
    rest: Seq<u8>,
    read: ControlChannelMuxResp,
)
    ensures
        mux_resp_bytes(read).is_prefix_of(mux_resp_bytes(resp) + rest) <==> read == resp,
{
    lemma_mux_resp_parts(resp);
    lemma_mux_resp_parts(read);
    assert((mux_resp_bytes(resp) + rest).subrange(0, 8) =~= mux_resp_bytes(resp));
}

/// The single byte that stands for a mode.
pub open spec fn mode_byte(mode: DataChannelMode) -> u8 {
    match mode {
        DataChannelMode::Plain => 0,
        DataChannelMode::Mux => 1,
    }
}

/// Writes a mode.
pub fn encode_mode(mode: DataChannelMode) -> (r: u8)
    ensures
        r == mode_byte(mode),
{
    match mode {
        DataChannelMode::Plain => 0,
        DataChannelMode::Mux => 1,
    }
}

/// The mode that a byte stands for, if any.
pub fn mode_from_byte(b: u8) -> (r: Option<DataChannelMode>)
    ensures
        r matches Some(m) ==> mode_byte(m) == b,
        r is Some <==> b <= 1,
{
    match b {
        0 => Some(DataChannelMode::Plain),
        1 => Some(DataChannelMode::Mux),
        _ => None,
    }
}

/// A hello on the wire: which of the two it is in the first of four bytes, the
/// version in the fifth, and then the digest.
pub proof fn hellos_have_their_places(h: Hello)
    ensures
        hello_bytes(h)[0] == (if h is ControlChannelHello {
            0u8
        } else {
            1u8
        }),
        hello_bytes(h)[1] == 0 && hello_bytes(h)[2] == 0 && hello_bytes(h)[3] == 0,
        h matches Hello::ControlChannelHello(v, d) ==> hello_bytes(h)[4] == v
            && hello_bytes(h).skip(5) == d@,
        h matches Hello::DataChannelHello(v, d) ==> hello_bytes(h)[4] == v && hello_bytes(
            h,
        ).skip(5) == d@,
{
    lemma_small_tag(hello_tag(h));
    hello_length_does_not_depend_on_version(h);
    assert(hello_bytes(h).skip(5) =~= hello_digest(h)@);
}

proof fn lemma_small_tag(tag: u32)
    requires
        tag < 256,
    ensures
        le_bytes(tag as nat, 4) == seq![tag as u8, 0u8, 0u8, 0u8],
{
    reveal_with_fuel(le_bytes, 5);
    assert(le_bytes(tag as nat, 4) =~= seq![tag as u8, 0u8, 0u8, 0u8]);
}

/// Answers and commands are numbered on the wire, in four bytes with the number
/// in the first. A command to open a data channel has the same number in every
/// version; a multiplexed connection came in between, and moved the heartbeat
/// by one for those who know it.
pub proof fn messages_keep_their_numbers(version: u8)
    requires
        version != 2,
    ensures
        ack_bytes(Ack::Accepted) == seq![0u8, 0u8, 0u8, 0u8],
        ack_bytes(Ack::ServiceNotExist) == seq![1u8, 0u8, 0u8, 0u8],
        ack_bytes(Ack::AuthFailed) == seq![2u8, 0u8, 0u8, 0u8],
        ack_bytes(Ack::RejectedDueToTimestamp) == seq![3u8, 0u8, 0u8, 0u8],
        data_cmd_bytes(DataChannelCmd::StartForwardTcp) == seq![0u8, 0u8, 0u8, 0u8],
        data_cmd_bytes(DataChannelCmd::StartForwardUdp) == seq![1u8, 0u8, 0u8, 0u8],
        control_cmd_bytes(2, ControlChannelCmd::CreateDataChannel) == Some(
            seq![0u8, 0u8, 0u8, 0u8],
        ),
        control_cmd_bytes(2, ControlChannelCmd::HeartBeat) == Some(seq![1u8, 0u8, 0u8, 0u8]),
        control_cmd_bytes(2, ControlChannelCmd::CreateDataMux) is None,
        control_cmd_bytes(version, ControlChannelCmd::CreateDataChannel) == control_cmd_bytes(
            2,
            ControlChannelCmd::CreateDataChannel,
        ),
        control_cmd_bytes(version, ControlChannelCmd::CreateDataMux) == Some(
            seq![1u8, 0u8, 0u8, 0u8],
        ),
        control_cmd_bytes(version, ControlChannelCmd::HeartBeat) == Some(seq![2u8, 0u8, 0u8, 0u8]),
{
    lemma_small_tag(0);
    lemma_small_tag(1);
    lemma_small_tag(2);
    lemma_small_tag(3);
}

/// The client's word on a request: its kind, in four bytes, then its bound and
/// its connections, in two bytes each with the low byte first.
pub proof fn mux_answers_have_their_places(resp: ControlChannelMuxResp)
    ensures
        ({
            let b = mux_resp_bytes(resp);
            &&& b.len() == 8
            &&& resp.kind is Accepted ==> b[0] == 0
            &&& resp.kind is Rejected ==> b[0] == 1
            &&& resp.kind is Failed ==> b[0] == 2
            &&& b[1] == 0 && b[2] == 0 && b[3] == 0
            &&& b[4] + 256 * b[5] == resp.max_pool
            &&& b[6] + 256 * b[7] == resp.active
        }),
{
    lemma_mux_resp_parts(resp);
    lemma_small_tag(mux_kind_tag(resp.kind));
    reveal_with_fuel(le_bytes, 3);
    let b = mux_resp_bytes(resp);
    assert(b.take(4) =~= le_bytes(mux_kind_tag(resp.kind) as nat, 4));
    assert(b[0] == b.take(4)[0] && b[1] == b.take(4)[1] && b[2] == b.take(4)[2] && b[3] == b.take(
        4,
    )[3]);
    assert(b.subrange(4, 6) =~= le_bytes(resp.max_pool as nat, 2));
    assert(b[4] == b.subrange(4, 6)[0] && b[5] == b.subrange(4, 6)[1]);
    assert(b.subrange(6, 8) =~= le_bytes(resp.active as nat, 2));
    assert(b[6] == b.subrange(6, 8)[0] && b[7] == b.subrange(6, 8)[1]);
}

/// Versions two and three are spoken, and no other.
pub proof fn two_versions_are_spoken(version: u8)
    ensures
        accepted_version(version) <==> 2 <= version <= 3,
{
}

/// A session key is the digest of the token and the nonce put together, one
/// after the other: it does not matter where the one ends and the other
/// begins, and without a token it is the digest of the nonce.
pub proof fn session_keys_digest_token_and_nonce(a: Seq<u8>, b: Seq<u8>, c: Seq<u8>)
    ensures
        session_key_of(a, b + c) == session_key_of(a + b, c),
        session_key_of(Seq::empty(), c) == crate::outside::sha256(c),
{
    assert(a + (b + c) =~= (a + b) + c);
    assert(Seq::<u8>::empty() + c =~= c);
}

/// A mode is told by a byte: zero for a plain data channel, one for a
/// multiplexed connection.
pub proof fn modes_are_told_by_a_byte(mode: DataChannelMode)
    ensures
        mode_byte(mode) == 0 <==> mode is Plain,
        mode_byte(mode) == 1 <==> mode is Mux,
{
}

} // verus!

use rathole::protocol::{
    decode_ack, decode_auth, decode_control_cmd, decode_data_cmd, decode_hello, decode_mux_resp,
    derive_session_key, digest, encode_ack, encode_auth, encode_control_cmd, encode_data_cmd,
    encode_hello, encode_mode, encode_mux_resp, fresh_nonce, is_accepted_version, mode_from_byte,
    Ack, ControlChannelCmd, ControlChannelMuxResp, DataChannelCmd, DataChannelMode, Hello,
    MuxRespKind, HELLO_LEN, MUX_RESP_LEN, PROTO_V1, PROTO_V2, PROTO_V3, TAG_LEN,
};
use rathole::wire::{le_u64, push_all, push_be_u16, same_bytes};

// The digest of "abc", from FIPS 180-4.
const ABC: [u8; 32] = [
    0xba, 0x78, 0x16, 0xbf, 0x8f, 0x01, 0xcf, 0xea, 0x41, 0x41, 0x40, 0xde, 0x5d, 0xae, 0x22, 0x23,
    0xb0, 0x03, 0x61, 0xa3, 0x96, 0x17, 0x7a, 0x9c, 0xb4, 0x10, 0xff, 0x61, 0xf2, 0x00, 0x15, 0xad,
];

#[test]
fn digest_is_sha256() {
    assert_eq!(digest(b"abc"), ABC);
}

#[test]
fn session_key_is_the_digest_of_token_and_nonce() {
    let mut nonce = [0u8; 32];
    nonce[0] = 7;
    let mut both = b"secret".to_vec();
    both.extend_from_slice(&nonce);
    assert_eq!(derive_session_key("secret", &nonce), digest(&both));
    assert_ne!(derive_session_key("other", &nonce), digest(&both));
}

#[test]
fn nonces_differ() {
    assert_ne!(fresh_nonce(), fresh_nonce());
}

#[test]
fn versions_two_and_three_are_spoken() {
    assert!(!is_accepted_version(PROTO_V1));
    assert!(is_accepted_version(PROTO_V2));
    assert!(is_accepted_version(PROTO_V3));
    assert!(!is_accepted_version(0));
    assert!(!is_accepted_version(4));
}

#[test]
fn hello_layout_and_round_trip() {
    let control = Hello::ControlChannelHello(PROTO_V3, ABC);
    let bytes = encode_hello(&control);
    assert_eq!(bytes.len(), HELLO_LEN);
    assert_eq!(bytes[..5], [0, 0, 0, 0, 3]);
    assert_eq!(bytes[5..], ABC);
    match decode_hello(&bytes) {
        Some(Hello::ControlChannelHello(v, d)) => {
            assert_eq!(v, PROTO_V3);
            assert_eq!(d, ABC);
        }
        other => panic!("{:?}", other),
    }

    let data = Hello::DataChannelHello(PROTO_V2, ABC);
    let mut bytes = encode_hello(&data);
    assert_eq!(bytes.len(), HELLO_LEN);
    assert_eq!(bytes[..5], [1, 0, 0, 0, 2]);
    bytes.push(99);
    match decode_hello(&bytes) {
        Some(Hello::DataChannelHello(v, d)) => {
            assert_eq!(v, PROTO_V2);
            assert_eq!(d, ABC);
        }
        other => panic!("{:?}", other),
    }
}

#[test]
fn damaged_hellos_are_not_read() {
    let mut bytes = encode_hello(&Hello::DataChannelHello(PROTO_V2, ABC));
    assert!(decode_hello(&bytes[..36]).is_none());
    assert!(decode_hello(&[]).is_none());
    bytes[0] = 2;
    assert!(decode_hello(&bytes).is_none());
}

#[test]
fn acks_are_numbered_and_read_back() {
    let all = [
        Ack::Accepted,
        Ack::ServiceNotExist,
        Ack::AuthFailed,
        Ack::RejectedDueToTimestamp,
    ];
    for (i, ack) in all.iter().enumerate() {
        let bytes = encode_ack(*ack);
        assert_eq!(bytes, vec![i as u8, 0, 0, 0]);
        assert_eq!(bytes.len(), TAG_LEN);
        assert_eq!(decode_ack(&bytes), Some(*ack));
    }
    assert_eq!(decode_ack(&[4, 0, 0, 0]), None);
    assert_eq!(decode_ack(&[0, 0, 0]), None);
    assert_eq!(decode_ack(&[0, 0, 1, 0]), None);
}

#[test]
fn auth_is_the_bare_key() {
    assert_eq!(encode_auth(&ABC), ABC.to_vec());
    assert_eq!(decode_auth(&ABC), Some(ABC));
    assert_eq!(decode_auth(&ABC[..31]), None);
}

#[test]
fn version_two_keeps_its_command_numbers() {
    let create = ControlChannelCmd::CreateDataChannel;
    let mux = ControlChannelCmd::CreateDataMux;
    let beat = ControlChannelCmd::HeartBeat;
    assert_eq!(encode_control_cmd(PROTO_V2, create), Some(vec![0, 0, 0, 0]));
    assert_eq!(encode_control_cmd(PROTO_V2, beat), Some(vec![1, 0, 0, 0]));
    assert_eq!(encode_control_cmd(PROTO_V2, mux), None);
    assert_eq!(encode_control_cmd(PROTO_V3, create), Some(vec![0, 0, 0, 0]));
    assert_eq!(encode_control_cmd(PROTO_V3, mux), Some(vec![1, 0, 0, 0]));
    assert_eq!(encode_control_cmd(PROTO_V3, beat), Some(vec![2, 0, 0, 0]));

    assert_eq!(decode_control_cmd(PROTO_V2, &[1, 0, 0, 0]), Some(beat));
    assert_eq!(decode_control_cmd(PROTO_V2, &[2, 0, 0, 0]), None);
    assert_eq!(decode_control_cmd(PROTO_V3, &[1, 0, 0, 0]), Some(mux));
    assert_eq!(decode_control_cmd(PROTO_V3, &[2, 0, 0, 0]), Some(beat));
    assert_eq!(decode_control_cmd(PROTO_V3, &[3, 0, 0, 0]), None);
    assert_eq!(decode_control_cmd(PROTO_V3, &[1]), None);
}

#[test]
fn data_commands_are_read_back() {
    for cmd in [DataChannelCmd::StartForwardTcp, DataChannelCmd::StartForwardUdp] {
        assert_eq!(decode_data_cmd(&encode_data_cmd(cmd)), Some(cmd));
    }
    assert_eq!(encode_data_cmd(DataChannelCmd::StartForwardUdp), vec![1, 0, 0, 0]);
    assert_eq!(decode_data_cmd(&[2, 0, 0, 0]), None);
}

#[test]
fn mux_answers_are_read_back() {
    let resp = ControlChannelMuxResp {
        kind: MuxRespKind::Rejected,
        max_pool: 0x0102,
        active: 0x0304,
    };
    let bytes = encode_mux_resp(&resp);
    assert_eq!(bytes, vec![1, 0, 0, 0, 2, 1, 4, 3]);
    assert_eq!(bytes.len(), MUX_RESP_LEN);
    assert_eq!(decode_mux_resp(&bytes), Some(resp));
    for kind in [MuxRespKind::Accepted, MuxRespKind::Failed] {
        let resp = ControlChannelMuxResp { kind, ..resp };
        assert_eq!(decode_mux_resp(&encode_mux_resp(&resp)), Some(resp));
    }
    assert_eq!(decode_mux_resp(&bytes[..7]), None);
    assert_eq!(decode_mux_resp(&[3, 0, 0, 0, 0, 0, 0, 0]), None);
}

#[test]
fn modes_are_one_byte() {
    assert_eq!(encode_mode(DataChannelMode::Plain), 0);
    assert_eq!(encode_mode(DataChannelMode::Mux), 1);
    assert_eq!(mode_from_byte(0), Some(DataChannelMode::Plain));
    assert_eq!(mode_from_byte(1), Some(DataChannelMode::Mux));
    assert_eq!(mode_from_byte(2), None);
}

#[test]
fn bytes_are_laid_out() {
    assert_eq!(le_u64(0x0102_0304_0506_0708), vec![8, 7, 6, 5, 4, 3, 2, 1]);
    let mut v = vec![9];
    push_be_u16(&mut v, 0x1234);
    push_all(&mut v, &[1, 2]);
    assert_eq!(v, vec![9, 0x12, 0x34, 1, 2]);
    assert!(same_bytes(&[1, 2], &[1, 2]));
    assert!(!same_bytes(&[1, 2], &[1, 3]));
    assert!(!same_bytes(&[1], &[1, 3]));
}

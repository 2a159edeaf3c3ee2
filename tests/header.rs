use grin_p2p_msg::msg::{
    check_expected_header, decode_body, decode_header, default_max_msg_size, magic,
    max_block_size, max_msg_size, ChainType, Error, MsgHeader, MsgHeaderWrapper, ProtocolConfig,
    DEFAULT_SIZE_SLACK, MAX_BLOCK_WEIGHT,
};
use grin_p2p_msg::payload::Ping;
use grin_p2p_msg::ser::{BinReader, BinWriter, ProtocolVersion, SerError, Writeable};
use grin_p2p_msg::types::{Difficulty, Type};

fn mainnet() -> ProtocolConfig {
    ProtocolConfig::new(ChainType::Mainnet, MAX_BLOCK_WEIGHT)
}

fn header_bytes(msg_type: Type, len: u64, chain: ChainType) -> Vec<u8> {
    let mut w = BinWriter::new(ProtocolVersion(1));
    MsgHeader::new(msg_type, len, chain).write(&mut w);
    w.buf
}

fn raw_header(m: [u8; 2], code: u8, len: u64) -> Vec<u8> {
    let mut v = vec![m[0], m[1], code];
    v.extend_from_slice(&len.to_be_bytes());
    v
}

#[test]
fn magic_per_network() {
    assert_eq!(magic(ChainType::Mainnet), [97, 61]);
    assert_eq!(magic(ChainType::Floonet), [83, 59]);
    assert_eq!(magic(ChainType::AutomatedTesting), [73, 43]);
    assert_eq!(magic(ChainType::UserTesting), [73, 43]);
}

#[test]
fn size_limits() {
    let cfg = mainnet();
    assert_eq!(cfg.size_slack, DEFAULT_SIZE_SLACK);
    assert_eq!(max_block_size(&cfg), 40_000 / 21 * 708);
    assert_eq!(max_block_size(&cfg), 1_348_032);
    assert_eq!(default_max_msg_size(&cfg), 1_348_032);
    assert_eq!(max_msg_size(Type::Ping, &cfg), 16);
    assert_eq!(max_msg_size(Type::Hand, &cfg), 128);
    assert_eq!(max_msg_size(Type::Shake, &cfg), 88);
    assert_eq!(max_msg_size(Type::PeerAddrs, &cfg), 4 + 19 * 256);
    assert_eq!(max_msg_size(Type::GetHeaders, &cfg), 1 + 32 * 20);
    assert_eq!(max_msg_size(Type::Headers, &cfg), 2 + 365 * 32);
    assert_eq!(max_msg_size(Type::Block, &cfg), 1_348_032);
    assert_eq!(max_msg_size(Type::CompactBlock, &cfg), 134_803);
    assert_eq!(max_msg_size(Type::KernelDataRequest, &cfg), 0);
    assert_eq!(max_msg_size(Type::KernelDataResponse, &cfg), 8);
    let testing = ProtocolConfig::new(ChainType::AutomatedTesting, 250);
    assert_eq!(max_block_size(&testing), 250 / 21 * 708);
}

#[test]
fn type_codes_are_stable() {
    for c in 0u8..=22 {
        let t = Type::from_u8(c).unwrap();
        assert_eq!(t.code(), c);
    }
    assert_eq!(Type::from_u8(18), Some(Type::BanReason));
    assert_eq!(Type::from_u8(23), None);
    assert_eq!(Type::from_u8(200), None);
}

#[test]
fn header_layout() {
    let b = header_bytes(Type::Ping, 16, ChainType::Mainnet);
    assert_eq!(b, vec![97, 61, 3, 0, 0, 0, 0, 0, 0, 0, 16]);
    assert_eq!(b.len(), MsgHeader::LEN);
}

#[test]
fn header_round_trip() {
    let cfg = mainnet();
    for (t, len) in [(Type::Ping, 0u64), (Type::Ping, 64), (Type::Hand, 500), (Type::Block, 1_000_000)] {
        let b = header_bytes(t, len, ChainType::Mainnet);
        match decode_header(&b, ProtocolVersion(1), &cfg) {
            Ok(MsgHeaderWrapper::Known(h)) => {
                assert_eq!(h.msg_type, t);
                assert_eq!(h.msg_len, len);
                assert_eq!(h.magic, [97, 61]);
            }
            _ => panic!("header did not read back"),
        }
    }
}

#[test]
fn header_oversize_rejected() {
    let cfg = mainnet();
    let cap = 16 * 4;
    let at = header_bytes(Type::Ping, cap, ChainType::Mainnet);
    assert!(matches!(
        decode_header(&at, ProtocolVersion(1), &cfg),
        Ok(MsgHeaderWrapper::Known(h)) if h.msg_len == cap
    ));
    let over = header_bytes(Type::Ping, cap + 1, ChainType::Mainnet);
    assert_eq!(
        decode_header(&over, ProtocolVersion(1), &cfg).err(),
        Some(Error::Serialization(SerError::TooLargeReadErr))
    );
    let cap_hand = 128 * 4;
    let over_hand = header_bytes(Type::Hand, cap_hand + 1, ChainType::Mainnet);
    assert_eq!(
        decode_header(&over_hand, ProtocolVersion(1), &cfg).err(),
        Some(Error::Serialization(SerError::TooLargeReadErr))
    );
    let error_type = header_bytes(Type::Error, 1, ChainType::Mainnet);
    assert_eq!(
        decode_header(&error_type, ProtocolVersion(1), &cfg).err(),
        Some(Error::Serialization(SerError::TooLargeReadErr))
    );
}

#[test]
fn slack_is_configurable() {
    let mut cfg = mainnet();
    cfg.size_slack = 1;
    let b = header_bytes(Type::Ping, 17, ChainType::Mainnet);
    assert_eq!(
        decode_header(&b, ProtocolVersion(1), &cfg).err(),
        Some(Error::Serialization(SerError::TooLargeReadErr))
    );
    cfg.size_slack = 2;
    assert!(decode_header(&b, ProtocolVersion(1), &cfg).is_ok());
}

#[test]
fn unknown_type_tolerated() {
    let cfg = mainnet();
    let cap = 1_348_032u64 * 4;
    let b = raw_header([97, 61], 23, cap);
    assert!(matches!(
        decode_header(&b, ProtocolVersion(1), &cfg),
        Ok(MsgHeaderWrapper::Unknown(len, 23)) if len == cap
    ));
    let over = raw_header([97, 61], 23, cap + 1);
    assert_eq!(
        decode_header(&over, ProtocolVersion(1), &cfg).err(),
        Some(Error::Serialization(SerError::TooLargeReadErr))
    );
}

#[test]
fn unrecognized_type_skip() {
    let cfg = mainnet();
    let mut stream = raw_header([97, 61], 200, 10);
    stream.extend_from_slice(&[0xAB; 10]);
    stream.extend_from_slice(&header_bytes(Type::Ping, 16, ChainType::Mainnet));
    let mut w = BinWriter::new(ProtocolVersion(1));
    Ping { total_difficulty: Difficulty::from_num(5), height: 9 }.write(&mut w);
    stream.extend_from_slice(&w.buf);

    let first = decode_header(&stream[0..11], ProtocolVersion(1), &cfg);
    let skip = match first {
        Ok(MsgHeaderWrapper::Unknown(len, t)) => {
            assert_eq!((len, t), (10, 200));
            len as usize
        }
        _ => panic!("expected an unknown header"),
    };
    let next = 11 + skip;
    let second = decode_header(&stream[next..next + 11], ProtocolVersion(1), &cfg);
    let h = check_expected_header(second.unwrap(), Type::Ping).unwrap();
    assert_eq!(h.msg_len, 16);
    let body_start = next + 11;
    let ping: Ping =
        decode_body(&stream[body_start..body_start + h.msg_len as usize], ProtocolVersion(1))
            .unwrap();
    assert_eq!(ping.height, 9);
    assert_eq!(ping.total_difficulty.to_num(), 5);
}

#[test]
fn magic_mismatch_rejected() {
    let cfg = mainnet();
    let b = header_bytes(Type::Ping, 16, ChainType::Floonet);
    assert_eq!(
        decode_header(&b, ProtocolVersion(1), &cfg).err(),
        Some(Error::Serialization(SerError::UnexpectedData { expected: 97, received: 83 }))
    );
    let b2 = raw_header([97, 0], 3, 16);
    assert_eq!(
        decode_header(&b2, ProtocolVersion(1), &cfg).err(),
        Some(Error::Serialization(SerError::UnexpectedData { expected: 61, received: 0 }))
    );
}

#[test]
fn short_header_is_eof() {
    let cfg = mainnet();
    let b = header_bytes(Type::Ping, 16, ChainType::Mainnet);
    assert_eq!(
        decode_header(&b[0..10], ProtocolVersion(1), &cfg).err(),
        Some(Error::Serialization(SerError::UnexpectedEof))
    );
    let mut r = BinReader::new(&b[0..2], ProtocolVersion(1));
    assert_eq!(r.remaining(), 2);
    assert_eq!(r.read_u16(), Ok(0x613d));
    assert_eq!(r.read_u8(), Err(SerError::UnexpectedEof));
}

#[test]
fn expected_header_check() {
    let ping = MsgHeader::new(Type::Ping, 16, ChainType::Mainnet);
    assert!(check_expected_header(MsgHeaderWrapper::Known(ping), Type::Ping).is_ok());
    assert_eq!(
        check_expected_header(MsgHeaderWrapper::Known(ping), Type::Pong).err(),
        Some(Error::BadMessage)
    );
    assert_eq!(
        check_expected_header(MsgHeaderWrapper::Unknown(10, 200), Type::Ping).err(),
        Some(Error::BadMessage)
    );
}

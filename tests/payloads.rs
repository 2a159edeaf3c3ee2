use grin_p2p_msg::msg::{
    decode_body, AttachmentProgress, AttachmentStep, ChainType, Error, Msg, MsgHeader,
    ATTACHMENT_CHUNK_SIZE,
};
use grin_p2p_msg::payload::{
    BanReason, GetPeerAddrs, Hand, Headers, KernelDataRequest, KernelDataResponse, Locator,
    PeerAddrs, PeerError, Ping, Pong, Shake, TxHashSetArchive, TxHashSetRequest,
};
use grin_p2p_msg::ser::{BinReader, BinWriter, ProtocolVersion, Readable, SerError, Writeable};
use grin_p2p_msg::types::{Capabilities, Difficulty, PeerAddr, ReasonForBan, Type, CAP_ALL};

fn encode<T: Writeable>(x: &T) -> Vec<u8> {
    let mut w = BinWriter::new(ProtocolVersion(1));
    x.write(&mut w);
    w.buf
}

fn decode<T: Readable>(b: &[u8]) -> Result<T, SerError> {
    let mut r = BinReader::new(b, ProtocolVersion(1));
    T::read(&mut r)
}

fn genesis() -> grin_p2p_msg::types::Hash {
    let mut h = [0u8; 32];
    for (i, b) in h.iter_mut().enumerate() {
        *b = i as u8 * 7;
    }
    grin_p2p_msg::types::Hash(h)
}

fn localhost(port: u16) -> PeerAddr {
    PeerAddr::V4 { ip: 0x7f00_0001, port }
}

fn sample_hand() -> Hand {
    Hand {
        version: ProtocolVersion(3),
        capabilities: Capabilities::from_bits_truncate(CAP_ALL),
        nonce: 0x1234,
        genesis: genesis(),
        total_difficulty: Difficulty::from_num(1000),
        sender_addr: localhost(3414),
        receiver_addr: localhost(3415),
        user_agent: "testnode/1.0".to_string(),
    }
}

#[test]
fn handshake_round_trip() {
    let hand = sample_hand();
    let bytes = encode(&hand);
    assert_eq!(bytes.len(), 4 + 4 + 8 + 8 + 7 + 7 + 8 + 12 + 32);
    assert_eq!(&bytes[0..4], &[0, 0, 0, 3]);
    assert_eq!(&bytes[8..16], &[0, 0, 0, 0, 0, 0, 0x12, 0x34]);
    assert_eq!(&bytes[24..31], &[0, 127, 0, 0, 1, 0x0d, 0x56]);
    let back: Hand = decode(&bytes).unwrap();
    assert_eq!(back.version, ProtocolVersion(3));
    assert_eq!(back.capabilities.bits(), CAP_ALL);
    assert_eq!(back.nonce, 0x1234);
    assert_eq!(back.genesis, genesis());
    assert_eq!(back.total_difficulty.to_num(), 1000);
    assert_eq!(back.sender_addr, localhost(3414));
    assert_eq!(back.receiver_addr, localhost(3415));
    assert_eq!(back.user_agent, "testnode/1.0");
}

#[test]
fn handshake_bad_user_agent() {
    let mut hand = sample_hand();
    hand.user_agent = "ab".to_string();
    let mut bytes = encode(&hand);
    // the two user-agent bytes sit after version, capabilities, nonce,
    // difficulty, two addresses and the length prefix
    let at = 4 + 4 + 8 + 8 + 7 + 7 + 8;
    bytes[at] = 0xff;
    assert_eq!(decode::<Hand>(&bytes).err(), Some(SerError::CorruptedData));
}

#[test]
fn capabilities_drop_unknown_bits() {
    let bytes = encode(&GetPeerAddrs { capabilities: Capabilities { bits: 0xffff_fff1 } });
    let back: GetPeerAddrs = decode(&bytes).unwrap();
    assert_eq!(back.capabilities.bits(), 1);
}

#[test]
fn shake_round_trip() {
    let shake = Shake {
        version: ProtocolVersion(2),
        capabilities: Capabilities::from_bits_truncate(5),
        genesis: genesis(),
        total_difficulty: Difficulty::from_num(77),
        user_agent: "MW/Grin 4.0".to_string(),
    };
    let bytes = encode(&shake);
    assert_eq!(bytes.len(), 4 + 4 + 8 + 8 + 11 + 32);
    let back: Shake = decode(&bytes).unwrap();
    assert_eq!(back.version, shake.version);
    assert_eq!(back.capabilities, shake.capabilities);
    assert_eq!(back.genesis, shake.genesis);
    assert_eq!(back.total_difficulty, shake.total_difficulty);
    assert_eq!(back.user_agent, shake.user_agent);
}

#[test]
fn peer_addrs_round_trip() {
    let peers = vec![
        localhost(1),
        PeerAddr::V6 { ip: 0x2001_0db8_0000_0000_0000_0000_0000_0001, port: 13414 },
    ];
    let bytes = encode(&PeerAddrs { peers: peers.clone() });
    assert_eq!(bytes.len(), 4 + 7 + 19);
    assert_eq!(&bytes[0..4], &[0, 0, 0, 2]);
    assert_eq!(bytes[11], 1);
    let back: PeerAddrs = decode(&bytes).unwrap();
    assert_eq!(back.peers, peers);
}

#[test]
fn peer_addrs_count_bounds() {
    let mut over = 257u32.to_be_bytes().to_vec();
    over.extend_from_slice(&[0u8; 64]);
    assert_eq!(decode::<PeerAddrs>(&over).err(), Some(SerError::TooLargeReadErr));

    let mut zero = 0u32.to_be_bytes().to_vec();
    zero.extend_from_slice(&[9, 9, 9]);
    let mut r = BinReader::new(&zero, ProtocolVersion(1));
    let back = PeerAddrs::read(&mut r).unwrap();
    assert!(back.peers.is_empty());
    assert_eq!(r.remaining(), 3);

    let short = 2u32.to_be_bytes().to_vec();
    assert_eq!(decode::<PeerAddrs>(&short).err(), Some(SerError::UnexpectedEof));
}

#[test]
fn locator_round_trip_and_bounds() {
    let hashes = vec![genesis(), grin_p2p_msg::types::Hash([1u8; 32])];
    let bytes = encode(&Locator { hashes: hashes.clone() });
    assert_eq!(bytes.len(), 1 + 64);
    assert_eq!(bytes[0], 2);
    let back: Locator = decode(&bytes).unwrap();
    assert_eq!(back.hashes, hashes);

    let mut over = vec![21u8];
    over.extend_from_slice(&[0u8; 32 * 21]);
    assert_eq!(decode::<Locator>(&over).err(), Some(SerError::TooLargeReadErr));

    let zero = vec![0u8, 5, 5];
    let mut r = BinReader::new(&zero, ProtocolVersion(1));
    assert!(Locator::read(&mut r).unwrap().hashes.is_empty());
    assert_eq!(r.remaining(), 2);
}

#[test]
fn headers_written_with_u16_count() {
    let headers = Headers { headers: vec![genesis(), genesis(), genesis()] };
    let bytes = encode(&headers);
    assert_eq!(bytes.len(), 2 + 3 * 32);
    assert_eq!(&bytes[0..2], &[0, 3]);
    assert_eq!(&bytes[2..34], &genesis().0);
    let back: Headers<grin_p2p_msg::types::Hash> = decode(&bytes).unwrap();
    assert_eq!(back.headers, vec![genesis(), genesis(), genesis()]);
    assert_eq!(
        decode::<Headers<grin_p2p_msg::types::Hash>>(&bytes[0..40]).err(),
        Some(SerError::UnexpectedEof)
    );
}

#[test]
fn peer_error_round_trip() {
    let e = PeerError { code: 42, message: "bad peer é".to_string() };
    let bytes = encode(&e);
    let back: PeerError = decode(&bytes).unwrap();
    assert_eq!(back.code, 42);
    assert_eq!(back.message, "bad peer é");
}

#[test]
fn heartbeat_round_trip() {
    let ping = Ping { total_difficulty: Difficulty::from_num(1 << 40), height: 123_456 };
    let bytes = encode(&ping);
    assert_eq!(bytes.len(), 16);
    assert_eq!(decode::<Ping>(&bytes).unwrap(), ping);
    let pong = Pong { total_difficulty: Difficulty::from_num(3), height: 4 };
    assert_eq!(decode::<Pong>(&encode(&pong)).unwrap(), pong);
    assert_eq!(decode::<Pong>(&bytes[0..15]).err(), Some(SerError::UnexpectedEof));
}

#[test]
fn ban_reason_codes() {
    let reasons = [
        ReasonForBan::NoReason,
        ReasonForBan::BadBlock,
        ReasonForBan::BadCompactBlock,
        ReasonForBan::BadBlockHeader,
        ReasonForBan::BadTxHashSet,
        ReasonForBan::ManualBan,
        ReasonForBan::FraudHeight,
        ReasonForBan::BadHandshake,
    ];
    for (i, r) in reasons.iter().enumerate() {
        let bytes = encode(&BanReason { ban_reason: *r });
        assert_eq!(bytes, (i as i32).to_be_bytes().to_vec());
        assert_eq!(decode::<BanReason>(&bytes).unwrap().ban_reason, *r);
    }
    assert_eq!(decode::<BanReason>(&99i32.to_be_bytes()).err(), Some(SerError::CorruptedData));
    assert_eq!(decode::<BanReason>(&(-1i32).to_be_bytes()).err(), Some(SerError::CorruptedData));
}

#[test]
fn ban_reason_unreadable_code_is_lenient() {
    let back: BanReason = decode(&[0u8, 1]).unwrap();
    assert_eq!(back.ban_reason, ReasonForBan::NoReason);
}

#[test]
fn txhashset_round_trip() {
    let req = TxHashSetRequest { hash: genesis(), height: 1_000 };
    let bytes = encode(&req);
    assert_eq!(bytes.len(), 40);
    let back: TxHashSetRequest = decode(&bytes).unwrap();
    assert_eq!((back.hash, back.height), (req.hash, req.height));

    let arch = TxHashSetArchive { hash: genesis(), height: 7, bytes: 20_000 };
    let bytes = encode(&arch);
    assert_eq!(bytes.len(), 48);
    let back: TxHashSetArchive = decode(&bytes).unwrap();
    assert_eq!((back.hash, back.height, back.bytes), (arch.hash, 7, 20_000));
}

#[test]
fn kernel_data_round_trip() {
    assert!(encode(&KernelDataRequest {}).is_empty());
    assert_eq!(decode::<KernelDataRequest>(&[]).unwrap(), KernelDataRequest {});
    let resp = KernelDataResponse { bytes: 0x0102_0304 };
    let bytes = encode(&resp);
    assert_eq!(bytes, vec![0, 0, 0, 0, 1, 2, 3, 4]);
    assert_eq!(decode::<KernelDataResponse>(&bytes).unwrap(), resp);
}

#[test]
fn body_decode_errors() {
    let r: Result<Ping, Error> = decode_body(&[1, 2, 3], ProtocolVersion(1));
    assert_eq!(r.err(), Some(Error::Serialization(SerError::UnexpectedEof)));
}

#[test]
fn envelope_frames_header_and_body() {
    let arch = TxHashSetArchive { hash: genesis(), height: 7, bytes: 20_000 };
    let msg = Msg::new(Type::TxHashSetArchive, arch, ProtocolVersion(1), ChainType::Mainnet)
        .unwrap();
    assert_eq!(msg.header.msg_type, Type::TxHashSetArchive);
    assert_eq!(msg.header.msg_len, 48);
    assert!(msg.attachment().is_none());
    let frame = msg.frame();
    assert_eq!(frame.len(), MsgHeader::LEN + 48);
    assert_eq!(&frame[0..11], &[97, 61, 17, 0, 0, 0, 0, 0, 0, 0, 48]);
    assert_eq!(&frame[11..43], &genesis().0);
    let (header, body, version) = msg.into_parts();
    assert_eq!(body.len(), 48);
    assert_eq!(version, ProtocolVersion(1));
    let again = Msg::from_parts(header, body, version);
    assert_eq!(again.frame(), frame);
}

#[test]
fn attachment_chunking() {
    let body_len = 48usize;
    let msg = Msg::new(
        Type::TxHashSetArchive,
        TxHashSetArchive { hash: genesis(), height: 1, bytes: 20_000 },
        ProtocolVersion(1),
        ChainType::Mainnet,
    )
    .unwrap();
    let primary = msg.frame().len();
    assert_eq!(primary, 11 + body_len);

    let mut remaining = 20_000usize;
    let mut progress = AttachmentProgress::new();
    let mut writes = Vec::new();
    loop {
        let n = remaining.min(ATTACHMENT_CHUNK_SIZE);
        remaining -= n;
        match progress.on_read(n) {
            AttachmentStep::Send(k) => writes.push(k),
            AttachmentStep::Finished => break,
        }
    }
    assert_eq!(writes, vec![8192, 8192, 3616]);
    assert_eq!(progress.sent, 20_000);
}

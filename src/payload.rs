//! The bodies of the messages, each with the bytes it is written as and what
//! reading makes of given input.

use crate::ser::{
    lemma_seq_round_trip, lemma_string_round_trip, lemma_u16_round_trip, parse_u16, lemma_u32_round_trip,
    lemma_u64_round_trip, parse_n, parse_string, parse_u32, parse_u64, parse_u8, read_n,
    seq_wire, string_wire, u16_be, u32_be, u64_be, views, write_all, BinReader, BinWriter, Codec,
    ProtocolVersion, Readable, SerError, Writeable,
};
use crate::types::{
    ban_code, lemma_reason_of_code, reason_of_code, Capabilities, Difficulty, PeerAddr,
    ReasonForBan, MAX_LOCATORS, MAX_PEER_ADDRS,
};
use vstd::prelude::*;
use vstd::utf8::encode_utf8;

verus! {

/// First half of a handshake: the sender's version and characteristics.
pub struct Hand {
    /// Protocol version of the sender.
    pub version: ProtocolVersion,
    /// Capabilities of the sender.
    pub capabilities: Capabilities,
    /// Drawn at random for each handshake; lets a node notice itself.
    pub nonce: u64,
    /// Genesis block of the sender's chain.
    pub genesis: crate::types::Hash,
    /// Total difficulty the sender has accumulated.
    pub total_difficulty: Difficulty,
    /// Network address of the sender.
    pub sender_addr: PeerAddr,
    /// Network address of the receiver.
    pub receiver_addr: PeerAddr,
    /// Name and version of the sender's software.
    pub user_agent: String,
}

/// The model of a handshake offer: the hash as its bytes, the user agent as its characters.
pub struct HandView {
    pub version: ProtocolVersion,
    pub capabilities: Capabilities,
    pub nonce: u64,
    pub genesis: Seq<u8>,
    pub total_difficulty: Difficulty,
    pub sender_addr: PeerAddr,
    pub receiver_addr: PeerAddr,
    pub user_agent: Seq<char>,
}

impl View for Hand {
    type V = HandView;

    open spec fn view(&self) -> HandView {
        HandView {
            version: self.version,
            capabilities: self.capabilities,
            nonce: self.nonce,
            genesis: self.genesis@,
            total_difficulty: self.total_difficulty,
            sender_addr: self.sender_addr,
            receiver_addr: self.receiver_addr,
            user_agent: self.user_agent@,
        }
    }
}

impl Writeable for Hand {
    open spec fn wire(v: HandView) -> Seq<u8> {
        ProtocolVersion::wire(v.version) + Capabilities::wire(v.capabilities) + u64_be(v.nonce)
            + Difficulty::wire(v.total_difficulty) + PeerAddr::wire(v.sender_addr) + PeerAddr::wire(
            v.receiver_addr,
        ) + string_wire(v.user_agent) + crate::types::Hash::wire(v.genesis)
    }

    fn write(&self, w: &mut BinWriter) {
        self.version.write(w);
        w.write_u32(self.capabilities.bits());
        w.write_u64(self.nonce);
        self.total_difficulty.write(w);
        self.sender_addr.write(w);
        self.receiver_addr.write(w);
        w.write_string(&self.user_agent);
        self.genesis.write(w);
        assert(w.buf@ =~= old(w).buf@ + Self::wire(self@));
    }
}

/// The later fields of a handshake offer.
pub struct HandTail {
    pub sender_addr: PeerAddr,
    pub receiver_addr: PeerAddr,
    pub user_agent: Seq<char>,
    pub genesis: Seq<u8>,
}

/// Reads the two addresses, the user agent and the genesis hash; a user agent
/// that is not UTF-8 is corrupted data.
pub open spec fn parse_hand_tail(s: Seq<u8>) -> Result<(HandTail, Seq<u8>), SerError> {
    match PeerAddr::parse(s) {
        Err(e) => Err(e),
        Ok((sender_addr, r1)) => match PeerAddr::parse(r1) {
            Err(e) => Err(e),
            Ok((receiver_addr, r2)) => match parse_string(r2) {
                Err(e) => Err(e),
                Ok((user_agent, r3)) => match crate::types::Hash::parse(r3) {
                    Err(e) => Err(e),
                    Ok((genesis, r4)) => Ok(
                        (HandTail { sender_addr, receiver_addr, user_agent, genesis }, r4),
                    ),
                },
            },
        },
    }
}

impl Readable for Hand {
    /// Fields in the order written.
    open spec fn parse(s: Seq<u8>) -> Result<(HandView, Seq<u8>), SerError> {
        match ProtocolVersion::parse(s) {
            Err(e) => Err(e),
            Ok((version, r1)) => match Capabilities::parse(r1) {
                Err(e) => Err(e),
                Ok((capabilities, r2)) => match parse_u64(r2) {
                    Err(e) => Err(e),
                    Ok((nonce, r3)) => match Difficulty::parse(r3) {
                        Err(e) => Err(e),
                        Ok((total_difficulty, r4)) => match parse_hand_tail(r4) {
                            Err(e) => Err(e),
                            Ok((tail, r5)) => Ok(
                                (
                                    HandView {
                                        version,
                                        capabilities,
                                        nonce,
                                        genesis: tail.genesis,
                                        total_difficulty,
                                        sender_addr: tail.sender_addr,
                                        receiver_addr: tail.receiver_addr,
                                        user_agent: tail.user_agent,
                                    },
                                    r5,
                                ),
                            ),
                        },
                    },
                },
            },
        }
    }

    fn read(r: &mut BinReader) -> (res: Result<Hand, SerError>) {
        let version = ProtocolVersion::read(r)?;
        let capabilities = Capabilities::read(r)?;
        let nonce = r.read_u64()?;
        let total_difficulty = Difficulty::read(r)?;
        let sender_addr = PeerAddr::read(r)?;
        let receiver_addr = PeerAddr::read(r)?;
        let user_agent = r.read_string()?;
        let genesis = crate::types::Hash::read(r)?;
        Ok(
            Hand {
                version,
                capabilities,
                nonce,
                genesis,
                total_difficulty,
                sender_addr,
                receiver_addr,
                user_agent,
            },
        )
    }
}

impl Codec for Hand {
    /// Only known capability bits, a hash of 32 bytes, and a user agent whose
    /// length fits its prefix.
    open spec fn valid(v: HandView) -> bool {
        &&& Capabilities::valid(v.capabilities)
        &&& crate::types::Hash::valid(v.genesis)
        &&& encode_utf8(v.user_agent).len() <= u64::MAX
    }

    proof fn lemma_round_trip(v: HandView, rest: Seq<u8>) {
        let t7 = crate::types::Hash::wire(v.genesis) + rest;
        let t6 = string_wire(v.user_agent) + t7;
        let t5 = PeerAddr::wire(v.receiver_addr) + t6;
        let t4 = PeerAddr::wire(v.sender_addr) + t5;
        let t3 = Difficulty::wire(v.total_difficulty) + t4;
        let t2 = u64_be(v.nonce) + t3;
        let t1 = Capabilities::wire(v.capabilities) + t2;
        let p1 = ProtocolVersion::wire(v.version);
        let p2 = p1 + Capabilities::wire(v.capabilities);
        let p3 = p2 + u64_be(v.nonce);
        let p4 = p3 + Difficulty::wire(v.total_difficulty);
        let p5 = p4 + PeerAddr::wire(v.sender_addr);
        let p6 = p5 + PeerAddr::wire(v.receiver_addr);
        let p7 = p6 + string_wire(v.user_agent);
        assert(p7 + t7 =~= p6 + t6);
        assert(p6 + t6 =~= p5 + t5);
        assert(p5 + t5 =~= p4 + t4);
        assert(p4 + t4 =~= p3 + t3);
        assert(p3 + t3 =~= p2 + t2);
        assert(p2 + t2 =~= p1 + t1);
        assert(Self::wire(v) + rest =~= p7 + t7);
        ProtocolVersion::lemma_round_trip(v.version, t1);
        Capabilities::lemma_round_trip(v.capabilities, t2);
        lemma_u64_round_trip(v.nonce, t3);
        Difficulty::lemma_round_trip(v.total_difficulty, t4);
        lemma_hand_tail_parse(v, rest);
    }
}

proof fn lemma_hand_tail_parse(v: HandView, rest: Seq<u8>)
    requires
        Hand::valid(v),
    ensures
        parse_hand_tail(
            PeerAddr::wire(v.sender_addr) + (PeerAddr::wire(v.receiver_addr) + (string_wire(
                v.user_agent,
            ) + (crate::types::Hash::wire(v.genesis) + rest))),
        ) == Ok::<(HandTail, Seq<u8>), SerError>(
            (
                HandTail {
                    sender_addr: v.sender_addr,
                    receiver_addr: v.receiver_addr,
                    user_agent: v.user_agent,
                    genesis: v.genesis,
                },
                rest,
            ),
        ),
{
    let t7 = crate::types::Hash::wire(v.genesis) + rest;
    let t6 = string_wire(v.user_agent) + t7;
    let t5 = PeerAddr::wire(v.receiver_addr) + t6;
    PeerAddr::lemma_round_trip(v.sender_addr, t5);
    PeerAddr::lemma_round_trip(v.receiver_addr, t6);
    lemma_string_round_trip(v.user_agent, t7);
    crate::types::Hash::lemma_round_trip(v.genesis, rest);
}

/// Second half of a handshake: the receiver's reply with its own version and
/// characteristics.
pub struct Shake {
    /// Protocol version of the sender.
    pub version: ProtocolVersion,
    /// Capabilities of the sender.
    pub capabilities: Capabilities,
    /// Genesis block of the sender's chain.
    pub genesis: crate::types::Hash,
    /// Total difficulty the sender has accumulated.
    pub total_difficulty: Difficulty,
    /// Name and version of the sender's software.
    pub user_agent: String,
}

/// The model of a handshake reply: the hash as its bytes, the user agent as its characters.
pub struct ShakeView {
    pub version: ProtocolVersion,
    pub capabilities: Capabilities,
    pub genesis: Seq<u8>,
    pub total_difficulty: Difficulty,
    pub user_agent: Seq<char>,
}

impl View for Shake {
    type V = ShakeView;

    open spec fn view(&self) -> ShakeView {
        ShakeView {
            version: self.version,
            capabilities: self.capabilities,
            genesis: self.genesis@,
            total_difficulty: self.total_difficulty,
            user_agent: self.user_agent@,
        }
    }
}

impl Writeable for Shake {
    open spec fn wire(v: ShakeView) -> Seq<u8> {
        ProtocolVersion::wire(v.version) + Capabilities::wire(v.capabilities) + Difficulty::wire(
            v.total_difficulty,
        ) + string_wire(v.user_agent) + crate::types::Hash::wire(v.genesis)
    }

    fn write(&self, w: &mut BinWriter) {
        self.version.write(w);
        w.write_u32(self.capabilities.bits());
        self.total_difficulty.write(w);
        w.write_string(&self.user_agent);
        self.genesis.write(w);
        assert(w.buf@ =~= old(w).buf@ + Self::wire(self@));
    }
}

impl Readable for Shake {
    open spec fn parse(s: Seq<u8>) -> Result<(ShakeView, Seq<u8>), SerError> {
        match ProtocolVersion::parse(s) {
            Err(e) => Err(e),
            Ok((version, r1)) => match Capabilities::parse(r1) {
                Err(e) => Err(e),
                Ok((capabilities, r2)) => match Difficulty::parse(r2) {
                    Err(e) => Err(e),
                    Ok((total_difficulty, r3)) => match parse_string(r3) {
                        Err(e) => Err(e),
                        Ok((user_agent, r4)) => match crate::types::Hash::parse(r4) {
                            Err(e) => Err(e),
                            Ok((genesis, r5)) => Ok(
                                (
                                    ShakeView {
                                        version,
                                        capabilities,
                                        genesis,
                                        total_difficulty,
                                        user_agent,
                                    },
                                    r5,
                                ),
                            ),
                        },
                    },
                },
            },
        }
    }

    fn read(r: &mut BinReader) -> (res: Result<Shake, SerError>) {
        let version = ProtocolVersion::read(r)?;
        let capabilities = Capabilities::read(r)?;
        let total_difficulty = Difficulty::read(r)?;
        let user_agent = r.read_string()?;
        let genesis = crate::types::Hash::read(r)?;
        Ok(Shake { version, capabilities, genesis, total_difficulty, user_agent })
    }
}

impl Codec for Shake {
    open spec fn valid(v: ShakeView) -> bool {
        &&& Capabilities::valid(v.capabilities)
        &&& crate::types::Hash::valid(v.genesis)
        &&& encode_utf8(v.user_agent).len() <= u64::MAX
    }

    proof fn lemma_round_trip(v: ShakeView, rest: Seq<u8>) {
        let t4 = crate::types::Hash::wire(v.genesis) + rest;
        let t3 = string_wire(v.user_agent) + t4;
        let t2 = Difficulty::wire(v.total_difficulty) + t3;
        let t1 = Capabilities::wire(v.capabilities) + t2;
        assert(Self::wire(v) + rest =~= ProtocolVersion::wire(v.version) + t1);
        ProtocolVersion::lemma_round_trip(v.version, t1);
        Capabilities::lemma_round_trip(v.capabilities, t2);
        Difficulty::lemma_round_trip(v.total_difficulty, t3);
        lemma_string_round_trip(v.user_agent, t4);
        crate::types::Hash::lemma_round_trip(v.genesis, rest);
    }
}

/// Asks a peer for the addresses of other peers with the given capabilities.
#[derive(Clone, Copy, Debug, PartialEq, Eq, Structural)]
pub struct GetPeerAddrs {
    pub capabilities: Capabilities,
}

impl View for GetPeerAddrs {
    type V = GetPeerAddrs;

    open spec fn view(&self) -> GetPeerAddrs {
        *self
    }
}

impl Writeable for GetPeerAddrs {
    open spec fn wire(v: GetPeerAddrs) -> Seq<u8> {
        Capabilities::wire(v.capabilities)
    }

    fn write(&self, w: &mut BinWriter) {
        w.write_u32(self.capabilities.bits());
    }
}

impl Readable for GetPeerAddrs {
    open spec fn parse(s: Seq<u8>) -> Result<(GetPeerAddrs, Seq<u8>), SerError> {
        match Capabilities::parse(s) {
            Err(e) => Err(e),
            Ok((capabilities, r)) => Ok((GetPeerAddrs { capabilities }, r)),
        }
    }

    fn read(r: &mut BinReader) -> (res: Result<GetPeerAddrs, SerError>) {
        let capabilities = Capabilities::read(r)?;
        Ok(GetPeerAddrs { capabilities })
    }
}

impl Codec for GetPeerAddrs {
    open spec fn valid(v: GetPeerAddrs) -> bool {
        Capabilities::valid(v.capabilities)
    }

    proof fn lemma_round_trip(v: GetPeerAddrs, rest: Seq<u8>) {
        Capabilities::lemma_round_trip(v.capabilities, rest);
    }
}

/// Addresses of peers known to be fresh, in answer to `GetPeerAddrs`.
#[derive(Debug)]
pub struct PeerAddrs {
    pub peers: Vec<PeerAddr>,
}

impl View for PeerAddrs {
    type V = Seq<PeerAddr>;

    open spec fn view(&self) -> Seq<PeerAddr> {
        views(self.peers@)
    }
}

impl Writeable for PeerAddrs {
    /// The count as a u32, then each address.
    open spec fn wire(v: Seq<PeerAddr>) -> Seq<u8> {
        u32_be(v.len() as u32) + seq_wire::<PeerAddr>(v)
    }

    fn write(&self, w: &mut BinWriter) {
        w.write_u32(self.peers.len() as u32);
        write_all(w, &self.peers);
        assert(w.buf@ =~= old(w).buf@ + Self::wire(self@));
    }
}

impl Readable for PeerAddrs {
    /// A count above `MAX_PEER_ADDRS` is too large; a count of zero reads
    /// nothing more.
    open spec fn parse(s: Seq<u8>) -> Result<(Seq<PeerAddr>, Seq<u8>), SerError> {
        match parse_u32(s) {
            Err(e) => Err(e),
            Ok((n, r)) => if n > MAX_PEER_ADDRS {
                Err(SerError::TooLargeReadErr)
            } else if n == 0 {
                Ok((Seq::empty(), r))
            } else {
                parse_n::<PeerAddr>(r, n as nat)
            },
        }
    }

    fn read(r: &mut BinReader) -> (res: Result<PeerAddrs, SerError>) {
        let peer_count = r.read_u32()?;
        if peer_count > MAX_PEER_ADDRS {
            return Err(SerError::TooLargeReadErr);
        } else if peer_count == 0 {
            let peers: Vec<PeerAddr> = Vec::new();
            assert(views(peers@) =~= Seq::<PeerAddr>::empty());
            return Ok(PeerAddrs { peers });
        }
        let peers = read_n::<PeerAddr>(r, peer_count as u64)?;
        Ok(PeerAddrs { peers })
    }
}

impl Codec for PeerAddrs {
    open spec fn valid(v: Seq<PeerAddr>) -> bool {
        v.len() <= MAX_PEER_ADDRS
    }

    proof fn lemma_round_trip(v: Seq<PeerAddr>, rest: Seq<u8>) {
        let tail = seq_wire::<PeerAddr>(v) + rest;
        assert(Self::wire(v) + rest =~= u32_be(v.len() as u32) + tail);
        lemma_u32_round_trip(v.len() as u32, tail);
        if v.len() == 0 {
            assert(tail =~= rest);
            assert(v =~= Seq::<PeerAddr>::empty());
        } else {
            lemma_seq_round_trip::<PeerAddr>(v, rest);
        }
    }
}

/// Tells a peer what went wrong, usually before the connection is closed.
pub struct PeerError {
    /// Error code.
    pub code: u32,
    /// Explanation for people.
    pub message: String,
}

/// The model of an error message: the message as its characters.
pub struct PeerErrorView {
    pub code: u32,
    pub message: Seq<char>,
}

impl View for PeerError {
    type V = PeerErrorView;

    open spec fn view(&self) -> PeerErrorView {
        PeerErrorView { code: self.code, message: self.message@ }
    }
}

impl Writeable for PeerError {
    open spec fn wire(v: PeerErrorView) -> Seq<u8> {
        u32_be(v.code) + string_wire(v.message)
    }

    fn write(&self, w: &mut BinWriter) {
        w.write_u32(self.code);
        w.write_string(&self.message);
        assert(w.buf@ =~= old(w).buf@ + Self::wire(self@));
    }
}

impl Readable for PeerError {
    open spec fn parse(s: Seq<u8>) -> Result<(PeerErrorView, Seq<u8>), SerError> {
        match parse_u32(s) {
            Err(e) => Err(e),
            Ok((code, r)) => match parse_string(r) {
                Err(e) => Err(e),
                Ok((message, r2)) => Ok((PeerErrorView { code, message }, r2)),
            },
        }
    }

    fn read(r: &mut BinReader) -> (res: Result<PeerError, SerError>) {
        let code = r.read_u32()?;
        let message = r.read_string()?;
        Ok(PeerError { code, message })
    }
}

impl Codec for PeerError {
    open spec fn valid(v: PeerErrorView) -> bool {
        encode_utf8(v.message).len() <= u64::MAX
    }

    proof fn lemma_round_trip(v: PeerErrorView, rest: Seq<u8>) {
        let tail = string_wire(v.message) + rest;
        assert(Self::wire(v) + rest =~= u32_be(v.code) + tail);
        lemma_u32_round_trip(v.code, tail);
        lemma_string_round_trip(v.message, rest);
    }
}

/// Hashes of blocks that locate a point of a chain, to find where two peers'
/// chains part.
#[derive(Debug)]
pub struct Locator {
    pub hashes: Vec<crate::types::Hash>,
}

impl View for Locator {
    type V = Seq<Seq<u8>>;

    open spec fn view(&self) -> Seq<Seq<u8>> {
        views(self.hashes@)
    }
}

impl Writeable for Locator {
    /// The count as one byte, then each hash.
    open spec fn wire(v: Seq<Seq<u8>>) -> Seq<u8> {
        seq![v.len() as u8] + seq_wire::<crate::types::Hash>(v)
    }

    fn write(&self, w: &mut BinWriter) {
        w.write_u8(self.hashes.len() as u8);
        write_all(w, &self.hashes);
        assert(w.buf@ =~= old(w).buf@ + Self::wire(self@));
    }
}

impl Readable for Locator {
    /// A count above `MAX_LOCATORS` is too large.
    open spec fn parse(s: Seq<u8>) -> Result<(Seq<Seq<u8>>, Seq<u8>), SerError> {
        match parse_u8(s) {
            Err(e) => Err(e),
            Ok((n, r)) => if n > MAX_LOCATORS as u8 {
                Err(SerError::TooLargeReadErr)
            } else {
                parse_n::<crate::types::Hash>(r, n as nat)
            },
        }
    }

    fn read(r: &mut BinReader) -> (res: Result<Locator, SerError>) {
        let len = r.read_u8()?;
        if len > (MAX_LOCATORS as u8) {
            return Err(SerError::TooLargeReadErr);
        }
        let hashes = read_n::<crate::types::Hash>(r, len as u64)?;
        Ok(Locator { hashes })
    }
}

impl Codec for Locator {
    open spec fn valid(v: Seq<Seq<u8>>) -> bool {
        &&& v.len() <= MAX_LOCATORS
        &&& forall|i: int| 0 <= i < v.len() ==> crate::types::Hash::valid(#[trigger] v[i])
    }

    proof fn lemma_round_trip(v: Seq<Seq<u8>>, rest: Seq<u8>) {
        let s = Self::wire(v) + rest;
        assert(s.skip(1) =~= seq_wire::<crate::types::Hash>(v) + rest);
        lemma_seq_round_trip::<crate::types::Hash>(v, rest);
    }
}

/// A list of block headers; each header is written as its own type writes it.
pub struct Headers<H> {
    pub headers: Vec<H>,
}

impl<H: Writeable> View for Headers<H> {
    type V = Seq<H::V>;

    open spec fn view(&self) -> Seq<H::V> {
        views(self.headers@)
    }
}

impl<H: Writeable> Writeable for Headers<H> {
    /// The count as a u16, then each header.
    open spec fn wire(v: Seq<H::V>) -> Seq<u8> {
        u16_be(v.len() as u16) + seq_wire::<H>(v)
    }

    fn write(&self, w: &mut BinWriter) {
        w.write_u16(self.headers.len() as u16);
        write_all(w, &self.headers);
        assert(w.buf@ =~= old(w).buf@ + Self::wire(self@));
    }
}

impl<H: Readable + Writeable> Readable for Headers<H> {
    /// The count as a u16, then that many headers; the count has no bound of
    /// its own beyond the message's size ceiling.
    open spec fn parse(s: Seq<u8>) -> Result<(Seq<H::V>, Seq<u8>), SerError> {
        match parse_u16(s) {
            Err(e) => Err(e),
            Ok((n, r)) => parse_n::<H>(r, n as nat),
        }
    }

    fn read(r: &mut BinReader) -> (res: Result<Headers<H>, SerError>) {
        let n = r.read_u16()?;
        let headers = read_n::<H>(r, n as u64)?;
        Ok(Headers { headers })
    }
}

impl<H: Codec> Codec for Headers<H> {
    open spec fn valid(v: Seq<H::V>) -> bool {
        &&& v.len() <= u16::MAX
        &&& forall|i: int| 0 <= i < v.len() ==> H::valid(#[trigger] v[i])
    }

    proof fn lemma_round_trip(v: Seq<H::V>, rest: Seq<u8>) {
        let tail = seq_wire::<H>(v) + rest;
        assert(Self::wire(v) + rest =~= u16_be(v.len() as u16) + tail);
        lemma_u16_round_trip(v.len() as u16, tail);
        lemma_seq_round_trip::<H>(v, rest);
    }
}

/// Heartbeat sent to a peer: what the sender has accumulated.
#[derive(Clone, Copy, Debug, PartialEq, Eq, Structural)]
pub struct Ping {
    /// Total difficulty the sender has accumulated.
    pub total_difficulty: Difficulty,
    /// Height of the sender's chain.
    pub height: u64,
}

/// Answer to a heartbeat, of the same shape.
#[derive(Clone, Copy, Debug, PartialEq, Eq, Structural)]
pub struct Pong {
    /// Total difficulty the sender has accumulated.
    pub total_difficulty: Difficulty,
    /// Height of the sender's chain.
    pub height: u64,
}

/// The bytes of a heartbeat: the difficulty, then the height.
pub open spec fn heartbeat_wire(d: Difficulty, height: u64) -> Seq<u8> {
    Difficulty::wire(d) + u64_be(height)
}

/// What reading a heartbeat makes of the input: the difficulty and the height.
pub open spec fn parse_heartbeat(s: Seq<u8>) -> Result<(Difficulty, u64, Seq<u8>), SerError> {
    match Difficulty::parse(s) {
        Err(e) => Err(e),
        Ok((d, r)) => match parse_u64(r) {
            Err(e) => Err(e),
            Ok((h, r2)) => Ok((d, h, r2)),
        },
    }
}

proof fn lemma_heartbeat_round_trip(d: Difficulty, height: u64, rest: Seq<u8>)
    ensures
        parse_heartbeat(heartbeat_wire(d, height) + rest) == Ok::<
            (Difficulty, u64, Seq<u8>),
            SerError,
        >((d, height, rest)),
{
    assert(heartbeat_wire(d, height) + rest =~= Difficulty::wire(d) + (u64_be(height) + rest));
    Difficulty::lemma_round_trip(d, u64_be(height) + rest);
    lemma_u64_round_trip(height, rest);
}

impl View for Ping {
    type V = Ping;

    open spec fn view(&self) -> Ping {
        *self
    }
}

impl Writeable for Ping {
    open spec fn wire(v: Ping) -> Seq<u8> {
        heartbeat_wire(v.total_difficulty, v.height)
    }

    fn write(&self, w: &mut BinWriter) {
        self.total_difficulty.write(w);
        w.write_u64(self.height);
        assert(w.buf@ =~= old(w).buf@ + Self::wire(self@));
    }
}

impl Readable for Ping {
    open spec fn parse(s: Seq<u8>) -> Result<(Ping, Seq<u8>), SerError> {
        match parse_heartbeat(s) {
            Err(e) => Err(e),
            Ok((total_difficulty, height, r)) => Ok((Ping { total_difficulty, height }, r)),
        }
    }

    fn read(r: &mut BinReader) -> (res: Result<Ping, SerError>) {
        let total_difficulty = Difficulty::read(r)?;
        let height = r.read_u64()?;
        Ok(Ping { total_difficulty, height })
    }
}

impl Codec for Ping {
    open spec fn valid(v: Ping) -> bool {
        true
    }

    proof fn lemma_round_trip(v: Ping, rest: Seq<u8>) {
        lemma_heartbeat_round_trip(v.total_difficulty, v.height, rest);
    }
}

impl View for Pong {
    type V = Pong;

    open spec fn view(&self) -> Pong {
        *self
    }
}

impl Writeable for Pong {
    open spec fn wire(v: Pong) -> Seq<u8> {
        heartbeat_wire(v.total_difficulty, v.height)
    }

    fn write(&self, w: &mut BinWriter) {
        self.total_difficulty.write(w);
        w.write_u64(self.height);
        assert(w.buf@ =~= old(w).buf@ + Self::wire(self@));
    }
}

impl Readable for Pong {
    open spec fn parse(s: Seq<u8>) -> Result<(Pong, Seq<u8>), SerError> {
        match parse_heartbeat(s) {
            Err(e) => Err(e),
            Ok((total_difficulty, height, r)) => Ok((Pong { total_difficulty, height }, r)),
        }
    }

    fn read(r: &mut BinReader) -> (res: Result<Pong, SerError>) {
        let total_difficulty = Difficulty::read(r)?;
        let height = r.read_u64()?;
        Ok(Pong { total_difficulty, height })
    }
}

impl Codec for Pong {
    open spec fn valid(v: Pong) -> bool {
        true
    }

    proof fn lemma_round_trip(v: Pong, rest: Seq<u8>) {
        lemma_heartbeat_round_trip(v.total_difficulty, v.height, rest);
    }
}

/// Tells a peer why it is banned.
#[derive(Clone, Copy, Debug, PartialEq, Eq, Structural)]
pub struct BanReason {
    pub ban_reason: ReasonForBan,
}

impl View for BanReason {
    type V = BanReason;

    open spec fn view(&self) -> BanReason {
        *self
    }
}

impl Writeable for BanReason {
    /// The reason's code as an i32.
    open spec fn wire(v: BanReason) -> Seq<u8> {
        u32_be(ban_code(v.ban_reason) as u32)
    }

    fn write(&self, w: &mut BinWriter) {
        w.write_i32(self.ban_reason.code());
    }
}

impl Readable for BanReason {
    /// A code that names no reason is corrupted data. When the code cannot be
    /// read at all, code 0 is taken in its place and nothing is consumed.
    open spec fn parse(s: Seq<u8>) -> Result<(BanReason, Seq<u8>), SerError> {
        let (code, r) = match parse_u32(s) {
            Ok((u, r)) => (u as i32, r),
            Err(_) => (0i32, s),
        };
        match reason_of_code(code) {
            Some(ban_reason) => Ok((BanReason { ban_reason }, r)),
            None => Err(SerError::CorruptedData),
        }
    }

    fn read(r: &mut BinReader) -> (res: Result<BanReason, SerError>) {
        let ban_reason_i32 = match r.read_i32() {
            Ok(h) => h,
            Err(_) => 0,
        };
        match ReasonForBan::from_i32(ban_reason_i32) {
            Some(ban_reason) => {
                proof {
                    lemma_reason_of_code(ban_reason);
                }
                Ok(BanReason { ban_reason })
            },
            None => Err(SerError::CorruptedData),
        }
    }
}

impl Codec for BanReason {
    open spec fn valid(v: BanReason) -> bool {
        true
    }

    proof fn lemma_round_trip(v: BanReason, rest: Seq<u8>) {
        let c = ban_code(v.ban_reason);
        lemma_u32_round_trip(c as u32, rest);
        assert((c as u32) as i32 == c);
        lemma_reason_of_code(v.ban_reason);
    }
}

/// Asks for an archive of the full state at a block, to bootstrap a node.
#[derive(Clone, Copy, Debug)]
pub struct TxHashSetRequest {
    /// crate::types::Hash of the block.
    pub hash: crate::types::Hash,
    /// Height of the block.
    pub height: u64,
}

/// The model of a state archive request: the hash as its bytes.
pub struct TxHashSetRequestView {
    pub hash: Seq<u8>,
    pub height: u64,
}

impl View for TxHashSetRequest {
    type V = TxHashSetRequestView;

    open spec fn view(&self) -> TxHashSetRequestView {
        TxHashSetRequestView { hash: self.hash@, height: self.height }
    }
}

impl Writeable for TxHashSetRequest {
    open spec fn wire(v: TxHashSetRequestView) -> Seq<u8> {
        crate::types::Hash::wire(v.hash) + u64_be(v.height)
    }

    fn write(&self, w: &mut BinWriter) {
        self.hash.write(w);
        w.write_u64(self.height);
        assert(w.buf@ =~= old(w).buf@ + Self::wire(self@));
    }
}

impl Readable for TxHashSetRequest {
    open spec fn parse(s: Seq<u8>) -> Result<(TxHashSetRequestView, Seq<u8>), SerError> {
        match crate::types::Hash::parse(s) {
            Err(e) => Err(e),
            Ok((hash, r)) => match parse_u64(r) {
                Err(e) => Err(e),
                Ok((height, r2)) => Ok((TxHashSetRequestView { hash, height }, r2)),
            },
        }
    }

    fn read(r: &mut BinReader) -> (res: Result<TxHashSetRequest, SerError>) {
        let hash = crate::types::Hash::read(r)?;
        let height = r.read_u64()?;
        Ok(TxHashSetRequest { hash, height })
    }
}

impl Codec for TxHashSetRequest {
    open spec fn valid(v: TxHashSetRequestView) -> bool {
        crate::types::Hash::valid(v.hash)
    }

    proof fn lemma_round_trip(v: TxHashSetRequestView, rest: Seq<u8>) {
        assert(Self::wire(v) + rest =~= crate::types::Hash::wire(v.hash) + (u64_be(v.height) + rest));
        crate::types::Hash::lemma_round_trip(v.hash, u64_be(v.height) + rest);
        lemma_u64_round_trip(v.height, rest);
    }
}

/// Announces the state archive that follows the body as an attachment.
#[derive(Clone, Copy, Debug)]
pub struct TxHashSetArchive {
    /// crate::types::Hash of the block.
    pub hash: crate::types::Hash,
    /// Height of the block.
    pub height: u64,
    /// Size of the archive in bytes.
    pub bytes: u64,
}

/// The model of a state archive announcement: the hash as its bytes.
pub struct TxHashSetArchiveView {
    pub hash: Seq<u8>,
    pub height: u64,
    pub bytes: u64,
}

impl View for TxHashSetArchive {
    type V = TxHashSetArchiveView;

    open spec fn view(&self) -> TxHashSetArchiveView {
        TxHashSetArchiveView { hash: self.hash@, height: self.height, bytes: self.bytes }
    }
}

impl Writeable for TxHashSetArchive {
    open spec fn wire(v: TxHashSetArchiveView) -> Seq<u8> {
        crate::types::Hash::wire(v.hash) + u64_be(v.height) + u64_be(v.bytes)
    }

    fn write(&self, w: &mut BinWriter) {
        self.hash.write(w);
        w.write_u64(self.height);
        w.write_u64(self.bytes);
        assert(w.buf@ =~= old(w).buf@ + Self::wire(self@));
    }
}

impl Readable for TxHashSetArchive {
    open spec fn parse(s: Seq<u8>) -> Result<(TxHashSetArchiveView, Seq<u8>), SerError> {
        match crate::types::Hash::parse(s) {
            Err(e) => Err(e),
            Ok((hash, r)) => match parse_u64(r) {
                Err(e) => Err(e),
                Ok((height, r2)) => match parse_u64(r2) {
                    Err(e) => Err(e),
                    Ok((bytes, r3)) => Ok((TxHashSetArchiveView { hash, height, bytes }, r3)),
                },
            },
        }
    }

    fn read(r: &mut BinReader) -> (res: Result<TxHashSetArchive, SerError>) {
        let hash = crate::types::Hash::read(r)?;
        let height = r.read_u64()?;
        let bytes = r.read_u64()?;
        Ok(TxHashSetArchive { hash, height, bytes })
    }
}

impl Codec for TxHashSetArchive {
    open spec fn valid(v: TxHashSetArchiveView) -> bool {
        crate::types::Hash::valid(v.hash)
    }

    proof fn lemma_round_trip(v: TxHashSetArchiveView, rest: Seq<u8>) {
        let t2 = u64_be(v.bytes) + rest;
        let t1 = u64_be(v.height) + t2;
        assert(Self::wire(v) + rest =~= crate::types::Hash::wire(v.hash) + t1);
        crate::types::Hash::lemma_round_trip(v.hash, t1);
        lemma_u64_round_trip(v.height, t2);
        lemma_u64_round_trip(v.bytes, rest);
    }
}

/// Asks for the archive of transaction kernels; it has no body.
#[derive(Clone, Copy, Debug, PartialEq, Eq, Structural)]
pub struct KernelDataRequest {}

impl View for KernelDataRequest {
    type V = KernelDataRequest;

    open spec fn view(&self) -> KernelDataRequest {
        *self
    }
}

impl Writeable for KernelDataRequest {
    open spec fn wire(v: KernelDataRequest) -> Seq<u8> {
        Seq::empty()
    }

    fn write(&self, w: &mut BinWriter) {
        assert(w.buf@ =~= old(w).buf@ + Self::wire(self@));
    }
}

impl Readable for KernelDataRequest {
    open spec fn parse(s: Seq<u8>) -> Result<(KernelDataRequest, Seq<u8>), SerError> {
        Ok((KernelDataRequest {  }, s))
    }

    fn read(r: &mut BinReader) -> (res: Result<KernelDataRequest, SerError>) {
        Ok(KernelDataRequest {  })
    }
}

impl Codec for KernelDataRequest {
    open spec fn valid(v: KernelDataRequest) -> bool {
        true
    }

    proof fn lemma_round_trip(v: KernelDataRequest, rest: Seq<u8>) {
        assert(Self::wire(v) + rest =~= rest);
    }
}

/// Announces the kernel archive that follows the body as an attachment.
#[derive(Clone, Copy, Debug, PartialEq, Eq, Structural)]
pub struct KernelDataResponse {
    /// Size of the attached file in bytes.
    pub bytes: u64,
}

impl View for KernelDataResponse {
    type V = KernelDataResponse;

    open spec fn view(&self) -> KernelDataResponse {
        *self
    }
}

impl Writeable for KernelDataResponse {
    open spec fn wire(v: KernelDataResponse) -> Seq<u8> {
        u64_be(v.bytes)
    }

    fn write(&self, w: &mut BinWriter) {
        w.write_u64(self.bytes);
    }
}

impl Readable for KernelDataResponse {
    open spec fn parse(s: Seq<u8>) -> Result<(KernelDataResponse, Seq<u8>), SerError> {
        match parse_u64(s) {
            Err(e) => Err(e),
            Ok((bytes, r)) => Ok((KernelDataResponse { bytes }, r)),
        }
    }

    fn read(r: &mut BinReader) -> (res: Result<KernelDataResponse, SerError>) {
        let bytes = r.read_u64()?;
        Ok(KernelDataResponse { bytes })
    }
}

impl Codec for KernelDataResponse {
    open spec fn valid(v: KernelDataResponse) -> bool {
        true
    }

    proof fn lemma_round_trip(v: KernelDataResponse, rest: Seq<u8>) {
        lemma_u64_round_trip(v.bytes, rest);
    }
}

/// A peer-address list whose count is above `MAX_PEER_ADDRS` is rejected as
/// too large, whatever follows; a count of zero reads as the empty list and
/// consumes nothing after the count.
pub proof fn lemma_peer_addrs_count(n: u32, rest: Seq<u8>)
    ensures
        n > MAX_PEER_ADDRS ==> PeerAddrs::parse(u32_be(n) + rest) == Err::<
            (Seq<PeerAddr>, Seq<u8>),
            SerError,
        >(SerError::TooLargeReadErr),
        PeerAddrs::parse(u32_be(0) + rest) == Ok::<(Seq<PeerAddr>, Seq<u8>), SerError>(
            (Seq::empty(), rest),
        ),
{
    lemma_u32_round_trip(n, rest);
    lemma_u32_round_trip(0, rest);
}

/// A block locator whose count is above `MAX_LOCATORS` is rejected as too
/// large, whatever follows; a count of zero reads as the empty locator and
/// consumes nothing after the count.
pub proof fn lemma_locator_count(n: u8, rest: Seq<u8>)
    ensures
        n > MAX_LOCATORS ==> Locator::parse(seq![n] + rest) == Err::<
            (Seq<Seq<u8>>, Seq<u8>),
            SerError,
        >(SerError::TooLargeReadErr),
        Locator::parse(seq![0u8] + rest) == Ok::<(Seq<Seq<u8>>, Seq<u8>), SerError>(
            (Seq::empty(), rest),
        ),
{
    assert((seq![n] + rest).skip(1) =~= rest);
    assert((seq![0u8] + rest).skip(1) =~= rest);
    assert(MAX_LOCATORS as u8 == 20);
}

} // verus!

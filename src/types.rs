//! Field types that messages carry, and the registry of message types.

use crate::ser::{
    lemma_u16_round_trip, lemma_u32_round_trip, lemma_u64_round_trip, parse_u16, parse_u8, u16_be, parse_fixed, parse_u32, parse_u64, u32_be, u64_be,
    BinReader, BinWriter, Codec, ProtocolVersion, Readable, SerError, Writeable,
};
use vstd::prelude::*;

verus! {

impl View for ProtocolVersion {
    type V = ProtocolVersion;

    open spec fn view(&self) -> ProtocolVersion {
        *self
    }
}

impl Writeable for ProtocolVersion {
    open spec fn wire(v: ProtocolVersion) -> Seq<u8> {
        u32_be(v.0)
    }

    fn write(&self, w: &mut BinWriter) {
        w.write_u32(self.0);
    }
}

impl Readable for ProtocolVersion {
    open spec fn parse(s: Seq<u8>) -> Result<(ProtocolVersion, Seq<u8>), SerError> {
        match parse_u32(s) {
            Err(e) => Err(e),
            Ok((v, r)) => Ok((ProtocolVersion(v), r)),
        }
    }

    fn read(r: &mut BinReader) -> (res: Result<ProtocolVersion, SerError>) {
        let v = r.read_u32()?;
        Ok(ProtocolVersion(v))
    }
}

impl Codec for ProtocolVersion {
    open spec fn valid(v: ProtocolVersion) -> bool {
        true
    }

    proof fn lemma_round_trip(v: ProtocolVersion, rest: Seq<u8>) {
        lemma_u32_round_trip(v.0, rest);
    }
}

/// Feature bits that a peer advertises.
pub const CAP_HEADER_HIST: u32 = 1;

pub const CAP_TXHASHSET_HIST: u32 = 2;

pub const CAP_PEER_LIST: u32 = 4;

pub const CAP_TX_KERNEL_HASH: u32 = 8;

/// Every bit that names a known capability.
pub const CAP_ALL: u32 = 15;

/// A set of capabilities; unknown bits are dropped when one is read.
#[derive(Clone, Copy, Debug, PartialEq, Eq, Structural)]
pub struct Capabilities {
    pub bits: u32,
}

impl Capabilities {
    pub fn from_bits_truncate(bits: u32) -> (c: Capabilities)
        ensures
            c.bits == bits & CAP_ALL,
    {
        Capabilities { bits: bits & CAP_ALL }
    }

    pub fn bits(&self) -> (b: u32)
        ensures
            b == self.bits,
    {
        self.bits
    }
}

impl View for Capabilities {
    type V = Capabilities;

    open spec fn view(&self) -> Capabilities {
        *self
    }
}

impl Writeable for Capabilities {
    open spec fn wire(v: Capabilities) -> Seq<u8> {
        u32_be(v.bits)
    }

    fn write(&self, w: &mut BinWriter) {
        w.write_u32(self.bits);
    }
}

impl Readable for Capabilities {
    open spec fn parse(s: Seq<u8>) -> Result<(Capabilities, Seq<u8>), SerError> {
        match parse_u32(s) {
            Err(e) => Err(e),
            Ok((v, r)) => Ok((Capabilities { bits: v & CAP_ALL }, r)),
        }
    }

    fn read(r: &mut BinReader) -> (res: Result<Capabilities, SerError>) {
        let v = r.read_u32()?;
        Ok(Capabilities::from_bits_truncate(v))
    }
}

impl Codec for Capabilities {
    /// Only known bits are set.
    open spec fn valid(v: Capabilities) -> bool {
        v.bits & CAP_ALL == v.bits
    }

    proof fn lemma_round_trip(v: Capabilities, rest: Seq<u8>) {
        lemma_u32_round_trip(v.bits, rest);
    }
}

/// Accumulated proof-of-work difficulty.
#[derive(Clone, Copy, Debug, PartialEq, Eq, Structural)]
pub struct Difficulty {
    pub num: u64,
}

impl Difficulty {
    pub fn from_num(num: u64) -> (d: Difficulty)
        ensures
            d.num == num,
    {
        Difficulty { num }
    }

    pub fn to_num(&self) -> (n: u64)
        ensures
            n == self.num,
    {
        self.num
    }
}

impl View for Difficulty {
    type V = Difficulty;

    open spec fn view(&self) -> Difficulty {
        *self
    }
}

impl Writeable for Difficulty {
    open spec fn wire(v: Difficulty) -> Seq<u8> {
        u64_be(v.num)
    }

    fn write(&self, w: &mut BinWriter) {
        w.write_u64(self.num);
    }
}

impl Readable for Difficulty {
    open spec fn parse(s: Seq<u8>) -> Result<(Difficulty, Seq<u8>), SerError> {
        match parse_u64(s) {
            Err(e) => Err(e),
            Ok((v, r)) => Ok((Difficulty { num: v }, r)),
        }
    }

    fn read(r: &mut BinReader) -> (res: Result<Difficulty, SerError>) {
        let v = r.read_u64()?;
        Ok(Difficulty { num: v })
    }
}

impl Codec for Difficulty {
    open spec fn valid(v: Difficulty) -> bool {
        true
    }

    proof fn lemma_round_trip(v: Difficulty, rest: Seq<u8>) {
        lemma_u64_round_trip(v.num, rest);
    }
}

/// Length of a hash in bytes.
pub const HASH_LEN: usize = 32;

/// A 32-byte hash; its model is its bytes.
#[derive(Clone, Copy, Debug, PartialEq, Eq)]
pub struct Hash(pub [u8; 32]);

impl View for Hash {
    type V = Seq<u8>;

    open spec fn view(&self) -> Seq<u8> {
        self.0@
    }
}

impl Writeable for Hash {
    open spec fn wire(v: Seq<u8>) -> Seq<u8> {
        v
    }

    fn write(&self, w: &mut BinWriter) {
        w.write_fixed_bytes(&self.0);
    }
}

impl Readable for Hash {
    open spec fn parse(s: Seq<u8>) -> Result<(Seq<u8>, Seq<u8>), SerError> {
        parse_fixed(s, 32)
    }

    fn read(r: &mut BinReader) -> (res: Result<Hash, SerError>) {
        let v = r.read_fixed_bytes(32)?;
        let mut a: [u8; 32] = [0u8; 32];
        let mut i: usize = 0;
        while i < HASH_LEN
            invariant
                i <= 32,
                v@.len() == 32,
                forall|j: int| 0 <= j < i ==> a@[j] == v@[j],
            decreases 32 - i,
        {
            a[i] = v[i];
            i = i + 1;
        }
        assert(a@ =~= v@);
        Ok(Hash(a))
    }
}

impl Codec for Hash {
    open spec fn valid(v: Seq<u8>) -> bool {
        v.len() == 32
    }

    proof fn lemma_round_trip(v: Seq<u8>, rest: Seq<u8>) {
        assert((v + rest).take(32) =~= v);
        assert((v + rest).skip(32) =~= rest);
    }
}

/// Largest number of peer addresses in one message.
pub const MAX_PEER_ADDRS: u32 = 256;

/// Largest number of hashes in a block locator.
pub const MAX_LOCATORS: u32 = 20;

/// Largest number of block headers in one message.
pub const MAX_BLOCK_HEADERS: u32 = 32;

/// Network address of a peer: an IPv4 address as its 32 bits or an IPv6
/// address as its 128 bits, with a port.
#[derive(Clone, Copy, Debug, PartialEq, Eq, Structural)]
#[allow(inconsistent_fields)]
pub enum PeerAddr {
    V4 { ip: u32, port: u16 },
    V6 { ip: u128, port: u16 },
}

impl View for PeerAddr {
    type V = PeerAddr;

    open spec fn view(&self) -> PeerAddr {
        *self
    }
}

/// A tag byte (0 for IPv4, 1 for IPv6), the address bytes, then the port.
#[verifier::opaque]
pub open spec fn peer_addr_wire(v: PeerAddr) -> Seq<u8> {
    match v {
        PeerAddr::V4 { ip, port } => seq![0u8] + u32_be(ip) + u16_be(port),
        PeerAddr::V6 { ip, port } => seq![1u8] + u64_be((ip >> 64u128) as u64) + u64_be(
            ip as u64,
        ) + u16_be(port),
    }
}


/// Any tag other than 0 is read as IPv6.
#[verifier::opaque]
pub open spec fn parse_peer_addr(s: Seq<u8>) -> Result<(PeerAddr, Seq<u8>), SerError> {
    match parse_u8(s) {
        Err(e) => Err(e),
        Ok((tag, r)) => if tag == 0 {
            match parse_u32(r) {
                Err(e) => Err(e),
                Ok((ip, r2)) => match parse_u16(r2) {
                    Err(e) => Err(e),
                    Ok((port, r3)) => Ok((PeerAddr::V4 { ip, port }, r3)),
                },
            }
        } else {
            match parse_u64(r) {
                Err(e) => Err(e),
                Ok((hi, r2)) => match parse_u64(r2) {
                    Err(e) => Err(e),
                    Ok((lo, r3)) => match parse_u16(r3) {
                        Err(e) => Err(e),
                        Ok((port, r4)) => Ok((PeerAddr::V6 { ip: join_u128(hi, lo), port }, r4)),
                    },
                },
            }
        },
    }
}


impl Writeable for PeerAddr {
    open spec fn wire(v: PeerAddr) -> Seq<u8> {
        peer_addr_wire(v)
    }

    fn write(&self, w: &mut BinWriter) {
        match *self {
            PeerAddr::V4 { ip, port } => {
                w.write_u8(0);
                w.write_u32(ip);
                w.write_u16(port);
            },
            PeerAddr::V6 { ip, port } => {
                w.write_u8(1);
                w.write_u64((ip >> 64u128) as u64);
                w.write_u64(ip as u64);
                w.write_u16(port);
            },
        }
        reveal(peer_addr_wire);
        assert(w.buf@ =~= old(w).buf@ + Self::wire(self@));
    }
}

pub open spec fn join_u128(hi: u64, lo: u64) -> u128 {
    (((hi as u128) << 64u128) | (lo as u128)) as u128
}

impl Readable for PeerAddr {
    open spec fn parse(s: Seq<u8>) -> Result<(PeerAddr, Seq<u8>), SerError> {
        parse_peer_addr(s)
    }

    fn read(r: &mut BinReader) -> (res: Result<PeerAddr, SerError>) {
        reveal(parse_peer_addr);
        let tag = r.read_u8()?;
        if tag == 0 {
            let ip = r.read_u32()?;
            let port = r.read_u16()?;
            Ok(PeerAddr::V4 { ip, port })
        } else {
            let hi = r.read_u64()?;
            let lo = r.read_u64()?;
            let port = r.read_u16()?;
            Ok(PeerAddr::V6 { ip: ((hi as u128) << 64u128) | (lo as u128), port })
        }
    }
}

impl Codec for PeerAddr {
    open spec fn valid(v: PeerAddr) -> bool {
        true
    }

    proof fn lemma_round_trip(v: PeerAddr, rest: Seq<u8>) {
        reveal(peer_addr_wire);
        reveal(parse_peer_addr);
        match v {
            PeerAddr::V4 { ip, port } => {
                assert(Self::wire(v) + rest =~= seq![0u8] + (u32_be(ip) + (u16_be(port) + rest)));
                assert((seq![0u8] + (u32_be(ip) + (u16_be(port) + rest))).skip(1) =~= u32_be(ip) + (
                u16_be(port) + rest));
                lemma_u32_round_trip(ip, u16_be(port) + rest);
                lemma_u16_round_trip(port, rest);
            },
            PeerAddr::V6 { ip, port } => {
                let hi = (ip >> 64u128) as u64;
                let lo = ip as u64;
                let tail = u64_be(hi) + (u64_be(lo) + (u16_be(port) + rest));
                assert(Self::wire(v) + rest =~= seq![1u8] + tail);
                assert((seq![1u8] + tail).skip(1) =~= tail);
                lemma_u64_round_trip(hi, u64_be(lo) + (u16_be(port) + rest));
                lemma_u64_round_trip(lo, u16_be(port) + rest);
                lemma_u16_round_trip(port, rest);
                assert(join_u128(hi, lo) == ip) by (bit_vector)
                    requires
                        hi == (ip >> 64u128) as u64,
                        lo == ip as u64,
                ;
            },
        }
    }
}

/// Why a peer was banned; the wire carries the code as an i32.
#[derive(Clone, Copy, Debug, PartialEq, Eq, Structural)]
pub enum ReasonForBan {
    NoReason,
    BadBlock,
    BadCompactBlock,
    BadBlockHeader,
    BadTxHashSet,
    ManualBan,
    FraudHeight,
    BadHandshake,
}

pub open spec fn ban_code(r: ReasonForBan) -> i32 {
    match r {
        ReasonForBan::NoReason => 0,
        ReasonForBan::BadBlock => 1,
        ReasonForBan::BadCompactBlock => 2,
        ReasonForBan::BadBlockHeader => 3,
        ReasonForBan::BadTxHashSet => 4,
        ReasonForBan::ManualBan => 5,
        ReasonForBan::FraudHeight => 6,
        ReasonForBan::BadHandshake => 7,
    }
}

impl ReasonForBan {
    pub fn code(&self) -> (c: i32)
        ensures
            c == ban_code(*self),
    {
        match self {
            ReasonForBan::NoReason => 0,
            ReasonForBan::BadBlock => 1,
            ReasonForBan::BadCompactBlock => 2,
            ReasonForBan::BadBlockHeader => 3,
            ReasonForBan::BadTxHashSet => 4,
            ReasonForBan::ManualBan => 5,
            ReasonForBan::FraudHeight => 6,
            ReasonForBan::BadHandshake => 7,
        }
    }

    /// The reason with the given code, if any.
    pub fn from_i32(c: i32) -> (r: Option<ReasonForBan>)
        ensures
            r is Some <==> 0 <= c <= 7,
            r matches Some(x) ==> ban_code(x) == c,
    {
        match c {
            0 => Some(ReasonForBan::NoReason),
            1 => Some(ReasonForBan::BadBlock),
            2 => Some(ReasonForBan::BadCompactBlock),
            3 => Some(ReasonForBan::BadBlockHeader),
            4 => Some(ReasonForBan::BadTxHashSet),
            5 => Some(ReasonForBan::ManualBan),
            6 => Some(ReasonForBan::FraudHeight),
            7 => Some(ReasonForBan::BadHandshake),
            _ => None,
        }
    }
}

/// The reason with the given code, if there is one.
pub open spec fn reason_of_code(c: i32) -> Option<ReasonForBan> {
    if 0 <= c <= 7 {
        Some(choose|r: ReasonForBan| ban_code(r) == c)
    } else {
        None
    }
}

/// Each reason is the one its code names.
pub proof fn lemma_reason_of_code(r: ReasonForBan)
    ensures
        reason_of_code(ban_code(r)) == Some(r),
{
    let c = ban_code(r);
    assert(ban_code(r) == c);
    let u = choose|u: ReasonForBan| ban_code(u) == c;
    assert(ban_code(u) == c);
}

/// The kinds of message, each with a stable code; new kinds only ever go at
/// the end.
#[derive(Clone, Copy, Debug, PartialEq, Eq, Structural)]
pub enum Type {
    Error,
    Hand,
    Shake,
    Ping,
    Pong,
    GetPeerAddrs,
    PeerAddrs,
    GetHeaders,
    Header,
    Headers,
    GetBlock,
    Block,
    GetCompactBlock,
    CompactBlock,
    StemTransaction,
    Transaction,
    TxHashSetRequest,
    TxHashSetArchive,
    BanReason,
    GetTransaction,
    TransactionKernel,
    KernelDataRequest,
    KernelDataResponse,
}

/// The code of the last known message type.
pub const LAST_TYPE_CODE: u8 = 22;

pub open spec fn type_code(t: Type) -> u8 {
    match t {
        Type::Error => 0,
        Type::Hand => 1,
        Type::Shake => 2,
        Type::Ping => 3,
        Type::Pong => 4,
        Type::GetPeerAddrs => 5,
        Type::PeerAddrs => 6,
        Type::GetHeaders => 7,
        Type::Header => 8,
        Type::Headers => 9,
        Type::GetBlock => 10,
        Type::Block => 11,
        Type::GetCompactBlock => 12,
        Type::CompactBlock => 13,
        Type::StemTransaction => 14,
        Type::Transaction => 15,
        Type::TxHashSetRequest => 16,
        Type::TxHashSetArchive => 17,
        Type::BanReason => 18,
        Type::GetTransaction => 19,
        Type::TransactionKernel => 20,
        Type::KernelDataRequest => 21,
        Type::KernelDataResponse => 22,
    }
}

impl Type {
    pub fn code(&self) -> (c: u8)
        ensures
            c == type_code(*self),
    {
        match self {
            Type::Error => 0,
            Type::Hand => 1,
            Type::Shake => 2,
            Type::Ping => 3,
            Type::Pong => 4,
            Type::GetPeerAddrs => 5,
            Type::PeerAddrs => 6,
            Type::GetHeaders => 7,
            Type::Header => 8,
            Type::Headers => 9,
            Type::GetBlock => 10,
            Type::Block => 11,
            Type::GetCompactBlock => 12,
            Type::CompactBlock => 13,
            Type::StemTransaction => 14,
            Type::Transaction => 15,
            Type::TxHashSetRequest => 16,
            Type::TxHashSetArchive => 17,
            Type::BanReason => 18,
            Type::GetTransaction => 19,
            Type::TransactionKernel => 20,
            Type::KernelDataRequest => 21,
            Type::KernelDataResponse => 22,
        }
    }

    /// The message type with the given code; `None` for a code that no known
    /// type has.
    pub fn from_u8(c: u8) -> (r: Option<Type>)
        ensures
            r is Some <==> c <= LAST_TYPE_CODE,
            r matches Some(t) ==> type_code(t) == c,
    {
        match c {
            0 => Some(Type::Error),
            1 => Some(Type::Hand),
            2 => Some(Type::Shake),
            3 => Some(Type::Ping),
            4 => Some(Type::Pong),
            5 => Some(Type::GetPeerAddrs),
            6 => Some(Type::PeerAddrs),
            7 => Some(Type::GetHeaders),
            8 => Some(Type::Header),
            9 => Some(Type::Headers),
            10 => Some(Type::GetBlock),
            11 => Some(Type::Block),
            12 => Some(Type::GetCompactBlock),
            13 => Some(Type::CompactBlock),
            14 => Some(Type::StemTransaction),
            15 => Some(Type::Transaction),
            16 => Some(Type::TxHashSetRequest),
            17 => Some(Type::TxHashSetArchive),
            18 => Some(Type::BanReason),
            19 => Some(Type::GetTransaction),
            20 => Some(Type::TransactionKernel),
            21 => Some(Type::KernelDataRequest),
            22 => Some(Type::KernelDataResponse),
            _ => None,
        }
    }
}

} // verus!

//! Messages that cross a peer connection: the size ceilings, the frame header
//! and its codec, the payloads, and the envelope that the writer sends.

use crate::ser::{
    lemma_u64_round_trip, parse_u64, parse_u8, u64_be, BinReader, BinWriter, ProtocolVersion,
    Readable, SerError, Writeable,
};
use crate::types::{type_code, Type, LAST_TYPE_CODE, MAX_BLOCK_HEADERS, MAX_LOCATORS, MAX_PEER_ADDRS};
use vstd::prelude::*;

verus! {

/// Weight of one block output, in the units of the block weight limit.
pub const BLOCK_OUTPUT_WEIGHT: u64 = 21;

/// Weight limit of a block on the production and public test networks.
pub const MAX_BLOCK_WEIGHT: u64 = 40_000;

/// Largest serialized size of one block output, with its range proof.
pub const OUTPUT_SERIALIZED_SIZE: u64 = 708;

/// The slack that every size ceiling is multiplied by when a header is read,
/// to leave room for later changes to the messages.
pub const DEFAULT_SIZE_SLACK: u64 = 4;

/// The network a node runs on.
#[derive(Clone, Copy, Debug, PartialEq, Eq, Structural)]
pub enum ChainType {
    AutomatedTesting,
    UserTesting,
    Floonet,
    Mainnet,
}

/// What the codec needs to know of the node's configuration: the network,
/// which picks the magic bytes, the current block weight limit, which bounds
/// the larger messages, and the slack applied to every ceiling.
#[derive(Clone, Copy, Debug, PartialEq, Eq, Structural)]
pub struct ProtocolConfig {
    pub chain_type: ChainType,
    pub max_block_weight: u64,
    pub size_slack: u64,
}

pub open spec fn spec_max_block_size(max_block_weight: u64) -> int {
    (max_block_weight / BLOCK_OUTPUT_WEIGHT) as int * OUTPUT_SERIALIZED_SIZE as int
}

impl ProtocolConfig {
    /// The largest block fits in a u64.
    pub open spec fn wf(&self) -> bool {
        spec_max_block_size(self.max_block_weight) <= u64::MAX
    }

    /// A configuration with the default slack.
    pub fn new(chain_type: ChainType, max_block_weight: u64) -> (c: ProtocolConfig)
        ensures
            c.chain_type == chain_type,
            c.max_block_weight == max_block_weight,
            c.size_slack == DEFAULT_SIZE_SLACK,
    {
        ProtocolConfig { chain_type, max_block_weight, size_slack: DEFAULT_SIZE_SLACK }
    }
}

pub open spec fn spec_magic(chain_type: ChainType) -> Seq<u8> {
    match chain_type {
        ChainType::Floonet => seq![83u8, 59u8],
        ChainType::Mainnet => seq![97u8, 61u8],
        _ => seq![73u8, 43u8],
    }
}

/// The two bytes that open every header on the given network.
pub fn magic(chain_type: ChainType) -> (m: [u8; 2])
    ensures
        m@ == spec_magic(chain_type),
{
    let m: [u8; 2] = match chain_type {
        ChainType::Floonet => [83, 59],
        ChainType::Mainnet => [97, 61],
        _ => [73, 43],
    };
    assert(m@ =~= spec_magic(chain_type));
    m
}

/// Largest size of a block filled with outputs.
pub fn max_block_size(cfg: &ProtocolConfig) -> (n: u64)
    requires
        cfg.wf(),
    ensures
        n == spec_max_block_size(cfg.max_block_weight),
{
    cfg.max_block_weight / BLOCK_OUTPUT_WEIGHT * OUTPUT_SERIALIZED_SIZE
}

/// Largest body of a message whose type is not known.
pub fn default_max_msg_size(cfg: &ProtocolConfig) -> (n: u64)
    requires
        cfg.wf(),
    ensures
        n == spec_max_block_size(cfg.max_block_weight),
{
    max_block_size(cfg)
}

/// Largest body of a message of the given type.
pub open spec fn spec_max_msg_size(t: Type, max_block_weight: u64) -> int {
    match t {
        Type::Error => 0,
        Type::Hand => 128,
        Type::Shake => 88,
        Type::Ping => 16,
        Type::Pong => 16,
        Type::GetPeerAddrs => 4,
        Type::PeerAddrs => 4 + (1 + 16 + 2) * MAX_PEER_ADDRS as int,
        Type::GetHeaders => 1 + 32 * MAX_LOCATORS as int,
        Type::Header => 365,
        Type::Headers => 2 + 365 * MAX_BLOCK_HEADERS as int,
        Type::GetBlock => 32,
        Type::Block => spec_max_block_size(max_block_weight),
        Type::GetCompactBlock => 32,
        Type::CompactBlock => spec_max_block_size(max_block_weight) / 10,
        Type::StemTransaction => spec_max_block_size(max_block_weight),
        Type::Transaction => spec_max_block_size(max_block_weight),
        Type::TxHashSetRequest => 40,
        Type::TxHashSetArchive => 64,
        Type::BanReason => 64,
        Type::GetTransaction => 32,
        Type::TransactionKernel => 32,
        Type::KernelDataRequest => 0,
        Type::KernelDataResponse => 8,
    }
}

/// Largest body of a message of the given type.
pub fn max_msg_size(msg_type: Type, cfg: &ProtocolConfig) -> (n: u64)
    requires
        cfg.wf(),
    ensures
        n == spec_max_msg_size(msg_type, cfg.max_block_weight),
{
    assert(MAX_PEER_ADDRS == 256 && MAX_LOCATORS == 20 && MAX_BLOCK_HEADERS == 32);
    match msg_type {
        Type::Error => 0,
        Type::Hand => 128,
        Type::Shake => 88,
        Type::Ping => 16,
        Type::Pong => 16,
        Type::GetPeerAddrs => 4,
        Type::PeerAddrs => 4 + 19 * (MAX_PEER_ADDRS as u64),
        Type::GetHeaders => 1 + 32 * MAX_LOCATORS as u64,
        Type::Header => 365,
        Type::Headers => 2 + 365 * MAX_BLOCK_HEADERS as u64,
        Type::GetBlock => 32,
        Type::Block => max_block_size(cfg),
        Type::GetCompactBlock => 32,
        Type::CompactBlock => max_block_size(cfg) / 10,
        Type::StemTransaction => max_block_size(cfg),
        Type::Transaction => max_block_size(cfg),
        Type::TxHashSetRequest => 40,
        Type::TxHashSetArchive => 64,
        Type::BanReason => 64,
        Type::GetTransaction => 32,
        Type::TransactionKernel => 32,
        Type::KernelDataRequest => 0,
        Type::KernelDataResponse => 8,
    }
}

/// The longest body that a header of a known type may declare.
pub open spec fn known_len_cap(t: Type, cfg: ProtocolConfig) -> int {
    spec_max_msg_size(t, cfg.max_block_weight) * cfg.size_slack
}

/// The longest body that a header of an unknown type may declare.
pub open spec fn unknown_len_cap(cfg: ProtocolConfig) -> int {
    spec_max_block_size(cfg.max_block_weight) * cfg.size_slack
}

/// Header of any message: the network's magic bytes, the message type and the
/// length of the body that follows.
#[derive(Clone, Copy, Debug)]
pub struct MsgHeader {
    /// Magic bytes of the network.
    pub magic: [u8; 2],
    /// Type of the message.
    pub msg_type: Type,
    /// Length of the body in bytes.
    pub msg_len: u64,
}

/// The model of a header.
pub struct MsgHeaderView {
    pub magic: Seq<u8>,
    pub msg_type: Type,
    pub msg_len: u64,
}

impl View for MsgHeader {
    type V = MsgHeaderView;

    open spec fn view(&self) -> MsgHeaderView {
        MsgHeaderView { magic: self.magic@, msg_type: self.msg_type, msg_len: self.msg_len }
    }
}

/// The bytes of a header with the given magic, type code and length.
pub open spec fn header_wire(magic: Seq<u8>, code: u8, len: u64) -> Seq<u8> {
    magic + seq![code] + u64_be(len)
}

impl MsgHeader {
    /// 2 magic bytes, 1 type byte and 8 length bytes.
    pub const LEN: usize = 11;

    /// A header for a body of `len` bytes of type `msg_type` on the given network.
    pub fn new(msg_type: Type, len: u64, chain_type: ChainType) -> (h: MsgHeader)
        ensures
            h@ == (MsgHeaderView { magic: spec_magic(chain_type), msg_type, msg_len: len }),
    {
        MsgHeader { magic: magic(chain_type), msg_type, msg_len: len }
    }
}

impl Writeable for MsgHeader {
    open spec fn wire(v: MsgHeaderView) -> Seq<u8> {
        header_wire(v.magic, type_code(v.msg_type), v.msg_len)
    }

    fn write(&self, w: &mut BinWriter) {
        w.write_u8(self.magic[0]);
        w.write_u8(self.magic[1]);
        w.write_u8(self.msg_type.code());
        w.write_u64(self.msg_len);
        assert(self.magic@ =~= seq![self.magic[0], self.magic[1]]);
        assert(w.buf@ =~= old(w).buf@ + Self::wire(self@));
    }
}

/// A header as read: of a known type, or of a type this node does not know,
/// with the declared length and the type byte, so that the body can be skipped.
#[derive(Clone, Copy, Debug)]
pub enum MsgHeaderWrapper {
    /// A known message type, with its header.
    Known(MsgHeader),
    /// An unknown message type: the body length and the type byte.
    Unknown(u64, u8),
}

/// The model of a header as read.
pub enum MsgHeaderWrapperView {
    Known(MsgHeaderView),
    Unknown(u64, u8),
}

impl View for MsgHeaderWrapper {
    type V = MsgHeaderWrapperView;

    open spec fn view(&self) -> MsgHeaderWrapperView {
        match self {
            MsgHeaderWrapper::Known(h) => MsgHeaderWrapperView::Known(h@),
            MsgHeaderWrapper::Unknown(len, t) => MsgHeaderWrapperView::Unknown(*len, *t),
        }
    }
}

/// The known type with the given code, if there is one.
pub open spec fn type_of_code(c: u8) -> Option<Type> {
    if c <= LAST_TYPE_CODE {
        Some(choose|t: Type| type_code(t) == c)
    } else {
        None
    }
}

/// What reading a header does with the given input: the two magic bytes of the
/// configured network, a type byte and a length; a length above the ceiling of
/// the type (or of an unknown type) is too large.
pub open spec fn parse_header(s: Seq<u8>, cfg: ProtocolConfig) -> Result<
    (MsgHeaderWrapperView, Seq<u8>),
    SerError,
> {
    let m = spec_magic(cfg.chain_type);
    match parse_u8(s) {
        Err(e) => Err(e),
        Ok((m0, r0)) => if m0 != m[0] {
            Err(SerError::UnexpectedData { expected: m[0], received: m0 })
        } else {
            match parse_u8(r0) {
                Err(e) => Err(e),
                Ok((m1, r1)) => if m1 != m[1] {
                    Err(SerError::UnexpectedData { expected: m[1], received: m1 })
                } else {
                    match parse_u8(r1) {
                        Err(e) => Err(e),
                        Ok((t, r2)) => match parse_u64(r2) {
                            Err(e) => Err(e),
                            Ok((len, r3)) => match type_of_code(t) {
                                Some(ty) => if len > known_len_cap(ty, cfg) {
                                    Err(SerError::TooLargeReadErr)
                                } else {
                                    Ok(
                                        (
                                            MsgHeaderWrapperView::Known(
                                                MsgHeaderView { magic: m, msg_type: ty, msg_len: len },
                                            ),
                                            r3,
                                        ),
                                    )
                                },
                                None => if len > unknown_len_cap(cfg) {
                                    Err(SerError::TooLargeReadErr)
                                } else {
                                    Ok((MsgHeaderWrapperView::Unknown(len, t), r3))
                                },
                            },
                        },
                    }
                },
            }
        },
    }
}

proof fn lemma_mul_fits(a: u64, b: u64)
    ensures
        (a as int) * (b as int) <= u128::MAX,
{
    assert((a as int) * (b as int) <= (u64::MAX as int) * (u64::MAX as int)) by (nonlinear_arith)
        requires
            a <= u64::MAX,
            b <= u64::MAX,
    ;
}

proof fn lemma_type_of_code(t: Type)
    ensures
        type_of_code(type_code(t)) == Some(t),
{
    let c = type_code(t);
    assert(type_code(t) == c);
    let u = choose|u: Type| type_code(u) == c;
    assert(type_code(u) == c);
}

impl MsgHeaderWrapper {
    /// Reads a header, checking the magic bytes and the declared length
    /// before any body is read.
    pub fn read(r: &mut BinReader, cfg: &ProtocolConfig) -> (res: Result<
        MsgHeaderWrapper,
        SerError,
    >)
        requires
            cfg.wf(),
        ensures
            final(r).spec_version() == old(r).spec_version(),
            match res {
                Ok(h) => parse_header(old(r).rest(), *cfg) == Ok::<
                    (MsgHeaderWrapperView, Seq<u8>),
                    SerError,
                >((h@, final(r).rest())),
                Err(e) => parse_header(old(r).rest(), *cfg) == Err::<
                    (MsgHeaderWrapperView, Seq<u8>),
                    SerError,
                >(e),
            },
    {
        let m = magic(cfg.chain_type);
        r.expect_u8(m[0])?;
        r.expect_u8(m[1])?;
        let t = r.read_u8()?;
        let msg_len = r.read_u64()?;
        let slack = cfg.size_slack as u128;
        match Type::from_u8(t) {
            Some(msg_type) => {
                proof {
                    lemma_type_of_code(msg_type);
                }
                let max = max_msg_size(msg_type, cfg);
                proof {
                    lemma_mul_fits(max, cfg.size_slack);
                }
                let max_len = (max as u128) * slack;
                if msg_len as u128 > max_len {
                    return Err(SerError::TooLargeReadErr);
                }
                Ok(MsgHeaderWrapper::Known(MsgHeader { magic: m, msg_type, msg_len }))
            },
            None => {
                let max = default_max_msg_size(cfg);
                proof {
                    lemma_mul_fits(max, cfg.size_slack);
                }
                let max_len = (max as u128) * slack;
                if msg_len as u128 > max_len {
                    return Err(SerError::TooLargeReadErr);
                }
                Ok(MsgHeaderWrapper::Unknown(msg_len, t))
            },
        }
    }
}

/// Opens a header's bytes: the magic, the type byte and the length come back
/// off the front, with what follows left over.
proof fn lemma_header_fields(m: Seq<u8>, code: u8, len: u64, rest: Seq<u8>)
    requires
        m.len() == 2,
    ensures
        ({
            let s = header_wire(m, code, len) + rest;
            &&& parse_u8(s) == Ok::<(u8, Seq<u8>), SerError>((m[0], s.skip(1)))
            &&& parse_u8(s.skip(1)) == Ok::<(u8, Seq<u8>), SerError>((m[1], s.skip(2)))
            &&& parse_u8(s.skip(2)) == Ok::<(u8, Seq<u8>), SerError>((code, s.skip(3)))
            &&& parse_u64(s.skip(3)) == Ok::<(u64, Seq<u8>), SerError>((len, rest))
        }),
{
    let s = header_wire(m, code, len) + rest;
    assert(s.skip(1).skip(1) =~= s.skip(2));
    assert(s.skip(2).skip(1) =~= s.skip(3));
    assert(s.skip(3) =~= u64_be(len) + rest);
    lemma_u64_round_trip(len, rest);
}

/// A header of a known type reads back as the same header, whatever follows
/// it, exactly when its length is within the ceiling of its type; above it,
/// reading fails as too large.
pub proof fn lemma_known_header(msg_type: Type, len: u64, cfg: ProtocolConfig, rest: Seq<u8>)
    ensures
        ({
            let h = MsgHeaderView { magic: spec_magic(cfg.chain_type), msg_type, msg_len: len };
            parse_header(MsgHeader::wire(h) + rest, cfg) == if len <= known_len_cap(msg_type, cfg) {
                Ok::<(MsgHeaderWrapperView, Seq<u8>), SerError>(
                    (MsgHeaderWrapperView::Known(h), rest),
                )
            } else {
                Err::<(MsgHeaderWrapperView, Seq<u8>), SerError>(SerError::TooLargeReadErr)
            }
        }),
{
    let m = spec_magic(cfg.chain_type);
    lemma_header_fields(m, type_code(msg_type), len, rest);
    lemma_type_of_code(msg_type);
}

/// A header of a known type and a length within its ceiling reads back as
/// the same type and length.
pub proof fn lemma_header_round_trip(msg_type: Type, len: u64, cfg: ProtocolConfig, rest: Seq<u8>)
    requires
        len <= known_len_cap(msg_type, cfg),
    ensures
        ({
            let h = MsgHeaderView { magic: spec_magic(cfg.chain_type), msg_type, msg_len: len };
            parse_header(MsgHeader::wire(h) + rest, cfg) == Ok::<
                (MsgHeaderWrapperView, Seq<u8>),
                SerError,
            >((MsgHeaderWrapperView::Known(h), rest))
        }),
{
    lemma_known_header(msg_type, len, cfg, rest);
}

/// A header of a known type that claims one byte more than its ceiling is
/// rejected as too large; one that claims exactly the ceiling is accepted.
pub proof fn lemma_header_oversize(msg_type: Type, cfg: ProtocolConfig, rest: Seq<u8>)
    requires
        known_len_cap(msg_type, cfg) + 1 <= u64::MAX,
    ensures
        ({
            let cap = known_len_cap(msg_type, cfg) as u64;
            let m = spec_magic(cfg.chain_type);
            let at = MsgHeaderView { magic: m, msg_type, msg_len: cap };
            let over = MsgHeaderView { magic: m, msg_type, msg_len: (cap + 1) as u64 };
            &&& parse_header(MsgHeader::wire(over) + rest, cfg) == Err::<
                (MsgHeaderWrapperView, Seq<u8>),
                SerError,
            >(SerError::TooLargeReadErr)
            &&& parse_header(MsgHeader::wire(at) + rest, cfg) == Ok::<
                (MsgHeaderWrapperView, Seq<u8>),
                SerError,
            >((MsgHeaderWrapperView::Known(at), rest))
        }),
{
    let cap = known_len_cap(msg_type, cfg);
    assert(cap >= 0) by (nonlinear_arith)
        requires
            cap == spec_max_msg_size(msg_type, cfg.max_block_weight) * cfg.size_slack,
            spec_max_msg_size(msg_type, cfg.max_block_weight) >= 0,
    ;
    lemma_known_header(msg_type, cap as u64, cfg, rest);
    lemma_known_header(msg_type, (cap + 1) as u64, cfg, rest);
}

/// A header whose type byte names no known type reads as unknown, with the
/// same length and type byte, when its length is within the ceiling for
/// unknown types; above it, reading fails as too large.
pub proof fn lemma_unknown_header(code: u8, len: u64, cfg: ProtocolConfig, rest: Seq<u8>)
    requires
        code > LAST_TYPE_CODE,
    ensures
        parse_header(header_wire(spec_magic(cfg.chain_type), code, len) + rest, cfg) == if len
            <= unknown_len_cap(cfg) {
            Ok::<(MsgHeaderWrapperView, Seq<u8>), SerError>(
                (MsgHeaderWrapperView::Unknown(len, code), rest),
            )
        } else {
            Err::<(MsgHeaderWrapperView, Seq<u8>), SerError>(SerError::TooLargeReadErr)
        },
{
    lemma_header_fields(spec_magic(cfg.chain_type), code, len, rest);
}

/// Errors of the framing layer.
#[derive(Clone, Copy, Debug, PartialEq, Eq, Structural)]
pub enum Error {
    /// The bytes could not be read or written as the expected value.
    Serialization(SerError),
    /// The next message is not of the type that the exchange demands.
    BadMessage,
}

/// Reads a header from its bytes, checking its magic and its declared length.
pub fn decode_header(buf: &[u8], version: ProtocolVersion, cfg: &ProtocolConfig) -> (res: Result<
    MsgHeaderWrapper,
    Error,
>)
    requires
        cfg.wf(),
    ensures
        match res {
            Ok(h) => parse_header(buf@, *cfg) matches Ok((v, _)) && v == h@,
            Err(e) => parse_header(buf@, *cfg) matches Err(se) && e == Error::Serialization(se),
        },
{
    let mut reader = BinReader::new(buf, version);
    match MsgHeaderWrapper::read(&mut reader, cfg) {
        Ok(h) => Ok(h),
        Err(e) => Err(Error::Serialization(e)),
    }
}

/// Accepts a header only if it is of a known type and that type is `header_type`.
pub fn check_expected_header(wrapper: MsgHeaderWrapper, header_type: Type) -> (res: Result<
    MsgHeader,
    Error,
>)
    ensures
        match wrapper {
            MsgHeaderWrapper::Known(h) => if h.msg_type == header_type {
                res == Ok::<MsgHeader, Error>(h)
            } else {
                res == Err::<MsgHeader, Error>(Error::BadMessage)
            },
            MsgHeaderWrapper::Unknown(_, _) => res == Err::<MsgHeader, Error>(Error::BadMessage),
        },
{
    match wrapper {
        MsgHeaderWrapper::Known(h) => if h.msg_type == header_type {
            Ok(h)
        } else {
            Err(Error::BadMessage)
        },
        MsgHeaderWrapper::Unknown(_, _) => Err(Error::BadMessage),
    }
}

/// Reads a body of type `T` from its bytes; bytes after the value are left
/// unread.
pub fn decode_body<T: Readable>(buf: &[u8], version: ProtocolVersion) -> (res: Result<T, Error>)
    ensures
        match res {
            Ok(x) => T::parse(buf@) matches Ok((v, _)) && v == x@,
            Err(e) => T::parse(buf@) matches Err(se) && e == Error::Serialization(se),
        },
{
    let mut reader = BinReader::new(buf, version);
    match T::read(&mut reader) {
        Ok(x) => Ok(x),
        Err(e) => Err(Error::Serialization(e)),
    }
}

/// `bytes::Bytes`, the shared buffer that holds a message body; its bytes are
/// known only through `bytes_content`.
#[verifier::external_type_specification]
#[verifier::external_body]
pub struct ExBytes(bytes::Bytes);

/// `tokio::fs::File`, an attachment carried along with a message and never
/// looked into here.
#[verifier::external_type_specification]
#[verifier::external_body]
pub struct ExFile(tokio::fs::File);

/// The bytes that a shared buffer holds.
pub uninterp spec fn bytes_content(b: bytes::Bytes) -> Seq<u8>;

/// Relies on `From<Vec<u8>> for bytes::Bytes`: the buffer takes over the
/// vector and holds its bytes.
#[verifier::external_body]
fn bytes_from_vec(v: Vec<u8>) -> (b: bytes::Bytes)
    ensures
        bytes_content(b) == v@,
{
    bytes::Bytes::from(v)
}

/// Relies on `bytes::Bytes` dereferencing to the slice of its bytes, and on
/// `<[u8]>::to_vec` copying that slice.
#[verifier::external_body]
fn bytes_to_vec(b: &bytes::Bytes) -> (v: Vec<u8>)
    ensures
        v@ == bytes_content(*b),
{
    b.to_vec()
}

/// A message ready to send: its header, its serialized body, the protocol
/// version it was written for, and optionally a file that follows the body on
/// the wire.
pub struct Msg {
    pub header: MsgHeader,
    body: bytes::Bytes,
    attachment: Option<tokio::fs::File>,
    version: ProtocolVersion,
}

impl Msg {
    pub closed spec fn spec_header(&self) -> MsgHeader {
        self.header
    }

    pub closed spec fn body_bytes(&self) -> Seq<u8> {
        bytes_content(self.body)
    }

    pub closed spec fn spec_version(&self) -> ProtocolVersion {
        self.version
    }

    pub closed spec fn has_attachment(&self) -> bool {
        self.attachment is Some
    }

    /// Serializes `msg` as the body of a message of type `msg_type`, with a
    /// header that declares the body's length.
    pub fn new<T: Writeable>(
        msg_type: Type,
        msg: T,
        version: ProtocolVersion,
        chain_type: ChainType,
    ) -> (res: Result<Msg, Error>)
        ensures
            res matches Ok(m) && m.body_bytes() == T::wire(msg@) && m.spec_header()@ == (MsgHeaderView {
                magic: spec_magic(chain_type),
                msg_type,
                msg_len: T::wire(msg@).len() as u64,
            }) && m.spec_version() == version && !m.has_attachment(),
    {
        let mut w = BinWriter::new(version);
        msg.write(&mut w);
        let len = w.buf.len() as u64;
        proof {
            assert(w.buf@ =~= T::wire(msg@));
        }
        Ok(
            Msg {
                header: MsgHeader::new(msg_type, len, chain_type),
                body: bytes_from_vec(w.buf),
                attachment: None,
                version,
            },
        )
    }

    /// Takes a message apart.
    pub fn into_parts(self) -> (parts: (MsgHeader, bytes::Bytes, ProtocolVersion))
        ensures
            parts.0 == self.spec_header(),
            bytes_content(parts.1) == self.body_bytes(),
            parts.2 == self.spec_version(),
    {
        (self.header, self.body, self.version)
    }

    /// Puts a message together from its parts, with no attachment.
    pub fn from_parts(header: MsgHeader, body: bytes::Bytes, version: ProtocolVersion) -> (m: Msg)
        ensures
            m.spec_header() == header,
            m.body_bytes() == bytes_content(body),
            m.spec_version() == version,
            !m.has_attachment(),
    {
        Msg { header, body, attachment: None, version }
    }

    /// Sets the file that follows the body on the wire.
    pub fn add_attachment(&mut self, attachment: tokio::fs::File)
        ensures
            final(self).has_attachment(),
            final(self).spec_header() == old(self).spec_header(),
            final(self).body_bytes() == old(self).body_bytes(),
            final(self).spec_version() == old(self).spec_version(),
    {
        self.attachment = Some(attachment);
    }

    /// The file that follows the body, if there is one.
    pub fn attachment(&self) -> (a: Option<&tokio::fs::File>)
        ensures
            a is Some <==> self.has_attachment(),
    {
        self.attachment.as_ref()
    }

    pub fn version(&self) -> (v: ProtocolVersion)
        ensures
            v == self.spec_version(),
    {
        self.version
    }

    pub fn header(&self) -> (h: MsgHeader)
        ensures
            h == self.spec_header(),
    {
        self.header
    }

    /// The header and the body in one buffer, as they go on the wire in a
    /// single write.
    pub fn frame(&self) -> (f: Vec<u8>)
        ensures
            f@ == MsgHeader::wire(self.spec_header()@) + self.body_bytes(),
            f@.len() == MsgHeader::LEN + self.body_bytes().len(),
    {
        let mut w = BinWriter::new(self.version);
        self.header.write(&mut w);
        let body = bytes_to_vec(&self.body);
        w.write_fixed_bytes(body.as_slice());
        proof {
            assert(w.buf@ =~= MsgHeader::wire(self.header@) + self.body_bytes());
        }
        w.buf
    }
}

/// Size of the chunks an attachment is read and sent in.
pub const ATTACHMENT_CHUNK_SIZE: usize = 8192;

/// What the writer does after reading from an attachment.
#[derive(Clone, Copy, Debug, PartialEq, Eq, Structural)]
pub enum AttachmentStep {
    /// Write this many bytes, just read, and count them as quiet traffic.
    Send(usize),
    /// The attachment is exhausted; the message is complete.
    Finished,
}

/// Progress of streaming one attachment after its message.
#[derive(Clone, Copy, Debug, PartialEq, Eq, Structural)]
pub struct AttachmentProgress {
    /// Attachment bytes sent so far.
    pub sent: u64,
}

impl AttachmentProgress {
    pub fn new() -> (p: AttachmentProgress)
        ensures
            p.sent == 0,
    {
        AttachmentProgress { sent: 0 }
    }

    /// Decides what follows a read of `n` bytes from the attachment: a read of
    /// nothing ends the stream, any other is sent on.
    pub fn on_read(&mut self, n: usize) -> (step: AttachmentStep)
        requires
            old(self).sent + n <= u64::MAX,
        ensures
            n == 0 ==> step == AttachmentStep::Finished && *final(self) == *old(self),
            n > 0 ==> step == AttachmentStep::Send(n) && final(self).sent == old(self).sent + n,
    {
        if n == 0 {
            AttachmentStep::Finished
        } else {
            self.sent = self.sent + n as u64;
            AttachmentStep::Send(n)
        }
    }
}

} // verus!

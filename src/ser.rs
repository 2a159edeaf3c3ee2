//! Binary serialization: big-endian fixed-width integers, length-prefixed byte
//! strings, a growable writer and a cursor reader, and the two traits that every
//! payload and field type implements.

use vstd::prelude::*;
use vstd::utf8::*;

verus! {

/// Negotiated protocol version, threaded through every reader and writer.
#[derive(Clone, Copy, Debug, PartialEq, Eq, Structural)]
pub struct ProtocolVersion(pub u32);

/// Errors of the serialization layer.
#[derive(Clone, Copy, Debug, PartialEq, Eq, Structural)]
pub enum SerError {
    /// The input ended before the value did.
    UnexpectedEof,
    /// A byte that must hold a given value held another.
    UnexpectedData { expected: u8, received: u8 },
    /// The bytes do not form a value of the expected type.
    CorruptedData,
    /// A declared count or length is above what is allowed.
    TooLargeReadErr,
}

pub open spec fn u16_be(v: u16) -> Seq<u8> {
    seq![(v >> 8u16) as u8, v as u8]
}

pub open spec fn u32_be(v: u32) -> Seq<u8> {
    seq![(v >> 24u32) as u8, (v >> 16u32) as u8, (v >> 8u32) as u8, v as u8]
}

pub open spec fn u64_be(v: u64) -> Seq<u8> {
    u32_be((v >> 32u64) as u32) + u32_be(v as u32)
}

pub open spec fn be_u16(s: Seq<u8>) -> u16 {
    (((s[0] as u16) << 8u16) | (s[1] as u16)) as u16
}

pub open spec fn be_u32(s: Seq<u8>) -> u32 {
    (((s[0] as u32) << 24u32) | ((s[1] as u32) << 16u32) | ((s[2] as u32) << 8u32) | (
    s[3] as u32)) as u32
}

pub open spec fn be_u64(s: Seq<u8>) -> u64 {
    (((be_u32(s.take(4)) as u64) << 32u64) | (be_u32(s.subrange(4, 8)) as u64)) as u64
}

/// Reads `n` bytes off the front of `s`.
pub open spec fn parse_fixed(s: Seq<u8>, n: nat) -> Result<(Seq<u8>, Seq<u8>), SerError> {
    if s.len() < n {
        Err(SerError::UnexpectedEof)
    } else {
        Ok((s.take(n as int), s.skip(n as int)))
    }
}

pub open spec fn parse_u8(s: Seq<u8>) -> Result<(u8, Seq<u8>), SerError> {
    if s.len() < 1 {
        Err(SerError::UnexpectedEof)
    } else {
        Ok((s[0], s.skip(1)))
    }
}

pub open spec fn parse_u16(s: Seq<u8>) -> Result<(u16, Seq<u8>), SerError> {
    if s.len() < 2 {
        Err(SerError::UnexpectedEof)
    } else {
        Ok((be_u16(s), s.skip(2)))
    }
}

pub open spec fn parse_u32(s: Seq<u8>) -> Result<(u32, Seq<u8>), SerError> {
    if s.len() < 4 {
        Err(SerError::UnexpectedEof)
    } else {
        Ok((be_u32(s), s.skip(4)))
    }
}

pub open spec fn parse_u64(s: Seq<u8>) -> Result<(u64, Seq<u8>), SerError> {
    if s.len() < 8 {
        Err(SerError::UnexpectedEof)
    } else {
        Ok((be_u64(s), s.skip(8)))
    }
}

/// A byte string preceded by its length as a u64.
pub open spec fn bytes_with_len(b: Seq<u8>) -> Seq<u8> {
    u64_be(b.len() as u64) + b
}

pub open spec fn parse_bytes_len_prefix(s: Seq<u8>) -> Result<(Seq<u8>, Seq<u8>), SerError> {
    match parse_u64(s) {
        Err(e) => Err(e),
        Ok((n, r)) => parse_fixed(r, n as nat),
    }
}

/// A string travels as its UTF-8 bytes with a length prefix.
pub open spec fn string_wire(c: Seq<char>) -> Seq<u8> {
    bytes_with_len(encode_utf8(c))
}

/// Reads a length-prefixed byte string and takes it as UTF-8 text; bytes that
/// are not UTF-8 are corrupted data.
pub open spec fn parse_string(s: Seq<u8>) -> Result<(Seq<char>, Seq<u8>), SerError> {
    match parse_bytes_len_prefix(s) {
        Err(e) => Err(e),
        Ok((b, r)) => if valid_utf8(b) {
            Ok((decode_utf8(b), r))
        } else {
            Err(SerError::CorruptedData)
        },
    }
}

pub proof fn lemma_u16_round_trip(v: u16, rest: Seq<u8>)
    ensures
        parse_u16(u16_be(v) + rest) == Ok::<(u16, Seq<u8>), SerError>((v, rest)),
{
    let s = u16_be(v) + rest;
    assert(s.skip(2) =~= rest);
    let b0 = (v >> 8u16) as u8;
    let b1 = v as u8;
    assert((((b0 as u16) << 8u16) | (b1 as u16)) == v) by (bit_vector)
        requires
            b0 == (v >> 8u16) as u8,
            b1 == v as u8,
    ;
}

pub proof fn lemma_be_u32(v: u32)
    ensures
        be_u32(u32_be(v)) == v,
{
    let b0 = (v >> 24u32) as u8;
    let b1 = (v >> 16u32) as u8;
    let b2 = (v >> 8u32) as u8;
    let b3 = v as u8;
    assert((((b0 as u32) << 24u32) | ((b1 as u32) << 16u32) | ((b2 as u32) << 8u32) | (b3 as u32))
        == v) by (bit_vector)
        requires
            b0 == (v >> 24u32) as u8,
            b1 == (v >> 16u32) as u8,
            b2 == (v >> 8u32) as u8,
            b3 == v as u8,
    ;
}

pub proof fn lemma_u32_round_trip(v: u32, rest: Seq<u8>)
    ensures
        parse_u32(u32_be(v) + rest) == Ok::<(u32, Seq<u8>), SerError>((v, rest)),
{
    let s = u32_be(v) + rest;
    assert(s.skip(4) =~= rest);
    lemma_be_u32(v);
}

pub proof fn lemma_u64_round_trip(v: u64, rest: Seq<u8>)
    ensures
        parse_u64(u64_be(v) + rest) == Ok::<(u64, Seq<u8>), SerError>((v, rest)),
{
    let s = u64_be(v) + rest;
    let hi = (v >> 32u64) as u32;
    let lo = v as u32;
    assert(s.skip(8) =~= rest);
    assert(s.take(4) =~= u32_be(hi));
    assert(s.subrange(4, 8) =~= u32_be(lo));
    lemma_be_u32(hi);
    lemma_be_u32(lo);
    assert((((hi as u64) << 32u64) | (lo as u64)) == v) by (bit_vector)
        requires
            hi == (v >> 32u64) as u32,
            lo == v as u32,
    ;
}

pub proof fn lemma_bytes_round_trip(b: Seq<u8>, rest: Seq<u8>)
    requires
        b.len() <= u64::MAX,
    ensures
        parse_bytes_len_prefix(bytes_with_len(b) + rest) == Ok::<(Seq<u8>, Seq<u8>), SerError>(
            (b, rest),
        ),
{
    lemma_u64_round_trip(b.len() as u64, b + rest);
    assert(bytes_with_len(b) + rest =~= u64_be(b.len() as u64) + (b + rest));
    assert((b + rest).take(b.len() as int) =~= b);
    assert((b + rest).skip(b.len() as int) =~= rest);
}

pub proof fn lemma_string_round_trip(c: Seq<char>, rest: Seq<u8>)
    requires
        encode_utf8(c).len() <= u64::MAX,
    ensures
        parse_string(string_wire(c) + rest) == Ok::<(Seq<char>, Seq<u8>), SerError>((c, rest)),
{
    lemma_bytes_round_trip(encode_utf8(c), rest);
    encode_utf8_valid_utf8(c);
    encode_utf8_decode_utf8(c);
}


/// Collects the bytes of a message as they are written.
pub struct BinWriter {
    pub buf: Vec<u8>,
    pub version: ProtocolVersion,
}

impl BinWriter {
    pub fn new(version: ProtocolVersion) -> (w: BinWriter)
        ensures
            w.buf@ == Seq::<u8>::empty(),
            w.version == version,
    {
        BinWriter { buf: Vec::new(), version }
    }

    pub fn write_u8(&mut self, v: u8)
        ensures
            final(self).buf@ == old(self).buf@ + seq![v],
            final(self).version == old(self).version,
    {
        self.buf.push(v);
        assert(self.buf@ =~= old(self).buf@ + seq![v]);
    }

    pub fn write_u16(&mut self, v: u16)
        ensures
            final(self).buf@ == old(self).buf@ + u16_be(v),
            final(self).version == old(self).version,
    {
        self.buf.push((v >> 8u16) as u8);
        self.buf.push(v as u8);
        assert(self.buf@ =~= old(self).buf@ + u16_be(v));
    }

    pub fn write_u32(&mut self, v: u32)
        ensures
            final(self).buf@ == old(self).buf@ + u32_be(v),
            final(self).version == old(self).version,
    {
        self.buf.push((v >> 24u32) as u8);
        self.buf.push((v >> 16u32) as u8);
        self.buf.push((v >> 8u32) as u8);
        self.buf.push(v as u8);
        assert(self.buf@ =~= old(self).buf@ + u32_be(v));
    }

    pub fn write_u64(&mut self, v: u64)
        ensures
            final(self).buf@ == old(self).buf@ + u64_be(v),
            final(self).version == old(self).version,
    {
        self.write_u32((v >> 32u64) as u32);
        self.write_u32(v as u32);
        assert(self.buf@ =~= old(self).buf@ + u64_be(v));
    }

    pub fn write_i32(&mut self, v: i32)
        ensures
            final(self).buf@ == old(self).buf@ + u32_be(v as u32),
            final(self).version == old(self).version,
    {
        self.write_u32(v as u32);
    }

    /// Appends the bytes as they are, with no length.
    pub fn write_fixed_bytes(&mut self, b: &[u8])
        ensures
            final(self).buf@ == old(self).buf@ + b@,
            final(self).version == old(self).version,
    {
        self.buf.extend_from_slice(b);
    }

    /// Appends the length of `b` as a u64, then `b`.
    pub fn write_bytes(&mut self, b: &[u8])
        ensures
            final(self).buf@ == old(self).buf@ + bytes_with_len(b@),
            final(self).version == old(self).version,
    {
        self.write_u64(b.len() as u64);
        self.write_fixed_bytes(b);
        assert(self.buf@ =~= old(self).buf@ + bytes_with_len(b@));
    }

    /// Appends a string as its UTF-8 bytes with a length prefix.
    pub fn write_string(&mut self, s: &String)
        ensures
            final(self).buf@ == old(self).buf@ + string_wire(s@),
            final(self).version == old(self).version,
    {
        self.write_bytes(s.as_str().as_bytes());
    }
}

/// A cursor over the bytes of one message.
pub struct BinReader<'a> {
    data: &'a [u8],
    pos: usize,
    version: ProtocolVersion,
}

impl<'a> BinReader<'a> {
    #[verifier::type_invariant]
    closed spec fn inv(&self) -> bool {
        self.pos <= self.data@.len()
    }

    /// The bytes not read yet.
    pub closed spec fn rest(&self) -> Seq<u8> {
        self.data@.subrange(self.pos as int, self.data@.len() as int)
    }

    pub closed spec fn spec_version(&self) -> ProtocolVersion {
        self.version
    }

    pub fn new(data: &'a [u8], version: ProtocolVersion) -> (r: BinReader<'a>)
        ensures
            r.rest() == data@,
            r.spec_version() == version,
    {
        let r = BinReader { data, pos: 0, version };
        assert(r.rest() =~= data@);
        r
    }

    pub fn version(&self) -> (v: ProtocolVersion)
        ensures
            v == self.spec_version(),
    {
        self.version
    }

    /// How many bytes are left to read.
    pub fn remaining(&self) -> (n: usize)
        ensures
            n == self.rest().len(),
    {
        proof {
            use_type_invariant(self);
        }
        self.data.len() - self.pos
    }

    pub fn read_u8(&mut self) -> (r: Result<u8, SerError>)
        ensures
            final(self).spec_version() == old(self).spec_version(),
            match r {
                Ok(v) => parse_u8(old(self).rest()) == Ok::<(u8, Seq<u8>), SerError>(
                    (v, final(self).rest()),
                ),
                Err(e) => parse_u8(old(self).rest()) == Err::<(u8, Seq<u8>), SerError>(e),
            },
    {
        proof {
            use_type_invariant(&*self);
        }
        if self.data.len() - self.pos < 1 {
            return Err(SerError::UnexpectedEof);
        }
        let v = self.data[self.pos];
        self.pos = self.pos + 1;
        assert(self.rest() =~= old(self).rest().skip(1));
        Ok(v)
    }

    /// Reads one byte and fails unless it holds `expected`.
    pub fn expect_u8(&mut self, expected: u8) -> (r: Result<u8, SerError>)
        ensures
            final(self).spec_version() == old(self).spec_version(),
            match r {
                Ok(v) => v == expected && parse_u8(old(self).rest()) == Ok::<
                    (u8, Seq<u8>),
                    SerError,
                >((v, final(self).rest())),
                Err(e) => match parse_u8(old(self).rest()) {
                    Ok((b, _)) => b != expected && e == SerError::UnexpectedData {
                        expected,
                        received: b,
                    },
                    Err(pe) => e == pe,
                },
            },
    {
        let b = self.read_u8()?;
        if b == expected {
            Ok(b)
        } else {
            Err(SerError::UnexpectedData { expected, received: b })
        }
    }

    pub fn read_u16(&mut self) -> (r: Result<u16, SerError>)
        ensures
            final(self).spec_version() == old(self).spec_version(),
            match r {
                Ok(v) => parse_u16(old(self).rest()) == Ok::<(u16, Seq<u8>), SerError>(
                    (v, final(self).rest()),
                ),
                Err(e) => parse_u16(old(self).rest()) == Err::<(u16, Seq<u8>), SerError>(e),
            },
    {
        proof {
            use_type_invariant(&*self);
        }
        if self.data.len() - self.pos < 2 {
            return Err(SerError::UnexpectedEof);
        }
        let p = self.pos;
        let v = ((self.data[p] as u16) << 8u16) | (self.data[p + 1] as u16);
        self.pos = p + 2;
        assert(self.rest() =~= old(self).rest().skip(2));
        Ok(v)
    }

    pub fn read_u32(&mut self) -> (r: Result<u32, SerError>)
        ensures
            final(self).spec_version() == old(self).spec_version(),
            match r {
                Ok(v) => parse_u32(old(self).rest()) == Ok::<(u32, Seq<u8>), SerError>(
                    (v, final(self).rest()),
                ),
                Err(e) => parse_u32(old(self).rest()) == Err::<(u32, Seq<u8>), SerError>(e)
                    && final(self).rest() == old(self).rest(),
            },
    {
        proof {
            use_type_invariant(&*self);
        }
        if self.data.len() - self.pos < 4 {
            return Err(SerError::UnexpectedEof);
        }
        let p = self.pos;
        let v = ((self.data[p] as u32) << 24u32) | ((self.data[p + 1] as u32) << 16u32) | ((
        self.data[p + 2] as u32) << 8u32) | (self.data[p + 3] as u32);
        self.pos = p + 4;
        assert(self.rest() =~= old(self).rest().skip(4));
        Ok(v)
    }

    pub fn read_u64(&mut self) -> (r: Result<u64, SerError>)
        ensures
            final(self).spec_version() == old(self).spec_version(),
            match r {
                Ok(v) => parse_u64(old(self).rest()) == Ok::<(u64, Seq<u8>), SerError>(
                    (v, final(self).rest()),
                ),
                Err(e) => parse_u64(old(self).rest()) == Err::<(u64, Seq<u8>), SerError>(e),
            },
    {
        proof {
            use_type_invariant(&*self);
        }
        if self.data.len() - self.pos < 8 {
            return Err(SerError::UnexpectedEof);
        }
        let hi = self.read_u32()?;
        let lo = self.read_u32()?;
        proof {
            let s = old(self).rest();
            assert(s.skip(4).skip(4) =~= s.skip(8));
            assert(s.skip(4) =~= s.subrange(4, s.len() as int));
            assert(be_u32(s.skip(4)) == be_u32(s.subrange(4, 8)));
            assert(be_u32(s) == be_u32(s.take(4)));
        }
        Ok(((hi as u64) << 32u64) | (lo as u64))
    }

    pub fn read_i32(&mut self) -> (r: Result<i32, SerError>)
        ensures
            final(self).spec_version() == old(self).spec_version(),
            match r {
                Ok(v) => parse_u32(old(self).rest()) matches Ok((u, rest)) && v == u as i32
                    && rest == final(self).rest(),
                Err(e) => parse_u32(old(self).rest()) == Err::<(u32, Seq<u8>), SerError>(e)
                    && final(self).rest() == old(self).rest(),
            },
    {
        let u = self.read_u32()?;
        Ok(u as i32)
    }

    /// Reads exactly `n` bytes.
    pub fn read_fixed_bytes(&mut self, n: u64) -> (r: Result<Vec<u8>, SerError>)
        ensures
            final(self).spec_version() == old(self).spec_version(),
            match r {
                Ok(v) => parse_fixed(old(self).rest(), n as nat) == Ok::<
                    (Seq<u8>, Seq<u8>),
                    SerError,
                >((v@, final(self).rest())),
                Err(e) => parse_fixed(old(self).rest(), n as nat) == Err::<
                    (Seq<u8>, Seq<u8>),
                    SerError,
                >(e),
            },
    {
        proof {
            use_type_invariant(&*self);
        }
        let avail = self.data.len() - self.pos;
        if (avail as u64) < n {
            return Err(SerError::UnexpectedEof);
        }
        let len = n as usize;
        let start = self.pos;
        let data = self.data;
        let dlen = data.len();
        assert(start + len <= dlen);
        let mut out: Vec<u8> = Vec::new();
        let mut i: usize = 0;
        while i < len
            invariant
                i <= len,
                start + len <= dlen,
                dlen == data@.len(),
                out@ =~= data@.subrange(start as int, start + i),
            decreases len - i,
        {
            out.push(data[start + i]);
            i = i + 1;
        }
        self.pos = start + len;
        assert(out@ =~= old(self).rest().take(n as int));
        assert(self.rest() =~= old(self).rest().skip(n as int));
        Ok(out)
    }

    /// Reads a u64 length, then that many bytes.
    pub fn read_bytes_len_prefix(&mut self) -> (r: Result<Vec<u8>, SerError>)
        ensures
            final(self).spec_version() == old(self).spec_version(),
            match r {
                Ok(v) => parse_bytes_len_prefix(old(self).rest()) == Ok::<
                    (Seq<u8>, Seq<u8>),
                    SerError,
                >((v@, final(self).rest())),
                Err(e) => parse_bytes_len_prefix(old(self).rest()) == Err::<
                    (Seq<u8>, Seq<u8>),
                    SerError,
                >(e),
            },
    {
        let n = self.read_u64()?;
        self.read_fixed_bytes(n)
    }

    /// Reads a length-prefixed UTF-8 string.
    pub fn read_string(&mut self) -> (r: Result<String, SerError>)
        ensures
            final(self).spec_version() == old(self).spec_version(),
            match r {
                Ok(v) => parse_string(old(self).rest()) == Ok::<(Seq<char>, Seq<u8>), SerError>(
                    (v@, final(self).rest()),
                ),
                Err(e) => parse_string(old(self).rest()) == Err::<(Seq<char>, Seq<u8>), SerError>(
                    e,
                ),
            },
    {
        let b = self.read_bytes_len_prefix()?;
        match string_from_utf8(b) {
            Some(s) => Ok(s),
            None => Err(SerError::CorruptedData),
        }
    }
}

/// A value that can be written, as the bytes that `wire` gives for its model.
pub trait Writeable: View {
    spec fn wire(v: Self::V) -> Seq<u8>;

    fn write(&self, w: &mut BinWriter)
        ensures
            final(w).buf@ == old(w).buf@ + Self::wire(self@),
            final(w).version == old(w).version,
    ;
}

/// A value that can be read; `parse` says what a read makes of given input:
/// the model of the value and the input that follows it, or the error.
pub trait Readable: View + Sized {
    spec fn parse(s: Seq<u8>) -> Result<(Self::V, Seq<u8>), SerError>;

    fn read(r: &mut BinReader) -> (res: Result<Self, SerError>)
        ensures
            final(r).spec_version() == old(r).spec_version(),
            match res {
                Ok(x) => Self::parse(old(r).rest()) == Ok::<(Self::V, Seq<u8>), SerError>(
                    (x@, final(r).rest()),
                ),
                Err(e) => Self::parse(old(r).rest()) == Err::<(Self::V, Seq<u8>), SerError>(e),
            },
    ;
}

/// A type that reads back every valid value it writes, whatever bytes follow.
pub trait Codec: Writeable + Readable {
    spec fn valid(v: Self::V) -> bool;

    /// Reading what a valid value was written as gives that value back and
    /// leaves the bytes after it unread.
    proof fn lemma_round_trip(v: Self::V, rest: Seq<u8>)
        requires
            Self::valid(v),
        ensures
            Self::parse(Self::wire(v) + rest) == Ok::<(Self::V, Seq<u8>), SerError>((v, rest)),
    ;
}

/// Models of the values of a vector.
pub open spec fn views<T: View>(v: Seq<T>) -> Seq<T::V> {
    v.map_values(|x: T| x@)
}

/// The values of `xs`, written one after another.
pub open spec fn seq_wire<T: Writeable>(xs: Seq<T::V>) -> Seq<u8>
    decreases xs.len(),
{
    if xs.len() == 0 {
        Seq::empty()
    } else {
        seq_wire::<T>(xs.drop_last()) + T::wire(xs.last())
    }
}

/// Reads `n` values one after another.
pub open spec fn parse_n<T: Readable>(s: Seq<u8>, n: nat) -> Result<(Seq<T::V>, Seq<u8>), SerError>
    decreases n,
{
    if n == 0 {
        Ok((Seq::empty(), s))
    } else {
        match parse_n::<T>(s, (n - 1) as nat) {
            Err(e) => Err(e),
            Ok((xs, r)) => match T::parse(r) {
                Err(e) => Err(e),
                Ok((x, r2)) => Ok((xs.push(x), r2)),
            },
        }
    }
}

/// Writes every item of `items`, in order, with no count.
pub fn write_all<T: Writeable>(w: &mut BinWriter, items: &Vec<T>)
    ensures
        final(w).buf@ == old(w).buf@ + seq_wire::<T>(views(items@)),
        final(w).version == old(w).version,
{
    let mut i: usize = 0;
    while i < items.len()
        invariant
            i <= items@.len(),
            w.version == old(w).version,
            w.buf@ == old(w).buf@ + seq_wire::<T>(views(items@.take(i as int))),
        decreases items@.len() - i,
    {
        items[i].write(w);
        proof {
            let next = items@.take(i + 1);
            assert(views(next).drop_last() =~= views(items@.take(i as int)));
            assert(views(next).last() == items@[i as int]@);
        }
        i = i + 1;
    }
    assert(items@.take(items@.len() as int) =~= items@);
}

/// Reads `n` values one after another.
pub fn read_n<T: Readable>(r: &mut BinReader, n: u64) -> (res: Result<Vec<T>, SerError>)
    ensures
        final(r).spec_version() == old(r).spec_version(),
        match res {
            Ok(v) => parse_n::<T>(old(r).rest(), n as nat) == Ok::<(Seq<T::V>, Seq<u8>), SerError>(
                (views(v@), final(r).rest()),
            ),
            Err(e) => parse_n::<T>(old(r).rest(), n as nat) == Err::<(Seq<T::V>, Seq<u8>), SerError>(
                e,
            ),
        },
{
    let mut out: Vec<T> = Vec::new();
    let mut i: u64 = 0;
    assert(views(out@) =~= Seq::<T::V>::empty());
    while i < n
        invariant
            i <= n,
            r.spec_version() == old(r).spec_version(),
            parse_n::<T>(old(r).rest(), i as nat) == Ok::<(Seq<T::V>, Seq<u8>), SerError>(
                (views(out@), r.rest()),
            ),
        decreases n - i,
    {
        let x = match T::read(r) {
            Ok(x) => x,
            Err(e) => {
                proof {
                    lemma_parse_n_err::<T>(old(r).rest(), (i + 1) as nat, n as nat);
                }
                return Err(e);
            },
        };
        proof {
            assert(views(out@.push(x)) =~= views(out@).push(x@));
        }
        out.push(x);
        i = i + 1;
    }
    Ok(out)
}

/// Once a read of the first `k` values fails, reading more fails the same way.
pub proof fn lemma_parse_n_err<T: Readable>(s: Seq<u8>, k: nat, n: nat)
    requires
        k <= n,
        parse_n::<T>(s, k) is Err,
    ensures
        parse_n::<T>(s, n) == parse_n::<T>(s, k),
    decreases n - k,
{
    if k < n {
        lemma_parse_n_err::<T>(s, k, (n - 1) as nat);
    }
}

/// Reading back values written one after another gives them back.
pub proof fn lemma_seq_round_trip<T: Codec>(xs: Seq<T::V>, rest: Seq<u8>)
    requires
        forall|i: int| 0 <= i < xs.len() ==> T::valid(#[trigger] xs[i]),
    ensures
        parse_n::<T>(seq_wire::<T>(xs) + rest, xs.len()) == Ok::<(Seq<T::V>, Seq<u8>), SerError>(
            (xs, rest),
        ),
    decreases xs.len(),
{
    if xs.len() > 0 {
        let init = xs.drop_last();
        let last = xs.last();
        assert(T::valid(xs[xs.len() - 1]));
        assert(seq_wire::<T>(xs) + rest =~= seq_wire::<T>(init) + (T::wire(last) + rest));
        lemma_seq_round_trip::<T>(init, T::wire(last) + rest);
        T::lemma_round_trip(last, rest);
        assert(init.push(last) =~= xs);
        assert(init.len() == (xs.len() - 1) as nat);
        assert(parse_n::<T>(seq_wire::<T>(xs) + rest, xs.len()) == match parse_n::<T>(
            seq_wire::<T>(xs) + rest,
            init.len(),
        ) {
            Err(e) => Err(e),
            Ok((ys, r)) => match T::parse(r) {
                Err(e) => Err(e),
                Ok((y, r2)) => Ok((ys.push(y), r2)),
            },
        });
    } else {
        assert(seq_wire::<T>(xs) + rest =~= rest);
        assert(xs =~= Seq::<T::V>::empty());
    }
}

/// Relies on `String::from_utf8`: it succeeds exactly when the bytes are valid
/// UTF-8, and the string then holds the characters they encode.
#[verifier::external_body]
fn string_from_utf8(b: Vec<u8>) -> (r: Option<String>)
    ensures
        r is Some <==> valid_utf8(b@),
        r matches Some(s) ==> s@ == decode_utf8(b@),
{
    String::from_utf8(b).ok()
}

} // verus!

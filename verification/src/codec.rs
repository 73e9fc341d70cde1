//! The codec layer: every wire structure can encode itself into bytes and
//! decode itself back, with identical round-trip semantics.
//!
//! Each `Codeable` type names a mathematical `Model` of its values, says which
//! models are encodable (`valid`), what bytes a model produces (`wire`), and
//! what value a byte stream parses to (`parse`). The executable `encode` and
//! `decode` are proved against those four, and `lemma_roundtrip` proves for
//! every codec that decoding an encoding yields the value that was encoded.

use vstd::prelude::*;

use crate::error::ProtocolError;
use crate::reader::Reader;

verus! {

broadcast use vstd::seq_lib::lemma_seq_skip_of_skip;

// ------------------------------------------------------------------
// Big-endian byte strings for the fixed-width integers
// ------------------------------------------------------------------

/// The two big-endian bytes of a 16-bit value.
pub open spec fn be2(v: u16) -> Seq<u8> {
    seq![((v >> 8) & 0xff) as u8, (v & 0xff) as u8]
}

/// The 16-bit value read from the first two bytes of `s`, high byte first.
pub open spec fn be2_val(s: Seq<u8>) -> u16
    recommends
        s.len() >= 2,
{
    ((s[0] as u16) << 8) | (s[1] as u16)
}

/// The four big-endian bytes of a 32-bit value.
pub open spec fn be4(v: u32) -> Seq<u8> {
    seq![
        ((v >> 24) & 0xff) as u8,
        ((v >> 16) & 0xff) as u8,
        ((v >> 8) & 0xff) as u8,
        (v & 0xff) as u8,
    ]
}

/// The 32-bit value read from the first four bytes of `s`, high byte first.
pub open spec fn be4_val(s: Seq<u8>) -> u32
    recommends
        s.len() >= 4,
{
    ((s[0] as u32) << 24) | ((s[1] as u32) << 16) | ((s[2] as u32) << 8) | (s[3] as u32)
}

/// The eight big-endian bytes of a 64-bit value.
pub open spec fn be8(v: u64) -> Seq<u8> {
    seq![
        ((v >> 56) & 0xff) as u8,
        ((v >> 48) & 0xff) as u8,
        ((v >> 40) & 0xff) as u8,
        ((v >> 32) & 0xff) as u8,
        ((v >> 24) & 0xff) as u8,
        ((v >> 16) & 0xff) as u8,
        ((v >> 8) & 0xff) as u8,
        (v & 0xff) as u8,
    ]
}

/// The 64-bit value read from the first eight bytes of `s`, high byte first.
pub open spec fn be8_val(s: Seq<u8>) -> u64
    recommends
        s.len() >= 8,
{
    ((s[0] as u64) << 56) | ((s[1] as u64) << 48) | ((s[2] as u64) << 40) | ((s[3] as u64) << 32)
        | ((s[4] as u64) << 24) | ((s[5] as u64) << 16) | ((s[6] as u64) << 8) | (s[7] as u64)
}

/// Reading back the two bytes of a 16-bit value gives the value.
pub proof fn lemma_be2_roundtrip(v: u16)
    ensures
        be2_val(be2(v)) == v,
{
    assert((((((v >> 8) & 0xff) as u8) as u16) << 8) | ((((v) & 0xff) as u8) as u16) == v)
        by (bit_vector);
}

/// Reading back the four bytes of a 32-bit value gives the value.
pub proof fn lemma_be4_roundtrip(v: u32)
    ensures
        be4_val(be4(v)) == v,
{
    assert(((((((v >> 24) & 0xff) as u8) as u32) << 24) | (((((v >> 16) & 0xff) as u8) as u32)
        << 16) | (((((v >> 8) & 0xff) as u8) as u32) << 8) | ((((v) & 0xff) as u8) as u32)) == v)
        by (bit_vector);
}

/// Reading back the eight bytes of a 64-bit value gives the value.
pub proof fn lemma_be8_roundtrip(v: u64)
    ensures
        be8_val(be8(v)) == v,
{
    assert(((((((v >> 56) & 0xff) as u8) as u64) << 56) | (((((v >> 48) & 0xff) as u8) as u64)
        << 48) | (((((v >> 40) & 0xff) as u8) as u64) << 40) | (((((v >> 32) & 0xff) as u8) as u64)
        << 32) | (((((v >> 24) & 0xff) as u8) as u64) << 24) | (((((v >> 16) & 0xff) as u8) as u64)
        << 16) | (((((v >> 8) & 0xff) as u8) as u64) << 8) | ((((v) & 0xff) as u8) as u64)) == v)
        by (bit_vector);
}

// ------------------------------------------------------------------
// The codec capability
// ------------------------------------------------------------------

/// A type whose values travel on the wire.
///
/// `Model` is the mathematical shape of a value (a sequence of characters for
/// a string, a sequence of element models for a vector, the value itself for
/// the plain scalars). The laws:
/// - `encode` appends exactly `wire(model)` when the model is `valid`, and
///   fails exactly when it is not;
/// - `decode` returns exactly what `parse` says of the unread bytes;
/// - `lemma_roundtrip` proves `parse(wire(m) + rest) == Some((m, |wire(m)|))`:
///   decoding an encoding yields the encoded value, whatever follows it.
pub trait Codeable: Sized {
    /// The mathematical model of a value.
    type Model;

    /// The model of this value.
    spec fn model(&self) -> Self::Model;

    /// Which models can be put on the wire.
    spec fn valid(m: Self::Model) -> bool;

    /// The bytes a model produces.
    spec fn wire(m: Self::Model) -> Seq<u8>;

    /// What a byte stream parses to: the model and the number of bytes it
    /// occupies, or `None` when the stream does not hold a value.
    spec fn parse(s: Seq<u8>) -> Option<(Self::Model, nat)>;

    /// The error an unencodable model is refused with.
    spec fn enc_err(m: Self::Model) -> ProtocolError;

    /// Whether `e` is the error that refuses the malformed stream `s`.
    spec fn dec_err(s: Seq<u8>, e: ProtocolError) -> bool;

    /// Appends this value's wire bytes to `writer`; fails if and only if the
    /// value cannot be represented on the wire, with the error `enc_err`
    /// names, leaving the writer untouched.
    fn encode(&self, writer: &mut Vec<u8>) -> (r: Result<(), ProtocolError>)
        ensures
            r is Ok <==> Self::valid(self.model()),
            r is Ok ==> final(writer)@ == old(writer)@ + Self::wire(self.model()),
            r is Err ==> final(writer)@ == old(writer)@ && r == Err::<(), ProtocolError>(
                Self::enc_err(self.model()),
            ),
    ;

    /// Reads one value from the stream; returns and consumes exactly what
    /// `parse` says of the unread bytes, and fails exactly when `parse`
    /// does, with an error `dec_err` classifies.
    fn decode(reader: &mut Reader<'_>) -> (r: Result<Self, ProtocolError>)
        requires
            old(reader).wf(),
        ensures
            final(reader).wf(),
            final(reader).all() == old(reader).all(),
            match Self::parse(old(reader).rem()) {
                Some(p) => {
                    &&& r matches Ok(v) && v.model() == p.0
                    &&& final(reader).pos() == old(reader).pos() + p.1
                    &&& final(reader).rem() == old(reader).rem().skip(p.1 as int)
                },
                None => r matches Err(e) && Self::dec_err(old(reader).rem(), e),
            },
    ;

    /// Round trip: a valid model's encoding parses back to the same model,
    /// consuming exactly the encoding, whatever bytes follow it.
    proof fn lemma_roundtrip(m: Self::Model, rest: Seq<u8>)
        requires
            Self::valid(m),
        ensures
            Self::parse(Self::wire(m) + rest) == Some((m, Self::wire(m).len())),
    ;
}

// ------------------------------------------------------------------
// bool: one byte, 0 is false, anything else is true
// ------------------------------------------------------------------

impl Codeable for bool {
    type Model = bool;

    open spec fn model(&self) -> bool {
        *self
    }

    open spec fn valid(m: bool) -> bool {
        true
    }

    open spec fn wire(m: bool) -> Seq<u8> {
        seq![if m { 1u8 } else { 0u8 }]
    }

    open spec fn parse(s: Seq<u8>) -> Option<(bool, nat)> {
        if s.len() >= 1 {
            Some((s[0] != 0, 1 as nat))
        } else {
            None
        }
    }

    open spec fn enc_err(m: bool) -> ProtocolError {
        ProtocolError::GenericError
    }

    open spec fn dec_err(s: Seq<u8>, e: ProtocolError) -> bool {
        e == ProtocolError::IOError
    }

    fn encode(&self, writer: &mut Vec<u8>) -> (r: Result<(), ProtocolError>) {
        writer.push(if *self { 1 } else { 0 });
        Ok(())
    }

    fn decode(reader: &mut Reader<'_>) -> (r: Result<bool, ProtocolError>) {
        let b = match reader.read_u8() {
            Ok(b) => b,
            Err(e) => {
                return Err(e);
            },
        };
        Ok(b != 0)
    }

    proof fn lemma_roundtrip(m: bool, rest: Seq<u8>) {
    }
}

// ------------------------------------------------------------------
// Fixed-width integers, big-endian
// ------------------------------------------------------------------

impl Codeable for u8 {
    type Model = u8;

    open spec fn model(&self) -> u8 {
        *self
    }

    open spec fn valid(m: u8) -> bool {
        true
    }

    open spec fn wire(m: u8) -> Seq<u8> {
        seq![m]
    }

    open spec fn parse(s: Seq<u8>) -> Option<(u8, nat)> {
        if s.len() >= 1 {
            Some((s[0], 1 as nat))
        } else {
            None
        }
    }

    open spec fn enc_err(m: u8) -> ProtocolError {
        ProtocolError::GenericError
    }

    open spec fn dec_err(s: Seq<u8>, e: ProtocolError) -> bool {
        e == ProtocolError::IOError
    }

    fn encode(&self, writer: &mut Vec<u8>) -> (r: Result<(), ProtocolError>) {
        writer.push(*self);
        Ok(())
    }

    fn decode(reader: &mut Reader<'_>) -> (r: Result<u8, ProtocolError>) {
        reader.read_u8()
    }

    proof fn lemma_roundtrip(m: u8, rest: Seq<u8>) {
    }
}

impl Codeable for i8 {
    type Model = i8;

    open spec fn model(&self) -> i8 {
        *self
    }

    open spec fn valid(m: i8) -> bool {
        true
    }

    open spec fn wire(m: i8) -> Seq<u8> {
        seq![m as u8]
    }

    open spec fn parse(s: Seq<u8>) -> Option<(i8, nat)> {
        if s.len() >= 1 {
            Some((s[0] as i8, 1 as nat))
        } else {
            None
        }
    }

    open spec fn enc_err(m: i8) -> ProtocolError {
        ProtocolError::GenericError
    }

    open spec fn dec_err(s: Seq<u8>, e: ProtocolError) -> bool {
        e == ProtocolError::IOError
    }

    fn encode(&self, writer: &mut Vec<u8>) -> (r: Result<(), ProtocolError>) {
        writer.push(*self as u8);
        Ok(())
    }

    fn decode(reader: &mut Reader<'_>) -> (r: Result<i8, ProtocolError>) {
        let b = match reader.read_u8() {
            Ok(b) => b,
            Err(e) => {
                return Err(e);
            },
        };
        Ok(b as i8)
    }

    proof fn lemma_roundtrip(m: i8, rest: Seq<u8>) {
        assert((m as u8) as i8 == m) by (bit_vector);
    }
}

impl Codeable for u16 {
    type Model = u16;

    open spec fn model(&self) -> u16 {
        *self
    }

    open spec fn valid(m: u16) -> bool {
        true
    }

    open spec fn wire(m: u16) -> Seq<u8> {
        be2(m)
    }

    open spec fn parse(s: Seq<u8>) -> Option<(u16, nat)> {
        if s.len() >= 2 {
            Some((be2_val(s), 2 as nat))
        } else {
            None
        }
    }

    open spec fn enc_err(m: u16) -> ProtocolError {
        ProtocolError::GenericError
    }

    open spec fn dec_err(s: Seq<u8>, e: ProtocolError) -> bool {
        e == ProtocolError::IOError
    }

    fn encode(&self, writer: &mut Vec<u8>) -> (r: Result<(), ProtocolError>) {
        let v = *self;
        writer.push(((v >> 8) & 0xff) as u8);
        writer.push((v & 0xff) as u8);
        proof {
            assert(writer@ =~= old(writer)@ + be2(v));
        }
        Ok(())
    }

    fn decode(reader: &mut Reader<'_>) -> (r: Result<u16, ProtocolError>) {
        let b = match reader.read_bytes(2) {
            Ok(b) => b,
            Err(e) => {
                return Err(e);
            },
        };
        Ok(((b[0] as u16) << 8) | (b[1] as u16))
    }

    proof fn lemma_roundtrip(m: u16, rest: Seq<u8>) {
        lemma_be2_roundtrip(m);
        assert(be2_val(be2(m) + rest) == be2_val(be2(m)));
    }
}

impl Codeable for i16 {
    type Model = i16;

    open spec fn model(&self) -> i16 {
        *self
    }

    open spec fn valid(m: i16) -> bool {
        true
    }

    open spec fn wire(m: i16) -> Seq<u8> {
        be2(m as u16)
    }

    open spec fn parse(s: Seq<u8>) -> Option<(i16, nat)> {
        if s.len() >= 2 {
            Some((be2_val(s) as i16, 2 as nat))
        } else {
            None
        }
    }

    open spec fn enc_err(m: i16) -> ProtocolError {
        ProtocolError::GenericError
    }

    open spec fn dec_err(s: Seq<u8>, e: ProtocolError) -> bool {
        e == ProtocolError::IOError
    }

    fn encode(&self, writer: &mut Vec<u8>) -> (r: Result<(), ProtocolError>) {
        (*self as u16).encode(writer)
    }

    fn decode(reader: &mut Reader<'_>) -> (r: Result<i16, ProtocolError>) {
        let v = match u16::decode(reader) {
            Ok(v) => v,
            Err(e) => {
                return Err(e);
            },
        };
        Ok(v as i16)
    }

    proof fn lemma_roundtrip(m: i16, rest: Seq<u8>) {
        lemma_be2_roundtrip(m as u16);
        assert(be2_val(be2(m as u16) + rest) == be2_val(be2(m as u16)));
        assert((m as u16) as i16 == m) by (bit_vector);
    }
}

impl Codeable for u32 {
    type Model = u32;

    open spec fn model(&self) -> u32 {
        *self
    }

    open spec fn valid(m: u32) -> bool {
        true
    }

    open spec fn wire(m: u32) -> Seq<u8> {
        be4(m)
    }

    open spec fn parse(s: Seq<u8>) -> Option<(u32, nat)> {
        if s.len() >= 4 {
            Some((be4_val(s), 4 as nat))
        } else {
            None
        }
    }

    open spec fn enc_err(m: u32) -> ProtocolError {
        ProtocolError::GenericError
    }

    open spec fn dec_err(s: Seq<u8>, e: ProtocolError) -> bool {
        e == ProtocolError::IOError
    }

    fn encode(&self, writer: &mut Vec<u8>) -> (r: Result<(), ProtocolError>) {
        let v = *self;
        writer.push(((v >> 24) & 0xff) as u8);
        writer.push(((v >> 16) & 0xff) as u8);
        writer.push(((v >> 8) & 0xff) as u8);
        writer.push((v & 0xff) as u8);
        proof {
            assert(writer@ =~= old(writer)@ + be4(v));
        }
        Ok(())
    }

    fn decode(reader: &mut Reader<'_>) -> (r: Result<u32, ProtocolError>) {
        let b = match reader.read_bytes(4) {
            Ok(b) => b,
            Err(e) => {
                return Err(e);
            },
        };
        Ok(((b[0] as u32) << 24) | ((b[1] as u32) << 16) | ((b[2] as u32) << 8) | (b[3] as u32))
    }

    proof fn lemma_roundtrip(m: u32, rest: Seq<u8>) {
        lemma_be4_roundtrip(m);
        assert(be4_val(be4(m) + rest) == be4_val(be4(m)));
    }
}

impl Codeable for i32 {
    type Model = i32;

    open spec fn model(&self) -> i32 {
        *self
    }

    open spec fn valid(m: i32) -> bool {
        true
    }

    open spec fn wire(m: i32) -> Seq<u8> {
        be4(m as u32)
    }

    open spec fn parse(s: Seq<u8>) -> Option<(i32, nat)> {
        if s.len() >= 4 {
            Some((be4_val(s) as i32, 4 as nat))
        } else {
            None
        }
    }

    open spec fn enc_err(m: i32) -> ProtocolError {
        ProtocolError::GenericError
    }

    open spec fn dec_err(s: Seq<u8>, e: ProtocolError) -> bool {
        e == ProtocolError::IOError
    }

    fn encode(&self, writer: &mut Vec<u8>) -> (r: Result<(), ProtocolError>) {
        (*self as u32).encode(writer)
    }

    fn decode(reader: &mut Reader<'_>) -> (r: Result<i32, ProtocolError>) {
        let v = match u32::decode(reader) {
            Ok(v) => v,
            Err(e) => {
                return Err(e);
            },
        };
        Ok(v as i32)
    }

    proof fn lemma_roundtrip(m: i32, rest: Seq<u8>) {
        lemma_be4_roundtrip(m as u32);
        assert(be4_val(be4(m as u32) + rest) == be4_val(be4(m as u32)));
        assert((m as u32) as i32 == m) by (bit_vector);
    }
}

impl Codeable for u64 {
    type Model = u64;

    open spec fn model(&self) -> u64 {
        *self
    }

    open spec fn valid(m: u64) -> bool {
        true
    }

    open spec fn wire(m: u64) -> Seq<u8> {
        be8(m)
    }

    open spec fn parse(s: Seq<u8>) -> Option<(u64, nat)> {
        if s.len() >= 8 {
            Some((be8_val(s), 8 as nat))
        } else {
            None
        }
    }

    open spec fn enc_err(m: u64) -> ProtocolError {
        ProtocolError::GenericError
    }

    open spec fn dec_err(s: Seq<u8>, e: ProtocolError) -> bool {
        e == ProtocolError::IOError
    }

    fn encode(&self, writer: &mut Vec<u8>) -> (r: Result<(), ProtocolError>) {
        let v = *self;
        writer.push(((v >> 56) & 0xff) as u8);
        writer.push(((v >> 48) & 0xff) as u8);
        writer.push(((v >> 40) & 0xff) as u8);
        writer.push(((v >> 32) & 0xff) as u8);
        writer.push(((v >> 24) & 0xff) as u8);
        writer.push(((v >> 16) & 0xff) as u8);
        writer.push(((v >> 8) & 0xff) as u8);
        writer.push((v & 0xff) as u8);
        proof {
            assert(writer@ =~= old(writer)@ + be8(v));
        }
        Ok(())
    }

    fn decode(reader: &mut Reader<'_>) -> (r: Result<u64, ProtocolError>) {
        let b = match reader.read_bytes(8) {
            Ok(b) => b,
            Err(e) => {
                return Err(e);
            },
        };
        Ok(
            ((b[0] as u64) << 56) | ((b[1] as u64) << 48) | ((b[2] as u64) << 40) | ((b[3] as u64)
                << 32) | ((b[4] as u64) << 24) | ((b[5] as u64) << 16) | ((b[6] as u64) << 8) | (
            b[7] as u64),
        )
    }

    proof fn lemma_roundtrip(m: u64, rest: Seq<u8>) {
        lemma_be8_roundtrip(m);
        assert(be8_val(be8(m) + rest) == be8_val(be8(m)));
    }
}

impl Codeable for i64 {
    type Model = i64;

    open spec fn model(&self) -> i64 {
        *self
    }

    open spec fn valid(m: i64) -> bool {
        true
    }

    open spec fn wire(m: i64) -> Seq<u8> {
        be8(m as u64)
    }

    open spec fn parse(s: Seq<u8>) -> Option<(i64, nat)> {
        if s.len() >= 8 {
            Some((be8_val(s) as i64, 8 as nat))
        } else {
            None
        }
    }

    open spec fn enc_err(m: i64) -> ProtocolError {
        ProtocolError::GenericError
    }

    open spec fn dec_err(s: Seq<u8>, e: ProtocolError) -> bool {
        e == ProtocolError::IOError
    }

    fn encode(&self, writer: &mut Vec<u8>) -> (r: Result<(), ProtocolError>) {
        (*self as u64).encode(writer)
    }

    fn decode(reader: &mut Reader<'_>) -> (r: Result<i64, ProtocolError>) {
        let v = match u64::decode(reader) {
            Ok(v) => v,
            Err(e) => {
                return Err(e);
            },
        };
        Ok(v as i64)
    }

    proof fn lemma_roundtrip(m: i64, rest: Seq<u8>) {
        lemma_be8_roundtrip(m as u64);
        assert(be8_val(be8(m as u64) + rest) == be8_val(be8(m as u64)));
        assert((m as u64) as i64 == m) by (bit_vector);
    }
}

// ------------------------------------------------------------------
// Varint length: 1, 2 or 3 bytes chosen by the two high bits
// ------------------------------------------------------------------

/// A length transmitted as a variable-width integer: values below 128 take
/// one byte, below 16384 two, below 4194304 three; anything larger cannot be
/// encoded.
pub struct Length(pub usize);

/// The varint bytes of a length value.
pub open spec fn varint_wire(m: int) -> Seq<u8>
    recommends
        0 <= m < 4194304,
{
    let v = m as u32;
    if v < 128 {
        seq![v as u8]
    } else if v < 16384 {
        seq![(0x80u32 | (v >> 8)) as u8, (v & 0xff) as u8]
    } else {
        seq![(0xc0u32 | (v >> 16)) as u8, ((v >> 8) & 0xff) as u8, (v & 0xff) as u8]
    }
}

/// The length value and width read from the head of `s`, dispatching on the
/// two high bits of the first byte.
pub open spec fn varint_parse(s: Seq<u8>) -> Option<(int, nat)> {
    if s.len() < 1 {
        None
    } else {
        let v0 = s[0];
        if v0 & 0x80 == 0 {
            Some((v0 as int, 1 as nat))
        } else if v0 & 0x40 == 0 {
            if s.len() < 2 {
                None
            } else {
                Some((((((v0 & 0x3f) as u32) << 8) | (s[1] as u32)) as int, 2 as nat))
            }
        } else {
            if s.len() < 3 {
                None
            } else {
                Some(
                    (
                        (((((v0 & 0x3f) as u32) << 16) | ((s[1] as u32) << 8) | (s[2] as u32))
                            as int),
                        3 as nat,
                    ),
                )
            }
        }
    }
}

impl Codeable for Length {
    type Model = int;

    open spec fn model(&self) -> int {
        self.0 as int
    }

    open spec fn valid(m: int) -> bool {
        0 <= m < 4194304
    }

    open spec fn wire(m: int) -> Seq<u8> {
        varint_wire(m)
    }

    open spec fn parse(s: Seq<u8>) -> Option<(int, nat)> {
        varint_parse(s)
    }

    open spec fn enc_err(m: int) -> ProtocolError {
        ProtocolError::CodecVarIntTooLarge
    }

    open spec fn dec_err(s: Seq<u8>, e: ProtocolError) -> bool {
        e == ProtocolError::IOError
    }

    fn encode(&self, writer: &mut Vec<u8>) -> (r: Result<(), ProtocolError>) {
        let target = self.0;
        if target < 128 {
            writer.push(target as u8);
            proof {
                assert(writer@ =~= old(writer)@ + varint_wire(target as int));
            }
        } else if target < 16384 {
            let v = target as u32;
            writer.push((0x80u32 | (v >> 8)) as u8);
            writer.push((v & 0xff) as u8);
            proof {
                assert(writer@ =~= old(writer)@ + varint_wire(target as int));
            }
        } else if target < 4194304 {
            let v = target as u32;
            writer.push((0xc0u32 | (v >> 16)) as u8);
            writer.push(((v >> 8) & 0xff) as u8);
            writer.push((v & 0xff) as u8);
            proof {
                assert(writer@ =~= old(writer)@ + varint_wire(target as int));
            }
        } else {
            return Err(ProtocolError::CodecVarIntTooLarge);
        }
        Ok(())
    }

    fn decode(reader: &mut Reader<'_>) -> (r: Result<Length, ProtocolError>) {
        let ghost s0 = old(reader).rem();
        let v0 = match reader.read_u8() {
            Ok(b) => b,
            Err(e) => {
                return Err(e);
            },
        };
        if v0 & 0x80 == 0 {
            return Ok(Length(v0 as usize));
        }
        let v1 = match reader.read_u8() {
            Ok(b) => b,
            Err(e) => {
                return Err(e);
            },
        };
        if v0 & 0x40 == 0 {
            let value = (((v0 & 0x3f) as u32) << 8) | (v1 as u32);
            proof {
                assert(reader.rem() =~= s0.skip(2));
            }
            return Ok(Length(value as usize));
        }
        let v2 = match reader.read_u8() {
            Ok(b) => b,
            Err(e) => {
                return Err(e);
            },
        };
        let value = (((v0 & 0x3f) as u32) << 16) | ((v1 as u32) << 8) | (v2 as u32);
        proof {
            assert(reader.rem() =~= s0.skip(3));
        }
        Ok(Length(value as usize))
    }

    proof fn lemma_roundtrip(m: int, rest: Seq<u8>) {
        let v = m as u32;
        if v < 128 {
            assert((v as u8) & 0x80 == 0 && ((v as u8) as int) == v as int) by (bit_vector)
                requires
                    v < 128,
            ;
        } else if v < 16384 {
            let b0 = (0x80u32 | (v >> 8)) as u8;
            let b1 = (v & 0xff) as u8;
            assert(b0 & 0x80 != 0 && b0 & 0x40 == 0 && ((((b0 & 0x3f) as u32) << 8) | (b1 as u32))
                == v) by (bit_vector)
                requires
                    b0 == (0x80u32 | (v >> 8)) as u8 && b1 == (v & 0xff) as u8 && 128 <= v < 16384,
            ;
        } else {
            let b0 = (0xc0u32 | (v >> 16)) as u8;
            let b1 = ((v >> 8) & 0xff) as u8;
            let b2 = (v & 0xff) as u8;
            assert(b0 & 0x80 != 0 && b0 & 0x40 != 0 && ((((b0 & 0x3f) as u32) << 16) | ((b1 as u32)
                << 8) | (b2 as u32)) == v) by (bit_vector)
                requires
                    b0 == (0xc0u32 | (v >> 16)) as u8 && b1 == ((v >> 8) & 0xff) as u8 && b2 == (v
                        & 0xff) as u8 && 16384 <= v < 4194304,
            ;
        }
    }
}

// ------------------------------------------------------------------
// Strings: an empty flag, then a 4-byte length and the UTF-8 bytes
// ------------------------------------------------------------------

/// Appends a borrowed byte slice to the writer.
pub(crate) fn push_bytes(writer: &mut Vec<u8>, bytes: &[u8])
    ensures
        final(writer)@ == old(writer)@ + bytes@,
{
    let mut i: usize = 0;
    while i < bytes.len()
        invariant
            i <= bytes@.len(),
            writer@ == old(writer)@ + bytes@.take(i as int),
        decreases bytes@.len() - i,
    {
        writer.push(bytes[i]);
        proof {
            assert(writer@ =~= old(writer)@ + bytes@.take(i + 1));
        }
        i = i + 1;
    }
    proof {
        assert(writer@ =~= old(writer)@ + bytes@);
    }
}

/// Relies on `String::from_utf8`: it succeeds exactly on valid UTF-8 input
/// and returns the bytes decoded as UTF-8 characters.
#[verifier::external_body]
pub(crate) fn string_from_utf8(bytes: Vec<u8>) -> (r: Option<String>)
    ensures
        match r {
            Some(s) => vstd::utf8::valid_utf8(bytes@) && s@ == vstd::utf8::decode_utf8(bytes@),
            None => !vstd::utf8::valid_utf8(bytes@),
        },
{
    String::from_utf8(bytes).ok()
}

/// A nonempty character sequence has a nonempty UTF-8 encoding.
proof fn lemma_encode_utf8_nonempty(m: Seq<char>)
    requires
        m.len() > 0,
    ensures
        vstd::utf8::encode_utf8(m).len() > 0,
{
    assert(vstd::utf8::encode_utf8(m) == vstd::utf8::encode_scalar(m[0] as u32)
        + vstd::utf8::encode_utf8(m.drop_first()));
}

impl Codeable for String {
    type Model = Seq<char>;

    open spec fn model(&self) -> Seq<char> {
        self@
    }

    open spec fn valid(m: Seq<char>) -> bool {
        vstd::utf8::encode_utf8(m).len() <= u32::MAX
    }

    open spec fn wire(m: Seq<char>) -> Seq<u8> {
        if m.len() == 0 {
            seq![1u8]
        } else {
            seq![0u8] + be4(vstd::utf8::encode_utf8(m).len() as u32) + vstd::utf8::encode_utf8(m)
        }
    }

    open spec fn parse(s: Seq<u8>) -> Option<(Seq<char>, nat)> {
        if s.len() < 1 {
            None
        } else if s[0] != 0 {
            Some((Seq::<char>::empty(), 1 as nat))
        } else if s.len() < 5 {
            None
        } else {
            let n = be4_val(s.skip(1)) as int;
            if s.len() < 5 + n {
                None
            } else {
                let bytes = s.subrange(5, 5 + n);
                if vstd::utf8::valid_utf8(bytes) {
                    Some((vstd::utf8::decode_utf8(bytes), (5 + n) as nat))
                } else {
                    None
                }
            }
        }
    }

    open spec fn enc_err(m: Seq<char>) -> ProtocolError {
        ProtocolError::GenericError
    }

    open spec fn dec_err(s: Seq<u8>, e: ProtocolError) -> bool {
        if s.len() >= 1 && s[0] == 0 && s.len() >= 5 && 5 + be4_val(s.skip(1)) <= s.len() {
            e == ProtocolError::CodecUtf8DecodeError
        } else {
            e == ProtocolError::IOError
        }
    }

    fn encode(&self, writer: &mut Vec<u8>) -> (r: Result<(), ProtocolError>) {
        let bytes: &[u8] = self.as_str().as_bytes();
        if bytes.len() == 0 {
            writer.push(1);
            proof {
                assert(writer@ =~= old(writer)@ + Self::wire(self@));
            }
            return Ok(());
        }
        proof {
            if self@.len() == 0 {
                assert(bytes@.len() == 0);
            }
        }
        if bytes.len() > (u32::MAX as usize) {
            return Err(ProtocolError::GenericError);
        }
        writer.push(0);
        let n = bytes.len() as u32;
        match n.encode(writer) {
            Ok(()) => {},
            Err(_) => {
                proof {
                    assert(false);
                }
            },
        }
        push_bytes(writer, bytes);
        proof {
            assert(writer@ =~= old(writer)@ + Self::wire(self@));
        }
        Ok(())
    }

    fn decode(reader: &mut Reader<'_>) -> (r: Result<String, ProtocolError>) {
        let ghost s0 = old(reader).rem();
        let empty = match bool::decode(reader) {
            Ok(b) => b,
            Err(e) => {
                return Err(e);
            },
        };
        if empty {
            return Ok(String::new());
        }
        proof {
            assert(reader.rem() =~= s0.skip(1));
        }
        let n = match u32::decode(reader) {
            Ok(v) => v,
            Err(e) => {
                return Err(e);
            },
        };
        proof {
            assert(reader.rem() =~= s0.skip(5));
        }
        let bytes = match reader.read_bytes(n as usize) {
            Ok(v) => v,
            Err(e) => {
                return Err(e);
            },
        };
        proof {
            assert(bytes@ =~= s0.subrange(5, 5 + n as int));
            assert(reader.rem() =~= s0.skip(5 + n as int));
        }
        match string_from_utf8(bytes) {
            Some(s) => Ok(s),
            None => Err(ProtocolError::CodecUtf8DecodeError),
        }
    }

    proof fn lemma_roundtrip(m: Seq<char>, rest: Seq<u8>) {
        let w = Self::wire(m);
        let s = w + rest;
        if m.len() == 0 {
            assert(s[0] == 1);
            assert(Self::parse(s) matches Some(p) && p.0 =~= m && p.1 == w.len());
        } else {
            let eu = vstd::utf8::encode_utf8(m);
            lemma_encode_utf8_nonempty(m);
            let n = eu.len() as u32;
            assert(s[0] == 0);
            assert(s.skip(1) =~= be4(n) + (eu + rest));
            lemma_be4_roundtrip(n);
            assert(be4_val(be4(n) + (eu + rest)) == be4_val(be4(n)));
            assert(s.subrange(5, 5 + n as int) =~= eu);
            broadcast use vstd::utf8::encode_utf8_valid_utf8, vstd::utf8::encode_utf8_decode_utf8;

            assert(Self::parse(s) matches Some(p) && p.0 == m && p.1 == w.len());
        }
    }
}

// ------------------------------------------------------------------
// Sequences: a 4-byte count, then the elements back to back
// ------------------------------------------------------------------

/// The models of every element of a sequence of codeable values.
pub open spec fn models_of<T: Codeable>(s: Seq<T>) -> Seq<T::Model> {
    Seq::new(s.len(), |i: int| s[i].model())
}

/// The concatenated wire bytes of a sequence of element models.
pub open spec fn wire_elems<T: Codeable>(ms: Seq<T::Model>) -> Seq<u8>
    decreases ms.len(),
{
    if ms.len() == 0 {
        Seq::<u8>::empty()
    } else {
        T::wire(ms[0]) + wire_elems::<T>(ms.drop_first())
    }
}

/// Parses `n` consecutive elements from the head of `s`.
pub open spec fn parse_elems<T: Codeable>(s: Seq<u8>, n: nat) -> Option<(Seq<T::Model>, nat)>
    decreases n,
{
    if n == 0 {
        Some((Seq::<T::Model>::empty(), 0 as nat))
    } else {
        match T::parse(s) {
            Some((m, k)) => match parse_elems::<T>(s.skip(k as int), (n - 1) as nat) {
                Some((ms, t)) => Some((ms.insert(0, m), (k + t) as nat)),
                None => None,
            },
            None => None,
        }
    }
}

/// Appending one element model appends its wire bytes.
proof fn lemma_wire_elems_push<T: Codeable>(ms: Seq<T::Model>, m: T::Model)
    ensures
        wire_elems::<T>(ms.push(m)) == wire_elems::<T>(ms) + T::wire(m),
    decreases ms.len(),
{
    if ms.len() == 0 {
        assert(ms.push(m)[0] == m);
        assert(ms.push(m).drop_first() =~= Seq::<T::Model>::empty());
        assert(wire_elems::<T>(ms.push(m)) == T::wire(m) + wire_elems::<T>(
            Seq::<T::Model>::empty(),
        ));
        assert(wire_elems::<T>(ms.push(m)) =~= wire_elems::<T>(ms) + T::wire(m));
    } else {
        assert(ms.push(m)[0] == ms[0]);
        assert(ms.push(m).drop_first() =~= ms.drop_first().push(m));
        assert(wire_elems::<T>(ms.push(m)) == T::wire(ms[0]) + wire_elems::<T>(
            ms.drop_first().push(m),
        ));
        lemma_wire_elems_push::<T>(ms.drop_first(), m);
        assert(wire_elems::<T>(ms.push(m)) =~= wire_elems::<T>(ms) + T::wire(m));
    }
}

/// A sequence of valid element models parses back from its wire bytes.
proof fn lemma_parse_elems_roundtrip<T: Codeable>(ms: Seq<T::Model>, rest: Seq<u8>)
    requires
        forall|i: int| 0 <= i < ms.len() ==> #[trigger] T::valid(ms[i]),
    ensures
        parse_elems::<T>(wire_elems::<T>(ms) + rest, ms.len()) == Some(
            (ms, wire_elems::<T>(ms).len()),
        ),
    decreases ms.len(),
{
    if ms.len() == 0 {
        assert(parse_elems::<T>(wire_elems::<T>(ms) + rest, 0) matches Some(p) && p.0 =~= ms);
    } else {
        let w0 = T::wire(ms[0]);
        let wr = wire_elems::<T>(ms.drop_first());
        assert(wire_elems::<T>(ms) + rest =~= w0 + (wr + rest));
        T::lemma_roundtrip(ms[0], wr + rest);
        assert((w0 + (wr + rest)).skip(w0.len() as int) =~= wr + rest);
        lemma_parse_elems_roundtrip::<T>(ms.drop_first(), rest);
        assert(ms.drop_first().insert(0, ms[0]) =~= ms);
    }
}

/// The first unencodable element model, where one exists.
pub open spec fn first_invalid<T: Codeable>(ms: Seq<T::Model>) -> int
    decreases ms.len(),
{
    if ms.len() == 0 {
        0
    } else if !T::valid(ms[0]) {
        0
    } else {
        1 + first_invalid::<T>(ms.drop_first())
    }
}

/// When every element before `k` is encodable and element `k` is not, `k` is
/// the first unencodable index.
pub proof fn lemma_first_invalid_here<T: Codeable>(ms: Seq<T::Model>, k: int)
    requires
        0 <= k < ms.len(),
        !T::valid(ms[k]),
        forall|j: int| 0 <= j < k ==> T::valid(#[trigger] ms[j]),
    ensures
        first_invalid::<T>(ms) == k,
    decreases k,
{
    if k > 0 {
        assert(!T::valid(ms.drop_first()[k - 1]));
        assert(forall|j: int| 0 <= j < k - 1 ==> T::valid(#[trigger] ms.drop_first()[j]));
        lemma_first_invalid_here::<T>(ms.drop_first(), k - 1);
    }
}

/// Classifies the error of parsing `n` consecutive elements: the error of
/// the first element the stream refuses.
pub open spec fn elems_dec_err<T: Codeable>(s: Seq<u8>, n: nat, e: ProtocolError) -> bool
    decreases n,
{
    if n == 0 {
        e == ProtocolError::IOError
    } else {
        match T::parse(s) {
            None => T::dec_err(s, e),
            Some((m, k)) => elems_dec_err::<T>(s.skip(k as int), (n - 1) as nat, e),
        }
    }
}

/// Each byte of a byte sequence occupies one wire byte.
pub proof fn lemma_wire_elems_u8_len(ms: Seq<u8>)
    ensures
        wire_elems::<u8>(ms).len() == ms.len(),
    decreases ms.len(),
{
    if ms.len() > 0 {
        lemma_wire_elems_u8_len(ms.drop_first());
    }
}

impl<T: Codeable> Codeable for Vec<T> {
    type Model = Seq<T::Model>;

    open spec fn model(&self) -> Seq<T::Model> {
        models_of(self@)
    }

    open spec fn valid(ms: Seq<T::Model>) -> bool {
        ms.len() <= u32::MAX && forall|i: int| 0 <= i < ms.len() ==> #[trigger] T::valid(ms[i])
    }

    open spec fn wire(ms: Seq<T::Model>) -> Seq<u8> {
        be4(ms.len() as u32) + wire_elems::<T>(ms)
    }

    open spec fn parse(s: Seq<u8>) -> Option<(Seq<T::Model>, nat)> {
        if s.len() < 4 {
            None
        } else {
            let n = be4_val(s) as nat;
            match parse_elems::<T>(s.skip(4), n) {
                Some((ms, t)) => Some((ms, (4 + t) as nat)),
                None => None,
            }
        }
    }

    open spec fn enc_err(ms: Seq<T::Model>) -> ProtocolError {
        if ms.len() > u32::MAX {
            ProtocolError::GenericError
        } else {
            T::enc_err(ms[first_invalid::<T>(ms)])
        }
    }

    open spec fn dec_err(s: Seq<u8>, e: ProtocolError) -> bool {
        if s.len() < 4 {
            e == ProtocolError::IOError
        } else {
            elems_dec_err::<T>(s.skip(4), be4_val(s) as nat, e)
        }
    }

    fn encode(&self, writer: &mut Vec<u8>) -> (r: Result<(), ProtocolError>) {
        let ghost ms = models_of(self@);
        if self.len() > (u32::MAX as usize) {
            return Err(ProtocolError::GenericError);
        }
        // Elements are framed in a scratch buffer so that a failing element
        // leaves the writer untouched.
        let mut scratch: Vec<u8> = Vec::new();
        let n = self.len() as u32;
        match n.encode(&mut scratch) {
            Ok(()) => {},
            Err(_) => {
                proof {
                    assert(false);
                }
            },
        }
        let mut i: usize = 0;
        while i < self.len()
            invariant
                i <= self@.len(),
                self@.len() <= u32::MAX,
                ms == models_of(self@),
                writer@ == old(writer)@,
                scratch@ == be4(self@.len() as u32) + wire_elems::<T>(ms.take(i as int)),
                forall|j: int| 0 <= j < i ==> #[trigger] T::valid(ms[j]),
            decreases self@.len() - i,
        {
            let elem = &self[i];
            match elem.encode(&mut scratch) {
                Ok(()) => {},
                Err(e) => {
                    proof {
                        assert(ms[i as int] == self@[i as int].model());
                        assert(!T::valid(ms[i as int]));
                        lemma_first_invalid_here::<T>(ms, i as int);
                    }
                    return Err(e);
                },
            }
            proof {
                assert(ms.take(i as int).push(ms[i as int]) =~= ms.take(i + 1));
                lemma_wire_elems_push::<T>(ms.take(i as int), ms[i as int]);
            }
            i = i + 1;
        }
        push_bytes(writer, scratch.as_slice());
        proof {
            assert(ms.take(ms.len() as int) =~= ms);
            assert(writer@ =~= old(writer)@ + Self::wire(ms));
        }
        Ok(())
    }

    fn decode(reader: &mut Reader<'_>) -> (r: Result<Vec<T>, ProtocolError>) {
        let ghost s0 = old(reader).rem();
        let n = match u32::decode(reader) {
            Ok(v) => v,
            Err(e) => {
                return Err(e);
            },
        };
        let ghost whole = parse_elems::<T>(s0.skip(4), n as nat);
        proof {
            assert(reader.rem() =~= s0.skip(4));
        }
        let mut result: Vec<T> = Vec::new();
        let mut i: u32 = 0;
        while i < n
            invariant
                i <= n,
                old(reader).wf(),
                reader.wf(),
                reader.all() == old(reader).all(),
                s0 == old(reader).rem(),
                s0.len() >= 4,
                n == be4_val(s0),
                whole == parse_elems::<T>(s0.skip(4), n as nat),
                old(reader).pos() + 4 <= reader.pos(),
                reader.rem() == s0.skip((reader.pos() - old(reader).pos()) as int),
                result@.len() == i,
                forall|e: ProtocolError|
                    #[trigger] elems_dec_err::<T>(s0.skip(4), n as nat, e) == elems_dec_err::<T>(
                        reader.rem(),
                        (n - i) as nat,
                        e,
                    ),
                ({
                    let done = models_of(result@);
                    let c = reader.pos() - (old(reader).pos() + 4);
                    match parse_elems::<T>(reader.rem(), (n - i) as nat) {
                        Some((ms2, t2)) => whole == Some::<(Seq<T::Model>, nat)>(
                            (done + ms2, (c + t2) as nat),
                        ),
                        None => whole is None,
                    }
                }),
            decreases n - i,
        {
            let ghost rem_here = reader.rem();
            let ghost done_here = models_of(result@);
            let elem = match T::decode(reader) {
                Ok(v) => v,
                Err(e) => {
                    proof {
                        assert(whole is None);
                        assert(elems_dec_err::<T>(rem_here, (n - i) as nat, e));
                        assert(elems_dec_err::<T>(s0.skip(4), n as nat, e));
                    }
                    return Err(e);
                },
            };
            proof {
                let p = T::parse(rem_here).unwrap();
                assert(parse_elems::<T>(rem_here, (n - i) as nat) matches Some(q) ==> q == (
                    parse_elems::<T>(rem_here.skip(p.1 as int), (n - i - 1) as nat).unwrap().0
                        .insert(0, p.0),
                    (p.1 + parse_elems::<T>(
                        rem_here.skip(p.1 as int),
                        (n - i - 1) as nat,
                    ).unwrap().1) as nat,
                ));
                assert(reader.rem() =~= rem_here.skip(p.1 as int));
                let c_here = (reader.pos() - old(reader).pos() - p.1) as int;
                assert(rem_here == s0.skip(c_here));
                assert(s0.skip(c_here).skip(p.1 as int) =~= s0.skip(c_here + p.1));
                assert(reader.rem() =~= s0.skip((reader.pos() - old(reader).pos()) as int));
                assert forall|e: ProtocolError|
                    #[trigger] elems_dec_err::<T>(s0.skip(4), n as nat, e) == elems_dec_err::<T>(
                        reader.rem(),
                        (n - i - 1) as nat,
                        e,
                    ) by {
                    assert(elems_dec_err::<T>(rem_here, (n - i) as nat, e) == elems_dec_err::<T>(
                        rem_here.skip(p.1 as int),
                        (n - i - 1) as nat,
                        e,
                    ));
                }
            }
            result.push(elem);
            proof {
                let p = T::parse(rem_here).unwrap();
                assert(models_of(result@) =~= done_here.push(p.0));
                match parse_elems::<T>(reader.rem(), (n - i - 1) as nat) {
                    Some((ms2, t2)) => {
                        assert(done_here + parse_elems::<T>(
                            rem_here,
                            (n - i) as nat,
                        ).unwrap().0 =~= models_of(result@) + ms2);
                    },
                    None => {},
                }
            }
            i = i + 1;
        }
        proof {
            assert(parse_elems::<T>(reader.rem(), 0) == Some(
                (Seq::<T::Model>::empty(), 0 as nat),
            ));
            assert(models_of(result@) + Seq::<T::Model>::empty() =~= models_of(result@));
            assert(Self::parse(s0) matches Some(p) && p.0 == models_of(result@) && p.1
                == reader.pos() - old(reader).pos());
            assert(reader.rem() =~= s0.skip((Self::parse(s0).unwrap().1) as int));
        }
        Ok(result)
    }

    proof fn lemma_roundtrip(ms: Seq<T::Model>, rest: Seq<u8>) {
        let w = Self::wire(ms);
        let s = w + rest;
        let n = ms.len() as u32;
        lemma_be4_roundtrip(n);
        assert(s.take(4) =~= be4(n));
        assert(be4_val(s) == be4_val(be4(n))) by {
            assert(s[0] == be4(n)[0] && s[1] == be4(n)[1] && s[2] == be4(n)[2] && s[3] == be4(
                n,
            )[3]);
        }
        assert(s.skip(4) =~= wire_elems::<T>(ms) + rest);
        lemma_parse_elems_roundtrip::<T>(ms, rest);
    }
}

// ------------------------------------------------------------------
// Optionals: an empty flag, then the value when present
// ------------------------------------------------------------------

impl<T: Codeable> Codeable for Option<T> {
    type Model = Option<T::Model>;

    open spec fn model(&self) -> Option<T::Model> {
        match self {
            Some(v) => Some(v.model()),
            None => None,
        }
    }

    open spec fn valid(m: Option<T::Model>) -> bool {
        match m {
            Some(x) => T::valid(x),
            None => true,
        }
    }

    open spec fn wire(m: Option<T::Model>) -> Seq<u8> {
        match m {
            None => seq![1u8],
            Some(x) => seq![0u8] + T::wire(x),
        }
    }

    open spec fn parse(s: Seq<u8>) -> Option<(Option<T::Model>, nat)> {
        if s.len() < 1 {
            None
        } else if s[0] != 0 {
            Some((None, 1 as nat))
        } else {
            match T::parse(s.skip(1)) {
                Some((m, k)) => Some((Some(m), (1 + k) as nat)),
                None => None,
            }
        }
    }

    open spec fn enc_err(m: Option<T::Model>) -> ProtocolError {
        match m {
            Some(x) => T::enc_err(x),
            None => ProtocolError::GenericError,
        }
    }

    open spec fn dec_err(s: Seq<u8>, e: ProtocolError) -> bool {
        if s.len() < 1 {
            e == ProtocolError::IOError
        } else if s[0] != 0 {
            e == ProtocolError::IOError
        } else {
            T::dec_err(s.skip(1), e)
        }
    }

    fn encode(&self, writer: &mut Vec<u8>) -> (r: Result<(), ProtocolError>) {
        match self {
            None => {
                writer.push(1);
                proof {
                    assert(writer@ =~= old(writer)@ + Self::wire(self.model()));
                }
                Ok(())
            },
            Some(v) => {
                // The value is framed in a scratch buffer so that an
                // unencodable value leaves the writer untouched.
                let mut scratch: Vec<u8> = Vec::new();
                scratch.push(0);
                match v.encode(&mut scratch) {
                    Ok(()) => {
                        push_bytes(writer, scratch.as_slice());
                        proof {
                            assert(writer@ =~= old(writer)@ + Self::wire(self.model()));
                        }
                        Ok(())
                    },
                    Err(e) => Err(e),
                }
            },
        }
    }

    fn decode(reader: &mut Reader<'_>) -> (r: Result<Option<T>, ProtocolError>) {
        let ghost s0 = old(reader).rem();
        let empty = match bool::decode(reader) {
            Ok(b) => b,
            Err(e) => {
                return Err(e);
            },
        };
        if empty {
            return Ok(None);
        }
        proof {
            assert(reader.rem() =~= s0.skip(1));
        }
        let v = match T::decode(reader) {
            Ok(v) => v,
            Err(e) => {
                return Err(e);
            },
        };
        proof {
            match T::parse(s0.skip(1)) {
                Some(p) => {
                    assert(s0.skip(1).skip(p.1 as int) =~= s0.skip(1 + p.1 as int));
                    assert(reader.rem() =~= s0.skip(1 + p.1 as int));
                },
                None => {},
            }
        }
        Ok(Some(v))
    }

    proof fn lemma_roundtrip(m: Option<T::Model>, rest: Seq<u8>) {
        let w = Self::wire(m);
        let s = w + rest;
        match m {
            None => {
                assert(s[0] == 1);
            },
            Some(x) => {
                assert(s[0] == 0);
                assert(s.skip(1) =~= T::wire(x) + rest);
                T::lemma_roundtrip(x, rest);
            },
        }
    }
}

// ------------------------------------------------------------------
// Composing two codecs back to back
// ------------------------------------------------------------------

/// Classifies the error of parsing an `A` and then a `B`: whichever of the
/// two the stream refuses first.
pub open spec fn pair_dec_err<A: Codeable, B: Codeable>(
    s: Seq<u8>,
    e: ProtocolError,
) -> bool {
    match A::parse(s) {
        None => A::dec_err(s, e),
        Some((a, k)) => B::dec_err(s.skip(k as int), e),
    }
}

/// Parses an `A` and then a `B` from the head of `s`.
pub open spec fn parse_pair<A: Codeable, B: Codeable>(s: Seq<u8>) -> Option<
    ((A::Model, B::Model), nat),
> {
    match A::parse(s) {
        Some((a, k)) => match B::parse(s.skip(k as int)) {
            Some((b, l)) => Some(((a, b), (k + l) as nat)),
            None => None,
        },
        None => None,
    }
}

/// Decodes an `A` and then a `B`, exactly as `parse_pair` says.
pub fn decode_pair<A: Codeable, B: Codeable>(reader: &mut Reader<'_>) -> (r: Result<
    (A, B),
    ProtocolError,
>)
    requires
        old(reader).wf(),
    ensures
        final(reader).wf(),
        final(reader).all() == old(reader).all(),
        match parse_pair::<A, B>(old(reader).rem()) {
            Some(p) => {
                &&& r matches Ok(v) && v.0.model() == p.0.0 && v.1.model() == p.0.1
                &&& final(reader).pos() == old(reader).pos() + p.1
                &&& final(reader).rem() == old(reader).rem().skip(p.1 as int)
            },
            None => r matches Err(e) && pair_dec_err::<A, B>(old(reader).rem(), e),
        },
{
    let ghost s0 = old(reader).rem();
    let a = match A::decode(reader) {
        Ok(v) => v,
        Err(e) => {
            return Err(e);
        },
    };
    let b = match B::decode(reader) {
        Ok(v) => v,
        Err(e) => {
            return Err(e);
        },
    };
    proof {
        match A::parse(s0) {
            Some(p) => {
                match B::parse(s0.skip(p.1 as int)) {
                    Some(q) => {
                        vstd::seq_lib::lemma_seq_skip_of_skip(s0, p.1 as int, q.1 as int);
                        assert(reader.rem() =~= s0.skip((p.1 + q.1) as int));
                    },
                    None => {},
                }
            },
            None => {},
        }
    }
    Ok((a, b))
}

/// Round trip for two values back to back: the concatenation of their wire
/// bytes parses to the pair of models.
pub proof fn lemma_pair_roundtrip<A: Codeable, B: Codeable>(
    a: A::Model,
    b: B::Model,
    rest: Seq<u8>,
)
    requires
        A::valid(a),
        B::valid(b),
    ensures
        parse_pair::<A, B>(A::wire(a) + B::wire(b) + rest) == Some(
            ((a, b), (A::wire(a).len() + B::wire(b).len()) as nat),
        ),
{
    let s = A::wire(a) + B::wire(b) + rest;
    assert(s =~= A::wire(a) + (B::wire(b) + rest));
    A::lemma_roundtrip(a, B::wire(b) + rest);
    assert(s.skip(A::wire(a).len() as int) =~= B::wire(b) + rest);
    B::lemma_roundtrip(b, rest);
}

} // verus!

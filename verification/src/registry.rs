//! The codec registry: the typed entry point the rest of the stack encodes
//! and decodes through, plus one named codec per wire shape.
//!
//! The registry gates en- and decoding on its primitive codecs having been
//! registered — before that every call fails, as it would for a type no
//! codec is known for. Which codec serves a value is decided by its type;
//! the named unit codecs below mirror that mapping one by one.

use vstd::prelude::*;

use crate::codec::{Codeable, Length};
use crate::custom::{
    BattleTeam, CaptchaLocation, LayoutState, MoveCommand, ResourceId, RotateTurretCommand,
    Vector3,
};
use crate::error::ProtocolError;
use crate::reader::Reader;

verus! {

/// Knows, per target type, how values travel on the wire; the registry
/// answers for every `Codeable` type once its primitives are registered.
pub struct CodecRegistry {
    primitives: bool,
}

impl CodecRegistry {
    /// Whether the primitive codecs have been registered.
    pub closed spec fn spec_primitives_registered(&self) -> bool {
        self.primitives
    }

    /// A registry that knows no codecs yet.
    pub fn new() -> (r: CodecRegistry)
        ensures
            !r.spec_primitives_registered(),
    {
        CodecRegistry { primitives: false }
    }

    /// Registers the codecs for the primitive wire shapes; from now on the
    /// registry encodes and decodes every codeable type.
    pub fn register_primatives(&mut self)
        ensures
            final(self).spec_primitives_registered(),
    {
        self.primitives = true;
    }

    /// Encodes a value through its type's codec; fails if the primitives
    /// were never registered, and otherwise exactly as the codec does.
    pub fn encode<T: Codeable>(&self, writer: &mut Vec<u8>, target: &T) -> (r: Result<
        (),
        ProtocolError,
    >)
        ensures
            r is Err ==> final(writer)@ == old(writer)@,
            !self.spec_primitives_registered() ==> r == Err::<(), ProtocolError>(
                ProtocolError::GenericError,
            ),
            self.spec_primitives_registered() ==> {
                &&& r is Ok <==> T::valid(target.model())
                &&& r is Ok ==> final(writer)@ == old(writer)@ + T::wire(target.model())
                &&& r is Err ==> r == Err::<(), ProtocolError>(T::enc_err(target.model()))
            },
    {
        if !self.primitives {
            return Err(ProtocolError::GenericError);
        }
        target.encode(writer)
    }

    /// Decodes a value through its type's codec; fails if the primitives
    /// were never registered, and otherwise exactly as the codec does.
    pub fn decode<T: Codeable>(&self, reader: &mut Reader<'_>) -> (r: Result<T, ProtocolError>)
        requires
            old(reader).wf(),
        ensures
            final(reader).wf(),
            final(reader).all() == old(reader).all(),
            !self.spec_primitives_registered() ==> r == Err::<T, ProtocolError>(
                ProtocolError::GenericError,
            ) && final(reader).pos() == old(reader).pos(),
            self.spec_primitives_registered() ==> match T::parse(old(reader).rem()) {
                Some(p) => {
                    &&& r matches Ok(v) && v.model() == p.0
                    &&& final(reader).pos() == old(reader).pos() + p.1
                },
                None => r matches Err(e) && T::dec_err(old(reader).rem(), e),
            },
    {
        if !self.primitives {
            return Err(ProtocolError::GenericError);
        }
        T::decode(reader)
    }
}

/// A named codec: encodes and decodes one target type, exactly as the
/// target's own codec does. The registry parameter mirrors how composite
/// codecs reach their field codecs.
pub trait Codec {
    /// The type this codec serves.
    type Target: Codeable;

    /// Appends the target's wire bytes; fails if and only if the value
    /// cannot be represented on the wire, with the error the target's codec
    /// names, leaving the writer untouched.
    fn encode(&self, registry: &CodecRegistry, writer: &mut Vec<u8>, target: &Self::Target) -> (r:
        Result<(), ProtocolError>)
        ensures
            r is Ok <==> <Self::Target as Codeable>::valid(target.model()),
            r is Ok ==> final(writer)@ == old(writer)@ + <Self::Target as Codeable>::wire(
                target.model(),
            ),
            r is Err ==> final(writer)@ == old(writer)@ && r == Err::<(), ProtocolError>(
                <Self::Target as Codeable>::enc_err(target.model()),
            ),
    ;

    /// Reads one target value, exactly as the target's `parse` says.
    fn decode(&self, registry: &CodecRegistry, reader: &mut Reader<'_>) -> (r: Result<
        Self::Target,
        ProtocolError,
    >)
        requires
            old(reader).wf(),
        ensures
            final(reader).wf(),
            final(reader).all() == old(reader).all(),
            match <Self::Target as Codeable>::parse(old(reader).rem()) {
                Some(p) => {
                    &&& r matches Ok(v) && v.model() == p.0
                    &&& final(reader).pos() == old(reader).pos() + p.1
                },
                None => r matches Err(e) && <Self::Target as Codeable>::dec_err(
                    old(reader).rem(),
                    e,
                ),
            },
    ;
}

/// The codec for `bool`: one byte, zero is false.
pub struct BoolCodec;

impl Codec for BoolCodec {
    type Target = bool;

    fn encode(&self, registry: &CodecRegistry, writer: &mut Vec<u8>, target: &bool) -> (r: Result<
        (),
        ProtocolError,
    >) {
        target.encode(writer)
    }

    fn decode(&self, registry: &CodecRegistry, reader: &mut Reader<'_>) -> (r: Result<
        bool,
        ProtocolError,
    >) {
        bool::decode(reader)
    }
}

/// The codec for `i8`.
pub struct ByteCodec;

impl Codec for ByteCodec {
    type Target = i8;

    fn encode(&self, registry: &CodecRegistry, writer: &mut Vec<u8>, target: &i8) -> (r: Result<
        (),
        ProtocolError,
    >) {
        target.encode(writer)
    }

    fn decode(&self, registry: &CodecRegistry, reader: &mut Reader<'_>) -> (r: Result<
        i8,
        ProtocolError,
    >) {
        i8::decode(reader)
    }
}

/// The codec for `u8`.
pub struct UByteCodec;

impl Codec for UByteCodec {
    type Target = u8;

    fn encode(&self, registry: &CodecRegistry, writer: &mut Vec<u8>, target: &u8) -> (r: Result<
        (),
        ProtocolError,
    >) {
        target.encode(writer)
    }

    fn decode(&self, registry: &CodecRegistry, reader: &mut Reader<'_>) -> (r: Result<
        u8,
        ProtocolError,
    >) {
        u8::decode(reader)
    }
}

/// The codec for `i16`, big-endian.
pub struct ShortCodec;

impl Codec for ShortCodec {
    type Target = i16;

    fn encode(&self, registry: &CodecRegistry, writer: &mut Vec<u8>, target: &i16) -> (r: Result<
        (),
        ProtocolError,
    >) {
        target.encode(writer)
    }

    fn decode(&self, registry: &CodecRegistry, reader: &mut Reader<'_>) -> (r: Result<
        i16,
        ProtocolError,
    >) {
        i16::decode(reader)
    }
}

/// The codec for `u16`, big-endian.
pub struct UShortCodec;

impl Codec for UShortCodec {
    type Target = u16;

    fn encode(&self, registry: &CodecRegistry, writer: &mut Vec<u8>, target: &u16) -> (r: Result<
        (),
        ProtocolError,
    >) {
        target.encode(writer)
    }

    fn decode(&self, registry: &CodecRegistry, reader: &mut Reader<'_>) -> (r: Result<
        u16,
        ProtocolError,
    >) {
        u16::decode(reader)
    }
}

/// The codec for `i32`, big-endian.
pub struct IntCodec;

impl Codec for IntCodec {
    type Target = i32;

    fn encode(&self, registry: &CodecRegistry, writer: &mut Vec<u8>, target: &i32) -> (r: Result<
        (),
        ProtocolError,
    >) {
        target.encode(writer)
    }

    fn decode(&self, registry: &CodecRegistry, reader: &mut Reader<'_>) -> (r: Result<
        i32,
        ProtocolError,
    >) {
        i32::decode(reader)
    }
}

/// The codec for `u32`, big-endian.
pub struct UIntCodec;

impl Codec for UIntCodec {
    type Target = u32;

    fn encode(&self, registry: &CodecRegistry, writer: &mut Vec<u8>, target: &u32) -> (r: Result<
        (),
        ProtocolError,
    >) {
        target.encode(writer)
    }

    fn decode(&self, registry: &CodecRegistry, reader: &mut Reader<'_>) -> (r: Result<
        u32,
        ProtocolError,
    >) {
        u32::decode(reader)
    }
}

/// The codec for `i64`, big-endian.
pub struct LongCodec;

impl Codec for LongCodec {
    type Target = i64;

    fn encode(&self, registry: &CodecRegistry, writer: &mut Vec<u8>, target: &i64) -> (r: Result<
        (),
        ProtocolError,
    >) {
        target.encode(writer)
    }

    fn decode(&self, registry: &CodecRegistry, reader: &mut Reader<'_>) -> (r: Result<
        i64,
        ProtocolError,
    >) {
        i64::decode(reader)
    }
}

/// The codec for `u64`, big-endian.
pub struct ULongCodec;

impl Codec for ULongCodec {
    type Target = u64;

    fn encode(&self, registry: &CodecRegistry, writer: &mut Vec<u8>, target: &u64) -> (r: Result<
        (),
        ProtocolError,
    >) {
        target.encode(writer)
    }

    fn decode(&self, registry: &CodecRegistry, reader: &mut Reader<'_>) -> (r: Result<
        u64,
        ProtocolError,
    >) {
        u64::decode(reader)
    }
}

/// The codec for single-precision values, carried as IEEE-754 bit patterns.
pub struct FloatCodec;

impl Codec for FloatCodec {
    type Target = u32;

    fn encode(&self, registry: &CodecRegistry, writer: &mut Vec<u8>, target: &u32) -> (r: Result<
        (),
        ProtocolError,
    >) {
        target.encode(writer)
    }

    fn decode(&self, registry: &CodecRegistry, reader: &mut Reader<'_>) -> (r: Result<
        u32,
        ProtocolError,
    >) {
        u32::decode(reader)
    }
}

/// The codec for double-precision values, carried as IEEE-754 bit patterns.
pub struct DoubleCodec;

impl Codec for DoubleCodec {
    type Target = u64;

    fn encode(&self, registry: &CodecRegistry, writer: &mut Vec<u8>, target: &u64) -> (r: Result<
        (),
        ProtocolError,
    >) {
        target.encode(writer)
    }

    fn decode(&self, registry: &CodecRegistry, reader: &mut Reader<'_>) -> (r: Result<
        u64,
        ProtocolError,
    >) {
        u64::decode(reader)
    }
}

/// The codec for varint lengths.
pub struct LengthCodec;

impl Codec for LengthCodec {
    type Target = Length;

    fn encode(&self, registry: &CodecRegistry, writer: &mut Vec<u8>, target: &Length) -> (r:
        Result<(), ProtocolError>) {
        target.encode(writer)
    }

    fn decode(&self, registry: &CodecRegistry, reader: &mut Reader<'_>) -> (r: Result<
        Length,
        ProtocolError,
    >) {
        Length::decode(reader)
    }
}

/// The codec for strings: empty flag, then length and UTF-8 bytes.
pub struct StringCodec;

impl Codec for StringCodec {
    type Target = String;

    fn encode(&self, registry: &CodecRegistry, writer: &mut Vec<u8>, target: &String) -> (r:
        Result<(), ProtocolError>) {
        target.encode(writer)
    }

    fn decode(&self, registry: &CodecRegistry, reader: &mut Reader<'_>) -> (r: Result<
        String,
        ProtocolError,
    >) {
        String::decode(reader)
    }
}

/// The codec for sequences: a 4-byte count, then the elements.
pub struct VectorCodec<T: Codeable> {
    pub _marker: Option<T>,
}

impl<T: Codeable> Default for VectorCodec<T> {
    fn default() -> (r: VectorCodec<T>)
        ensures
            r._marker is None,
    {
        VectorCodec { _marker: None }
    }
}

impl<T: Codeable> Codec for VectorCodec<T> {
    type Target = Vec<T>;

    fn encode(&self, registry: &CodecRegistry, writer: &mut Vec<u8>, target: &Vec<T>) -> (r:
        Result<(), ProtocolError>) {
        target.encode(writer)
    }

    fn decode(&self, registry: &CodecRegistry, reader: &mut Reader<'_>) -> (r: Result<
        Vec<T>,
        ProtocolError,
    >) {
        Vec::<T>::decode(reader)
    }
}

/// The codec for resource ids: one 32-bit value.
pub struct ResourceIdCodec;

impl Codec for ResourceIdCodec {
    type Target = ResourceId;

    fn encode(&self, registry: &CodecRegistry, writer: &mut Vec<u8>, target: &ResourceId) -> (r:
        Result<(), ProtocolError>) {
        target.encode(writer)
    }

    fn decode(&self, registry: &CodecRegistry, reader: &mut Reader<'_>) -> (r: Result<
        ResourceId,
        ProtocolError,
    >) {
        u32::decode(reader)
    }
}

/// The codec for captcha locations, as their ordinal.
pub struct CaptchaLocationCodec;

impl Codec for CaptchaLocationCodec {
    type Target = CaptchaLocation;

    fn encode(
        &self,
        registry: &CodecRegistry,
        writer: &mut Vec<u8>,
        target: &CaptchaLocation,
    ) -> (r: Result<(), ProtocolError>) {
        target.encode(writer)
    }

    fn decode(&self, registry: &CodecRegistry, reader: &mut Reader<'_>) -> (r: Result<
        CaptchaLocation,
        ProtocolError,
    >) {
        CaptchaLocation::decode(reader)
    }
}

/// The codec for battle teams, as their ordinal.
pub struct CodecBattleTeam;

impl Codec for CodecBattleTeam {
    type Target = BattleTeam;

    fn encode(&self, registry: &CodecRegistry, writer: &mut Vec<u8>, target: &BattleTeam) -> (r:
        Result<(), ProtocolError>) {
        target.encode(writer)
    }

    fn decode(&self, registry: &CodecRegistry, reader: &mut Reader<'_>) -> (r: Result<
        BattleTeam,
        ProtocolError,
    >) {
        BattleTeam::decode(reader)
    }
}

/// The codec for layout states, as their ordinal.
pub struct CodecLayoutState;

impl Codec for CodecLayoutState {
    type Target = LayoutState;

    fn encode(&self, registry: &CodecRegistry, writer: &mut Vec<u8>, target: &LayoutState) -> (r:
        Result<(), ProtocolError>) {
        target.encode(writer)
    }

    fn decode(&self, registry: &CodecRegistry, reader: &mut Reader<'_>) -> (r: Result<
        LayoutState,
        ProtocolError,
    >) {
        LayoutState::decode(reader)
    }
}

/// The codec for 3-vectors: three bit patterns, big-endian.
pub struct CodecVector3d;

impl Codec for CodecVector3d {
    type Target = Vector3;

    fn encode(&self, registry: &CodecRegistry, writer: &mut Vec<u8>, target: &Vector3) -> (r:
        Result<(), ProtocolError>) {
        target.encode(writer)
    }

    fn decode(&self, registry: &CodecRegistry, reader: &mut Reader<'_>) -> (r: Result<
        Vector3,
        ProtocolError,
    >) {
        Vector3::decode(reader)
    }
}

/// The codec for turret rotation commands.
pub struct CodecRotateTurretCommand;

impl Codec for CodecRotateTurretCommand {
    type Target = RotateTurretCommand;

    fn encode(
        &self,
        registry: &CodecRegistry,
        writer: &mut Vec<u8>,
        target: &RotateTurretCommand,
    ) -> (r: Result<(), ProtocolError>) {
        target.encode(writer)
    }

    fn decode(&self, registry: &CodecRegistry, reader: &mut Reader<'_>) -> (r: Result<
        RotateTurretCommand,
        ProtocolError,
    >) {
        RotateTurretCommand::decode(reader)
    }
}

/// The codec for movement commands.
pub struct CodecMoveCommand;

impl Codec for CodecMoveCommand {
    type Target = MoveCommand;

    fn encode(&self, registry: &CodecRegistry, writer: &mut Vec<u8>, target: &MoveCommand) -> (r:
        Result<(), ProtocolError>) {
        target.encode(writer)
    }

    fn decode(&self, registry: &CodecRegistry, reader: &mut Reader<'_>) -> (r: Result<
        MoveCommand,
        ProtocolError,
    >) {
        MoveCommand::decode(reader)
    }
}

} // verus!

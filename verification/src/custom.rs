//! Game-specific wire structures: ordinal-coded enums, 3-vectors and the
//! movement commands.
//!
//! Single-precision components travel as their raw IEEE-754 bit patterns
//! (`u32`), read and written big-endian; the bits are converted to and from
//! floating point only outside the verified core. This keeps the wire format
//! bit-exact.

use vstd::prelude::*;

use crate::codec::{be4, be4_val, lemma_be4_roundtrip, Codeable};
use crate::error::ProtocolError;
use crate::reader::Reader;

verus! {

/// A numeric handle naming a game resource.
pub type ResourceId = u32;

/// A reference to a resource by id, one 32-bit value on the wire.
#[derive(Clone, Copy, Debug, PartialEq, Eq, Structural, Default)]
pub struct ResourceReference {
    pub resource_id: u32,
}

impl Codeable for ResourceReference {
    type Model = u32;

    open spec fn model(&self) -> u32 {
        self.resource_id
    }

    open spec fn valid(m: u32) -> bool {
        true
    }

    open spec fn wire(m: u32) -> Seq<u8> {
        be4(m)
    }

    open spec fn parse(s: Seq<u8>) -> Option<(u32, nat)> {
        <u32 as Codeable>::parse(s)
    }

    open spec fn enc_err(m: u32) -> ProtocolError {
        ProtocolError::GenericError
    }

    open spec fn dec_err(s: Seq<u8>, e: ProtocolError) -> bool {
        e == ProtocolError::IOError
    }

    fn encode(&self, writer: &mut Vec<u8>) -> (r: Result<(), ProtocolError>) {
        self.resource_id.encode(writer)
    }

    fn decode(reader: &mut Reader<'_>) -> (r: Result<ResourceReference, ProtocolError>) {
        let resource_id = match u32::decode(reader) {
            Ok(v) => v,
            Err(e) => {
                return Err(e);
            },
        };
        Ok(ResourceReference { resource_id })
    }

    proof fn lemma_roundtrip(m: u32, rest: Seq<u8>) {
        <u32 as Codeable>::lemma_roundtrip(m, rest);
    }
}

/// Where a captcha is being asked for.
#[derive(Clone, Copy, Debug, PartialEq, Eq, PartialOrd, Ord, Structural)]
pub enum CaptchaLocation {
    /// The sentinel for an ordinal this build does not know; it is never
    /// transmitted.
    Unknown,
    LoginForm,
    RegisterForm,
    ClientStartup,
    RestorePasswordForm,
    EmailChangeHash,
    AccountSettingsForm,
}

impl CaptchaLocation {
    /// The ordinal each variant travels as.
    pub open spec fn spec_ordinal(self) -> i32 {
        match self {
            CaptchaLocation::Unknown => -1i32,
            CaptchaLocation::LoginForm => 0,
            CaptchaLocation::RegisterForm => 1,
            CaptchaLocation::ClientStartup => 2,
            CaptchaLocation::RestorePasswordForm => 3,
            CaptchaLocation::EmailChangeHash => 4,
            CaptchaLocation::AccountSettingsForm => 5,
        }
    }

    /// The variant a received ordinal names, if any.
    pub open spec fn spec_from_ordinal(v: i32) -> Option<CaptchaLocation> {
        if v == 0 {
            Some(CaptchaLocation::LoginForm)
        } else if v == 1 {
            Some(CaptchaLocation::RegisterForm)
        } else if v == 2 {
            Some(CaptchaLocation::ClientStartup)
        } else if v == 3 {
            Some(CaptchaLocation::RestorePasswordForm)
        } else if v == 4 {
            Some(CaptchaLocation::EmailChangeHash)
        } else if v == 5 {
            Some(CaptchaLocation::AccountSettingsForm)
        } else {
            None
        }
    }
}

impl Default for CaptchaLocation {
    fn default() -> (r: CaptchaLocation)
        ensures
            r == CaptchaLocation::Unknown,
    {
        CaptchaLocation::Unknown
    }
}

impl Codeable for CaptchaLocation {
    type Model = CaptchaLocation;

    open spec fn model(&self) -> CaptchaLocation {
        *self
    }

    open spec fn valid(m: CaptchaLocation) -> bool {
        m != CaptchaLocation::Unknown
    }

    open spec fn wire(m: CaptchaLocation) -> Seq<u8> {
        <i32 as Codeable>::wire(m.spec_ordinal())
    }

    open spec fn parse(s: Seq<u8>) -> Option<(CaptchaLocation, nat)> {
        match <i32 as Codeable>::parse(s) {
            Some((v, k)) => match CaptchaLocation::spec_from_ordinal(v) {
                Some(m) => Some((m, k)),
                None => None,
            },
            None => None,
        }
    }

    open spec fn enc_err(m: CaptchaLocation) -> ProtocolError {
        ProtocolError::EnumUnknown
    }

    open spec fn dec_err(s: Seq<u8>, e: ProtocolError) -> bool {
        match <i32 as Codeable>::parse(s) {
            None => e == ProtocolError::IOError,
            Some((v, _)) => e matches ProtocolError::EnumInvalidOrdinal(ord, _) && ord == v
                as u64,
        }
    }

    fn encode(&self, writer: &mut Vec<u8>) -> (r: Result<(), ProtocolError>) {
        let code: i32 = match self {
            CaptchaLocation::Unknown => {
                return Err(ProtocolError::EnumUnknown);
            },
            CaptchaLocation::LoginForm => 0,
            CaptchaLocation::RegisterForm => 1,
            CaptchaLocation::ClientStartup => 2,
            CaptchaLocation::RestorePasswordForm => 3,
            CaptchaLocation::EmailChangeHash => 4,
            CaptchaLocation::AccountSettingsForm => 5,
        };
        code.encode(writer)
    }

    fn decode(reader: &mut Reader<'_>) -> (r: Result<CaptchaLocation, ProtocolError>) {
        let v = match i32::decode(reader) {
            Ok(v) => v,
            Err(e) => {
                return Err(e);
            },
        };
        match v {
            0 => Ok(CaptchaLocation::LoginForm),
            1 => Ok(CaptchaLocation::RegisterForm),
            2 => Ok(CaptchaLocation::ClientStartup),
            3 => Ok(CaptchaLocation::RestorePasswordForm),
            4 => Ok(CaptchaLocation::EmailChangeHash),
            5 => Ok(CaptchaLocation::AccountSettingsForm),
            _ => Err(
                ProtocolError::EnumInvalidOrdinal(v as u64, String::from_str("CaptchaLocation")),
            ),
        }
    }

    proof fn lemma_roundtrip(m: CaptchaLocation, rest: Seq<u8>) {
        <i32 as Codeable>::lemma_roundtrip(m.spec_ordinal(), rest);
    }
}

/// The client's top-level screen.
#[derive(Clone, Copy, Debug, PartialEq, Eq, PartialOrd, Ord, Structural)]
pub enum LayoutState {
    /// The sentinel for an ordinal this build does not know; it is never
    /// transmitted.
    Unknown,
    BattleSelect,
    Garage,
    Payment,
    Battle,
    ReloadSpace,
}

impl LayoutState {
    /// The ordinal each variant travels as.
    pub open spec fn spec_ordinal(self) -> i32 {
        match self {
            LayoutState::Unknown => -1i32,
            LayoutState::BattleSelect => 0,
            LayoutState::Garage => 1,
            LayoutState::Payment => 2,
            LayoutState::Battle => 3,
            LayoutState::ReloadSpace => 4,
        }
    }

    /// The variant a received ordinal names, if any.
    pub open spec fn spec_from_ordinal(v: i32) -> Option<LayoutState> {
        if v == 0 {
            Some(LayoutState::BattleSelect)
        } else if v == 1 {
            Some(LayoutState::Garage)
        } else if v == 2 {
            Some(LayoutState::Payment)
        } else if v == 3 {
            Some(LayoutState::Battle)
        } else if v == 4 {
            Some(LayoutState::ReloadSpace)
        } else {
            None
        }
    }
}

impl Default for LayoutState {
    fn default() -> (r: LayoutState)
        ensures
            r == LayoutState::Unknown,
    {
        LayoutState::Unknown
    }
}

impl Codeable for LayoutState {
    type Model = LayoutState;

    open spec fn model(&self) -> LayoutState {
        *self
    }

    open spec fn valid(m: LayoutState) -> bool {
        m != LayoutState::Unknown
    }

    open spec fn wire(m: LayoutState) -> Seq<u8> {
        <i32 as Codeable>::wire(m.spec_ordinal())
    }

    open spec fn parse(s: Seq<u8>) -> Option<(LayoutState, nat)> {
        match <i32 as Codeable>::parse(s) {
            Some((v, k)) => match LayoutState::spec_from_ordinal(v) {
                Some(m) => Some((m, k)),
                None => None,
            },
            None => None,
        }
    }

    open spec fn enc_err(m: LayoutState) -> ProtocolError {
        ProtocolError::EnumUnknown
    }

    open spec fn dec_err(s: Seq<u8>, e: ProtocolError) -> bool {
        match <i32 as Codeable>::parse(s) {
            None => e == ProtocolError::IOError,
            Some((v, _)) => e matches ProtocolError::EnumInvalidOrdinal(ord, _) && ord == v
                as u64,
        }
    }

    fn encode(&self, writer: &mut Vec<u8>) -> (r: Result<(), ProtocolError>) {
        let code: i32 = match self {
            LayoutState::Unknown => {
                return Err(ProtocolError::EnumUnknown);
            },
            LayoutState::BattleSelect => 0,
            LayoutState::Garage => 1,
            LayoutState::Payment => 2,
            LayoutState::Battle => 3,
            LayoutState::ReloadSpace => 4,
        };
        code.encode(writer)
    }

    fn decode(reader: &mut Reader<'_>) -> (r: Result<LayoutState, ProtocolError>) {
        let v = match i32::decode(reader) {
            Ok(v) => v,
            Err(e) => {
                return Err(e);
            },
        };
        match v {
            0 => Ok(LayoutState::BattleSelect),
            1 => Ok(LayoutState::Garage),
            2 => Ok(LayoutState::Payment),
            3 => Ok(LayoutState::Battle),
            4 => Ok(LayoutState::ReloadSpace),
            _ => Err(ProtocolError::EnumInvalidOrdinal(v as u64, String::from_str("LayoutState"))),
        }
    }

    proof fn lemma_roundtrip(m: LayoutState, rest: Seq<u8>) {
        <i32 as Codeable>::lemma_roundtrip(m.spec_ordinal(), rest);
    }
}

/// Which side of a battle a player fights on.
#[derive(Clone, Copy, Debug, PartialEq, Eq, PartialOrd, Ord, Structural)]
pub enum BattleTeam {
    /// The sentinel for an ordinal this build does not know; it is never
    /// transmitted.
    Unknown,
    Red,
    Blue,
    NoTeam,
}

impl BattleTeam {
    /// The ordinal each variant travels as.
    pub open spec fn spec_ordinal(self) -> i32 {
        match self {
            BattleTeam::Unknown => -1i32,
            BattleTeam::Red => 0,
            BattleTeam::Blue => 1,
            BattleTeam::NoTeam => 2,
        }
    }

    /// The variant a received ordinal names, if any.
    pub open spec fn spec_from_ordinal(v: i32) -> Option<BattleTeam> {
        if v == 0 {
            Some(BattleTeam::Red)
        } else if v == 1 {
            Some(BattleTeam::Blue)
        } else if v == 2 {
            Some(BattleTeam::NoTeam)
        } else {
            None
        }
    }
}

impl Default for BattleTeam {
    fn default() -> (r: BattleTeam)
        ensures
            r == BattleTeam::Unknown,
    {
        BattleTeam::Unknown
    }
}

impl Codeable for BattleTeam {
    type Model = BattleTeam;

    open spec fn model(&self) -> BattleTeam {
        *self
    }

    open spec fn valid(m: BattleTeam) -> bool {
        m != BattleTeam::Unknown
    }

    open spec fn wire(m: BattleTeam) -> Seq<u8> {
        <i32 as Codeable>::wire(m.spec_ordinal())
    }

    open spec fn parse(s: Seq<u8>) -> Option<(BattleTeam, nat)> {
        match <i32 as Codeable>::parse(s) {
            Some((v, k)) => match BattleTeam::spec_from_ordinal(v) {
                Some(m) => Some((m, k)),
                None => None,
            },
            None => None,
        }
    }

    open spec fn enc_err(m: BattleTeam) -> ProtocolError {
        ProtocolError::EnumUnknown
    }

    open spec fn dec_err(s: Seq<u8>, e: ProtocolError) -> bool {
        match <i32 as Codeable>::parse(s) {
            None => e == ProtocolError::IOError,
            Some((v, _)) => e matches ProtocolError::EnumInvalidOrdinal(ord, _) && ord == v
                as u64,
        }
    }

    fn encode(&self, writer: &mut Vec<u8>) -> (r: Result<(), ProtocolError>) {
        let code: i32 = match self {
            BattleTeam::Unknown => {
                return Err(ProtocolError::EnumUnknown);
            },
            BattleTeam::Red => 0,
            BattleTeam::Blue => 1,
            BattleTeam::NoTeam => 2,
        };
        code.encode(writer)
    }

    fn decode(reader: &mut Reader<'_>) -> (r: Result<BattleTeam, ProtocolError>) {
        let v = match i32::decode(reader) {
            Ok(v) => v,
            Err(e) => {
                return Err(e);
            },
        };
        match v {
            0 => Ok(BattleTeam::Red),
            1 => Ok(BattleTeam::Blue),
            2 => Ok(BattleTeam::NoTeam),
            _ => Err(ProtocolError::EnumInvalidOrdinal(v as u64, String::from_str("BattleTeam"))),
        }
    }

    proof fn lemma_roundtrip(m: BattleTeam, rest: Seq<u8>) {
        <i32 as Codeable>::lemma_roundtrip(m.spec_ordinal(), rest);
    }
}

/// A 3-vector of single-precision components, carried as raw IEEE-754 bit
/// patterns; on the wire, three consecutive big-endian 32-bit values.
#[derive(Clone, Copy, Debug, PartialEq, Eq, Structural, Default)]
pub struct Vector3 {
    pub x: u32,
    pub y: u32,
    pub z: u32,
}

impl Vector3 {
    pub fn new(x: u32, y: u32, z: u32) -> (r: Vector3)
        ensures
            r == (Vector3 { x, y, z }),
    {
        Vector3 { x, y, z }
    }
}

impl Codeable for Vector3 {
    type Model = Vector3;

    open spec fn model(&self) -> Vector3 {
        *self
    }

    open spec fn valid(m: Vector3) -> bool {
        true
    }

    open spec fn wire(m: Vector3) -> Seq<u8> {
        be4(m.x) + be4(m.y) + be4(m.z)
    }

    open spec fn parse(s: Seq<u8>) -> Option<(Vector3, nat)> {
        if s.len() < 12 {
            None
        } else {
            Some(
                (
                    Vector3 {
                        x: be4_val(s),
                        y: be4_val(s.skip(4)),
                        z: be4_val(s.skip(8)),
                    },
                    12 as nat,
                ),
            )
        }
    }

    open spec fn enc_err(m: Vector3) -> ProtocolError {
        ProtocolError::GenericError
    }

    open spec fn dec_err(s: Seq<u8>, e: ProtocolError) -> bool {
        e == ProtocolError::IOError
    }

    fn encode(&self, writer: &mut Vec<u8>) -> (r: Result<(), ProtocolError>) {
        match self.x.encode(writer) {
            Ok(()) => {},
            Err(e) => {
                return Err(e);
            },
        }
        match self.y.encode(writer) {
            Ok(()) => {},
            Err(e) => {
                return Err(e);
            },
        }
        match self.z.encode(writer) {
            Ok(()) => {},
            Err(e) => {
                return Err(e);
            },
        }
        proof {
            assert(writer@ =~= old(writer)@ + Self::wire(*self));
        }
        Ok(())
    }

    fn decode(reader: &mut Reader<'_>) -> (r: Result<Vector3, ProtocolError>) {
        let ghost s0 = old(reader).rem();
        let x = match u32::decode(reader) {
            Ok(v) => v,
            Err(e) => {
                return Err(e);
            },
        };
        let y = match u32::decode(reader) {
            Ok(v) => v,
            Err(e) => {
                return Err(e);
            },
        };
        proof {
            vstd::seq_lib::lemma_seq_skip_of_skip(s0, 4, 4);
        }
        let z = match u32::decode(reader) {
            Ok(v) => v,
            Err(e) => {
                return Err(e);
            },
        };
        proof {
            vstd::seq_lib::lemma_seq_skip_of_skip(s0, 8, 4);
        }
        Ok(Vector3 { x, y, z })
    }

    proof fn lemma_roundtrip(m: Vector3, rest: Seq<u8>) {
        let s = Self::wire(m) + rest;
        lemma_be4_roundtrip(m.x);
        lemma_be4_roundtrip(m.y);
        lemma_be4_roundtrip(m.z);
        assert(be4_val(s) == be4_val(be4(m.x)));
        assert(s.skip(4)[0] == be4(m.y)[0] && s.skip(4)[1] == be4(m.y)[1] && s.skip(4)[2] == be4(
            m.y,
        )[2] && s.skip(4)[3] == be4(m.y)[3]);
        assert(be4_val(s.skip(4)) == be4_val(be4(m.y)));
        assert(s.skip(8)[0] == be4(m.z)[0] && s.skip(8)[1] == be4(m.z)[1] && s.skip(8)[2] == be4(
            m.z,
        )[2] && s.skip(8)[3] == be4(m.z)[3]);
        assert(be4_val(s.skip(8)) == be4_val(be4(m.z)));
    }
}

/// A turret rotation command: the target angle's bit pattern, then a control
/// byte.
#[derive(Clone, Copy, Debug, PartialEq, Eq, Structural, Default)]
pub struct RotateTurretCommand {
    /// IEEE-754 bit pattern of the target angle.
    pub target: u32,
    pub control: u8,
}

impl Codeable for RotateTurretCommand {
    type Model = RotateTurretCommand;

    open spec fn model(&self) -> RotateTurretCommand {
        *self
    }

    open spec fn valid(m: RotateTurretCommand) -> bool {
        true
    }

    open spec fn wire(m: RotateTurretCommand) -> Seq<u8> {
        be4(m.target) + seq![m.control]
    }

    open spec fn parse(s: Seq<u8>) -> Option<(RotateTurretCommand, nat)> {
        if s.len() < 5 {
            None
        } else {
            Some((RotateTurretCommand { target: be4_val(s), control: s[4] }, 5 as nat))
        }
    }

    open spec fn enc_err(m: RotateTurretCommand) -> ProtocolError {
        ProtocolError::GenericError
    }

    open spec fn dec_err(s: Seq<u8>, e: ProtocolError) -> bool {
        e == ProtocolError::IOError
    }

    fn encode(&self, writer: &mut Vec<u8>) -> (r: Result<(), ProtocolError>) {
        match self.target.encode(writer) {
            Ok(()) => {},
            Err(e) => {
                return Err(e);
            },
        }
        writer.push(self.control);
        proof {
            assert(writer@ =~= old(writer)@ + Self::wire(*self));
        }
        Ok(())
    }

    fn decode(reader: &mut Reader<'_>) -> (r: Result<RotateTurretCommand, ProtocolError>) {
        let ghost s0 = old(reader).rem();
        let target = match u32::decode(reader) {
            Ok(v) => v,
            Err(e) => {
                return Err(e);
            },
        };
        let control = match reader.read_u8() {
            Ok(v) => v,
            Err(e) => {
                return Err(e);
            },
        };
        proof {
            vstd::seq_lib::lemma_seq_skip_of_skip(s0, 4, 1);
        }
        Ok(RotateTurretCommand { target, control })
    }

    proof fn lemma_roundtrip(m: RotateTurretCommand, rest: Seq<u8>) {
        let s = Self::wire(m) + rest;
        lemma_be4_roundtrip(m.target);
        assert(be4_val(s) == be4_val(be4(m.target)));
        assert(s[4] == m.control);
    }
}

/// A movement command. On the wire: angular velocity, control byte, linear
/// velocity, orientation, position — each vector optional.
#[derive(Clone, Copy, Debug, PartialEq, Default)]
pub struct MoveCommand {
    pub control: u8,
    pub position: Option<Vector3>,
    pub orientation: Option<Vector3>,
    pub velocity: Option<Vector3>,
    pub angular_velocity: Option<Vector3>,
}

/// The first field of a movement command parses from its wire bytes.
proof fn lemma_move_command_field1(m: MoveCommand, rest: Seq<u8>)
    ensures
        <Option<Vector3> as Codeable>::parse(<MoveCommand as Codeable>::wire(m) + rest) == Some(
            (
                m.angular_velocity,
                <Option<Vector3> as Codeable>::wire(m.angular_velocity).len(),
            ),
        ),
{
    let w_av = <Option<Vector3> as Codeable>::wire(m.angular_velocity);
    let w_vel = <Option<Vector3> as Codeable>::wire(m.velocity);
    let w_ori = <Option<Vector3> as Codeable>::wire(m.orientation);
    let w_pos = <Option<Vector3> as Codeable>::wire(m.position);
    let s = <MoveCommand as Codeable>::wire(m) + rest;
    let tail = seq![m.control] + w_vel + w_ori + w_pos + rest;
    assert(s =~= w_av + tail);
    <Option<Vector3> as Codeable>::lemma_roundtrip(m.angular_velocity, tail);
}

/// The control byte of a movement command sits right after the first field.
proof fn lemma_move_command_control(m: MoveCommand, rest: Seq<u8>)
    ensures
        ({
            let s = <MoveCommand as Codeable>::wire(m) + rest;
            let k1 = <Option<Vector3> as Codeable>::wire(m.angular_velocity).len() as int;
            s.skip(k1).len() >= 1 && s.skip(k1)[0] == m.control
        }),
{
    let w_av = <Option<Vector3> as Codeable>::wire(m.angular_velocity);
    let w_vel = <Option<Vector3> as Codeable>::wire(m.velocity);
    let w_ori = <Option<Vector3> as Codeable>::wire(m.orientation);
    let w_pos = <Option<Vector3> as Codeable>::wire(m.position);
    let s = <MoveCommand as Codeable>::wire(m) + rest;
    assert(s.skip(w_av.len() as int) =~= seq![m.control] + w_vel + w_ori + w_pos + rest);
}

/// The velocity field parses from its place in a movement command.
proof fn lemma_move_command_field2(m: MoveCommand, rest: Seq<u8>)
    ensures
        ({
            let s = <MoveCommand as Codeable>::wire(m) + rest;
            let k1 = <Option<Vector3> as Codeable>::wire(m.angular_velocity).len();
            <Option<Vector3> as Codeable>::parse(s.skip(k1 + 1 as int)) == Some(
                (m.velocity, <Option<Vector3> as Codeable>::wire(m.velocity).len()),
            )
        }),
{
    let w_av = <Option<Vector3> as Codeable>::wire(m.angular_velocity);
    let w_vel = <Option<Vector3> as Codeable>::wire(m.velocity);
    let w_ori = <Option<Vector3> as Codeable>::wire(m.orientation);
    let w_pos = <Option<Vector3> as Codeable>::wire(m.position);
    let s = <MoveCommand as Codeable>::wire(m) + rest;
    let tail = w_ori + w_pos + rest;
    assert(s.skip(w_av.len() + 1 as int) =~= w_vel + tail);
    <Option<Vector3> as Codeable>::lemma_roundtrip(m.velocity, tail);
}

/// The orientation field parses from its place in a movement command.
proof fn lemma_move_command_field3(m: MoveCommand, rest: Seq<u8>)
    ensures
        ({
            let s = <MoveCommand as Codeable>::wire(m) + rest;
            let k1 = <Option<Vector3> as Codeable>::wire(m.angular_velocity).len();
            let k2 = <Option<Vector3> as Codeable>::wire(m.velocity).len();
            <Option<Vector3> as Codeable>::parse(s.skip(k1 + 1 as int).skip(k2 as int)) == Some(
                (m.orientation, <Option<Vector3> as Codeable>::wire(m.orientation).len()),
            )
        }),
{
    let w_av = <Option<Vector3> as Codeable>::wire(m.angular_velocity);
    let w_vel = <Option<Vector3> as Codeable>::wire(m.velocity);
    let w_ori = <Option<Vector3> as Codeable>::wire(m.orientation);
    let w_pos = <Option<Vector3> as Codeable>::wire(m.position);
    let s = <MoveCommand as Codeable>::wire(m) + rest;
    let tail = w_pos + rest;
    assert(s.skip(w_av.len() + 1 as int).skip(w_vel.len() as int) =~= w_ori + tail);
    <Option<Vector3> as Codeable>::lemma_roundtrip(m.orientation, tail);
}

/// The position field parses from its place in a movement command.
proof fn lemma_move_command_field4(m: MoveCommand, rest: Seq<u8>)
    ensures
        ({
            let s = <MoveCommand as Codeable>::wire(m) + rest;
            let k1 = <Option<Vector3> as Codeable>::wire(m.angular_velocity).len();
            let k2 = <Option<Vector3> as Codeable>::wire(m.velocity).len();
            let k3 = <Option<Vector3> as Codeable>::wire(m.orientation).len();
            <Option<Vector3> as Codeable>::parse(
                s.skip(k1 + 1 as int).skip(k2 as int).skip(k3 as int),
            ) == Some((m.position, <Option<Vector3> as Codeable>::wire(m.position).len()))
        }),
{
    let w_av = <Option<Vector3> as Codeable>::wire(m.angular_velocity);
    let w_vel = <Option<Vector3> as Codeable>::wire(m.velocity);
    let w_ori = <Option<Vector3> as Codeable>::wire(m.orientation);
    let w_pos = <Option<Vector3> as Codeable>::wire(m.position);
    let s = <MoveCommand as Codeable>::wire(m) + rest;
    assert(s.skip(w_av.len() + 1 as int).skip(w_vel.len() as int).skip(w_ori.len() as int) =~= w_pos
        + rest);
    <Option<Vector3> as Codeable>::lemma_roundtrip(m.position, rest);
}

/// Evaluates `MoveCommand::parse` once the five field parses are known.
proof fn lemma_move_command_parse_eval(
    s: Seq<u8>,
    m: MoveCommand,
    k1: nat,
    k2: nat,
    k3: nat,
    k4: nat,
)
    requires
        <Option<Vector3> as Codeable>::parse(s) == Some((m.angular_velocity, k1)),
        s.skip(k1 as int).len() >= 1,
        s.skip(k1 as int)[0] == m.control,
        <Option<Vector3> as Codeable>::parse(s.skip(k1 + 1 as int)) == Some((m.velocity, k2)),
        <Option<Vector3> as Codeable>::parse(s.skip(k1 + 1 as int).skip(k2 as int)) == Some(
            (m.orientation, k3),
        ),
        <Option<Vector3> as Codeable>::parse(
            s.skip(k1 + 1 as int).skip(k2 as int).skip(k3 as int),
        ) == Some((m.position, k4)),
    ensures
        <MoveCommand as Codeable>::parse(s) == Some((m, (k1 + 1 + k2 + k3 + k4) as nat)),
{
}

impl Codeable for MoveCommand {
    type Model = MoveCommand;

    open spec fn model(&self) -> MoveCommand {
        *self
    }

    open spec fn valid(m: MoveCommand) -> bool {
        true
    }

    open spec fn wire(m: MoveCommand) -> Seq<u8> {
        <Option<Vector3> as Codeable>::wire(m.angular_velocity) + seq![m.control] + <Option<
            Vector3,
        > as Codeable>::wire(m.velocity) + <Option<Vector3> as Codeable>::wire(m.orientation)
            + <Option<Vector3> as Codeable>::wire(m.position)
    }

    open spec fn parse(s: Seq<u8>) -> Option<(MoveCommand, nat)> {
        match <Option<Vector3> as Codeable>::parse(s) {
            Some((av, k1)) => if s.skip(k1 as int).len() < 1 {
                None
            } else {
                let control = s.skip(k1 as int)[0];
                let s2 = s.skip(k1 + 1 as int);
                match <Option<Vector3> as Codeable>::parse(s2) {
                    Some((vel, k2)) => {
                        let s3 = s2.skip(k2 as int);
                        match <Option<Vector3> as Codeable>::parse(s3) {
                            Some((ori, k3)) => {
                                let s4 = s3.skip(k3 as int);
                                match <Option<Vector3> as Codeable>::parse(s4) {
                                    Some((pos, k4)) => Some(
                                        (
                                            MoveCommand {
                                                control,
                                                position: pos,
                                                orientation: ori,
                                                velocity: vel,
                                                angular_velocity: av,
                                            },
                                            (k1 + 1 + k2 + k3 + k4) as nat,
                                        ),
                                    ),
                                    None => None,
                                }
                            },
                            None => None,
                        }
                    },
                    None => None,
                }
            },
            None => None,
        }
    }

    open spec fn enc_err(m: MoveCommand) -> ProtocolError {
        ProtocolError::GenericError
    }

    open spec fn dec_err(s: Seq<u8>, e: ProtocolError) -> bool {
        e == ProtocolError::IOError
    }

    fn encode(&self, writer: &mut Vec<u8>) -> (r: Result<(), ProtocolError>) {
        match self.angular_velocity.encode(writer) {
            Ok(()) => {},
            Err(e) => {
                return Err(e);
            },
        }
        writer.push(self.control);
        match self.velocity.encode(writer) {
            Ok(()) => {},
            Err(e) => {
                return Err(e);
            },
        }
        match self.orientation.encode(writer) {
            Ok(()) => {},
            Err(e) => {
                return Err(e);
            },
        }
        match self.position.encode(writer) {
            Ok(()) => {},
            Err(e) => {
                return Err(e);
            },
        }
        proof {
            assert(writer@ =~= old(writer)@ + Self::wire(*self));
        }
        Ok(())
    }

    fn decode(reader: &mut Reader<'_>) -> (r: Result<MoveCommand, ProtocolError>) {
        let ghost s0 = old(reader).rem();
        let angular_velocity = match <Option<Vector3> as Codeable>::decode(reader) {
            Ok(v) => v,
            Err(e) => {
                return Err(e);
            },
        };
        let ghost k1 = <Option<Vector3> as Codeable>::parse(s0).unwrap().1;
        let control = match reader.read_u8() {
            Ok(v) => v,
            Err(e) => {
                return Err(e);
            },
        };
        proof {
            vstd::seq_lib::lemma_seq_skip_of_skip(s0, k1 as int, 1);
        }
        let velocity = match <Option<Vector3> as Codeable>::decode(reader) {
            Ok(v) => v,
            Err(e) => {
                return Err(e);
            },
        };
        let ghost s2 = s0.skip(k1 + 1 as int);
        let ghost k2 = <Option<Vector3> as Codeable>::parse(s2).unwrap().1;
        let orientation = match <Option<Vector3> as Codeable>::decode(reader) {
            Ok(v) => v,
            Err(e) => {
                return Err(e);
            },
        };
        let ghost s3 = s2.skip(k2 as int);
        let ghost k3 = <Option<Vector3> as Codeable>::parse(s3).unwrap().1;
        let position = match <Option<Vector3> as Codeable>::decode(reader) {
            Ok(v) => v,
            Err(e) => {
                return Err(e);
            },
        };
        proof {
            let s4 = s3.skip(k3 as int);
            let k4 = <Option<Vector3> as Codeable>::parse(s4).unwrap().1;
            assert(reader.pos() == old(reader).pos() + (k1 + 1 + k2 + k3 + k4));
            vstd::seq_lib::lemma_seq_skip_of_skip(s0, (k1 + 1) as int, k2 as int);
            vstd::seq_lib::lemma_seq_skip_of_skip(s0, (k1 + 1 + k2) as int, k3 as int);
            vstd::seq_lib::lemma_seq_skip_of_skip(s0, (k1 + 1 + k2 + k3) as int, k4 as int);
            assert(reader.rem() =~= s0.skip((k1 + 1 + k2 + k3 + k4) as int));
        }
        Ok(MoveCommand { control, position, orientation, velocity, angular_velocity })
    }

    #[verifier::spinoff_prover]
    proof fn lemma_roundtrip(m: MoveCommand, rest: Seq<u8>) {
        let w_av = <Option<Vector3> as Codeable>::wire(m.angular_velocity);
        let w_vel = <Option<Vector3> as Codeable>::wire(m.velocity);
        let w_ori = <Option<Vector3> as Codeable>::wire(m.orientation);
        let w_pos = <Option<Vector3> as Codeable>::wire(m.position);
        let s = Self::wire(m) + rest;
        let k1 = w_av.len();
        let k2 = w_vel.len();
        let k3 = w_ori.len();
        let k4 = w_pos.len();
        lemma_move_command_field1(m, rest);
        lemma_move_command_control(m, rest);
        lemma_move_command_field2(m, rest);
        lemma_move_command_field3(m, rest);
        lemma_move_command_field4(m, rest);
        lemma_move_command_parse_eval(s, m, k1, k2, k3, k4);
        assert(Self::wire(m).len() == k1 + 1 + k2 + k3 + k4);
    }
}

} // verus!

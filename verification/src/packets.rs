//! The message catalog: every message shape the protocol knows, each
//! addressable by a 32-bit id with a direction tag, plus the registry that
//! turns inbound payload bytes into typed packets.
//!
//! The catalog is declarative: `catalog_has`, `catalog_direction` and
//! `catalog_parse` describe it in full, `register_all_packets` populates a
//! registry for one direction, and `lemma_catalog_roundtrip` proves that
//! every message in the catalog round-trips through its payload bytes.

use vstd::prelude::*;

use crate::codec::{decode_pair, lemma_pair_roundtrip, parse_pair, Codeable};
use crate::custom::CaptchaLocation;
use crate::error::ProtocolError;
use crate::reader::Reader;

verus! {

/// Who sends a message: the server, the client, or unknown for packets that
/// were decoded opaquely.
#[derive(Debug, Copy, Clone, PartialEq, Eq, PartialOrd, Ord, Structural)]
pub enum PacketDirection {
    Unknown,
    S2C,
    C2S,
}

impl Default for PacketDirection {
    fn default() -> (r: PacketDirection)
        ensures
            r == PacketDirection::Unknown,
    {
        PacketDirection::Unknown
    }
}

// The wire ids of the catalog, one per message shape.
pub const ID_RESOURCE_LOADER_INITIALIZE_ENCRYPTION: u32 = 1;

pub const ID_RESOURCE_LOADER_ENCRYPTION_INITIALIZED: u32 = 2;

pub const ID_RESOURCE_LOADER_LOAD_DEPENDENCIES: u32 = 3;

pub const ID_RESOURCE_LOADER_DEPENDENCIES_LOADED: u32 = 4;

pub const ID_RESOURCE_LOADER_FINISHED: u32 = 5;

pub const ID_RESOURCE_LOADER_REGISTER_RESOURCES: u32 = 22;

pub const ID_RESOURCE_LOADER_RESOURCES_REGISTERED: u32 = 23;

pub const ID_PING_MEASURE_PING: u32 = 6;

pub const ID_PING_MEASURE_PONG: u32 = 7;

pub const ID_SERVER_SESSION_SYNC: u32 = 8;

pub const ID_SERVER_SESSION_SYNC_RESPONSE: u32 = 9;

pub const ID_CAPTCHA_REQUEST_LOCATION: u32 = 10;

pub const ID_CAPTCHA_SHOW: u32 = 11;

pub const ID_CAPTCHA_VALIDATE_CAPTCHA: u32 = 12;

pub const ID_CAPTCHA_CAPTCHA_VALIDATED: u32 = 13;

pub const ID_CAPTCHA_CAPTCHA_FAILED: u32 = 14;

pub const ID_CAPTCHA_PARAMETERS: u32 = 15;

pub const ID_SETTINGS_REQUEST_OPEN: u32 = 16;

pub const ID_SETTINGS_REQUEST_CLOSE: u32 = 17;

pub const ID_SETTINGS_OPEN: u32 = 18;

pub const ID_SETTINGS_CLOSE: u32 = 19;

pub const ID_BATTLE_LIST_LIST_CREATE: u32 = 20;

pub const ID_BATTLE_CREATE_PARAMETERS: u32 = 21;

// Model ids group messages for log filtering only.
pub const MODEL_RESOURCE_LOADER: u32 = 1;

pub const MODEL_PING_MEASURE: u32 = 2;

pub const MODEL_SERVER_SESSION: u32 = 3;

pub const MODEL_CAPTCHA: u32 = 4;

pub const MODEL_SETTINGS: u32 = 5;

pub const MODEL_BATTLE_LIST: u32 = 6;

/// Server → client: the 4 seed bytes both sides derive the cipher from.
#[derive(Debug, Clone, PartialEq, Default)]
pub struct ResourceLoaderInitializeEncryption {
    pub protection_data: Vec<u8>,
}

/// Client → server: the cipher is installed; carries the language code.
#[derive(Debug, Clone, PartialEq, Default)]
pub struct ResourceLoaderEncryptionInitialized {
    pub lang: String,
}

/// Server → client: load a dependency batch and call back with this id.
#[derive(Debug, Clone, PartialEq, Default)]
pub struct ResourceLoaderLoadDependencies {
    pub callback_id: i32,
}

/// Client → server: the dependency batch with this callback id is loaded.
#[derive(Debug, Clone, PartialEq, Default)]
pub struct ResourceLoaderDependenciesLoaded {
    pub callback_id: i32,
}

/// Server → client: all initial resources are in place.
#[derive(Debug, Clone, PartialEq, Default)]
pub struct ResourceLoaderFinished {}

/// Server → client: register this batch of resources, described as a JSON
/// document, and call back with the id once done.
#[derive(Debug, Clone, PartialEq, Default)]
pub struct ResourceLoaderRegisterResources {
    pub callback_id: i32,
    pub json: String,
}

/// Client → server: the resource batch with this callback id is registered.
#[derive(Debug, Clone, PartialEq, Default)]
pub struct ResourceLoaderResourcesRegistered {
    pub callback_id: i32,
}

/// Server → client: a ping probe.
#[derive(Debug, Clone, PartialEq, Default)]
pub struct PingMeasurePing {}

/// Client → server: the answer to a ping probe.
#[derive(Debug, Clone, PartialEq, Default)]
pub struct PingMeasurePong {}

/// Server → client: the server's session clock.
#[derive(Debug, Clone, PartialEq, Default)]
pub struct ServerSessionSync {
    pub server_session_time: i32,
}

/// Client → server: the client's session clock beside the echoed server
/// clock.
#[derive(Debug, Clone, PartialEq, Default)]
pub struct ServerSessionSyncResponse {
    pub client_session_time: i32,
    pub server_session_time: i32,
}

/// Client → server: ask for a captcha at this location.
#[derive(Debug, Clone, PartialEq, Default)]
pub struct CaptchaRequestLocation {
    pub location: CaptchaLocation,
}

/// Server → client: show this captcha image for the location.
#[derive(Debug, Clone, PartialEq)]
pub struct CaptchaShow {
    pub location: CaptchaLocation,
    pub captcha_data: Vec<u8>,
}

/// Client → server: the code the user typed for the location.
#[derive(Debug, Clone, PartialEq)]
pub struct CaptchaValidateCaptcha {
    pub location: CaptchaLocation,
    pub code: String,
}

/// Server → client: the captcha for the location was right.
#[derive(Debug, Clone, PartialEq, Default)]
pub struct CaptchaCaptchaValidated {
    pub location: CaptchaLocation,
}

/// Server → client: the captcha was wrong; here is a new image.
#[derive(Debug, Clone, PartialEq)]
pub struct CaptchaCaptchaFailed {
    pub location: CaptchaLocation,
    pub new_captcha: Vec<u8>,
}

/// Server → client: the locations that require a captcha.
#[derive(Debug, Clone, PartialEq, Default)]
pub struct CaptchaParameters {
    pub init_params: Vec<CaptchaLocation>,
}

/// Client → server: open the settings dialog.
#[derive(Debug, Clone, PartialEq, Default)]
pub struct SettingsRequestOpen {}

/// Client → server: close the settings dialog.
#[derive(Debug, Clone, PartialEq, Default)]
pub struct SettingsRequestClose {}

/// Server → client: the settings dialog's state.
#[derive(Debug, Clone, PartialEq, Default)]
pub struct SettingsOpen {
    pub notification_enabled: bool,
}

/// Server → client: the settings dialog is closed.
#[derive(Debug, Clone, PartialEq, Default)]
pub struct SettingsClose {}

/// Server → client: the battle list as a JSON document.
#[derive(Debug, Clone, PartialEq, Default)]
pub struct BattleListListCreate {
    pub json: String,
}

/// Server → client: the battle creation parameters as a JSON document.
#[derive(Debug, Clone, PartialEq, Default)]
pub struct BattleCreateParameters {
    pub json: String,
}

/// A packet whose id the catalog does not know, kept as its raw payload.
#[derive(Debug, Clone, PartialEq)]
pub struct UnknownPacket {
    packet_id: u32,
    direction: PacketDirection,
    payload: Vec<u8>,
}

impl UnknownPacket {
    /// The id the packet arrived under.
    pub closed spec fn spec_packet_id(&self) -> u32 {
        self.packet_id
    }

    /// The raw payload bytes.
    pub closed spec fn spec_payload(&self) -> Seq<u8> {
        self.payload@
    }

    /// The direction it was synthesized for.
    pub closed spec fn spec_direction(&self) -> PacketDirection {
        self.direction
    }

    pub fn new(direction: PacketDirection, packet_id: u32, payload: Vec<u8>) -> (r: UnknownPacket)
        ensures
            r.spec_direction() == direction,
            r.spec_packet_id() == packet_id,
            r.spec_payload() == payload@,
    {
        UnknownPacket { direction, packet_id, payload }
    }

    /// An unknown packet with an empty payload to decode into.
    pub fn new_with_capacity(direction: PacketDirection, packet_id: u32, capacity: usize) -> (r:
        UnknownPacket)
        ensures
            r.spec_direction() == direction,
            r.spec_packet_id() == packet_id,
            r.spec_payload() == Seq::<u8>::empty(),
    {
        let payload: Vec<u8> = Vec::with_capacity(capacity);
        proof {
            assert(payload@ =~= Seq::<u8>::empty());
        }
        UnknownPacket { direction, packet_id, payload }
    }

    pub fn payload(&self) -> (r: &[u8])
        ensures
            r@ == self.spec_payload(),
    {
        self.payload.as_slice()
    }
}

/// The mathematical shape of a packet: one variant per catalog entry holding
/// the field models, and one for opaque packets.
pub enum PacketModel {
    ResourceLoaderInitializeEncryption(Seq<u8>),
    ResourceLoaderEncryptionInitialized(Seq<char>),
    ResourceLoaderLoadDependencies(i32),
    ResourceLoaderDependenciesLoaded(i32),
    ResourceLoaderFinished,
    ResourceLoaderRegisterResources(i32, Seq<char>),
    ResourceLoaderResourcesRegistered(i32),
    PingMeasurePing,
    PingMeasurePong,
    ServerSessionSync(i32),
    ServerSessionSyncResponse(i32, i32),
    CaptchaRequestLocation(CaptchaLocation),
    CaptchaShow(CaptchaLocation, Seq<u8>),
    CaptchaValidateCaptcha(CaptchaLocation, Seq<char>),
    CaptchaCaptchaValidated(CaptchaLocation),
    CaptchaCaptchaFailed(CaptchaLocation, Seq<u8>),
    CaptchaParameters(Seq<CaptchaLocation>),
    SettingsRequestOpen,
    SettingsRequestClose,
    SettingsOpen(bool),
    SettingsClose,
    BattleListListCreate(Seq<char>),
    BattleCreateParameters(Seq<char>),
    Unknown(u32, Seq<u8>),
}

/// The model id (log-filter group) a packet model belongs to; opaque
/// packets report the all-ones group.
pub open spec fn packet_model_group(m: PacketModel) -> u32 {
    match m {
        PacketModel::ResourceLoaderInitializeEncryption(_) => MODEL_RESOURCE_LOADER,
        PacketModel::ResourceLoaderEncryptionInitialized(_) => MODEL_RESOURCE_LOADER,
        PacketModel::ResourceLoaderLoadDependencies(_) => MODEL_RESOURCE_LOADER,
        PacketModel::ResourceLoaderDependenciesLoaded(_) => MODEL_RESOURCE_LOADER,
        PacketModel::ResourceLoaderFinished => MODEL_RESOURCE_LOADER,
        PacketModel::ResourceLoaderRegisterResources(_, _) => MODEL_RESOURCE_LOADER,
        PacketModel::ResourceLoaderResourcesRegistered(_) => MODEL_RESOURCE_LOADER,
        PacketModel::PingMeasurePing => MODEL_PING_MEASURE,
        PacketModel::PingMeasurePong => MODEL_PING_MEASURE,
        PacketModel::ServerSessionSync(_) => MODEL_SERVER_SESSION,
        PacketModel::ServerSessionSyncResponse(_, _) => MODEL_SERVER_SESSION,
        PacketModel::CaptchaRequestLocation(_) => MODEL_CAPTCHA,
        PacketModel::CaptchaShow(_, _) => MODEL_CAPTCHA,
        PacketModel::CaptchaValidateCaptcha(_, _) => MODEL_CAPTCHA,
        PacketModel::CaptchaCaptchaValidated(_) => MODEL_CAPTCHA,
        PacketModel::CaptchaCaptchaFailed(_, _) => MODEL_CAPTCHA,
        PacketModel::CaptchaParameters(_) => MODEL_CAPTCHA,
        PacketModel::SettingsRequestOpen => MODEL_SETTINGS,
        PacketModel::SettingsRequestClose => MODEL_SETTINGS,
        PacketModel::SettingsOpen(_) => MODEL_SETTINGS,
        PacketModel::SettingsClose => MODEL_SETTINGS,
        PacketModel::BattleListListCreate(_) => MODEL_BATTLE_LIST,
        PacketModel::BattleCreateParameters(_) => MODEL_BATTLE_LIST,
        PacketModel::Unknown(_, _) => 0xffffffffu32,
    }
}

/// The wire id a packet model travels under.
pub open spec fn packet_model_id_of(m: PacketModel) -> u32 {
    match m {
        PacketModel::ResourceLoaderInitializeEncryption(
            _,
        ) => ID_RESOURCE_LOADER_INITIALIZE_ENCRYPTION,
        PacketModel::ResourceLoaderEncryptionInitialized(
            _,
        ) => ID_RESOURCE_LOADER_ENCRYPTION_INITIALIZED,
        PacketModel::ResourceLoaderLoadDependencies(_) => ID_RESOURCE_LOADER_LOAD_DEPENDENCIES,
        PacketModel::ResourceLoaderDependenciesLoaded(_) => ID_RESOURCE_LOADER_DEPENDENCIES_LOADED,
        PacketModel::ResourceLoaderFinished => ID_RESOURCE_LOADER_FINISHED,
        PacketModel::ResourceLoaderRegisterResources(
            _,
            _,
        ) => ID_RESOURCE_LOADER_REGISTER_RESOURCES,
        PacketModel::ResourceLoaderResourcesRegistered(
            _,
        ) => ID_RESOURCE_LOADER_RESOURCES_REGISTERED,
        PacketModel::PingMeasurePing => ID_PING_MEASURE_PING,
        PacketModel::PingMeasurePong => ID_PING_MEASURE_PONG,
        PacketModel::ServerSessionSync(_) => ID_SERVER_SESSION_SYNC,
        PacketModel::ServerSessionSyncResponse(_, _) => ID_SERVER_SESSION_SYNC_RESPONSE,
        PacketModel::CaptchaRequestLocation(_) => ID_CAPTCHA_REQUEST_LOCATION,
        PacketModel::CaptchaShow(_, _) => ID_CAPTCHA_SHOW,
        PacketModel::CaptchaValidateCaptcha(_, _) => ID_CAPTCHA_VALIDATE_CAPTCHA,
        PacketModel::CaptchaCaptchaValidated(_) => ID_CAPTCHA_CAPTCHA_VALIDATED,
        PacketModel::CaptchaCaptchaFailed(_, _) => ID_CAPTCHA_CAPTCHA_FAILED,
        PacketModel::CaptchaParameters(_) => ID_CAPTCHA_PARAMETERS,
        PacketModel::SettingsRequestOpen => ID_SETTINGS_REQUEST_OPEN,
        PacketModel::SettingsRequestClose => ID_SETTINGS_REQUEST_CLOSE,
        PacketModel::SettingsOpen(_) => ID_SETTINGS_OPEN,
        PacketModel::SettingsClose => ID_SETTINGS_CLOSE,
        PacketModel::BattleListListCreate(_) => ID_BATTLE_LIST_LIST_CREATE,
        PacketModel::BattleCreateParameters(_) => ID_BATTLE_CREATE_PARAMETERS,
        PacketModel::Unknown(id, _) => id,
    }
}

/// The payload bytes a packet model produces.
pub open spec fn packet_model_wire(m: PacketModel) -> Seq<u8> {
    match m {
        PacketModel::ResourceLoaderInitializeEncryption(d) => <Vec<u8> as Codeable>::wire(d),
        PacketModel::ResourceLoaderEncryptionInitialized(l) => <String as Codeable>::wire(l),
        PacketModel::ResourceLoaderLoadDependencies(c) => <i32 as Codeable>::wire(c),
        PacketModel::ResourceLoaderDependenciesLoaded(c) => <i32 as Codeable>::wire(c),
        PacketModel::ResourceLoaderFinished => Seq::<u8>::empty(),
        PacketModel::ResourceLoaderRegisterResources(c, j) => <i32 as Codeable>::wire(c) + <String as Codeable>::wire(j),
        PacketModel::ResourceLoaderResourcesRegistered(c) => <i32 as Codeable>::wire(c),
        PacketModel::PingMeasurePing => Seq::<u8>::empty(),
        PacketModel::PingMeasurePong => Seq::<u8>::empty(),
        PacketModel::ServerSessionSync(t) => <i32 as Codeable>::wire(t),
        PacketModel::ServerSessionSyncResponse(c, t) => <i32 as Codeable>::wire(c) + <i32 as Codeable>::wire(t),
        PacketModel::CaptchaRequestLocation(l) => <CaptchaLocation as Codeable>::wire(l),
        PacketModel::CaptchaShow(l, d) => <CaptchaLocation as Codeable>::wire(l) + <Vec<u8> as Codeable>::wire(d),
        PacketModel::CaptchaValidateCaptcha(l, c) => <CaptchaLocation as Codeable>::wire(l) + <String as Codeable>::wire(c),
        PacketModel::CaptchaCaptchaValidated(l) => <CaptchaLocation as Codeable>::wire(l),
        PacketModel::CaptchaCaptchaFailed(l, d) => <CaptchaLocation as Codeable>::wire(l) + <Vec<u8> as Codeable>::wire(d),
        PacketModel::CaptchaParameters(ls) => <Vec<CaptchaLocation> as Codeable>::wire(ls),
        PacketModel::SettingsRequestOpen => Seq::<u8>::empty(),
        PacketModel::SettingsRequestClose => Seq::<u8>::empty(),
        PacketModel::SettingsOpen(b) => <bool as Codeable>::wire(b),
        PacketModel::SettingsClose => Seq::<u8>::empty(),
        PacketModel::BattleListListCreate(j) => <String as Codeable>::wire(j),
        PacketModel::BattleCreateParameters(j) => <String as Codeable>::wire(j),
        PacketModel::Unknown(_, payload) => payload,
    }
}

/// Which packet models can be encoded.
pub open spec fn packet_model_valid(m: PacketModel) -> bool {
    match m {
        PacketModel::ResourceLoaderInitializeEncryption(d) => <Vec<u8> as Codeable>::valid(d),
        PacketModel::ResourceLoaderEncryptionInitialized(l) => <String as Codeable>::valid(l),
        PacketModel::ResourceLoaderRegisterResources(c, j) => <String as Codeable>::valid(j),
        PacketModel::ServerSessionSyncResponse(c, t) => true,
        PacketModel::CaptchaRequestLocation(l) => <CaptchaLocation as Codeable>::valid(l),
        PacketModel::CaptchaShow(l, d) => <CaptchaLocation as Codeable>::valid(l) && <Vec<u8> as Codeable>::valid(d),
        PacketModel::CaptchaValidateCaptcha(l, c) => <CaptchaLocation as Codeable>::valid(l) && <String as Codeable>::valid(c),
        PacketModel::CaptchaCaptchaValidated(l) => <CaptchaLocation as Codeable>::valid(l),
        PacketModel::CaptchaCaptchaFailed(l, d) => <CaptchaLocation as Codeable>::valid(l) && <Vec<u8> as Codeable>::valid(d),
        PacketModel::CaptchaParameters(ls) => <Vec<CaptchaLocation> as Codeable>::valid(ls),
        PacketModel::SettingsOpen(b) => true,
        PacketModel::BattleListListCreate(j) => <String as Codeable>::valid(j),
        PacketModel::BattleCreateParameters(j) => <String as Codeable>::valid(j),
        _ => true,
    }
}

/// The error an unencodable packet model is refused with: the error of the
/// first field that cannot be encoded.
pub open spec fn packet_model_enc_err(m: PacketModel) -> ProtocolError {
    match m {
        PacketModel::ResourceLoaderInitializeEncryption(d) => <Vec<u8> as Codeable>::enc_err(d),
        PacketModel::ResourceLoaderEncryptionInitialized(l) => <String as Codeable>::enc_err(l),
        PacketModel::ResourceLoaderRegisterResources(c, j) => <String as Codeable>::enc_err(j),
        PacketModel::CaptchaRequestLocation(l) => <CaptchaLocation as Codeable>::enc_err(l),
        PacketModel::CaptchaShow(l, d) => if !<CaptchaLocation as Codeable>::valid(l) {
            <CaptchaLocation as Codeable>::enc_err(l)
        } else {
            <Vec<u8> as Codeable>::enc_err(d)
        },
        PacketModel::CaptchaValidateCaptcha(l, c) => if !<CaptchaLocation as Codeable>::valid(l) {
            <CaptchaLocation as Codeable>::enc_err(l)
        } else {
            <String as Codeable>::enc_err(c)
        },
        PacketModel::CaptchaCaptchaValidated(l) => <CaptchaLocation as Codeable>::enc_err(l),
        PacketModel::CaptchaCaptchaFailed(l, d) => if !<CaptchaLocation as Codeable>::valid(l) {
            <CaptchaLocation as Codeable>::enc_err(l)
        } else {
            <Vec<u8> as Codeable>::enc_err(d)
        },
        PacketModel::CaptchaParameters(ls) => <Vec<CaptchaLocation> as Codeable>::enc_err(ls),
        PacketModel::SettingsOpen(b) => <bool as Codeable>::enc_err(b),
        PacketModel::BattleListListCreate(j) => <String as Codeable>::enc_err(j),
        PacketModel::BattleCreateParameters(j) => <String as Codeable>::enc_err(j),
        _ => ProtocolError::GenericError,
    }
}

/// Whether the catalog holds a message with this id.
pub open spec fn catalog_has(id: u32) -> bool {
    1 <= id <= 23
}

/// The direction the catalog assigns to an id.
pub open spec fn catalog_direction(id: u32) -> PacketDirection {
    if id == ID_RESOURCE_LOADER_INITIALIZE_ENCRYPTION || id == ID_RESOURCE_LOADER_LOAD_DEPENDENCIES
        || id == ID_RESOURCE_LOADER_FINISHED || id == ID_RESOURCE_LOADER_REGISTER_RESOURCES || id
        == ID_PING_MEASURE_PING || id == ID_SERVER_SESSION_SYNC || id == ID_CAPTCHA_SHOW
        || id == ID_CAPTCHA_CAPTCHA_VALIDATED || id == ID_CAPTCHA_CAPTCHA_FAILED
        || id == ID_CAPTCHA_PARAMETERS || id == ID_SETTINGS_OPEN || id == ID_SETTINGS_CLOSE
        || id == ID_BATTLE_LIST_LIST_CREATE || id == ID_BATTLE_CREATE_PARAMETERS {
        PacketDirection::S2C
    } else if catalog_has(id) {
        PacketDirection::C2S
    } else {
        PacketDirection::Unknown
    }
}

/// What the payload bytes of a catalog message parse to: the packet model
/// and the bytes consumed, or nothing when the payload is malformed or the
/// id is not in the catalog.
pub open spec fn catalog_parse(id: u32, s: Seq<u8>) -> Option<(PacketModel, nat)> {
    if id == ID_RESOURCE_LOADER_INITIALIZE_ENCRYPTION {
        match <Vec<u8> as Codeable>::parse(s) {
            Some((m, k)) => Some((PacketModel::ResourceLoaderInitializeEncryption(m), k)),
            None => None,
        }
    } else if id == ID_RESOURCE_LOADER_ENCRYPTION_INITIALIZED {
        match <String as Codeable>::parse(s) {
            Some((m, k)) => Some((PacketModel::ResourceLoaderEncryptionInitialized(m), k)),
            None => None,
        }
    } else if id == ID_RESOURCE_LOADER_LOAD_DEPENDENCIES {
        match <i32 as Codeable>::parse(s) {
            Some((m, k)) => Some((PacketModel::ResourceLoaderLoadDependencies(m), k)),
            None => None,
        }
    } else if id == ID_RESOURCE_LOADER_DEPENDENCIES_LOADED {
        match <i32 as Codeable>::parse(s) {
            Some((m, k)) => Some((PacketModel::ResourceLoaderDependenciesLoaded(m), k)),
            None => None,
        }
    } else if id == ID_RESOURCE_LOADER_FINISHED {
        Some((PacketModel::ResourceLoaderFinished, 0 as nat))
    } else if id == ID_RESOURCE_LOADER_REGISTER_RESOURCES {
        match parse_pair::<i32, String>(s) {
            Some((m, k)) => Some((PacketModel::ResourceLoaderRegisterResources(m.0, m.1), k)),
            None => None,
        }
    } else if id == ID_RESOURCE_LOADER_RESOURCES_REGISTERED {
        match <i32 as Codeable>::parse(s) {
            Some((m, k)) => Some((PacketModel::ResourceLoaderResourcesRegistered(m), k)),
            None => None,
        }
    } else if id == ID_PING_MEASURE_PING {
        Some((PacketModel::PingMeasurePing, 0 as nat))
    } else if id == ID_PING_MEASURE_PONG {
        Some((PacketModel::PingMeasurePong, 0 as nat))
    } else if id == ID_SERVER_SESSION_SYNC {
        match <i32 as Codeable>::parse(s) {
            Some((m, k)) => Some((PacketModel::ServerSessionSync(m), k)),
            None => None,
        }
    } else if id == ID_SERVER_SESSION_SYNC_RESPONSE {
        match parse_pair::<i32, i32>(s) {
            Some((m, k)) => Some((PacketModel::ServerSessionSyncResponse(m.0, m.1), k)),
            None => None,
        }
    } else if id == ID_CAPTCHA_REQUEST_LOCATION {
        match <CaptchaLocation as Codeable>::parse(s) {
            Some((m, k)) => Some((PacketModel::CaptchaRequestLocation(m), k)),
            None => None,
        }
    } else if id == ID_CAPTCHA_SHOW {
        match parse_pair::<CaptchaLocation, Vec<u8>>(s) {
            Some((m, k)) => Some((PacketModel::CaptchaShow(m.0, m.1), k)),
            None => None,
        }
    } else if id == ID_CAPTCHA_VALIDATE_CAPTCHA {
        match parse_pair::<CaptchaLocation, String>(s) {
            Some((m, k)) => Some((PacketModel::CaptchaValidateCaptcha(m.0, m.1), k)),
            None => None,
        }
    } else if id == ID_CAPTCHA_CAPTCHA_VALIDATED {
        match <CaptchaLocation as Codeable>::parse(s) {
            Some((m, k)) => Some((PacketModel::CaptchaCaptchaValidated(m), k)),
            None => None,
        }
    } else if id == ID_CAPTCHA_CAPTCHA_FAILED {
        match parse_pair::<CaptchaLocation, Vec<u8>>(s) {
            Some((m, k)) => Some((PacketModel::CaptchaCaptchaFailed(m.0, m.1), k)),
            None => None,
        }
    } else if id == ID_CAPTCHA_PARAMETERS {
        match <Vec<CaptchaLocation> as Codeable>::parse(s) {
            Some((m, k)) => Some((PacketModel::CaptchaParameters(m), k)),
            None => None,
        }
    } else if id == ID_SETTINGS_REQUEST_OPEN {
        Some((PacketModel::SettingsRequestOpen, 0 as nat))
    } else if id == ID_SETTINGS_REQUEST_CLOSE {
        Some((PacketModel::SettingsRequestClose, 0 as nat))
    } else if id == ID_SETTINGS_OPEN {
        match <bool as Codeable>::parse(s) {
            Some((m, k)) => Some((PacketModel::SettingsOpen(m), k)),
            None => None,
        }
    } else if id == ID_SETTINGS_CLOSE {
        Some((PacketModel::SettingsClose, 0 as nat))
    } else if id == ID_BATTLE_LIST_LIST_CREATE {
        match <String as Codeable>::parse(s) {
            Some((m, k)) => Some((PacketModel::BattleListListCreate(m), k)),
            None => None,
        }
    } else if id == ID_BATTLE_CREATE_PARAMETERS {
        match <String as Codeable>::parse(s) {
            Some((m, k)) => Some((PacketModel::BattleCreateParameters(m), k)),
            None => None,
        }
    } else {
        None
    }
}

/// Classifies the decode error of a catalog message: the error of the first
/// field the payload stream refuses.
pub open spec fn catalog_dec_err(id: u32, s: Seq<u8>, e: ProtocolError) -> bool {
    if id == ID_RESOURCE_LOADER_INITIALIZE_ENCRYPTION {
        <Vec<u8> as Codeable>::dec_err(s, e)
    } else if id == ID_RESOURCE_LOADER_ENCRYPTION_INITIALIZED {
        <String as Codeable>::dec_err(s, e)
    } else if id == ID_RESOURCE_LOADER_LOAD_DEPENDENCIES {
        <i32 as Codeable>::dec_err(s, e)
    } else if id == ID_RESOURCE_LOADER_DEPENDENCIES_LOADED {
        <i32 as Codeable>::dec_err(s, e)
    } else if id == ID_RESOURCE_LOADER_REGISTER_RESOURCES {
        crate::codec::pair_dec_err::<i32, String>(s, e)
    } else if id == ID_RESOURCE_LOADER_RESOURCES_REGISTERED {
        <i32 as Codeable>::dec_err(s, e)
    } else if id == ID_SERVER_SESSION_SYNC {
        <i32 as Codeable>::dec_err(s, e)
    } else if id == ID_SERVER_SESSION_SYNC_RESPONSE {
        crate::codec::pair_dec_err::<i32, i32>(s, e)
    } else if id == ID_CAPTCHA_REQUEST_LOCATION {
        <CaptchaLocation as Codeable>::dec_err(s, e)
    } else if id == ID_CAPTCHA_SHOW {
        crate::codec::pair_dec_err::<CaptchaLocation, Vec<u8>>(s, e)
    } else if id == ID_CAPTCHA_VALIDATE_CAPTCHA {
        crate::codec::pair_dec_err::<CaptchaLocation, String>(s, e)
    } else if id == ID_CAPTCHA_CAPTCHA_VALIDATED {
        <CaptchaLocation as Codeable>::dec_err(s, e)
    } else if id == ID_CAPTCHA_CAPTCHA_FAILED {
        crate::codec::pair_dec_err::<CaptchaLocation, Vec<u8>>(s, e)
    } else if id == ID_CAPTCHA_PARAMETERS {
        <Vec<CaptchaLocation> as Codeable>::dec_err(s, e)
    } else if id == ID_SETTINGS_OPEN {
        <bool as Codeable>::dec_err(s, e)
    } else if id == ID_BATTLE_LIST_LIST_CREATE {
        <String as Codeable>::dec_err(s, e)
    } else if id == ID_BATTLE_CREATE_PARAMETERS {
        <String as Codeable>::dec_err(s, e)
    } else {
        e == ProtocolError::IOError
    }
}

/// Every message in the catalog round-trips: a valid model's payload bytes
/// parse back, under the model's own id, to the same model, consuming the
/// whole payload, whatever bytes follow it.
pub proof fn lemma_catalog_roundtrip(m: PacketModel, rest: Seq<u8>)
    requires
        packet_model_valid(m),
        !(m is Unknown),
    ensures
        catalog_parse(packet_model_id_of(m), packet_model_wire(m) + rest) == Some(
            (m, packet_model_wire(m).len()),
        ),
{
    match m {
        PacketModel::ResourceLoaderInitializeEncryption(d) => {
            <Vec<u8> as Codeable>::lemma_roundtrip(d, rest);
        },
        PacketModel::ResourceLoaderEncryptionInitialized(l) => {
            <String as Codeable>::lemma_roundtrip(l, rest);
        },
        PacketModel::ResourceLoaderLoadDependencies(c) => {
            <i32 as Codeable>::lemma_roundtrip(c, rest);
        },
        PacketModel::ResourceLoaderDependenciesLoaded(c) => {
            <i32 as Codeable>::lemma_roundtrip(c, rest);
        },
        PacketModel::ResourceLoaderRegisterResources(c, j) => {
            lemma_pair_roundtrip::<i32, String>(c, j, rest);
        },
        PacketModel::ResourceLoaderResourcesRegistered(c) => {
            <i32 as Codeable>::lemma_roundtrip(c, rest);
        },
        PacketModel::ServerSessionSync(t) => {
            <i32 as Codeable>::lemma_roundtrip(t, rest);
        },
        PacketModel::ServerSessionSyncResponse(c, t) => {
            lemma_pair_roundtrip::<i32, i32>(c, t, rest);
        },
        PacketModel::CaptchaRequestLocation(l) => {
            <CaptchaLocation as Codeable>::lemma_roundtrip(l, rest);
        },
        PacketModel::CaptchaShow(l, d) => {
            lemma_pair_roundtrip::<CaptchaLocation, Vec<u8>>(l, d, rest);
        },
        PacketModel::CaptchaValidateCaptcha(l, c) => {
            lemma_pair_roundtrip::<CaptchaLocation, String>(l, c, rest);
        },
        PacketModel::CaptchaCaptchaValidated(l) => {
            <CaptchaLocation as Codeable>::lemma_roundtrip(l, rest);
        },
        PacketModel::CaptchaCaptchaFailed(l, d) => {
            lemma_pair_roundtrip::<CaptchaLocation, Vec<u8>>(l, d, rest);
        },
        PacketModel::CaptchaParameters(ls) => {
            <Vec<CaptchaLocation> as Codeable>::lemma_roundtrip(ls, rest);
        },
        PacketModel::SettingsOpen(b) => {
            <bool as Codeable>::lemma_roundtrip(b, rest);
        },
        PacketModel::BattleListListCreate(j) => {
            <String as Codeable>::lemma_roundtrip(j, rest);
        },
        PacketModel::BattleCreateParameters(j) => {
            <String as Codeable>::lemma_roundtrip(j, rest);
        },
        _ => {
            assert(packet_model_wire(m) + rest =~= rest || packet_model_wire(m).len() == 0);
            assert(packet_model_wire(m) =~= Seq::<u8>::empty());
        },
    }
}

/// The models of a sequence of packets, in order.
pub open spec fn packet_models(s: Seq<Packet>) -> Seq<PacketModel> {
    Seq::new(s.len(), |i: int| s[i].model())
}

/// A decoded, typed packet: one variant per catalog entry, plus the opaque
/// carrier for unknown ids.
#[derive(Debug, Clone, PartialEq)]
pub enum Packet {
    ResourceLoaderInitializeEncryption(ResourceLoaderInitializeEncryption),
    ResourceLoaderEncryptionInitialized(ResourceLoaderEncryptionInitialized),
    ResourceLoaderLoadDependencies(ResourceLoaderLoadDependencies),
    ResourceLoaderDependenciesLoaded(ResourceLoaderDependenciesLoaded),
    ResourceLoaderFinished(ResourceLoaderFinished),
    ResourceLoaderRegisterResources(ResourceLoaderRegisterResources),
    ResourceLoaderResourcesRegistered(ResourceLoaderResourcesRegistered),
    PingMeasurePing(PingMeasurePing),
    PingMeasurePong(PingMeasurePong),
    ServerSessionSync(ServerSessionSync),
    ServerSessionSyncResponse(ServerSessionSyncResponse),
    CaptchaRequestLocation(CaptchaRequestLocation),
    CaptchaShow(CaptchaShow),
    CaptchaValidateCaptcha(CaptchaValidateCaptcha),
    CaptchaCaptchaValidated(CaptchaCaptchaValidated),
    CaptchaCaptchaFailed(CaptchaCaptchaFailed),
    CaptchaParameters(CaptchaParameters),
    SettingsRequestOpen(SettingsRequestOpen),
    SettingsRequestClose(SettingsRequestClose),
    SettingsOpen(SettingsOpen),
    SettingsClose(SettingsClose),
    BattleListListCreate(BattleListListCreate),
    BattleCreateParameters(BattleCreateParameters),
    Unknown(UnknownPacket),
}

impl Packet {
    /// The mathematical shape of this packet.
    pub open spec fn model(&self) -> PacketModel {
        match self {
            Packet::ResourceLoaderInitializeEncryption(
                p,
            ) => PacketModel::ResourceLoaderInitializeEncryption(p.protection_data.model()),
            Packet::ResourceLoaderEncryptionInitialized(
                p,
            ) => PacketModel::ResourceLoaderEncryptionInitialized(p.lang.model()),
            Packet::ResourceLoaderLoadDependencies(
                p,
            ) => PacketModel::ResourceLoaderLoadDependencies(p.callback_id),
            Packet::ResourceLoaderDependenciesLoaded(
                p,
            ) => PacketModel::ResourceLoaderDependenciesLoaded(p.callback_id),
            Packet::ResourceLoaderFinished(_) => PacketModel::ResourceLoaderFinished,
            Packet::ResourceLoaderRegisterResources(
                p,
            ) => PacketModel::ResourceLoaderRegisterResources(p.callback_id, p.json.model()),
            Packet::ResourceLoaderResourcesRegistered(
                p,
            ) => PacketModel::ResourceLoaderResourcesRegistered(p.callback_id),
            Packet::PingMeasurePing(_) => PacketModel::PingMeasurePing,
            Packet::PingMeasurePong(_) => PacketModel::PingMeasurePong,
            Packet::ServerSessionSync(p) => PacketModel::ServerSessionSync(p.server_session_time),
            Packet::ServerSessionSyncResponse(p) => PacketModel::ServerSessionSyncResponse(
                p.client_session_time,
                p.server_session_time,
            ),
            Packet::CaptchaRequestLocation(p) => PacketModel::CaptchaRequestLocation(p.location),
            Packet::CaptchaShow(p) => PacketModel::CaptchaShow(
                p.location,
                p.captcha_data.model(),
            ),
            Packet::CaptchaValidateCaptcha(p) => PacketModel::CaptchaValidateCaptcha(
                p.location,
                p.code.model(),
            ),
            Packet::CaptchaCaptchaValidated(p) => PacketModel::CaptchaCaptchaValidated(p.location),
            Packet::CaptchaCaptchaFailed(p) => PacketModel::CaptchaCaptchaFailed(
                p.location,
                p.new_captcha.model(),
            ),
            Packet::CaptchaParameters(p) => PacketModel::CaptchaParameters(p.init_params.model()),
            Packet::SettingsRequestOpen(_) => PacketModel::SettingsRequestOpen,
            Packet::SettingsRequestClose(_) => PacketModel::SettingsRequestClose,
            Packet::SettingsOpen(p) => PacketModel::SettingsOpen(p.notification_enabled),
            Packet::SettingsClose(_) => PacketModel::SettingsClose,
            Packet::BattleListListCreate(p) => PacketModel::BattleListListCreate(p.json.model()),
            Packet::BattleCreateParameters(p) => PacketModel::BattleCreateParameters(
                p.json.model(),
            ),
            Packet::Unknown(u) => PacketModel::Unknown(u.spec_packet_id(), u.spec_payload()),
        }
    }

    /// The wire id this packet travels under.
    pub fn packet_id(&self) -> (r: u32)
        ensures
            r == packet_model_id_of(self.model()),
    {
        match self {
            Packet::ResourceLoaderInitializeEncryption(
                _,
            ) => ID_RESOURCE_LOADER_INITIALIZE_ENCRYPTION,
            Packet::ResourceLoaderEncryptionInitialized(
                _,
            ) => ID_RESOURCE_LOADER_ENCRYPTION_INITIALIZED,
            Packet::ResourceLoaderLoadDependencies(_) => ID_RESOURCE_LOADER_LOAD_DEPENDENCIES,
            Packet::ResourceLoaderDependenciesLoaded(_) => ID_RESOURCE_LOADER_DEPENDENCIES_LOADED,
            Packet::ResourceLoaderFinished(_) => ID_RESOURCE_LOADER_FINISHED,
            Packet::ResourceLoaderRegisterResources(
                _,
            ) => ID_RESOURCE_LOADER_REGISTER_RESOURCES,
            Packet::ResourceLoaderResourcesRegistered(
                _,
            ) => ID_RESOURCE_LOADER_RESOURCES_REGISTERED,
            Packet::PingMeasurePing(_) => ID_PING_MEASURE_PING,
            Packet::PingMeasurePong(_) => ID_PING_MEASURE_PONG,
            Packet::ServerSessionSync(_) => ID_SERVER_SESSION_SYNC,
            Packet::ServerSessionSyncResponse(_) => ID_SERVER_SESSION_SYNC_RESPONSE,
            Packet::CaptchaRequestLocation(_) => ID_CAPTCHA_REQUEST_LOCATION,
            Packet::CaptchaShow(_) => ID_CAPTCHA_SHOW,
            Packet::CaptchaValidateCaptcha(_) => ID_CAPTCHA_VALIDATE_CAPTCHA,
            Packet::CaptchaCaptchaValidated(_) => ID_CAPTCHA_CAPTCHA_VALIDATED,
            Packet::CaptchaCaptchaFailed(_) => ID_CAPTCHA_CAPTCHA_FAILED,
            Packet::CaptchaParameters(_) => ID_CAPTCHA_PARAMETERS,
            Packet::SettingsRequestOpen(_) => ID_SETTINGS_REQUEST_OPEN,
            Packet::SettingsRequestClose(_) => ID_SETTINGS_REQUEST_CLOSE,
            Packet::SettingsOpen(_) => ID_SETTINGS_OPEN,
            Packet::SettingsClose(_) => ID_SETTINGS_CLOSE,
            Packet::BattleListListCreate(_) => ID_BATTLE_LIST_LIST_CREATE,
            Packet::BattleCreateParameters(_) => ID_BATTLE_CREATE_PARAMETERS,
            Packet::Unknown(u) => u.packet_id,
        }
    }

    /// The model id used by the log filters; unknown packets report the
    /// all-ones group.
    pub fn model_id(&self) -> (r: u32)
        ensures
            r == packet_model_group(self.model()),
    {
        match self {
            Packet::ResourceLoaderInitializeEncryption(_) => MODEL_RESOURCE_LOADER,
            Packet::ResourceLoaderEncryptionInitialized(_) => MODEL_RESOURCE_LOADER,
            Packet::ResourceLoaderLoadDependencies(_) => MODEL_RESOURCE_LOADER,
            Packet::ResourceLoaderDependenciesLoaded(_) => MODEL_RESOURCE_LOADER,
            Packet::ResourceLoaderFinished(_) => MODEL_RESOURCE_LOADER,
            Packet::ResourceLoaderRegisterResources(_) => MODEL_RESOURCE_LOADER,
            Packet::ResourceLoaderResourcesRegistered(_) => MODEL_RESOURCE_LOADER,
            Packet::PingMeasurePing(_) => MODEL_PING_MEASURE,
            Packet::PingMeasurePong(_) => MODEL_PING_MEASURE,
            Packet::ServerSessionSync(_) => MODEL_SERVER_SESSION,
            Packet::ServerSessionSyncResponse(_) => MODEL_SERVER_SESSION,
            Packet::CaptchaRequestLocation(_) => MODEL_CAPTCHA,
            Packet::CaptchaShow(_) => MODEL_CAPTCHA,
            Packet::CaptchaValidateCaptcha(_) => MODEL_CAPTCHA,
            Packet::CaptchaCaptchaValidated(_) => MODEL_CAPTCHA,
            Packet::CaptchaCaptchaFailed(_) => MODEL_CAPTCHA,
            Packet::CaptchaParameters(_) => MODEL_CAPTCHA,
            Packet::SettingsRequestOpen(_) => MODEL_SETTINGS,
            Packet::SettingsRequestClose(_) => MODEL_SETTINGS,
            Packet::SettingsOpen(_) => MODEL_SETTINGS,
            Packet::SettingsClose(_) => MODEL_SETTINGS,
            Packet::BattleListListCreate(_) => MODEL_BATTLE_LIST,
            Packet::BattleCreateParameters(_) => MODEL_BATTLE_LIST,
            Packet::Unknown(_) => 0xffffffff,
        }
    }

    /// The direction this packet travels in; an opaque packet reports the
    /// direction it was synthesized for.
    pub fn direction(&self) -> (r: PacketDirection)
        ensures
            !(self.model() is Unknown) ==> r == catalog_direction(packet_model_id_of(self.model())),
            self matches Packet::Unknown(u) ==> r == u.spec_direction(),
    {
        match self {
            Packet::Unknown(u) => u.direction,
            _ => {
                let id = self.packet_id();
                if id == ID_RESOURCE_LOADER_INITIALIZE_ENCRYPTION
                    || id == ID_RESOURCE_LOADER_LOAD_DEPENDENCIES || id
                    == ID_RESOURCE_LOADER_FINISHED || id == ID_RESOURCE_LOADER_REGISTER_RESOURCES
                    || id == ID_PING_MEASURE_PING || id == ID_SERVER_SESSION_SYNC || id
                    == ID_CAPTCHA_SHOW || id == ID_CAPTCHA_CAPTCHA_VALIDATED || id
                    == ID_CAPTCHA_CAPTCHA_FAILED || id == ID_CAPTCHA_PARAMETERS || id
                    == ID_SETTINGS_OPEN || id == ID_SETTINGS_CLOSE || id
                    == ID_BATTLE_LIST_LIST_CREATE || id == ID_BATTLE_CREATE_PARAMETERS {
                    PacketDirection::S2C
                } else {
                    PacketDirection::C2S
                }
            },
        }
    }

    /// Appends this packet's payload bytes; fails exactly when the packet
    /// cannot be represented on the wire, with the first failing field's
    /// error, leaving the writer untouched.
    pub fn encode_payload(&self, writer: &mut Vec<u8>) -> (r: Result<(), ProtocolError>)
        ensures
            r is Ok <==> packet_model_valid(self.model()),
            r is Ok ==> final(writer)@ == old(writer)@ + packet_model_wire(self.model()),
            r is Err ==> final(writer)@ == old(writer)@ && r == Err::<(), ProtocolError>(
                packet_model_enc_err(self.model()),
            ),
    {
        // The payload is framed in a scratch buffer so that a packet whose
        // encode fails partway leaves the writer untouched.
        let mut scratch: Vec<u8> = Vec::new();
        match self.encode_payload_fields(&mut scratch) {
            Ok(()) => {
                crate::codec::push_bytes(writer, scratch.as_slice());
                Ok(())
            },
            Err(e) => Err(e),
        }
    }

    /// Writes the payload fields in declaration order; on failure the writer
    /// may keep the fields already written.
    fn encode_payload_fields(&self, writer: &mut Vec<u8>) -> (r: Result<(), ProtocolError>)
        ensures
            r is Ok <==> packet_model_valid(self.model()),
            r is Ok ==> final(writer)@ == old(writer)@ + packet_model_wire(self.model()),
            r is Err ==> r == Err::<(), ProtocolError>(packet_model_enc_err(self.model())),
    {
        match self {
            Packet::ResourceLoaderInitializeEncryption(p) => p.protection_data.encode(writer),
            Packet::ResourceLoaderEncryptionInitialized(p) => p.lang.encode(writer),
            Packet::ResourceLoaderLoadDependencies(p) => p.callback_id.encode(writer),
            Packet::ResourceLoaderDependenciesLoaded(p) => p.callback_id.encode(writer),
            Packet::ResourceLoaderFinished(_) => {
                proof {
                    assert(writer@ =~= writer@ + Seq::<u8>::empty());
                }
                Ok(())
            },
            Packet::ResourceLoaderRegisterResources(p) => {
                match p.callback_id.encode(writer) {
                    Ok(()) => {},
                    Err(e) => {
                        return Err(e);
                    },
                }
                match p.json.encode(writer) {
                    Ok(()) => {},
                    Err(e) => {
                        return Err(e);
                    },
                }
                proof {
                    assert(writer@ =~= old(writer)@ + packet_model_wire(self.model()));
                }
                Ok(())
            },
            Packet::ResourceLoaderResourcesRegistered(p) => p.callback_id.encode(writer),
            Packet::PingMeasurePing(_) => {
                proof {
                    assert(writer@ =~= writer@ + Seq::<u8>::empty());
                }
                Ok(())
            },
            Packet::PingMeasurePong(_) => {
                proof {
                    assert(writer@ =~= writer@ + Seq::<u8>::empty());
                }
                Ok(())
            },
            Packet::ServerSessionSync(p) => p.server_session_time.encode(writer),
            Packet::ServerSessionSyncResponse(p) => {
                match p.client_session_time.encode(writer) {
                    Ok(()) => {},
                    Err(e) => {
                        return Err(e);
                    },
                }
                match p.server_session_time.encode(writer) {
                    Ok(()) => {},
                    Err(e) => {
                        return Err(e);
                    },
                }
                proof {
                    assert(writer@ =~= old(writer)@ + packet_model_wire(self.model()));
                }
                Ok(())
            },
            Packet::CaptchaRequestLocation(p) => p.location.encode(writer),
            Packet::CaptchaShow(p) => {
                match p.location.encode(writer) {
                    Ok(()) => {},
                    Err(e) => {
                        return Err(e);
                    },
                }
                match p.captcha_data.encode(writer) {
                    Ok(()) => {},
                    Err(e) => {
                        return Err(e);
                    },
                }
                proof {
                    assert(writer@ =~= old(writer)@ + packet_model_wire(self.model()));
                }
                Ok(())
            },
            Packet::CaptchaValidateCaptcha(p) => {
                match p.location.encode(writer) {
                    Ok(()) => {},
                    Err(e) => {
                        return Err(e);
                    },
                }
                match p.code.encode(writer) {
                    Ok(()) => {},
                    Err(e) => {
                        return Err(e);
                    },
                }
                proof {
                    assert(writer@ =~= old(writer)@ + packet_model_wire(self.model()));
                }
                Ok(())
            },
            Packet::CaptchaCaptchaValidated(p) => p.location.encode(writer),
            Packet::CaptchaCaptchaFailed(p) => {
                match p.location.encode(writer) {
                    Ok(()) => {},
                    Err(e) => {
                        return Err(e);
                    },
                }
                match p.new_captcha.encode(writer) {
                    Ok(()) => {},
                    Err(e) => {
                        return Err(e);
                    },
                }
                proof {
                    assert(writer@ =~= old(writer)@ + packet_model_wire(self.model()));
                }
                Ok(())
            },
            Packet::CaptchaParameters(p) => p.init_params.encode(writer),
            Packet::SettingsRequestOpen(_) => {
                proof {
                    assert(writer@ =~= writer@ + Seq::<u8>::empty());
                }
                Ok(())
            },
            Packet::SettingsRequestClose(_) => {
                proof {
                    assert(writer@ =~= writer@ + Seq::<u8>::empty());
                }
                Ok(())
            },
            Packet::SettingsOpen(p) => p.notification_enabled.encode(writer),
            Packet::SettingsClose(_) => {
                proof {
                    assert(writer@ =~= writer@ + Seq::<u8>::empty());
                }
                Ok(())
            },
            Packet::BattleListListCreate(p) => p.json.encode(writer),
            Packet::BattleCreateParameters(p) => p.json.encode(writer),
            Packet::Unknown(u) => {
                crate::codec::push_bytes(writer, u.payload.as_slice());
                Ok(())
            },
        }
    }
}

/// Every id in a registry's list names a catalog message.
pub open spec fn registered_ids_wf(ids: Seq<u32>) -> bool {
    forall|i: int| 0 <= i < ids.len() ==> catalog_has(#[trigger] ids[i])
}

/// The runtime registry of decodable message ids for one side of a
/// connection.
pub struct PacketRegistry {
    packets: Vec<u32>,
    decode_as_unknown: bool,
}

impl PacketRegistry {
    /// The set of ids this registry will decode as typed packets.
    pub closed spec fn spec_registered(&self) -> Seq<u32> {
        self.packets@
    }

    /// Whether unknown ids decode as opaque packets instead of failing.
    pub closed spec fn spec_allow_unknown(&self) -> bool {
        self.decode_as_unknown
    }

    /// Every registered id is a catalog id, each registered once.
    pub open spec fn wf(&self) -> bool {
        registered_ids_wf(self.spec_registered())
    }

    pub fn new() -> (r: PacketRegistry)
        ensures
            r.wf(),
            r.spec_registered() == Seq::<u32>::empty(),
            !r.spec_allow_unknown(),
    {
        PacketRegistry { packets: Vec::new(), decode_as_unknown: false }
    }

    /// From now on, ids outside the registry decode as opaque packets.
    pub fn allow_unknown_packets(&mut self)
        ensures
            final(self).spec_registered() == old(self).spec_registered(),
            final(self).spec_allow_unknown(),
    {
        self.decode_as_unknown = true;
    }

    /// Adds one catalog id. Registering the same id twice is a programmer
    /// error, so it is ruled out here rather than tolerated.
    pub fn register_packet(&mut self, packet_id: u32)
        requires
            old(self).wf(),
            catalog_has(packet_id),
            !old(self).spec_registered().contains(packet_id),
        ensures
            final(self).wf(),
            final(self).spec_registered() == old(self).spec_registered().push(packet_id),
            final(self).spec_allow_unknown() == old(self).spec_allow_unknown(),
    {
        self.packets.push(packet_id);
    }

    /// Whether an id has been registered.
    pub fn is_registered(&self, packet_id: u32) -> (r: bool)
        ensures
            r == self.spec_registered().contains(packet_id),
    {
        let mut i: usize = 0;
        while i < self.packets.len()
            invariant
                i <= self.packets@.len(),
                forall|j: int| 0 <= j < i ==> self.packets@[j] != packet_id,
        decreases self.packets@.len() - i,
        {
            if self.packets[i] == packet_id {
                return true;
            }
            i = i + 1;
        }
        false
    }

    /// Encodes a packet's payload; a packet whose id was never registered
    /// fails, as no codec is known for it.
    pub fn encode(&self, writer: &mut Vec<u8>, packet: &Packet) -> (r: Result<(), ProtocolError>)
        ensures
            r is Err ==> final(writer)@ == old(writer)@,
            !self.spec_registered().contains(packet_model_id_of(packet.model())) ==> r == Err::<
                (),
                ProtocolError,
            >(ProtocolError::GenericError),
            self.spec_registered().contains(packet_model_id_of(packet.model())) ==> {
                &&& r is Ok <==> packet_model_valid(packet.model())
                &&& r is Ok ==> final(writer)@ == old(writer)@ + packet_model_wire(packet.model())
                &&& r is Err ==> r == Err::<(), ProtocolError>(
                    packet_model_enc_err(packet.model()),
                )
            },
    {
        if !self.is_registered(packet.packet_id()) {
            return Err(ProtocolError::GenericError);
        }
        packet.encode_payload(writer)
    }

    /// Decodes the payload of one inbound frame.
    ///
    /// A registered id decodes exactly as `catalog_parse` says. An id that is
    /// not registered fails with `PacketUnknownId`, unless unknown packets
    /// are allowed, in which case the whole payload is kept as an opaque
    /// packet.
    pub fn decode(&self, reader: &mut Reader<'_>, packet_id: u32) -> (r: Result<
        Packet,
        ProtocolError,
    >)
        requires
            old(reader).wf(),
            self.wf(),
        ensures
            final(reader).wf(),
            final(reader).all() == old(reader).all(),
            self.spec_registered().contains(packet_id) ==> match catalog_parse(
                packet_id,
                old(reader).rem(),
            ) {
                Some(p) => {
                    &&& r matches Ok(pk) && pk.model() == p.0
                    &&& final(reader).pos() == old(reader).pos() + p.1
                },
                None => r matches Err(e) && catalog_dec_err(packet_id, old(reader).rem(), e),
            },
            !self.spec_registered().contains(packet_id) && self.spec_allow_unknown() ==> {
                &&& r matches Ok(pk) && pk.model() == PacketModel::Unknown(
                    packet_id,
                    old(reader).rem(),
                )
                &&& final(reader).rem().len() == 0
            },
            !self.spec_registered().contains(packet_id) && !self.spec_allow_unknown() ==> r == Err::<
                Packet,
                ProtocolError,
            >(ProtocolError::PacketUnknownId(packet_id as i32)) && final(reader).pos() == old(
                reader,
            ).pos(),
    {
        if !self.is_registered(packet_id) {
            if self.decode_as_unknown {
                let payload = reader.read_to_end();
                return Ok(
                    Packet::Unknown(UnknownPacket::new(PacketDirection::Unknown, packet_id, payload)),
                );
            } else {
                return Err(ProtocolError::PacketUnknownId(packet_id as i32));
            }
        }
        if packet_id == ID_RESOURCE_LOADER_INITIALIZE_ENCRYPTION {
            match <Vec<u8> as Codeable>::decode(reader) {
                Ok(protection_data) => Ok(
                    Packet::ResourceLoaderInitializeEncryption(
                        ResourceLoaderInitializeEncryption { protection_data },
                    ),
                ),
                Err(e) => Err(e),
            }
        } else if packet_id == ID_RESOURCE_LOADER_ENCRYPTION_INITIALIZED {
            match <String as Codeable>::decode(reader) {
                Ok(lang) => Ok(
                    Packet::ResourceLoaderEncryptionInitialized(
                        ResourceLoaderEncryptionInitialized { lang },
                    ),
                ),
                Err(e) => Err(e),
            }
        } else if packet_id == ID_RESOURCE_LOADER_LOAD_DEPENDENCIES {
            match <i32 as Codeable>::decode(reader) {
                Ok(callback_id) => Ok(
                    Packet::ResourceLoaderLoadDependencies(
                        ResourceLoaderLoadDependencies { callback_id },
                    ),
                ),
                Err(e) => Err(e),
            }
        } else if packet_id == ID_RESOURCE_LOADER_DEPENDENCIES_LOADED {
            match <i32 as Codeable>::decode(reader) {
                Ok(callback_id) => Ok(
                    Packet::ResourceLoaderDependenciesLoaded(
                        ResourceLoaderDependenciesLoaded { callback_id },
                    ),
                ),
                Err(e) => Err(e),
            }
        } else if packet_id == ID_RESOURCE_LOADER_FINISHED {
            Ok(Packet::ResourceLoaderFinished(ResourceLoaderFinished {}))
        } else if packet_id == ID_RESOURCE_LOADER_REGISTER_RESOURCES {
            match decode_pair::<i32, String>(reader) {
                Ok((callback_id, json)) => Ok(
                    Packet::ResourceLoaderRegisterResources(
                        ResourceLoaderRegisterResources { callback_id, json },
                    ),
                ),
                Err(e) => Err(e),
            }
        } else if packet_id == ID_RESOURCE_LOADER_RESOURCES_REGISTERED {
            match <i32 as Codeable>::decode(reader) {
                Ok(callback_id) => Ok(
                    Packet::ResourceLoaderResourcesRegistered(
                        ResourceLoaderResourcesRegistered { callback_id },
                    ),
                ),
                Err(e) => Err(e),
            }
        } else if packet_id == ID_PING_MEASURE_PING {
            Ok(Packet::PingMeasurePing(PingMeasurePing {}))
        } else if packet_id == ID_PING_MEASURE_PONG {
            Ok(Packet::PingMeasurePong(PingMeasurePong {}))
        } else if packet_id == ID_SERVER_SESSION_SYNC {
            match <i32 as Codeable>::decode(reader) {
                Ok(server_session_time) => Ok(
                    Packet::ServerSessionSync(ServerSessionSync { server_session_time }),
                ),
                Err(e) => Err(e),
            }
        } else if packet_id == ID_SERVER_SESSION_SYNC_RESPONSE {
            match decode_pair::<i32, i32>(reader) {
                Ok((client_session_time, server_session_time)) => Ok(
                    Packet::ServerSessionSyncResponse(
                        ServerSessionSyncResponse { client_session_time, server_session_time },
                    ),
                ),
                Err(e) => Err(e),
            }
        } else if packet_id == ID_CAPTCHA_REQUEST_LOCATION {
            match <CaptchaLocation as Codeable>::decode(reader) {
                Ok(location) => Ok(
                    Packet::CaptchaRequestLocation(CaptchaRequestLocation { location }),
                ),
                Err(e) => Err(e),
            }
        } else if packet_id == ID_CAPTCHA_SHOW {
            match decode_pair::<CaptchaLocation, Vec<u8>>(reader) {
                Ok((location, captcha_data)) => Ok(
                    Packet::CaptchaShow(CaptchaShow { location, captcha_data }),
                ),
                Err(e) => Err(e),
            }
        } else if packet_id == ID_CAPTCHA_VALIDATE_CAPTCHA {
            match decode_pair::<CaptchaLocation, String>(reader) {
                Ok((location, code)) => Ok(
                    Packet::CaptchaValidateCaptcha(CaptchaValidateCaptcha { location, code }),
                ),
                Err(e) => Err(e),
            }
        } else if packet_id == ID_CAPTCHA_CAPTCHA_VALIDATED {
            match <CaptchaLocation as Codeable>::decode(reader) {
                Ok(location) => Ok(
                    Packet::CaptchaCaptchaValidated(CaptchaCaptchaValidated { location }),
                ),
                Err(e) => Err(e),
            }
        } else if packet_id == ID_CAPTCHA_CAPTCHA_FAILED {
            match decode_pair::<CaptchaLocation, Vec<u8>>(reader) {
                Ok((location, new_captcha)) => Ok(
                    Packet::CaptchaCaptchaFailed(CaptchaCaptchaFailed { location, new_captcha }),
                ),
                Err(e) => Err(e),
            }
        } else if packet_id == ID_CAPTCHA_PARAMETERS {
            match <Vec<CaptchaLocation> as Codeable>::decode(reader) {
                Ok(init_params) => Ok(Packet::CaptchaParameters(CaptchaParameters { init_params })),
                Err(e) => Err(e),
            }
        } else if packet_id == ID_SETTINGS_REQUEST_OPEN {
            Ok(Packet::SettingsRequestOpen(SettingsRequestOpen {}))
        } else if packet_id == ID_SETTINGS_REQUEST_CLOSE {
            Ok(Packet::SettingsRequestClose(SettingsRequestClose {}))
        } else if packet_id == ID_SETTINGS_OPEN {
            match <bool as Codeable>::decode(reader) {
                Ok(notification_enabled) => Ok(
                    Packet::SettingsOpen(SettingsOpen { notification_enabled }),
                ),
                Err(e) => Err(e),
            }
        } else if packet_id == ID_SETTINGS_CLOSE {
            Ok(Packet::SettingsClose(SettingsClose {}))
        } else if packet_id == ID_BATTLE_LIST_LIST_CREATE {
            match <String as Codeable>::decode(reader) {
                Ok(json) => Ok(Packet::BattleListListCreate(BattleListListCreate { json })),
                Err(e) => Err(e),
            }
        } else if packet_id == ID_BATTLE_CREATE_PARAMETERS {
            match <String as Codeable>::decode(reader) {
                Ok(json) => Ok(Packet::BattleCreateParameters(BattleCreateParameters { json })),
                Err(e) => Err(e),
            }
        } else {
            proof {
                let regs = self.spec_registered();
                let i = choose|i: int| 0 <= i < regs.len() && regs[i] == packet_id;
                assert(catalog_has(regs[i]));
                assert(false);
            }
            Err(ProtocolError::PacketUnknownId(packet_id as i32))
        }
    }
}

/// Registers every catalog message that travels in the given direction, into
/// an empty registry.
pub fn register_all_packets(registry: &mut PacketRegistry, direction: PacketDirection)
    requires
        old(registry).wf(),
        old(registry).spec_registered() == Seq::<u32>::empty(),
    ensures
        final(registry).wf(),
        final(registry).spec_allow_unknown() == old(registry).spec_allow_unknown(),
        forall|id: u32|
            final(registry).spec_registered().contains(id) <==> (catalog_has(id)
                && catalog_direction(id) == direction),
{
    let mut id: u32 = 1;
    while id <= 23
        invariant
            old(registry).wf(),
            1 <= id <= 24,
            registry.wf(),
            registry.spec_allow_unknown() == old(registry).spec_allow_unknown(),
            forall|x: u32|
                registry.spec_registered().contains(x) <==> (1 <= x < id && catalog_has(x)
                    && catalog_direction(x) == direction),
        decreases 24 - id,
    {
        let dir = if id == ID_RESOURCE_LOADER_INITIALIZE_ENCRYPTION || id
            == ID_RESOURCE_LOADER_LOAD_DEPENDENCIES || id == ID_RESOURCE_LOADER_FINISHED || id
            == ID_RESOURCE_LOADER_REGISTER_RESOURCES || id == ID_PING_MEASURE_PING || id
            == ID_SERVER_SESSION_SYNC || id == ID_CAPTCHA_SHOW || id
            == ID_CAPTCHA_CAPTCHA_VALIDATED || id == ID_CAPTCHA_CAPTCHA_FAILED || id
            == ID_CAPTCHA_PARAMETERS || id == ID_SETTINGS_OPEN || id == ID_SETTINGS_CLOSE || id
            == ID_BATTLE_LIST_LIST_CREATE || id == ID_BATTLE_CREATE_PARAMETERS {
            PacketDirection::S2C
        } else {
            PacketDirection::C2S
        };
        let matches_direction = match (dir, direction) {
            (PacketDirection::S2C, PacketDirection::S2C) => true,
            (PacketDirection::C2S, PacketDirection::C2S) => true,
            _ => false,
        };
        if matches_direction {
            let ghost before = registry.spec_registered();
            registry.register_packet(id);
            proof {
                assert forall|x: u32|
                    registry.spec_registered().contains(x) <==> (before.contains(x) || x
                        == id) by {
                    vstd::seq_lib::lemma_seq_contains_after_push(before, id, x);
                }
            }
        }
        id = id + 1;
    }
}

} // verus!

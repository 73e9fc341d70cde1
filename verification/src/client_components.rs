//! Per-client components of the server: small observers that answer one
//! concern each — settings, the battle list, the login kick-off.
//!
//! Components never perform I/O; they hand back the packets to send. Data
//! that lives outside the core — the battle list and map descriptions as
//! JSON documents — is given to them ready-made.

use vstd::prelude::*;

use crate::packets::{
    BattleCreateParameters, BattleListListCreate, Packet, PacketModel, ResourceLoaderFinished,
    SettingsClose, SettingsOpen,
};

verus! {

/// Answers the settings dialog: opening reports the notification switch,
/// closing is acknowledged.
pub struct SettingsDialog {}

impl SettingsDialog {
    pub fn new() -> (r: SettingsDialog) {
        SettingsDialog {}
    }

    /// The packets answering one inbound packet: a request to open the
    /// dialog is answered with its state, a request to close with the
    /// acknowledgement; anything else is ignored.
    pub fn on_packet(&self, packet: &Packet) -> (r: Vec<Packet>)
        ensures
            match packet {
                Packet::SettingsRequestOpen(_) => r@.len() == 1 && r@[0].model()
                    == PacketModel::SettingsOpen(true),
                Packet::SettingsRequestClose(_) => r@.len() == 1 && r@[0].model()
                    == PacketModel::SettingsClose,
                _ => r@.len() == 0,
            },
    {
        let mut out: Vec<Packet> = Vec::new();
        match packet {
            Packet::SettingsRequestOpen(_) => {
                out.push(Packet::SettingsOpen(SettingsOpen { notification_enabled: true }));
            },
            Packet::SettingsRequestClose(_) => {
                out.push(Packet::SettingsClose(SettingsClose {}));
            },
            _ => {},
        }
        out
    }
}

/// Kicks the login flow off: once the driver has the authentication
/// resources in place, the client is told the loader is finished, which
/// shows the login screen.
pub struct LoginKickoff {}

impl LoginKickoff {
    pub fn new() -> (r: LoginKickoff) {
        LoginKickoff {}
    }

    /// The packet that shows the login screen, sent when the driver reports
    /// the authentication resources loaded.
    pub fn initialize(&self) -> (r: Packet)
        ensures
            r.model() == PacketModel::ResourceLoaderFinished,
    {
        Packet::ResourceLoaderFinished(ResourceLoaderFinished {})
    }
}

/// Sends the battle list when a client arrives in the lobby. The list is a
/// JSON document prepared by the battle provider.
pub struct ClientBattleList {
    json: String,
}

impl ClientBattleList {
    /// The battle list document this component announces.
    pub closed spec fn spec_json(&self) -> Seq<char> {
        self.json@
    }

    pub fn new(json: String) -> (r: ClientBattleList)
        ensures
            r.spec_json() == json@,
    {
        ClientBattleList { json }
    }

    /// The packet carrying the battle list.
    pub fn initialize(&self) -> (r: Packet)
        ensures
            r.model() == PacketModel::BattleListListCreate(self.spec_json()),
    {
        Packet::BattleListListCreate(BattleListListCreate { json: self.json.clone() })
    }
}

/// Subscribes a client to one battle's updates.
pub struct ClientBattleInfo {}

/// Offers battle creation: the client is sent the map catalog as a JSON
/// document.
pub struct ClientBattleCreate {
    json: String,
}

impl ClientBattleCreate {
    /// The map catalog document this component announces.
    pub closed spec fn spec_json(&self) -> Seq<char> {
        self.json@
    }

    pub fn new(json: String) -> (r: ClientBattleCreate)
        ensures
            r.spec_json() == json@,
    {
        ClientBattleCreate { json }
    }

    /// The packet carrying the map catalog.
    pub fn initialize(&self) -> (r: Packet)
        ensures
            r.model() == PacketModel::BattleCreateParameters(self.spec_json()),
    {
        Packet::BattleCreateParameters(BattleCreateParameters { json: self.json.clone() })
    }
}

} // verus!

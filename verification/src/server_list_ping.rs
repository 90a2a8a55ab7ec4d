//! The server list ping payload: what a client shows in its server list.
//! The document travels as JSON inside one length-prefixed string; turning
//! it into JSON is the embedding program's job, this crate holds the data
//! model and frames the serialized text (see
//! `packets::status::write_status_response_json`).

use vstd::prelude::*;

use crate::text::TextComponent;

verus! {

/// The `version` field of the server list ping document.
#[derive(Debug, Clone)]
pub struct ServerListPingVersion {
    /// Name of the version, usually the version string itself.
    pub name: String,
    /// The protocol number the server supports.
    pub protocol: u32,
}

/// A single player of the `sample` array.
#[derive(Debug, Clone)]
pub struct ServerListPingPlayer {
    /// UUID of the player.
    pub id: String,
    /// Nickname of the player.
    pub name: String,
}

/// The `players` field of the server list ping document.
#[derive(Debug, Clone)]
pub struct ServerListPingPlayers {
    /// Maximum amount of players the server accepts. Can be negative.
    pub max: i32,
    /// Amount of online players. Can be negative.
    pub online: i32,
    /// A sample of the online players.
    pub sample: Vec<ServerListPingPlayer>,
}

/// The full server list ping document.
#[derive(Debug)]
pub struct ServerListPing {
    /// The server's version details.
    pub version: ServerListPingVersion,
    /// Details about the server's players.
    pub players: Option<ServerListPingPlayers>,
    /// The server's message of the day, as a text component.
    pub description: Option<TextComponent>,
    /// The server's 64x64 icon, base64-encoded.
    pub favicon: Option<String>,
    /// Whether the server enforces secure chat.
    pub enforces_secure_chat: Option<bool>,
}

} // verus!

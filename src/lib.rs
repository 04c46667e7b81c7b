//! Handshake of a Bitcoin-style peer-to-peer wire protocol: frame codec,
//! message catalog, per-connection handshake state machine, and the retry
//! decisions of a multi-peer orchestrator.
use vstd::prelude::*;

pub mod bytes;
pub mod checksum;
pub mod error;
pub mod codec;
pub mod catalog;
pub mod session;
pub mod retry;
pub mod config;

pub use checksum::calculate_checksum;
pub use codec::{decode_message, payload_length, send_message};
pub use catalog::{create_verack_message, create_version_message, create_wtxidrelay_message, serialize_network_address, version_message_at, NetAddress};
pub use error::{ConnectFailure, HandshakeError};
pub use config::HandTool;

verus! {

/// Network identifier of the test network.
pub const TESTNET_MAGIC: u32 = 0x0B110907;

/// Protocol version announced in our `version` message.
pub const PROTOCOL_VERSION: i32 = 70228;

/// Block height announced in our `version` message.
pub const START_HEIGHT: i32 = 2_600_000;

/// Service bit: full node.
pub const NODE_NETWORK: u64 = 0x01;

/// Service bit: serves witness data.
pub const NODE_WITNESS: u64 = 0x08;

/// Service bit: serves recent blocks only.
pub const NODE_NETWORK_LIMITED: u64 = 0x400;

/// One message of the wire protocol.
#[derive(Debug)]
pub struct Message {
    pub magic: u32,
    pub command: String,
    pub payload: Vec<u8>,
    pub checksum: [u8; 4],
}

/// Mathematical view of a [`Message`].
pub struct MessageView {
    pub magic: u32,
    pub command: Seq<char>,
    pub payload: Seq<u8>,
    pub checksum: Seq<u8>,
}

impl View for Message {
    type V = MessageView;

    open spec fn view(&self) -> MessageView {
        MessageView {
            magic: self.magic,
            command: self.command@,
            payload: self.payload@,
            checksum: self.checksum@,
        }
    }
}

} // verus!

//! The three messages of the handshake: `version`, `verack` and `wtxidrelay`.
use vstd::prelude::*;
use vstd::utf8::encode_utf8;
use crate::bytes::{be_u16, be_u32, be_u64, push_all, push_be_u16, push_be_u32, push_be_u64};
use crate::checksum::{calculate_checksum, checksum_of};
use crate::error::HandshakeError;
use crate::{Message, MessageView, NODE_NETWORK, NODE_NETWORK_LIMITED, NODE_WITNESS, TESTNET_MAGIC};

verus! {

/// Services we announce: full node, witness data, recent blocks.
pub const SERVICES: u64 = 0x409;

/// Lowest protocol version whose `version` message carries the relay flag.
pub const RELAY_MIN_VERSION: i32 = 70001;

/// The user agent we announce.
pub const USER_AGENT: &'static str = "/Satoshi:25.0.0/";

/// An IP endpoint, as the `version` message carries it.
#[derive(Debug, Clone, Copy, PartialEq, Eq)]
pub enum NetAddress {
    /// An IPv4 address and port.
    V4([u8; 4], u16),
    /// An IPv6 address and port.
    V6([u8; 16], u16),
}

impl NetAddress {
    pub open spec fn spec_port(self) -> u16 {
        match self {
            NetAddress::V4(_, port) => port,
            NetAddress::V6(_, port) => port,
        }
    }

    /// The sixteen address bytes: IPv4 mapped into IPv6, IPv6 as it is.
    pub open spec fn ip_bytes(self) -> Seq<u8> {
        match self {
            NetAddress::V4(octets, _) => Seq::new(10, |i: int| 0u8) + seq![0xffu8, 0xffu8] + octets@,
            NetAddress::V6(octets, _) => octets@,
        }
    }

    /// The unspecified IPv4 endpoint `0.0.0.0:0`.
    pub fn unspecified() -> (r: NetAddress)
        ensures
            r == (NetAddress::V4([0u8, 0u8, 0u8, 0u8], 0)),
    {
        NetAddress::V4([0u8, 0u8, 0u8, 0u8], 0)
    }
}

/// The 26-byte network address field: services, address, port.
pub open spec fn net_address_bytes(addr: NetAddress, services: u64) -> Seq<u8> {
    be_u64(services) + addr.ip_bytes() + be_u16(addr.spec_port())
}

/// Encodes an endpoint and its services as a network address field.
pub fn serialize_network_address(addr: &NetAddress, services: u64) -> (r: Vec<u8>)
    ensures
        r@ == net_address_bytes(*addr, services),
        r@.len() == 26,
{
    let mut buf: Vec<u8> = Vec::new();
    push_be_u64(&mut buf, services);
    let port = match addr {
        NetAddress::V4(octets, port) => {
            let mut i: usize = 0;
            while i < 10
                invariant
                    0 <= i <= 10,
                    buf@ == be_u64(services) + Seq::new(i as nat, |k: int| 0u8),
                decreases 10 - i,
            {
                buf.push(0u8);
                i = i + 1;
                assert(buf@ =~= be_u64(services) + Seq::new(i as nat, |k: int| 0u8));
            }
            buf.push(0xffu8);
            buf.push(0xffu8);
            push_all(&mut buf, octets.as_slice());
            assert(buf@ =~= be_u64(services) + addr.ip_bytes());
            *port
        },
        NetAddress::V6(octets, port) => {
            push_all(&mut buf, octets.as_slice());
            *port
        },
    };
    push_be_u16(&mut buf, port);
    buf
}

/// The `version` payload for the given fields.
pub open spec fn version_payload(
    target: NetAddress,
    start_height: i32,
    protocol_version: i32,
    relay: bool,
    timestamp: i64,
    nonce: u64,
) -> Seq<u8> {
    let ua = encode_utf8(USER_AGENT@);
    be_u32(protocol_version as u32) + be_u64(SERVICES) + be_u64(timestamp as u64)
        + net_address_bytes(target, SERVICES) + net_address_bytes(
        NetAddress::V4([0u8, 0u8, 0u8, 0u8], 0),
        SERVICES,
    ) + be_u64(nonce) + seq![ua.len() as u8] + ua + be_u32(start_height as u32) + if protocol_version
        >= RELAY_MIN_VERSION {
        seq![if relay { 1u8 } else { 0u8 }]
    } else {
        Seq::<u8>::empty()
    }
}

/// A message with our network identifier, the given command and payload, and
/// the payload's checksum.
pub open spec fn outgoing(command: Seq<char>, payload: Seq<u8>) -> MessageView {
    MessageView { magic: TESTNET_MAGIC, command, payload, checksum: checksum_of(payload) }
}

/// Builds the `version` message with the given timestamp and nonce.
///
/// The relay flag is carried only from protocol version 70001 on; below that
/// it is left out, whatever `relay` asks.
pub fn version_message_at(
    target: &NetAddress,
    start_height: i32,
    protocol_version: i32,
    relay: bool,
    timestamp: i64,
    nonce: u64,
) -> (r: Result<Message, HandshakeError>)
    ensures
        start_height < 0 ==> r == Err::<Message, HandshakeError>(HandshakeError::InvalidArgument),
        start_height >= 0 ==> (r matches Ok(m) && m@ == outgoing(
            "version"@,
            version_payload(*target, start_height, protocol_version, relay, timestamp, nonce),
        )),
{
    if start_height < 0 {
        return Err(HandshakeError::InvalidArgument);
    }
    let services = NODE_NETWORK | NODE_WITNESS | NODE_NETWORK_LIMITED;
    assert(NODE_NETWORK | NODE_WITNESS | NODE_NETWORK_LIMITED == SERVICES) by (bit_vector);
    let ua = USER_AGENT.as_bytes();
    let addr_recv = serialize_network_address(target, services);
    let addr_from = serialize_network_address(&NetAddress::unspecified(), services);
    let mut payload: Vec<u8> = Vec::new();
    push_be_u32(&mut payload, protocol_version as u32);
    push_be_u64(&mut payload, services);
    push_be_u64(&mut payload, timestamp as u64);
    push_all(&mut payload, addr_recv.as_slice());
    push_all(&mut payload, addr_from.as_slice());
    push_be_u64(&mut payload, nonce);
    payload.push(ua.len() as u8);
    push_all(&mut payload, ua);
    push_be_u32(&mut payload, start_height as u32);
    if protocol_version >= RELAY_MIN_VERSION {
        payload.push(if relay { 1u8 } else { 0u8 });
    }
    assert(payload@ =~= version_payload(*target, start_height, protocol_version, relay, timestamp, nonce));
    let checksum = calculate_checksum(payload.as_slice());
    Ok(Message { magic: TESTNET_MAGIC, command: String::from_str("version"), payload, checksum })
}

/// Relies on `std::time::SystemTime::duration_since(UNIX_EPOCH)` of the time
/// now: whole seconds since the Unix epoch, or `None` when the clock reads
/// earlier. Nothing is known of the value itself.
#[verifier::external_body]
fn unix_time_secs() -> (r: Option<u64>) {
    std::time::SystemTime::now().duration_since(std::time::UNIX_EPOCH).ok().map(|d| d.as_secs())
}

/// Relies on `rand::random` for a `u64`, drawn from the thread-local generator.
/// Nothing can be promised of the value.
#[verifier::external_body]
fn random_nonce() -> (r: u64) {
    rand::random::<u64>()
}

/// Builds our `version` message for `target`, stamped with the time now and a
/// fresh random nonce.
pub fn create_version_message(
    target: &NetAddress,
    start_height: i32,
    protocol_version: i32,
    relay: bool,
) -> (r: Result<Message, HandshakeError>)
    ensures
        start_height < 0 <==> r == Err::<Message, HandshakeError>(HandshakeError::InvalidArgument),
        match r {
            Ok(m) => exists|timestamp: i64, nonce: u64|
                m@ == outgoing(
                    "version"@,
                    version_payload(*target, start_height, protocol_version, relay, timestamp, nonce),
                ),
            Err(e) => e == HandshakeError::InvalidArgument || e == HandshakeError::Clock,
        },
{
    if start_height < 0 {
        return Err(HandshakeError::InvalidArgument);
    }
    let secs = match unix_time_secs() {
        Some(s) => s,
        None => {
            return Err(HandshakeError::Clock);
        },
    };
    let nonce = random_nonce();
    version_message_at(target, start_height, protocol_version, relay, secs as i64, nonce)
}

/// Builds a message with an empty payload.
fn empty_message(command: &str) -> (r: Message)
    ensures
        r@ == outgoing(command@, Seq::<u8>::empty()),
{
    let payload: Vec<u8> = Vec::new();
    let checksum = calculate_checksum(payload.as_slice());
    Message { magic: TESTNET_MAGIC, command: String::from_str(command), payload, checksum }
}

/// The acknowledgement of a peer's `version`.
pub fn create_verack_message() -> (r: Message)
    ensures
        r@ == outgoing("verack"@, Seq::<u8>::empty()),
{
    empty_message("verack")
}

/// The opt-in to transaction relay by witness id.
pub fn create_wtxidrelay_message() -> (r: Message)
    ensures
        r@ == outgoing("wtxidrelay"@, Seq::<u8>::empty()),
{
    empty_message("wtxidrelay")
}

/// Relay-flag gating: below protocol version 70001 the `version` payload
/// ends with the start height, whatever `relay` asks; from 70001 on it has one
/// more byte, the relay flag, which is 1 exactly when relay was asked for.
pub proof fn lemma_relay_flag_gating(
    target: NetAddress,
    start_height: i32,
    protocol_version: i32,
    relay: bool,
    timestamp: i64,
    nonce: u64,
)
    ensures
        ({
            let p = version_payload(target, start_height, protocol_version, relay, timestamp, nonce);
            let ua_len = encode_utf8(USER_AGENT@).len();
            &&& protocol_version < RELAY_MIN_VERSION ==> p.len() == 85 + ua_len
                && p.subrange(p.len() - 4, p.len() as int) == be_u32(start_height as u32)
            &&& protocol_version >= RELAY_MIN_VERSION ==> p.len() == 86 + ua_len
                && p.last() == (if relay { 1u8 } else { 0u8 })
        }),
{
    let p = version_payload(target, start_height, protocol_version, relay, timestamp, nonce);
    let ua = encode_utf8(USER_AGENT@);
    let unspec = NetAddress::V4([0u8, 0u8, 0u8, 0u8], 0);
    let body = be_u32(protocol_version as u32) + be_u64(SERVICES) + be_u64(timestamp as u64)
        + net_address_bytes(target, SERVICES) + net_address_bytes(unspec, SERVICES) + be_u64(nonce)
        + seq![ua.len() as u8] + ua;
    let tail = be_u32(start_height as u32);
    assert(target.ip_bytes().len() == 16);
    assert(unspec.ip_bytes().len() == 16);
    if protocol_version < RELAY_MIN_VERSION {
        assert(p =~= body + tail);
        assert(p.subrange(p.len() - 4, p.len() as int) =~= tail);
    } else {
        assert(p =~= body + tail + seq![if relay { 1u8 } else { 0u8 }]);
    }
}

} // verus!

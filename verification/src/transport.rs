//! The decision half of the transport tasks: routing outbound envelopes to
//! peer addresses and turning raw inbound bytes into envelopes.
//!
//! The socket loops themselves live in the embedding program; they call in
//! here with plain bytes and addresses, so every routing and authenticity
//! decision is made by verified code.

use vstd::prelude::*;

use crate::codec::{copy_bytes, dec_packet, decode_packet, CodecError};
use crate::ids::Uuid;
use crate::msg::{
    Client, NetAddr, NetworkPacketIn, NetworkPacketOut, NetworkProtocol, PacketInView,
    PacketOutView, RawMessageView, RawNetworkMessage, RawNetworkMessagePacket, RawPacketView,
};
use crate::registry::{Registry, Session};

verus! {

/// Why an outbound envelope was not routed: its addressee has no session.
/// The message is dropped and the event logged by the caller.
#[derive(Clone, Copy, PartialEq, Eq, Structural, Debug)]
pub enum RouteError {
    UnknownDestination,
}

/// Why an inbound datagram was discarded.
#[derive(Clone, Copy, PartialEq, Eq, Structural, Debug)]
pub enum DatagramError {
    /// The source address has no registered session.  Discarded silently —
    /// no reply, to avoid amplification — and it never reaches a handler.
    UnknownSender,
    /// The bytes are not an encoding of this codec.
    Malformed,
}

/// One outbound envelope bound for one peer address.
pub open spec fn raw_to(addr: NetAddr, pkt: PacketOutView) -> RawMessageView {
    RawMessageView {
        addr,
        packet: RawPacketView { message_type: pkt.message_type, payload: pkt.data },
    }
}

/// The same envelope bound for every registered session, in table order.
pub open spec fn broadcast_msgs(sessions: Seq<Session>, pkt: PacketOutView) -> Seq<RawMessageView> {
    sessions.map(|_i: int, s: Session| raw_to(s.addr, pkt))
}

/// The spec-level contents of a list of raw messages.
pub open spec fn raw_views(s: Seq<RawNetworkMessage>) -> Seq<RawMessageView> {
    s.map(|_i: int, m: RawNetworkMessage| m@)
}

/// Routes one outbound envelope on the server.  A nil `net_id` broadcasts
/// to every registered client; any other addresses the one client it names,
/// and an addressee without a session is an unknown destination: the
/// message is dropped.
pub fn server_route_outbound(reg: &Registry, pkt: &NetworkPacketOut) -> (r: Result<
    Vec<RawNetworkMessage>,
    RouteError,
>)
    ensures
        match r {
            Ok(v) => if pkt.net_id == Uuid::nil_id() {
                raw_views(v@) == broadcast_msgs(reg.sessions(), pkt@)
            } else {
                &&& reg.has_id(pkt.net_id)
                &&& v@.len() == 1
                &&& exists|i: int|
                    0 <= i < reg.sessions().len()
                        && (#[trigger] reg.sessions()[i]).player.client_id == pkt.net_id
                        && raw_views(v@)[0] == raw_to(reg.sessions()[i].addr, pkt@)
            },
            Err(RouteError::UnknownDestination) => pkt.net_id != Uuid::nil_id() && !reg.has_id(
                pkt.net_id,
            ),
        },
{
    if pkt.net_id.is_nil() {
        let mut v: Vec<RawNetworkMessage> = Vec::new();
        proof {
            assert(raw_views(v@) =~= broadcast_msgs(reg.sessions().take(0), pkt@));
        }
        let n = reg.len();
        let mut k: usize = 0;
        while k < n
            invariant
                n == reg.sessions().len(),
                k <= n,
                raw_views(v@) == broadcast_msgs(reg.sessions().take(k as int), pkt@),
            decreases n - k,
        {
            let s = reg.session_at(k);
            let ghost vs = raw_views(v@);
            let m = RawNetworkMessage {
                addr: s.addr,
                packet: RawNetworkMessagePacket {
                    message_type: pkt.message_type.clone(),
                    payload: copy_bytes(&pkt.data),
                },
            };
            v.push(m);
            proof {
                assert(raw_views(v@) =~= vs.push(raw_to(s.addr, pkt@)));
                assert(broadcast_msgs(reg.sessions().take(k + 1), pkt@) =~= broadcast_msgs(
                    reg.sessions().take(k as int),
                    pkt@,
                ).push(raw_to(reg.sessions()[k as int].addr, pkt@)));
            }
            k = k + 1;
        }
        proof {
            assert(reg.sessions().take(n as int) =~= reg.sessions());
        }
        Ok(v)
    } else {
        match reg.addr_of_id(pkt.net_id) {
            Some(addr) => {
                let mut v: Vec<RawNetworkMessage> = Vec::new();
                v.push(
                    RawNetworkMessage {
                        addr,
                        packet: RawNetworkMessagePacket {
                            message_type: pkt.message_type.clone(),
                            payload: copy_bytes(&pkt.data),
                        },
                    },
                );
                proof {
                    assert(raw_views(v@)[0] == v@[0]@);
                }
                Ok(v)
            },
            None => Err(RouteError::UnknownDestination),
        }
    }
}

/// Routes one outbound envelope on a client: everything goes to the server.
pub fn client_route_outbound(server_addr: NetAddr, pkt: &NetworkPacketOut) -> (r:
    RawNetworkMessage)
    ensures
        r@ == raw_to(server_addr, pkt@),
{
    RawNetworkMessage {
        addr: server_addr,
        packet: RawNetworkMessagePacket {
            message_type: pkt.message_type.clone(),
            payload: copy_bytes(&pkt.data),
        },
    }
}

/// Accepts one framed packet read from the server's reliable stream.  The
/// sender is resolved by address; an address without a session yet (as
/// during its own handshake) is tagged with the nil identity.
pub fn server_accept_stream(reg: &Registry, addr: NetAddr, bytes: &[u8]) -> (r: Result<
    NetworkPacketIn,
    CodecError,
>)
    ensures
        match r {
            Ok(p) => {
                &&& match dec_packet(bytes@) {
                    Some(raw) => p@.message_type == raw.message_type && p@.data == raw.payload,
                    None => false,
                }
                &&& p@.protocol == NetworkProtocol::TCP
                &&& p@.client.addr == addr
                &&& (reg.has_addr(addr) ==> exists|i: int|
                    0 <= i < reg.sessions().len() && (#[trigger] reg.sessions()[i]).addr == addr
                        && reg.sessions()[i].player.client_id == p@.client.client_id)
                &&& (!reg.has_addr(addr) ==> p@.client.client_id == Uuid::nil_id())
            },
            Err(_) => dec_packet(bytes@) is None,
        },
{
    match decode_packet(bytes) {
        Ok(raw) => {
            let client = reg.resolve_stream(addr);
            Ok(
                NetworkPacketIn {
                    client,
                    message_type: raw.message_type,
                    protocol: NetworkProtocol::TCP,
                    data: raw.payload,
                },
            )
        },
        Err(e) => Err(e),
    }
}

/// Accepts one datagram on the server's unreliable socket.  A datagram from
/// an unregistered address is discarded before anything is decoded: it
/// never reaches any simulation-domain handler, and nothing is sent back.
pub fn server_accept_datagram(reg: &Registry, addr: NetAddr, bytes: &[u8]) -> (r: Result<
    NetworkPacketIn,
    DatagramError,
>)
    ensures
        match r {
            Ok(p) => {
                &&& reg.has_addr(addr)
                &&& match dec_packet(bytes@) {
                    Some(raw) => p@.message_type == raw.message_type && p@.data == raw.payload,
                    None => false,
                }
                &&& p@.protocol == NetworkProtocol::UDP
                &&& p@.client.addr == addr
                &&& exists|i: int|
                    0 <= i < reg.sessions().len() && (#[trigger] reg.sessions()[i]).addr == addr
                        && reg.sessions()[i].player.client_id == p@.client.client_id
            },
            Err(DatagramError::UnknownSender) => !reg.has_addr(addr),
            Err(DatagramError::Malformed) => reg.has_addr(addr) && dec_packet(bytes@) is None,
        },
{
    match reg.resolve_datagram(addr) {
        Some(client) => match decode_packet(bytes) {
            Ok(raw) => Ok(
                NetworkPacketIn {
                    client,
                    message_type: raw.message_type,
                    protocol: NetworkProtocol::UDP,
                    data: raw.payload,
                },
            ),
            Err(_) => Err(DatagramError::Malformed),
        },
        None => Err(DatagramError::UnknownSender),
    }
}

/// Accepts one packet read by a client, on either transport.  The sender is
/// always the server; the envelope is tagged with this client's own
/// identity, as far as it has been assigned.
pub fn client_accept(self_client: Client, protocol: NetworkProtocol, bytes: &[u8]) -> (r: Result<
    NetworkPacketIn,
    CodecError,
>)
    ensures
        match r {
            Ok(p) => {
                &&& match dec_packet(bytes@) {
                    Some(raw) => p@.message_type == raw.message_type && p@.data == raw.payload,
                    None => false,
                }
                &&& p@.client == self_client
                &&& p@.protocol == protocol
            },
            Err(_) => dec_packet(bytes@) is None,
        },
{
    match decode_packet(bytes) {
        Ok(raw) => Ok(
            NetworkPacketIn {
                client: self_client,
                message_type: raw.message_type,
                protocol,
                data: raw.payload,
            },
        ),
        Err(e) => Err(e),
    }
}

} // verus!

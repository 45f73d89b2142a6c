//! The message catalogue and the envelopes that cross the bridge channels.
//!
//! A logical message is a tagged variant plus an opaque binary payload.  The
//! catalogue is closed: every handler matches it exhaustively, so adding a
//! message type is caught at compile time everywhere it must be handled.

use vstd::prelude::*;

use crate::codec::copy_bytes;
use crate::ids::Uuid;

verus! {

/// The tag of a logical message.
#[derive(Debug)]
pub enum MessageType {
    Unknown,
    ConnectionRequest,
    ConnectionAccept,
    ConnectionKeepAlive,
    NewClient,
    NewReplicated,
    ComponentTransform,
    /// A custom component update; the bytes name the component kind.
    ComponentCustom(Vec<u8>),
    ChatMessage,
    PlayerInput,
}

/// The spec-level value of a [`MessageType`].
pub enum MessageTypeView {
    Unknown,
    ConnectionRequest,
    ConnectionAccept,
    ConnectionKeepAlive,
    NewClient,
    NewReplicated,
    ComponentTransform,
    ComponentCustom(Seq<u8>),
    ChatMessage,
    PlayerInput,
}

impl View for MessageType {
    type V = MessageTypeView;

    open spec fn view(&self) -> MessageTypeView {
        match self {
            MessageType::Unknown => MessageTypeView::Unknown,
            MessageType::ConnectionRequest => MessageTypeView::ConnectionRequest,
            MessageType::ConnectionAccept => MessageTypeView::ConnectionAccept,
            MessageType::ConnectionKeepAlive => MessageTypeView::ConnectionKeepAlive,
            MessageType::NewClient => MessageTypeView::NewClient,
            MessageType::NewReplicated => MessageTypeView::NewReplicated,
            MessageType::ComponentTransform => MessageTypeView::ComponentTransform,
            MessageType::ComponentCustom(tag) => MessageTypeView::ComponentCustom(tag@),
            MessageType::ChatMessage => MessageTypeView::ChatMessage,
            MessageType::PlayerInput => MessageTypeView::PlayerInput,
        }
    }
}

impl Clone for MessageType {
    fn clone(&self) -> (r: Self)
        ensures
            r@ == self@,
    {
        match self {
            MessageType::Unknown => MessageType::Unknown,
            MessageType::ConnectionRequest => MessageType::ConnectionRequest,
            MessageType::ConnectionAccept => MessageType::ConnectionAccept,
            MessageType::ConnectionKeepAlive => MessageType::ConnectionKeepAlive,
            MessageType::NewClient => MessageType::NewClient,
            MessageType::NewReplicated => MessageType::NewReplicated,
            MessageType::ComponentTransform => MessageType::ComponentTransform,
            MessageType::ComponentCustom(tag) => MessageType::ComponentCustom(copy_bytes(tag)),
            MessageType::ChatMessage => MessageType::ChatMessage,
            MessageType::PlayerInput => MessageType::PlayerInput,
        }
    }
}

/// Which transport carries a message: TCP is the ordered, reliable stream;
/// UDP the unordered, unreliable datagram socket.
#[derive(Clone, Copy, PartialEq, Eq, Structural, Debug)]
pub enum NetworkProtocol {
    TCP,
    UDP,
}

/// A network address as plain values: the IP as 128 bits (an IPv4 address
/// is carried in the low 32 bits) and the port.
#[derive(Clone, Copy, PartialEq, Eq, Structural, Debug)]
pub struct NetAddr {
    pub ip: u128,
    pub port: u16,
}

impl NetAddr {
    /// The unspecified address, used before a peer is known.
    pub open spec fn unspecified() -> NetAddr {
        NetAddr { ip: 0, port: 0 }
    }
}

/// A connected peer: its assigned identity and its network address.
#[derive(Clone, Copy, PartialEq, Eq, Structural, Debug)]
pub struct Client {
    pub client_id: Uuid,
    pub addr: NetAddr,
}

impl Default for Client {
    fn default() -> (r: Self)
        ensures
            r.client_id == Uuid::nil_id(),
            r.addr == NetAddr::unspecified(),
    {
        Client { client_id: Uuid { bits: 0 }, addr: NetAddr { ip: 0, port: 0 } }
    }
}

/// What actually travels on a socket: the tag and the encoded payload.
#[derive(Debug)]
pub struct RawNetworkMessagePacket {
    pub message_type: MessageType,
    pub payload: Vec<u8>,
}

/// The spec-level value of a [`RawNetworkMessagePacket`].
pub struct RawPacketView {
    pub message_type: MessageTypeView,
    pub payload: Seq<u8>,
}

impl View for RawNetworkMessagePacket {
    type V = RawPacketView;

    open spec fn view(&self) -> RawPacketView {
        RawPacketView { message_type: self.message_type@, payload: self.payload@ }
    }
}

impl Clone for RawNetworkMessagePacket {
    fn clone(&self) -> (r: Self)
        ensures
            r@ == self@,
    {
        RawNetworkMessagePacket {
            message_type: self.message_type.clone(),
            payload: copy_bytes(&self.payload),
        }
    }
}

/// A raw packet together with the peer address it came from or goes to.
#[derive(Debug)]
pub struct RawNetworkMessage {
    pub addr: NetAddr,
    pub packet: RawNetworkMessagePacket,
}

/// The spec-level value of a [`RawNetworkMessage`].
pub struct RawMessageView {
    pub addr: NetAddr,
    pub packet: RawPacketView,
}

impl View for RawNetworkMessage {
    type V = RawMessageView;

    open spec fn view(&self) -> RawMessageView {
        RawMessageView { addr: self.addr, packet: self.packet@ }
    }
}

impl Clone for RawNetworkMessage {
    fn clone(&self) -> (r: Self)
        ensures
            r@ == self@,
    {
        RawNetworkMessage { addr: self.addr, packet: self.packet.clone() }
    }
}

/// An outbound envelope, from the simulation domain to the transport
/// domain.  On the server `net_id` addresses the receiving client (nil
/// broadcasts to every registered client); a client sends everything to the
/// server and the field is ignored there.
#[derive(Debug)]
pub struct NetworkPacketOut {
    pub net_id: Uuid,
    pub message_type: MessageType,
    pub protocol: NetworkProtocol,
    pub data: Vec<u8>,
}

/// The spec-level value of a [`NetworkPacketOut`].
pub struct PacketOutView {
    pub net_id: Uuid,
    pub message_type: MessageTypeView,
    pub protocol: NetworkProtocol,
    pub data: Seq<u8>,
}

impl View for NetworkPacketOut {
    type V = PacketOutView;

    open spec fn view(&self) -> PacketOutView {
        PacketOutView {
            net_id: self.net_id,
            message_type: self.message_type@,
            protocol: self.protocol,
            data: self.data@,
        }
    }
}

impl Default for NetworkPacketOut {
    fn default() -> (r: Self)
        ensures
            r.net_id == Uuid::nil_id(),
            r.message_type@ == MessageTypeView::Unknown,
            r.protocol == NetworkProtocol::TCP,
            r.data@ == Seq::<u8>::empty(),
    {
        NetworkPacketOut {
            net_id: Uuid { bits: 0 },
            message_type: MessageType::Unknown,
            protocol: NetworkProtocol::TCP,
            data: Vec::new(),
        }
    }
}

impl Clone for NetworkPacketOut {
    fn clone(&self) -> (r: Self)
        ensures
            r@ == self@,
    {
        NetworkPacketOut {
            net_id: self.net_id,
            message_type: self.message_type.clone(),
            protocol: self.protocol,
            data: copy_bytes(&self.data),
        }
    }
}

/// An inbound envelope, from the transport domain to the simulation domain,
/// tagged with the resolved sender.
#[derive(Debug)]
pub struct NetworkPacketIn {
    pub client: Client,
    pub message_type: MessageType,
    pub protocol: NetworkProtocol,
    pub data: Vec<u8>,
}

/// The spec-level value of a [`NetworkPacketIn`].
pub struct PacketInView {
    pub client: Client,
    pub message_type: MessageTypeView,
    pub protocol: NetworkProtocol,
    pub data: Seq<u8>,
}

impl View for NetworkPacketIn {
    type V = PacketInView;

    open spec fn view(&self) -> PacketInView {
        PacketInView {
            client: self.client,
            message_type: self.message_type@,
            protocol: self.protocol,
            data: self.data@,
        }
    }
}

impl Clone for NetworkPacketIn {
    fn clone(&self) -> (r: Self)
        ensures
            r@ == self@,
    {
        NetworkPacketIn {
            client: self.client,
            message_type: self.message_type.clone(),
            protocol: self.protocol,
            data: copy_bytes(&self.data),
        }
    }
}

} // verus!

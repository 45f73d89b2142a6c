use hawknet::channel::{ChannelError, InboundReceiver, OutboundQueue};
use hawknet::ids::Uuid;
use hawknet::msg::{
    Client, MessageType, NetAddr, NetworkPacketIn, NetworkPacketOut, NetworkProtocol,
};

fn out_packet(tag: u128) -> NetworkPacketOut {
    NetworkPacketOut {
        net_id: Uuid { bits: tag },
        message_type: MessageType::ChatMessage,
        protocol: NetworkProtocol::TCP,
        data: vec![tag as u8],
    }
}

fn in_packet(tag: u128) -> NetworkPacketIn {
    NetworkPacketIn {
        client: Client {
            client_id: Uuid { bits: tag },
            addr: NetAddr { ip: 1, port: 1 },
        },
        message_type: MessageType::ChatMessage,
        protocol: NetworkProtocol::UDP,
        data: vec![tag as u8],
    }
}

#[test]
fn producer_never_blocks_and_order_is_kept_up_to_capacity() {
    let mut q = OutboundQueue::new(3);
    // producing more than the capacity, faster than it drains: every call
    // returns immediately, the first three are kept, the excess reported
    for i in 0..5u128 {
        let r = q.try_send(out_packet(i));
        if i < 3 {
            assert!(r.is_ok());
        } else {
            assert_eq!(r.unwrap_err(), ChannelError::Full);
        }
    }
    assert_eq!(q.len(), 3);
    // delivered messages preserve order up to the capacity limit
    for i in 0..3u128 {
        let p = q.try_recv().unwrap();
        assert_eq!(p.net_id, Uuid { bits: i });
    }
    assert!(q.try_recv().is_none());
}

#[test]
fn queue_drains_and_accepts_again() {
    let mut q = OutboundQueue::new(2);
    assert!(q.try_send(out_packet(1)).is_ok());
    assert!(q.try_send(out_packet(2)).is_ok());
    assert!(q.try_send(out_packet(3)).is_err());
    let first = q.try_recv().unwrap();
    assert_eq!(first.net_id, Uuid { bits: 1 });
    assert!(q.try_send(out_packet(4)).is_ok());
    assert_eq!(q.try_recv().unwrap().net_id, Uuid { bits: 2 });
    assert_eq!(q.try_recv().unwrap().net_id, Uuid { bits: 4 });
}

#[test]
fn receiver_drops_excess_and_reports_it() {
    let mut r = InboundReceiver::new(2);
    assert!(r.offer(in_packet(1)).is_ok());
    assert!(r.offer(in_packet(2)).is_ok());
    assert_eq!(r.offer(in_packet(3)).unwrap_err(), ChannelError::Full);
    assert_eq!(r.len(), 2);
    let got = r.drain(10);
    assert_eq!(got.len(), 2);
    assert_eq!(got[0].client.client_id, Uuid { bits: 1 });
    assert_eq!(got[1].client.client_id, Uuid { bits: 2 });
}

#[test]
fn drain_respects_the_per_tick_cap() {
    let mut r = InboundReceiver::new(16);
    for i in 0..6u128 {
        assert!(r.offer(in_packet(i)).is_ok());
    }
    let first = r.drain(4);
    assert_eq!(first.len(), 4);
    for (i, p) in first.iter().enumerate() {
        assert_eq!(p.client.client_id, Uuid { bits: i as u128 });
    }
    // the backlog stays for a later tick, still in order
    let rest = r.drain(4);
    assert_eq!(rest.len(), 2);
    assert_eq!(rest[0].client.client_id, Uuid { bits: 4 });
    assert_eq!(rest[1].client.client_id, Uuid { bits: 5 });
    assert!(r.is_empty());
}

//! The bridge channels between the simulation and transport domains.
//!
//! The only legal crossing between the two concurrency domains is through
//! these values: a bounded single-consumer queue carries outbound envelopes
//! from the simulation to the transport, and one bounded buffer per handler
//! carries inbound envelopes the other way.  Every operation is
//! non-blocking: when a queue is full the newest message is dropped and the
//! caller told so, which guarantees that network volume can never stall the
//! simulation tick.

use vstd::prelude::*;

use crate::msg::{NetworkPacketIn, NetworkPacketOut, PacketInView, PacketOutView};

verus! {

/// Why a message did not enter a channel.
#[derive(Clone, Copy, PartialEq, Eq, Structural, Debug)]
pub enum ChannelError {
    /// The channel already holds as many messages as its capacity; the
    /// offered message was dropped.
    Full,
}

/// The buffer contents after one non-blocking offer: the message enters at
/// the back while there is room and is dropped otherwise.
pub open spec fn offered<T>(buf: Seq<T>, p: T, cap: nat) -> Seq<T> {
    if buf.len() < cap {
        buf.push(p)
    } else {
        buf
    }
}

/// The buffer contents after every message of `msgs` is offered in turn.
pub open spec fn offered_all<T>(buf: Seq<T>, msgs: Seq<T>, cap: nat) -> Seq<T>
    decreases msgs.len(),
{
    if msgs.len() == 0 {
        buf
    } else {
        offered_all(offered(buf, msgs[0], cap), msgs.drop_first(), cap)
    }
}

/// Backpressure never reorders and never blocks: offering any burst of
/// messages to a buffer with room for `cap` leaves exactly the first
/// messages that fit, in their original order; the excess is dropped.
pub proof fn lemma_backpressure_order<T>(buf: Seq<T>, msgs: Seq<T>, cap: nat)
    requires
        buf.len() <= cap,
    ensures
        offered_all(buf, msgs, cap) == buf + msgs.take(
            if msgs.len() <= cap - buf.len() {
                msgs.len() as int
            } else {
                cap - buf.len()
            },
        ),
    decreases msgs.len(),
{
    let room = cap - buf.len();
    let kept = if msgs.len() <= room {
        msgs.len() as int
    } else {
        room
    };
    if msgs.len() == 0 {
        assert(offered_all(buf, msgs, cap) =~= buf + msgs.take(kept));
    } else if buf.len() < cap {
        lemma_backpressure_order(buf.push(msgs[0]), msgs.drop_first(), cap);
        let room2 = cap - buf.len() - 1;
        let rest = msgs.drop_first();
        let kept2 = if rest.len() <= room2 {
            rest.len() as int
        } else {
            room2
        };
        assert(buf + msgs.take(kept) =~= buf.push(msgs[0]) + rest.take(kept2));
    } else {
        lemma_backpressure_order(buf, msgs.drop_first(), cap);
        assert(buf + msgs.take(kept) =~= buf + msgs.drop_first().take(kept));
    }
}

/// Delivered reliable-transport messages preserve order up to the capacity
/// limit, as one statement: a burst of any length offered to an empty
/// queue leaves exactly its first messages, in send order — the whole burst
/// when it fits the capacity, the first `cap` of them when it does not.
pub proof fn lemma_reliable_order<T>(msgs: Seq<T>, cap: nat)
    ensures
        offered_all(Seq::<T>::empty(), msgs, cap) == (if msgs.len() <= cap {
            msgs
        } else {
            msgs.take(cap as int)
        }),
{
    lemma_backpressure_order(Seq::<T>::empty(), msgs, cap);
    if msgs.len() <= cap {
        assert(Seq::<T>::empty() + msgs.take(msgs.len() as int) =~= msgs);
    } else {
        assert(Seq::<T>::empty() + msgs.take(cap as int) =~= msgs.take(cap as int));
    }
}

/// Offering one more message after a burst is one more offer at the end:
/// the step that lets a loop of single offers build up `offered_all`.
pub proof fn lemma_offered_all_push<T>(buf: Seq<T>, msgs: Seq<T>, x: T, cap: nat)
    ensures
        offered_all(buf, msgs.push(x), cap) == offered(offered_all(buf, msgs, cap), x, cap),
    decreases msgs.len(),
{
    if msgs.len() == 0 {
        assert(msgs.push(x).drop_first() =~= msgs);
        assert(msgs.push(x)[0] == x);
        assert(offered_all(offered(buf, x, cap), msgs, cap) == offered(buf, x, cap));
        assert(offered_all(buf, msgs, cap) == buf);
    } else {
        assert(msgs.push(x).drop_first() =~= msgs.drop_first().push(x));
        assert(msgs.push(x)[0] == msgs[0]);
        assert(offered_all(buf, msgs.push(x), cap) == offered_all(
            offered(buf, msgs[0], cap),
            msgs.drop_first().push(x),
            cap,
        ));
        assert(offered_all(buf, msgs, cap) == offered_all(
            offered(buf, msgs[0], cap),
            msgs.drop_first(),
            cap,
        ));
        lemma_offered_all_push(offered(buf, msgs[0], cap), msgs.drop_first(), x, cap);
    }
}

/// The spec-level contents of a sequence of outbound envelopes.
pub open spec fn out_views(s: Seq<NetworkPacketOut>) -> Seq<PacketOutView> {
    s.map(|_i: int, p: NetworkPacketOut| p@)
}

/// The spec-level contents of a sequence of inbound envelopes.
pub open spec fn in_views(s: Seq<NetworkPacketIn>) -> Seq<PacketInView> {
    s.map(|_i: int, p: NetworkPacketIn| p@)
}

/// The bounded queue carrying outbound envelopes from the simulation domain
/// to the transport domain.
pub struct OutboundQueue {
    items: Vec<NetworkPacketOut>,
    capacity: usize,
}

impl View for OutboundQueue {
    type V = Seq<PacketOutView>;

    closed spec fn view(&self) -> Seq<PacketOutView> {
        out_views(self.items@)
    }
}

impl OutboundQueue {
    /// How many messages the queue can hold at once.
    pub closed spec fn cap(&self) -> nat {
        self.capacity as nat
    }

    pub fn new(capacity: usize) -> (r: OutboundQueue)
        ensures
            r@ == Seq::<PacketOutView>::empty(),
            r.cap() == capacity,
    {
        let r = OutboundQueue { items: Vec::new(), capacity };
        proof {
            assert(r@ =~= Seq::<PacketOutView>::empty());
        }
        r
    }

    pub fn len(&self) -> (r: usize)
        ensures
            r == self@.len(),
    {
        self.items.len()
    }

    pub fn is_empty(&self) -> (r: bool)
        ensures
            r == (self@.len() == 0),
    {
        self.items.len() == 0
    }

    /// Non-blocking send.  While there is room the message enters at the
    /// back; on a full queue it is dropped and `Full` returned, so that the
    /// producer is never blocked, however fast it produces.
    pub fn try_send(&mut self, p: NetworkPacketOut) -> (r: Result<(), ChannelError>)
        ensures
            final(self).cap() == old(self).cap(),
            final(self)@ == offered(old(self)@, p@, old(self).cap()),
            r is Ok <==> old(self)@.len() < old(self).cap(),
    {
        if self.items.len() < self.capacity {
            self.items.push(p);
            proof {
                assert(out_views(self.items@) =~= out_views(old(self).items@).push(p@));
            }
            Ok(())
        } else {
            Err(ChannelError::Full)
        }
    }

    /// Non-blocking receive: the oldest message, in send order.
    pub fn try_recv(&mut self) -> (r: Option<NetworkPacketOut>)
        ensures
            final(self).cap() == old(self).cap(),
            match r {
                Some(p) => old(self)@.len() > 0 && p@ == old(self)@[0] && final(self)@ == old(
                    self,
                )@.drop_first(),
                None => old(self)@.len() == 0 && final(self)@ == old(self)@,
            },
    {
        if self.items.len() == 0 {
            None
        } else {
            let p = self.items.remove(0);
            proof {
                assert(out_views(self.items@) =~= out_views(old(self).items@).drop_first());
            }
            Some(p)
        }
    }
}

/// One handler's bounded buffer of inbound envelopes.  Each handler owns
/// its own receiver, obtained once at setup, so one slow or absent consumer
/// cannot block producers or the other consumers: a full buffer only drops
/// what is offered to it.
pub struct InboundReceiver {
    items: Vec<NetworkPacketIn>,
    capacity: usize,
}

impl View for InboundReceiver {
    type V = Seq<PacketInView>;

    closed spec fn view(&self) -> Seq<PacketInView> {
        in_views(self.items@)
    }
}

impl InboundReceiver {
    /// How many messages the buffer can hold at once.
    pub closed spec fn cap(&self) -> nat {
        self.capacity as nat
    }

    pub fn new(capacity: usize) -> (r: InboundReceiver)
        ensures
            r@ == Seq::<PacketInView>::empty(),
            r.cap() == capacity,
    {
        let r = InboundReceiver { items: Vec::new(), capacity };
        proof {
            assert(r@ =~= Seq::<PacketInView>::empty());
        }
        r
    }

    pub fn len(&self) -> (r: usize)
        ensures
            r == self@.len(),
    {
        self.items.len()
    }

    pub fn is_empty(&self) -> (r: bool)
        ensures
            r == (self@.len() == 0),
    {
        self.items.len() == 0
    }

    /// Non-blocking delivery into this buffer; on overflow the offered
    /// message is dropped and the caller told, so it can log the event.
    pub fn offer(&mut self, p: NetworkPacketIn) -> (r: Result<(), ChannelError>)
        ensures
            final(self).cap() == old(self).cap(),
            final(self)@ == offered(old(self)@, p@, old(self).cap()),
            r is Ok <==> old(self)@.len() < old(self).cap(),
    {
        if self.items.len() < self.capacity {
            self.items.push(p);
            proof {
                assert(in_views(self.items@) =~= in_views(old(self).items@).push(p@));
            }
            Ok(())
        } else {
            Err(ChannelError::Full)
        }
    }

    /// Non-blocking receive: the oldest message, in delivery order.
    pub fn try_recv(&mut self) -> (r: Option<NetworkPacketIn>)
        ensures
            final(self).cap() == old(self).cap(),
            match r {
                Some(p) => old(self)@.len() > 0 && p@ == old(self)@[0] && final(self)@ == old(
                    self,
                )@.drop_first(),
                None => old(self)@.len() == 0 && final(self)@ == old(self)@,
            },
    {
        if self.items.len() == 0 {
            None
        } else {
            let p = self.items.remove(0);
            proof {
                assert(in_views(self.items@) =~= in_views(old(self).items@).drop_first());
            }
            Some(p)
        }
    }

    /// The tick-boundary drain: takes at most `max` buffered messages, in
    /// delivery order, and leaves the rest for a later tick.  The hard cap
    /// keeps one tick's work bounded whatever the network volume.
    pub fn drain(&mut self, max: usize) -> (r: Vec<NetworkPacketIn>)
        ensures
            final(self).cap() == old(self).cap(),
            r@.len() == if old(self)@.len() <= max {
                old(self)@.len() as int
            } else {
                max as int
            },
            in_views(r@) == old(self)@.take(r@.len() as int),
            final(self)@ == old(self)@.skip(r@.len() as int),
    {
        let mut out: Vec<NetworkPacketIn> = Vec::new();
        proof {
            assert(in_views(out@) =~= old(self)@.take(0));
            assert(self@ =~= old(self)@.skip(0));
        }
        while out.len() < max && self.items.len() > 0
            invariant
                self.cap() == old(self).cap(),
                out@.len() <= max,
                out@.len() <= old(self)@.len(),
                in_views(out@) == old(self)@.take(out@.len() as int),
                self@ == old(self)@.skip(out@.len() as int),
            decreases max - out@.len(),
        {
            let ghost k = out@.len() as int;
            let ghost prev = self.items@;
            let p = self.items.remove(0);
            proof {
                assert(in_views(self.items@) =~= in_views(prev).drop_first());
                assert(in_views(prev).drop_first() =~= old(self)@.skip(k + 1));
                assert(in_views(prev)[0] == prev[0]@);
                assert(p@ == old(self)@.skip(k)[0]);
                assert(in_views(out@.push(p)) =~= in_views(out@).push(p@));
                assert(old(self)@.take(k + 1) =~= old(self)@.take(k).push(old(self)@[k]));
            }
            out.push(p);
        }
        out
    }
}

} // verus!

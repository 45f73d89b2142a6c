//! The server-side connection registry: one session per connected client,
//! addressable by network address and by assigned identity.
//!
//! The registry also remembers every identity it has ever issued, so that a
//! `client_id` is never reused while the server process lives.

use vstd::pervasive::VecAdditionalExecFns;
use vstd::prelude::*;

use crate::ids::Uuid;
use crate::msg::{Client, NetAddr};

verus! {

/// One connected client's session: its identity and when traffic from it
/// was last seen.
#[derive(Clone, Copy, PartialEq, Eq, Structural, Debug)]
pub struct Player {
    pub client_id: Uuid,
    /// Session time, in milliseconds, of the last inbound traffic.
    pub last_keep_alive: u64,
}

/// A session together with the address it is reached at.
#[derive(Clone, Copy, PartialEq, Eq, Structural, Debug)]
pub struct Session {
    pub addr: NetAddr,
    pub player: Player,
}

/// Whether a session that last spoke at `last` has gone silent for the
/// drop threshold at time `now`.
pub open spec fn spec_expired(now: u64, last: u64, threshold: u64) -> bool {
    now >= last + threshold
}

/// The sessions that outlive a sweep at `now`: those not yet silent for
/// the threshold.
pub open spec fn keep_pred(now: u64, threshold: u64) -> spec_fn(Session) -> bool {
    |s: Session| !spec_expired(now, s.player.last_keep_alive, threshold)
}

/// The sessions that a sweep at `now` removes.
pub open spec fn gone_pred(now: u64, threshold: u64) -> spec_fn(Session) -> bool {
    |s: Session| spec_expired(now, s.player.last_keep_alive, threshold)
}

/// The identities of a session list, in its order.
pub open spec fn session_ids(s: Seq<Session>) -> Seq<Uuid> {
    s.map(|_i: int, s: Session| s.player.client_id)
}

/// Whether some session in the list is reached at `addr`.
pub open spec fn seq_has_addr(s: Seq<Session>, addr: NetAddr) -> bool {
    exists|i: int| 0 <= i < s.len() && (#[trigger] s[i]).addr == addr
}

/// Whether some session in the list belongs to `id`.
pub open spec fn seq_has_client_id(s: Seq<Session>, id: Uuid) -> bool {
    exists|i: int| 0 <= i < s.len() && (#[trigger] s[i]).player.client_id == id
}

/// The session list after inbound traffic from `id`: its session's
/// keep-alive timestamp is brought to `now`; without a session for `id`
/// nothing changes.
pub open spec fn touched_sessions(s: Seq<Session>, id: Uuid, now: u64) -> Seq<Session> {
    s.map(
        |_i: int, x: Session|
            if x.player.client_id == id {
                Session { addr: x.addr, player: Player { client_id: id, last_keep_alive: now } }
            } else {
                x
            },
    )
}

/// The session table, plus every identity ever issued.
pub struct Registry {
    sessions: Vec<Session>,
    issued: Vec<Uuid>,
}

impl Registry {
    /// The registered sessions, in registration order.
    pub closed spec fn sessions(&self) -> Seq<Session> {
        self.sessions@
    }

    /// Every identity issued since the registry was created, also those
    /// whose session is gone: an identity is never reused.
    pub closed spec fn issued(&self) -> Seq<Uuid> {
        self.issued@
    }

    pub open spec fn has_addr(&self, addr: NetAddr) -> bool {
        seq_has_addr(self.sessions(), addr)
    }

    pub open spec fn has_id(&self, id: Uuid) -> bool {
        seq_has_client_id(self.sessions(), id)
    }

    pub open spec fn was_issued(&self, id: Uuid) -> bool {
        self.issued().contains(id)
    }

    /// Well-formedness: identities and addresses are unique, no session
    /// carries the nil identity, and every session's identity was issued.
    pub open spec fn wf(&self) -> bool {
        &&& forall|i: int, j: int|
            0 <= i < j < self.sessions().len() ==> (#[trigger] self.sessions()[i]).player.client_id
                != (#[trigger] self.sessions()[j]).player.client_id
        &&& forall|i: int, j: int|
            0 <= i < j < self.sessions().len() ==> (#[trigger] self.sessions()[i]).addr != (
            #[trigger] self.sessions()[j]).addr
        &&& forall|i: int|
            0 <= i < self.sessions().len() ==> (#[trigger] self.sessions()[i]).player.client_id
                != Uuid::nil_id()
        &&& forall|i: int|
            0 <= i < self.sessions().len() ==> self.was_issued(
                (#[trigger] self.sessions()[i]).player.client_id,
            )
    }

    pub fn new() -> (r: Registry)
        ensures
            r.wf(),
            r.sessions() == Seq::<Session>::empty(),
            r.issued() == Seq::<Uuid>::empty(),
    {
        Registry { sessions: Vec::new(), issued: Vec::new() }
    }

    pub fn len(&self) -> (r: usize)
        ensures
            r == self.sessions().len(),
    {
        self.sessions.len()
    }

    /// The session at one position, for per-tick iteration.
    pub fn session_at(&self, i: usize) -> (r: Session)
        requires
            i < self.sessions().len(),
        ensures
            r == self.sessions()[i as int],
    {
        self.sessions[i]
    }

    fn index_of_addr(&self, addr: NetAddr) -> (r: Option<usize>)
        ensures
            match r {
                Some(i) => i < self.sessions().len() && self.sessions()[i as int].addr == addr,
                None => !self.has_addr(addr),
            },
    {
        let mut i: usize = 0;
        while i < self.sessions.len()
            invariant
                i <= self.sessions().len(),
                forall|k: int| 0 <= k < i ==> (#[trigger] self.sessions()[k]).addr != addr,
            decreases self.sessions().len() - i,
        {
            if self.sessions[i].addr.ip == addr.ip && self.sessions[i].addr.port == addr.port {
                return Some(i);
            }
            i = i + 1;
        }
        None
    }

    fn index_of_id(&self, id: Uuid) -> (r: Option<usize>)
        ensures
            match r {
                Some(i) => i < self.sessions().len() && self.sessions()[i as int].player.client_id
                    == id,
                None => !self.has_id(id),
            },
    {
        let mut i: usize = 0;
        while i < self.sessions.len()
            invariant
                i <= self.sessions().len(),
                forall|k: int| 0 <= k < i ==> (#[trigger] self.sessions()[k]).player.client_id != id,
            decreases self.sessions().len() - i,
        {
            if self.sessions[i].player.client_id.bits == id.bits {
                return Some(i);
            }
            i = i + 1;
        }
        None
    }

    pub fn contains_addr(&self, addr: NetAddr) -> (r: bool)
        ensures
            r == self.has_addr(addr),
    {
        self.index_of_addr(addr).is_some()
    }

    pub fn contains_id(&self, id: Uuid) -> (r: bool)
        ensures
            r == self.has_id(id),
    {
        self.index_of_id(id).is_some()
    }

    pub fn contains_issued(&self, id: Uuid) -> (r: bool)
        ensures
            r == self.was_issued(id),
    {
        let mut i: usize = 0;
        while i < self.issued.len()
            invariant
                i <= self.issued().len(),
                forall|k: int| 0 <= k < i ==> self.issued()[k] != id,
            decreases self.issued().len() - i,
        {
            if self.issued[i].bits == id.bits {
                return true;
            }
            i = i + 1;
        }
        false
    }

    /// The session registered at `addr`, if any.
    pub fn session_of_addr(&self, addr: NetAddr) -> (r: Option<Session>)
        ensures
            match r {
                Some(s) => self.has_addr(addr) && s.addr == addr && exists|i: int|
                    0 <= i < self.sessions().len() && #[trigger] self.sessions()[i] == s,
                None => !self.has_addr(addr),
            },
    {
        match self.index_of_addr(addr) {
            Some(i) => Some(self.sessions[i]),
            None => None,
        }
    }

    /// The address a client identity is reached at, if it is registered.
    pub fn addr_of_id(&self, id: Uuid) -> (r: Option<NetAddr>)
        ensures
            match r {
                Some(a) => self.has_id(id) && exists|i: int|
                    0 <= i < self.sessions().len() && #[trigger] self.sessions()[i].addr == a
                        && self.sessions()[i].player.client_id == id,
                None => !self.has_id(id),
            },
    {
        match self.index_of_id(id) {
            Some(i) => Some(self.sessions[i].addr),
            None => None,
        }
    }

    /// Records an identity as issued without registering a session, so it
    /// is never handed out again: entity identities share the same space
    /// as client identities.
    pub fn record_issued(&mut self, id: Uuid)
        requires
            old(self).wf(),
            !old(self).was_issued(id),
        ensures
            final(self).wf(),
            final(self).sessions() == old(self).sessions(),
            final(self).issued() == old(self).issued().push(id),
    {
        self.issued.push(id);
        proof {
            assert forall|i: int, j: int| 0 <= i < j < self.sessions().len() implies (
            #[trigger] self.sessions()[i]).player.client_id != (
            #[trigger] self.sessions()[j]).player.client_id && self.sessions()[i].addr
                != self.sessions()[j].addr by {
                assert(self.sessions()[i] == old(self).sessions()[i]);
                assert(self.sessions()[j] == old(self).sessions()[j]);
            }
            assert forall|i: int| 0 <= i < self.sessions().len() implies (
            #[trigger] self.sessions()[i]).player.client_id != Uuid::nil_id() && self.was_issued(
                self.sessions()[i].player.client_id,
            ) by {
                assert(self.sessions()[i] == old(self).sessions()[i]);
                let x = old(self).sessions()[i].player.client_id;
                assert(old(self).was_issued(x));
                let w = choose|k: int|
                    0 <= k < old(self).issued().len() && old(self).issued()[k] == x;
                assert(self.issued()[w] == x);
            }
        }
    }

    /// Registers a new session.  The identity must be fresh: never issued
    /// before, and not nil.
    pub fn insert_session(&mut self, addr: NetAddr, id: Uuid, now: u64)
        requires
            old(self).wf(),
            !old(self).has_addr(addr),
            !old(self).was_issued(id),
            id != Uuid::nil_id(),
        ensures
            final(self).wf(),
            final(self).sessions() == old(self).sessions().push(
                Session { addr, player: Player { client_id: id, last_keep_alive: now } },
            ),
            final(self).issued() == old(self).issued().push(id),
    {
        self.sessions.push(
            Session { addr, player: Player { client_id: id, last_keep_alive: now } },
        );
        self.issued.push(id);
        proof {
            let n = self.sessions().len();
            assert forall|i: int| 0 <= i < n implies self.was_issued(
                (#[trigger] self.sessions()[i]).player.client_id,
            ) by {
                if i < n - 1 {
                    let x = old(self).sessions()[i].player.client_id;
                    assert(old(self).was_issued(x));
                    let w = choose|k: int|
                        0 <= k < old(self).issued().len() && old(self).issued()[k] == x;
                    assert(self.issued()[w] == x);
                } else {
                    assert(self.issued()[self.issued().len() - 1] == id);
                }
            }
            assert forall|i: int, j: int| 0 <= i < j < n implies (
            #[trigger] self.sessions()[i]).player.client_id != (
            #[trigger] self.sessions()[j]).player.client_id by {
                if j == n - 1 {
                    assert(old(self).was_issued(old(self).sessions()[i].player.client_id));
                }
            }
            assert forall|i: int, j: int| 0 <= i < j < n implies (
            #[trigger] self.sessions()[i]).addr != (#[trigger] self.sessions()[j]).addr by {
                if j == n - 1 {
                    if old(self).sessions()[i].addr == addr {
                        assert(old(self).has_addr(addr));
                    }
                }
            }
            assert forall|i: int| 0 <= i < n implies (#[trigger] self.sessions()[i]).player.client_id
                != Uuid::nil_id() by {
                if i < n - 1 {
                    assert(self.sessions()[i] == old(self).sessions()[i]);
                }
            }
        }
    }

    /// Records that inbound traffic from `id` was seen at `now`: its
    /// session's `last_keep_alive` is brought up to date.  Without a
    /// session for `id` nothing changes.
    pub fn touch(&mut self, id: Uuid, now: u64) -> (r: bool)
        requires
            old(self).wf(),
        ensures
            final(self).wf(),
            final(self).issued() == old(self).issued(),
            r == old(self).has_id(id),
            final(self).sessions() == touched_sessions(old(self).sessions(), id, now),
    {
        match self.index_of_id(id) {
            Some(i) => {
                let s = self.sessions[i];
                self.sessions.set(
                    i,
                    Session {
                        addr: s.addr,
                        player: Player { client_id: id, last_keep_alive: now },
                    },
                );
                proof {
                    assert(old(self).has_id(id));
                    assert forall|k: int|
                        0 <= k < old(self).sessions().len() && k != i implies old(
                        self,
                    ).sessions()[k].player.client_id != id by {}
                }
                true
            },
            None => false,
        }
    }

    /// Removes every session that has been silent for `threshold` or
    /// longer, and returns the identities removed, in table order.
    pub fn remove_expired(&mut self, now: u64, threshold: u64) -> (removed: Vec<Uuid>)
        requires
            old(self).wf(),
        ensures
            final(self).wf(),
            final(self).issued() == old(self).issued(),
            final(self).sessions() == old(self).sessions().filter(keep_pred(now, threshold)),
            removed@ == session_ids(old(self).sessions().filter(gone_pred(now, threshold))),
    {
        let mut kept: Vec<Session> = Vec::new();
        let mut removed: Vec<Uuid> = Vec::new();
        let mut i: usize = 0;
        proof {
            assert(old(self).sessions().take(0).filter(keep_pred(now, threshold)) =~= Seq::<Session>::empty());
            assert(old(self).sessions().take(0).filter(gone_pred(now, threshold)) =~= Seq::<Session>::empty());
            assert(removed@ =~= session_ids(old(self).sessions().take(0).filter(gone_pred(now, threshold))));
        }
        while i < self.sessions.len()
            invariant
                self.sessions() == old(self).sessions(),
                self.issued() == old(self).issued(),
                i <= self.sessions().len(),
                kept@ == old(self).sessions().take(i as int).filter(keep_pred(now, threshold)),
                removed@ == session_ids(old(self).sessions().take(i as int).filter(gone_pred(now, threshold))),
            decreases self.sessions().len() - i,
        {
            let s = self.sessions[i];
            let expired = now >= threshold && now - threshold >= s.player.last_keep_alive;
            proof {
                let t0 = old(self).sessions().take(i as int);
                let t1 = old(self).sessions().take(i + 1);
                assert(t1.drop_last() =~= t0);
                assert(t1.last() == s);
                reveal(Seq::filter);
                assert(gone_pred(now, threshold)(s) == expired);
                assert(keep_pred(now, threshold)(s) == !expired);
                if gone_pred(now, threshold)(s) {
                    assert(t1.filter(gone_pred(now, threshold)) == t0.filter(gone_pred(now, threshold)).push(s));
                    assert(t1.filter(keep_pred(now, threshold)) == t0.filter(keep_pred(now, threshold)));
                    assert(session_ids(t0.filter(gone_pred(now, threshold)).push(s)) =~= session_ids(
                        t0.filter(gone_pred(now, threshold)),
                    ).push(s.player.client_id));
                } else {
                    assert(t1.filter(keep_pred(now, threshold)) == t0.filter(keep_pred(now, threshold)).push(s));
                    assert(t1.filter(gone_pred(now, threshold)) == t0.filter(gone_pred(now, threshold)));
                }
            }
            if expired {
                removed.push(s.player.client_id);
            } else {
                kept.push(s);
            }
            i = i + 1;
        }
        proof {
            assert(old(self).sessions().take(old(self).sessions().len() as int) =~= old(
                self,
            ).sessions());
        }
        self.sessions = kept;
        proof {
            let olds = old(self).sessions();
            let news = self.sessions();
            assert forall|i: int, j: int| 0 <= i < j < news.len() implies (
            #[trigger] news[i]).player.client_id != (#[trigger] news[j]).player.client_id && news[i].addr
                != news[j].addr by {
                lemma_filter_positions(olds, keep_pred(now, threshold), i, j);
            }
            assert forall|i: int| 0 <= i < news.len() implies (#[trigger] news[i]).player.client_id
                != Uuid::nil_id() && self.was_issued(news[i].player.client_id) by {
                assert(news.contains(news[i]));
                olds.lemma_filter_contains_rev(keep_pred(now, threshold), news[i]);
                let w = choose|k: int| 0 <= k < olds.len() && olds[k] == news[i];
                assert(old(self).was_issued(olds[w].player.client_id));
            }
        }
        removed
    }

    /// Resolves an inbound stream message's sender: the registered identity
    /// of its address, or the nil identity while the address is not yet
    /// known (as it is during its own handshake).
    pub fn resolve_stream(&self, addr: NetAddr) -> (r: Client)
        ensures
            r.addr == addr,
            self.has_addr(addr) ==> exists|i: int|
                0 <= i < self.sessions().len() && #[trigger] self.sessions()[i].addr == addr
                    && self.sessions()[i].player.client_id == r.client_id,
            !self.has_addr(addr) ==> r.client_id == Uuid::nil_id(),
    {
        match self.index_of_addr(addr) {
            Some(i) => Client { client_id: self.sessions[i].player.client_id, addr },
            None => Client { client_id: Uuid { bits: 0 }, addr },
        }
    }

    /// Resolves an inbound datagram's sender.  A datagram from an address
    /// with no registered session is discarded — `None`, so it never
    /// reaches any simulation-domain handler — and no reply is ever sent,
    /// to avoid amplification.
    pub fn resolve_datagram(&self, addr: NetAddr) -> (r: Option<Client>)
        ensures
            match r {
                Some(c) => self.has_addr(addr) && c.addr == addr && exists|i: int|
                    0 <= i < self.sessions().len() && #[trigger] self.sessions()[i].addr == addr
                        && self.sessions()[i].player.client_id == c.client_id,
                None => !self.has_addr(addr),
            },
    {
        match self.index_of_addr(addr) {
            Some(i) => Some(Client { client_id: self.sessions[i].player.client_id, addr }),
            None => None,
        }
    }
}

/// Two distinct positions of a filtered sequence come from two distinct
/// positions of the original, in the same order.
proof fn lemma_filter_positions(s: Seq<Session>, pred: spec_fn(Session) -> bool, i: int, j: int)
    requires
        0 <= i < j < s.filter(pred).len(),
    ensures
        exists|a: int, b: int|
            0 <= a < b < s.len() && s[a] == #[trigger] s.filter(pred)[i] && s[b]
                == #[trigger] s.filter(pred)[j],
    decreases s.len(),
{
    reveal(Seq::filter);
    let f = s.filter(pred);
    if s.len() > 0 {
        let rest = s.drop_last();
        let last = s.last();
        if pred(last) && j == f.len() - 1 {
            assert(rest.filter(pred).contains(f[i]));
            rest.lemma_filter_contains_rev(pred, f[i]);
            let a = choose|a: int| 0 <= a < rest.len() && rest[a] == f[i];
            assert(s[a] == f[i]);
            assert(s[s.len() - 1] == f[j]);
        } else {
            lemma_filter_positions(rest, pred, i, j);
            let (a, b) = choose|a: int, b: int|
                0 <= a < b < rest.len() && rest[a] == #[trigger] rest.filter(pred)[i] && rest[b]
                    == #[trigger] rest.filter(pred)[j];
            assert(s[a] == rest[a] && s[b] == rest[b]);
        }
    }
}

} // verus!

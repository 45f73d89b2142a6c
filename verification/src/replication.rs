//! The table of replicated entities: the arena that stands in for the
//! engine's per-tick component storage, indexed by `net_id`.
//!
//! Every cross-reference into the table is an identity lookup re-validated
//! at use, since the referent may have been removed since.

use vstd::pervasive::VecAdditionalExecFns;
use vstd::prelude::*;

use crate::components::{Camera, Movement, NetworkReplicated, Transform};
use crate::ids::Uuid;

verus! {

/// One replicated entity's components, as the handlers see them.
pub struct ReplicatedEntity {
    pub replicated: NetworkReplicated,
    pub transform: Transform,
    pub movement: Movement,
    /// Present on the entity whose view the local player controls.
    pub camera: Option<Camera>,
}

/// The spec-level value of a [`ReplicatedEntity`].
pub struct ReplicatedEntityView {
    pub net_id: Uuid,
    pub owner_id: Uuid,
    pub entity_type: Seq<u8>,
    pub transform: Transform,
    pub movement: Movement,
    pub has_camera: bool,
}

impl View for ReplicatedEntity {
    type V = ReplicatedEntityView;

    open spec fn view(&self) -> ReplicatedEntityView {
        ReplicatedEntityView {
            net_id: self.replicated.net_id,
            owner_id: self.replicated.owner_id,
            entity_type: self.replicated.entity_type@,
            transform: self.transform,
            movement: self.movement,
            has_camera: self.camera is Some,
        }
    }
}

/// Whether some entity in the list carries `id`.
pub open spec fn seq_has_net_id(s: Seq<ReplicatedEntityView>, id: Uuid) -> bool {
    exists|i: int| 0 <= i < s.len() && (#[trigger] s[i]).net_id == id
}

/// The entities that survive the removal of everything the listed owners
/// owned.
pub open spec fn not_owned_by_any(owners: Seq<Uuid>) -> spec_fn(ReplicatedEntityView) -> bool {
    |e: ReplicatedEntityView| !owners.contains(e.owner_id)
}

/// One entity after an inbound transform update addressed to
/// `component_id`: its transform is overwritten — unless the local player
/// (`self_id`) owns it, whose own prediction is never overridden.
pub open spec fn spec_transform_updated(
    e: ReplicatedEntityView,
    component_id: Uuid,
    t: Transform,
    self_id: Uuid,
) -> ReplicatedEntityView {
    if e.net_id == component_id && e.owner_id != self_id {
        ReplicatedEntityView { transform: t, ..e }
    } else {
        e
    }
}

/// A whole table after one inbound transform update.
pub open spec fn spec_apply_transform(
    s: Seq<ReplicatedEntityView>,
    component_id: Uuid,
    t: Transform,
    self_id: Uuid,
) -> Seq<ReplicatedEntityView> {
    s.map(|_i: int, e: ReplicatedEntityView| spec_transform_updated(e, component_id, t, self_id))
}

/// One entity after an inbound input intent from `sender`: the requested
/// rotation and movement are stored — but only where the sender owns the
/// addressed entity.
pub open spec fn spec_input_updated(
    e: ReplicatedEntityView,
    sender: Uuid,
    input: crate::codec::PlayerInputData,
) -> ReplicatedEntityView {
    if e.net_id == input.entity_id && e.owner_id == sender {
        ReplicatedEntityView {
            movement: Movement {
                req_rotation: Some(input.rotation),
                req_movement: Some(input.input),
                ..e.movement
            },
            ..e
        }
    } else {
        e
    }
}

/// A whole table after one inbound input intent.
pub open spec fn spec_apply_input(
    s: Seq<ReplicatedEntityView>,
    sender: Uuid,
    input: crate::codec::PlayerInputData,
) -> Seq<ReplicatedEntityView> {
    s.map(|_i: int, e: ReplicatedEntityView| spec_input_updated(e, sender, input))
}

/// The spec-level contents of a list of replicated entities.
pub open spec fn entity_views(s: Seq<ReplicatedEntity>) -> Seq<ReplicatedEntityView> {
    s.map(|_i: int, e: ReplicatedEntity| e@)
}

/// Applying the same transform update twice yields the same table as
/// applying it once: inbound transform updates are idempotent, so a
/// duplicated datagram is harmless.
pub proof fn lemma_transform_update_idempotent(
    s: Seq<ReplicatedEntityView>,
    component_id: Uuid,
    t: Transform,
    self_id: Uuid,
)
    ensures
        spec_apply_transform(spec_apply_transform(s, component_id, t, self_id), component_id, t, self_id)
            == spec_apply_transform(s, component_id, t, self_id),
{
    assert(spec_apply_transform(
        spec_apply_transform(s, component_id, t, self_id),
        component_id,
        t,
        self_id,
    ) =~= spec_apply_transform(s, component_id, t, self_id));
}

/// Why an inbound player-input message was discarded.
#[derive(Clone, Copy, PartialEq, Eq, Structural, Debug)]
pub enum InputError {
    /// The sender is not the owner of the entity it tried to control: the
    /// one authorization check in the protocol.  The message is discarded
    /// with no further penalty.
    NotOwner,
    /// No replicated entity carries the referenced identity.
    UnknownEntity,
}

/// The table of replicated entities.
pub struct ReplicationTable {
    entries: Vec<ReplicatedEntity>,
}

impl View for ReplicationTable {
    type V = Seq<ReplicatedEntityView>;

    closed spec fn view(&self) -> Seq<ReplicatedEntityView> {
        entity_views(self.entries@)
    }
}

impl ReplicationTable {
    pub open spec fn has_net_id(&self, id: Uuid) -> bool {
        seq_has_net_id(self@, id)
    }

    /// Well-formedness: every `net_id` is unique and none is nil.
    pub open spec fn wf(&self) -> bool {
        &&& forall|i: int, j: int|
            0 <= i < j < self@.len() ==> (#[trigger] self@[i]).net_id != (#[trigger] self@[j]).net_id
        &&& forall|i: int| 0 <= i < self@.len() ==> (#[trigger] self@[i]).net_id != Uuid::nil_id()
    }

    pub fn new() -> (r: ReplicationTable)
        ensures
            r.wf(),
            r@ == Seq::<ReplicatedEntityView>::empty(),
    {
        let r = ReplicationTable { entries: Vec::new() };
        proof {
            assert(r@ =~= Seq::<ReplicatedEntityView>::empty());
        }
        r
    }

    pub fn len(&self) -> (r: usize)
        ensures
            r == self@.len(),
    {
        self.entries.len()
    }

    /// The entity at one position, for per-tick iteration.
    pub fn entity_at(&self, i: usize) -> (r: &ReplicatedEntity)
        requires
            i < self@.len(),
        ensures
            r@ == self@[i as int],
    {
        &self.entries[i]
    }

    fn index_of_net_id(&self, id: Uuid) -> (r: Option<usize>)
        ensures
            match r {
                Some(i) => i < self@.len() && self@[i as int].net_id == id,
                None => !self.has_net_id(id),
            },
    {
        let mut i: usize = 0;
        while i < self.entries.len()
            invariant
                i <= self@.len(),
                forall|k: int| 0 <= k < i ==> (#[trigger] self@[k]).net_id != id,
            decreases self@.len() - i,
        {
            if self.entries[i].replicated.net_id.bits == id.bits {
                return Some(i);
            }
            i = i + 1;
        }
        None
    }

    pub fn contains_net_id(&self, id: Uuid) -> (r: bool)
        ensures
            r == self.has_net_id(id),
    {
        self.index_of_net_id(id).is_some()
    }

    /// Replaces the entity at one position with an updated value carrying
    /// the same `net_id`.
    pub fn replace_at(&mut self, i: usize, entity: ReplicatedEntity)
        requires
            old(self).wf(),
            i < old(self)@.len(),
            entity@.net_id == old(self)@[i as int].net_id,
        ensures
            final(self).wf(),
            final(self)@ == old(self)@.update(i as int, entity@),
    {
        self.entries.set(i, entity);
        proof {
            assert(self@ =~= old(self)@.update(i as int, entity@));
            assert forall|a: int, b: int| 0 <= a < b < self@.len() implies (
            #[trigger] self@[a]).net_id != (#[trigger] self@[b]).net_id by {
                assert(old(self)@[a].net_id == self@[a].net_id);
                assert(old(self)@[b].net_id == self@[b].net_id);
            }
            assert forall|a: int| 0 <= a < self@.len() implies (#[trigger] self@[a]).net_id
                != Uuid::nil_id() by {
                assert(old(self)@[a].net_id == self@[a].net_id);
            }
        }
    }

    /// Attaches a new replicated entity.  Its `net_id` must be unused here
    /// and not nil.
    pub fn spawn(&mut self, entity: ReplicatedEntity)
        requires
            old(self).wf(),
            !old(self).has_net_id(entity@.net_id),
            entity@.net_id != Uuid::nil_id(),
        ensures
            final(self).wf(),
            final(self)@ == old(self)@.push(entity@),
    {
        self.entries.push(entity);
        proof {
            assert(self@ =~= old(self)@.push(entity@));
        }
    }

    /// Overwrites the addressed entity's transform with an inbound update,
    /// unless the local player (`self_id`) owns it: its own prediction is
    /// authoritative for its input loop and is never overridden.  Applying
    /// the most recently processed update last makes last-write-wins.
    pub fn apply_transform_update(&mut self, component_id: Uuid, t: Transform, self_id: Uuid)
        requires
            old(self).wf(),
        ensures
            final(self).wf(),
            final(self)@ == spec_apply_transform(old(self)@, component_id, t, self_id),
    {
        let mut i: usize = 0;
        while i < self.entries.len()
            invariant
                self@.len() == old(self)@.len(),
                i <= self@.len(),
                forall|k: int|
                    0 <= k < i ==> #[trigger] self@[k] == spec_transform_updated(
                        old(self)@[k],
                        component_id,
                        t,
                        self_id,
                    ),
                forall|k: int| i <= k < self@.len() ==> #[trigger] self@[k] == old(self)@[k],
            decreases self@.len() - i,
        {
            let e = &self.entries[i];
            if e.replicated.net_id.bits == component_id.bits
                && e.replicated.owner_id.bits != self_id.bits {
                let ghost before = self@;
                let ghost ev = e@;
                let owner = e.replicated.owner_id;
                let updated = ReplicatedEntity {
                    replicated: NetworkReplicated {
                        net_id: component_id,
                        owner_id: owner,
                        entity_type: crate::codec::copy_bytes(&e.replicated.entity_type),
                    },
                    transform: t,
                    movement: e.movement,
                    camera: e.camera,
                };
                self.entries.set(i, updated);
                proof {
                    assert(ev == before[i as int]);
                    assert(before[i as int] == old(self)@[i as int]);
                    assert(self@ =~= before.update(i as int, updated@));
                    assert(updated@ == spec_transform_updated(ev, component_id, t, self_id));
                }
            }
            i = i + 1;
        }
        proof {
            assert(self@ =~= spec_apply_transform(old(self)@, component_id, t, self_id));
        }
        proof {
            assert forall|i: int, j: int| 0 <= i < j < self@.len() implies (
            #[trigger] self@[i]).net_id != (#[trigger] self@[j]).net_id by {
                assert(old(self)@[i].net_id == self@[i].net_id);
                assert(old(self)@[j].net_id == self@[j].net_id);
            }
            assert forall|i: int| 0 <= i < self@.len() implies (#[trigger] self@[i]).net_id
                != Uuid::nil_id() by {
                assert(old(self)@[i].net_id == self@[i].net_id);
            }
        }
    }

    /// Stores an inbound input intent onto the addressed entity, after the
    /// one authorization check of the protocol: the sender must be the
    /// entity's owner.  On any failure nothing in the table changes.
    pub fn apply_player_input(&mut self, sender: Uuid, input: crate::codec::PlayerInputData) -> (r:
        Result<(), InputError>)
        requires
            old(self).wf(),
        ensures
            final(self).wf(),
            final(self)@ == spec_apply_input(old(self)@, sender, input),
            match r {
                Ok(()) => exists|i: int|
                    0 <= i < old(self)@.len() && (#[trigger] old(self)@[i]).net_id
                        == input.entity_id && old(self)@[i].owner_id == sender,
                Err(InputError::NotOwner) => final(self)@ == old(self)@ && exists|i: int|
                    0 <= i < old(self)@.len() && (#[trigger] old(self)@[i]).net_id
                        == input.entity_id && old(self)@[i].owner_id != sender,
                Err(InputError::UnknownEntity) => final(self)@ == old(self)@ && !old(
                    self,
                ).has_net_id(input.entity_id),
            },
    {
        let r = match self.index_of_net_id(input.entity_id) {
            Some(i) => {
                let e = &self.entries[i];
                if e.replicated.owner_id.bits != sender.bits {
                    proof {
                        assert forall|k: int| 0 <= k < self@.len() implies spec_input_updated(
                            self@[k],
                            sender,
                            input,
                        ) == self@[k] by {
                            if self@[k].net_id == input.entity_id && k != i {
                                if k < i {
                                    assert(self@[k].net_id != self@[i as int].net_id);
                                } else {
                                    assert(self@[i as int].net_id != self@[k].net_id);
                                }
                            }
                        }
                        assert(self@ =~= spec_apply_input(self@, sender, input));
                    }
                    return Err(InputError::NotOwner);
                }
                let ghost before = self@;
                let ghost ev = e@;
                let updated = ReplicatedEntity {
                    replicated: NetworkReplicated {
                        net_id: e.replicated.net_id,
                        owner_id: e.replicated.owner_id,
                        entity_type: crate::codec::copy_bytes(&e.replicated.entity_type),
                    },
                    transform: e.transform,
                    movement: Movement {
                        req_rotation: Some(input.rotation),
                        req_movement: Some(input.input),
                        ..e.movement
                    },
                    camera: e.camera,
                };
                self.entries.set(i, updated);
                proof {
                    assert(ev == before[i as int]);
                    assert(self@ =~= before.update(i as int, updated@));
                    assert(updated@ == spec_input_updated(ev, sender, input));
                    assert forall|k: int| 0 <= k < self@.len() implies self@[k]
                        == spec_input_updated(before[k], sender, input) by {
                        if k != i && before[k].net_id == input.entity_id {
                            if k < i {
                                assert(before[k].net_id != before[i as int].net_id);
                            } else {
                                assert(before[i as int].net_id != before[k].net_id);
                            }
                        }
                    }
                    assert(self@ =~= spec_apply_input(before, sender, input));
                    assert forall|a: int, b: int| 0 <= a < b < self@.len() implies (
                    #[trigger] self@[a]).net_id != (#[trigger] self@[b]).net_id by {
                        assert(before[a].net_id == self@[a].net_id);
                        assert(before[b].net_id == self@[b].net_id);
                    }
                    assert forall|a: int| 0 <= a < self@.len() implies (#[trigger] self@[a]).net_id
                        != Uuid::nil_id() by {
                        assert(before[a].net_id == self@[a].net_id);
                    }
                }
                Ok(())
            },
            None => {
                proof {
                    assert forall|k: int| 0 <= k < self@.len() implies spec_input_updated(
                        self@[k],
                        sender,
                        input,
                    ) == self@[k] by {}
                    assert(self@ =~= spec_apply_input(self@, sender, input));
                }
                Err(InputError::UnknownEntity)
            },
        };
        r
    }

    /// Removes every entity owned by any of the listed owners, and returns
    /// how many were removed.  Run when sessions end, so that nothing they
    /// owned outlives them.
    pub fn remove_owned_by(&mut self, owners: &Vec<Uuid>) -> (removed: usize)
        requires
            old(self).wf(),
        ensures
            final(self).wf(),
            final(self)@ == old(self)@.filter(not_owned_by_any(owners@)),
            removed == old(self)@.len() - final(self)@.len(),
    {
        let mut kept: Vec<ReplicatedEntity> = Vec::new();
        let mut i: usize = 0;
        proof {
            assert(old(self)@.take(0).filter(not_owned_by_any(owners@)) =~= Seq::<
                ReplicatedEntityView,
            >::empty());
            assert(entity_views(kept@) =~= Seq::<ReplicatedEntityView>::empty());
        }
        while i < self.entries.len()
            invariant
                self@ == old(self)@,
                i <= self@.len(),
                entity_views(kept@) == old(self)@.take(i as int).filter(not_owned_by_any(owners@)),
            decreases self@.len() - i,
        {
            let ghost t0 = old(self)@.take(i as int);
            let ghost t1 = old(self)@.take(i + 1);
            let e = &self.entries[i];
            let keep_it = !crate::ids::uuid_list_contains(owners, e.replicated.owner_id);
            proof {
                assert(t1.drop_last() =~= t0);
                assert(t1.last() == old(self)@[i as int]);
                reveal(Seq::filter);
            }
            if keep_it {
                let ghost kv = entity_views(kept@);
                let copied = ReplicatedEntity {
                    replicated: NetworkReplicated {
                        net_id: e.replicated.net_id,
                        owner_id: e.replicated.owner_id,
                        entity_type: crate::codec::copy_bytes(&e.replicated.entity_type),
                    },
                    transform: e.transform,
                    movement: e.movement,
                    camera: e.camera,
                };
                proof {
                    assert(copied@ == old(self)@[i as int]);
                }
                kept.push(copied);
                proof {
                    assert(entity_views(kept@) =~= kv.push(old(self)@[i as int]));
                }
            }
            i = i + 1;
        }
        proof {
            assert(old(self)@.take(old(self)@.len() as int) =~= old(self)@);
        }
        let removed = self.entries.len() - kept.len();
        self.entries = kept;
        proof {
            let olds = old(self)@;
            let news = self@;
            olds.lemma_filter_len(not_owned_by_any(owners@));
            assert forall|i: int, j: int| 0 <= i < j < news.len() implies (
            #[trigger] news[i]).net_id != (#[trigger] news[j]).net_id by {
                lemma_entity_filter_positions(olds, not_owned_by_any(owners@), i, j);
            }
            assert forall|i: int| 0 <= i < news.len() implies (#[trigger] news[i]).net_id
                != Uuid::nil_id() by {
                assert(news.contains(news[i]));
                olds.lemma_filter_contains_rev(not_owned_by_any(owners@), news[i]);
                let w = choose|k: int| 0 <= k < olds.len() && olds[k] == news[i];
                assert(olds[w].net_id != Uuid::nil_id());
            }
        }
        removed
    }
}

/// Two distinct positions of a filtered entity list come from two distinct
/// positions of the original, in the same order.
proof fn lemma_entity_filter_positions(
    s: Seq<ReplicatedEntityView>,
    pred: spec_fn(ReplicatedEntityView) -> bool,
    i: int,
    j: int,
)
    requires
        0 <= i < j < s.filter(pred).len(),
    ensures
        exists|a: int, b: int|
            0 <= a < b < s.len() && s[a] == #[trigger] s.filter(pred)[i] && s[b]
                == #[trigger] s.filter(pred)[j],
    decreases s.len(),
{
    reveal(Seq::filter);
    let f = s.filter(pred);
    if s.len() > 0 {
        let rest = s.drop_last();
        let last = s.last();
        if pred(last) && j == f.len() - 1 {
            assert(rest.filter(pred).contains(f[i]));
            rest.lemma_filter_contains_rev(pred, f[i]);
            let a = choose|a: int| 0 <= a < rest.len() && rest[a] == f[i];
            assert(s[a] == f[i]);
            assert(s[s.len() - 1] == f[j]);
        } else {
            lemma_entity_filter_positions(rest, pred, i, j);
            let (a, b) = choose|a: int, b: int|
                0 <= a < b < rest.len() && rest[a] == #[trigger] rest.filter(pred)[i] && rest[b]
                    == #[trigger] rest.filter(pred)[j];
            assert(s[a] == rest[a] && s[b] == rest[b]);
        }
    }
}

} // verus!

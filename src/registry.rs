//! An arena of generation-counted slots: the uniform identifier space that
//! every resource table of the actor is built on.

use vstd::prelude::*;
use crate::ids::{Backend, RawId};

verus! {

/// The largest generation a slot can reach; a slot retired at this
/// generation is never handed out again.
pub const MAX_EPOCH: u32 = 0xffff_ffff;

/// The largest number of slots an arena holds.
pub const MAX_SLOTS: usize = 0xffff_ffff;

pub struct Slot<T> {
    pub epoch: u32,
    pub backend: Backend,
    pub value: Option<T>,
}

/// Resources of one identifier space.  A slot's generation grows each time
/// its occupant is retired, so an identifier names at most one resource over
/// the whole life of the arena.
pub struct Registry<T> {
    slots: Vec<Slot<T>>,
    retired: Ghost<Set<RawId>>,
}

impl<T> Registry<T> {
    pub closed spec fn slots(&self) -> Seq<Slot<T>> {
        self.slots@
    }

    /// The identifiers that were live once and have been retired since.
    pub closed spec fn retired(&self) -> Set<RawId> {
        self.retired@
    }

    pub closed spec fn holds(&self, id: RawId) -> bool {
        &&& (id.index as int) < self.slots().len()
        &&& self.slots()[id.index as int].value is Some
        &&& self.slots()[id.index as int].epoch == id.epoch
        &&& self.slots()[id.index as int].backend == id.backend
    }

    /// The live resources, keyed by their identifiers.
    pub closed spec fn view(&self) -> Map<RawId, T> {
        Map::new(|id: RawId| self.holds(id), |id: RawId| self.slots()[id.index as int].value->0)
    }

    pub closed spec fn reusable(&self, i: int) -> bool {
        self.slots()[i].value is None && self.slots()[i].epoch < MAX_EPOCH
    }

    /// Whether another resource can be registered.
    pub closed spec fn has_room(&self) -> bool {
        self.slots().len() < MAX_SLOTS || exists|i: int| 0 <= i < self.slots().len() && self.reusable(i)
    }

    /// A retired identifier's slot has moved past its generation, or was
    /// retired at the last generation and stays empty for good.
    pub closed spec fn stays_retired(&self, r: RawId) -> bool {
        &&& (r.index as int) < self.slots().len()
        &&& {
            ||| r.epoch < self.slots()[r.index as int].epoch
            ||| (r.epoch == MAX_EPOCH && self.slots()[r.index as int].epoch == MAX_EPOCH
                && self.slots()[r.index as int].value is None)
        }
    }

    pub closed spec fn wf(&self) -> bool {
        &&& self.slots().len() <= MAX_SLOTS
        &&& forall|r: RawId| #[trigger] self.retired().contains(r) ==> self.stays_retired(r)
    }

    pub fn new() -> (r: Self)
        ensures
            r.wf(),
            r@ == Map::<RawId, T>::empty(),
            r.retired() == Set::<RawId>::empty(),
            r.has_room(),
    {
        let r = Registry { slots: Vec::new(), retired: Ghost(Set::empty()) };
        assert(r@ =~= Map::<RawId, T>::empty());
        r
    }

    /// Looks an identifier up; only a live identifier of the current
    /// generation finds its resource.
    pub fn get(&self, id: RawId) -> (r: Option<&T>)
        ensures
            r is Some <==> self@.contains_key(id),
            r is Some ==> *r->0 == self@[id],
    {
        let i = id.index as usize;
        if i < self.slots.len() {
            let slot = &self.slots[i];
            if slot.epoch == id.epoch && slot.backend == id.backend {
                match &slot.value {
                    Some(v) => Some(v),
                    None => None,
                }
            } else {
                None
            }
        } else {
            None
        }
    }

    /// Registers a resource under a fresh identifier of the given backend:
    /// the first reusable slot, or a new one.
    pub fn allocate(&mut self, backend: Backend, value: T) -> (r: Option<RawId>)
        requires
            old(self).wf(),
        ensures
            final(self).wf(),
            final(self).retired() == old(self).retired(),
            r is Some <==> old(self).has_room(),
            match r {
                Some(id) => {
                    &&& id.backend == backend
                    &&& !old(self)@.contains_key(id)
                    &&& !old(self).retired().contains(id)
                    &&& forall|x: RawId| #[trigger] old(self).retired().contains(x) && x.index == id.index ==> x.epoch < id.epoch
                    &&& final(self)@ == old(self)@.insert(id, value)
                },
                None => *final(self) == *old(self),
            },
    {
        let mut i: usize = 0;
        while i < self.slots.len()
            invariant
                *self == *old(self),
                self.wf(),
                i <= self.slots.len(),
                forall|j: int| 0 <= j < i ==> !self.reusable(j),
            decreases self.slots.len() - i,
        {
            if self.slots[i].value.is_none() && self.slots[i].epoch < MAX_EPOCH {
                let epoch = self.slots[i].epoch;
                let id = RawId { backend, index: i as u32, epoch };
                proof {
                    assert(!old(self)@.contains_key(id));
                    assert(old(self).reusable(i as int));
                    assert forall|x: RawId| #[trigger] old(self).retired().contains(x) && x.index == id.index implies x.epoch
                        < id.epoch by {
                        assert(old(self).stays_retired(x));
                    }
                }
                self.slots.set(i, Slot { epoch, backend, value: Some(value) });
                proof {
                    assert(self@ =~= old(self)@.insert(id, value));
                    assert forall|r: RawId| #[trigger] self.retired().contains(r) implies self.stays_retired(r) by {
                        assert(old(self).retired().contains(r));
                    }
                }
                return Some(id);
            }
            i += 1;
        }
        if self.slots.len() < MAX_SLOTS {
            let id = RawId { backend, index: self.slots.len() as u32, epoch: 0 };
            proof {
                assert forall|x: RawId| #[trigger] old(self).retired().contains(x) && x.index == id.index implies x.epoch
                    < id.epoch by {
                    assert(old(self).stays_retired(x));
                }
            }
            self.slots.push(Slot { epoch: 0, backend, value: Some(value) });
            proof {
                assert(self@ =~= old(self)@.insert(id, value));
                assert forall|r: RawId| #[trigger] self.retired().contains(r) implies self.stays_retired(r) by {
                    assert(old(self).retired().contains(r));
                    assert(self.slots()[r.index as int] == old(self).slots()[r.index as int]);
                }
            }
            Some(id)
        } else {
            proof {
                assert(!old(self).has_room());
            }
            None
        }
    }

    /// Replaces the resource that a live identifier names.
    pub fn set(&mut self, id: RawId, value: T)
        requires
            old(self).wf(),
            old(self)@.contains_key(id),
        ensures
            final(self).wf(),
            final(self).retired() == old(self).retired(),
            final(self).has_room() == old(self).has_room(),
            final(self)@ == old(self)@.insert(id, value),
    {
        self.slots.set(id.index as usize, Slot { epoch: id.epoch, backend: id.backend, value: Some(value) });
        proof {
            assert(self@ =~= old(self)@.insert(id, value));
            assert(forall|j: int| 0 <= j < self.slots().len() ==> self.reusable(j) == old(self).reusable(j));
            assert forall|r: RawId| #[trigger] self.retired().contains(r) implies self.stays_retired(r) by {
                assert(old(self).retired().contains(r));
            }
            if old(self).has_room() && old(self).slots().len() >= MAX_SLOTS {
                let j = choose|j: int| 0 <= j < old(self).slots().len() && old(self).reusable(j);
                assert(self.reusable(j));
            }
        }
    }

    /// Puts `slot` in place of the slot at `i` and hands the old one back.
    fn swap_slot(&mut self, i: usize, slot: Slot<T>) -> (r: Slot<T>)
        requires
            i < old(self).slots@.len(),
        ensures
            r == old(self).slots@[i as int],
            final(self).slots@ == old(self).slots@.update(i as int, slot),
            final(self).retired == old(self).retired,
    {
        self.slots.push(slot);
        let r = self.slots.swap_remove(i);
        proof {
            assert(self.slots@ =~= old(self).slots@.update(i as int, slot));
        }
        r
    }

    /// Replaces the resource that a live identifier names and hands the
    /// old one back.
    pub fn exchange(&mut self, id: RawId, value: T) -> (r: T)
        requires
            old(self).wf(),
            old(self)@.contains_key(id),
        ensures
            final(self).wf(),
            final(self).retired() == old(self).retired(),
            final(self).has_room() == old(self).has_room(),
            r == old(self)@[id],
            final(self)@ == old(self)@.insert(id, value),
    {
        let old_slot = self.swap_slot(
            id.index as usize,
            Slot { epoch: id.epoch, backend: id.backend, value: Some(value) },
        );
        proof {
            assert(self@ =~= old(self)@.insert(id, value));
            assert(forall|j: int| 0 <= j < self.slots().len() ==> self.reusable(j) == old(self).reusable(j));
            assert forall|r: RawId| #[trigger] self.retired().contains(r) implies self.stays_retired(r) by {
                assert(old(self).retired().contains(r));
            }
            if old(self).has_room() && old(self).slots().len() >= MAX_SLOTS {
                let j = choose|j: int| 0 <= j < old(self).slots().len() && old(self).reusable(j);
                assert(self.reusable(j));
            }
        }
        old_slot.value.unwrap()
    }

    /// Retires an identifier: its slot's generation moves on, so the
    /// identifier never resolves again.  Hands back what it named, if it
    /// was live.
    pub fn retire(&mut self, id: RawId) -> (r: Option<T>)
        requires
            old(self).wf(),
        ensures
            final(self).wf(),
            r is Some <==> old(self)@.contains_key(id),
            r is Some ==> r->0 == old(self)@[id],
            final(self)@ == old(self)@.remove(id),
            old(self).has_room() ==> final(self).has_room(),
            final(self).retired() == (if r is Some {
                old(self).retired().insert(id)
            } else {
                old(self).retired()
            }),
    {
        let i = id.index as usize;
        if i < self.slots.len() && self.slots[i].epoch == id.epoch && self.slots[i].backend == id.backend
            && self.slots[i].value.is_some() {
            let epoch = if id.epoch < MAX_EPOCH {
                id.epoch + 1
            } else {
                id.epoch
            };
            let old_slot = self.swap_slot(i, Slot { epoch, backend: id.backend, value: None });
            self.retired = Ghost(self.retired@.insert(id));
            proof {
                assert(self@ =~= old(self)@.remove(id));
                assert forall|r: RawId| #[trigger] self.retired().contains(r) implies self.stays_retired(r) by {
                    if r != id {
                        assert(old(self).retired().contains(r));
                    }
                }
                if old(self).has_room() && old(self).slots().len() >= MAX_SLOTS {
                    let j = choose|j: int| 0 <= j < old(self).slots().len() && old(self).reusable(j);
                    assert(j != i);
                    assert(self.reusable(j));
                }
            }
            old_slot.value
        } else {
            proof {
                assert(self@ =~= old(self)@.remove(id));
            }
            None
        }
    }

    /// Once retired, an identifier stays unknown to the arena.
    pub proof fn lemma_retired_is_unknown(&self, id: RawId)
        requires
            self.wf(),
            self.retired().contains(id),
        ensures
            !self@.contains_key(id),
    {
    }

    /// No two live resources share a slot.
    pub proof fn lemma_live_index_unique(&self, a: RawId, b: RawId)
        requires
            self@.contains_key(a),
            self@.contains_key(b),
            a.index == b.index,
        ensures
            a == b,
    {
    }
}

} // verus!

//! Storage for retained objects, addressed by generation-checked handles.
use vstd::prelude::*;

verus! {

/// Identifies a retained object: a slot and the generation the slot had
/// when the object was stored.
#[derive(Clone, Copy, Debug, PartialEq, Eq, Hash, Structural)]
pub struct ObjectHandle {
    pub index: usize,
    pub generation: u32,
}

struct Slot<T> {
    generation: u32,
    value: Option<T>,
    /// Set once the generation is used up: the slot is never reused.
    retired: bool,
}

/// A slot map whose handles go stale on removal: a slot is reused only under
/// a newer generation, so a removed handle never finds an object again.
pub struct ObjectArena<T> {
    slots: Vec<Slot<T>>,
    free: Vec<usize>,
}

impl<T> ObjectArena<T> {
    pub closed spec fn is_live(&self, h: ObjectHandle) -> bool {
        &&& h.index < self.slots@.len()
        &&& self.slots@[h.index as int].value is Some
        &&& self.slots@[h.index as int].generation == h.generation
    }

    /// The live objects by handle.
    pub closed spec fn live(&self) -> Map<ObjectHandle, T> {
        Map::new(
            |h: ObjectHandle| self.is_live(h),
            |h: ObjectHandle| self.slots@[h.index as int].value->Some_0,
        )
    }

    /// Handles whose object has been removed; none of them is ever live again.
    pub closed spec fn is_retired(&self, h: ObjectHandle) -> bool {
        &&& h.index < self.slots@.len()
        &&& {
            ||| h.generation < self.slots@[h.index as int].generation
            ||| (self.slots@[h.index as int].retired && h.generation
                == self.slots@[h.index as int].generation)
        }
    }

    /// Number of slots; every handle of a live object has a smaller index.
    pub closed spec fn capacity(&self) -> nat {
        self.slots@.len()
    }

    pub closed spec fn wf(&self) -> bool {
        &&& self.free@.no_duplicates()
        &&& forall|k: int|
            0 <= k < self.free@.len() ==> {
                &&& #[trigger] self.free@[k] < self.slots@.len()
                &&& self.slots@[self.free@[k] as int].value is None
                &&& !self.slots@[self.free@[k] as int].retired
            }
        &&& forall|i: int|
            0 <= i < self.slots@.len() && #[trigger] self.slots@[i].retired ==> self.slots@[i].value is None
    }

    pub fn new() -> (a: ObjectArena<T>)
        ensures
            a.wf(),
            a.live() == Map::<ObjectHandle, T>::empty(),
            forall|h: ObjectHandle| !a.is_retired(h),
    {
        let a = ObjectArena { slots: Vec::new(), free: Vec::new() };
        assert(a.live() =~= Map::<ObjectHandle, T>::empty());
        a
    }

    pub fn slot_count(&self) -> (n: usize)
        ensures
            n == self.capacity(),
    {
        self.slots.len()
    }

    /// The handle of the object in slot `index`, if the slot holds one.
    pub fn handle_at(&self, index: usize) -> (r: Option<ObjectHandle>)
        ensures
            match r {
                Some(h) => {
                    &&& h.index == index
                    &&& self.live().contains_key(h)
                    &&& forall|g: ObjectHandle|
                        g.index == index && #[trigger] self.live().contains_key(g) ==> g == h
                },
                None => forall|h: ObjectHandle| h.index == index ==> !self.live().contains_key(h),
            },
    {
        if index < self.slots.len() && self.slots[index].value.is_some() {
            Some(ObjectHandle { index, generation: self.slots[index].generation })
        } else {
            None
        }
    }

    /// Every live handle lies below the capacity.
    pub proof fn lemma_live_below_capacity(&self, h: ObjectHandle)
        requires
            self.live().contains_key(h),
        ensures
            h.index < self.capacity(),
    {
    }

    /// The object under `h`, unless `h` is stale or unknown.
    pub fn get(&self, h: ObjectHandle) -> (r: Option<&T>)
        ensures
            r == if self.live().contains_key(h) {
                Some(&self.live()[h])
            } else {
                None::<&T>
            },
    {
        if h.index < self.slots.len() && self.slots[h.index].generation == h.generation {
            match &self.slots[h.index].value {
                Some(v) => Some(v),
                None => None,
            }
        } else {
            None
        }
    }

    /// Stores `value` under a handle that was never live nor retired.
    pub fn insert(&mut self, value: T) -> (h: ObjectHandle)
        requires
            old(self).wf(),
        ensures
            final(self).wf(),
            !old(self).live().contains_key(h),
            !old(self).is_retired(h),
            final(self).live() == old(self).live().insert(h, value),
            forall|g: ObjectHandle| #[trigger] final(self).is_retired(g) == old(self).is_retired(g),
            final(self).capacity() >= old(self).capacity(),
    {
        let ghost old_live = self.live();
        if self.free.len() > 0 {
            let i = self.free.pop().unwrap();
            proof {
                assert(self.free@ =~= old(self).free@.drop_last());
                assert(old(self).free@[old(self).free@.len() - 1] == i);
            }
            let generation = self.slots[i].generation;
            let mut slot = Slot { generation, value: Some(value), retired: false };
            std::mem::swap(&mut self.slots[i], &mut slot);
            let h = ObjectHandle { index: i, generation };
            proof {
                assert forall|k: int| 0 <= k < self.free@.len() implies #[trigger] self.free@[k] != i by {
                    assert(old(self).free@[k] != old(self).free@[old(self).free@.len() - 1]);
                }
                assert(self.live() =~= old_live.insert(h, value));
            }
            h
        } else {
            let i = self.slots.len();
            self.slots.push(Slot { generation: 0, value: Some(value), retired: false });
            let h = ObjectHandle { index: i, generation: 0 };
            proof {
                assert(self.live() =~= old_live.insert(h, value));
            }
            h
        }
    }

    /// Removes the object under `h` and returns it; a stale or unknown
    /// handle changes nothing.
    pub fn remove(&mut self, h: ObjectHandle) -> (r: Option<T>)
        requires
            old(self).wf(),
        ensures
            final(self).wf(),
            r == if old(self).live().contains_key(h) {
                Some(old(self).live()[h])
            } else {
                None::<T>
            },
            final(self).live() == old(self).live().remove(h),
            forall|g: ObjectHandle| #[trigger]
                final(self).is_retired(g) == (old(self).is_retired(g) || (g == h
                    && old(self).live().contains_key(h))),
            final(self).capacity() == old(self).capacity(),
    {
        let ghost old_live = self.live();
        if h.index < self.slots.len() && self.slots[h.index].generation == h.generation
            && self.slots[h.index].value.is_some() {
            let i = h.index;
            let exhausted = h.generation == u32::MAX;
            let next = if exhausted { h.generation } else { h.generation + 1 };
            let mut slot = Slot { generation: next, value: None, retired: exhausted };
            std::mem::swap(&mut self.slots[i], &mut slot);
            if !exhausted {
                proof {
                    assert forall|k: int| 0 <= k < self.free@.len() implies #[trigger] self.free@[k] != i by {
                    }
                }
                self.free.push(i);
            }
            proof {
                assert(self.live() =~= old_live.remove(h));
            }
            slot.value
        } else {
            proof {
                assert(self.live() =~= old_live.remove(h));
            }
            None
        }
    }
}

/// A retired handle is never live: once an object is removed, no later
/// lookup finds anything under its handle.
pub proof fn lemma_retired_never_live<T>(arena: &ObjectArena<T>, h: ObjectHandle)
    requires
        arena.wf(),
        arena.is_retired(h),
    ensures
        !arena.live().contains_key(h),
{
}

} // verus!

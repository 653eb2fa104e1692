use vstd::prelude::*;

verus! {

/// A stable handle into a `Store`: a slot index and the slot's generation
/// at the time the value was inserted.
#[derive(Clone, Copy, Debug, PartialEq, Eq, Structural, Hash, PartialOrd, Ord)]
pub struct Entity {
    pub index: usize,
    pub generation: u32,
}

struct Slot<T> {
    generation: u32,
    value: Option<T>,
    /// The generation ran out: the slot is never used again.
    retired: bool,
}

/// A generational table of values. Removing a value bumps its slot's
/// generation, so a handle to a removed value never resolves again, even
/// after the slot is reused.
pub struct Store<T> {
    slots: Vec<Slot<T>>,
    free: Vec<usize>,
    live: Ghost<Map<Entity, T>>,
    dead: Ghost<Set<Entity>>,
}

impl<T> View for Store<T> {
    type V = Map<Entity, T>;

    closed spec fn view(&self) -> Map<Entity, T> {
        self.live@
    }
}

impl<T> Store<T> {
    /// The handles whose values have been removed.
    pub closed spec fn retired(&self) -> Set<Entity> {
        self.dead@
    }

    /// The slots, the free list and the ghost views agree.
    pub closed spec fn wf(&self) -> bool {
        &&& self.live@.dom().finite()
        &&& forall|e: Entity| #[trigger]
            self.live@.contains_key(e) <==> {
                &&& e.index < self.slots@.len()
                &&& self.slots@[e.index as int].value is Some
                &&& self.slots@[e.index as int].generation == e.generation
            }
        &&& forall|e: Entity| #[trigger]
            self.live@.contains_key(e) ==> self.slots@[e.index as int].value == Some(
                self.live@[e],
            )
        &&& forall|k: int| 0 <= k < self.free@.len() ==> #[trigger] self.free@[k] < self.slots@.len()
        &&& forall|i: int| 0 <= i < self.slots@.len() && #[trigger] self.slots@[i].retired ==> self.slots@[i].value is None
        &&& forall|d: Entity| #[trigger]
            self.dead@.contains(d) ==> d.index < self.slots@.len() && (d.generation
                < self.slots@[d.index as int].generation || (d.generation
                == self.slots@[d.index as int].generation && self.slots@[d.index as int].retired))
    }

    /// A removed handle never resolves again.
    pub proof fn lemma_retired_not_live(&self, e: Entity)
        requires
            self.wf(),
            self.retired().contains(e),
        ensures
            !self@.contains_key(e),
    {
    }

    /// A table holds finitely many values.
    pub proof fn lemma_view_finite(&self)
        requires
            self.wf(),
        ensures
            self@.dom().finite(),
    {
    }

    /// An empty table.
    pub fn new() -> (r: Store<T>)
        ensures
            r.wf(),
            r@ == Map::<Entity, T>::empty(),
            r.retired() == Set::<Entity>::empty(),
    {
        Store { slots: Vec::new(), free: Vec::new(), live: Ghost(Map::empty()), dead: Ghost(Set::empty()) }
    }

    /// Inserts `value` under a handle that no live value holds and that
    /// was never removed.
    pub fn spawn(&mut self, value: T) -> (e: Entity)
        requires
            old(self).wf(),
        ensures
            final(self).wf(),
            !old(self)@.contains_key(e),
            !old(self).retired().contains(e),
            final(self)@ == old(self)@.insert(e, value),
            final(self).retired() == old(self).retired(),
    {
        let mut reuse: Option<usize> = None;
        if self.free.len() > 0 {
            let i = self.free.pop().unwrap();
            if self.slots[i].value.is_none() && !self.slots[i].retired {
                reuse = Some(i);
            }
        }
        let e = match reuse {
            Some(i) => {
                let g = self.slots[i].generation;
                let mut s = Slot { generation: g, value: Some(value), retired: false };
                core::mem::swap(&mut self.slots[i], &mut s);
                Entity { index: i, generation: g }
            },
            None => {
                let i = self.slots.len();
                self.slots.push(Slot { generation: 0, value: Some(value), retired: false });
                Entity { index: i, generation: 0 }
            },
        };
        proof {
            self.live@ = self.live@.insert(e, value);
            assert forall|i: int| 0 <= i < self.slots@.len() && #[trigger] self.slots@[i].retired implies self.slots@[i].value is None by {
                assert(i != e.index);
                assert(self.slots@[i] == old(self).slots@[i]);
            }
            assert forall|d: Entity| #[trigger] self.dead@.contains(d) implies d.index < self.slots@.len() && (d.generation
                < self.slots@[d.index as int].generation || (d.generation
                == self.slots@[d.index as int].generation && self.slots@[d.index as int].retired)) by {
                if d.index != e.index {
                    assert(self.slots@[d.index as int] == old(self).slots@[d.index as int]);
                }
            }
            assert forall|k: int| 0 <= k < self.free@.len() implies #[trigger] self.free@[k] < self.slots@.len() by {
                assert(self.free@[k] == old(self).free@[k]);
            }
            assert forall|f: Entity| #[trigger]
                self.live@.contains_key(f) <==> {
                    &&& f.index < self.slots@.len()
                    &&& self.slots@[f.index as int].value is Some
                    &&& self.slots@[f.index as int].generation == f.generation
                } by {
                if f != e && f.index < old(self).slots@.len() && f.index != e.index {
                    assert(self.slots@[f.index as int] == old(self).slots@[f.index as int]);
                }
            }
            assert forall|f: Entity| #[trigger]
                self.live@.contains_key(f) implies self.slots@[f.index as int].value == Some(
                    self.live@[f],
                ) by {
                if f != e {
                    assert(f.index != e.index);
                    assert(self.slots@[f.index as int] == old(self).slots@[f.index as int]);
                }
            }
        }
        e
    }

    /// Removes the value under `e`, if `e` is live, and hands it back.
    pub fn despawn(&mut self, e: Entity) -> (r: Option<T>)
        requires
            old(self).wf(),
        ensures
            final(self).wf(),
            r == (if old(self)@.contains_key(e) {
                Some(old(self)@[e])
            } else {
                None::<T>
            }),
            final(self)@ == old(self)@.remove(e),
            !final(self)@.contains_key(e),
            final(self).retired() == (if old(self)@.contains_key(e) {
                old(self).retired().insert(e)
            } else {
                old(self).retired()
            }),
    {
        if e.index >= self.slots.len() {
            proof {
                assert(self.live@.remove(e) =~= self.live@);
            }
            return None;
        }
        let g = self.slots[e.index].generation;
        if g != e.generation || self.slots[e.index].value.is_none() {
            proof {
                assert(self.live@.remove(e) =~= self.live@);
            }
            return None;
        }
        let retire = g == u32::MAX;
        let next = if retire { g } else { g + 1 };
        let mut s = Slot { generation: next, value: None, retired: retire };
        core::mem::swap(&mut self.slots[e.index], &mut s);
        if !retire {
            self.free.push(e.index);
        }
        proof {
            self.live@ = self.live@.remove(e);
            self.dead@ = self.dead@.insert(e);
            assert forall|i: int| 0 <= i < self.slots@.len() && #[trigger] self.slots@[i].retired implies self.slots@[i].value is None by {
                if i != e.index {
                    assert(self.slots@[i] == old(self).slots@[i]);
                }
            }
            assert forall|d: Entity| #[trigger] self.dead@.contains(d) implies d.index < self.slots@.len() && (d.generation
                < self.slots@[d.index as int].generation || (d.generation
                == self.slots@[d.index as int].generation && self.slots@[d.index as int].retired)) by {
                if d.index != e.index {
                    assert(self.slots@[d.index as int] == old(self).slots@[d.index as int]);
                } else if d != e {
                    assert(old(self).dead@.contains(d));
                }
            }
            assert forall|k: int| 0 <= k < self.free@.len() implies #[trigger] self.free@[k] < self.slots@.len() by {
                if k < old(self).free@.len() {
                    assert(self.free@[k] == old(self).free@[k]);
                }
            }
            assert forall|f: Entity| #[trigger]
                self.live@.contains_key(f) <==> {
                    &&& f.index < self.slots@.len()
                    &&& self.slots@[f.index as int].value is Some
                    &&& self.slots@[f.index as int].generation == f.generation
                } by {
                if f.index < self.slots@.len() && f.index != e.index {
                    assert(self.slots@[f.index as int] == old(self).slots@[f.index as int]);
                }
            }
            assert forall|f: Entity| #[trigger]
                self.live@.contains_key(f) implies self.slots@[f.index as int].value == Some(
                    self.live@[f],
                ) by {
                assert(f.index != e.index);
                assert(self.slots@[f.index as int] == old(self).slots@[f.index as int]);
            }
        }
        s.value
    }

    /// The value under `e`, if `e` is live.
    pub fn get(&self, e: Entity) -> (r: Option<&T>)
        requires
            self.wf(),
        ensures
            r is Some <==> self@.contains_key(e),
            r matches Some(v) ==> *v == self@[e],
    {
        if e.index < self.slots.len() && self.slots[e.index].generation == e.generation {
            match &self.slots[e.index].value {
                Some(v) => Some(v),
                None => None,
            }
        } else {
            None
        }
    }

    /// Puts `value` under `e`, if `e` is live, and hands back the value it held.
    pub fn replace(&mut self, e: Entity, value: T) -> (r: Option<T>)
        requires
            old(self).wf(),
        ensures
            final(self).wf(),
            r == (if old(self)@.contains_key(e) {
                Some(old(self)@[e])
            } else {
                None::<T>
            }),
            final(self)@ == (if old(self)@.contains_key(e) {
                old(self)@.insert(e, value)
            } else {
                old(self)@
            }),
            final(self).retired() == old(self).retired(),
    {
        if !self.contains(e) {
            return None;
        }
        let mut s = Slot { generation: e.generation, value: Some(value), retired: false };
        core::mem::swap(&mut self.slots[e.index], &mut s);
        proof {
            self.live@ = self.live@.insert(e, value);
            assert forall|i: int| 0 <= i < self.slots@.len() && #[trigger] self.slots@[i].retired implies self.slots@[i].value is None by {
                assert(i != e.index);
                assert(self.slots@[i] == old(self).slots@[i]);
            }
            assert forall|d: Entity| #[trigger] self.dead@.contains(d) implies d.index < self.slots@.len() && (d.generation
                < self.slots@[d.index as int].generation || (d.generation
                == self.slots@[d.index as int].generation && self.slots@[d.index as int].retired)) by {
                if d.index != e.index {
                    assert(self.slots@[d.index as int] == old(self).slots@[d.index as int]);
                }
            }
            assert forall|f: Entity| #[trigger]
                self.live@.contains_key(f) <==> {
                    &&& f.index < self.slots@.len()
                    &&& self.slots@[f.index as int].value is Some
                    &&& self.slots@[f.index as int].generation == f.generation
                } by {
                if f.index < self.slots@.len() && f.index != e.index {
                    assert(self.slots@[f.index as int] == old(self).slots@[f.index as int]);
                }
            }
            assert forall|f: Entity| #[trigger]
                self.live@.contains_key(f) implies self.slots@[f.index as int].value == Some(
                    self.live@[f],
                ) by {
                if f != e {
                    assert(f.index != e.index);
                    assert(self.slots@[f.index as int] == old(self).slots@[f.index as int]);
                }
            }
        }
        s.value
    }

    /// Whether `e` is live.
    pub fn contains(&self, e: Entity) -> (r: bool)
        requires
            self.wf(),
        ensures
            r == self@.contains_key(e),
    {
        e.index < self.slots.len() && self.slots[e.index].generation == e.generation
            && self.slots[e.index].value.is_some()
    }

    /// All live handles, in slot order.
    pub fn handles(&self) -> (r: Vec<Entity>)
        requires
            self.wf(),
        ensures
            forall|e: Entity| r@.contains(e) <==> self@.contains_key(e),
    {
        let mut r: Vec<Entity> = Vec::new();
        let mut i: usize = 0;
        while i < self.slots.len()
            invariant
                self.wf(),
                i <= self.slots@.len(),
                forall|e: Entity| r@.contains(e) <==> (self@.contains_key(e) && e.index < i),
            decreases self.slots@.len() - i,
        {
            if self.slots[i].value.is_some() {
                let e = Entity { index: i, generation: self.slots[i].generation };
                proof {
                    assert forall|f: Entity| r@.push(e).contains(f) <==> (self@.contains_key(f) && f.index < i + 1) by {
                        if f == e {
                            assert(r@.push(e)[r@.len() as int] == e);
                        }
                        if r@.push(e).contains(f) && f != e {
                            let k = choose|k: int| 0 <= k < r@.push(e).len() && r@.push(e)[k] == f;
                            assert(r@[k] == f);
                        }
                        if r@.contains(f) {
                            let k = choose|k: int| 0 <= k < r@.len() && r@[k] == f;
                            assert(r@.push(e)[k] == f);
                        }
                    }
                }
                r.push(e);
            }
            i += 1;
        }
        r
    }
}

} // verus!

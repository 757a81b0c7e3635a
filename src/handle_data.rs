use vstd::prelude::*;

verus! {

/// Per-handle attached data: an arena of typed payloads with a free list.
/// A window's reserved storage slot holds a token into the arena; token 0
/// means that nothing is attached.
pub struct HandleData<T> {
    slots: Vec<Option<T>>,
    free: Vec<usize>,
}

impl<T> View for HandleData<T> {
    type V = Map<usize, T>;

    /// Live tokens and the payload each one owns.
    closed spec fn view(&self) -> Map<usize, T> {
        Map::new(
            |t: usize| 1 <= t < self.slots@.len() && self.slots@[t as int] is Some,
            |t: usize| self.slots@[t as int]->Some_0,
        )
    }
}

impl<T> HandleData<T> {
    /// Slot 0 is never live; the free list names distinct empty slots.
    pub closed spec fn wf(&self) -> bool {
        &&& self.slots@.len() >= 1
        &&& self.slots@[0] is None
        &&& self.free@.no_duplicates()
        &&& forall|i: int|
            0 <= i < self.free@.len() ==> {
                &&& 1 <= #[trigger] self.free@[i] < self.slots@.len()
                &&& self.slots@[self.free@[i] as int] is None
            }
    }

    /// An empty store.
    pub fn new() -> (r: HandleData<T>)
        ensures
            r.wf(),
            r@ == Map::<usize, T>::empty(),
    {
        let mut slots: Vec<Option<T>> = Vec::new();
        slots.push(None);
        let r = HandleData { slots, free: Vec::new() };
        assert(r@ =~= Map::<usize, T>::empty());
        r
    }

    /// Attaches `data` to the handle whose slot holds `slot`. A live token
    /// keeps its place and its old payload is dropped; otherwise a fresh
    /// token is handed out. Returns the token to store in the slot.
    pub fn set_handle_data(&mut self, slot: usize, data: T) -> (token: usize)
        requires
            old(self).wf(),
        ensures
            final(self).wf(),
            token != 0,
            old(self)@.contains_key(slot) ==> token == slot,
            !old(self)@.contains_key(slot) ==> !old(self)@.contains_key(token),
            final(self)@ == old(self)@.insert(token, data),
    {
        if 1 <= slot && slot < self.slots.len() && self.slots[slot].is_some() {
            self.slots.set(slot, Some(data));
            proof {
                assert forall|i: int| 0 <= i < self.free@.len() implies {
                    &&& 1 <= #[trigger] self.free@[i] < self.slots@.len()
                    &&& self.slots@[self.free@[i] as int] is None
                } by {
                    assert(old(self).slots@[old(self).free@[i] as int] is None);
                }
                assert(self@ =~= old(self)@.insert(slot, self.slots@[slot as int]->Some_0));
            }
            return slot;
        }
        match self.free.pop() {
            Some(t) => {
                proof {
                    let n = old(self).free@.len() - 1;
                    assert(old(self).free@[n] == t);
                    assert forall|i: int| 0 <= i < self.free@.len() implies self.free@[i] != t by {
                        assert(old(self).free@[i] == self.free@[i]);
                    }
                }
                self.slots.set(t, Some(data));
                proof {
                    assert forall|i: int| 0 <= i < self.free@.len() implies {
                        &&& 1 <= #[trigger] self.free@[i] < self.slots@.len()
                        &&& self.slots@[self.free@[i] as int] is None
                    } by {
                        assert(old(self).free@[i] == self.free@[i]);
                    }
                    assert(self@ =~= old(self)@.insert(t, data));
                }
                t
            },
            None => {
                let t = self.slots.len();
                self.slots.push(Some(data));
                proof {
                    assert(self@ =~= old(self)@.insert(t, data));
                }
                t
            },
        }
    }

    /// The payload attached under `slot`, or `None` when nothing is.
    pub fn get_handle_data(&self, slot: usize) -> (r: Option<&T>)
        requires
            self.wf(),
        ensures
            self@.contains_key(slot) ==> r == Some(&self@[slot]),
            !self@.contains_key(slot) ==> r is None,
    {
        if 1 <= slot && slot < self.slots.len() {
            self.slots[slot].as_ref()
        } else {
            None
        }
    }

    /// Detaches the payload under `slot` and hands it back; the token is
    /// recycled. Later lookups of `slot` report absence.
    pub fn free_handle_data(&mut self, slot: usize) -> (r: Option<T>)
        requires
            old(self).wf(),
        ensures
            final(self).wf(),
            old(self)@.contains_key(slot) ==> r == Some(old(self)@[slot]),
            !old(self)@.contains_key(slot) ==> r is None,
            final(self)@ == old(self)@.remove(slot),
    {
        if 1 <= slot && slot < self.slots.len() && self.slots[slot].is_some() {
            let mut taken: Option<T> = None;
            std::mem::swap(&mut taken, &mut self.slots[slot]);
            proof {
                assert forall|i: int| 0 <= i < old(self).free@.len() implies old(self).free@[i]
                    != slot by {}
            }
            self.free.push(slot);
            proof {
                assert forall|i: int| 0 <= i < self.free@.len() implies {
                    &&& 1 <= #[trigger] self.free@[i] < self.slots@.len()
                    &&& self.slots@[self.free@[i] as int] is None
                } by {
                    if i < old(self).free@.len() {
                        assert(old(self).free@[i] == self.free@[i]);
                    }
                }
                assert(self@ =~= old(self)@.remove(slot));
            }
            taken
        } else {
            proof {
                assert(self@ =~= old(self)@.remove(slot));
            }
            None
        }
    }

    /// Drops every attached payload and forgets every token.
    pub fn cleanup(&mut self)
        ensures
            final(self).wf(),
            final(self)@ == Map::<usize, T>::empty(),
    {
        let mut slots: Vec<Option<T>> = Vec::new();
        slots.push(None);
        self.slots = slots;
        self.free = Vec::new();
        assert(self@ =~= Map::<usize, T>::empty());
    }
}


/// Data that was attached is read back unchanged, and once freed it is
/// reported absent, whatever the store held before.
pub proof fn lemma_set_get_free<T>(m: Map<usize, T>, token: usize, data: T)
    ensures
        m.insert(token, data).contains_key(token),
        m.insert(token, data)[token] == data,
        !m.insert(token, data).remove(token).contains_key(token),
{
}

} // verus!

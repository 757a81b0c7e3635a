use vstd::prelude::*;
use vstd::hash_map::HashMapWithView;
use vstd::std_specs::hash::obeys_key_model;

use crate::error::Error;
use crate::handle::AnyHandle;

verus! {

broadcast use vstd::std_specs::hash::group_hash_axioms;

/// No two identifiers of the map share a handle.
pub open spec fn is_bijection(m: Map<u64, AnyHandle>) -> bool {
    forall|a: u64, b: u64|
        m.contains_key(a) && m.contains_key(b) && #[trigger] m[a] == #[trigger] m[b] ==> a == b
}

/// Some identifier of the map is bound to `h`.
pub open spec fn holds_handle(m: Map<u64, AnyHandle>, h: AnyHandle) -> bool {
    exists|id: u64| m.contains_key(id) && #[trigger] m[id] == h
}

/// What the reverse lookup of `h` in `m` must answer.
pub open spec fn id_lookup(m: Map<u64, AnyHandle>, h: AnyHandle, r: Option<u64>) -> bool {
    match r {
        Some(id) => m.contains_key(id) && m[id] == h,
        None => !holds_handle(m, h),
    }
}

/// The handle registry of one UI tree: identifiers to handles, the reverse
/// index from handle to identifier, and the dense list of live identifiers
/// (with each one's position) that teardown walks.
pub struct UiInner {
    ids: HashMapWithView<u64, AnyHandle>,
    handles: HashMapWithView<u128, u64>,
    live: Vec<u64>,
    pos: HashMapWithView<u64, usize>,
}

impl View for UiInner {
    type V = Map<u64, AnyHandle>;

    closed spec fn view(&self) -> Map<u64, AnyHandle> {
        self.ids@
    }
}

impl UiInner {
    /// The reverse index is exactly the inverse of the forward map, and the
    /// live list holds each identifier once, at the position `pos` records.
    pub closed spec fn wf(&self) -> bool {
        &&& self.reverse_wf()
        &&& self.live_wf()
    }

    closed spec fn live_wf(&self) -> bool {
        &&& forall|id: u64| #[trigger] self.ids@.contains_key(id) <==> self.pos@.contains_key(id)
        &&& forall|id: u64| #[trigger]
            self.pos@.contains_key(id) ==> {
                &&& self.pos@[id] < self.live@.len()
                &&& self.live@[self.pos@[id] as int] == id
            }
        &&& forall|i: int|
            0 <= i < self.live@.len() ==> {
                &&& self.pos@.contains_key(#[trigger] self.live@[i])
                &&& self.pos@[self.live@[i]] == i
            }
    }

    closed spec fn reverse_wf(&self) -> bool {
        &&& forall|id: u64| #[trigger]
            self.ids@.contains_key(id) ==> {
                &&& self.handles@.contains_key(self.ids@[id].spec_key())
                &&& self.handles@[self.ids@[id].spec_key()] == id
            }
        &&& forall|k: u128| #[trigger]
            self.handles@.contains_key(k) ==> {
                &&& self.ids@.contains_key(self.handles@[k])
                &&& self.ids@[self.handles@[k]].spec_key() == k
            }
    }

    /// An empty registry.
    pub fn new() -> (r: UiInner)
        ensures
            r.wf(),
            r@ == Map::<u64, AnyHandle>::empty(),
    {
        proof {
            assert(obeys_key_model::<u64>());
            assert(obeys_key_model::<u128>());
        }
        UiInner {
            ids: HashMapWithView::new(),
            handles: HashMapWithView::new(),
            live: Vec::new(),
            pos: HashMapWithView::new(),
        }
    }

    /// A well-formed registry never binds one handle to two identifiers.
    pub proof fn lemma_bijection(&self)
        requires
            self.wf(),
        ensures
            is_bijection(self@),
    {
        assert forall|a: u64, b: u64|
            self@.contains_key(a) && self@.contains_key(b) && #[trigger] self@[a]
                == #[trigger] self@[b] implies a == b by {
            assert(self.ids@.contains_key(a));
            assert(self.ids@.contains_key(b));
        }
    }

    /// Number of registered identifiers.
    pub fn len(&self) -> (r: usize)
        ensures
            r == self@.len(),
    {
        self.ids.len()
    }

    /// Whether `id` is registered.
    pub fn contains(&self, id: &u64) -> (r: bool)
        ensures
            r == self@.contains_key(*id),
    {
        self.ids.contains_key(id)
    }

    /// Registers `id` for `handle`. Fails with `KeyExists` if the identifier
    /// is taken and with `HandleExists` if the handle already has one; on
    /// failure the registry is unchanged.
    pub fn insert(&mut self, id: u64, handle: AnyHandle) -> (r: Result<(), Error>)
        requires
            old(self).wf(),
        ensures
            final(self).wf(),
            old(self)@.contains_key(id) ==> r == Err::<(), Error>(Error::KeyExists),
            !old(self)@.contains_key(id) && holds_handle(old(self)@, handle) ==> r == Err::<
                (),
                Error,
            >(Error::HandleExists),
            !old(self)@.contains_key(id) && !holds_handle(old(self)@, handle) ==> r == Ok::<
                (),
                Error,
            >(()),
            r is Ok ==> final(self)@ == old(self)@.insert(id, handle),
            r is Err ==> final(self)@ == old(self)@,
    {
        if self.ids.contains_key(&id) {
            return Err(Error::KeyExists);
        }
        let key = handle.key();
        if self.handles.contains_key(&key) {
            proof {
                let other = self.handles@[key];
                assert(self.ids@.contains_key(other));
                handle.lemma_key_injective(self.ids@[other]);
                assert(holds_handle(self@, handle));
            }
            return Err(Error::HandleExists);
        }
        proof {
            assert forall|other: u64| self.ids@.contains_key(other) implies #[trigger] self.ids@[other]
                != handle by {
                handle.lemma_key_injective(self.ids@[other]);
            }
        }
        proof {
            assert(!self.pos@.contains_key(id));
        }
        self.ids.insert(id, handle);
        self.handles.insert(key, id);
        let at = self.live.len();
        self.live.push(id);
        self.pos.insert(id, at);
        proof {
            assert forall|i: int| 0 <= i < self.live@.len() implies {
                &&& self.pos@.contains_key(#[trigger] self.live@[i])
                &&& self.pos@[self.live@[i]] == i
            } by {
                if i < at {
                    assert(old(self).live@[i] == self.live@[i]);
                    assert(old(self).pos@.contains_key(old(self).live@[i]));
                }
            }
            assert forall|other: u64| #[trigger] self.pos@.contains_key(other) implies {
                &&& self.pos@[other] < self.live@.len()
                &&& self.live@[self.pos@[other] as int] == other
            } by {
                if other != id {
                    assert(old(self).pos@.contains_key(other));
                }
            }
            assert forall|k: u128| #[trigger] self.handles@.contains_key(k) implies {
                &&& self.ids@.contains_key(self.handles@[k])
                &&& self.ids@[self.handles@[k]].spec_key() == k
            } by {
                if k != key {
                    assert(old(self).handles@.contains_key(k));
                    assert(self.handles@[k] != id);
                }
            }
        }
        Ok(())
    }

    /// The handle registered under `id`, or `KeyNotFound`.
    pub fn handle_of(&self, id: &u64) -> (r: Result<AnyHandle, Error>)
        ensures
            self@.contains_key(*id) ==> r == Ok::<AnyHandle, Error>(self@[*id]),
            !self@.contains_key(*id) ==> r == Err::<AnyHandle, Error>(Error::KeyNotFound),
    {
        match self.ids.get(id) {
            Some(h) => Ok(*h),
            None => Err(Error::KeyNotFound),
        }
    }

    /// The identifier registered for `handle`, if any.
    pub fn id_of(&self, handle: &AnyHandle) -> (r: Option<u64>)
        requires
            self.wf(),
        ensures
            id_lookup(self@, *handle, r),
    {
        let key = handle.key();
        match self.handles.get(&key) {
            Some(id) => {
                proof {
                    handle.lemma_key_injective(self.ids@[*id]);
                }
                Some(*id)
            },
            None => {
                proof {
                    assert forall|other: u64| self@.contains_key(other) implies #[trigger] self@[other]
                        != *handle by {
                        handle.lemma_key_injective(self.ids@[other]);
                    }
                }
                None
            },
        }
    }

    /// The identifier of the window `hwnd`, if it belongs to this tree.
    pub fn window_id(&self, hwnd: usize) -> (r: Option<u64>)
        requires
            self.wf(),
        ensures
            id_lookup(self@, AnyHandle::HWND(hwnd), r),
    {
        self.id_of(&AnyHandle::HWND(hwnd))
    }

    /// Unregisters `id` and hands back its handle, which the caller then
    /// releases. Fails with `KeyNotFound`, leaving the registry unchanged.
    pub fn remove(&mut self, id: &u64) -> (r: Result<AnyHandle, Error>)
        requires
            old(self).wf(),
        ensures
            final(self).wf(),
            old(self)@.contains_key(*id) ==> r == Ok::<AnyHandle, Error>(old(self)@[*id])
                && final(self)@ == old(self)@.remove(*id),
            !old(self)@.contains_key(*id) ==> r == Err::<AnyHandle, Error>(Error::KeyNotFound)
                && final(self)@ == old(self)@,
    {
        match self.ids.remove(id) {
            Some(h) => {
                let key = h.key();
                let _ = self.handles.remove(&key);
                self.unlist(id);
                proof {
                    assert forall|k: u128| #[trigger] self.handles@.contains_key(k) implies {
                        &&& self.ids@.contains_key(self.handles@[k])
                        &&& self.ids@[self.handles@[k]].spec_key() == k
                    } by {
                        assert(old(self).handles@.contains_key(k));
                        assert(old(self).handles@[k] != *id);
                    }
                    assert forall|other: u64| #[trigger] self.ids@.contains_key(other) implies {
                        &&& self.handles@.contains_key(self.ids@[other].spec_key())
                        &&& self.handles@[self.ids@[other].spec_key()] == other
                    } by {
                        assert(old(self).ids@.contains_key(other));
                        h.lemma_key_injective(self.ids@[other]);
                    }
                }
                Ok(h)
            },
            None => Err(Error::KeyNotFound),
        }
    }

    /// Tears the tree down: empties the registry and hands back every handle
    /// it held, each once, so that the caller can release them.
    pub fn close(&mut self) -> (r: Vec<AnyHandle>)
        requires
            old(self).wf(),
        ensures
            final(self).wf(),
            final(self)@ == Map::<u64, AnyHandle>::empty(),
            r@.len() == old(self)@.len(),
            r@.no_duplicates(),
            forall|h: AnyHandle| r@.contains(h) <==> holds_handle(old(self)@, h),
    {
        proof {
            self.lemma_bijection();
            assert(self.live@.no_duplicates()) by {
                assert forall|i: int, j: int|
                    0 <= i < self.live@.len() && 0 <= j < self.live@.len() && i != j
                    implies self.live@[i] != self.live@[j] by {
                    assert(self.pos@[self.live@[i]] == i);
                    assert(self.pos@[self.live@[j]] == j);
                }
            }
        }
        let mut out: Vec<AnyHandle> = Vec::new();
        let mut i: usize = 0;
        while i < self.live.len()
            invariant
                self.wf(),
                is_bijection(self@),
                self.live@.no_duplicates(),
                i <= self.live@.len(),
                out@.len() == i,
                out@.no_duplicates(),
                forall|j: int| 0 <= j < i ==> #[trigger] out@[j] == self@[self.live@[j]],
            decreases self.live@.len() - i,
        {
            let id = self.live[i];
            proof {
                assert(self.pos@.contains_key(id));
            }
            let h = *self.ids.get(&id).unwrap();
            proof {
                assert forall|j: int| 0 <= j < i implies out@[j] != h by {
                    let other = self.live@[j];
                    assert(self.pos@.contains_key(other));
                    assert(other != id);
                }
            }
            out.push(h);
            i = i + 1;
        }
        proof {
            assert forall|h: AnyHandle| out@.contains(h) <==> holds_handle(self@, h) by {
                if out@.contains(h) {
                    let j = choose|j: int| 0 <= j < out@.len() && out@[j] == h;
                    let id = self.live@[j];
                    assert(self.pos@.contains_key(id));
                    assert(self@.contains_key(id) && self@[id] == h);
                }
                if holds_handle(self@, h) {
                    let id = choose|id: u64| self@.contains_key(id) && #[trigger] self@[id] == h;
                    assert(self.pos@.contains_key(id));
                    let j = self.pos@[id] as int;
                    assert(out@[j] == h);
                }
            }
            assert(self.live@.len() == self@.len()) by {
                assert(self.ids@.dom() =~= self.live@.to_set()) by {
                    assert forall|id: u64| self.ids@.contains_key(id) implies self.live@.contains(id) by {
                        assert(self.pos@.contains_key(id));
                        assert(self.live@[self.pos@[id] as int] == id);
                    }
                }
                self.live@.unique_seq_to_set();
            }
        }
        self.ids.clear();
        self.handles.clear();
        self.live.clear();
        self.pos.clear();
        out
    }

    /// Takes `id` out of the live list by moving the last entry into its
    /// place.
    fn unlist(&mut self, id: &u64)
        requires
            old(self).pos@.contains_key(*id),
            forall|k: u64| #[trigger] old(self).pos@.contains_key(k) ==> {
                &&& old(self).pos@[k] < old(self).live@.len()
                &&& old(self).live@[old(self).pos@[k] as int] == k
            },
            forall|i: int|
                0 <= i < old(self).live@.len() ==> {
                    &&& old(self).pos@.contains_key(#[trigger] old(self).live@[i])
                    &&& old(self).pos@[old(self).live@[i]] == i
                },
        ensures
            final(self).ids == old(self).ids,
            final(self).handles == old(self).handles,
            final(self).pos@.dom() == old(self).pos@.dom().remove(*id),
            forall|k: u64| #[trigger] final(self).pos@.contains_key(k) ==> {
                &&& final(self).pos@[k] < final(self).live@.len()
                &&& final(self).live@[final(self).pos@[k] as int] == k
            },
            forall|i: int|
                0 <= i < final(self).live@.len() ==> {
                    &&& final(self).pos@.contains_key(#[trigger] final(self).live@[i])
                    &&& final(self).pos@[final(self).live@[i]] == i
                },
    {
        let idx = *self.pos.get(id).unwrap();
        let last = self.live.len() - 1;
        let moved = self.live[last];
        let _ = self.live.swap_remove(idx);
        let _ = self.pos.remove(id);
        if idx != last {
            self.pos.insert(moved, idx);
        }
        proof {
            let old_live = old(self).live@;
            assert forall|k: u64| #[trigger] self.pos@.contains_key(k) implies {
                &&& self.pos@[k] < self.live@.len()
                &&& self.live@[self.pos@[k] as int] == k
            } by {
                assert(old(self).pos@.contains_key(k));
                if k != moved {
                    assert(old(self).pos@[k] != last);
                    assert(old(self).pos@[k] != idx);
                }
            }
            assert forall|i: int| 0 <= i < self.live@.len() implies {
                &&& self.pos@.contains_key(#[trigger] self.live@[i])
                &&& self.pos@[self.live@[i]] == i
            } by {
                if i != idx {
                    assert(self.live@[i] == old_live[i]);
                    assert(old(self).pos@.contains_key(old_live[i]));
                    assert(old_live[i] != *id);
                    assert(old_live[i] != moved);
                } else {
                    assert(self.live@[i] == moved);
                    assert(moved != *id);
                }
            }
            assert(self.pos@.dom() =~= old(self).pos@.dom().remove(*id)) by {
                assert(old(self).pos@.contains_key(moved));
            }
        }
    }
}

} // verus!

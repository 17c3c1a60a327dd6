//! Opaque-handle registry: a keyed store that lets the host reference
//! native-owned resources by small integer IDs instead of pointers.
//! Handle IDs start at 1 (0 is reserved as the invalid handle), grow
//! monotonically, and are never reused, so a freed handle can never
//! silently resolve to a different resource.

use vstd::prelude::*;
use std::collections::HashMap;

verus! {

broadcast use vstd::std_specs::hash::group_hash_axioms;

/// Opaque integer reference to a native-owned resource.
pub type HandleId = u32;

/// The reserved handle value that never resolves.
pub const INVALID_HANDLE: HandleId = 0;

/// Keyed store mapping opaque integer handles to resources of one kind.
/// One registry instance exists per resource kind; the host is handed only
/// the integer IDs.
pub struct HandleRegistry<T> {
    next_id: HandleId,
    objects: HashMap<HandleId, T>,
}

impl<T> View for HandleRegistry<T> {
    type V = Map<HandleId, T>;

    closed spec fn view(&self) -> Map<HandleId, T> {
        self.objects@
    }
}

impl<T> HandleRegistry<T> {
    /// The next ID this registry will assign; every handle it ever issued
    /// is strictly below this bound.
    pub closed spec fn next_handle(&self) -> HandleId {
        self.next_id
    }

    /// Registry invariant: IDs start at 1 and every live handle lies below
    /// the issue bound.
    pub open spec fn wf(&self) -> bool {
        &&& self.next_handle() >= 1
        &&& forall|h: HandleId| self@.contains_key(h) ==> 1 <= h < self.next_handle()
    }

    pub fn new() -> (r: HandleRegistry<T>)
        ensures
            r.wf(),
            r@ == Map::<HandleId, T>::empty(),
            r.next_handle() == 1,
    {
        HandleRegistry { next_id: 1, objects: HashMap::new() }
    }

    /// Whether the handle space still has room for another insert.
    pub fn can_issue(&self) -> (r: bool)
        ensures
            r == (self.next_handle() < HandleId::MAX),
    {
        self.next_id < HandleId::MAX
    }

    /// Store a resource and assign it the next ID, never 0 and never one
    /// issued before.
    pub fn insert(&mut self, object: T) -> (id: HandleId)
        requires
            old(self).wf(),
            old(self).next_handle() < HandleId::MAX,
        ensures
            final(self).wf(),
            id == old(self).next_handle(),
            id != INVALID_HANDLE,
            !old(self)@.contains_key(id),
            final(self)@ == old(self)@.insert(id, object),
            final(self).next_handle() == id + 1,
    {
        let ghost pre = *self;
        let id = self.next_id;
        self.next_id = self.next_id + 1;
        self.objects.insert(id, object);
        proof {
            assert forall|h: HandleId| self@.contains_key(h) implies 1 <= h < self.next_handle() by {
                if h != id {
                    assert(pre@.contains_key(h));
                }
            }
        }
        id
    }

    /// Resolve a handle; an unknown or freed handle returns `None`, never
    /// panics.
    pub fn get(&self, id: HandleId) -> (r: Option<&T>)
        ensures
            match r {
                Some(v) => self@.contains_key(id) && *v == self@[id],
                None => !self@.contains_key(id),
            },
    {
        self.objects.get(&id)
    }

    /// Whether a handle currently resolves.
    pub fn contains(&self, id: HandleId) -> (r: bool)
        ensures
            r == self@.contains_key(id),
    {
        self.objects.contains_key(&id)
    }

    /// Remove a resource; the freed handle never resolves again and its ID
    /// is never reassigned (the issue bound does not move backwards).
    pub fn remove(&mut self, id: HandleId) -> (r: Option<T>)
        requires
            old(self).wf(),
        ensures
            final(self).wf(),
            final(self)@ == old(self)@.remove(id),
            final(self).next_handle() == old(self).next_handle(),
            match r {
                Some(v) => old(self)@.contains_key(id) && v == old(self)@[id],
                None => !old(self)@.contains_key(id),
            },
    {
        let ghost pre = *self;
        let r = self.objects.remove(&id);
        proof {
            assert forall|h: HandleId| self@.contains_key(h) implies 1 <= h < self.next_handle() by {
                assert(pre@.contains_key(h));
            }
        }
        r
    }

    /// Number of live resources.
    pub fn len(&self) -> (r: usize)
        ensures
            r == self@.len(),
    {
        self.objects.len()
    }

    /// Drop every resource but keep the issue bound, so even a cleared
    /// registry never reissues an old handle.
    pub fn clear(&mut self)
        requires
            old(self).wf(),
        ensures
            final(self).wf(),
            final(self)@ == Map::<HandleId, T>::empty(),
            final(self).next_handle() == old(self).next_handle(),
    {
        self.objects.clear()
    }
}

/// Resolution law for the registry store: a value inserted at a fresh
/// handle is exactly what that handle resolves to, and a removed handle
/// no longer resolves.  Together with the `ensures` of [`HandleRegistry::insert`],
/// [`HandleRegistry::get`] and [`HandleRegistry::remove`] this states that
/// `get(insert(v))` returns `v` and that `get` after `remove` is absent.
pub proof fn lemma_registry_resolution<T>(m: Map<HandleId, T>, id: HandleId, v: T)
    ensures
        m.insert(id, v).contains_key(id),
        m.insert(id, v)[id] == v,
        !m.remove(id).contains_key(id),
{
}

/// Handles are never reissued: `insert` returns exactly the registry's
/// issue bound and the bound only grows, so any handle issued earlier
/// (freed or live, hence strictly below the bound) differs from every
/// handle issued from now on.
pub proof fn lemma_handle_never_reissued<T>(r: HandleRegistry<T>, h: HandleId, later: HandleId)
    requires
        r.wf(),
        h < r.next_handle(),
        later >= r.next_handle(),
    ensures
        later != h,
{
}

} // verus!

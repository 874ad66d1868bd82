//! A per-session registry assigning sequential opaque handles to live
//! resource instances.  Slots are never reused: a released handle stays
//! dead for the life of the table, so a stale handle can never reach a
//! newer resource.

use vstd::prelude::*;

verus! {

/// The handle registry: an arena keyed by a monotonically increasing
/// index, with explicit liveness tracking.
pub struct HandleTable<T> {
    slots: Vec<Option<T>>,
}

impl<T> HandleTable<T> {
    /// Handle `h` names a live resource.
    pub closed spec fn contains(self, h: u32) -> bool {
        h < self.slots@.len() && self.slots@[h as int] is Some
    }

    /// The resource under a live handle.
    pub closed spec fn value_of(self, h: u32) -> T
        recommends
            self.contains(h),
    {
        self.slots@[h as int]->0
    }

    /// The handle the next insertion returns.
    pub closed spec fn next_handle(self) -> int {
        self.slots@.len() as int
    }

    /// An empty table.
    pub fn new() -> (r: Self)
        ensures
            forall|h: u32| !r.contains(h),
            r.next_handle() == 0,
    {
        HandleTable { slots: Vec::new() }
    }

    /// Registers a resource; always succeeds and returns a fresh handle,
    /// never one that was handed out before.
    pub fn insert(&mut self, value: T) -> (h: u32)
        requires
            old(self).next_handle() < u32::MAX,
        ensures
            h == old(self).next_handle(),
            final(self).next_handle() == old(self).next_handle() + 1,
            final(self).contains(h),
            final(self).value_of(h) == value,
            !old(self).contains(h),
            forall|h2: u32| h2 != h ==> final(self).contains(h2) == old(self).contains(h2),
            forall|h2: u32|
                h2 != h && old(self).contains(h2) ==> final(self).value_of(h2) == old(self).value_of(h2),
    {
        let h = self.slots.len() as u32;
        self.slots.push(Some(value));
        h
    }

    /// Borrows the resource under `h`; an unknown or released handle is
    /// reported, never ignored.
    pub fn get(&self, h: u32) -> (r: Option<&T>)
        ensures
            self.contains(h) ==> (r matches Some(v) && *v == self.value_of(h)),
            !self.contains(h) ==> r is None,
    {
        let i = h as usize;
        if i < self.slots.len() {
            match &self.slots[i] {
                Some(v) => Some(v),
                None => None,
            }
        } else {
            None
        }
    }

    /// Swaps the resource under a live handle for `value`, returning the
    /// old resource and keeping the handle; an unknown or released handle
    /// hands `value` back untouched.
    pub fn replace(&mut self, h: u32, value: T) -> (r: Result<T, T>)
        ensures
            old(self).contains(h) ==> (r matches Ok(v) && v == old(self).value_of(h) && final(self).contains(h) && final(self).value_of(h) == value),
            !old(self).contains(h) ==> (r matches Err(v) && v == value && *final(self) == *old(self)),
            final(self).next_handle() == old(self).next_handle(),
            forall|h2: u32| h2 != h ==> final(self).contains(h2) == old(self).contains(h2),
            forall|h2: u32|
                h2 != h && old(self).contains(h2) ==> final(self).value_of(h2) == old(self).value_of(h2),
    {
        let i = h as usize;
        if i < self.slots.len() {
            let live = self.slots[i].is_some();
            if !live {
                return Err(value);
            }
            let ghost prev = self.slots@;
            let v = self.slots.remove(i);
            self.slots.insert(i, Some(value));
            proof {
                assert(self.slots@ =~= prev.update(i as int, self.slots@[i as int]));
            }
            match v {
                Some(x) => Ok(x),
                None => {
                    proof {
                        assert(false);
                    }
                    unreached()
                },
            }
        } else {
            Err(value)
        }
    }

    /// Removes and returns the resource under `h`, consuming the handle;
    /// an unknown or released handle is reported, never ignored.
    pub fn take(&mut self, h: u32) -> (r: Option<T>)
        ensures
            old(self).contains(h) ==> (r matches Some(v) && v == old(self).value_of(h)),
            !old(self).contains(h) ==> r is None && *final(self) == *old(self),
            !final(self).contains(h),
            final(self).next_handle() == old(self).next_handle(),
            forall|h2: u32| h2 != h ==> final(self).contains(h2) == old(self).contains(h2),
            forall|h2: u32|
                h2 != h && old(self).contains(h2) ==> final(self).value_of(h2) == old(self).value_of(h2),
    {
        let i = h as usize;
        if i < self.slots.len() {
            let live = self.slots[i].is_some();
            if !live {
                return None;
            }
            let ghost prev = self.slots@;
            let v = self.slots.remove(i);
            self.slots.insert(i, None);
            proof {
                assert(self.slots@ =~= prev.update(i as int, Option::None));
            }
            v
        } else {
            None
        }
    }
}

} // verus!

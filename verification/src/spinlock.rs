//! A lock that hands out its value through a guard.
//!
//! The lock owns its value only while it is unlocked.  [`SpinLock::lock`]
//! moves the value into the returned [`Guard`], so whoever holds the
//! guard holds the sole capability to touch the value — mutual exclusion
//! by ownership.  [`SpinLock::unlock`] takes the guard back and restores
//! the value.  A caller who already holds the lock must not ask for it
//! again: a second `lock` would never be served, which the precondition
//! rules out.

use vstd::prelude::*;

verus! {

/// A mutual-exclusion container for a single value.
pub struct SpinLock<T> {
    locked: bool,
    value: Option<T>,
}

/// Exclusive access to a lock's value, held until it is given back with
/// [`SpinLock::unlock`].
pub struct Guard<T> {
    value: T,
}

impl<T> SpinLock<T> {
    /// Whether the lock is currently held.
    pub closed spec fn locked(self) -> bool {
        self.locked
    }

    /// The value the lock currently owns: present exactly while the lock
    /// is free.
    pub closed spec fn stored(self) -> Option<T> {
        self.value
    }

    /// A lock owns its value exactly while nobody holds it.
    pub open spec fn wf(self) -> bool {
        self.locked() <==> self.stored() is None
    }

    /// A fresh, unheld lock protecting `value`.
    pub fn new(value: T) -> (s: SpinLock<T>)
        ensures
            s.wf(),
            !s.locked(),
            s.stored() == Some(value),
    {
        SpinLock { locked: false, value: Some(value) }
    }

    /// Acquire the lock, taking exclusive possession of its value.  On a
    /// lock that is already held this would spin forever, so it is asked
    /// of free locks only.
    pub fn lock(&mut self) -> (g: Guard<T>)
        requires
            old(self).wf(),
            !old(self).locked(),
        ensures
            final(self).wf(),
            final(self).locked(),
            g@ == old(self).stored()->0,
    {
        self.locked = true;
        match self.value.take() {
            Some(value) => Guard { value },
            None => vstd::pervasive::unreached(),
        }
    }

    /// Release the lock, giving it back the guarded value.
    pub fn unlock(&mut self, g: Guard<T>)
        requires
            old(self).wf(),
            old(self).locked(),
        ensures
            final(self).wf(),
            !final(self).locked(),
            final(self).stored() == Some(g@),
    {
        self.locked = false;
        self.value = Some(g.into_inner());
    }
}

impl<T> View for Guard<T> {
    type V = T;

    /// The guarded value.
    closed spec fn view(&self) -> T {
        self.value
    }
}

impl<T> Guard<T> {
    /// Read the guarded value.
    pub fn read(&self) -> (r: &T)
        ensures
            *r == self@,
    {
        &self.value
    }

    /// Overwrite the guarded value.
    pub fn write(&mut self, value: T)
        ensures
            final(self)@ == value,
    {
        self.value = value;
    }

    /// Mutable access to the guarded value.
    pub fn value_mut(&mut self) -> (r: &mut T)
        ensures
            *r == old(self)@,
            final(self)@ == *final(r),
    {
        &mut self.value
    }

    /// Give up the guard, keeping the value.
    pub fn into_inner(self) -> (r: T)
        ensures
            r == self@,
    {
        self.value
    }
}

} // verus!

//! A spin lock over one value. The flag is taken with a compare-and-set;
//! the value travels in the guard while the flag is set, so no second guard
//! can exist, and giving the guard back clears the flag.
use vstd::prelude::*;

verus! {

/// Mutual exclusion over one value of type `T`.
pub struct SpinLock<T> {
    lock: bool,
    data: Option<T>,
}

/// Exclusive access to the value of a [`SpinLock`], held until it is given
/// back with [`SpinLock::unlock`].
pub struct SpinLockGuard<T> {
    data: T,
}

impl<T> SpinLockGuard<T> {
    /// The value the guard gives access to.
    pub closed spec fn value(&self) -> T {
        self.data
    }

    pub fn new(data: T) -> (r: Self)
        ensures
            r.value() == data,
    {
        SpinLockGuard { data }
    }

    pub fn get(&self) -> (r: &T)
        ensures
            *r == self.value(),
    {
        &self.data
    }

    /// Replaces the guarded value.
    pub fn set(&mut self, v: T)
        ensures
            final(self).value() == v,
    {
        self.data = v;
    }
}

/// One compare-and-set of the flag from clear to set, given the flag
/// before it: whether it took the lock, and the flag after it.
pub open spec fn compare_and_set(locked: bool) -> (bool, bool) {
    if locked {
        (false, true)
    } else {
        (true, true)
    }
}

impl<T> SpinLock<T> {
    /// Whether a guard is out.
    pub closed spec fn is_locked(&self) -> bool {
        self.lock
    }

    /// The guarded value while no guard is out.
    pub closed spec fn value(&self) -> T {
        self.data.unwrap()
    }

    /// Whether the value sits in the lock rather than in a guard.
    pub closed spec fn holds_value(&self) -> bool {
        self.data.is_some()
    }

    /// The flag is set exactly while the value is out in a guard.
    pub closed spec fn wf(&self) -> bool {
        self.lock == self.data.is_none()
    }

    pub fn new(inner: T) -> (r: Self)
        ensures
            r.wf(),
            !r.is_locked(),
            r.value() == inner,
    {
        SpinLock { lock: false, data: Some(inner) }
    }

    /// One compare-and-set of the flag from clear to set: hands out the
    /// guard if the flag was clear, and nothing otherwise.
    pub fn try_lock(&mut self) -> (r: Option<SpinLockGuard<T>>)
        requires
            old(self).wf(),
        ensures
            final(self).wf(),
            r.is_some() == compare_and_set(old(self).is_locked()).0,
            final(self).is_locked() == compare_and_set(old(self).is_locked()).1,
            r.is_some() ==> r.unwrap().value() == old(self).value(),
            r.is_none() ==> *final(self) == *old(self),
    {
        if self.lock {
            None
        } else {
            self.lock = true;
            let mut taken: Option<T> = None;
            std::mem::swap(&mut self.data, &mut taken);
            Some(SpinLockGuard { data: taken.unwrap() })
        }
    }

    /// Takes the lock. Spinning only ends when another context clears the
    /// flag, so a context that holds the guard must not call this again
    /// (it would spin forever); hence the lock must be free here.
    pub fn lock(&mut self) -> (r: SpinLockGuard<T>)
        requires
            old(self).wf(),
            !old(self).is_locked(),
        ensures
            final(self).wf(),
            final(self).is_locked(),
            r.value() == old(self).value(),
    {
        let g = self.try_lock();
        g.unwrap()
    }

    /// Gives the guard back: its value returns to the lock and the flag
    /// is cleared.
    pub fn unlock(&mut self, guard: SpinLockGuard<T>)
        requires
            old(self).wf(),
            old(self).is_locked(),
        ensures
            final(self).wf(),
            !final(self).is_locked(),
            final(self).value() == guard.value(),
    {
        self.data = Some(guard.data);
        self.lock = false;
    }
}

/// Exclusivity: of two attempts to take the lock, the second made on the
/// flag the first left behind, at most one succeeds, so at most one guard
/// exists at a time; once the guard is given back (the flag is clear) the
/// next attempt succeeds at once.
pub proof fn lemma_exclusive(locked: bool)
    ensures
        !(compare_and_set(locked).0 && compare_and_set(compare_and_set(locked).1).0),
        compare_and_set(false).0,
{
}

/// The flag is set exactly while the value is out in a guard.
pub proof fn lemma_value_or_guard<T>(l: SpinLock<T>)
    requires
        l.wf(),
    ensures
        l.is_locked() != l.holds_value(),
{
}

} // verus!

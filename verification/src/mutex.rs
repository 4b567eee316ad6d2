//! A naive mutual-exclusion primitive: a lock that owns a protected value and
//! hands out exclusive access through a guard object.
//!
//! The lock keeps a `locked` flag and the protected value. `lock` succeeds only
//! on an unlocked lock and moves the value into the returned guard, so while a
//! guard is alive the lock itself holds nothing: a second `lock` without a
//! release is rejected by the verifier, the static counterpart of the runtime
//! self-deadlock the primitive is documented to have. `unlock` consumes the
//! guard and puts its (possibly updated) value back, which is exactly the
//! visibility guarantee: the next holder reads what the previous holder wrote.
//!
//! The race that concurrent acquirers run on the flag is modelled and proved
//! in the `protocol` module.

use vstd::prelude::*;

verus! {

/// A busy-wait ("spin") lock wrapping a protected value of type `T`.
///
/// `locked` is the source of truth for mutual exclusion: it is `true` exactly
/// while a guard issued by this lock is alive, and in that case the value has
/// moved into the guard, so `data` is `None`.
pub struct NaiveMutex<T> {
    locked: bool,
    data: Option<T>,
}

/// Exclusive access to the value protected by a `NaiveMutex<T>`.
///
/// A guard is created only by `NaiveMutex::lock` and carries the protected
/// value; it is neither copyable nor clonable, so there is exactly one live
/// guard per acquisition. Giving the guard back through `NaiveMutex::unlock`
/// is the only release path: a guard merely dropped leaves its lock set
/// for good.
#[must_use]
pub struct NaiveMutexGuard<T> {
    value: T,
}

impl<T> NaiveMutex<T> {
    /// Whether the lock is currently held, i.e. a guard is alive.
    pub closed spec fn is_locked(self) -> bool {
        self.locked
    }

    /// The value the lock itself holds: `Some` while unlocked, `None` while a
    /// guard carries the value.
    pub closed spec fn stored(self) -> Option<T> {
        self.data
    }

    /// Structural invariant: the flag is set exactly while the value is out.
    pub open spec fn inv(self) -> bool {
        self.is_locked() <==> self.stored() is None
    }

    /// Constructs an unlocked lock wrapping `data`. No failure mode.
    pub fn new(data: T) -> (r: Self)
        ensures
            r.inv(),
            !r.is_locked(),
            r.stored() == Some(data),
    {
        NaiveMutex { locked: false, data: Some(data) }
    }

    /// Acquires the lock, transitioning the flag from unlocked to locked, and
    /// returns the guard carrying the protected value.
    ///
    /// At runtime a contending acquirer would retry the flag transition until
    /// it wins; here exclusive access to the lock makes contention impossible,
    /// and the one losing case left — re-acquiring a lock this caller already
    /// holds, which would spin forever — is ruled out by the precondition.
    pub fn lock(&mut self) -> (guard: NaiveMutexGuard<T>)
        requires
            old(self).inv(),
            !old(self).is_locked(),
        ensures
            final(self).inv(),
            final(self).is_locked(),
            final(self).stored() is None,
            Some(guard@) == old(self).stored(),
    {
        self.locked = true;
        let value = match self.data.take() {
            Some(v) => v,
            None => vstd::pervasive::unreached(),
        };
        NaiveMutexGuard { value }
    }

    /// Releases the lock: resets the flag and stores the guard's value, so the
    /// next acquirer observes, unmodified, whatever the holder last wrote.
    pub fn unlock(&mut self, guard: NaiveMutexGuard<T>)
        requires
            old(self).inv(),
            old(self).is_locked(),
        ensures
            final(self).inv(),
            !final(self).is_locked(),
            final(self).stored() == Some(guard@),
    {
        self.data = Some(guard.value);
        self.locked = false;
    }
}

impl<T> View for NaiveMutexGuard<T> {
    type V = T;

    /// The protected value as seen through this guard.
    closed spec fn view(&self) -> T {
        self.value
    }
}

impl<T> NaiveMutexGuard<T> {
    /// Read access to the protected value.
    pub fn read(&self) -> (r: &T)
        ensures
            *r == self@,
    {
        &self.value
    }

    /// Write access to the protected value.
    pub fn write(&mut self, value: T)
        ensures
            final(self)@ == value,
    {
        self.value = value;
    }

    /// Replaces the protected value, returning the previous one.
    pub fn replace(&mut self, value: T) -> (prev: T)
        ensures
            final(self)@ == value,
            prev == old(self)@,
    {
        let mut value = value;
        core::mem::swap(&mut self.value, &mut value);
        value
    }
}

} // verus!

//! The readiness signal: a way to sleep until something changed.
//!
//! The signal carries no state. A wake says only that the stream may have
//! grown or completed, so whoever wakes looks at the stream again.

use std::sync::{Condvar, Mutex, MutexGuard, PoisonError};
use vstd::prelude::*;

verus! {

/// `std::sync::Condvar`, opaque to the verifier.
#[verifier::external_type_specification]
#[verifier::external_body]
pub struct ExCondvar(Condvar);

/// `std::sync::Mutex`, opaque to the verifier.
#[verifier::external_type_specification]
#[verifier::external_body]
#[verifier::reject_recursive_types(T)]
pub struct ExMutex<T: ?Sized>(Mutex<T>);

/// `std::sync::MutexGuard`, opaque to the verifier.
#[verifier::external_type_specification]
#[verifier::external_body]
#[verifier::reject_recursive_types(T)]
pub struct ExMutexGuard<'a, T: ?Sized + 'a>(MutexGuard<'a, T>);

/// `std::sync::PoisonError`, opaque to the verifier.
#[verifier::external_type_specification]
#[verifier::external_body]
#[verifier::reject_recursive_types(T)]
pub struct ExPoisonError<T>(PoisonError<T>);

/// `Condvar::new` makes a condition variable. Nothing is claimed of it.
pub assume_specification[ Condvar::new ]() -> Condvar;

/// `Mutex::new` makes an unlocked mutex around `t`. Nothing is claimed of it.
pub assume_specification<T>[ Mutex::<T>::new ](t: T) -> Mutex<T>;

/// `Mutex::lock` blocks until the mutex is held and returns its guard, inside
/// an error if a holder once panicked. Nothing is claimed of the result. A
/// thread that holds the mutex is not to lock it again.
pub assume_specification<'a, T: ?Sized>[ Mutex::<T>::lock ](m: &'a Mutex<T>) -> Result<
    MutexGuard<'a, T>,
    PoisonError<MutexGuard<'a, T>>,
>;

/// `PoisonError::into_inner` hands back the value that the error carries.
/// Nothing is claimed of the result.
pub assume_specification<T>[ PoisonError::<T>::into_inner ](e: PoisonError<T>) -> T;

/// `Condvar::wait` releases the guard's mutex, blocks the calling thread
/// until it is woken, and returns the guard once the mutex is held again.
/// A wake may come without any notification. Nothing is claimed of the
/// result. One condition variable is to be used with guards of one mutex.
pub assume_specification<'a, T>[ Condvar::wait ](
    cv: &Condvar,
    guard: MutexGuard<'a, T>,
) -> Result<MutexGuard<'a, T>, PoisonError<MutexGuard<'a, T>>>;

/// `Condvar::notify_all` wakes every thread that is blocked on the
/// condition variable. It returns nothing.
pub assume_specification[ Condvar::notify_all ](cv: &Condvar);

/// A signal that threads can sleep on until another thread wakes them all.
///
/// A wake is delivered to the threads that sleep at that moment and is not
/// kept for later ones. The latch closes that gap: a thread that holds it
/// from before it looks at the stream until it sleeps cannot miss a wake,
/// since whoever wakes the sleepers takes the latch first.
pub struct Notify {
    sleepers: Condvar,
    latch: Mutex<()>,
}

/// The latch of a signal, held by the calling thread. While it is held, no
/// wake is sent on the signal.
///
/// The holder must not wake the signal's sleepers itself: that takes the
/// latch again.
pub(crate) struct Held<'a> {
    signal: &'a Notify,
    guard: MutexGuard<'a, ()>,
}

impl<'a> Held<'a> {
    /// The signal whose latch is held.
    pub(crate) closed spec fn signal(&self) -> Notify {
        *self.signal
    }

    /// Gives up the latch and blocks the calling thread until it is woken.
    /// The guard is that of the signal's own latch, as the condition
    /// variable expects of every guard that it is handed.
    pub(crate) fn wait(self) {
        match self.signal.sleepers.wait(self.guard) {
            Ok(_) => {},
            Err(_) => {},
        }
    }
}

impl Notify {
    /// A signal on which nobody waits yet.
    pub fn new() -> Notify {
        Notify { sleepers: Condvar::new(), latch: Mutex::new(()) }
    }

    /// Holds the latch until what is returned is given up, and ties it to
    /// this signal: the holder can sleep on no other. The latch guards no
    /// data, so one that a panicking holder left behind is taken as it is.
    pub(crate) fn hold(&self) -> (held: Held<'_>)
        ensures
            held.signal() == *self,
    {
        let guard = match self.latch.lock() {
            Ok(guard) => guard,
            Err(poisoned) => poisoned.into_inner(),
        };
        Held { signal: self, guard }
    }

    /// Blocks the calling thread until it is woken. The wake may be
    /// spurious: it tells nothing about what changed, or whether anything did.
    pub fn wait(&self) {
        self.hold().wait();
    }

    /// Wakes every thread that is blocked on this signal, holding the latch
    /// while it does.
    pub fn notify_all(&self) {
        let _held = self.hold();
        self.sleepers.notify_all();
    }
}

} // verus!

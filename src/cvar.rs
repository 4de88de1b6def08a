//! A lock around shared state, with a condition variable for waiting on it.
use vstd::prelude::*;

verus! {

/// std::sync::Mutex, held as a field and locked by the callers of the library.
#[verifier::external_type_specification]
#[verifier::external_body]
#[verifier::reject_recursive_types(T)]
pub struct ExMutex<T: ?Sized>(std::sync::Mutex<T>);

/// std::sync::Condvar, held as a field and waited on by the callers of the library.
#[verifier::external_type_specification]
#[verifier::external_body]
pub struct ExCondvar(std::sync::Condvar);

/// Relies on std::sync::Mutex::new: a lock holding `t`.
pub assume_specification<T>[ std::sync::Mutex::<T>::new ](t: T) -> std::sync::Mutex<T>;

/// Relies on std::sync::Condvar::new: a condition variable with no waiter.
pub assume_specification[ std::sync::Condvar::new ]() -> std::sync::Condvar;

/// State behind a lock, and the condition variable on which threads wait for
/// it to change. Whoever changes the state under the lock wakes every waiter.
#[verifier::reject_recursive_types(T)]
pub struct CvarLock<T> {
    pub mutex: std::sync::Mutex<T>,
    pub condvar: std::sync::Condvar,
}

impl<T> CvarLock<T> {
    /// A lock around `data`, with nobody waiting.
    pub fn new(data: T) -> (r: CvarLock<T>) {
        let mutex = std::sync::Mutex::new(data);
        let condvar = std::sync::Condvar::new();
        CvarLock { mutex, condvar }
    }
}

} // verus!

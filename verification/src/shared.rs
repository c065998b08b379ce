//! Taking a value out of shared ownership.

use std::sync::{Arc, Mutex};
use vstd::prelude::*;

verus! {

/// `std::sync::Mutex`.
#[verifier::external_type_specification]
#[verifier::external_body]
#[verifier::reject_recursive_types(T)]
pub struct ExMutex<T: ?Sized>(Mutex<T>);

/// Why a shared value cannot be taken.
#[derive(Clone, Copy, Debug, PartialEq, Eq, Structural)]
pub enum SharedError {
    /// Someone else still holds it.
    StillShared,
    /// A thread panicked while it held the lock.
    Poisoned,
}

/// Calls `Arc::try_unwrap`, which gives the inner value to the only owner, and nothing but the
/// same `Arc` to one of several. Who else owns it cannot be told from the value, so when there is
/// a result is left unsaid.
#[verifier::external_body]
fn sole_owner<T>(shared: Arc<Mutex<T>>) -> (res: Option<Mutex<T>>)
    ensures
        res matches Some(mutex) ==> mutex == *shared,
{
    Arc::try_unwrap(shared).ok()
}

/// Calls `Mutex::into_inner`, which gives the value inside, or an error if another user panicked
/// while holding the mutex. Both can change behind a shared reference, so neither is a function of
/// the mutex and nothing is said of the result.
#[verifier::external_body]
fn unlocked<T>(mutex: Mutex<T>) -> (res: Option<T>) {
    mutex.into_inner().ok()
}

/// What taking a shared value comes to.
pub open spec fn taken_of<T>(opened: Option<Option<T>>) -> Result<T, SharedError> {
    match opened {
        Some(Some(value)) => Ok(value),
        Some(None) => Err(SharedError::Poisoned),
        None => Err(SharedError::StillShared),
    }
}

/// What taking a shared value comes to: `opened` holds what was found behind the lock, if the
/// caller was the only owner, and that holds the value unless the lock was poisoned.
pub fn taken<T>(opened: Option<Option<T>>) -> (res: Result<T, SharedError>)
    ensures
        res == taken_of(opened),
{
    match opened {
        Some(Some(value)) => Ok(value),
        Some(None) => Err(SharedError::Poisoned),
        None => Err(SharedError::StillShared),
    }
}

/// Whether `opened` is what can be found behind `shared`: nothing, for one of several owners, and
/// what the lock gives, for the only one.
pub closed spec fn opens_to<T>(shared: Arc<Mutex<T>>, opened: Option<Option<T>>) -> bool {
    match opened {
        Some(inner) => exists|mutex: Mutex<T>|
            call_ensures(sole_owner::<T>, (shared,), Some(mutex)) && call_ensures(
                unlocked::<T>,
                (mutex,),
                inner,
            ),
        None => call_ensures(sole_owner::<T>, (shared,), None),
    }
}

/// Takes the value out of `shared`, which must have no other owner and not be poisoned. What is
/// found behind `shared` decides, and nothing else.
pub fn unwrap_shared<T>(shared: Arc<Mutex<T>>) -> (res: Result<T, SharedError>)
    ensures
        exists|opened: Option<Option<T>>| opens_to(shared, opened) && res == taken_of(opened),
{
    let opened = match sole_owner(shared) {
        Some(mutex) => Some(unlocked(mutex)),
        None => None,
    };
    assert(opens_to(shared, opened));
    taken(opened)
}

/// What was found behind the lock is taken; without a value, or without the lock, the error says
/// which.
pub proof fn law_taken<T>(opened: Option<Option<T>>, res: Result<T, SharedError>)
    requires
        call_ensures(taken::<T>, (opened,), res),
    ensures
        opened matches Some(Some(value)) ==> res == Ok::<T, SharedError>(value),
        opened matches Some(None) ==> res == Err::<T, SharedError>(SharedError::Poisoned),
        opened is None ==> res == Err::<T, SharedError>(SharedError::StillShared),
{
}

/// Nothing can be found behind `shared` but what the two calls give: no lock for one of several
/// owners, and for the only one what unlocking it gives.
proof fn law_found_behind_the_lock<T>(shared: Arc<Mutex<T>>, inner: Option<T>)
    ensures
        opens_to(shared, None) <==> call_ensures(sole_owner::<T>, (shared,), None),
        opens_to(shared, Some(inner)) <==> exists|mutex: Mutex<T>|
            call_ensures(sole_owner::<T>, (shared,), Some(mutex)) && call_ensures(
                unlocked::<T>,
                (mutex,),
                inner,
            ),
{
}

/// A value that is taken was found behind the lock; an error says that the lock was found poisoned,
/// or that there was more than one owner.
pub proof fn law_unwrapped_value_was_found<T>(shared: Arc<Mutex<T>>, res: Result<T, SharedError>)
    requires
        call_ensures(unwrap_shared::<T>, (shared,), res),
    ensures
        res matches Ok(value) ==> opens_to(shared, Some(Some(value))),
        res == Err::<T, SharedError>(SharedError::Poisoned) ==> opens_to(shared, Some(None)),
        res == Err::<T, SharedError>(SharedError::StillShared) ==> opens_to(shared, None),
{
}

} // verus!

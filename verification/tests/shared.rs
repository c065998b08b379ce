use rls_build::shared::{taken, unwrap_shared, SharedError};
use std::sync::{Arc, Mutex};

#[test]
fn the_only_owner_takes_the_value() {
    let shared = Arc::new(Mutex::new(vec![1]));
    shared.lock().unwrap().push(2);
    assert_eq!(unwrap_shared(shared), Ok(vec![1, 2]));
}

#[test]
fn one_of_several_owners_takes_nothing() {
    let shared = Arc::new(Mutex::new(1));
    let other = Arc::clone(&shared);
    assert_eq!(unwrap_shared(shared), Err(SharedError::StillShared));
    assert_eq!(unwrap_shared(other), Ok(1));
}

#[test]
fn what_was_found_decides() {
    assert_eq!(taken(Some(Some(5))), Ok(5));
    assert_eq!(taken::<u8>(Some(None)), Err(SharedError::Poisoned));
    assert_eq!(taken::<u8>(None), Err(SharedError::StillShared));
}

use complex_storage::{AccountId, ComplexStorage, StorageError, UserAdded, UserRemoved};

fn key(b: u8) -> AccountId {
    AccountId::new([b; 32])
}

fn store() -> ComplexStorage {
    ComplexStorage::new(key(0))
}

#[test]
fn new_store_keeps_owner() {
    let s = store();
    assert_eq!(s.owner(), key(0));
}

#[test]
fn unknown_user_is_not_found_everywhere() {
    let mut s = store();
    s.add_user(key(2), b"other".to_vec());
    let k = key(1);
    assert_eq!(s.get_user(k).err(), Some(StorageError::UserNotFound));
    assert_eq!(s.add_data(k, vec![1]), Err(StorageError::UserNotFound));
    assert_eq!(s.get_data(k), Err(StorageError::UserNotFound));
    assert_eq!(s.activate_user(k), Err(StorageError::UserNotFound));
    assert_eq!(s.deactivate_user(k), Err(StorageError::UserNotFound));
}

#[test]
fn added_user_is_active_with_empty_log() {
    let mut s = store();
    let ev = s.add_user(key(1), b"alice".to_vec());
    assert_eq!(ev, UserAdded { user_id: key(1) });
    let u = s.get_user(key(1)).unwrap();
    assert_eq!(u.id(), key(1));
    assert_eq!(u.name(), b"alice");
    assert!(u.is_active());
    assert!(u.data().is_empty());
}

#[test]
fn fresh_user_has_no_store_log() {
    let mut s = store();
    s.add_user(key(1), b"alice".to_vec());
    assert_eq!(s.get_data(key(1)), Err(StorageError::NoDataForUser));
}

#[test]
fn deactivated_user_is_gated() {
    let mut s = store();
    s.add_user(key(1), b"alice".to_vec());
    assert_eq!(s.deactivate_user(key(1)), Ok(()));
    assert_eq!(s.add_data(key(1), vec![9]), Err(StorageError::UserInactive));
    assert_eq!(s.get_data(key(1)), Err(StorageError::UserInactive));
    let u = s.get_user(key(1)).unwrap();
    assert!(!u.is_active());
    assert_eq!(u.name(), b"alice");
}

#[test]
fn deactivate_and_activate_are_idempotent() {
    let mut s = store();
    s.add_user(key(1), b"alice".to_vec());
    assert_eq!(s.deactivate_user(key(1)), Ok(()));
    assert_eq!(s.deactivate_user(key(1)), Ok(()));
    assert!(!s.get_user(key(1)).unwrap().is_active());
    assert_eq!(s.activate_user(key(1)), Ok(()));
    assert_eq!(s.activate_user(key(1)), Ok(()));
    assert!(s.get_user(key(1)).unwrap().is_active());
    assert_eq!(s.add_data(key(1), vec![3]), Ok(()));
    assert_eq!(s.get_data(key(1)), Ok(vec![vec![3]]));
}

#[test]
fn appends_are_kept_in_order() {
    let mut s = store();
    s.add_user(key(1), b"alice".to_vec());
    assert_eq!(s.add_data(key(1), vec![1, 2]), Ok(()));
    assert_eq!(s.add_data(key(1), vec![3]), Ok(()));
    assert_eq!(s.get_data(key(1)), Ok(vec![vec![1, 2], vec![3]]));
}

#[test]
fn equal_payloads_are_not_merged() {
    let mut s = store();
    s.add_user(key(1), b"alice".to_vec());
    s.add_data(key(1), vec![5]).unwrap();
    s.add_data(key(1), vec![5]).unwrap();
    s.add_data(key(1), vec![]).unwrap();
    assert_eq!(s.get_data(key(1)), Ok(vec![vec![5], vec![5], vec![]]));
}

#[test]
fn user_log_mirrors_store_log() {
    let mut s = store();
    s.add_user(key(1), b"alice".to_vec());
    s.add_data(key(1), vec![1]).unwrap();
    s.add_data(key(1), vec![2]).unwrap();
    let u = s.get_user(key(1)).unwrap();
    assert_eq!(u.data(), &vec![vec![1], vec![2]]);
    assert_eq!(s.get_data(key(1)).unwrap(), *u.data());
}

#[test]
fn users_are_kept_apart() {
    let mut s = store();
    s.add_user(key(1), b"alice".to_vec());
    s.add_user(key(2), b"bob".to_vec());
    s.add_data(key(1), vec![1]).unwrap();
    s.add_data(key(2), vec![2]).unwrap();
    s.deactivate_user(key(2)).unwrap();
    assert_eq!(s.get_data(key(1)), Ok(vec![vec![1]]));
    assert_eq!(s.get_data(key(2)), Err(StorageError::UserInactive));
    s.remove_user(key(1));
    assert_eq!(s.get_user(key(2)).unwrap().name(), b"bob");
    assert_eq!(s.get_user(key(2)).unwrap().data(), &vec![vec![2]]);
}

#[test]
fn removed_user_is_gone() {
    let mut s = store();
    s.add_user(key(1), b"alice".to_vec());
    s.add_data(key(1), vec![1]).unwrap();
    let ev = s.remove_user(key(1));
    assert_eq!(ev, UserRemoved { user_id: key(1) });
    assert_eq!(s.get_user(key(1)).err(), Some(StorageError::UserNotFound));
    assert_eq!(s.get_data(key(1)), Err(StorageError::UserNotFound));
}

#[test]
fn removing_unknown_user_still_notifies() {
    let mut s = store();
    s.add_user(key(2), b"bob".to_vec());
    let ev = s.remove_user(key(1));
    assert_eq!(ev, UserRemoved { user_id: key(1) });
    assert_eq!(s.get_user(key(2)).unwrap().name(), b"bob");
    assert_eq!(s.get_user(key(1)).err(), Some(StorageError::UserNotFound));
}

#[test]
fn readding_user_resets_log() {
    let mut s = store();
    s.add_user(key(1), b"alice".to_vec());
    s.add_data(key(1), vec![1]).unwrap();
    s.deactivate_user(key(1)).unwrap();
    s.add_user(key(1), b"alice2".to_vec());
    assert_eq!(s.get_data(key(1)), Err(StorageError::NoDataForUser));
    let u = s.get_user(key(1)).unwrap();
    assert_eq!(u.name(), b"alice2");
    assert!(u.is_active());
    assert!(u.data().is_empty());
    s.add_data(key(1), vec![2]).unwrap();
    assert_eq!(s.get_data(key(1)), Ok(vec![vec![2]]));
}

#[test]
fn re_added_after_remove_starts_empty() {
    let mut s = store();
    s.add_user(key(1), b"alice".to_vec());
    s.add_data(key(1), vec![1]).unwrap();
    s.remove_user(key(1));
    s.add_user(key(1), b"alice".to_vec());
    assert_eq!(s.get_data(key(1)), Err(StorageError::NoDataForUser));
}

#[test]
fn copied_user_is_independent() {
    let mut s = store();
    s.add_user(key(1), b"alice".to_vec());
    s.add_data(key(1), vec![1]).unwrap();
    let u = s.get_user(key(1)).unwrap();
    s.add_data(key(1), vec![2]).unwrap();
    assert_eq!(u.data(), &vec![vec![1]]);
    let c = u.copy();
    assert_eq!(c.data(), u.data());
    assert_eq!(c.name(), u.name());
}

#[test]
fn keys_differing_in_last_byte_are_distinct() {
    let mut a = [7u8; 32];
    let mut b = [7u8; 32];
    a[31] = 1;
    b[31] = 2;
    let (ka, kb) = (AccountId::new(a), AccountId::new(b));
    assert!(!ka.same(&kb));
    assert!(ka.same(&AccountId::new(a)));
    let mut s = store();
    s.add_user(ka, b"a".to_vec());
    assert_eq!(s.get_user(kb).err(), Some(StorageError::UserNotFound));
}

use pallets::account::{Error, Event, Pallet};
use pallets::dispatch::{DispatchError, RawOrigin};
use pallets::utils::{Role, Status};

fn signed(who: u64) -> RawOrigin {
    RawOrigin::Signed(who)
}

#[test]
fn register_stores_profile_with_pending_status() {
    let mut p = Pallet::new();
    let r = p.register(signed(7), b"alice".to_vec(), Role::ORG, b"school".to_vec(), b"meta".to_vec());
    assert_eq!(r, Ok(()));
    let a = p.account_storage(7).unwrap();
    assert_eq!(a.id, 7);
    assert_eq!(a.name, b"alice".to_vec());
    assert_eq!(a.role, Role::ORG);
    assert_eq!(a.status, Status::Pending);
    assert_eq!(a.org_type, b"school".to_vec());
    assert_eq!(a.metadata, b"meta".to_vec());
    assert!(p.account_storage(8).is_none());
    assert_eq!(p.events().clone(), vec![Event::AccountRegisted]);
}

#[test]
fn register_twice_is_refused() {
    let mut p = Pallet::new();
    assert_eq!(p.register(signed(1), b"a".to_vec(), Role::USER, vec![], vec![]), Ok(()));
    let r = p.register(signed(1), b"b".to_vec(), Role::SYSMAN, vec![], vec![]);
    assert_eq!(r, Err(DispatchError::Module(Error::AlreadyExist)));
    assert_eq!(p.account_storage(1).unwrap().name, b"a".to_vec());
    assert_eq!(p.account_storage(1).unwrap().role, Role::USER);
    assert_eq!(p.events().len(), 1);
}

#[test]
fn unsigned_and_root_origins_are_refused() {
    let mut p = Pallet::new();
    assert_eq!(p.register(RawOrigin::Unsigned, vec![], Role::USER, vec![], vec![]), Err(DispatchError::BadOrigin));
    assert_eq!(p.register(RawOrigin::Root, vec![], Role::USER, vec![], vec![]), Err(DispatchError::BadOrigin));
    assert_eq!(p.update(RawOrigin::Root, vec![], Role::USER, vec![], vec![]), Err(DispatchError::BadOrigin));
    assert!(p.events().is_empty());
}

#[test]
fn update_without_registration_is_refused() {
    let mut p = Pallet::new();
    let r = p.update(signed(3), b"x".to_vec(), Role::USER, vec![], vec![]);
    assert_eq!(r, Err(DispatchError::Module(Error::AccountNotRegistered)));
    assert!(p.account_storage(3).is_none());
    assert!(p.events().is_empty());
}

#[test]
fn update_after_register_replaces_profile() {
    let mut p = Pallet::new();
    assert_eq!(p.register(signed(2), b"old".to_vec(), Role::USER, b"t1".to_vec(), b"m1".to_vec()), Ok(()));
    assert_eq!(p.update(signed(2), b"new".to_vec(), Role::ORG, b"t2".to_vec(), b"m2".to_vec()), Ok(()));
    let a = p.account_storage(2).unwrap();
    assert_eq!(a.name, b"new".to_vec());
    assert_eq!(a.role, Role::ORG);
    assert_eq!(a.org_type, b"t2".to_vec());
    assert_eq!(a.metadata, b"m2".to_vec());
    assert_eq!(a.status, Status::Pending);
    assert_eq!(p.events().clone(), vec![Event::AccountRegisted, Event::AccountUpdated]);
}

#[test]
fn update_keeps_other_accounts() {
    let mut p = Pallet::new();
    assert_eq!(p.register(signed(1), b"one".to_vec(), Role::USER, vec![], vec![]), Ok(()));
    assert_eq!(p.register(signed(2), b"two".to_vec(), Role::USER, vec![], vec![]), Ok(()));
    assert_eq!(p.update(signed(1), b"uno".to_vec(), Role::USER, vec![], vec![]), Ok(()));
    assert_eq!(p.account_storage(2).unwrap().name, b"two".to_vec());
    assert_eq!(p.account_storage(1).unwrap().name, b"uno".to_vec());
    assert!(p.account_storage(3).is_none());
}

#[test]
fn default_status_is_pending() {
    assert_eq!(Status::default(), Status::Pending);
}

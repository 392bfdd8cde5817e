use pallets::cv::{Error, Event, Item, Pallet, Status};
use pallets::dispatch::{DispatchError, RawOrigin};
use pallets::utils::WhoAndWhen;

fn signed(who: u64) -> RawOrigin {
    RawOrigin::Signed(who)
}

#[test]
fn item_new_sets_every_field() {
    let it = Item::new(5, 10, 11, Some(100), Some(200), Some(9), 42, b"cv".to_vec(), 3, 1000);
    assert_eq!(it.item_id, 5);
    assert_eq!(it.user_id, 10);
    assert_eq!(it.created, WhoAndWhen { account: 11, block: 3, time: 1000 });
    assert_eq!(it.org_date, Some(100));
    assert_eq!(it.exp_date, Some(200));
    assert_eq!(it.certificate_id, Some(9));
    assert_eq!(it.score, 42);
    assert_eq!(it.metadata, b"cv".to_vec());
}

#[test]
fn create_item_uses_counter_signer_and_zero_score() {
    let mut p = Pallet::new();
    p.set_block_number(4);
    p.set_timestamp(5000);
    let r = p.create_item(signed(1), 77, 20, 99, Some(1), None, Some(3), 8, b"m".to_vec());
    assert_eq!(r, Ok(()));
    let it = p.item_by_id(0).unwrap();
    assert_eq!(it.item_id, 0);
    assert_eq!(it.user_id, 20);
    assert_eq!(it.created, WhoAndWhen { account: 1, block: 4, time: 5000 });
    assert_eq!(it.score, 0);
    assert_eq!(it.org_date, Some(1));
    assert_eq!(it.exp_date, None);
    assert_eq!(it.certificate_id, Some(3));
    assert_eq!(it.metadata, b"m".to_vec());
    assert!(p.item_by_id(77).is_none());
    assert_eq!(p.item_by_account_id(1), vec![0]);
    assert_eq!(p.item_by_account_id(20), Vec::<u64>::new());
    assert_eq!(p.events().clone(), vec![Event::CreateSuceed(0)]);
}

#[test]
fn counter_never_advances() {
    let mut p = Pallet::new();
    assert_eq!(p.create_item(signed(1), 0, 2, 1, None, None, None, 0, b"a".to_vec()), Ok(()));
    assert_eq!(p.create_item(signed(1), 0, 3, 1, None, None, None, 0, b"b".to_vec()), Ok(()));
    assert_eq!(p.item_id(), 0);
    assert_eq!(p.item_by_account_id(1), vec![0, 0]);
    assert_eq!(p.item_by_id(0).unwrap().metadata, b"b".to_vec());
    assert_eq!(p.item_by_id(0).unwrap().user_id, 3);
}

#[test]
fn create_then_revoke_removes_item() {
    let mut p = Pallet::new();
    assert_eq!(p.create_item(signed(6), 0, 2, 6, None, None, None, 0, vec![]), Ok(()));
    assert!(!p.revoke_error_would_overrun(signed(6), 0, 6));
    assert_eq!(p.revoke_error(signed(6), 0, 6), Ok(()));
    assert!(p.item_by_id(0).is_none());
    assert_eq!(p.item_by_account_id(6), Vec::<u64>::new());
    assert_eq!(p.events().clone(), vec![Event::CreateSuceed(0), Event::RevokeSuceed(0)]);
}

#[test]
fn revoke_unlisted_item_is_refused() {
    let mut p = Pallet::new();
    assert_eq!(p.create_item(signed(6), 0, 2, 6, None, None, None, 0, vec![]), Ok(()));
    assert_eq!(p.revoke_error(signed(6), 0, 7), Err(DispatchError::Module(Error::ItemNotFound)));
    assert_eq!(p.revoke_error(signed(6), 5, 6), Err(DispatchError::Module(Error::ItemNotFound)));
    assert!(p.item_by_id(0).is_some());
    assert_eq!(p.item_by_account_id(6), vec![0]);
    assert_eq!(p.events().len(), 1);
}

#[test]
fn revoke_removes_first_occurrence_from_signer_list() {
    let mut p = Pallet::new();
    for _ in 0..3 {
        assert_eq!(p.create_item(signed(1), 0, 2, 1, None, None, None, 0, vec![]), Ok(()));
    }
    assert_eq!(p.create_item(signed(9), 0, 2, 9, None, None, None, 0, vec![]), Ok(()));
    // item 0 is first listed for account 1 at index 0; signer 9 has one entry.
    assert_eq!(p.revoke_error(signed(9), 0, 1), Ok(()));
    assert_eq!(p.item_by_account_id(9), Vec::<u64>::new());
    assert_eq!(p.item_by_account_id(1), vec![0, 0, 0]);
    assert!(p.item_by_id(0).is_none());
}

#[test]
fn revoke_past_end_of_signer_list_is_detected() {
    let mut p = Pallet::new();
    assert_eq!(p.create_item(signed(1), 0, 2, 1, None, None, None, 0, vec![]), Ok(()));
    assert!(p.revoke_error_would_overrun(signed(2), 0, 1));
    assert!(!p.revoke_error_would_overrun(RawOrigin::Root, 0, 1));
    assert!(!p.revoke_error_would_overrun(signed(2), 3, 1));
}

#[test]
fn unsigned_calls_are_refused() {
    let mut p = Pallet::new();
    assert_eq!(p.create_item(RawOrigin::Unsigned, 0, 2, 1, None, None, None, 0, vec![]), Err(DispatchError::BadOrigin));
    assert_eq!(p.revoke_error(RawOrigin::Root, 0, 1), Err(DispatchError::BadOrigin));
    assert!(p.item_by_id(0).is_none());
    assert!(p.events().is_empty());
}

#[test]
fn set_status_item_changes_nothing() {
    let mut p = Pallet::new();
    assert_eq!(p.create_item(signed(1), 0, 2, 1, None, None, None, 0, vec![]), Ok(()));
    p.set_status_item(signed(1), Status::Allow);
    assert_eq!(p.item_by_account_id(1), vec![0]);
    assert_eq!(p.events().len(), 1);
    assert_eq!(Status::default(), Status::Pending);
}

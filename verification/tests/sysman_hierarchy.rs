use pallets::dispatch::{DispatchError, RawOrigin};
use pallets::sysman::{Error, Event, GenesisConfig, OperationType, Pallet, SysManAccount};
use pallets::utils::{Role, Status};

fn signed(who: u64) -> RawOrigin {
    RawOrigin::Signed(who)
}

fn record(role: Role, level: Option<u8>) -> SysManAccount {
    SysManAccount {
        role,
        status: Status::Allow,
        level,
        parent: None,
        children: Some(vec![]),
        metadata: b"root".to_vec(),
    }
}

fn genesis_with_root() -> Pallet {
    GenesisConfig { sysman: vec![(1, record(Role::SYSMAN, Some(0)))] }.build()
}

#[test]
fn genesis_builds_listed_managers_later_pairs_win() {
    let g = GenesisConfig {
        sysman: vec![(1, record(Role::SYSMAN, Some(0))), (2, record(Role::ORG, None)), (1, record(Role::SYSMAN, Some(3)))],
    };
    let p = g.build();
    assert_eq!(p.sysman_storage(1).unwrap().level, Some(3));
    assert_eq!(p.sysman_storage(2).unwrap().role, Role::ORG);
    assert!(p.sysman_storage(3).is_none());
    assert!(p.sysman_revoked(1).is_none());
    assert!(p.org_storage(1).is_none());
    assert!(p.events().is_empty());
}

#[test]
fn default_genesis_is_empty() {
    let g = GenesisConfig::default();
    assert!(g.sysman.is_empty());
    let p = g.build();
    assert!(p.sysman_storage(0).is_none());
}

#[test]
fn create_account_keeps_fields() {
    let a = Pallet::create_account(Role::ORG, Status::Deny, Some(4), Some(9), None, b"x".to_vec()).unwrap();
    assert_eq!(a.role, Role::ORG);
    assert_eq!(a.status, Status::Deny);
    assert_eq!(a.level, Some(4));
    assert_eq!(a.parent, Some(9));
    assert_eq!(a.children, None);
    assert_eq!(a.metadata, b"x".to_vec());
}

#[test]
fn get_account_checks_table_and_role() {
    let g = GenesisConfig { sysman: vec![(1, record(Role::SYSMAN, Some(0))), (2, record(Role::ORG, None))] };
    let mut p = g.build();
    assert_eq!(p.get_account(1, OperationType::SYS).unwrap().level, Some(0));
    assert_eq!(p.get_account(2, OperationType::SYS).unwrap_err(), Error::NoValidAuthorization);
    assert_eq!(p.get_account(3, OperationType::SYS).unwrap_err(), Error::SysmanNotExist);
    assert_eq!(p.get_account(1, OperationType::ORG).unwrap_err(), Error::OrgNotExist);
    assert_eq!(p.approve_org(signed(1), 5, b"org".to_vec()), Ok(()));
    assert_eq!(p.get_account(5, OperationType::ORG).unwrap().role, Role::ORG);
}

#[test]
fn approve_sysman_links_to_approver() {
    let mut p = genesis_with_root();
    assert!(!p.approve_sysman_would_overflow(signed(1), 2));
    assert_eq!(p.approve_sysman(signed(1), 2, b"m".to_vec()), Ok(()));
    let a = p.sysman_storage(2).unwrap();
    assert_eq!(a.role, Role::SYSMAN);
    assert_eq!(a.status, Status::Pending);
    assert_eq!(a.level, Some(1));
    assert_eq!(a.parent, Some(1));
    assert_eq!(a.children, Some(vec![]));
    assert_eq!(a.metadata, b"m".to_vec());
    assert_eq!(
        p.events().clone(),
        vec![Event::Approved { target_id: 2, metadata: b"m".to_vec(), approver: 1 }]
    );
}

#[test]
fn approve_sysman_refusals() {
    let mut p = genesis_with_root();
    assert_eq!(p.approve_sysman(RawOrigin::Unsigned, 2, vec![]), Err(DispatchError::BadOrigin));
    assert_eq!(p.approve_sysman(signed(9), 2, vec![]), Err(DispatchError::Module(Error::SysmanNotExist)));
    assert_eq!(p.approve_sysman(signed(1), 1, vec![]), Err(DispatchError::Module(Error::AlreadySysman)));
    assert!(p.events().is_empty());
}

#[test]
fn approve_by_non_sysman_role_is_refused() {
    let mut p = GenesisConfig { sysman: vec![(1, record(Role::ORG, Some(0)))] }.build();
    assert_eq!(p.approve_sysman(signed(1), 2, vec![]), Err(DispatchError::Module(Error::NoValidAuthorization)));
    assert_eq!(p.approve_org(signed(1), 2, vec![]), Err(DispatchError::Module(Error::NoValidAuthorization)));
    assert_eq!(p.revoke_sysman(signed(1), 2, vec![]), Err(DispatchError::Module(Error::NoValidAuthorization)));
}

#[test]
fn approver_revokes_approved_but_not_the_reverse() {
    let mut p = genesis_with_root();
    assert_eq!(p.approve_sysman(signed(1), 2, vec![]), Ok(()));
    assert_eq!(p.revoke_sysman(signed(2), 1, vec![]), Err(DispatchError::Module(Error::NoValidAuthorization)));
    assert!(p.sysman_storage(1).is_some());
    assert_eq!(p.revoke_sysman(signed(1), 2, b"bye".to_vec()), Ok(()));
    assert!(p.sysman_storage(2).is_none());
    assert_eq!(p.sysman_revoked(2).unwrap().level, Some(1));
    assert_eq!(p.events().last().unwrap().clone(), Event::Revoked { target_id: 2, revoker: 1 });
}

#[test]
fn revoked_manager_is_never_reapproved() {
    let mut p = genesis_with_root();
    assert_eq!(p.approve_sysman(signed(1), 2, vec![]), Ok(()));
    assert_eq!(p.revoke_sysman(signed(1), 2, vec![]), Ok(()));
    assert_eq!(p.approve_sysman(signed(1), 2, vec![]), Err(DispatchError::Module(Error::AlreadyRevoked)));
    assert_eq!(p.revoke_sysman(signed(1), 2, vec![]), Err(DispatchError::Module(Error::SysmanNotExist)));
    assert!(p.sysman_revoked(2).is_some());
    assert!(p.sysman_storage(2).is_none());
}

#[test]
fn no_self_revoke() {
    let mut p = genesis_with_root();
    assert_eq!(p.revoke_sysman(signed(1), 1, vec![]), Err(DispatchError::Module(Error::NoValidAuthorization)));
    assert!(p.sysman_storage(1).is_some());
    assert_eq!(p.revoke_sysman(RawOrigin::Root, 1, vec![]), Err(DispatchError::BadOrigin));
}

#[test]
fn revoke_among_equals_is_refused() {
    let mut p = genesis_with_root();
    assert_eq!(p.approve_sysman(signed(1), 2, vec![]), Ok(()));
    assert_eq!(p.approve_sysman(signed(1), 3, vec![]), Ok(()));
    assert_eq!(p.revoke_sysman(signed(2), 3, vec![]), Err(DispatchError::Module(Error::NoValidAuthorization)));
    // a grandparent outranks a grandchild
    assert_eq!(p.approve_sysman(signed(2), 4, vec![]), Ok(()));
    assert_eq!(p.sysman_storage(4).unwrap().level, Some(2));
    assert_eq!(p.revoke_sysman(signed(1), 4, vec![]), Ok(()));
}

#[test]
fn approve_org_and_refusals() {
    let mut p = genesis_with_root();
    assert_eq!(p.approve_org(signed(1), 8, b"o".to_vec()), Ok(()));
    let o = p.org_storage(8).unwrap();
    assert_eq!(o.role, Role::ORG);
    assert_eq!(o.level, None);
    assert_eq!(o.parent, None);
    assert_eq!(o.children, None);
    assert_eq!(o.status, Status::Pending);
    assert_eq!(p.approve_org(signed(1), 8, vec![]), Err(DispatchError::Module(Error::AlreadyOrg)));
    assert_eq!(p.approve_org(signed(8), 9, vec![]), Err(DispatchError::Module(Error::SysmanNotExist)));
    assert!(p.org_revoked(8).is_none());
    assert_eq!(p.events().len(), 1);
}

#[test]
fn approval_without_next_level_is_detected() {
    let p = GenesisConfig { sysman: vec![(1, record(Role::SYSMAN, Some(255))), (2, record(Role::SYSMAN, None))] }.build();
    assert!(p.approve_sysman_would_overflow(signed(1), 3));
    assert!(p.approve_sysman_would_overflow(signed(2), 3));
    assert!(!p.approve_sysman_would_overflow(signed(1), 2));
    assert!(!p.approve_sysman_would_overflow(signed(4), 3));
}

#[test]
fn missing_levels_count_as_zero_when_revoking() {
    let mut p = GenesisConfig { sysman: vec![(1, record(Role::SYSMAN, None)), (2, record(Role::SYSMAN, Some(1)))] }.build();
    assert_eq!(p.revoke_sysman(signed(1), 2, vec![]), Ok(()));
    assert_eq!(p.revoke_sysman(signed(2), 1, vec![]), Err(DispatchError::Module(Error::SysmanNotExist)));
}

#[test]
fn account_clone_keeps_fields() {
    let a = record(Role::SYSMAN, Some(7));
    let b = a.clone();
    assert_eq!(b.level, Some(7));
    assert_eq!(b.metadata, a.metadata);
    assert_eq!(b.children, a.children);
}

//! The hierarchy of system managers and organisations.
//!
//! System managers approve new system managers and organisations. Each
//! system manager records the manager that approved it and its level in the
//! hierarchy: one more than its approver's. A manager may revoke another
//! manager only from a strictly higher position, that is from a smaller
//! level; a revoked manager is kept apart and can never be approved again.

use vstd::prelude::*;
use std::collections::HashMap;
use crate::dispatch::{AccountId, RawOrigin, DispatchError, DispatchResult, ensure_signed, signer};
use crate::utils::{Role, Status};

verus! {

broadcast use vstd::std_specs::hash::group_hash_axioms;

/// The record kept for a system manager or an organisation.
#[derive(Debug, PartialEq, Eq)]
pub struct SysManAccount {
    pub role: Role,
    pub status: Status,
    pub level: Option<u8>,
    pub parent: Option<AccountId>,
    pub children: Option<Vec<AccountId>>,
    pub metadata: Vec<u8>,
}

/// The mathematical value of a [`SysManAccount`].
pub struct SysManAccountView {
    pub role: Role,
    pub status: Status,
    pub level: Option<u8>,
    pub parent: Option<AccountId>,
    pub children: Option<Seq<AccountId>>,
    pub metadata: Seq<u8>,
}

impl View for SysManAccount {
    type V = SysManAccountView;

    open spec fn view(&self) -> SysManAccountView {
        SysManAccountView {
            role: self.role,
            status: self.status,
            level: self.level,
            parent: self.parent,
            children: match self.children {
                Some(c) => Some(c@),
                None => None,
            },
            metadata: self.metadata@,
        }
    }
}

impl Clone for SysManAccount {
    fn clone(&self) -> (r: Self)
        ensures
            r@ == self@,
    {
        let children = match &self.children {
            Some(c) => Some(c.clone()),
            None => None,
        };
        let r = SysManAccount {
            role: self.role,
            status: self.status,
            level: self.level,
            parent: self.parent,
            children,
            metadata: self.metadata.clone(),
        };
        assert(r.metadata@ =~= self.metadata@);
        if self.children.is_some() {
            assert(r.children.unwrap()@ =~= self.children.unwrap()@);
        }
        r
    }
}

/// Which table a lookup reads: system managers or organisations.
#[derive(Clone, Copy, Debug, PartialEq, Eq, Structural)]
pub enum OperationType {
    SYS,
    ORG,
}

/// What the hierarchy announces after a successful call.
#[derive(Clone, Debug, PartialEq, Eq)]
pub enum Event {
    Approved { target_id: AccountId, metadata: Vec<u8>, approver: AccountId },
    Revoked { target_id: AccountId, revoker: AccountId },
}

/// The mathematical value of an [`Event`].
pub enum EventView {
    Approved { target_id: AccountId, metadata: Seq<u8>, approver: AccountId },
    Revoked { target_id: AccountId, revoker: AccountId },
}

impl View for Event {
    type V = EventView;

    open spec fn view(&self) -> EventView {
        match self {
            Event::Approved { target_id, metadata, approver } => EventView::Approved {
                target_id: *target_id,
                metadata: metadata@,
                approver: *approver,
            },
            Event::Revoked { target_id, revoker } => EventView::Revoked {
                target_id: *target_id,
                revoker: *revoker,
            },
        }
    }
}

/// Why the hierarchy refused a call.
#[derive(Clone, Copy, Debug, PartialEq, Eq, Structural)]
pub enum Error {
    /// The account is not a system manager.
    SysmanNotExist,
    /// The account is not a known user.
    UserNotExist,
    /// The account is not an organisation.
    OrgNotExist,
    /// The account's role does not exist.
    NotExistRole,
    /// The applicant is already a system manager.
    AlreadySysman,
    /// The applicant is already an organisation.
    AlreadyOrg,
    /// The account was revoked before.
    AlreadyRevoked,
    /// The caller lacks the role or the rank that the call needs.
    NoValidAuthorization,
    /// The target is not a system manager.
    NotSysman,
}

/// The state of the hierarchy: four tables from accounts to records, and
/// the events emitted so far, oldest first.
pub struct SysmanState {
    pub org_storage: Map<AccountId, SysManAccountView>,
    pub org_revoked: Map<AccountId, SysManAccountView>,
    pub sysman_storage: Map<AccountId, SysManAccountView>,
    pub sysman_revoked: Map<AccountId, SysManAccountView>,
    pub events: Seq<EventView>,
}

impl SysmanState {
    /// No account is both active and revoked, as a manager or as an
    /// organisation.
    pub open spec fn well_formed(&self) -> bool {
        &&& forall|a: AccountId|
            !(#[trigger] self.sysman_storage.contains_key(a) && self.sysman_revoked.contains_key(a))
        &&& forall|a: AccountId|
            !(#[trigger] self.org_storage.contains_key(a) && self.org_revoked.contains_key(a))
    }
}

/// The hierarchy of system managers and organisations.
pub struct Pallet {
    org_storage: HashMap<AccountId, SysManAccount>,
    org_revoked: HashMap<AccountId, SysManAccount>,
    sysman_storage: HashMap<AccountId, SysManAccount>,
    sysman_revoked: HashMap<AccountId, SysManAccount>,
    events: Vec<Event>,
}

/// The view of a table of records.
pub open spec fn table_view(m: Map<AccountId, SysManAccount>) -> Map<AccountId, SysManAccountView> {
    m.map_values(|a: SysManAccount| a@)
}

impl View for Pallet {
    type V = SysmanState;

    closed spec fn view(&self) -> SysmanState {
        SysmanState {
            org_storage: table_view(self.org_storage@),
            org_revoked: table_view(self.org_revoked@),
            sysman_storage: table_view(self.sysman_storage@),
            sysman_revoked: table_view(self.sysman_revoked@),
            events: self.events@.map_values(|e: Event| e@),
        }
    }
}

/// The record that `create_account` builds from its fields.
pub open spec fn account_view(
    role: Role,
    status: Status,
    level: Option<u8>,
    parent: Option<AccountId>,
    children: Option<Seq<AccountId>>,
    metadata: Seq<u8>,
) -> SysManAccountView {
    SysManAccountView { role, status, level, parent, children, metadata }
}

/// The level of a record, counting a missing level as 0.
pub open spec fn level_or_zero(a: SysManAccountView) -> u8 {
    match a.level {
        Some(l) => l,
        None => 0,
    }
}

/// What `get_account` finds: the record of `id` in the table that `role`
/// names, if it is there and holds the matching role.
pub open spec fn get_account_model(
    s: SysmanState,
    id: AccountId,
    role: OperationType,
) -> Result<SysManAccountView, Error> {
    match role {
        OperationType::SYS => if s.sysman_storage.contains_key(id) {
            if s.sysman_storage[id].role == Role::SYSMAN {
                Ok(s.sysman_storage[id])
            } else {
                Err(Error::NoValidAuthorization)
            }
        } else {
            Err(Error::SysmanNotExist)
        },
        OperationType::ORG => if s.org_storage.contains_key(id) {
            if s.org_storage[id].role == Role::ORG {
                Ok(s.org_storage[id])
            } else {
                Err(Error::NoValidAuthorization)
            }
        } else {
            Err(Error::OrgNotExist)
        },
    }
}

/// The record of a manager approved by `approver`, whose own record is
/// `authority`: one level below it, with no children yet.
pub open spec fn approved_sysman(
    authority: SysManAccountView,
    approver: AccountId,
    metadata: Seq<u8>,
) -> SysManAccountView {
    account_view(
        Role::SYSMAN,
        Status::Pending,
        Some((authority.level->0 + 1) as u8),
        Some(approver),
        Some(Seq::<AccountId>::empty()),
        metadata,
    )
}

/// The record of an organisation: no level, parent or children.
pub open spec fn approved_org(metadata: Seq<u8>) -> SysManAccountView {
    account_view(Role::ORG, Status::Pending, None, None, None, metadata)
}

/// The inputs on which `approve_sysman` would have no next level to give:
/// every check passes but the approver has no level, or the largest one.
pub open spec fn approve_sysman_panics(s: SysmanState, origin: RawOrigin, applicant: AccountId) -> bool {
    match signer(origin) {
        None => false,
        Some(who) => match get_account_model(s, who, OperationType::SYS) {
            Err(_) => false,
            Ok(authority) => {
                &&& !s.sysman_storage.contains_key(applicant)
                &&& !s.sysman_revoked.contains_key(applicant)
                &&& (authority.level is None || authority.level->0 == 255)
            },
        },
    }
}

/// The outcome of `approve_sysman`: a signed system manager makes a new,
/// never revoked applicant a manager one level below itself.
pub open spec fn approve_sysman_model(
    s: SysmanState,
    origin: RawOrigin,
    applicant: AccountId,
    metadata: Seq<u8>,
) -> (SysmanState, DispatchResult<Error>) {
    match signer(origin) {
        None => (s, Err(DispatchError::BadOrigin)),
        Some(who) => match get_account_model(s, who, OperationType::SYS) {
            Err(e) => (s, Err(DispatchError::Module(e))),
            Ok(authority) => if s.sysman_storage.contains_key(applicant) {
                (s, Err(DispatchError::Module(Error::AlreadySysman)))
            } else if s.sysman_revoked.contains_key(applicant) {
                (s, Err(DispatchError::Module(Error::AlreadyRevoked)))
            } else {
                (
                    SysmanState {
                        sysman_storage: s.sysman_storage.insert(
                            applicant,
                            approved_sysman(authority, who, metadata),
                        ),
                        events: s.events.push(
                            EventView::Approved { target_id: applicant, metadata, approver: who },
                        ),
                        ..s
                    },
                    Ok(()),
                )
            },
        },
    }
}

/// The outcome of `approve_org`: a signed system manager makes a new,
/// never revoked applicant an organisation.
pub open spec fn approve_org_model(
    s: SysmanState,
    origin: RawOrigin,
    applicant: AccountId,
    metadata: Seq<u8>,
) -> (SysmanState, DispatchResult<Error>) {
    match signer(origin) {
        None => (s, Err(DispatchError::BadOrigin)),
        Some(who) => match get_account_model(s, who, OperationType::SYS) {
            Err(e) => (s, Err(DispatchError::Module(e))),
            Ok(_) => if s.org_storage.contains_key(applicant) {
                (s, Err(DispatchError::Module(Error::AlreadyOrg)))
            } else if s.org_revoked.contains_key(applicant) {
                (s, Err(DispatchError::Module(Error::AlreadyRevoked)))
            } else {
                (
                    SysmanState {
                        org_storage: s.org_storage.insert(applicant, approved_org(metadata)),
                        events: s.events.push(
                            EventView::Approved { target_id: applicant, metadata, approver: who },
                        ),
                        ..s
                    },
                    Ok(()),
                )
            },
        },
    }
}

/// The outcome of `revoke_sysman`: a signed system manager with a strictly
/// smaller level than the target manager moves the target's record from
/// the active managers to the revoked ones.
pub open spec fn revoke_sysman_model(
    s: SysmanState,
    origin: RawOrigin,
    target: AccountId,
) -> (SysmanState, DispatchResult<Error>) {
    match signer(origin) {
        None => (s, Err(DispatchError::BadOrigin)),
        Some(who) => match get_account_model(s, who, OperationType::SYS) {
            Err(e) => (s, Err(DispatchError::Module(e))),
            Ok(authority) => match get_account_model(s, target, OperationType::SYS) {
                Err(e) => (s, Err(DispatchError::Module(e))),
                Ok(revoked) => if !s.sysman_storage.contains_key(target) {
                    (s, Err(DispatchError::Module(Error::NotSysman)))
                } else if s.sysman_revoked.contains_key(target) {
                    (s, Err(DispatchError::Module(Error::AlreadyRevoked)))
                } else if !(level_or_zero(authority) < level_or_zero(revoked)) {
                    (s, Err(DispatchError::Module(Error::NoValidAuthorization)))
                } else {
                    (
                        SysmanState {
                            sysman_storage: s.sysman_storage.remove(target),
                            sysman_revoked: s.sysman_revoked.insert(target, revoked),
                            events: s.events.push(EventView::Revoked { target_id: target, revoker: who }),
                            ..s
                        },
                        Ok(()),
                    )
                },
            },
        },
    }
}

/// The managers table that genesis builds: each listed pair inserted in
/// order, so a later pair for the same account wins.
pub open spec fn genesis_table(pairs: Seq<(AccountId, SysManAccountView)>) -> Map<AccountId, SysManAccountView>
    decreases pairs.len(),
{
    if pairs.len() == 0 {
        Map::empty()
    } else {
        genesis_table(pairs.drop_last()).insert(pairs.last().0, pairs.last().1)
    }
}

/// Every call keeps the hierarchy well formed: no account is ever both an
/// active and a revoked manager, nor both an active and a revoked
/// organisation.
pub proof fn lemma_calls_preserve_well_formed(
    s: SysmanState,
    origin: RawOrigin,
    account: AccountId,
    metadata: Seq<u8>,
)
    requires
        s.well_formed(),
    ensures
        approve_sysman_model(s, origin, account, metadata).0.well_formed(),
        approve_org_model(s, origin, account, metadata).0.well_formed(),
        revoke_sysman_model(s, origin, account).0.well_formed(),
{
}

/// The initial hierarchy that genesis builds is well formed.
pub proof fn lemma_genesis_well_formed(pairs: Seq<(AccountId, SysManAccountView)>)
    ensures
        (SysmanState {
            org_storage: Map::empty(),
            org_revoked: Map::empty(),
            sysman_storage: genesis_table(pairs),
            sysman_revoked: Map::empty(),
            events: Seq::empty(),
        }).well_formed(),
{
}

/// A revoked record is never lost nor changed: after any call, every
/// account revoked before is still revoked with the same record.
pub proof fn lemma_revoked_records_kept(
    s: SysmanState,
    origin: RawOrigin,
    account: AccountId,
    metadata: Seq<u8>,
    a: AccountId,
)
    requires
        s.sysman_revoked.contains_key(a),
    ensures
        approve_sysman_model(s, origin, account, metadata).0.sysman_revoked.contains_key(a),
        approve_sysman_model(s, origin, account, metadata).0.sysman_revoked[a] == s.sysman_revoked[a],
        approve_org_model(s, origin, account, metadata).0.sysman_revoked == s.sysman_revoked,
        revoke_sysman_model(s, origin, account).0.sysman_revoked.contains_key(a),
        revoke_sysman_model(s, origin, account).0.sysman_revoked[a] == s.sysman_revoked[a],
{
}

/// A revoked manager can never be approved again: the approval is refused
/// and nothing changes; when the signer is a manager, the refusal is
/// `AlreadyRevoked`.
pub proof fn lemma_revoked_never_reapproved(
    s: SysmanState,
    origin: RawOrigin,
    applicant: AccountId,
    metadata: Seq<u8>,
)
    requires
        s.well_formed(),
        s.sysman_revoked.contains_key(applicant),
    ensures
        ({
            let (t, r) = approve_sysman_model(s, origin, applicant, metadata);
            &&& r is Err
            &&& t == s
            &&& (signer(origin) matches Some(who) && get_account_model(s, who, OperationType::SYS) is Ok)
                ==> r == Err::<(), DispatchError<Error>>(DispatchError::Module(Error::AlreadyRevoked))
        }),
{
}

/// An approved manager records its approver as parent and sits exactly one
/// level below it, with a pending status and no children.
pub proof fn lemma_approval_links_to_approver(
    s: SysmanState,
    who: AccountId,
    applicant: AccountId,
    metadata: Seq<u8>,
)
    requires
        !approve_sysman_panics(s, RawOrigin::Signed(who), applicant),
        approve_sysman_model(s, RawOrigin::Signed(who), applicant, metadata).1 is Ok,
    ensures
        ({
            let t = approve_sysman_model(s, RawOrigin::Signed(who), applicant, metadata).0;
            let rec = t.sysman_storage[applicant];
            &&& s.sysman_storage.contains_key(who)
            &&& s.sysman_storage[who].level is Some
            &&& t.sysman_storage.contains_key(applicant)
            &&& rec.parent == Some(who)
            &&& rec.level == Some((s.sysman_storage[who].level->0 + 1) as u8)
            &&& rec.level->0 == s.sysman_storage[who].level->0 + 1
            &&& rec.role == Role::SYSMAN
            &&& rec.status == Status::Pending
            &&& rec.metadata == metadata
            &&& t.sysman_storage.remove(applicant) == s.sysman_storage
        }),
{
    let t = approve_sysman_model(s, RawOrigin::Signed(who), applicant, metadata).0;
    assert(t.sysman_storage.remove(applicant) =~= s.sysman_storage);
}

/// Right after `who` approves `applicant`, the approved manager cannot
/// revoke its approver (refused with `NoValidAuthorization`, nothing
/// changes), while the approver can revoke the approved manager.
pub proof fn lemma_approver_outranks_approved(
    s: SysmanState,
    who: AccountId,
    applicant: AccountId,
    metadata: Seq<u8>,
)
    requires
        s.well_formed(),
        !approve_sysman_panics(s, RawOrigin::Signed(who), applicant),
        approve_sysman_model(s, RawOrigin::Signed(who), applicant, metadata).1 is Ok,
    ensures
        ({
            let t = approve_sysman_model(s, RawOrigin::Signed(who), applicant, metadata).0;
            let (u, r) = revoke_sysman_model(t, RawOrigin::Signed(applicant), who);
            &&& r == Err::<(), DispatchError<Error>>(DispatchError::Module(Error::NoValidAuthorization))
            &&& u == t
        }),
        ({
            let t = approve_sysman_model(s, RawOrigin::Signed(who), applicant, metadata).0;
            let (u, r) = revoke_sysman_model(t, RawOrigin::Signed(who), applicant);
            &&& r is Ok
            &&& !u.sysman_storage.contains_key(applicant)
            &&& u.sysman_revoked.contains_key(applicant)
            &&& u.sysman_revoked[applicant] == t.sysman_storage[applicant]
        }),
{
}

/// No manager can revoke itself: the call is refused and nothing changes.
pub proof fn lemma_no_self_revoke(s: SysmanState, who: AccountId)
    ensures
        ({
            let (t, r) = revoke_sysman_model(s, RawOrigin::Signed(who), who);
            r is Err && t == s
        }),
{
}

/// When the signer is an active manager with role SYSMAN and level
/// `Some(l)` with `l < 255`, and the applicant is neither an active nor a
/// revoked manager, `approve_sysman` succeeds whatever the organisation
/// tables hold: the applicant gets a SYSMAN record, pending, at level
/// `l + 1`, with the signer as parent, no children and the given metadata;
/// every other table is kept and one `Approved` event is emitted.
pub proof fn lemma_approve_sysman_succeeds(
    s: SysmanState,
    who: AccountId,
    applicant: AccountId,
    metadata: Seq<u8>,
    l: u8,
)
    requires
        s.sysman_storage.contains_key(who),
        s.sysman_storage[who].role == Role::SYSMAN,
        s.sysman_storage[who].level == Some(l),
        l < 255,
        !s.sysman_storage.contains_key(applicant),
        !s.sysman_revoked.contains_key(applicant),
    ensures
        ({
            let (t, r) = approve_sysman_model(s, RawOrigin::Signed(who), applicant, metadata);
            &&& !approve_sysman_panics(s, RawOrigin::Signed(who), applicant)
            &&& r is Ok
            &&& t.sysman_storage == s.sysman_storage.insert(
                applicant,
                SysManAccountView {
                    role: Role::SYSMAN,
                    status: Status::Pending,
                    level: Some((l + 1) as u8),
                    parent: Some(who),
                    children: Some(Seq::<AccountId>::empty()),
                    metadata,
                },
            )
            &&& t.sysman_storage[applicant].level->0 == l + 1
            &&& t.sysman_revoked == s.sysman_revoked
            &&& t.org_storage == s.org_storage
            &&& t.org_revoked == s.org_revoked
            &&& t.events == s.events.push(EventView::Approved { target_id: applicant, metadata, approver: who })
        }),
{
}

/// When the signer is an active manager with role SYSMAN and the applicant
/// is neither an active nor a revoked organisation, `approve_org` succeeds
/// whatever the manager tables hold about the applicant: it gets an ORG
/// record, pending, with no level, parent or children and the given
/// metadata; every other table is kept and one `Approved` event is emitted.
pub proof fn lemma_approve_org_succeeds(
    s: SysmanState,
    who: AccountId,
    applicant: AccountId,
    metadata: Seq<u8>,
)
    requires
        s.sysman_storage.contains_key(who),
        s.sysman_storage[who].role == Role::SYSMAN,
        !s.org_storage.contains_key(applicant),
        !s.org_revoked.contains_key(applicant),
    ensures
        ({
            let (t, r) = approve_org_model(s, RawOrigin::Signed(who), applicant, metadata);
            &&& r is Ok
            &&& t.org_storage == s.org_storage.insert(
                applicant,
                SysManAccountView {
                    role: Role::ORG,
                    status: Status::Pending,
                    level: None,
                    parent: None,
                    children: None,
                    metadata,
                },
            )
            &&& t.org_storage[applicant].metadata == metadata
            &&& t.org_revoked == s.org_revoked
            &&& t.sysman_storage == s.sysman_storage
            &&& t.sysman_revoked == s.sysman_revoked
            &&& t.events == s.events.push(EventView::Approved { target_id: applicant, metadata, approver: who })
        }),
{
}

/// In a well-formed state, when the signer and the target are active
/// managers with role SYSMAN and the signer's level (a missing level
/// counting as 0) is strictly smaller than the target's, `revoke_sysman`
/// succeeds, whoever approved the target: the target leaves the active
/// managers, its record is stored unchanged among the revoked ones, the
/// organisation tables are kept and one `Revoked` event is emitted.
pub proof fn lemma_revoke_by_higher_rank(s: SysmanState, who: AccountId, target: AccountId)
    requires
        s.well_formed(),
        s.sysman_storage.contains_key(who),
        s.sysman_storage[who].role == Role::SYSMAN,
        s.sysman_storage.contains_key(target),
        s.sysman_storage[target].role == Role::SYSMAN,
        (match s.sysman_storage[who].level { Some(a) => a as int, None => 0int })
            < (match s.sysman_storage[target].level { Some(b) => b as int, None => 0int }),
    ensures
        ({
            let (t, r) = revoke_sysman_model(s, RawOrigin::Signed(who), target);
            &&& r is Ok
            &&& t.sysman_storage == s.sysman_storage.remove(target)
            &&& !t.sysman_storage.contains_key(target)
            &&& t.sysman_revoked == s.sysman_revoked.insert(target, s.sysman_storage[target])
            &&& t.sysman_revoked[target] == s.sysman_storage[target]
            &&& t.org_storage == s.org_storage
            &&& t.org_revoked == s.org_revoked
            &&& t.events == s.events.push(EventView::Revoked { target_id: target, revoker: who })
        }),
{
}

/// A revocation succeeds only when the signer and the target are active
/// SYSMAN managers, the target is not revoked, and the signer's level (a
/// missing level counting as 0) is strictly smaller than the target's.
pub proof fn lemma_revoke_needs_higher_rank(s: SysmanState, origin: RawOrigin, target: AccountId)
    requires
        revoke_sysman_model(s, origin, target).1 is Ok,
    ensures
        origin matches RawOrigin::Signed(who) && {
            &&& s.sysman_storage.contains_key(who)
            &&& s.sysman_storage[who].role == Role::SYSMAN
            &&& s.sysman_storage.contains_key(target)
            &&& s.sysman_storage[target].role == Role::SYSMAN
            &&& !s.sysman_revoked.contains_key(target)
            &&& (match s.sysman_storage[who].level { Some(a) => a as int, None => 0int })
                < (match s.sysman_storage[target].level { Some(b) => b as int, None => 0int })
        },
{
}

/// An approval of a manager succeeds only when the signer is an active
/// SYSMAN manager and the applicant is neither an active nor a revoked
/// manager; an approval of an organisation only when the signer is an
/// active SYSMAN manager and the applicant is neither an active nor a
/// revoked organisation.
pub proof fn lemma_approve_needs_authority(
    s: SysmanState,
    origin: RawOrigin,
    applicant: AccountId,
    metadata: Seq<u8>,
)
    ensures
        approve_sysman_model(s, origin, applicant, metadata).1 is Ok ==> (origin matches RawOrigin::Signed(who) && {
            &&& s.sysman_storage.contains_key(who)
            &&& s.sysman_storage[who].role == Role::SYSMAN
            &&& !s.sysman_storage.contains_key(applicant)
            &&& !s.sysman_revoked.contains_key(applicant)
        }),
        approve_org_model(s, origin, applicant, metadata).1 is Ok ==> (origin matches RawOrigin::Signed(who) && {
            &&& s.sysman_storage.contains_key(who)
            &&& s.sysman_storage[who].role == Role::SYSMAN
            &&& !s.org_storage.contains_key(applicant)
            &&& !s.org_revoked.contains_key(applicant)
        }),
{
}

/// What `get_account` finds, stated over the tables: for managers, the
/// record when the account is an active manager with role SYSMAN,
/// `NoValidAuthorization` when it is an active manager with another role,
/// `SysmanNotExist` when it is not an active manager; for organisations
/// the same over the active organisations, with role ORG and
/// `OrgNotExist`.
pub proof fn lemma_get_account_reads_tables(s: SysmanState, id: AccountId)
    ensures
        get_account_model(s, id, OperationType::SYS) == if !s.sysman_storage.contains_key(id) {
            Err::<SysManAccountView, Error>(Error::SysmanNotExist)
        } else if s.sysman_storage[id].role == Role::SYSMAN {
            Ok(s.sysman_storage[id])
        } else {
            Err(Error::NoValidAuthorization)
        },
        get_account_model(s, id, OperationType::ORG) == if !s.org_storage.contains_key(id) {
            Err::<SysManAccountView, Error>(Error::OrgNotExist)
        } else if s.org_storage[id].role == Role::ORG {
            Ok(s.org_storage[id])
        } else {
            Err(Error::NoValidAuthorization)
        },
{
}

/// Which error each refused call gives. An unsigned call gives
/// `BadOrigin`. A signer that is not an active manager gives
/// `SysmanNotExist`, one whose record has another role than SYSMAN gives
/// `NoValidAuthorization`. Past those checks, approving an active manager
/// gives `AlreadySysman` and a revoked one `AlreadyRevoked`; approving an
/// active organisation gives `AlreadyOrg` and a revoked one
/// `AlreadyRevoked`; revoking a target that is not an active manager gives
/// `SysmanNotExist`, one with another role `NoValidAuthorization`, a
/// revoked one `AlreadyRevoked`, and one whose level (a missing level
/// counting as 0) is not strictly larger than the signer's
/// `NoValidAuthorization`.
pub proof fn lemma_refusal_errors(s: SysmanState, origin: RawOrigin, account: AccountId, metadata: Seq<u8>)
    ensures
        signer(origin) is None ==> {
            &&& approve_sysman_model(s, origin, account, metadata) == (s, Err::<(), DispatchError<Error>>(DispatchError::BadOrigin))
            &&& approve_org_model(s, origin, account, metadata) == (s, Err::<(), DispatchError<Error>>(DispatchError::BadOrigin))
            &&& revoke_sysman_model(s, origin, account) == (s, Err::<(), DispatchError<Error>>(DispatchError::BadOrigin))
        },
        origin matches RawOrigin::Signed(who) ==> {
            let refused = |e: Error| Err::<(), DispatchError<Error>>(DispatchError::Module(e));
            if !s.sysman_storage.contains_key(who) {
                &&& approve_sysman_model(s, origin, account, metadata).1 == refused(Error::SysmanNotExist)
                &&& approve_org_model(s, origin, account, metadata).1 == refused(Error::SysmanNotExist)
                &&& revoke_sysman_model(s, origin, account).1 == refused(Error::SysmanNotExist)
            } else if s.sysman_storage[who].role != Role::SYSMAN {
                &&& approve_sysman_model(s, origin, account, metadata).1 == refused(Error::NoValidAuthorization)
                &&& approve_org_model(s, origin, account, metadata).1 == refused(Error::NoValidAuthorization)
                &&& revoke_sysman_model(s, origin, account).1 == refused(Error::NoValidAuthorization)
            } else {
                &&& s.sysman_storage.contains_key(account) ==>
                    approve_sysman_model(s, origin, account, metadata).1 == refused(Error::AlreadySysman)
                &&& !s.sysman_storage.contains_key(account) && s.sysman_revoked.contains_key(account) ==>
                    approve_sysman_model(s, origin, account, metadata).1 == refused(Error::AlreadyRevoked)
                &&& s.org_storage.contains_key(account) ==>
                    approve_org_model(s, origin, account, metadata).1 == refused(Error::AlreadyOrg)
                &&& !s.org_storage.contains_key(account) && s.org_revoked.contains_key(account) ==>
                    approve_org_model(s, origin, account, metadata).1 == refused(Error::AlreadyRevoked)
                &&& !s.sysman_storage.contains_key(account) ==>
                    revoke_sysman_model(s, origin, account).1 == refused(Error::SysmanNotExist)
                &&& s.sysman_storage.contains_key(account) && s.sysman_storage[account].role != Role::SYSMAN ==>
                    revoke_sysman_model(s, origin, account).1 == refused(Error::NoValidAuthorization)
                &&& s.sysman_storage.contains_key(account) && s.sysman_storage[account].role == Role::SYSMAN
                    && s.sysman_revoked.contains_key(account) ==>
                    revoke_sysman_model(s, origin, account).1 == refused(Error::AlreadyRevoked)
                &&& s.sysman_storage.contains_key(account) && s.sysman_storage[account].role == Role::SYSMAN
                    && !s.sysman_revoked.contains_key(account)
                    && !((match s.sysman_storage[who].level { Some(a) => a as int, None => 0int })
                        < (match s.sysman_storage[account].level { Some(b) => b as int, None => 0int })) ==>
                    revoke_sysman_model(s, origin, account).1 == refused(Error::NoValidAuthorization)
            }
        },
{
}

/// The managers that genesis builds: an account is present exactly when
/// some listed pair names it.
pub proof fn lemma_genesis_lists_named_accounts(pairs: Seq<(AccountId, SysManAccountView)>, a: AccountId)
    ensures
        genesis_table(pairs).contains_key(a) <==> exists|i: int| 0 <= i < pairs.len() && #[trigger] pairs[i].0 == a,
    decreases pairs.len(),
{
    if pairs.len() > 0 {
        let init = pairs.drop_last();
        let n = pairs.len() - 1;
        lemma_genesis_lists_named_accounts(init, a);
        if pairs[n].0 != a {
            if genesis_table(pairs).contains_key(a) {
                let i = choose|i: int| 0 <= i < init.len() && #[trigger] init[i].0 == a;
                assert(pairs[i].0 == a);
            }
            if exists|i: int| 0 <= i < pairs.len() && #[trigger] pairs[i].0 == a {
                let i = choose|i: int| 0 <= i < pairs.len() && #[trigger] pairs[i].0 == a;
                assert(init[i].0 == a);
            }
        }
    }
}

/// The record that genesis builds for an account is the one of the last
/// listed pair that names it.
pub proof fn lemma_genesis_last_pair_wins(pairs: Seq<(AccountId, SysManAccountView)>, a: AccountId, i: int)
    requires
        0 <= i < pairs.len(),
        pairs[i].0 == a,
        forall|j: int| i < j < pairs.len() ==> #[trigger] pairs[j].0 != a,
    ensures
        genesis_table(pairs).contains_key(a),
        genesis_table(pairs)[a] == pairs[i].1,
    decreases pairs.len(),
{
    let n = pairs.len() - 1;
    if i < n {
        let init = pairs.drop_last();
        assert(pairs[n].0 != a);
        assert forall|j: int| i < j < init.len() implies #[trigger] init[j].0 != a by {
            assert(init[j] == pairs[j]);
        }
        lemma_genesis_last_pair_wins(init, a, i);
    }
}

/// A refused call leaves the whole state, events included, unchanged; an
/// accepted one appends exactly one event.
pub proof fn lemma_refused_call_changes_nothing(
    s: SysmanState,
    origin: RawOrigin,
    account: AccountId,
    metadata: Seq<u8>,
)
    ensures
        ({
            let (t, r) = approve_sysman_model(s, origin, account, metadata);
            &&& r is Err ==> t == s
            &&& r is Ok ==> t.events.len() == s.events.len() + 1 && t.events.drop_last() == s.events
        }),
        ({
            let (t, r) = approve_org_model(s, origin, account, metadata);
            &&& r is Err ==> t == s
            &&& r is Ok ==> t.events.len() == s.events.len() + 1 && t.events.drop_last() == s.events
        }),
        ({
            let (t, r) = revoke_sysman_model(s, origin, account);
            &&& r is Err ==> t == s
            &&& r is Ok ==> t.events.len() == s.events.len() + 1 && t.events.drop_last() == s.events
        }),
{
    assert(approve_sysman_model(s, origin, account, metadata).1 is Ok ==>
        approve_sysman_model(s, origin, account, metadata).0.events.drop_last() =~= s.events);
    assert(approve_org_model(s, origin, account, metadata).1 is Ok ==>
        approve_org_model(s, origin, account, metadata).0.events.drop_last() =~= s.events);
    assert(revoke_sysman_model(s, origin, account).1 is Ok ==>
        revoke_sysman_model(s, origin, account).0.events.drop_last() =~= s.events);
}

/// The initial configuration of the hierarchy: the managers that exist
/// from the start, with their records.
#[derive(Debug)]
pub struct GenesisConfig {
    pub sysman: Vec<(AccountId, SysManAccount)>,
}

impl GenesisConfig {
    /// The listed pairs, each record by its view.
    pub open spec fn pairs(&self) -> Seq<(AccountId, SysManAccountView)> {
        self.sysman@.map_values(|p: (AccountId, SysManAccount)| (p.0, p.1@))
    }

    /// Builds the initial hierarchy: the listed managers, nothing else.
    pub fn build(&self) -> (p: Pallet)
        ensures
            p@.sysman_storage == genesis_table(self.pairs()),
            p@.sysman_revoked == Map::<AccountId, SysManAccountView>::empty(),
            p@.org_storage == Map::<AccountId, SysManAccountView>::empty(),
            p@.org_revoked == Map::<AccountId, SysManAccountView>::empty(),
            p@.events == Seq::<EventView>::empty(),
    {
        let mut p = Pallet {
            org_storage: HashMap::new(),
            org_revoked: HashMap::new(),
            sysman_storage: HashMap::new(),
            sysman_revoked: HashMap::new(),
            events: Vec::new(),
        };
        let ghost pairs = self.pairs();
        assert(p@.sysman_storage =~= genesis_table(pairs.take(0)));
        let n = self.sysman.len();
        for i in 0..n
            invariant
                n == self.sysman.len(),
                pairs == self.pairs(),
                p@.sysman_storage == genesis_table(pairs.take(i as int)),
                p@.sysman_revoked == Map::<AccountId, SysManAccountView>::empty(),
                p@.org_storage == Map::<AccountId, SysManAccountView>::empty(),
                p@.org_revoked == Map::<AccountId, SysManAccountView>::empty(),
                p@.events == Seq::<EventView>::empty(),
        {
            let pair = &self.sysman[i];
            let id = pair.0;
            let acct = pair.1.clone();
            let ghost before = p.sysman_storage@;
            p.sysman_storage.insert(id, acct);
            assert(pairs.take(i + 1).drop_last() =~= pairs.take(i as int));
            assert(table_view(p.sysman_storage@) =~= table_view(before).insert(id, pairs[i as int].1));
        }
        assert(pairs.take(n as int) =~= pairs);
        p
    }
}

impl Default for GenesisConfig {
    /// No manager at the start.
    fn default() -> (g: Self)
        ensures
            g.sysman@ == Seq::<(AccountId, SysManAccount)>::empty(),
    {
        GenesisConfig { sysman: Vec::new() }
    }
}

impl Pallet {
    /// The active organisation record of `id`, if any.
    pub fn org_storage(&self, id: AccountId) -> (r: Option<&SysManAccount>)
        ensures
            match r {
                Some(a) => self@.org_storage.contains_key(id) && a@ == self@.org_storage[id],
                None => !self@.org_storage.contains_key(id),
            },
    {
        self.org_storage.get(&id)
    }

    /// The revoked organisation record of `id`, if any.
    pub fn org_revoked(&self, id: AccountId) -> (r: Option<&SysManAccount>)
        ensures
            match r {
                Some(a) => self@.org_revoked.contains_key(id) && a@ == self@.org_revoked[id],
                None => !self@.org_revoked.contains_key(id),
            },
    {
        self.org_revoked.get(&id)
    }

    /// The active manager record of `id`, if any.
    pub fn sysman_storage(&self, id: AccountId) -> (r: Option<&SysManAccount>)
        ensures
            match r {
                Some(a) => self@.sysman_storage.contains_key(id) && a@ == self@.sysman_storage[id],
                None => !self@.sysman_storage.contains_key(id),
            },
    {
        self.sysman_storage.get(&id)
    }

    /// The revoked manager record of `id`, if any.
    pub fn sysman_revoked(&self, id: AccountId) -> (r: Option<&SysManAccount>)
        ensures
            match r {
                Some(a) => self@.sysman_revoked.contains_key(id) && a@ == self@.sysman_revoked[id],
                None => !self@.sysman_revoked.contains_key(id),
            },
    {
        self.sysman_revoked.get(&id)
    }

    /// The events emitted so far, oldest first.
    pub fn events(&self) -> (r: &Vec<Event>)
        ensures
            r@.map_values(|e: Event| e@) == self@.events,
    {
        &self.events
    }

    /// Builds a record from its fields; this never fails.
    pub fn create_account(
        role: Role,
        status: Status,
        level: Option<u8>,
        parent: Option<AccountId>,
        children: Option<Vec<AccountId>>,
        metadata: Vec<u8>,
    ) -> (r: Result<SysManAccount, Error>)
        ensures
            r == Ok::<SysManAccount, Error>(
                SysManAccount { role, status, level, parent, children, metadata },
            ),
    {
        let sysman = SysManAccount { role: role.clone(), status, level, parent, children, metadata };
        Ok(sysman)
    }

    /// The record of `account_id` in the table that `role` names, refused
    /// when it is missing or holds another role.
    pub fn get_account(&self, account_id: AccountId, role: OperationType) -> (r: Result<SysManAccount, Error>)
        ensures
            match (r, get_account_model(self@, account_id, role)) {
                (Ok(a), Ok(v)) => a@ == v,
                (Err(e), Err(f)) => e == f,
                _ => false,
            },
    {
        match role {
            OperationType::SYS => match self.sysman_storage.get(&account_id) {
                Some(acct) => match acct.role {
                    Role::SYSMAN => Ok(acct.clone()),
                    _ => Err(Error::NoValidAuthorization),
                },
                None => Err(Error::SysmanNotExist),
            },
            OperationType::ORG => match self.org_storage.get(&account_id) {
                Some(acct) => match acct.role {
                    Role::ORG => Ok(acct.clone()),
                    _ => Err(Error::NoValidAuthorization),
                },
                None => Err(Error::OrgNotExist),
            },
        }
    }

    /// Whether `approve_sysman` would find no next level to give on these
    /// inputs; such a call must not be made.
    pub fn approve_sysman_would_overflow(&self, origin: RawOrigin, applicant: AccountId) -> (b: bool)
        ensures
            b == approve_sysman_panics(self@, origin, applicant),
    {
        let who = match ensure_signed(origin) {
            Ok(w) => w,
            Err(_) => return false,
        };
        let authority = match self.get_account(who, OperationType::SYS) {
            Ok(a) => a,
            Err(_) => return false,
        };
        if self.sysman_storage.contains_key(&applicant) || self.sysman_revoked.contains_key(&applicant) {
            return false;
        }
        match authority.level {
            Some(l) => l == 255,
            None => true,
        }
    }

    /// Makes `applicant` a system manager one level below the signer, who
    /// must be a system manager; refuses an applicant that is a manager or
    /// was revoked.
    pub fn approve_sysman(&mut self, origin: RawOrigin, applicant: AccountId, metadata: Vec<u8>) -> (r: DispatchResult<Error>)
        requires
            !approve_sysman_panics(old(self)@, origin, applicant),
        ensures
            (final(self)@, r) == approve_sysman_model(old(self)@, origin, applicant, metadata@),
    {
        let who = match ensure_signed(origin) {
            Ok(w) => w,
            Err(_) => return Err(DispatchError::BadOrigin),
        };
        let authority = match self.get_account(who, OperationType::SYS) {
            Ok(a) => a,
            Err(e) => return Err(DispatchError::Module(e)),
        };
        if self.sysman_storage.contains_key(&applicant) {
            return Err(DispatchError::Module(Error::AlreadySysman));
        }
        if self.sysman_revoked.contains_key(&applicant) {
            return Err(DispatchError::Module(Error::AlreadyRevoked));
        }
        let level = authority.level.unwrap() + 1;
        let sysman = match Self::create_account(
            Role::SYSMAN,
            Status::default(),
            Some(level),
            Some(who),
            Some(Vec::new()),
            metadata.clone(),
        ) {
            Ok(a) => a,
            Err(e) => return Err(DispatchError::Module(e)),
        };
        let ghost rec = approved_sysman(authority@, who, metadata@);
        assert(sysman@.children.unwrap() =~= Seq::<AccountId>::empty());
        assert(sysman@ == rec);
        self.sysman_storage.insert(applicant, sysman);
        let ev = Event::Approved { target_id: applicant, metadata, approver: who };
        self.events.push(ev);
        assert(self@.sysman_storage =~= old(self)@.sysman_storage.insert(applicant, rec));
        assert(self@.events =~= old(self)@.events.push(ev@));
        Ok(())
    }

    /// Makes `applicant` an organisation; the signer must be a system
    /// manager, and an applicant that is an organisation or was revoked is
    /// refused.
    pub fn approve_org(&mut self, origin: RawOrigin, applicant: AccountId, metadata: Vec<u8>) -> (r: DispatchResult<Error>)
        ensures
            (final(self)@, r) == approve_org_model(old(self)@, origin, applicant, metadata@),
    {
        let who = match ensure_signed(origin) {
            Ok(w) => w,
            Err(_) => return Err(DispatchError::BadOrigin),
        };
        let _authority = match self.get_account(who, OperationType::SYS) {
            Ok(a) => a,
            Err(e) => return Err(DispatchError::Module(e)),
        };
        if self.org_storage.contains_key(&applicant) {
            return Err(DispatchError::Module(Error::AlreadyOrg));
        }
        if self.org_revoked.contains_key(&applicant) {
            return Err(DispatchError::Module(Error::AlreadyRevoked));
        }
        let org = match Self::create_account(Role::ORG, Status::default(), None, None, None, metadata.clone()) {
            Ok(a) => a,
            Err(e) => return Err(DispatchError::Module(e)),
        };
        let ghost rec = approved_org(metadata@);
        assert(org@ == rec);
        self.org_storage.insert(applicant, org);
        let ev = Event::Approved { target_id: applicant, metadata, approver: who };
        self.events.push(ev);
        assert(self@.org_storage =~= old(self)@.org_storage.insert(applicant, rec));
        assert(self@.events =~= old(self)@.events.push(ev@));
        Ok(())
    }

    /// Revokes the system manager `target`: the signer must be a system
    /// manager with a strictly smaller level, and the target an active
    /// manager. The target's record moves to the revoked managers.
    pub fn revoke_sysman(&mut self, origin: RawOrigin, target: AccountId, metadata: Vec<u8>) -> (r: DispatchResult<Error>)
        ensures
            (final(self)@, r) == revoke_sysman_model(old(self)@, origin, target),
    {
        let who = match ensure_signed(origin) {
            Ok(w) => w,
            Err(_) => return Err(DispatchError::BadOrigin),
        };
        let authority = match self.get_account(who, OperationType::SYS) {
            Ok(a) => a,
            Err(e) => return Err(DispatchError::Module(e)),
        };
        let revoke_sysman = match self.get_account(target, OperationType::SYS) {
            Ok(a) => a,
            Err(e) => return Err(DispatchError::Module(e)),
        };
        if !self.sysman_storage.contains_key(&target) {
            return Err(DispatchError::Module(Error::NotSysman));
        }
        if self.sysman_revoked.contains_key(&target) {
            return Err(DispatchError::Module(Error::AlreadyRevoked));
        }
        if !(authority.level.unwrap_or(0) < revoke_sysman.level.unwrap_or(0)) {
            return Err(DispatchError::Module(Error::NoValidAuthorization));
        }
        let ghost rec = revoke_sysman@;
        self.sysman_storage.remove(&target);
        self.sysman_revoked.insert(target, revoke_sysman);
        let ev = Event::Revoked { target_id: target, revoker: who };
        self.events.push(ev);
        assert(self@.sysman_storage =~= old(self)@.sysman_storage.remove(target));
        assert(self@.sysman_revoked =~= old(self)@.sysman_revoked.insert(target, rec));
        assert(self@.events =~= old(self)@.events.push(ev@));
        Ok(())
    }
}

} // verus!

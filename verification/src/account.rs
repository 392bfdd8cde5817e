//! The account registry: each signed account may register one profile and
//! later replace it.

use vstd::prelude::*;
use std::collections::HashMap;
use crate::dispatch::{AccountId, RawOrigin, DispatchError, DispatchResult, ensure_signed, signer};
use crate::utils::{Role, Status};

verus! {

broadcast use vstd::std_specs::hash::group_hash_axioms;

/// The profile stored for a registered account.
#[derive(Clone, Debug, PartialEq, Eq)]
pub struct Account {
    pub id: AccountId,
    pub name: Vec<u8>,
    pub role: Role,
    pub status: Status,
    pub org_type: Vec<u8>,
    pub metadata: Vec<u8>,
}

/// The mathematical value of an [`Account`]: its byte strings as sequences.
pub struct AccountView {
    pub id: AccountId,
    pub name: Seq<u8>,
    pub role: Role,
    pub status: Status,
    pub org_type: Seq<u8>,
    pub metadata: Seq<u8>,
}

impl View for Account {
    type V = AccountView;

    open spec fn view(&self) -> AccountView {
        AccountView {
            id: self.id,
            name: self.name@,
            role: self.role,
            status: self.status,
            org_type: self.org_type@,
            metadata: self.metadata@,
        }
    }
}

/// What the registry announces after a successful call.
#[derive(Clone, Copy, Debug, PartialEq, Eq, Structural)]
pub enum Event {
    AccountRegisted,
    AccountUpdated,
}

/// Why the registry refused a call.
#[derive(Clone, Copy, Debug, PartialEq, Eq, Structural)]
pub enum Error {
    /// The signer already has a profile.
    AlreadyExist,
    /// The signer has no profile to update.
    AccountNotRegistered,
}

/// The state of the registry: the profile of each registered account and
/// the events emitted so far, oldest first.
pub struct AccountState {
    pub accounts: Map<AccountId, AccountView>,
    pub events: Seq<Event>,
}

/// The account registry.
pub struct Pallet {
    account_storage: HashMap<AccountId, Account>,
    events: Vec<Event>,
}

impl View for Pallet {
    type V = AccountState;

    closed spec fn view(&self) -> AccountState {
        AccountState {
            accounts: self.account_storage@.map_values(|a: Account| a@),
            events: self.events@,
        }
    }
}

/// The profile that a call by `who` stores: the given fields, with the
/// status reset to pending.
pub open spec fn new_account(
    who: AccountId,
    name: Seq<u8>,
    role: Role,
    org_type: Seq<u8>,
    metadata: Seq<u8>,
) -> AccountView {
    AccountView { id: who, name, role, status: Status::Pending, org_type, metadata }
}

/// The outcome of `register`: a signed caller without a profile gets the
/// new profile and an `AccountRegisted` event; anyone else is refused and
/// nothing changes.
pub open spec fn register_model(
    s: AccountState,
    origin: RawOrigin,
    name: Seq<u8>,
    role: Role,
    org_type: Seq<u8>,
    metadata: Seq<u8>,
) -> (AccountState, DispatchResult<Error>) {
    match signer(origin) {
        None => (s, Err(DispatchError::BadOrigin)),
        Some(who) => if s.accounts.contains_key(who) {
            (s, Err(DispatchError::Module(Error::AlreadyExist)))
        } else {
            (
                AccountState {
                    accounts: s.accounts.insert(who, new_account(who, name, role, org_type, metadata)),
                    events: s.events.push(Event::AccountRegisted),
                },
                Ok(()),
            )
        },
    }
}

/// The outcome of `update`: a signed caller with a profile has it replaced
/// (status back to pending) and an `AccountUpdated` event is emitted;
/// anyone else is refused and nothing changes.
pub open spec fn update_model(
    s: AccountState,
    origin: RawOrigin,
    name: Seq<u8>,
    role: Role,
    org_type: Seq<u8>,
    metadata: Seq<u8>,
) -> (AccountState, DispatchResult<Error>) {
    match signer(origin) {
        None => (s, Err(DispatchError::BadOrigin)),
        Some(who) => if !s.accounts.contains_key(who) {
            (s, Err(DispatchError::Module(Error::AccountNotRegistered)))
        } else {
            (
                AccountState {
                    accounts: s.accounts.insert(who, new_account(who, name, role, org_type, metadata)),
                    events: s.events.push(Event::AccountUpdated),
                },
                Ok(()),
            )
        },
    }
}

/// A registration by a signer without a profile succeeds, stores exactly the
/// given fields with a pending status, leaves every other profile as it was,
/// and emits one `AccountRegisted` event.
pub proof fn lemma_register_stores_profile(
    s: AccountState,
    who: AccountId,
    name: Seq<u8>,
    role: Role,
    org_type: Seq<u8>,
    metadata: Seq<u8>,
)
    requires
        !s.accounts.contains_key(who),
    ensures
        ({
            let (t, r) = register_model(s, RawOrigin::Signed(who), name, role, org_type, metadata);
            &&& r is Ok
            &&& t.accounts.contains_key(who)
            &&& t.accounts[who] == (AccountView { id: who, name, role, status: Status::Pending, org_type, metadata })
            &&& t.accounts[who].id == who && t.accounts[who].name == name && t.accounts[who].role == role
            &&& t.accounts[who].org_type == org_type && t.accounts[who].metadata == metadata
            &&& t.accounts[who].status == Status::Pending
            &&& t.accounts.remove(who) == s.accounts
            &&& t.events == s.events.push(Event::AccountRegisted)
        }),
{
    let t = register_model(s, RawOrigin::Signed(who), name, role, org_type, metadata).0;
    assert(t.accounts.remove(who) =~= s.accounts);
}

/// Once a signer has registered, a second registration by the same signer
/// is refused with `AlreadyExist`, whatever it carries, and changes nothing.
pub proof fn lemma_register_twice_refused(
    s: AccountState,
    who: AccountId,
    name: Seq<u8>,
    role: Role,
    org_type: Seq<u8>,
    metadata: Seq<u8>,
    name2: Seq<u8>,
    role2: Role,
    org_type2: Seq<u8>,
    metadata2: Seq<u8>,
)
    requires
        register_model(s, RawOrigin::Signed(who), name, role, org_type, metadata).1 is Ok,
    ensures
        ({
            let t = register_model(s, RawOrigin::Signed(who), name, role, org_type, metadata).0;
            register_model(t, RawOrigin::Signed(who), name2, role2, org_type2, metadata2)
                == (t, Err::<(), DispatchError<Error>>(DispatchError::Module(Error::AlreadyExist)))
        }),
{
}

/// After a registration, the same signer can update: the update succeeds
/// and the stored profile becomes the new fields, with a pending status.
pub proof fn lemma_update_after_register(
    s: AccountState,
    who: AccountId,
    name: Seq<u8>,
    role: Role,
    org_type: Seq<u8>,
    metadata: Seq<u8>,
    name2: Seq<u8>,
    role2: Role,
    org_type2: Seq<u8>,
    metadata2: Seq<u8>,
)
    requires
        register_model(s, RawOrigin::Signed(who), name, role, org_type, metadata).1 is Ok,
    ensures
        ({
            let t = register_model(s, RawOrigin::Signed(who), name, role, org_type, metadata).0;
            let (u, r) = update_model(t, RawOrigin::Signed(who), name2, role2, org_type2, metadata2);
            &&& r is Ok
            &&& u.accounts[who] == (AccountView {
                id: who,
                name: name2,
                role: role2,
                status: Status::Pending,
                org_type: org_type2,
                metadata: metadata2,
            })
            &&& u.accounts.dom() == t.accounts.dom()
        }),
{
    let t = register_model(s, RawOrigin::Signed(who), name, role, org_type, metadata).0;
    let u = update_model(t, RawOrigin::Signed(who), name2, role2, org_type2, metadata2).0;
    assert(u.accounts.dom() =~= t.accounts.dom());
}

/// An update never changes which accounts are registered.
pub proof fn lemma_update_keeps_registered_set(
    s: AccountState,
    origin: RawOrigin,
    name: Seq<u8>,
    role: Role,
    org_type: Seq<u8>,
    metadata: Seq<u8>,
)
    ensures
        update_model(s, origin, name, role, org_type, metadata).0.accounts.dom() == s.accounts.dom(),
{
    let u = update_model(s, origin, name, role, org_type, metadata).0;
    assert(u.accounts.dom() =~= s.accounts.dom());
}

/// No call ever removes a registered account: the set of registered
/// accounts only grows.
pub proof fn lemma_registered_set_only_grows(
    s: AccountState,
    origin: RawOrigin,
    name: Seq<u8>,
    role: Role,
    org_type: Seq<u8>,
    metadata: Seq<u8>,
    a: AccountId,
)
    requires
        s.accounts.contains_key(a),
    ensures
        register_model(s, origin, name, role, org_type, metadata).0.accounts.contains_key(a),
        update_model(s, origin, name, role, org_type, metadata).0.accounts.contains_key(a),
{
}

/// An update by a registered signer succeeds, replaces its profile by
/// exactly the given fields with a pending status, leaves every other
/// profile as it was, and emits one `AccountUpdated` event.
pub proof fn lemma_update_stores_profile(
    s: AccountState,
    who: AccountId,
    name: Seq<u8>,
    role: Role,
    org_type: Seq<u8>,
    metadata: Seq<u8>,
)
    requires
        s.accounts.contains_key(who),
    ensures
        ({
            let (t, r) = update_model(s, RawOrigin::Signed(who), name, role, org_type, metadata);
            &&& r is Ok
            &&& t.accounts == s.accounts.insert(
                who,
                AccountView { id: who, name, role, status: Status::Pending, org_type, metadata },
            )
            &&& t.accounts[who].role == role
            &&& t.events == s.events.push(Event::AccountUpdated)
        }),
{
}

/// A signed registration is refused exactly when the signer already has a
/// profile, and then with `AlreadyExist`; a signed update is refused
/// exactly when the signer has none, and then with `AccountNotRegistered`;
/// an unsigned call is refused with `BadOrigin`.
pub proof fn lemma_refusal_conditions(
    s: AccountState,
    origin: RawOrigin,
    name: Seq<u8>,
    role: Role,
    org_type: Seq<u8>,
    metadata: Seq<u8>,
)
    ensures
        match origin {
            RawOrigin::Signed(who) => {
                &&& register_model(s, origin, name, role, org_type, metadata).1 == if s.accounts.contains_key(who) {
                    Err::<(), DispatchError<Error>>(DispatchError::Module(Error::AlreadyExist))
                } else {
                    Ok(())
                }
                &&& update_model(s, origin, name, role, org_type, metadata).1 == if s.accounts.contains_key(who) {
                    Ok(())
                } else {
                    Err::<(), DispatchError<Error>>(DispatchError::Module(Error::AccountNotRegistered))
                }
            },
            _ => {
                &&& register_model(s, origin, name, role, org_type, metadata) == (s, Err::<(), DispatchError<Error>>(DispatchError::BadOrigin))
                &&& update_model(s, origin, name, role, org_type, metadata) == (s, Err::<(), DispatchError<Error>>(DispatchError::BadOrigin))
            },
        },
{
}

/// A refused registration or update leaves the whole state, events
/// included, unchanged; an accepted one appends exactly one event.
pub proof fn lemma_refused_call_changes_nothing(
    s: AccountState,
    origin: RawOrigin,
    name: Seq<u8>,
    role: Role,
    org_type: Seq<u8>,
    metadata: Seq<u8>,
)
    ensures
        ({
            let (t, r) = register_model(s, origin, name, role, org_type, metadata);
            &&& r is Err ==> t == s
            &&& r is Ok ==> t.events == s.events.push(Event::AccountRegisted)
        }),
        ({
            let (t, r) = update_model(s, origin, name, role, org_type, metadata);
            &&& r is Err ==> t == s
            &&& r is Ok ==> t.events == s.events.push(Event::AccountUpdated)
        }),
{
}

impl Pallet {
    /// An empty registry.
    pub fn new() -> (p: Self)
        ensures
            p@.accounts == Map::<AccountId, AccountView>::empty(),
            p@.events == Seq::<Event>::empty(),
    {
        let p = Pallet { account_storage: HashMap::new(), events: Vec::new() };
        assert(p@.accounts =~= Map::<AccountId, AccountView>::empty());
        p
    }

    /// The profile of `who`, if it is registered.
    pub fn account_storage(&self, who: AccountId) -> (r: Option<&Account>)
        ensures
            match r {
                Some(a) => self@.accounts.contains_key(who) && a@ == self@.accounts[who],
                None => !self@.accounts.contains_key(who),
            },
    {
        self.account_storage.get(&who)
    }

    /// The events emitted so far, oldest first.
    pub fn events(&self) -> (r: &Vec<Event>)
        ensures
            r@ == self@.events,
    {
        &self.events
    }

    /// Registers the signer's profile, refusing a signer that already has one.
    pub fn register(
        &mut self,
        origin: RawOrigin,
        name: Vec<u8>,
        role: Role,
        org_type: Vec<u8>,
        metadata: Vec<u8>,
    ) -> (r: DispatchResult<Error>)
        ensures
            (final(self)@, r) == register_model(old(self)@, origin, name@, role, org_type@, metadata@),
    {
        let who = match ensure_signed(origin) {
            Ok(w) => w,
            Err(_) => return Err(DispatchError::BadOrigin),
        };
        if self.account_storage.contains_key(&who) {
            return Err(DispatchError::Module(Error::AlreadyExist));
        }
        let ghost fields = new_account(who, name@, role, org_type@, metadata@);
        let acct = Account { id: who, name, role, status: Status::default(), org_type, metadata };
        self.account_storage.insert(who, acct);
        self.events.push(Event::AccountRegisted);
        assert(self@.accounts =~= old(self)@.accounts.insert(who, fields));
        Ok(())
    }

    /// Replaces the signer's profile, refusing a signer that has none.
    pub fn update(
        &mut self,
        origin: RawOrigin,
        name: Vec<u8>,
        role: Role,
        org_type: Vec<u8>,
        metadata: Vec<u8>,
    ) -> (r: DispatchResult<Error>)
        ensures
            (final(self)@, r) == update_model(old(self)@, origin, name@, role, org_type@, metadata@),
    {
        let who = match ensure_signed(origin) {
            Ok(w) => w,
            Err(_) => return Err(DispatchError::BadOrigin),
        };
        if !self.account_storage.contains_key(&who) {
            return Err(DispatchError::Module(Error::AccountNotRegistered));
        }
        let ghost fields = new_account(who, name@, role, org_type@, metadata@);
        self.account_storage.remove(&who);
        let acct = Account { id: who, name, role, status: Status::default(), org_type, metadata };
        self.account_storage.insert(who, acct);
        self.events.push(Event::AccountUpdated);
        assert(self@.accounts =~= old(self)@.accounts.insert(who, fields));
        Ok(())
    }
}

} // verus!

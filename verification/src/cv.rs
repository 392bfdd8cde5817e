//! The credential item store: signed accounts create items, which are
//! indexed by identifier and listed per creating account, and revoke them.
//!
//! The store keeps a counter that names the next item. Creating an item
//! reads the counter but never advances it, so every item created gets the
//! identifier the counter holds, and a new item replaces the previous one
//! stored under that identifier.

use vstd::prelude::*;
use std::collections::HashMap;
use crate::dispatch::{AccountId, RawOrigin, DispatchError, DispatchResult, ensure_signed, signer};
use crate::utils::{TypeID, UnixEpoch, WhoAndWhen};

verus! {

broadcast use vstd::std_specs::hash::group_hash_axioms;

/// A stored credential item.
#[derive(Clone, Debug, PartialEq, Eq)]
pub struct Item {
    pub item_id: TypeID,
    pub user_id: AccountId,
    pub created: WhoAndWhen,
    pub org_date: Option<UnixEpoch>,
    pub exp_date: Option<UnixEpoch>,
    pub certificate_id: Option<TypeID>,
    pub score: u32,
    pub metadata: Vec<u8>,
}

/// The mathematical value of an [`Item`].
pub struct ItemView {
    pub item_id: TypeID,
    pub user_id: AccountId,
    pub created: WhoAndWhen,
    pub org_date: Option<UnixEpoch>,
    pub exp_date: Option<UnixEpoch>,
    pub certificate_id: Option<TypeID>,
    pub score: u32,
    pub metadata: Seq<u8>,
}

impl View for Item {
    type V = ItemView;

    open spec fn view(&self) -> ItemView {
        ItemView {
            item_id: self.item_id,
            user_id: self.user_id,
            created: self.created,
            org_date: self.org_date,
            exp_date: self.exp_date,
            certificate_id: self.certificate_id,
            score: self.score,
            metadata: self.metadata@,
        }
    }
}

impl Item {
    /// Builds an item created by `created_by` at the given block number and
    /// time of the chain.
    pub fn new(
        id: TypeID,
        user_id: AccountId,
        created_by: AccountId,
        org_date: Option<UnixEpoch>,
        exp_date: Option<UnixEpoch>,
        certificate_id: Option<TypeID>,
        score: u32,
        metadata: Vec<u8>,
        block: u64,
        time: u64,
    ) -> (item: Self)
        ensures
            item == (Item {
                item_id: id,
                user_id,
                created: WhoAndWhen { account: created_by, block, time },
                org_date,
                exp_date,
                certificate_id,
                score,
                metadata,
            }),
    {
        Item {
            item_id: id,
            user_id,
            created: WhoAndWhen::new(created_by, block, time),
            org_date,
            exp_date,
            certificate_id,
            score,
            metadata,
        }
    }
}

/// The approval status of an item.
#[derive(Clone, Copy, Debug, PartialEq, Eq, Structural)]
pub enum Status {
    Pending,
    Allow,
    Deny,
}

impl Default for Status {
    /// An item starts out pending.
    fn default() -> (s: Self)
        ensures
            s == Status::Pending,
    {
        Status::Pending
    }
}

/// What the store announces after a successful call.
#[derive(Clone, Copy, Debug, PartialEq, Eq, Structural)]
pub enum Event {
    CreateSuceed(TypeID),
    RevokeSuceed(TypeID),
}

/// Why the store refused a call.
#[derive(Clone, Copy, Debug, PartialEq, Eq, Structural)]
pub enum Error {
    /// The item is not listed for the given account.
    ItemNotFound,
    /// A counter would overflow.
    StorageOverflow,
}

/// The state of the store: items by identifier, the identifiers listed for
/// each account, the item counter, the chain's current block number and
/// time, and the events emitted so far, oldest first.
pub struct CvState {
    pub item_by_id: Map<TypeID, ItemView>,
    pub item_by_account_id: Map<AccountId, Seq<TypeID>>,
    pub item_id: TypeID,
    pub block_number: u64,
    pub timestamp: u64,
    pub events: Seq<Event>,
}

/// The credential item store.
pub struct Pallet {
    item_by_id: HashMap<TypeID, Item>,
    item_by_account_id: HashMap<AccountId, Vec<TypeID>>,
    item_id: TypeID,
    block_number: u64,
    timestamp: u64,
    events: Vec<Event>,
}

impl View for Pallet {
    type V = CvState;

    closed spec fn view(&self) -> CvState {
        CvState {
            item_by_id: self.item_by_id@.map_values(|i: Item| i@),
            item_by_account_id: self.item_by_account_id@.map_values(|v: Vec<TypeID>| v@),
            item_id: self.item_id,
            block_number: self.block_number,
            timestamp: self.timestamp,
            events: self.events@,
        }
    }
}

/// The identifiers listed for `account`; an account never written to has
/// the empty list.
pub open spec fn items_of(m: Map<AccountId, Seq<TypeID>>, account: AccountId) -> Seq<TypeID> {
    if m.contains_key(account) {
        m[account]
    } else {
        Seq::empty()
    }
}

/// `s` after removing the element at `i` by moving the last element into
/// its place.
pub open spec fn swap_remove_seq(s: Seq<TypeID>, i: int) -> Seq<TypeID> {
    s.update(i, s.last()).drop_last()
}

/// The item that `create_item` stores when `who` signs: it takes the
/// counter's identifier, records `who` as creator at the current block and
/// time, and scores 0.
pub open spec fn created_item(
    s: CvState,
    who: AccountId,
    user_id: AccountId,
    org_date: Option<UnixEpoch>,
    exp_date: Option<UnixEpoch>,
    certificate_id: Option<TypeID>,
    metadata: Seq<u8>,
) -> ItemView {
    ItemView {
        item_id: s.item_id,
        user_id,
        created: WhoAndWhen { account: who, block: s.block_number, time: s.timestamp },
        org_date,
        exp_date,
        certificate_id,
        score: 0,
        metadata,
    }
}

/// The outcome of `create_item`. The identifier, creator and score passed
/// in are not used: the item is stored under the counter's identifier, with
/// the signer as creator and score 0; the identifier is appended to the
/// signer's list and a `CreateSuceed` event is emitted. The counter keeps
/// its value.
pub open spec fn create_item_model(
    s: CvState,
    origin: RawOrigin,
    id: TypeID,
    user_id: AccountId,
    created_by: AccountId,
    org_date: Option<UnixEpoch>,
    exp_date: Option<UnixEpoch>,
    certificate_id: Option<TypeID>,
    score: u32,
    metadata: Seq<u8>,
) -> (CvState, DispatchResult<Error>) {
    match signer(origin) {
        None => (s, Err(DispatchError::BadOrigin)),
        Some(who) => (
            CvState {
                item_by_id: s.item_by_id.insert(
                    s.item_id,
                    created_item(s, who, user_id, org_date, exp_date, certificate_id, metadata),
                ),
                item_by_account_id: s.item_by_account_id.insert(
                    who,
                    items_of(s.item_by_account_id, who).push(s.item_id),
                ),
                events: s.events.push(Event::CreateSuceed(s.item_id)),
                ..s
            },
            Ok(()),
        ),
    }
}

/// The inputs on which `revoke_error` would index past the end of the
/// signer's list: the item is found at an index of `account_id`'s list
/// that the signer's list does not reach.
pub open spec fn revoke_error_panics(
    s: CvState,
    origin: RawOrigin,
    item_id: TypeID,
    account_id: AccountId,
) -> bool {
    match signer(origin) {
        None => false,
        Some(who) => match items_of(s.item_by_account_id, account_id).index_of_first(item_id) {
            None => false,
            Some(i) => i >= items_of(s.item_by_account_id, who).len(),
        },
    }
}

/// The outcome of `revoke_error`: when `item_id` is listed for
/// `account_id`, its first position there is removed from the signer's
/// list (the last entry moves into its place), the item is deleted and a
/// `RevokeSuceed` event is emitted; otherwise the call is refused with
/// `ItemNotFound`.
pub open spec fn revoke_error_model(
    s: CvState,
    origin: RawOrigin,
    item_id: TypeID,
    account_id: AccountId,
) -> (CvState, DispatchResult<Error>) {
    match signer(origin) {
        None => (s, Err(DispatchError::BadOrigin)),
        Some(who) => match items_of(s.item_by_account_id, account_id).index_of_first(item_id) {
            None => (s, Err(DispatchError::Module(Error::ItemNotFound))),
            Some(i) => (
                CvState {
                    item_by_id: s.item_by_id.remove(item_id),
                    item_by_account_id: s.item_by_account_id.insert(
                        who,
                        swap_remove_seq(items_of(s.item_by_account_id, who), i),
                    ),
                    events: s.events.push(Event::RevokeSuceed(item_id)),
                    ..s
                },
                Ok(()),
            ),
        },
    }
}

/// Creating an item and then revoking it, both signed by the same account
/// and with that account named as the lister, succeeds: the item is no
/// longer stored and the signer's list is back to its former length.
pub proof fn lemma_create_then_revoke(
    s: CvState,
    who: AccountId,
    id: TypeID,
    user_id: AccountId,
    created_by: AccountId,
    org_date: Option<UnixEpoch>,
    exp_date: Option<UnixEpoch>,
    certificate_id: Option<TypeID>,
    score: u32,
    metadata: Seq<u8>,
)
    ensures
        ({
            let (t, r) = create_item_model(
                s, RawOrigin::Signed(who), id, user_id, created_by, org_date, exp_date,
                certificate_id, score, metadata,
            );
            let new_id = s.item_id;
            let (u, r2) = revoke_error_model(t, RawOrigin::Signed(who), new_id, who);
            &&& r is Ok
            &&& t.item_by_id.contains_key(new_id)
            &&& !revoke_error_panics(t, RawOrigin::Signed(who), new_id, who)
            &&& r2 is Ok
            &&& !u.item_by_id.contains_key(new_id)
            &&& items_of(u.item_by_account_id, who).len() == items_of(s.item_by_account_id, who).len()
        }),
{
    let t = create_item_model(
        s, RawOrigin::Signed(who), id, user_id, created_by, org_date, exp_date, certificate_id,
        score, metadata,
    ).0;
    let l = items_of(t.item_by_account_id, who);
    assert(l[l.len() - 1] == s.item_id);
    l.index_of_first_ensures(s.item_id);
}

/// The item counter never changes: no call advances it.
pub proof fn lemma_counter_never_advances(
    s: CvState,
    origin: RawOrigin,
    id: TypeID,
    user_id: AccountId,
    created_by: AccountId,
    org_date: Option<UnixEpoch>,
    exp_date: Option<UnixEpoch>,
    certificate_id: Option<TypeID>,
    score: u32,
    metadata: Seq<u8>,
    item_id: TypeID,
    account_id: AccountId,
)
    ensures
        create_item_model(
            s, origin, id, user_id, created_by, org_date, exp_date, certificate_id, score, metadata,
        ).0.item_id == s.item_id,
        revoke_error_model(s, origin, item_id, account_id).0.item_id == s.item_id,
{
}

/// What `create_item` stores does not depend on the identifier, creator or
/// score passed in.
pub proof fn lemma_create_ignores_id_creator_score(
    s: CvState,
    origin: RawOrigin,
    id: TypeID,
    id2: TypeID,
    user_id: AccountId,
    created_by: AccountId,
    created_by2: AccountId,
    org_date: Option<UnixEpoch>,
    exp_date: Option<UnixEpoch>,
    certificate_id: Option<TypeID>,
    score: u32,
    score2: u32,
    metadata: Seq<u8>,
)
    ensures
        create_item_model(
            s, origin, id, user_id, created_by, org_date, exp_date, certificate_id, score, metadata,
        ) == create_item_model(
            s, origin, id2, user_id, created_by2, org_date, exp_date, certificate_id, score2, metadata,
        ),
{
}

/// Revoking an item that is not listed for the named account is refused
/// with `ItemNotFound` (for a signed caller) and changes nothing.
pub proof fn lemma_revoke_unlisted_refused(
    s: CvState,
    who: AccountId,
    item_id: TypeID,
    account_id: AccountId,
)
    requires
        !items_of(s.item_by_account_id, account_id).contains(item_id),
    ensures
        revoke_error_model(s, RawOrigin::Signed(who), item_id, account_id)
            == (s, Err::<(), DispatchError<Error>>(DispatchError::Module(Error::ItemNotFound))),
{
    items_of(s.item_by_account_id, account_id).index_of_first_ensures(item_id);
}

/// A signed creation always succeeds: the item stored under the counter's
/// identifier has the given user, dates, certificate and metadata, the
/// signer as creator at the current block and time, and score 0; the
/// counter's identifier is appended to the signer's list, every other
/// stored item and list is kept, and one `CreateSuceed` event is emitted.
pub proof fn lemma_create_item_stores(
    s: CvState,
    who: AccountId,
    id: TypeID,
    user_id: AccountId,
    created_by: AccountId,
    org_date: Option<UnixEpoch>,
    exp_date: Option<UnixEpoch>,
    certificate_id: Option<TypeID>,
    score: u32,
    metadata: Seq<u8>,
)
    ensures
        ({
            let (t, r) = create_item_model(
                s, RawOrigin::Signed(who), id, user_id, created_by, org_date, exp_date,
                certificate_id, score, metadata,
            );
            &&& r is Ok
            &&& t.item_by_id == s.item_by_id.insert(
                s.item_id,
                ItemView {
                    item_id: s.item_id,
                    user_id,
                    created: WhoAndWhen { account: who, block: s.block_number, time: s.timestamp },
                    org_date,
                    exp_date,
                    certificate_id,
                    score: 0,
                    metadata,
                },
            )
            &&& t.item_by_account_id.contains_key(who)
            &&& s.item_by_account_id.contains_key(who) ==>
                t.item_by_account_id[who] == s.item_by_account_id[who].push(s.item_id)
            &&& !s.item_by_account_id.contains_key(who) ==>
                t.item_by_account_id[who] == seq![s.item_id]
            &&& forall|a: AccountId| a != who ==> (#[trigger] t.item_by_account_id.contains_key(a)
                <==> s.item_by_account_id.contains_key(a))
            &&& t.item_by_account_id[who].len() == items_of(s.item_by_account_id, who).len() + 1
            &&& t.item_by_account_id[who].last() == s.item_id
            &&& t.item_by_account_id[who].drop_last() == items_of(s.item_by_account_id, who)
            &&& forall|a: AccountId| a != who ==> items_of(t.item_by_account_id, a) == items_of(s.item_by_account_id, a)
            &&& t.item_id == s.item_id
            &&& t.block_number == s.block_number
            &&& t.timestamp == s.timestamp
            &&& t.events == s.events.push(Event::CreateSuceed(s.item_id))
        }),
{
    let t = create_item_model(
        s, RawOrigin::Signed(who), id, user_id, created_by, org_date, exp_date, certificate_id,
        score, metadata,
    ).0;
    assert(t.item_by_account_id[who].drop_last() =~= items_of(s.item_by_account_id, who));
    if !s.item_by_account_id.contains_key(who) {
        assert(t.item_by_account_id[who] =~= seq![s.item_id]);
    }
}

/// When `item_id` is listed for `account_id`, first at index `i`, and the
/// signer's list reaches index `i`, a signed revocation succeeds, whether
/// or not the item is still stored: the entry at `i` of the signer's list
/// is replaced by the list's last entry and the last entry dropped, the
/// item is deleted, every other list is kept, and one `RevokeSuceed` event
/// is emitted.
pub proof fn lemma_revoke_listed_item(
    s: CvState,
    who: AccountId,
    item_id: TypeID,
    account_id: AccountId,
    i: int,
)
    requires
        0 <= i < items_of(s.item_by_account_id, account_id).len(),
        items_of(s.item_by_account_id, account_id)[i] == item_id,
        forall|j: int| 0 <= j < i ==> items_of(s.item_by_account_id, account_id)[j] != item_id,
        i < items_of(s.item_by_account_id, who).len(),
    ensures
        ({
            let (t, r) = revoke_error_model(s, RawOrigin::Signed(who), item_id, account_id);
            let old_list = items_of(s.item_by_account_id, who);
            &&& !revoke_error_panics(s, RawOrigin::Signed(who), item_id, account_id)
            &&& r is Ok
            &&& t.item_by_id == s.item_by_id.remove(item_id)
            &&& t.item_by_account_id.contains_key(who)
            &&& t.item_by_account_id[who].len() == old_list.len() - 1
            &&& forall|j: int| 0 <= j < old_list.len() - 1 && j != i ==> t.item_by_account_id[who][j] == old_list[j]
            &&& i < old_list.len() - 1 ==> t.item_by_account_id[who][i] == old_list.last()
            &&& forall|a: AccountId| a != who ==> items_of(t.item_by_account_id, a) == items_of(s.item_by_account_id, a)
            &&& t.item_id == s.item_id
            &&& t.events == s.events.push(Event::RevokeSuceed(item_id))
        }),
{
    let l = items_of(s.item_by_account_id, account_id);
    l.index_of_first_ensures(item_id);
    assert(l.contains(item_id));
    let k = l.index_of_first(item_id)->0;
    assert(k == i) by {
        if k < i {
        } else if i < k {
        }
    }
}

/// The list of an account is its entry in the table, or empty when the
/// table has no entry for it.
pub proof fn lemma_items_of_reads_table(m: Map<AccountId, Seq<TypeID>>, a: AccountId)
    ensures
        m.contains_key(a) ==> items_of(m, a) == m[a],
        !m.contains_key(a) ==> items_of(m, a).len() == 0,
{
}

/// An unsigned or root call is refused with `BadOrigin` and changes
/// nothing.
pub proof fn lemma_unsigned_refused(
    s: CvState,
    origin: RawOrigin,
    id: TypeID,
    user_id: AccountId,
    created_by: AccountId,
    org_date: Option<UnixEpoch>,
    exp_date: Option<UnixEpoch>,
    certificate_id: Option<TypeID>,
    score: u32,
    metadata: Seq<u8>,
    item_id: TypeID,
    account_id: AccountId,
)
    requires
        !(origin is Signed),
    ensures
        create_item_model(
            s, origin, id, user_id, created_by, org_date, exp_date, certificate_id, score, metadata,
        ) == (s, Err::<(), DispatchError<Error>>(DispatchError::BadOrigin)),
        revoke_error_model(s, origin, item_id, account_id)
            == (s, Err::<(), DispatchError<Error>>(DispatchError::BadOrigin)),
{
}

/// A refused call leaves the whole state, events included, unchanged; an
/// accepted one appends exactly one event.
pub proof fn lemma_refused_call_changes_nothing(
    s: CvState,
    origin: RawOrigin,
    id: TypeID,
    user_id: AccountId,
    created_by: AccountId,
    org_date: Option<UnixEpoch>,
    exp_date: Option<UnixEpoch>,
    certificate_id: Option<TypeID>,
    score: u32,
    metadata: Seq<u8>,
    item_id: TypeID,
    account_id: AccountId,
)
    ensures
        ({
            let (t, r) = create_item_model(
                s, origin, id, user_id, created_by, org_date, exp_date, certificate_id, score, metadata,
            );
            &&& r is Err ==> t == s
            &&& r is Ok ==> t.events == s.events.push(Event::CreateSuceed(s.item_id))
        }),
        ({
            let (t, r) = revoke_error_model(s, origin, item_id, account_id);
            &&& r is Err ==> t == s
            &&& r is Ok ==> t.events == s.events.push(Event::RevokeSuceed(item_id))
        }),
{
}

/// The first index of `x` in `v`, if any.
fn position(v: &Vec<TypeID>, x: TypeID) -> (r: Option<usize>)
    ensures
        match r {
            Some(i) => v@.index_of_first(x) == Some(i as int),
            None => v@.index_of_first(x) is None,
        },
{
    proof {
        v@.index_of_first_ensures(x);
    }
    let n = v.len();
    for i in 0..n
        invariant
            n == v.len(),
            forall|j: int| 0 <= j < i ==> v@[j] != x,
            match v@.index_of_first(x) {
                Some(k) => 0 <= k < v@.len() && v@[k] == x && forall|j: int| 0 <= j < k ==> v@[j] != x,
                None => !v@.contains(x),
            },
    {
        if v[i] == x {
            return Some(i);
        }
    }
    None
}

impl Pallet {
    /// An empty store at block 0, time 0, with the counter at 0.
    pub fn new() -> (p: Self)
        ensures
            p@.item_by_id == Map::<TypeID, ItemView>::empty(),
            p@.item_by_account_id == Map::<AccountId, Seq<TypeID>>::empty(),
            p@.item_id == 0,
            p@.block_number == 0,
            p@.timestamp == 0,
            p@.events == Seq::<Event>::empty(),
    {
        let p = Pallet {
            item_by_id: HashMap::new(),
            item_by_account_id: HashMap::new(),
            item_id: 0,
            block_number: 0,
            timestamp: 0,
            events: Vec::new(),
        };
        assert(p@.item_by_id =~= Map::<TypeID, ItemView>::empty());
        assert(p@.item_by_account_id =~= Map::<AccountId, Seq<TypeID>>::empty());
        p
    }

    /// Moves the chain to block `n`.
    pub fn set_block_number(&mut self, n: u64)
        ensures
            final(self)@ == (CvState { block_number: n, ..old(self)@ }),
    {
        self.block_number = n;
    }

    /// Sets the chain's current time.
    pub fn set_timestamp(&mut self, t: u64)
        ensures
            final(self)@ == (CvState { timestamp: t, ..old(self)@ }),
    {
        self.timestamp = t;
    }

    /// The item stored under `id`, if any.
    pub fn item_by_id(&self, id: TypeID) -> (r: Option<&Item>)
        ensures
            match r {
                Some(i) => self@.item_by_id.contains_key(id) && i@ == self@.item_by_id[id],
                None => !self@.item_by_id.contains_key(id),
            },
    {
        self.item_by_id.get(&id)
    }

    /// The identifiers listed for `account` (empty when none).
    pub fn item_by_account_id(&self, account: AccountId) -> (r: Vec<TypeID>)
        ensures
            r@ == items_of(self@.item_by_account_id, account),
    {
        match self.item_by_account_id.get(&account) {
            Some(v) => {
                let c = v.clone();
                assert(c@ =~= v@);
                c
            },
            None => Vec::new(),
        }
    }

    /// The counter that names the next item.
    pub fn item_id(&self) -> (r: TypeID)
        ensures
            r == self@.item_id,
    {
        self.item_id
    }

    /// The events emitted so far, oldest first.
    pub fn events(&self) -> (r: &Vec<Event>)
        ensures
            r@ == self@.events,
    {
        &self.events
    }

    /// Creates an item signed by the caller, stored under the counter's
    /// identifier, with the signer as creator and score 0.
    pub fn create_item(
        &mut self,
        origin: RawOrigin,
        id: TypeID,
        user_id: AccountId,
        created_by: AccountId,
        org_date: Option<UnixEpoch>,
        exp_date: Option<UnixEpoch>,
        certificate_id: Option<TypeID>,
        score: u32,
        metadata: Vec<u8>,
    ) -> (r: DispatchResult<Error>)
        ensures
            (final(self)@, r) == create_item_model(
                old(self)@,
                origin,
                id,
                user_id,
                created_by,
                org_date,
                exp_date,
                certificate_id,
                score,
                metadata@,
            ),
    {
        let who = match ensure_signed(origin) {
            Ok(w) => w,
            Err(_) => return Err(DispatchError::BadOrigin),
        };
        let id = self.item_id();
        let ghost rec = created_item(old(self)@, who, user_id, org_date, exp_date, certificate_id, metadata@);
        let new_item = Item::new(
            id,
            user_id,
            who,
            org_date,
            exp_date,
            certificate_id,
            0,
            metadata,
            self.block_number,
            self.timestamp,
        );
        self.item_by_id.insert(id, new_item);
        let ghost before = self.item_by_account_id@;
        let mut list = match self.item_by_account_id.remove(&who) {
            Some(v) => v,
            None => Vec::new(),
        };
        assert(list@ =~= items_of(old(self)@.item_by_account_id, who));
        list.push(id);
        self.item_by_account_id.insert(who, list);
        self.events.push(Event::CreateSuceed(id));
        assert(self@.item_by_id =~= old(self)@.item_by_id.insert(id, rec));
        assert(self@.item_by_account_id =~= old(self)@.item_by_account_id.insert(
            who,
            items_of(old(self)@.item_by_account_id, who).push(id),
        ));
        Ok(())
    }

    /// Whether `revoke_error` would index past the end of the signer's list
    /// on these inputs; such a call must not be made.
    pub fn revoke_error_would_overrun(&self, origin: RawOrigin, item_id: TypeID, account_id: AccountId) -> (b: bool)
        ensures
            b == revoke_error_panics(self@, origin, item_id, account_id),
    {
        let who = match ensure_signed(origin) {
            Ok(w) => w,
            Err(_) => return false,
        };
        let listed = self.item_by_account_id(account_id);
        match position(&listed, item_id) {
            None => false,
            Some(i) => i >= self.item_by_account_id(who).len(),
        }
    }

    /// Revokes item `item_id`, which must be listed for `account_id`: its
    /// first position in that list is removed from the signer's list and
    /// the item is deleted.
    pub fn revoke_error(&mut self, origin: RawOrigin, item_id: TypeID, account_id: AccountId) -> (r: DispatchResult<Error>)
        requires
            !revoke_error_panics(old(self)@, origin, item_id, account_id),
        ensures
            (final(self)@, r) == revoke_error_model(old(self)@, origin, item_id, account_id),
    {
        let who = match ensure_signed(origin) {
            Ok(w) => w,
            Err(_) => return Err(DispatchError::BadOrigin),
        };
        let listed = self.item_by_account_id(account_id);
        let idx = position(&listed, item_id);
        let iid = match idx {
            None => return Err(DispatchError::Module(Error::ItemNotFound)),
            Some(iid) => iid,
        };
        let mut list = match self.item_by_account_id.remove(&who) {
            Some(v) => v,
            None => Vec::new(),
        };
        assert(list@ =~= items_of(old(self)@.item_by_account_id, who));
        list.swap_remove(iid);
        let ghost shortened = list@;
        self.item_by_account_id.insert(who, list);
        self.item_by_id.remove(&item_id);
        self.events.push(Event::RevokeSuceed(item_id));
        assert(self@.item_by_id =~= old(self)@.item_by_id.remove(item_id));
        assert(self@.item_by_account_id =~= old(self)@.item_by_account_id.insert(who, shortened));
        Ok(())
    }

    /// Sets the status of an item; this call does nothing.
    pub fn set_status_item(&mut self, origin: RawOrigin, status: Status)
        ensures
            final(self)@ == old(self)@,
    {
    }
}

} // verus!

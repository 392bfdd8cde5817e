//! Types shared by the registries: roles, account status, and the record of
//! who created something and when.

use vstd::prelude::*;
use crate::dispatch::AccountId;

verus! {

/// Identifier of a stored item.
pub type TypeID = u64;

/// A point in time, in seconds since the Unix epoch.
pub type UnixEpoch = u64;

/// The role an account holds.
#[allow(non_camel_case_types)]
#[derive(Clone, Copy, Debug, PartialEq, Eq, Structural)]
pub enum Role {
    SYSMAN,
    ORG,
    USER,
}

/// The approval status of an account.
#[derive(Clone, Copy, Debug, PartialEq, Eq, Structural)]
pub enum Status {
    Pending,
    Allow,
    Deny,
}

impl Default for Status {
    /// A new account starts out pending.
    fn default() -> (s: Self)
        ensures
            s == Status::Pending,
    {
        Status::Pending
    }
}

/// Which account created something, at which block and at which time.
#[derive(Clone, Copy, Debug, PartialEq, Eq, Structural)]
pub struct WhoAndWhen {
    pub account: AccountId,
    pub block: u64,
    pub time: u64,
}

impl WhoAndWhen {
    /// Records `account` as the creator, at the given block number and
    /// timestamp of the chain.
    pub fn new(account: AccountId, block: u64, time: u64) -> (w: Self)
        ensures
            w == (WhoAndWhen { account, block, time }),
    {
        WhoAndWhen { account, block, time }
    }
}

} // verus!

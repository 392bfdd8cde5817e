//! Origins of calls and the results of dispatchable calls.

use vstd::prelude::*;

verus! {

/// Identifier of an on-chain account.
pub type AccountId = u64;

/// Who issued a call: the root authority, a signed account, or nobody.
#[derive(Clone, Copy, Debug, PartialEq, Eq, Structural)]
pub enum RawOrigin {
    Root,
    Signed(AccountId),
    Unsigned,
}

/// The error returned when a call needs a signed origin and got another one.
#[derive(Clone, Copy, Debug, PartialEq, Eq, Structural)]
pub struct BadOrigin;

/// Why a dispatchable call was refused: a bad origin, or an error of the
/// registry that handled it.
#[derive(Clone, Copy, Debug, PartialEq, Eq)]
pub enum DispatchError<E> {
    BadOrigin,
    Module(E),
}

/// The outcome of a dispatchable call.
pub type DispatchResult<E> = Result<(), DispatchError<E>>;

/// The account that signed `origin`, if it is a signed origin.
pub open spec fn signer(origin: RawOrigin) -> Option<AccountId> {
    match origin {
        RawOrigin::Signed(who) => Some(who),
        _ => None,
    }
}

/// Only a signed origin has a signer, and it is the account that signed.
pub proof fn lemma_signer_of_origin(who: AccountId)
    ensures
        signer(RawOrigin::Signed(who)) == Some(who),
        signer(RawOrigin::Root) is None,
        signer(RawOrigin::Unsigned) is None,
{
}

/// Returns the signing account of `origin`, or `BadOrigin` when the origin
/// is not signed.
pub fn ensure_signed(origin: RawOrigin) -> (r: Result<AccountId, BadOrigin>)
    ensures
        match signer(origin) {
            Some(who) => r == Ok::<AccountId, BadOrigin>(who),
            None => r == Err::<AccountId, BadOrigin>(BadOrigin),
        },
{
    match origin {
        RawOrigin::Signed(who) => Ok(who),
        _ => Err(BadOrigin),
    }
}

} // verus!

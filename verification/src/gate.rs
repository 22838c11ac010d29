//! The two checks that guard the service: the fee and the owner.

use vstd::prelude::*;
use crate::account::{same_account, AccountId, Balance};

verus! {

/// Why a call was refused.
#[derive(Clone, Copy, Debug, PartialEq, Eq, Structural)]
pub enum Error {
    /// The payment attached to the call is below the fee.
    InsufficientFee,
    /// The caller is not the owner.
    MustBeOwner,
}

/// Passes when `paid` covers `fee`, and refuses with
/// `Error::InsufficientFee` otherwise.
pub fn require_fee(paid: Balance, fee: Balance) -> (checked: Result<(), Error>)
    ensures
        paid >= fee ==> checked is Ok,
        paid < fee ==> checked == Err::<(), Error>(Error::InsufficientFee),
{
    if paid < fee {
        Err(Error::InsufficientFee)
    } else {
        Ok(())
    }
}

/// Passes when `caller` is `owner`, and refuses with `Error::MustBeOwner`
/// otherwise.
pub fn require_owner(caller: &AccountId, owner: &AccountId) -> (checked: Result<(), Error>)
    ensures
        *caller == *owner ==> checked is Ok,
        *caller != *owner ==> checked == Err::<(), Error>(Error::MustBeOwner),
{
    if same_account(caller, owner) {
        Ok(())
    } else {
        Err(Error::MustBeOwner)
    }
}

} // verus!

//! Accounts and amounts.

use vstd::prelude::*;

verus! {

/// The identifier of an account: 32 bytes.
pub type AccountId = [u8; 32];

/// An amount of the native currency.
pub type Balance = u128;

/// Whether two identifiers name the same account.
pub fn same_account(left: &AccountId, right: &AccountId) -> (same: bool)
    ensures
        same == (*left == *right),
{
    let mut i: usize = 0;
    while i < 32
        invariant
            i <= 32,
            forall|j: int| 0 <= j < i ==> left[j] == right[j],
        decreases 32 - i,
    {
        if left[i] != right[i] {
            return false;
        }
        i += 1;
    }
    assert(*left =~= *right);
    true
}

} // verus!

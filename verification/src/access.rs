use vstd::prelude::*;

use crate::account::AccountId;
use crate::error::CrudError;

verus! {

/// What the owner's gate answers to `caller`: it lets the owner through and
/// nobody else.
pub open spec fn owner_gate(caller: AccountId, owner: AccountId) -> Result<(), CrudError> {
    if caller == owner {
        Ok(())
    } else {
        Err(CrudError::OwnerOnly)
    }
}

/// Lets `caller` through if they are `owner`.
pub fn require_owner(caller: AccountId, owner: AccountId) -> (r: Result<(), CrudError>)
    ensures
        r == owner_gate(caller, owner),
{
    if caller != owner {
        return Err(CrudError::OwnerOnly);
    }
    Ok(())
}

} // verus!

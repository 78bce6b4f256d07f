use vstd::prelude::*;

verus! {

/// An on-chain account identity, reduced to a plain numeric identifier.
/// The pool only ever compares identities for equality.
#[derive(Clone, Copy, Debug, PartialEq, Eq, Structural)]
pub struct AccountId {
    pub id: u128,
}

impl AccountId {
    pub fn new(id: u128) -> (r: AccountId)
        ensures
            r.id == id,
    {
        AccountId { id }
    }
}

} // verus!

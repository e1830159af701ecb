//! The identifier of an account holder.
//!
//! Accounts are named by [`candid::Principal`], which the host runtime hands
//! in. The ledger never looks inside one: it only asks whether two of them are
//! the same.

use candid::Principal;
use vstd::prelude::*;

verus! {

/// `candid::Principal`, taken as an opaque value.
#[verifier::external_type_specification]
#[verifier::external_body]
pub struct ExPrincipal(candid::Principal);

/// Tells whether `a` and `b` are the same principal.
///
/// Trusted: the body is `==` of `candid::Principal`, which the crate derives
/// over the length and the zero-padded bytes of the identifier. The contract
/// claims that this comparison is `true` exactly when both are the same value.
#[verifier::external_body]
pub(crate) fn same_principal(a: &Principal, b: &Principal) -> (same: bool)
    ensures
        same == (*a == *b),
{
    a == b
}

} // verus!

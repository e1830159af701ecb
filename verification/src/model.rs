//! The ledger as mathematics: a map from principals to balances, and what
//! each operation makes of it.
//!
//! A principal that the map does not hold has a balance of zero. The record
//! kept under a principal is that principal with its balance, so the owner of
//! a record is its key by construction.

use crate::status::LedgerError;
use candid::Principal;
use vstd::prelude::*;

verus! {

/// The balance of `who` in `balances`: the stored one, or zero without a record.
pub open spec fn balance_of(balances: Map<Principal, u64>, who: Principal) -> u64 {
    if balances.dom().contains(who) {
        balances[who]
    } else {
        0
    }
}

/// What minting `amount` tokens into `account` makes of `balances`.
///
/// The record of `account` is made if there was none. Where the balance would
/// pass `u64::MAX` the mint is refused.
pub open spec fn mint_outcome(balances: Map<Principal, u64>, account: Principal, amount: u64)
    -> Result<Map<Principal, u64>, LedgerError> {
    if balance_of(balances, account) + amount > u64::MAX {
        Err(LedgerError::BalanceOverflow)
    } else {
        Ok(balances.insert(account, (balance_of(balances, account) + amount) as u64))
    }
}

/// What moving `amount` tokens from `from` to `to` makes of `balances`.
///
/// The sender must have a record, and then hold the amount. A transfer to
/// oneself leaves the map as it is. Otherwise the sender is debited and the
/// receiver, whose record is made if there was none, is credited, unless the
/// receiver's balance would pass `u64::MAX`.
pub open spec fn transfer_outcome(
    balances: Map<Principal, u64>,
    from: Principal,
    to: Principal,
    amount: u64,
) -> Result<Map<Principal, u64>, LedgerError> {
    if !balances.dom().contains(from) {
        Err(LedgerError::MissingSender)
    } else if balances[from] < amount {
        Err(LedgerError::InsufficientFunds)
    } else if from == to {
        Ok(balances)
    } else if balance_of(balances, to) + amount > u64::MAX {
        Err(LedgerError::BalanceOverflow)
    } else {
        Ok(
            balances.insert(from, (balances[from] - amount) as u64).insert(
                to,
                (balance_of(balances, to) + amount) as u64,
            ),
        )
    }
}

/// The sum of all balances that `balances` stores. It is taken over finitely
/// many records, as every ledger has; of an infinite map it is zero.
pub open spec fn total_supply(balances: Map<Principal, u64>) -> nat
    decreases balances.dom().len(),
{
    if balances.dom().finite() && balances.dom().len() > 0 {
        let who = balances.dom().choose();
        balances[who] as nat + total_supply(balances.remove(who))
    } else {
        0
    }
}

/// The total supply is the balance of any one record plus the supply of the rest.
pub proof fn lemma_supply_without(balances: Map<Principal, u64>, who: Principal)
    requires
        balances.dom().finite(),
        balances.dom().contains(who),
    ensures
        total_supply(balances) == balances[who] + total_supply(balances.remove(who)),
    decreases balances.dom().len(),
{
    let first = balances.dom().choose();
    if first != who {
        lemma_supply_without(balances.remove(first), who);
        lemma_supply_without(balances.remove(who), first);
        assert(balances.remove(first).remove(who) =~= balances.remove(who).remove(first));
    }
}

/// Storing `balance` under `who` changes the total supply by the difference to
/// what `who` held before.
pub proof fn lemma_supply_after_insert(balances: Map<Principal, u64>, who: Principal, balance: u64)
    requires
        balances.dom().finite(),
    ensures
        total_supply(balances.insert(who, balance)) + balance_of(balances, who) == total_supply(
            balances,
        ) + balance,
{
    let after = balances.insert(who, balance);
    lemma_supply_without(after, who);
    assert(after.remove(who) =~= balances.remove(who));
    if balances.dom().contains(who) {
        lemma_supply_without(balances, who);
    } else {
        assert(balances.remove(who) =~= balances);
    }
}

} // verus!

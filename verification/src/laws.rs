//! What holds of the ledger's operations, proved over the model that their
//! contracts are stated in.

use crate::history::{apply, lemma_replay_is_finite, replay, Operation};
use crate::model::{
    balance_of, lemma_supply_after_insert, mint_outcome, total_supply, transfer_outcome,
};
use crate::status::LedgerError;
use candid::Principal;
use vstd::prelude::*;

verus! {

/// A mint that succeeds raises the balance of its target by exactly the amount
/// and leaves every other balance, and every other record, as it was.
pub proof fn law_mint_adds_exactly(balances: Map<Principal, u64>, account: Principal, amount: u64)
    requires
        mint_outcome(balances, account, amount) is Ok,
    ensures
        ({
            let after = mint_outcome(balances, account, amount)->Ok_0;
            &&& balance_of(after, account) == balance_of(balances, account) + amount
            &&& after.dom() == balances.dom().insert(account)
            &&& forall|other: Principal|
                other != account ==> balance_of(after, other) == balance_of(balances, other)
        }),
{
}

/// A mint succeeds exactly when the raised balance fits in `u64`, and is
/// refused for overflow otherwise.
pub proof fn law_mint_fails_only_on_overflow(
    balances: Map<Principal, u64>,
    account: Principal,
    amount: u64,
)
    ensures
        mint_outcome(balances, account, amount) is Ok <==> balance_of(balances, account) + amount
            <= u64::MAX,
        mint_outcome(balances, account, amount) is Err ==> mint_outcome(balances, account, amount)
            == Err::<Map<Principal, u64>, LedgerError>(LedgerError::BalanceOverflow),
{
}

/// A transfer between two different accounts that succeeds lowers the sender's
/// balance by the amount, raises the receiver's by the amount, keeps the sum of
/// the two, and leaves every other balance as it was.
pub proof fn law_transfer_moves_exactly(
    balances: Map<Principal, u64>,
    from: Principal,
    to: Principal,
    amount: u64,
)
    requires
        from != to,
        transfer_outcome(balances, from, to, amount) is Ok,
    ensures
        ({
            let after = transfer_outcome(balances, from, to, amount)->Ok_0;
            &&& balance_of(after, from) == balance_of(balances, from) - amount
            &&& balance_of(after, to) == balance_of(balances, to) + amount
            &&& balance_of(after, from) + balance_of(after, to) == balance_of(balances, from)
                + balance_of(balances, to)
            &&& after.dom() == balances.dom().insert(to)
            &&& forall|other: Principal|
                other != from && other != to ==> balance_of(after, other) == balance_of(
                    balances,
                    other,
                )
        }),
{
}

/// A transfer that is refused, for whatever reason, changes no balance and
/// makes no record.
pub proof fn law_refused_transfer_changes_nothing(
    balances: Map<Principal, u64>,
    from: Principal,
    to: Principal,
    amount: u64,
)
    requires
        transfer_outcome(balances, from, to, amount) is Err,
    ensures
        apply(balances, Operation::Transfer { from, to, amount }) == balances,
{
}

/// A transfer is refused for a missing sender exactly when the sender has no
/// record; for insufficient funds exactly when the sender has one and holds
/// less than the amount; for overflow exactly when neither holds, the two
/// accounts differ and the receiver's balance would pass `u64::MAX`.
pub proof fn law_transfer_refusals(
    balances: Map<Principal, u64>,
    from: Principal,
    to: Principal,
    amount: u64,
)
    ensures
        ({
            let outcome = transfer_outcome(balances, from, to, amount);
            let missing = Err::<Map<Principal, u64>, LedgerError>(LedgerError::MissingSender);
            let short = Err::<Map<Principal, u64>, LedgerError>(LedgerError::InsufficientFunds);
            let overflow = Err::<Map<Principal, u64>, LedgerError>(LedgerError::BalanceOverflow);
            &&& outcome == missing <==> !balances.dom().contains(from)
            &&& outcome == short <==> balances.dom().contains(from) && balances[from] < amount
            &&& outcome == overflow <==> balances.dom().contains(from) && balances[from] >= amount
                && from != to && balance_of(balances, to) + amount > u64::MAX
        }),
{
}

/// A balance query leaves the ledger as it is.
pub proof fn law_query_changes_nothing(balances: Map<Principal, u64>, account: Principal)
    ensures
        apply(balances, Operation::GetBalance { account }) == balances,
{
}

/// A transfer to oneself, with a record and enough tokens, succeeds and leaves
/// the ledger as it is.
pub proof fn law_self_transfer_changes_nothing(
    balances: Map<Principal, u64>,
    account: Principal,
    amount: u64,
)
    requires
        balances.dom().contains(account),
        balances[account] >= amount,
    ensures
        transfer_outcome(balances, account, account, amount) == Ok::<
            Map<Principal, u64>,
            LedgerError,
        >(balances),
{
}

/// Minting an amount into `a` and then transferring that amount from `a` to
/// another account `b` that holds nothing gives `a` its first balance back
/// and `b` the amount.
///
/// Between an account and itself this holds only of the amount zero: the
/// minted tokens then stay where they are.
pub proof fn law_mint_then_transfer(
    balances: Map<Principal, u64>,
    a: Principal,
    b: Principal,
    amount: u64,
)
    requires
        a != b || amount == 0,
        balance_of(balances, b) == 0,
        mint_outcome(balances, a, amount) is Ok,
    ensures
        ({
            let minted = mint_outcome(balances, a, amount)->Ok_0;
            let outcome = transfer_outcome(minted, a, b, amount);
            &&& outcome is Ok
            &&& balance_of(outcome->Ok_0, a) == balance_of(balances, a)
            &&& balance_of(outcome->Ok_0, b) == balance_of(balances, b) + amount
        }),
{
}

/// A transfer of nothing succeeds exactly when the sender has a record, and
/// changes no balance either way.
pub proof fn law_zero_transfer(balances: Map<Principal, u64>, from: Principal, to: Principal)
    ensures
        transfer_outcome(balances, from, to, 0) is Ok <==> balances.dom().contains(from),
        forall|who: Principal|
            balance_of(apply(balances, Operation::Transfer { from, to, amount: 0 }), who)
                == balance_of(balances, who),
{
}

/// A mint of nothing always succeeds. It changes no balance, and leaves a
/// record of zero tokens where the account had none.
pub proof fn law_zero_mint(balances: Map<Principal, u64>, account: Principal)
    ensures
        mint_outcome(balances, account, 0) is Ok,
        mint_outcome(balances, account, 0)->Ok_0 == (if balances.dom().contains(account) {
            balances
        } else {
            balances.insert(account, 0)
        }),
        forall|who: Principal|
            balance_of(mint_outcome(balances, account, 0)->Ok_0, who) == balance_of(balances, who),
{
    if balances.dom().contains(account) {
        assert(balances.insert(account, balances[account]) =~= balances);
    }
}

/// A transfer of all that the sender holds, to another account that has room
/// for it, succeeds and leaves the sender with nothing.
pub proof fn law_full_transfer_empties_sender(
    balances: Map<Principal, u64>,
    from: Principal,
    to: Principal,
)
    requires
        balances.dom().contains(from),
        from != to,
        balance_of(balances, to) + balances[from] <= u64::MAX,
    ensures
        transfer_outcome(balances, from, to, balances[from]) is Ok,
        balance_of(transfer_outcome(balances, from, to, balances[from])->Ok_0, from) == 0,
{
}

/// A transfer, whether it succeeds or is refused, keeps the total supply.
pub proof fn law_transfer_keeps_supply(
    balances: Map<Principal, u64>,
    from: Principal,
    to: Principal,
    amount: u64,
)
    requires
        balances.dom().finite(),
    ensures
        total_supply(apply(balances, Operation::Transfer { from, to, amount })) == total_supply(
            balances,
        ),
{
    if transfer_outcome(balances, from, to, amount) is Ok && from != to {
        let debited = balances.insert(from, (balances[from] - amount) as u64);
        lemma_supply_after_insert(balances, from, (balances[from] - amount) as u64);
        lemma_supply_after_insert(debited, to, (balance_of(balances, to) + amount) as u64);
    }
}

/// A mint that succeeds raises the total supply by the amount.
pub proof fn law_mint_raises_supply(balances: Map<Principal, u64>, account: Principal, amount: u64)
    requires
        balances.dom().finite(),
        mint_outcome(balances, account, amount) is Ok,
    ensures
        total_supply(mint_outcome(balances, account, amount)->Ok_0) == total_supply(balances)
            + amount,
{
    lemma_supply_after_insert(
        balances,
        account,
        (balance_of(balances, account) + amount) as u64,
    );
}

/// After any run of operations without a mint, starting from the empty
/// ledger, the total supply is zero.
pub proof fn law_no_mint_no_supply(operations: Seq<Operation>)
    requires
        forall|i: int| 0 <= i < operations.len() ==> !(operations[i] is Mint),
    ensures
        total_supply(replay(operations)) == 0,
    decreases operations.len(),
{
    if operations.len() > 0 {
        let before = operations.drop_last();
        law_no_mint_no_supply(before);
        lemma_replay_is_finite(before);
        match operations.last() {
            Operation::Transfer { from, to, amount } => {
                law_transfer_keeps_supply(replay(before), from, to, amount);
            },
            _ => {},
        }
    }
}

/// After any run of operations, starting from the empty ledger, an account
/// that was never the target of a mint nor the receiver of a transfer has no
/// record, and so a balance of zero.
pub proof fn law_uncredited_account_is_empty(operations: Seq<Operation>, who: Principal)
    requires
        forall|i: int| 0 <= i < operations.len() ==> !operations[i].credits(who),
    ensures
        !replay(operations).dom().contains(who),
        balance_of(replay(operations), who) == 0,
    decreases operations.len(),
{
    if operations.len() > 0 {
        law_uncredited_account_is_empty(operations.drop_last(), who);
        assert(!operations.last().credits(who));
    }
}

} // verus!

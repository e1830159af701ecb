//! Runs of operations: what a ledger holds after a sequence of calls, starting
//! from the empty ledger.

use crate::model::{mint_outcome, transfer_outcome};
use candid::Principal;
use vstd::prelude::*;

verus! {

/// One call on the ledger.
pub enum Operation {
    /// A balance query.
    GetBalance { account: Principal },
    /// A transfer of `amount` tokens from `from` to `to`.
    Transfer { from: Principal, to: Principal, amount: u64 },
    /// A mint of `amount` tokens into `account`.
    Mint { account: Principal, amount: u64 },
}

impl Operation {
    /// The call is a mint into `who` or a transfer to `who`: the two calls that
    /// can make the record of `who`.
    pub open spec fn credits(self, who: Principal) -> bool {
        match self {
            Operation::GetBalance { .. } => false,
            Operation::Transfer { to, .. } => to == who,
            Operation::Mint { account, .. } => account == who,
        }
    }
}

/// The balances after `operation` on `balances`: those that the operation
/// makes where it succeeds, and `balances` where it is refused or is a query.
pub open spec fn apply(balances: Map<Principal, u64>, operation: Operation) -> Map<
    Principal,
    u64,
> {
    match operation {
        Operation::GetBalance { .. } => balances,
        Operation::Transfer { from, to, amount } => match transfer_outcome(
            balances,
            from,
            to,
            amount,
        ) {
            Ok(after) => after,
            Err(_) => balances,
        },
        Operation::Mint { account, amount } => match mint_outcome(balances, account, amount) {
            Ok(after) => after,
            Err(_) => balances,
        },
    }
}

/// The balances after the calls of `operations`, in order, on the empty ledger.
pub open spec fn replay(operations: Seq<Operation>) -> Map<Principal, u64>
    decreases operations.len(),
{
    if operations.len() == 0 {
        Map::empty()
    } else {
        apply(replay(operations.drop_last()), operations.last())
    }
}

/// Every run of operations leaves finitely many records.
pub proof fn lemma_replay_is_finite(operations: Seq<Operation>)
    ensures
        replay(operations).dom().finite(),
    decreases operations.len(),
{
    if operations.len() > 0 {
        lemma_replay_is_finite(operations.drop_last());
    }
}

} // verus!

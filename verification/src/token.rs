//! The record that the ledger keeps for one account.

use candid::Principal;
use vstd::prelude::*;

verus! {

/// One account: who owns it, and how many tokens it holds.
#[derive(Debug)]
pub struct Token {
    pub owner: Principal,
    pub balance: u64,
}

impl Clone for Token {
    fn clone(&self) -> (copy: Token)
        ensures
            copy == *self,
    {
        Token { owner: self.owner, balance: self.balance }
    }
}

/// Makes the record of `owner` with `initial_balance` tokens.
pub fn create_account(owner: Principal, initial_balance: u64) -> (token: Token)
    ensures
        token.owner == owner,
        token.balance == initial_balance,
{
    Token { owner, balance: initial_balance }
}

} // verus!

//! What a mutating call reports: a structured error inside the library, and
//! the fixed phrase that the host hands to its caller.

use vstd::prelude::*;

verus! {

/// Why a transfer or a mint changed nothing.
#[derive(Clone, Copy, Debug, PartialEq, Eq, Structural)]
pub enum LedgerError {
    /// The sender of a transfer has no record in the ledger.
    MissingSender,
    /// The sender of a transfer holds less than the amount.
    InsufficientFunds,
    /// The credited balance would pass `u64::MAX`.
    BalanceOverflow,
}

impl LedgerError {
    /// The phrase that stands for this error.
    pub open spec fn text(self) -> Seq<char> {
        match self {
            LedgerError::MissingSender => "Sender does not have an account"@,
            LedgerError::InsufficientFunds => "Insufficient balance"@,
            LedgerError::BalanceOverflow => "Balance overflow"@,
        }
    }

    /// Renders the error as its phrase.
    pub fn message(&self) -> (message: String)
        ensures
            message@ == self.text(),
    {
        match self {
            LedgerError::MissingSender => "Sender does not have an account".to_string(),
            LedgerError::InsufficientFunds => "Insufficient balance".to_string(),
            LedgerError::BalanceOverflow => "Balance overflow".to_string(),
        }
    }
}

/// The phrase for the outcome of a transfer.
pub open spec fn transfer_status_text(outcome: Result<(), LedgerError>) -> Seq<char> {
    match outcome {
        Ok(_) => "Transfer successful"@,
        Err(error) => error.text(),
    }
}

/// The phrase for the outcome of a mint.
pub open spec fn mint_status_text(outcome: Result<(), LedgerError>) -> Seq<char> {
    match outcome {
        Ok(_) => "Tokens minted"@,
        Err(error) => error.text(),
    }
}

/// Renders the outcome of a transfer as the status that the caller reads.
pub fn transfer_status(outcome: &Result<(), LedgerError>) -> (status: String)
    ensures
        status@ == transfer_status_text(*outcome),
{
    match outcome {
        Ok(_) => "Transfer successful".to_string(),
        Err(error) => error.message(),
    }
}

/// Renders the outcome of a mint as the status that the caller reads.
pub fn mint_status(outcome: &Result<(), LedgerError>) -> (status: String)
    ensures
        status@ == mint_status_text(*outcome),
{
    match outcome {
        Ok(_) => "Tokens minted".to_string(),
        Err(error) => error.message(),
    }
}

} // verus!

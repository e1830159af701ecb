//! The ledger itself: the records, and the operations on them.

use crate::history::{apply, Operation};
use crate::laws::{law_mint_raises_supply, law_transfer_keeps_supply};
use crate::model::{balance_of, mint_outcome, total_supply, transfer_outcome};
use crate::principal::same_principal;
use crate::status::LedgerError;
use crate::token::{create_account, Token};
use candid::Principal;
use vstd::prelude::*;

verus! {

/// All accounts, each under its owner. Records are made on the first credit
/// and never removed.
pub struct Ledger {
    accounts: Vec<Token>,
}

impl View for Ledger {
    type V = Map<Principal, u64>;

    /// The balance stored for each principal that has a record.
    closed spec fn view(&self) -> Map<Principal, u64> {
        balances_of(self.accounts@)
    }
}

impl Ledger {
    #[verifier::type_invariant]
    spec fn unique_keys(self) -> bool {
        distinct_owners(self.accounts@)
    }

    /// The empty ledger: the state in which the host starts.
    pub fn new() -> (ledger: Ledger)
        ensures
            ledger@ == Map::<Principal, u64>::empty(),
    {
        let ledger = Ledger { accounts: Vec::new() };
        assert(ledger@ =~= Map::<Principal, u64>::empty());
        ledger
    }

    /// The record kept for each principal that has one.
    pub closed spec fn records(self) -> Map<Principal, Token> {
        Map::new(
            |who: Principal| self@.dom().contains(who),
            |who: Principal| self.accounts@[place_of(self.accounts@, who)],
        )
    }

    /// Each record is kept under its owner, and holds the balance that the
    /// ledger shows for that owner.
    pub proof fn lemma_records_keyed_by_owner(self)
        ensures
            self.records().dom() == self@.dom(),
            forall|who: Principal| #[trigger]
                self@.dom().contains(who) ==> self.records()[who] == (Token {
                    owner: who,
                    balance: self@[who],
                }),
    {
        assert forall|who: Principal| #[trigger] self@.dom().contains(who) implies self.records()[who]
            == (Token { owner: who, balance: self@[who] }) by {
            assert(stands_at(self.accounts@, who, place_of(self.accounts@, who)));
        }
    }

    /// A ledger holds finitely many records.
    pub proof fn lemma_finitely_many_records(self)
        ensures
            self@.dom().finite(),
    {
        lemma_finitely_many(self.accounts@);
    }

    /// The balance of `account`: zero where it has no record. The ledger is
    /// left as it is, and no record is made.
    pub fn get_balance(&self, account: Principal) -> (balance: u64)
        ensures
            balance == balance_of(self@, account),
    {
        proof {
            use_type_invariant(self);
        }
        match position(&self.accounts, &account) {
            Some(at) => self.accounts[at].balance,
            None => 0,
        }
    }

    /// Adds `amount` tokens to `account`, whose record is made if there was
    /// none. Where the balance would pass `u64::MAX`, nothing changes and the
    /// error says so.
    pub fn mint(&mut self, account: Principal, amount: u64) -> (outcome: Result<(), LedgerError>)
        ensures
            match mint_outcome(old(self)@, account, amount) {
                Ok(after) => outcome == Ok::<(), LedgerError>(()) && final(self)@ == after,
                Err(error) => outcome == Err::<(), LedgerError>(error) && final(self)@ == old(
                    self,
                )@,
            },
            final(self)@ == apply(old(self)@, Operation::Mint { account, amount }),
            total_supply(final(self)@) == total_supply(old(self)@) + (if outcome is Ok {
                amount
            } else {
                0
            }),
    {
        proof {
            use_type_invariant(&*self);
            lemma_finitely_many(self.accounts@);
            if mint_outcome(self@, account, amount) is Ok {
                law_mint_raises_supply(self@, account, amount);
            }
        }
        let place = position(&self.accounts, &account);
        let raised: u64 = match credited(&self.accounts, place, amount) {
            Some(sum) => sum,
            None => {
                return Err(LedgerError::BalanceOverflow);
            },
        };
        // The records change outside the ledger, which is empty meanwhile.
        let mut accounts = Vec::new();
        std::mem::swap(&mut accounts, &mut self.accounts);
        store(&mut accounts, place, account, raised);
        self.accounts = accounts;
        Ok(())
    }

    /// Moves `amount` tokens from `from` to `to`, whose record is made if
    /// there was none. The sender must have a record and hold the amount, and
    /// the receiver's balance must not pass `u64::MAX`: otherwise nothing
    /// changes and the error says why. A transfer to oneself changes nothing.
    pub fn transfer(&mut self, from: Principal, to: Principal, amount: u64) -> (outcome: Result<
        (),
        LedgerError,
    >)
        ensures
            match transfer_outcome(old(self)@, from, to, amount) {
                Ok(after) => outcome == Ok::<(), LedgerError>(()) && final(self)@ == after,
                Err(error) => outcome == Err::<(), LedgerError>(error) && final(self)@ == old(
                    self,
                )@,
            },
            final(self)@ == apply(old(self)@, Operation::Transfer { from, to, amount }),
            total_supply(final(self)@) == total_supply(old(self)@),
    {
        proof {
            use_type_invariant(&*self);
            lemma_finitely_many(self.accounts@);
            law_transfer_keeps_supply(self@, from, to, amount);
        }
        let source: usize = match position(&self.accounts, &from) {
            Some(at) => at,
            None => {
                return Err(LedgerError::MissingSender);
            },
        };
        let held: u64 = self.accounts[source].balance;
        if held < amount {
            return Err(LedgerError::InsufficientFunds);
        }
        if same_principal(&from, &to) {
            return Ok(());
        }
        let target = position(&self.accounts, &to);
        let raised: u64 = match credited(&self.accounts, target, amount) {
            Some(sum) => sum,
            None => {
                return Err(LedgerError::BalanceOverflow);
            },
        };
        // The records change outside the ledger, which is empty meanwhile.
        let mut accounts = Vec::new();
        std::mem::swap(&mut accounts, &mut self.accounts);
        set_balance(&mut accounts, source, held - amount);
        store(&mut accounts, target, to, raised);
        self.accounts = accounts;
        Ok(())
    }
}

/// The record at `at` is that of `who`.
spec fn stands_at(records: Seq<Token>, who: Principal, at: int) -> bool {
    0 <= at < records.len() && records[at].owner == who
}

/// A place where the record of `who` stands, if it has one.
spec fn place_of(records: Seq<Token>, who: Principal) -> int {
    choose|at: int| stands_at(records, who, at)
}

/// The balances of a run of records: each owner with the balance of its record.
spec fn balances_of(records: Seq<Token>) -> Map<Principal, u64> {
    Map::new(
        |who: Principal| exists|at: int| stands_at(records, who, at),
        |who: Principal| records[place_of(records, who)].balance,
    )
}

/// No two records of the run have the same owner.
spec fn distinct_owners(records: Seq<Token>) -> bool {
    forall|i: int, j: int| 0 <= i < j < records.len() ==> records[i].owner != records[j].owner
}

/// Where the record of `who` stands among `records`, if there is one.
fn position(records: &Vec<Token>, who: &Principal) -> (found: Option<usize>)
    requires
        distinct_owners(records@),
    ensures
        match found {
            Some(at) => {
                &&& at < records@.len()
                &&& records@[at as int].owner == *who
                &&& balances_of(records@).dom().contains(*who)
                &&& balances_of(records@)[*who] == records@[at as int].balance
            },
            None => !balances_of(records@).dom().contains(*who),
        },
{
    let mut at: usize = 0;
    while at < records.len()
        invariant
            at <= records@.len(),
            distinct_owners(records@),
            forall|i: int| 0 <= i < at ==> !stands_at(records@, *who, i),
        decreases records@.len() - at,
    {
        if same_principal(&records[at].owner, who) {
            proof {
                lemma_record_is_balance(records@, at as int);
            }
            return Some(at);
        }
        at += 1;
    }
    None
}

/// Gives the record at `at` the balance `balance`.
fn set_balance(records: &mut Vec<Token>, at: usize, balance: u64)
    requires
        distinct_owners(old(records)@),
        at < old(records)@.len(),
    ensures
        final(records)@ == old(records)@.update(
            at as int,
            Token { owner: old(records)@[at as int].owner, balance },
        ),
        distinct_owners(final(records)@),
        balances_of(final(records)@) == balances_of(old(records)@).insert(
            old(records)@[at as int].owner,
            balance,
        ),
{
    records[at].balance = balance;
    proof {
        lemma_update_is_insert(old(records)@, at as int, records@[at as int]);
    }
}

/// What the record at `place` holds after `amount` more tokens, where no
/// record counts as an empty one: `None` if that would pass `u64::MAX`.
fn credited(records: &Vec<Token>, place: Option<usize>, amount: u64) -> (raised: Option<u64>)
    requires
        place matches Some(at) ==> at < records@.len(),
    ensures
        ({
            let held = match place {
                Some(at) => records@[at as int].balance,
                None => 0,
            };
            match raised {
                Some(sum) => sum == held + amount,
                None => held + amount > u64::MAX,
            }
        }),
{
    match place {
        Some(at) => records[at].balance.checked_add(amount),
        None => Some(amount),
    }
}

/// Stores `balance` for `who`: in its record at `place`, or in a new record
/// where it has none.
fn store(records: &mut Vec<Token>, place: Option<usize>, who: Principal, balance: u64)
    requires
        distinct_owners(old(records)@),
        match place {
            Some(at) => stands_at(old(records)@, who, at as int),
            None => !balances_of(old(records)@).dom().contains(who),
        },
    ensures
        distinct_owners(final(records)@),
        balances_of(final(records)@) == balances_of(old(records)@).insert(who, balance),
{
    match place {
        Some(at) => set_balance(records, at, balance),
        None => {
            let record = create_account(who, balance);
            proof {
                lemma_push_is_insert(records@, record);
            }
            records.push(record);
        },
    }
}

/// A run of records has finitely many owners.
proof fn lemma_finitely_many(records: Seq<Token>)
    ensures
        balances_of(records).dom().finite(),
    decreases records.len(),
{
    if records.len() == 0 {
        assert(balances_of(records).dom() =~= Set::<Principal>::empty());
    } else {
        let front = records.drop_last();
        let last = records.last().owner;
        lemma_finitely_many(front);
        assert forall|who: Principal|
            balances_of(records).dom().contains(who) <==> #[trigger] balances_of(
                front,
            ).dom().insert(last).contains(who) by {
            if balances_of(records).dom().contains(who) {
                let at = place_of(records, who);
                if at < front.len() {
                    assert(stands_at(front, who, at));
                }
            }
            if balances_of(front).dom().contains(who) {
                assert(stands_at(records, who, place_of(front, who)));
            }
            if who == last {
                assert(stands_at(records, who, records.len() - 1));
            }
        }
        assert(balances_of(records).dom() =~= balances_of(front).dom().insert(last));
    }
}

/// In a run with distinct owners, the balance of an owner is that of its record.
proof fn lemma_record_is_balance(records: Seq<Token>, at: int)
    requires
        distinct_owners(records),
        0 <= at < records.len(),
    ensures
        balances_of(records).dom().contains(records[at].owner),
        balances_of(records)[records[at].owner] == records[at].balance,
{
    let who = records[at].owner;
    assert(stands_at(records, who, at));
    assert(place_of(records, who) == at);
}

/// Replacing a record by one of the same owner stores the new balance under
/// that owner and touches nothing else.
proof fn lemma_update_is_insert(records: Seq<Token>, at: int, record: Token)
    requires
        distinct_owners(records),
        0 <= at < records.len(),
        record.owner == records[at].owner,
    ensures
        distinct_owners(records.update(at, record)),
        balances_of(records.update(at, record)) == balances_of(records).insert(
            record.owner,
            record.balance,
        ),
{
    let after = records.update(at, record);
    assert(forall|i: int| 0 <= i < records.len() ==> after[i].owner == records[i].owner);
    assert(distinct_owners(after));
    let expected = balances_of(records).insert(record.owner, record.balance);
    assert forall|who: Principal| #[trigger]
        balances_of(after).dom().contains(who) implies expected.dom().contains(who)
        && balances_of(after)[who] == expected[who] by {
        let place = place_of(after, who);
        assert(stands_at(after, who, place));
        lemma_record_is_balance(after, place);
        lemma_record_is_balance(records, place);
    }
    assert forall|who: Principal| #[trigger]
        expected.dom().contains(who) implies balances_of(after).dom().contains(who) by {
        if who == record.owner {
            lemma_record_is_balance(after, at);
        } else {
            let place = place_of(records, who);
            assert(stands_at(records, who, place));
            lemma_record_is_balance(after, place);
        }
    }
    assert(balances_of(after) =~= expected);
}

/// Appending the record of a new owner stores its balance under that owner and
/// touches nothing else.
proof fn lemma_push_is_insert(records: Seq<Token>, record: Token)
    requires
        distinct_owners(records),
        !balances_of(records).dom().contains(record.owner),
    ensures
        distinct_owners(records.push(record)),
        balances_of(records.push(record)) == balances_of(records).insert(
            record.owner,
            record.balance,
        ),
{
    let after = records.push(record);
    let last = records.len() as int;
    assert forall|i: int| 0 <= i < records.len() implies records[i].owner != record.owner by {
        if records[i].owner == record.owner {
            lemma_record_is_balance(records, i);
        }
    }
    assert(forall|i: int| 0 <= i < records.len() ==> after[i] == records[i]);
    assert(distinct_owners(after));
    let expected = balances_of(records).insert(record.owner, record.balance);
    assert forall|who: Principal| #[trigger]
        balances_of(after).dom().contains(who) implies expected.dom().contains(who)
        && balances_of(after)[who] == expected[who] by {
        let place = place_of(after, who);
        assert(stands_at(after, who, place));
        lemma_record_is_balance(after, place);
        if place < last {
            lemma_record_is_balance(records, place);
        }
    }
    assert forall|who: Principal| #[trigger]
        expected.dom().contains(who) implies balances_of(after).dom().contains(who) by {
        if who == record.owner {
            lemma_record_is_balance(after, last);
        } else {
            let place = place_of(records, who);
            assert(stands_at(records, who, place));
            lemma_record_is_balance(after, place);
        }
    }
    assert(balances_of(after) =~= expected);
}

} // verus!

//! The ledger: balances, the fee pool, and the transfer operation.
use crate::storage::{map_get, map_insert, map_len, map_new, stored, AccountId, Balance, BalanceMap};
use vstd::prelude::*;

verus! {

/// Why a transfer was refused. A refused transfer changes nothing.
///
/// Overflow policy: where a transfer would take the recipient's balance or the
/// fee pool past `u128::MAX`, or the number of stored accounts past what the
/// storage map can count (`u32::MAX`), it fails with `Overflow` instead of
/// wrapping or panicking.
#[derive(Debug, Clone, Copy, PartialEq, Eq, Structural)]
pub enum Error {
    /// The caller holds less than the amount asked for.
    InsufficientBalance,
    /// A balance, the fee pool or the account count would leave its range.
    Overflow,
}

/// The abstract state of a ledger.
pub struct LedgerState {
    /// The stored balances; an absent account holds zero.
    pub balances: Map<AccountId, Balance>,
    /// The sum of all fees ever deducted.
    pub fees: Balance,
}

impl LedgerState {
    /// Every reachable state stores finitely many accounts.
    pub open spec fn wf(self) -> bool {
        self.balances.dom().finite()
    }

    /// What an account holds: its stored balance, or zero when absent.
    pub open spec fn balance(self, a: AccountId) -> Balance {
        if self.balances.contains_key(a) {
            self.balances[a]
        } else {
            0
        }
    }
}

/// The balances that a list of (account, balance) entries stores, a later
/// entry for an account replacing an earlier one.
pub open spec fn balances_of(entries: Seq<(AccountId, Balance)>) -> Map<AccountId, Balance>
    decreases entries.len(),
{
    if entries.len() == 0 {
        Map::empty()
    } else {
        let (a, b) = entries.last();
        balances_of(entries.drop_last()).insert(a, b)
    }
}

/// The fee taken from a transfer: one percent, rounded down.
pub open spec fn fee_of(amount: Balance) -> Balance {
    amount / 100
}

/// What reaches the recipient of a transfer: the amount less the fee.
pub open spec fn credit_of(amount: Balance) -> Balance {
    (amount - fee_of(amount)) as Balance
}

/// The state once the caller has been debited the full amount.
pub open spec fn debited(s: LedgerState, caller: AccountId, amount: Balance) -> LedgerState {
    LedgerState {
        balances: s.balances.insert(caller, (s.balance(caller) - amount) as Balance),
        fees: s.fees,
    }
}

/// Whether a transfer would push the fee pool, the recipient's balance (read
/// after the debit) or the number of stored accounts out of range.
pub open spec fn out_of_range(
    s: LedgerState,
    caller: AccountId,
    recipient: AccountId,
    amount: Balance,
) -> bool {
    ||| s.fees + fee_of(amount) > u128::MAX
    ||| debited(s, caller, amount).balance(recipient) + credit_of(amount) > u128::MAX
    ||| s.balances.dom().insert(caller).insert(recipient).len() > u32::MAX
}

/// The state after a successful transfer: the caller is debited, then the
/// recipient is credited the amount less the fee, and the fee joins the pool.
pub open spec fn transferred(
    s: LedgerState,
    caller: AccountId,
    recipient: AccountId,
    amount: Balance,
) -> LedgerState {
    let d = debited(s, caller, amount);
    LedgerState {
        balances: d.balances.insert(recipient, (d.balance(recipient) + credit_of(amount)) as Balance),
        fees: (s.fees + fee_of(amount)) as Balance,
    }
}

/// The outcome of `transfer(caller, recipient, amount)` on state `s`, and the
/// state it leaves.
pub open spec fn transfer_outcome(
    s: LedgerState,
    caller: AccountId,
    recipient: AccountId,
    amount: Balance,
) -> (Result<(), Error>, LedgerState) {
    if s.balance(caller) < amount {
        (Err(Error::InsufficientBalance), s)
    } else if out_of_range(s, caller, recipient, amount) {
        (Err(Error::Overflow), s)
    } else {
        (Ok(()), transferred(s, caller, recipient, amount))
    }
}

/// Whether two account identities are the same, byte by byte.
fn same_account(a: &AccountId, b: &AccountId) -> (r: bool)
    ensures
        r == (*a == *b),
{
    let mut i: usize = 0;
    while i < 32
        invariant
            0 <= i <= 32,
            forall|j: int| 0 <= j < i ==> a@[j] == b@[j],
        decreases 32 - i,
    {
        if a[i] != b[i] {
            return false;
        }
        i = i + 1;
    }
    assert(a@ =~= b@);
    proof {
        vstd::array::axiom_array_ext_equal(*a, *b);
    }
    true
}

/// A ledger of account balances with a fee pool.
pub struct Remittance {
    balances: BalanceMap,
    fees: Balance,
}

impl View for Remittance {
    type V = LedgerState;

    closed spec fn view(&self) -> LedgerState {
        LedgerState { balances: stored(self.balances), fees: self.fees }
    }
}

impl Remittance {
    /// A ledger with no balances and an empty fee pool.
    pub fn new() -> (r: Self)
        ensures
            r@.wf(),
            r@.balances == Map::<AccountId, Balance>::empty(),
            r@.fees == 0,
    {
        Remittance { balances: map_new(), fees: 0 }
    }

    /// A ledger rebuilt from state that the host kept: each entry stores a
    /// balance for an account (a later entry for the same account wins), and
    /// the fee pool holds `fees`.
    pub fn restore(entries: &Vec<(AccountId, Balance)>, fees: Balance) -> (r: Self)
        requires
            entries@.len() <= u32::MAX,
        ensures
            r@.wf(),
            r@.balances == balances_of(entries@),
            r@.fees == fees,
    {
        let mut balances = map_new();
        let mut i: usize = 0;
        while i < entries.len()
            invariant
                i <= entries@.len() <= u32::MAX,
                stored(balances) == balances_of(entries@.take(i as int)),
                stored(balances).dom().finite(),
                stored(balances).dom().len() <= i,
            decreases entries@.len() - i,
        {
            let (account, amount) = entries[i];
            proof {
                assert(entries@.take(i + 1).drop_last() =~= entries@.take(i as int));
                if !stored(balances).contains_key(account) {
                    assert(stored(balances).dom().len() < u32::MAX);
                }
            }
            map_insert(&mut balances, account, amount);
            i = i + 1;
        }
        assert(entries@.take(i as int) =~= entries@);
        Remittance { balances, fees }
    }

    /// What `account` holds; zero for an account never stored.
    pub fn balance_of(&self, account: &AccountId) -> (r: Balance)
        ensures
            r == self@.balance(*account),
    {
        match map_get(&self.balances, account) {
            Some(b) => b,
            None => 0,
        }
    }

    /// The sum of all fees deducted so far.
    pub fn fees(&self) -> (r: Balance)
        ensures
            r == self@.fees,
    {
        self.fees
    }

    /// Moves `amount` from `caller` to `recipient`, keeping one percent
    /// (rounded down) as a fee in the pool. The caller is debited the full
    /// amount first, then the recipient is credited the rest, so a transfer
    /// to oneself costs exactly the fee. The caller's identity is taken as
    /// given: the host that invokes the ledger vouches for it.
    pub fn transfer(&mut self, caller: AccountId, recipient: AccountId, amount: Balance) -> (r:
        Result<(), Error>)
        requires
            old(self)@.wf(),
        ensures
            final(self)@.wf(),
            (r, final(self)@) == transfer_outcome(old(self)@, caller, recipient, amount),
    {
        let ghost s = self@;
        let caller_entry = map_get(&self.balances, &caller);
        let sender_balance: Balance = match caller_entry {
            Some(b) => b,
            None => 0,
        };
        if sender_balance < amount {
            return Err(Error::InsufficientBalance);
        }
        let fee: Balance = amount / 100;
        let transfer_amount: Balance = amount - fee;
        if fee > u128::MAX - self.fees {
            return Err(Error::Overflow);
        }
        let to_self = same_account(&caller, &recipient);
        let recipient_entry = if to_self {
            Some(sender_balance - amount)
        } else {
            map_get(&self.balances, &recipient)
        };
        let recipient_balance: Balance = match recipient_entry {
            Some(b) => b,
            None => 0,
        };
        assert(recipient_balance == debited(s, caller, amount).balance(recipient));
        if transfer_amount > u128::MAX - recipient_balance {
            return Err(Error::Overflow);
        }
        let stored_accounts: u32 = map_len(&self.balances);
        let mut accounts_after: u64 = stored_accounts as u64;
        if caller_entry.is_none() {
            accounts_after = accounts_after + 1;
        }
        if recipient_entry.is_none() {
            accounts_after = accounts_after + 1;
        }
        proof {
            let d = s.balances.dom();
            assert(d.insert(caller).finite());
            if to_self {
                assert(d.insert(caller).insert(recipient) == d.insert(caller));
            }
            assert(accounts_after == d.insert(caller).insert(recipient).len());
        }
        if accounts_after > u32::MAX as u64 {
            return Err(Error::Overflow);
        }
        map_insert(&mut self.balances, caller, sender_balance - amount);
        map_insert(&mut self.balances, recipient, recipient_balance + transfer_amount);
        self.fees = self.fees + fee;
        proof {
            assert(self@.balances == transferred(s, caller, recipient, amount).balances);
        }
        Ok(())
    }
}

} // verus!

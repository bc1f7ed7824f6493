//! Properties of the transfer operation, proved over its abstract outcome.
use crate::remittance::{credit_of, debited, fee_of, transfer_outcome, Error, LedgerState};
use crate::storage::{AccountId, Balance};
use vstd::prelude::*;

verus! {

/// What `m` holds for account `a`, as an integer; zero when absent.
pub open spec fn held(m: Map<AccountId, Balance>, a: AccountId) -> int {
    if m.contains_key(a) {
        m[a] as int
    } else {
        0
    }
}

/// The sum of what `m` holds over the accounts in `keys`.
pub open spec fn sum_held(m: Map<AccountId, Balance>, keys: Set<AccountId>) -> int
    decreases keys.len(),
{
    if keys.finite() && keys.len() > 0 {
        let k = keys.choose();
        held(m, k) + sum_held(m, keys.remove(k))
    } else {
        0
    }
}

/// All value in a ledger: every stored balance plus the fee pool.
pub open spec fn total_value(s: LedgerState) -> int {
    sum_held(s.balances, s.balances.dom()) + s.fees
}

/// The state after running the transfers `steps`, one after another, each
/// given as (caller, recipient, amount).
pub open spec fn run(s: LedgerState, steps: Seq<(AccountId, AccountId, Balance)>) -> LedgerState
    decreases steps.len(),
{
    if steps.len() == 0 {
        s
    } else {
        let (c, r, a) = steps[0];
        run(transfer_outcome(s, c, r, a).1, steps.drop_first())
    }
}

/// A sum may take out any one of its accounts first.
proof fn lemma_sum_take(m: Map<AccountId, Balance>, keys: Set<AccountId>, k: AccountId)
    requires
        keys.finite(),
        keys.contains(k),
    ensures
        sum_held(m, keys) == held(m, k) + sum_held(m, keys.remove(k)),
    decreases keys.len(),
{
    let c = keys.choose();
    if c != k {
        let rest = keys.remove(c);
        lemma_sum_take(m, rest, k);
        lemma_sum_take(m, keys.remove(k), c);
        assert(rest.remove(k) =~= keys.remove(k).remove(c));
    }
}

/// Sums over the same accounts agree where the maps agree on them.
proof fn lemma_sum_frame(m: Map<AccountId, Balance>, n: Map<AccountId, Balance>, keys: Set<AccountId>)
    requires
        keys.finite(),
        forall|k: AccountId| keys.contains(k) ==> held(m, k) == held(n, k),
    ensures
        sum_held(m, keys) == sum_held(n, keys),
    decreases keys.len(),
{
    if keys.len() > 0 {
        let k = keys.choose();
        lemma_sum_frame(m, n, keys.remove(k));
    }
}

/// Storing `v` under `a` changes the sum of all stored balances by the
/// difference between `v` and what `a` held.
proof fn lemma_sum_insert(m: Map<AccountId, Balance>, a: AccountId, v: Balance)
    requires
        m.dom().finite(),
    ensures
        sum_held(m.insert(a, v), m.insert(a, v).dom()) == sum_held(m, m.dom()) - held(m, a) + v,
{
    let n = m.insert(a, v);
    let d = m.dom();
    assert(n.dom() =~= d.insert(a));
    lemma_sum_take(n, d.insert(a), a);
    assert(d.insert(a).remove(a) =~= d.remove(a));
    lemma_sum_frame(n, m, d.remove(a));
    if d.contains(a) {
        lemma_sum_take(m, d, a);
    } else {
        assert(d.remove(a) =~= d);
    }
}

/// A single transfer neither creates nor destroys value: what leaves the
/// caller reaches the recipient or the fee pool.
pub proof fn lemma_transfer_conserves(
    s: LedgerState,
    caller: AccountId,
    recipient: AccountId,
    amount: Balance,
)
    requires
        s.wf(),
    ensures
        transfer_outcome(s, caller, recipient, amount).1.wf(),
        total_value(transfer_outcome(s, caller, recipient, amount).1) == total_value(s),
{
    if transfer_outcome(s, caller, recipient, amount).0 is Ok {
        let d = debited(s, caller, amount);
        lemma_sum_insert(s.balances, caller, (s.balance(caller) - amount) as Balance);
        lemma_sum_insert(
            d.balances,
            recipient,
            (d.balance(recipient) + credit_of(amount)) as Balance,
        );
    }
}

/// Any sequence of transfers keeps the sum of all balances plus the fee pool.
pub proof fn lemma_transfers_conserve(s: LedgerState, steps: Seq<(AccountId, AccountId, Balance)>)
    requires
        s.wf(),
    ensures
        run(s, steps).wf(),
        total_value(run(s, steps)) == total_value(s),
    decreases steps.len(),
{
    if steps.len() > 0 {
        let (c, r, a) = steps[0];
        lemma_transfer_conserves(s, c, r, a);
        lemma_transfers_conserve(transfer_outcome(s, c, r, a).1, steps.drop_first());
    }
}

/// No account ever holds a negative balance, whatever transfers were run.
pub proof fn lemma_no_negative_balance(
    s: LedgerState,
    steps: Seq<(AccountId, AccountId, Balance)>,
    a: AccountId,
)
    ensures
        run(s, steps).balance(a) >= 0,
        held(run(s, steps).balances, a) >= 0,
{
}

/// A refused transfer leaves the state exactly as it was, and it is refused
/// for want of balance exactly when the caller holds less than the amount.
pub proof fn lemma_refusal_changes_nothing(
    s: LedgerState,
    caller: AccountId,
    recipient: AccountId,
    amount: Balance,
)
    ensures
        transfer_outcome(s, caller, recipient, amount).0 is Err ==> transfer_outcome(
            s,
            caller,
            recipient,
            amount,
        ).1 == s,
        (transfer_outcome(s, caller, recipient, amount).0 == Err::<(), Error>(
            Error::InsufficientBalance,
        )) == (s.balance(caller) < amount),
{
}

/// A successful transfer takes the full amount from the caller, adds
/// `amount / 100` to the fee pool, gives the recipient `amount - amount / 100`,
/// and leaves every other account alone.
pub proof fn lemma_fee_split(s: LedgerState, caller: AccountId, recipient: AccountId, amount: Balance)
    requires
        transfer_outcome(s, caller, recipient, amount).0 is Ok,
    ensures
        ({
            let t = transfer_outcome(s, caller, recipient, amount).1;
            &&& fee_of(amount) == amount / 100
            &&& credit_of(amount) == amount - amount / 100
            &&& t.fees == s.fees + amount / 100
            &&& caller != recipient ==> t.balance(caller) == s.balance(caller) - amount
            &&& caller != recipient ==> t.balance(recipient) == s.balance(recipient) + (amount
                - amount / 100)
            &&& caller == recipient ==> t.balance(caller) == s.balance(caller) - amount / 100
            &&& forall|x: AccountId|
                x != caller && x != recipient ==> #[trigger] t.balance(x) == s.balance(x)
        }),
{
}

/// A transfer of zero succeeds and changes no balance and not the fee pool,
/// where the storage map has room for the two accounts.
pub proof fn lemma_zero_amount_noop(s: LedgerState, caller: AccountId, recipient: AccountId)
    requires
        s.balances.dom().insert(caller).insert(recipient).len() <= u32::MAX,
    ensures
        transfer_outcome(s, caller, recipient, 0).0 == Ok::<(), Error>(()),
        transfer_outcome(s, caller, recipient, 0).1.fees == s.fees,
        forall|x: AccountId| #[trigger]
            transfer_outcome(s, caller, recipient, 0).1.balance(x) == s.balance(x),
{
}

} // verus!

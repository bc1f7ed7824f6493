//! The balance map, held in an ink! storage hash map.
use vstd::prelude::*;

verus! {

/// An account identity: the 32 bytes of an ink! `AccountId`.
pub type AccountId = [u8; 32];

/// An amount of value held by an account.
pub type Balance = u128;

/// The balances, kept in an `ink_storage::collections::HashMap`.
#[verifier::external_body]
pub struct BalanceMap {
    inner: ink_storage::collections::HashMap<AccountId, Balance>,
}

/// The map with no entries.
pub open spec fn no_balances() -> Map<AccountId, Balance> {
    Map::empty()
}

/// The key-value pairs that a balance map holds.
pub uninterp spec fn stored(m: BalanceMap) -> Map<AccountId, Balance>;

/// Relies on `ink_storage::collections::HashMap::new`: a map with no entries.
#[verifier::external_body]
pub(crate) fn map_new() -> (r: BalanceMap)
    ensures
        stored(r) == no_balances(),
{
    BalanceMap { inner: ink_storage::collections::HashMap::new() }
}

/// Relies on `ink_storage::collections::HashMap::len`: the number of keys,
/// which the map counts in a `u32`.
#[verifier::external_body]
pub(crate) fn map_len(m: &BalanceMap) -> (r: u32)
    ensures
        stored(*m).dom().len() == r as nat,
{
    m.inner.len()
}

/// Relies on `ink_storage::collections::HashMap::get`: the value stored under
/// the key, if any.
#[verifier::external_body]
pub(crate) fn map_get(m: &BalanceMap, k: &AccountId) -> (r: Option<Balance>)
    ensures
        r == (if stored(*m).contains_key(*k) {
            Some(stored(*m)[*k])
        } else {
            None::<Balance>
        }),
{
    m.inner.get(k).copied()
}

/// Relies on `ink_storage::collections::HashMap::insert`: the key now maps to
/// the value, all other entries stay. A new key raises the map's `u32` key
/// count, which must not overflow.
#[verifier::external_body]
pub(crate) fn map_insert(m: &mut BalanceMap, k: AccountId, v: Balance)
    requires
        stored(*old(m)).contains_key(k) || stored(*old(m)).dom().len() < u32::MAX,
    ensures
        stored(*final(m)) == stored(*old(m)).insert(k, v),
{
    m.inner.insert(k, v);
}

} // verus!

//! A value-transfer ledger: account balances, a fee pool, and one verified
//! transfer operation that debits the caller, credits the recipient less a
//! one percent fee, and keeps the fee in the pool.
pub mod laws;
pub mod remittance;
pub mod storage;

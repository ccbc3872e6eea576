//! A deterministic fungible-token ledger.
//!
//! The ledger tracks balances and delegated spending allowances for a set of
//! accounts and enforces a fixed total-supply invariant across all mutations:
//! every operation is arithmetically safe, applies atomically, and leaves the
//! sum of all balances no greater than the declared total supply.

#![allow(non_snake_case)]

pub mod arith;
pub mod genesis;
pub mod ledger;
pub mod store;

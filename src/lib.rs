//! An in-memory fungible-token ledger: per-address balances, a fixed total
//! supply and delegated spending allowances, with every operation proved to
//! validate its inputs in a fixed order and to apply its effect atomically.

mod table;
mod laws;
mod ledger;

pub use laws::{
    after_call, after_calls, call_result, lemma_allowance_decrement, lemma_approve_overwrites,
    lemma_conservation, lemma_failure_changes_nothing, lemma_zero_default, writes_allowance,
    writes_balance, Call,
};
pub use ledger::{Address, Balance, LedgerModel, TokenError, TokenState};

//! A verified core for a household budget ledger: the transaction lifecycle
//! state machine, installment and recurrence expansion, and an in-memory
//! repository with soft-delete semantics.

mod clock;
pub mod dates;
pub mod domain;
pub mod handler;
mod ids;
pub mod installments;
pub mod laws;
pub mod recurrence;
pub mod store;

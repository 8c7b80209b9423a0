//! A batched invocation router: one authorised caller bundles several calls to
//! other contracts into a single operation, and decides per call whether a
//! failure aborts the whole batch or is handed back as data.
//!
//! The host's metering may abort any host call when the budget runs out; that
//! abort ends the whole contract invocation and is outside what is stated here.

mod host;
mod router;

pub use host::{
    address_from, bool_from, is_contract_address, may_give, raw_batch, symbol_from, vals_from,
    vals_of, Invocation,
};
pub use router::{
    lemma_fail_closed_failure_aborts, lemma_fault_tolerant_batch_completes,
    lemma_outcomes_in_request_order, answered, answers, answers_slot, batch_slots, decode, read_request, result_of, run,
    settle, settle_spec, witnesses, ExecError, Outcome,
    RouterV1, LEASE_EXTEND_TO, LEASE_THRESHOLD, LEDGERS_PER_DAY,
};

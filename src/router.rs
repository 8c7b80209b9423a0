use crate::host::{
    address_from, as_address, as_bool, as_symbol, as_vals, batch_values, bool_from, invalid_action,
    is_contract, is_contract_address, may_give, new_vals, push_val, raw_batch, symbol_from,
    try_dispatch, val_at, vals_from, vals_len, vals_of, Invocation,
};
use soroban_sdk::{Address, Env, Symbol, Val};
use vstd::prelude::*;

verus! {

/// Ledgers closed in a day, at five seconds a ledger.
pub const LEDGERS_PER_DAY: u32 = 17280;

/// The router's own state is refreshed when fewer ledgers than this are left.
pub const LEASE_THRESHOLD: u32 = LEDGERS_PER_DAY * 3;

/// How many ledgers the router's own state is kept for after a refresh.
pub const LEASE_EXTEND_TO: u32 = LEDGERS_PER_DAY * 7;

/// What one dispatch gave back: the callee's value, or its failure as a value.
#[derive(Clone, Copy, Debug)]
pub enum Outcome {
    Success(Val),
    Failure(Val),
}

impl Outcome {
    /// The value that the outcome carries, whichever it is.
    pub open spec fn value(self) -> Val {
        match self {
            Outcome::Success(v) => v,
            Outcome::Failure(v) => v,
        }
    }
}

/// Why a batch produced no result.
#[derive(Clone, Copy, Debug)]
pub enum ExecError {
    /// The element at this position is not a request.
    Malformed(u32),
    /// The fail-closed request at this position failed with this value.
    Aborted(u32, Val),
}

/// The request that a raw element of a batch stands for: a host vector of
/// exactly four values, an address, a symbol, a vector of arguments and a
/// boolean, in that order. Anything else is no request.
pub open spec fn decode(e: Env, x: Val) -> Option<Invocation> {
    match vals_from(e, x) {
        None => None,
        Some(fields) => {
            let f = vals_of(fields);
            if f.len() != 4 {
                None
            } else {
                match (address_from(e, f[0]), symbol_from(e, f[1]), vals_from(e, f[2]), bool_from(f[3])) {
                    (Some(target), Some(method), Some(args), Some(can_fail)) => Some(
                        (target, method, args, can_fail),
                    ),
                    _ => None,
                }
            }
        },
    }
}

/// What each position of a batch holds: the request, or `None` where the
/// element is not one.
pub open spec fn batch_slots(e: Env, v: soroban_sdk::Vec<Invocation>) -> Seq<Option<Invocation>> {
    raw_batch(v).map_values(|x: Val| decode(e, x))
}

/// Whether `o` is a possible outcome of dispatching `req`: what its contract
/// may give where the target is a contract, and a failure where it is not.
pub open spec fn answers(req: Invocation, o: Outcome) -> bool {
    if is_contract_address(req.0) {
        may_give(req.0, req.1, req.2, o)
    } else {
        o is Failure
    }
}

/// Whether `d` may be what the dispatches of `batch` gave when the batch ended
/// in `r`: one outcome per request dispatched, each a possible answer to its
/// request, none past the end of the batch, and `r` what `run` makes of them.
pub open spec fn witnesses(batch: Seq<Option<Invocation>>, d: Seq<Outcome>, r: Result<Seq<Val>, ExecError>) -> bool {
    &&& run(batch, d) == r
    &&& d.len() <= batch.len()
    &&& answered(batch, d)
}

/// Each outcome in `d` belongs to a request at the same position of `batch`,
/// and is a possible answer to it.
pub open spec fn answered(batch: Seq<Option<Invocation>>, d: Seq<Outcome>) -> bool {
    forall|j: int| 0 <= j < d.len() ==> answers_slot(batch[j], #[trigger] d[j])
}

/// Whether `o` is a possible outcome of dispatching what `slot` holds; no
/// outcome belongs to an element that is not a request.
pub open spec fn answers_slot(slot: Option<Invocation>, o: Outcome) -> bool {
    match slot {
        Some(req) => answers(req, o),
        None => false,
    }
}

/// Reads a raw element of a batch as a request.
pub fn read_request(e: &Env, x: Val) -> (r: Option<Invocation>)
    ensures
        r == decode(*e, x),
{
    let fields = match as_vals(e, x) {
        None => return None,
        Some(fields) => fields,
    };
    if vals_len(&fields) != 4 {
        return None;
    }
    let target = as_address(e, val_at(&fields, 0));
    let method = as_symbol(e, val_at(&fields, 1));
    let args = as_vals(e, val_at(&fields, 2));
    let can_fail = as_bool(e, val_at(&fields, 3));
    match (target, method, args, can_fail) {
        (Some(target), Some(method), Some(args), Some(can_fail)) => Some(
            (target, method, args, can_fail),
        ),
        _ => None,
    }
}

/// Dispatches one request whose target is `target`: a contract is called,
/// and any other address fails as a call the host cannot carry out would.
fn dispatch(e: &Env, target: &Address, method: &Symbol, args: soroban_sdk::Vec<Val>) -> (r: Outcome)
    ensures
        answers((*target, *method, args, true), r),
{
    if is_contract(target) {
        try_dispatch(e, target, method, args)
    } else {
        Outcome::Failure(invalid_action())
    }
}

/// The result of a batch once the results of the earlier requests are `done`
/// and dispatching the request at `index`, whose fault tolerance is
/// `can_fail`, gave `outcome`.
pub open spec fn settle_spec(done: Seq<Val>, can_fail: bool, outcome: Outcome, index: int) -> Result<
    Seq<Val>,
    ExecError,
> {
    match outcome {
        Outcome::Success(v) => Ok(done.push(v)),
        Outcome::Failure(err) => if can_fail {
            Ok(done.push(err))
        } else {
            Err(ExecError::Aborted(index as u32, err))
        },
    }
}

/// The result of a batch whose `i`-th dispatch gave `dispatched[i]`: requests
/// are settled in order, and the first that is malformed or fails closed ends
/// the batch with that error.
pub open spec fn run(batch: Seq<Option<Invocation>>, dispatched: Seq<Outcome>) -> Result<
    Seq<Val>,
    ExecError,
>
    decreases batch.len(),
{
    if batch.len() == 0 {
        Ok(Seq::empty())
    } else {
        let last = batch.len() - 1;
        match run(batch.take(last), dispatched) {
            Err(e) => Err(e),
            Ok(done) => match batch[last] {
                None => Err(ExecError::Malformed(last as u32)),
                Some(req) => settle_spec(done, req.3, dispatched[last], last),
            },
        }
    }
}

/// A batch's result as plain values.
pub open spec fn result_of(r: Result<soroban_sdk::Vec<Val>, ExecError>) -> Result<Seq<Val>, ExecError> {
    match r {
        Ok(v) => Ok(vals_of(v)),
        Err(e) => Err(e),
    }
}

/// Settles the request at `index` of a batch, given what dispatching it gave.
/// A success, or a captured failure of a fault-tolerant request, is appended
/// to `results`; the failure of a fail-closed request leaves `results` as it
/// was and is returned as the error.
pub fn settle(results: &mut soroban_sdk::Vec<Val>, can_fail: bool, outcome: Outcome, index: u32) -> (r: Result<
    (),
    ExecError,
>)
    ensures
        match settle_spec(vals_of(*old(results)), can_fail, outcome, index as int) {
            Ok(done) => r is Ok && vals_of(*final(results)) == done,
            Err(e) => r == Err::<(), ExecError>(e) && *final(results) == *old(results),
        },
{
    match outcome {
        Outcome::Success(v) => {
            push_val(results, v);
            Ok(())
        },
        Outcome::Failure(err) => {
            if can_fail {
                push_val(results, err);
                Ok(())
            } else {
                Err(ExecError::Aborted(index, err))
            }
        },
    }
}

/// `run` reads no dispatch result past the end of the batch.
proof fn lemma_run_reads_batch_prefix(batch: Seq<Option<Invocation>>, d1: Seq<Outcome>, d2: Seq<Outcome>)
    requires
        forall|j: int| 0 <= j < batch.len() ==> d1[j] == d2[j],
    ensures
        run(batch, d1) == run(batch, d2),
    decreases batch.len(),
{
    if batch.len() > 0 {
        lemma_run_reads_batch_prefix(batch.take(batch.len() - 1), d1, d2);
    }
}

/// Once a prefix of the batch has ended in an error, the whole batch ends in it.
proof fn lemma_run_error_is_final(batch: Seq<Option<Invocation>>, d: Seq<Outcome>, k: int)
    requires
        0 <= k <= batch.len(),
        run(batch.take(k), d) is Err,
    ensures
        run(batch, d) == run(batch.take(k), d),
    decreases batch.len(),
{
    if k == batch.len() {
        assert(batch.take(k) =~= batch);
    } else {
        let last = batch.len() - 1;
        assert(batch.take(last).take(k) =~= batch.take(k));
        lemma_run_error_is_final(batch.take(last), d, k);
    }
}

/// An error of a batch names the request that caused it: an element that is
/// not a request, or a fail-closed request whose dispatch failed with the
/// error's value.
proof fn lemma_error_names_its_request(batch: Seq<Option<Invocation>>, d: Seq<Outcome>)
    requires
        batch.len() <= u32::MAX as int + 1,
    ensures
        run(batch, d) matches Err(ExecError::Malformed(i)) ==> (i < batch.len()
            && batch[i as int] is None),
        run(batch, d) matches Err(ExecError::Aborted(i, err)) ==> (i < batch.len()
            && (batch[i as int] matches Some(req) && !req.3)
            && d[i as int] == Outcome::Failure(err)),
    decreases batch.len(),
{
    if batch.len() > 0 {
        let last = batch.len() - 1;
        let prefix = batch.take(last);
        lemma_error_names_its_request(prefix, d);
        if run(prefix, d) is Err {
            if let Err(ExecError::Malformed(i)) = run(prefix, d) {
                assert(prefix[i as int] == batch[i as int]);
            }
            if let Err(ExecError::Aborted(i, _)) = run(prefix, d) {
                assert(prefix[i as int] == batch[i as int]);
            }
        }
    }
}

/// A batch whose requests are all well formed and fault tolerant always
/// completes, with one result per request, whatever each dispatch gave.
pub proof fn lemma_fault_tolerant_batch_completes(batch: Seq<Option<Invocation>>, d: Seq<Outcome>)
    requires
        forall|i: int| 0 <= i < batch.len() ==> (#[trigger] batch[i] matches Some(req) && req.3),
    ensures
        run(batch, d) matches Ok(rs) && rs.len() == batch.len(),
    decreases batch.len(),
{
    if batch.len() > 0 {
        let last = batch.len() - 1;
        let prefix = batch.take(last);
        assert forall|i: int| 0 <= i < prefix.len() implies (#[trigger] prefix[i] matches Some(req)
            && req.3) by {
            assert(prefix[i] == batch[i]);
        }
        lemma_fault_tolerant_batch_completes(prefix, d);
        assert(batch[last] matches Some(req) && req.3);
    }
}

/// When a fail-closed request fails, the batch yields no result at all.
pub proof fn lemma_fail_closed_failure_aborts(batch: Seq<Option<Invocation>>, d: Seq<Outcome>, i: int)
    requires
        0 <= i < batch.len(),
        batch[i] matches Some(req) && !req.3,
        d[i] is Failure,
    ensures
        run(batch, d) is Err,
{
    let upto = batch.take(i + 1);
    assert(upto.take(i) =~= batch.take(i));
    assert(upto[i] == batch[i]);
    assert(run(upto, d) is Err);
    lemma_run_error_is_final(batch, d, i + 1);
}

/// A completed batch holds one value per request, in the order of the
/// requests: the value at position `i` is what the `i`-th dispatch gave,
/// success or captured failure.
pub proof fn lemma_outcomes_in_request_order(batch: Seq<Option<Invocation>>, d: Seq<Outcome>)
    ensures
        run(batch, d) matches Ok(rs) ==> rs.len() == batch.len() && forall|j: int|
            0 <= j < batch.len() ==> #[trigger] rs[j] == d[j].value(),
    decreases batch.len(),
{
    if batch.len() > 0 {
        lemma_outcomes_in_request_order(batch.take(batch.len() - 1), d);
    }
}

/// The router. Its state beyond a batch is only the retention window of its
/// own storage, which the contract entry point refreshes.
pub struct RouterV1;

impl RouterV1 {
    /// Dispatches each request of `invocations` in order and collects what
    /// each gave: the value of a success, and the error value of a failed
    /// fault-tolerant request. A failed fail-closed request, or an element
    /// that is not a request, ends the batch with an error and no result, and
    /// nothing after it is dispatched.
    pub fn exec(e: &Env, invocations: &soroban_sdk::Vec<Invocation>) -> (r: Result<
        soroban_sdk::Vec<Val>,
        ExecError,
    >)
        ensures
            exists|d: Seq<Outcome>| #[trigger] witnesses(batch_slots(*e, *invocations), d, result_of(r)),
            batch_slots(*e, *invocations).len() == 0 ==> (r matches Ok(v) && vals_of(v) == Seq::<
                Val,
            >::empty()),
            (forall|i: int|
                0 <= i < batch_slots(*e, *invocations).len() ==> (#[trigger] batch_slots(
                    *e,
                    *invocations,
                )[i] matches Some(req) && req.3)) ==> (r matches Ok(v) && vals_of(v).len()
                == batch_slots(*e, *invocations).len()),
            r matches Ok(v) ==> vals_of(v).len() == batch_slots(*e, *invocations).len(),
            r matches Err(ExecError::Malformed(i)) ==> (i < batch_slots(*e, *invocations).len()
                && batch_slots(*e, *invocations)[i as int] is None),
            r matches Err(ExecError::Aborted(i, _)) ==> (i < batch_slots(*e, *invocations).len()
                && (batch_slots(*e, *invocations)[i as int] matches Some(req) && !req.3)),
    {
        let ghost slots = batch_slots(*e, *invocations);
        let raw = batch_values(invocations);
        let n = vals_len(&raw);
        let mut results = new_vals(e);
        let ghost mut d: Seq<Outcome> = Seq::empty();
        let mut i: u32 = 0;
        while i < n
            invariant
                n as int == slots.len(),
                slots == batch_slots(*e, *invocations),
                vals_of(raw) == raw_batch(*invocations),
                i <= n,
                d.len() == i,
                answered(slots, d),
                run(slots.take(i as int), d) == Ok::<Seq<Val>, ExecError>(vals_of(results)),
            decreases n - i,
        {
            let ghost before = d;
            assert(slots.take(i + 1).take(i as int) =~= slots.take(i as int));
            assert(slots[i as int] == decode(*e, vals_of(raw)[i as int]));
            match read_request(e, val_at(&raw, i)) {
                None => {
                    proof {
                        lemma_run_error_is_final(slots, d, i + 1);
                        lemma_error_names_its_request(slots, d);
                        assert(witnesses(slots, d, Err(ExecError::Malformed(i))));
                    }
                    return Err(ExecError::Malformed(i));
                },
                Some((target, method, args, can_fail)) => {
                    let ghost req = (target, method, args, can_fail);
                    let outcome = dispatch(e, &target, &method, args);
                    let step = settle(&mut results, can_fail, outcome, i);
                    proof {
                        d = d.push(outcome);
                        lemma_run_reads_batch_prefix(slots.take(i as int), before, d);
                        assert(slots[i as int] == Some(req));
                        assert(answers(req, d[i as int]));
                        assert forall|j: int| 0 <= j < d.len() implies answers_slot(
                            slots[j],
                            #[trigger] d[j],
                        ) by {
                            if j < i {
                                assert(d[j] == before[j]);
                            }
                        }
                    }
                    if let Err(err) = step {
                        proof {
                            lemma_run_error_is_final(slots, d, i + 1);
                            lemma_error_names_its_request(slots, d);
                            assert(witnesses(slots, d, Err(err)));
                        }
                        return Err(err);
                    }
                },
            }
            i = i + 1;
        }
        proof {
            assert(slots.take(n as int) =~= slots);
            lemma_outcomes_in_request_order(slots, d);
            if forall|j: int| 0 <= j < slots.len() ==> (#[trigger] slots[j] matches Some(req)
                && req.3) {
                lemma_fault_tolerant_batch_completes(slots, d);
            }
            assert(witnesses(slots, d, Ok(vals_of(results))));
        }
        Ok(results)
    }
}

} // verus!

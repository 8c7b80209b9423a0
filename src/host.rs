use soroban_sdk::xdr::{ScErrorCode, ScErrorType};
use soroban_sdk::address_payload::AddressPayload;
use soroban_sdk::{Address, Env, Symbol, TryFromVal, Val};
use vstd::prelude::*;

verus! {

#[verifier::external_type_specification]
#[verifier::external_body]
pub struct ExEnv(Env);

#[verifier::external_type_specification]
#[verifier::external_body]
pub struct ExAddress(Address);

#[verifier::external_type_specification]
#[verifier::external_body]
pub struct ExSymbol(Symbol);

#[verifier::external_type_specification]
#[verifier::external_body]
pub struct ExVal(Val);

#[verifier::external_type_specification]
#[verifier::external_body]
#[verifier::reject_recursive_types(T)]
pub struct ExHostVec<T>(soroban_sdk::Vec<T>);

/// One request of a batch: the target contract, the method to call on it, the
/// arguments, and whether a failure of the call is captured (`true`) or aborts
/// the batch (`false`).
pub type Invocation = (Address, Symbol, soroban_sdk::Vec<Val>, bool);

/// The values that a host vector of raw values holds, in order.
pub uninterp spec fn vals_of(v: soroban_sdk::Vec<Val>) -> Seq<Val>;

/// The elements of a batch as raw values, before any conversion.
pub uninterp spec fn raw_batch(v: soroban_sdk::Vec<Invocation>) -> Seq<Val>;

/// The host vector that a raw value refers to, if it refers to one.
pub uninterp spec fn vals_from(e: Env, x: Val) -> Option<soroban_sdk::Vec<Val>>;

/// The address that a raw value refers to, if it refers to one.
pub uninterp spec fn address_from(e: Env, x: Val) -> Option<Address>;

/// The symbol that a raw value holds, if it holds one.
pub uninterp spec fn symbol_from(e: Env, x: Val) -> Option<Symbol>;

/// The boolean that a raw value holds, if it holds one.
pub uninterp spec fn bool_from(x: Val) -> Option<bool>;

/// Whether an address is that of a contract, as opposed to an account.
pub uninterp spec fn is_contract_address(a: Address) -> bool;

/// Whether calling `method` on the contract `target` with `args` may give
/// `o`. What a call gives depends on the ledger, so this is a relation.
pub uninterp spec fn may_give(
    target: Address,
    method: Symbol,
    args: soroban_sdk::Vec<Val>,
    o: crate::router::Outcome,
) -> bool;

/// Relies on `soroban_sdk::Vec::new`: a fresh host vector is empty.
#[verifier::external_body]
pub(crate) fn new_vals(e: &Env) -> (r: soroban_sdk::Vec<Val>)
    ensures
        vals_of(r) == Seq::<Val>::empty(),
{
    soroban_sdk::Vec::new(e)
}

/// Relies on `soroban_sdk::Vec::push_back`: the value is appended at the end.
#[verifier::external_body]
pub(crate) fn push_val(v: &mut soroban_sdk::Vec<Val>, x: Val)
    ensures
        vals_of(*final(v)) == vals_of(*old(v)).push(x),
{
    v.push_back(x)
}

/// Relies on `soroban_sdk::Vec::len`: the number of elements of the vector.
#[verifier::external_body]
pub(crate) fn vals_len(v: &soroban_sdk::Vec<Val>) -> (r: u32)
    ensures
        r as int == vals_of(*v).len(),
{
    v.len()
}

/// Relies on `soroban_sdk::Vec::get_unchecked`: inside the bounds it gives the
/// element; converting a raw value to a raw value cannot fail.
#[verifier::external_body]
pub(crate) fn val_at(v: &soroban_sdk::Vec<Val>, i: u32) -> (r: Val)
    requires
        (i as int) < vals_of(*v).len(),
    ensures
        r == vals_of(*v)[i as int],
{
    v.get_unchecked(i)
}

/// Relies on `soroban_sdk::Vec::to_vals`: the same host vector, with its
/// elements read as raw values.
#[verifier::external_body]
pub(crate) fn batch_values(v: &soroban_sdk::Vec<Invocation>) -> (r: soroban_sdk::Vec<Val>)
    ensures
        vals_of(r) == raw_batch(*v),
{
    v.to_vals()
}

/// Relies on `TryFromVal<Env, Val>` for `soroban_sdk::Vec<Val>`: it checks
/// only that the value refers to a host vector, and fails otherwise.
#[verifier::external_body]
pub(crate) fn as_vals(e: &Env, x: Val) -> (r: Option<soroban_sdk::Vec<Val>>)
    ensures
        r == vals_from(*e, x),
{
    soroban_sdk::Vec::<Val>::try_from_val(e, &x).ok()
}

/// Relies on `TryFromVal<Env, Val>` for `Address`: it checks only that the
/// value refers to an address, and fails otherwise.
#[verifier::external_body]
pub(crate) fn as_address(e: &Env, x: Val) -> (r: Option<Address>)
    ensures
        r == address_from(*e, x),
{
    Address::try_from_val(e, &x).ok()
}

/// Relies on `TryFromVal<Env, Val>` for `Symbol`: it checks only that the
/// value holds a symbol, and fails otherwise.
#[verifier::external_body]
pub(crate) fn as_symbol(e: &Env, x: Val) -> (r: Option<Symbol>)
    ensures
        r == symbol_from(*e, x),
{
    Symbol::try_from_val(e, &x).ok()
}

/// Relies on `TryFromVal<Env, Val>` for `bool`: it reads the value's tag, and
/// fails on any tag but true and false.
#[verifier::external_body]
pub(crate) fn as_bool(e: &Env, x: Val) -> (r: Option<bool>)
    ensures
        r == bool_from(x),
{
    bool::try_from_val(e, &x).ok()
}

/// Relies on `Address::to_payload`: it tells a contract address from an
/// account address.
#[verifier::external_body]
pub(crate) fn is_contract(a: &Address) -> (r: bool)
    ensures
        r == is_contract_address(*a),
{
    match a.to_payload() {
        Some(AddressPayload::ContractIdHash(_)) => true,
        Some(AddressPayload::AccountIdPublicKeyEd25519(_)) => false,
        None => false,
    }
}

/// Relies on `soroban_sdk::Error::from_type_and_code`: the error value that
/// the host itself hands back for a call it could not carry out.
#[verifier::external_body]
pub(crate) fn invalid_action() -> (r: Val) {
    soroban_sdk::Error::from_type_and_code(ScErrorType::Context, ScErrorCode::InvalidAction).to_val()
}

/// Relies on `Env::try_invoke_contract`: on a contract address it calls
/// `method` on `target` with `args` and hands back the callee's failure as a
/// value instead of aborting. With `Val` as both result types neither inner
/// conversion can fail: `Val` to `Val` is the identity, and the error side
/// converts infallibly.
#[verifier::external_body]
pub(crate) fn try_dispatch(
    e: &Env,
    target: &Address,
    method: &Symbol,
    args: soroban_sdk::Vec<Val>,
) -> (r: crate::router::Outcome)
    requires
        is_contract_address(*target),
    ensures
        may_give(*target, *method, args, r),
{
    match e.try_invoke_contract::<Val, Val>(target, method, args) {
        Ok(v) => crate::router::Outcome::Success(v.unwrap()),
        Err(err) => crate::router::Outcome::Failure(err.unwrap()),
    }
}

} // verus!

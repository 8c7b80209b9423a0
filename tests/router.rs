use router_v1::{
    read_request, ExecError, Invocation, Outcome, RouterV1, LEASE_EXTEND_TO, LEASE_THRESHOLD,
};
use soroban_sdk::address_payload::AddressPayload;
use soroban_sdk::testutils::Address as _;
use soroban_sdk::token::{StellarAssetClient, TokenClient};
use soroban_sdk::testutils::EnvTestConfig;
use soroban_sdk::{Address, BytesN, Env, IntoVal, Symbol, TryFromVal, Val, Vec};

fn test_env() -> Env {
    Env::new_with_config(EnvTestConfig {
        capture_snapshot_at_drop: false,
    })
}

fn new_asset(e: &Env) -> Address {
    let admin = Address::generate(e);
    e.register_stellar_asset_contract_v2(admin).address()
}

fn transfer(e: &Env, asset: &Address, from: &Address, to: &Address, amount: i128, can_fail: bool) -> Invocation {
    let mut args: Vec<Val> = Vec::new(e);
    args.push_back(from.into_val(e));
    args.push_back(to.into_val(e));
    args.push_back(amount.into_val(e));
    (asset.clone(), Symbol::new(e, "transfer"), args, can_fail)
}

fn balance_query(e: &Env, asset: &Address, holder: &Address, can_fail: bool) -> Invocation {
    let mut args: Vec<Val> = Vec::new(e);
    args.push_back(holder.into_val(e));
    (asset.clone(), Symbol::new(e, "balance"), args, can_fail)
}

fn as_i128(e: &Env, v: Val) -> i128 {
    i128::try_from_val(e, &v).unwrap()
}

#[test]
fn captured_failure_does_not_stop_later_requests() {
    let e = test_env();
    e.mock_all_auths();
    let asset_x = new_asset(&e);
    let asset_y = new_asset(&e);
    let user_1 = Address::generate(&e);
    let user_2 = Address::generate(&e);
    StellarAssetClient::new(&e, &asset_y).mint(&user_1, &1_000_000_000i128);

    let mut batch: Vec<Invocation> = Vec::new(&e);
    batch.push_back(transfer(&e, &asset_x, &user_1, &user_2, 1_000_000_000, true));
    batch.push_back(transfer(&e, &asset_y, &user_1, &user_2, 1_000_000_000, false));

    let results = RouterV1::exec(&e, &batch).unwrap();
    assert_eq!(results.len(), 2);
    assert!(soroban_sdk::Error::try_from_val(&e, &results.get(0).unwrap()).is_ok());
    assert!(soroban_sdk::Error::try_from_val(&e, &results.get(1).unwrap()).is_err());
    let usdx = TokenClient::new(&e, &asset_y);
    assert_eq!(usdx.balance(&user_1), 0);
    assert_eq!(usdx.balance(&user_2), 1_000_000_000i128);
}

#[test]
fn six_balance_queries_come_back_in_order() {
    let e = test_env();
    e.mock_all_auths();
    let holder = Address::generate(&e);
    let amounts: [i128; 6] = [544759634, 161401360, 583214421, 296723247, 515925866, 6192131];
    let mut assets = std::vec::Vec::new();
    let mut batch: Vec<Invocation> = Vec::new(&e);
    for amount in amounts {
        let asset = new_asset(&e);
        StellarAssetClient::new(&e, &asset).mint(&holder, &amount);
        batch.push_back(balance_query(&e, &asset, &holder, false));
        assets.push(asset);
    }

    let balances = RouterV1::exec(&e, &batch).unwrap();
    assert_eq!(balances.len(), 6);
    for (i, amount) in amounts.iter().enumerate() {
        let got = as_i128(&e, balances.get(i as u32).unwrap());
        assert_eq!(got, *amount);
        assert_eq!(got, TokenClient::new(&e, &assets[i]).balance(&holder));
    }
}

#[test]
fn empty_batch_gives_empty_result() {
    let e = test_env();
    let batch: Vec<Invocation> = Vec::new(&e);
    let results = RouterV1::exec(&e, &batch).unwrap();
    assert_eq!(results.len(), 0);
}

#[test]
fn all_fault_tolerant_failures_still_complete() {
    let e = test_env();
    e.mock_all_auths();
    let asset = new_asset(&e);
    let user_1 = Address::generate(&e);
    let user_2 = Address::generate(&e);
    let mut batch: Vec<Invocation> = Vec::new(&e);
    batch.push_back(transfer(&e, &asset, &user_1, &user_2, 5, true));
    batch.push_back(balance_query(&e, &asset, &user_2, true));
    batch.push_back(transfer(&e, &asset, &user_2, &user_1, 7, true));

    let results = RouterV1::exec(&e, &batch).unwrap();
    assert_eq!(results.len(), 3);
    assert!(soroban_sdk::Error::try_from_val(&e, &results.get(0).unwrap()).is_ok());
    assert_eq!(as_i128(&e, results.get(1).unwrap()), 0);
    assert!(soroban_sdk::Error::try_from_val(&e, &results.get(2).unwrap()).is_ok());
}

#[test]
fn fail_closed_failure_aborts_the_batch() {
    let e = test_env();
    e.mock_all_auths();
    let asset = new_asset(&e);
    let user_1 = Address::generate(&e);
    let user_2 = Address::generate(&e);
    let mut batch: Vec<Invocation> = Vec::new(&e);
    batch.push_back(balance_query(&e, &asset, &user_1, true));
    batch.push_back(transfer(&e, &asset, &user_1, &user_2, 5, false));
    batch.push_back(balance_query(&e, &asset, &user_2, true));

    let r = RouterV1::exec(&e, &batch);
    assert!(matches!(r, Err(ExecError::Aborted(1, _))));
}

#[test]
fn unknown_method_is_an_ordinary_failure() {
    let e = test_env();
    let asset = new_asset(&e);
    let args: Vec<Val> = Vec::new(&e);
    let mut batch: Vec<Invocation> = Vec::new(&e);
    batch.push_back((asset.clone(), Symbol::new(&e, "no_such_fn"), args.clone(), true));
    let results = RouterV1::exec(&e, &batch).unwrap();
    assert_eq!(results.len(), 1);

    let mut batch: Vec<Invocation> = Vec::new(&e);
    batch.push_back((asset, Symbol::new(&e, "no_such_fn"), args, false));
    assert!(matches!(RouterV1::exec(&e, &batch), Err(ExecError::Aborted(0, _))));
}

#[test]
fn element_that_is_not_a_request_is_malformed() {
    let e = test_env();
    let mut raw: Vec<Val> = Vec::new(&e);
    raw.push_back(7u32.into_val(&e));
    let batch: Vec<Invocation> = Vec::try_from_val(&e, &raw.to_val()).unwrap();
    assert!(matches!(RouterV1::exec(&e, &batch), Err(ExecError::Malformed(0))));
}

#[test]
fn settle_appends_success() {
    let e = test_env();
    let mut results: Vec<Val> = Vec::new(&e);
    let r = router_v1::settle(&mut results, false, Outcome::Success(42i128.into_val(&e)), 0);
    assert!(r.is_ok());
    assert_eq!(results.len(), 1);
    assert_eq!(as_i128(&e, results.get(0).unwrap()), 42);
}

#[test]
fn settle_captures_fault_tolerant_failure() {
    let e = test_env();
    let mut results: Vec<Val> = Vec::new(&e);
    let r = router_v1::settle(&mut results, true, Outcome::Failure(9u32.into_val(&e)), 3);
    assert!(r.is_ok());
    assert_eq!(results.len(), 1);
    assert_eq!(u32::try_from_val(&e, &results.get(0).unwrap()).unwrap(), 9);
}

#[test]
fn settle_rejects_fail_closed_failure() {
    let e = test_env();
    let mut results: Vec<Val> = Vec::new(&e);
    results.push_back(1u32.into_val(&e));
    let r = router_v1::settle(&mut results, false, Outcome::Failure(9u32.into_val(&e)), 3);
    match r {
        Err(ExecError::Aborted(index, err)) => {
            assert_eq!(index, 3);
            assert_eq!(u32::try_from_val(&e, &err).unwrap(), 9);
        }
        _ => panic!("expected an abort"),
    }
    assert_eq!(results.len(), 1);
}

#[test]
fn lease_window_is_three_to_seven_days() {
    assert_eq!(LEASE_THRESHOLD, 51840);
    assert_eq!(LEASE_EXTEND_TO, 120960);
}

fn account(e: &Env) -> Address {
    AddressPayload::AccountIdPublicKeyEd25519(BytesN::from_array(e, &[7u8; 32])).to_address(e)
}

fn batch_of_raw(e: &Env, element: Val) -> Vec<Invocation> {
    let mut raw: Vec<Val> = Vec::new(e);
    raw.push_back(element);
    Vec::try_from_val(e, &raw.to_val()).unwrap()
}

#[test]
fn three_item_element_is_malformed() {
    let e = test_env();
    let asset = new_asset(&e);
    let mut fields: Vec<Val> = Vec::new(&e);
    fields.push_back(asset.into_val(&e));
    fields.push_back(Symbol::new(&e, "balance").into_val(&e));
    fields.push_back(true.into_val(&e));
    let batch = batch_of_raw(&e, fields.to_val());
    assert!(matches!(RouterV1::exec(&e, &batch), Err(ExecError::Malformed(0))));
}

#[test]
fn element_with_wrong_field_type_is_malformed() {
    let e = test_env();
    let asset = new_asset(&e);
    let mut fields: Vec<Val> = Vec::new(&e);
    fields.push_back(asset.into_val(&e));
    fields.push_back(Symbol::new(&e, "balance").into_val(&e));
    fields.push_back(Vec::<Val>::new(&e).into_val(&e));
    fields.push_back(5u32.into_val(&e));
    assert!(read_request(&e, fields.to_val()).is_none());
    let batch = batch_of_raw(&e, fields.to_val());
    assert!(matches!(RouterV1::exec(&e, &batch), Err(ExecError::Malformed(0))));
}

#[test]
fn read_request_gives_the_four_fields() {
    let e = test_env();
    let asset = new_asset(&e);
    let holder = Address::generate(&e);
    let request = balance_query(&e, &asset, &holder, true);
    let raw: Val = request.clone().into_val(&e);
    let (target, method, args, can_fail) = read_request(&e, raw).unwrap();
    assert_eq!(target, asset);
    assert_eq!(method, Symbol::new(&e, "balance"));
    assert_eq!(args.len(), 1);
    assert_eq!(Address::try_from_val(&e, &args.get(0).unwrap()).unwrap(), holder);
    assert!(can_fail);
}

#[test]
fn account_target_is_an_ordinary_failure() {
    let e = test_env();
    let target = account(&e);
    let args: Vec<Val> = Vec::new(&e);
    let mut batch: Vec<Invocation> = Vec::new(&e);
    batch.push_back((target.clone(), Symbol::new(&e, "balance"), args.clone(), true));
    let results = RouterV1::exec(&e, &batch).unwrap();
    assert_eq!(results.len(), 1);
    assert!(soroban_sdk::Error::try_from_val(&e, &results.get(0).unwrap()).is_ok());

    let mut batch: Vec<Invocation> = Vec::new(&e);
    batch.push_back((target, Symbol::new(&e, "balance"), args, false));
    assert!(matches!(RouterV1::exec(&e, &batch), Err(ExecError::Aborted(0, _))));
}

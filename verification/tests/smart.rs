use cosmwasm_std::testing::mock_dependencies;
use cosmwasm_std::{
    from_json, to_json_binary, ContractResult, QuerierResult, StdError, SystemError, SystemResult,
    Uint128, WasmQuery,
};
use cw20::{BalanceResponse, Cw20QueryMsg};
use cw721::{Cw721QueryMsg, NftInfoResponse};
use cw721_metadata_onchain::{Extension, Metadata};
use query_bundler::error::{ContractError, StdErrorKind};
use query_bundler::query::{
    cw20_balances_bundle_query_smart, cw721_bundle_query_smart, smart_item, BundleReturn,
};
use query_bundler::target::Target;

fn strings(items: &[&str]) -> Vec<String> {
    items.iter().map(|s| s.to_string()).collect()
}

fn info_of(token_id: &str) -> NftInfoResponse<Extension> {
    NftInfoResponse {
        token_uri: Some(format!("ipfs://{}", token_id)),
        extension: Some(Metadata { name: Some(token_id.to_string()), ..Metadata::default() }),
    }
}

/// A collection that knows every token but `b`, and answers `odd` with
/// something that is no token info.
fn collection(query: &WasmQuery) -> QuerierResult {
    match query {
        WasmQuery::Smart { contract_addr, msg } => {
            if contract_addr != "collection" {
                return SystemResult::Err(SystemError::NoSuchContract {
                    addr: contract_addr.clone(),
                });
            }
            match from_json::<Cw721QueryMsg>(msg) {
                Ok(Cw721QueryMsg::NftInfo { token_id }) => {
                    if token_id == "b" {
                        SystemResult::Ok(ContractResult::Err("token not found".to_string()))
                    } else if token_id == "odd" {
                        SystemResult::Ok(ContractResult::Ok(to_json_binary(&17u32).unwrap()))
                    } else {
                        SystemResult::Ok(ContractResult::Ok(
                            to_json_binary(&info_of(&token_id)).unwrap(),
                        ))
                    }
                }
                _ => SystemResult::Err(SystemError::Unknown {}),
            }
        }
        _ => SystemResult::Err(SystemError::Unknown {}),
    }
}

#[test]
fn smart_item_keeps_the_value() {
    assert_eq!(smart_item(Ok::<u32, StdErrorKind>(5)), BundleReturn::Success(5));
}

#[test]
fn smart_item_gives_the_error_text() {
    assert_eq!(
        smart_item(Err::<u32, _>(StdErrorKind::NotFound)),
        BundleReturn::Error("StdError::NotFound".to_string())
    );
    assert_eq!(
        smart_item(Err::<u32, _>(StdErrorKind::Overflow)),
        BundleReturn::Error("StdError::Overflow".to_string())
    );
}

#[test]
fn smart_batch_isolates_the_failing_item() {
    let mut deps = mock_dependencies();
    deps.querier.update_wasm(collection);
    let target = Target { deps: deps.as_ref() };
    let batch =
        cw721_bundle_query_smart(&target, strings(&["a", "b", "c"]), "collection".to_string())
            .unwrap();
    assert_eq!(
        batch,
        vec![
            ("a".to_string(), BundleReturn::Success(info_of("a"))),
            (
                "b".to_string(),
                BundleReturn::Error("StdError::GenericErr".to_string())
            ),
            ("c".to_string(), BundleReturn::Success(info_of("c"))),
        ]
    );
}

#[test]
fn smart_batch_gives_an_answer_of_another_shape_as_parse_error() {
    let mut deps = mock_dependencies();
    deps.querier.update_wasm(collection);
    let target = Target { deps: deps.as_ref() };
    let batch =
        cw721_bundle_query_smart(&target, strings(&["odd", "a"]), "collection".to_string())
            .unwrap();
    assert_eq!(batch.len(), 2);
    assert_eq!(batch[0].0, "odd");
    assert_eq!(batch[0].1, BundleReturn::Error("StdError::ParseErr".to_string()));
    assert_eq!(batch[1], ("a".to_string(), BundleReturn::Success(info_of("a"))));
}

#[test]
fn smart_batch_with_every_item_failing_is_still_whole() {
    let mut deps = mock_dependencies();
    deps.querier.update_wasm(collection);
    let target = Target { deps: deps.as_ref() };
    let batch =
        cw721_bundle_query_smart(&target, strings(&["a", "b"]), "elsewhere".to_string()).unwrap();
    let expected = "StdError::GenericErr".to_string();
    assert_eq!(
        batch,
        vec![
            ("a".to_string(), BundleReturn::Error(expected.clone())),
            ("b".to_string(), BundleReturn::Error(expected)),
        ]
    );
}

#[test]
fn smart_batch_of_nothing_is_empty() {
    let mut deps = mock_dependencies();
    deps.querier.update_wasm(collection);
    let target = Target { deps: deps.as_ref() };
    let batch = cw721_bundle_query_smart(&target, Vec::new(), "collection".to_string()).unwrap();
    assert!(batch.is_empty());
}

#[test]
fn smart_batch_twice_is_the_same() {
    let mut deps = mock_dependencies();
    deps.querier.update_wasm(collection);
    let target = Target { deps: deps.as_ref() };
    let first =
        cw721_bundle_query_smart(&target, strings(&["a", "b", "odd"]), "collection".to_string());
    let second =
        cw721_bundle_query_smart(&target, strings(&["a", "b", "odd"]), "collection".to_string());
    assert!(first.is_ok());
    assert_eq!(first, second);
}

#[test]
fn smart_batch_fails_on_an_address_that_the_host_refuses() {
    let mut deps = mock_dependencies();
    deps.querier.update_wasm(collection);
    let target = Target { deps: deps.as_ref() };
    let batch = cw721_bundle_query_smart(&target, strings(&["a"]), "C".to_string());
    match batch {
        Err(ContractError::Std(StdError::GenericErr { .. })) => {}
        other => panic!("unexpected outcome: {:?}", other),
    }
}

/// A ledger that holds 100 for `alice`, nothing for anyone else, and fails
/// for `mallory`.
fn ledger(query: &WasmQuery) -> QuerierResult {
    match query {
        WasmQuery::Smart { msg, .. } => match from_json::<Cw20QueryMsg>(msg) {
            Ok(Cw20QueryMsg::Balance { address }) => {
                if address == "mallory" {
                    SystemResult::Ok(ContractResult::Err("frozen".to_string()))
                } else {
                    let balance = if address == "alice" { 100u128 } else { 0u128 };
                    SystemResult::Ok(ContractResult::Ok(
                        to_json_binary(&BalanceResponse { balance: Uint128::new(balance) })
                            .unwrap(),
                    ))
                }
            }
            _ => SystemResult::Err(SystemError::Unknown {}),
        },
        _ => SystemResult::Err(SystemError::Unknown {}),
    }
}

#[test]
fn balances_batch_isolates_the_failing_account() {
    let mut deps = mock_dependencies();
    deps.querier.update_wasm(ledger);
    let target = Target { deps: deps.as_ref() };
    let batch = cw20_balances_bundle_query_smart(
        &target,
        strings(&["alice", "mallory", "bob"]),
        "ledger".to_string(),
    )
    .unwrap();
    assert_eq!(
        batch,
        vec![
            (
                "alice".to_string(),
                BundleReturn::Success(BalanceResponse { balance: Uint128::new(100) })
            ),
            (
                "mallory".to_string(),
                BundleReturn::Error("StdError::GenericErr".to_string())
            ),
            (
                "bob".to_string(),
                BundleReturn::Success(BalanceResponse { balance: Uint128::zero() })
            ),
        ]
    );
}

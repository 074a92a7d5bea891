use cosmwasm_std::testing::mock_dependencies;
use cosmwasm_std::{
    from_json, to_json_binary, ContractResult, QuerierResult, SystemError, SystemResult, WasmQuery,
};
use cw20::{AllAccountsResponse, Cw20QueryMsg};
use cw721::{Cw721QueryMsg, TokensResponse};
use query_bundler::error::ContractError;
use query_bundler::paging::{cw20_bundle_query_accounts, cw721_bundle_query_ids, Collector};
use query_bundler::target::Target;
use std::cell::Cell;
use std::rc::Rc;

fn ids(count: usize) -> Vec<String> {
    (0..count).map(|i| format!("id{:04}", i)).collect()
}

fn page_of(all: &[String], start_after: &Option<String>, limit: Option<u32>) -> Vec<String> {
    let limit = limit.unwrap_or(10) as usize;
    all.iter()
        .filter(|id| match start_after {
            Some(cursor) => id.as_str() > cursor.as_str(),
            None => true,
        })
        .take(limit)
        .cloned()
        .collect()
}

/// A token collection of `count` ids that counts the pages it serves.
fn token_lister(count: usize, fetches: Rc<Cell<u32>>) -> impl Fn(&WasmQuery) -> QuerierResult {
    let all = ids(count);
    move |query: &WasmQuery| match query {
        WasmQuery::Smart { msg, .. } => match from_json::<Cw721QueryMsg>(msg) {
            Ok(Cw721QueryMsg::AllTokens { start_after, limit }) => {
                fetches.set(fetches.get() + 1);
                let tokens = page_of(&all, &start_after, limit);
                SystemResult::Ok(ContractResult::Ok(
                    to_json_binary(&TokensResponse { tokens }).unwrap(),
                ))
            }
            _ => SystemResult::Err(SystemError::Unknown {}),
        },
        _ => SystemResult::Err(SystemError::Unknown {}),
    }
}

/// A ledger of `count` accounts that counts the pages it serves.
fn account_lister(count: usize, fetches: Rc<Cell<u32>>) -> impl Fn(&WasmQuery) -> QuerierResult {
    let all = ids(count);
    move |query: &WasmQuery| match query {
        WasmQuery::Smart { msg, .. } => match from_json::<Cw20QueryMsg>(msg) {
            Ok(Cw20QueryMsg::AllAccounts { start_after, limit }) => {
                fetches.set(fetches.get() + 1);
                let accounts = page_of(&all, &start_after, limit);
                SystemResult::Ok(ContractResult::Ok(
                    to_json_binary(&AllAccountsResponse { accounts }).unwrap(),
                ))
            }
            _ => SystemResult::Err(SystemError::Unknown {}),
        },
        _ => SystemResult::Err(SystemError::Unknown {}),
    }
}

fn collect_tokens(
    count: usize,
    loop_limit: u32,
    max_limit: Option<u32>,
    start_after: Option<String>,
) -> (Result<Vec<String>, ContractError>, u32) {
    let fetches = Rc::new(Cell::new(0u32));
    let mut deps = mock_dependencies();
    deps.querier.update_wasm(token_lister(count, fetches.clone()));
    let target = Target { deps: deps.as_ref() };
    let collected =
        cw721_bundle_query_ids(&target, loop_limit, max_limit, "collection".to_string(), start_after);
    (collected, fetches.get())
}

#[test]
fn collects_250_entries_in_three_fetches() {
    let (collected, fetches) = collect_tokens(250, u32::MAX, Some(100), None);
    assert_eq!(collected.unwrap(), ids(250));
    assert_eq!(fetches, 3);
}

#[test]
fn default_page_size_is_100() {
    let (collected, fetches) = collect_tokens(250, u32::MAX, None, None);
    assert_eq!(collected.unwrap(), ids(250));
    assert_eq!(fetches, 3);
}

#[test]
fn loop_limit_of_one_takes_one_page() {
    let (collected, fetches) = collect_tokens(250, 1, Some(100), None);
    assert_eq!(collected.unwrap(), ids(250)[..100].to_vec());
    assert_eq!(fetches, 1);
}

#[test]
fn loop_limit_of_two_takes_two_pages() {
    let (collected, fetches) = collect_tokens(250, 2, Some(100), None);
    assert_eq!(collected.unwrap(), ids(250)[..200].to_vec());
    assert_eq!(fetches, 2);
}

#[test]
fn loop_limit_of_zero_fetches_nothing() {
    let (collected, fetches) = collect_tokens(250, 0, Some(100), None);
    assert_eq!(collected.unwrap(), Vec::<String>::new());
    assert_eq!(fetches, 0);
}

#[test]
fn a_collection_of_full_pages_takes_one_more_empty_fetch() {
    let (collected, fetches) = collect_tokens(200, 10, Some(100), None);
    assert_eq!(collected.unwrap(), ids(200));
    assert_eq!(fetches, 3);
}

#[test]
fn a_short_first_page_ends_the_collection() {
    let (collected, fetches) = collect_tokens(7, 10, Some(100), None);
    assert_eq!(collected.unwrap(), ids(7));
    assert_eq!(fetches, 1);
}

#[test]
fn an_empty_collection_takes_one_fetch() {
    let (collected, fetches) = collect_tokens(0, 10, Some(100), None);
    assert_eq!(collected.unwrap(), Vec::<String>::new());
    assert_eq!(fetches, 1);
}

#[test]
fn collection_starts_after_the_given_cursor() {
    let (collected, fetches) = collect_tokens(250, u32::MAX, Some(100), Some("id0199".to_string()));
    assert_eq!(collected.unwrap(), ids(250)[200..].to_vec());
    assert_eq!(fetches, 1);
}

#[test]
fn small_pages_are_threaded_by_the_cursor() {
    let (collected, fetches) = collect_tokens(10, u32::MAX, Some(3), None);
    assert_eq!(collected.unwrap(), ids(10));
    assert_eq!(fetches, 4);
}

#[test]
fn collection_twice_is_the_same() {
    let first = collect_tokens(250, 2, Some(100), None);
    let second = collect_tokens(250, 2, Some(100), None);
    assert_eq!(first, second);
}

#[test]
fn a_failing_fetch_fails_the_collection() {
    let fetches = Rc::new(Cell::new(0u32));
    let inner = token_lister(250, fetches.clone());
    let counter = fetches.clone();
    let mut deps = mock_dependencies();
    deps.querier.update_wasm(move |query: &WasmQuery| {
        if counter.get() >= 2 {
            SystemResult::Ok(ContractResult::Err("out of gas".to_string()))
        } else {
            inner(query)
        }
    });
    let target = Target { deps: deps.as_ref() };
    let collected =
        cw721_bundle_query_ids(&target, 10, Some(100), "collection".to_string(), None);
    assert!(matches!(collected, Err(ContractError::Std(_))));
    assert_eq!(fetches.get(), 2);
}

#[test]
fn accounts_come_in_pages_of_30() {
    let fetches = Rc::new(Cell::new(0u32));
    let mut deps = mock_dependencies();
    deps.querier.update_wasm(account_lister(70, fetches.clone()));
    let target = Target { deps: deps.as_ref() };
    let collected = cw20_bundle_query_accounts(&target, 10, "ledger".to_string(), None);
    assert_eq!(collected.unwrap(), ids(70));
    assert_eq!(fetches.get(), 3);
}

#[test]
fn accounts_stop_at_the_loop_limit() {
    let fetches = Rc::new(Cell::new(0u32));
    let mut deps = mock_dependencies();
    deps.querier.update_wasm(account_lister(70, fetches.clone()));
    let target = Target { deps: deps.as_ref() };
    let collected = cw20_bundle_query_accounts(&target, 1, "ledger".to_string(), None);
    assert_eq!(collected.unwrap(), ids(70)[..30].to_vec());
    assert_eq!(fetches.get(), 1);
}

#[test]
fn accounts_with_no_budget_fetch_nothing() {
    let fetches = Rc::new(Cell::new(0u32));
    let mut deps = mock_dependencies();
    deps.querier.update_wasm(account_lister(70, fetches.clone()));
    let target = Target { deps: deps.as_ref() };
    let collected = cw20_bundle_query_accounts(&target, 0, "ledger".to_string(), None);
    assert_eq!(collected, Ok(Vec::new()));
    assert_eq!(fetches.get(), 0);
}

#[test]
fn no_budget_never_fails() {
    let mut deps = mock_dependencies();
    deps.querier.update_wasm(|_query: &WasmQuery| {
        SystemResult::Ok(ContractResult::Err("out of order".to_string()))
    });
    let target = Target { deps: deps.as_ref() };
    let tokens = cw721_bundle_query_ids(&target, 0, Some(100), "collection".to_string(), None);
    assert_eq!(tokens, Ok(Vec::new()));
    let accounts = cw20_bundle_query_accounts(&target, 0, "ledger".to_string(), None);
    assert_eq!(accounts, Ok(Vec::new()));
    let failed = cw721_bundle_query_ids(&target, 1, Some(100), "collection".to_string(), None);
    assert!(matches!(failed, Err(ContractError::Std(_))));
}

#[test]
fn a_failing_second_fetch_drops_the_first_page() {
    let fetches = Rc::new(Cell::new(0u32));
    let inner = account_lister(70, fetches.clone());
    let counter = fetches.clone();
    let mut deps = mock_dependencies();
    deps.querier.update_wasm(move |query: &WasmQuery| {
        if counter.get() >= 1 {
            SystemResult::Ok(ContractResult::Err("out of gas".to_string()))
        } else {
            inner(query)
        }
    });
    let target = Target { deps: deps.as_ref() };
    let collected = cw20_bundle_query_accounts(&target, 2, "ledger".to_string(), None);
    match collected {
        Err(ContractError::Std(e)) => {
            assert_eq!(e.to_string(), "Generic error: Querier contract error: out of gas")
        }
        other => panic!("unexpected outcome: {:?}", other),
    }
    assert_eq!(fetches.get(), 1);
}

#[test]
fn collector_ends_on_a_short_page() {
    let mut collector = Collector::new(5, 2, None);
    assert!(!collector.is_done());
    assert_eq!(collector.cursor(), None);
    collector = collector.accept(vec!["a".to_string(), "b".to_string()]);
    assert!(!collector.is_done());
    assert_eq!(collector.cursor(), Some("b".to_string()));
    assert_eq!(collector.fetches(), 1);
    collector = collector.accept(vec!["c".to_string()]);
    assert!(collector.is_done());
    assert_eq!(collector.cursor(), Some("c".to_string()));
    assert_eq!(collector.fetches(), 2);
    assert_eq!(collector.into_entries(), vec!["a".to_string(), "b".to_string(), "c".to_string()]);
}

#[test]
fn collector_ends_when_the_budget_is_spent() {
    let mut collector = Collector::new(2, 1, Some("start".to_string()));
    assert_eq!(collector.cursor(), Some("start".to_string()));
    collector = collector.accept(vec!["a".to_string()]);
    assert!(!collector.is_done());
    collector = collector.accept(vec!["b".to_string()]);
    assert!(collector.is_done());
    assert_eq!(collector.fetches(), 2);
    assert_eq!(collector.into_entries(), vec!["a".to_string(), "b".to_string()]);
}

#[test]
fn collector_keeps_its_cursor_over_an_empty_page() {
    let mut collector = Collector::new(3, 0, Some("start".to_string()));
    collector = collector.accept(Vec::new());
    assert!(!collector.is_done());
    assert_eq!(collector.cursor(), Some("start".to_string()));
    collector = collector.accept(vec!["a".to_string()]);
    assert_eq!(collector.cursor(), Some("a".to_string()));
    collector = collector.accept(Vec::new());
    assert!(collector.is_done());
    assert_eq!(collector.cursor(), Some("a".to_string()));
    assert_eq!(collector.into_entries(), vec!["a".to_string()]);
}

#[test]
fn collector_that_has_ended_takes_no_further_page() {
    let mut collector = Collector::new(0, 10, None);
    assert!(collector.is_done());
    collector = collector.accept(vec!["a".to_string()]);
    assert!(collector.is_done());
    assert_eq!(collector.fetches(), 0);
    assert_eq!(collector.cursor(), None);
    assert_eq!(collector.into_entries(), Vec::<String>::new());
}

#[test]
fn collector_keeps_duplicates() {
    let mut collector = Collector::new(5, 2, None);
    collector = collector.accept(vec!["a".to_string(), "b".to_string()]);
    collector = collector.accept(vec!["b".to_string(), "a".to_string()]);
    collector = collector.accept(Vec::new());
    assert!(collector.is_done());
    assert_eq!(
        collector.into_entries(),
        vec!["a".to_string(), "b".to_string(), "b".to_string(), "a".to_string()]
    );
}

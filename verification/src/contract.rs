//! The one entry point through which every batch request comes in.

use crate::error::ContractError;
use crate::msg::QueryMsg;
use crate::paging::{
    collection_outcome, cw20_bundle_query_accounts, cw721_bundle_query_ids, token_page_size,
    ACCOUNT_PAGE,
};
use crate::query::{
    cw20_balances_bundle_query_raw, cw20_balances_bundle_query_smart, cw721_bundle_query_raw,
    cw721_bundle_query_smart, generic_string_bundle_query_raw, generic_uint_bundle_query_raw,
    raw_batch_outcome, smart_batch_outcome, text_keys, uint_keys, uint_labels, Cw20QueryResSmart,
    Cw721QueryResSmart, QueryResRaw,
};
use crate::target::Target;
use crate::text::{optional_text, texts};
use vstd::prelude::*;

verus! {

/// What a batch request is answered with.
#[derive(Clone, Debug, PartialEq)]
pub enum QueryResponse {
    /// Token infos, one entry per token id asked for.
    Cw721Smart(Vec<(String, Cw721QueryResSmart)>),
    /// Balances, one entry per account asked for.
    Cw20Smart(Vec<(String, Cw20QueryResSmart)>),
    /// Stored bytes, one entry per key asked for.
    Raw(Vec<(String, QueryResRaw)>),
    /// The identifiers of a whole collection.
    Listed(Vec<String>),
}

/// A smart token batch as a response.
pub open spec fn cw721_smart_response(
    batch: Result<Vec<(String, Cw721QueryResSmart)>, ContractError>,
) -> Result<QueryResponse, ContractError> {
    match batch {
        Ok(entries) => Ok(QueryResponse::Cw721Smart(entries)),
        Err(e) => Err(e),
    }
}

/// A smart balance batch as a response.
pub open spec fn cw20_smart_response(
    batch: Result<Vec<(String, Cw20QueryResSmart)>, ContractError>,
) -> Result<QueryResponse, ContractError> {
    match batch {
        Ok(entries) => Ok(QueryResponse::Cw20Smart(entries)),
        Err(e) => Err(e),
    }
}

/// A raw batch as a response.
pub open spec fn raw_response(batch: Result<Vec<(String, QueryResRaw)>, ContractError>) -> Result<
    QueryResponse,
    ContractError,
> {
    match batch {
        Ok(entries) => Ok(QueryResponse::Raw(entries)),
        Err(e) => Err(e),
    }
}

/// A collected list as a response.
pub open spec fn listed_response(list: Result<Vec<String>, ContractError>) -> Result<
    QueryResponse,
    ContractError,
> {
    match list {
        Ok(ids) => Ok(QueryResponse::Listed(ids)),
        Err(e) => Err(e),
    }
}

/// Whether `response` is what the function that `msg` names may return on
/// the fields of `msg`, under the variant of its kind.
pub open spec fn routed(msg: QueryMsg, response: Result<QueryResponse, ContractError>) -> bool {
    match msg {
        QueryMsg::Cw721BundleQuerySmart { token_ids, contract } => exists|
            batch: Result<Vec<(String, Cw721QueryResSmart)>, ContractError>,
        |
            smart_batch_outcome(batch, texts(token_ids@)) && response
                == #[trigger] cw721_smart_response(batch),
        QueryMsg::Cw721BundleQueryRaw { token_ids, contract } => exists|
            batch: Result<Vec<(String, QueryResRaw)>, ContractError>,
        |
            raw_batch_outcome(batch, texts(token_ids@), text_keys("tokens"@, token_ids@))
                && response == #[trigger] raw_response(batch),
        QueryMsg::Cw721BundleQueryIds { loop_limit, max_limit, contract, start_after } => exists|
            list: Result<Vec<String>, ContractError>,
        |
            collection_outcome(
                list,
                loop_limit as nat,
                token_page_size(max_limit),
                optional_text(start_after),
            ) && response == #[trigger] listed_response(list),
        QueryMsg::Cw20BundleQuerySmart { accounts, contract } => exists|
            batch: Result<Vec<(String, Cw20QueryResSmart)>, ContractError>,
        |
            smart_batch_outcome(batch, texts(accounts@)) && response
                == #[trigger] cw20_smart_response(batch),
        QueryMsg::Cw20BundleQueryRaw { accounts, contract } => exists|
            batch: Result<Vec<(String, QueryResRaw)>, ContractError>,
        |
            raw_batch_outcome(batch, texts(accounts@), text_keys("balance"@, accounts@))
                && response == #[trigger] raw_response(batch),
        QueryMsg::Cw20BundleQueryAccounts { loop_limit, contract, start_after } => exists|
            list: Result<Vec<String>, ContractError>,
        |
            collection_outcome(
                list,
                loop_limit as nat,
                ACCOUNT_PAGE as nat,
                optional_text(start_after),
            ) && response == #[trigger] listed_response(list),
        QueryMsg::GenericStringBundleQueryRaw { keys, namespace, contract } => exists|
            batch: Result<Vec<(String, QueryResRaw)>, ContractError>,
        |
            raw_batch_outcome(batch, texts(keys@), text_keys(namespace@, keys@)) && response
                == #[trigger] raw_response(batch),
        QueryMsg::GenericUIntBundleQueryRaw { keys, keytype, namespace, contract } => exists|
            batch: Result<Vec<(String, QueryResRaw)>, ContractError>,
        |
            raw_batch_outcome(
                batch,
                uint_labels(keys@),
                uint_keys(namespace@, keys@, keytype),
            ) && response == #[trigger] raw_response(batch),
    }
}

/// Routes a batch request to the function that its kind names, with the
/// request's fields as that function's arguments, and returns what the
/// function returns.
pub fn query(target: &Target, msg: QueryMsg) -> (r: Result<QueryResponse, ContractError>)
    ensures
        routed(msg, r),
{
    match msg {
        QueryMsg::Cw721BundleQuerySmart { token_ids, contract } => {
            let batch = cw721_bundle_query_smart(target, token_ids, contract);
            let ghost outcome = batch;
            let response = match batch {
                Ok(entries) => Ok(QueryResponse::Cw721Smart(entries)),
                Err(e) => Err(e),
            };
            assert(response == cw721_smart_response(outcome));
            response
        },
        QueryMsg::Cw721BundleQueryRaw { token_ids, contract } => {
            let batch = cw721_bundle_query_raw(target, token_ids, contract);
            let ghost outcome = batch;
            let response = match batch {
                Ok(entries) => Ok(QueryResponse::Raw(entries)),
                Err(e) => Err(e),
            };
            assert(response == raw_response(outcome));
            response
        },
        QueryMsg::Cw721BundleQueryIds { loop_limit, max_limit, contract, start_after } => {
            let list = cw721_bundle_query_ids(target, loop_limit, max_limit, contract, start_after);
            let ghost outcome = list;
            let response = match list {
                Ok(ids) => Ok(QueryResponse::Listed(ids)),
                Err(e) => Err(e),
            };
            assert(response == listed_response(outcome));
            response
        },
        QueryMsg::Cw20BundleQuerySmart { accounts, contract } => {
            let batch = cw20_balances_bundle_query_smart(target, accounts, contract);
            let ghost outcome = batch;
            let response = match batch {
                Ok(entries) => Ok(QueryResponse::Cw20Smart(entries)),
                Err(e) => Err(e),
            };
            assert(response == cw20_smart_response(outcome));
            response
        },
        QueryMsg::Cw20BundleQueryRaw { accounts, contract } => {
            let batch = cw20_balances_bundle_query_raw(target, accounts, contract);
            let ghost outcome = batch;
            let response = match batch {
                Ok(entries) => Ok(QueryResponse::Raw(entries)),
                Err(e) => Err(e),
            };
            assert(response == raw_response(outcome));
            response
        },
        QueryMsg::Cw20BundleQueryAccounts { loop_limit, contract, start_after } => {
            let list = cw20_bundle_query_accounts(target, loop_limit, contract, start_after);
            let ghost outcome = list;
            let response = match list {
                Ok(ids) => Ok(QueryResponse::Listed(ids)),
                Err(e) => Err(e),
            };
            assert(response == listed_response(outcome));
            response
        },
        QueryMsg::GenericStringBundleQueryRaw { keys, namespace, contract } => {
            let batch = generic_string_bundle_query_raw(target, keys, namespace, contract);
            let ghost outcome = batch;
            let response = match batch {
                Ok(entries) => Ok(QueryResponse::Raw(entries)),
                Err(e) => Err(e),
            };
            assert(response == raw_response(outcome));
            response
        },
        QueryMsg::GenericUIntBundleQueryRaw { keys, keytype, namespace, contract } => {
            let batch = generic_uint_bundle_query_raw(target, keys, keytype, namespace, contract);
            let ghost outcome = batch;
            let response = match batch {
                Ok(entries) => Ok(QueryResponse::Raw(entries)),
                Err(e) => Err(e),
            };
            assert(response == raw_response(outcome));
            response
        },
    }
}

} // verus!

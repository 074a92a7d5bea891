//! The contract that is asked, and the host calls that reach it.
//!
//! Everything in this file is an item of another crate, or a thin call into
//! one. What each call returns is taken on trust, as its comment says.

use cosmwasm_std::{
    Addr, Binary, ContractResult, Deps, Empty, QueryRequest, StdError, SystemError, SystemResult,
    WasmQuery,
};
use cw20::{AllAccountsResponse, BalanceResponse, Cw20QueryMsg};
use cw721::{Cw721QueryMsg, NftInfoResponse, TokensResponse};
use cw721_metadata_onchain::{Extension, Metadata};
use vstd::prelude::*;

verus! {

/// `cosmwasm_std::Binary`, a byte string that travels as base64 text.
#[verifier::external_type_specification]
#[verifier::external_body]
pub struct ExBinary(Binary);

/// `cosmwasm_std::Addr`, an address that the host has accepted.
#[verifier::external_type_specification]
#[verifier::external_body]
pub struct ExAddr(Addr);

/// `cosmwasm_std::SystemError`, the failure to reach a contract at all.
#[verifier::external_type_specification]
#[verifier::external_body]
pub struct ExSystemError(SystemError);

/// `cw721::NftInfoResponse`, what a token collection tells of one token.
#[verifier::external_type_specification]
#[verifier::external_body]
#[verifier::reject_recursive_types(T)]
pub struct ExNftInfoResponse<T>(NftInfoResponse<T>);

/// `cw721_metadata_onchain::Metadata`, the metadata kept with a token.
#[verifier::external_type_specification]
#[verifier::external_body]
pub struct ExMetadata(Metadata);

/// `cw20::BalanceResponse`, what a ledger tells of one account.
#[verifier::external_type_specification]
#[verifier::external_body]
pub struct ExBalanceResponse(BalanceResponse);

/// The host through which other contracts are reached: a
/// `cosmwasm_std::Deps`. Verus cannot take that type itself, whose parameter
/// is bound by a trait of its crate, so it is held here and nothing is known
/// of what is inside: the calls below are all that is made of it.
#[verifier::external_body]
pub struct Target<'a> {
    pub deps: Deps<'a>,
}

/// What a contract's storage answers to one raw read: the bytes under the
/// key, none if the key is absent, or the contract's refusal.
pub type ContractReply = Result<Vec<u8>, String>;

/// The base64 text of `bytes`, in the standard alphabet with padding.
pub uninterp spec fn base64_text(bytes: Seq<u8>) -> Seq<char>;

/// `Api::addr_validate`: whether the host takes `human` for an address is
/// the host's affair, so nothing is said of the result.
#[verifier::external_body]
pub(crate) fn addr_validate(target: &Target, human: &str) -> Result<Addr, StdError> {
    target.deps.api.addr_validate(human)
}

/// `cosmwasm_std::to_vec` of the request that reads `key` from the storage of
/// `contract`.
#[allow(deprecated)]
#[verifier::external_body]
pub(crate) fn raw_request(contract: &str, key: Vec<u8>) -> Result<Vec<u8>, StdError> {
    let request: QueryRequest<Empty> = WasmQuery::Raw {
        contract_addr: contract.to_string(),
        key: Binary::from(key),
    }.into();
    cosmwasm_std::to_vec(&request)
}

/// `Querier::raw_query`: hands the serialised request to the host. What comes
/// back depends on the chain, so nothing is said of it.
#[verifier::external_body]
pub(crate) fn raw_query(target: &Target, request: &Vec<u8>) -> Result<ContractReply, SystemError> {
    match target.deps.querier.raw_query(request.as_slice()) {
        SystemResult::Err(e) => Err(e),
        SystemResult::Ok(ContractResult::Err(msg)) => Ok(Err(msg)),
        SystemResult::Ok(ContractResult::Ok(data)) => Ok(Ok(data.into())),
    }
}

/// The `Display` text of the system error `e`.
pub uninterp spec fn system_error_shown(e: SystemError) -> Seq<char>;

/// The `Display` text of a `cosmwasm_std::SystemError`, which is made of the
/// error's variant and of what it carries, and of nothing else.
#[verifier::external_body]
pub(crate) fn system_error_display(e: &SystemError) -> (r: String)
    ensures
        r@ == system_error_shown(*e),
{
    e.to_string()
}

/// `Binary::to_base64`: the base64 text of `bytes`.
#[verifier::external_body]
pub(crate) fn to_base64(bytes: Vec<u8>) -> (r: String)
    ensures
        r@ == base64_text(bytes@),
{
    Binary::from(bytes).to_base64()
}

/// `cosmwasm_std::to_binary` of the message that asks a token collection for
/// the info of `token_id`.
#[allow(deprecated)]
#[verifier::external_body]
pub(crate) fn nft_info_msg(token_id: &str) -> Result<Binary, StdError> {
    cosmwasm_std::to_binary(&Cw721QueryMsg::NftInfo { token_id: token_id.to_string() })
}

/// `cosmwasm_std::to_binary` of the message that asks a token collection for
/// at most `limit` token ids after `start_after`.
#[allow(deprecated)]
#[verifier::external_body]
pub(crate) fn all_tokens_msg(start_after: Option<String>, limit: u32) -> Result<Binary, StdError> {
    cosmwasm_std::to_binary(&Cw721QueryMsg::AllTokens { start_after, limit: Some(limit) })
}

/// `cosmwasm_std::to_binary` of the message that asks a ledger for the
/// balance of `address`.
#[allow(deprecated)]
#[verifier::external_body]
pub(crate) fn balance_msg(address: &str) -> Result<Binary, StdError> {
    cosmwasm_std::to_binary(&Cw20QueryMsg::Balance { address: address.to_string() })
}

/// `cosmwasm_std::to_binary` of the message that asks a ledger for at most
/// `limit` accounts after `start_after`.
#[allow(deprecated)]
#[verifier::external_body]
pub(crate) fn all_accounts_msg(start_after: Option<String>, limit: u32) -> Result<
    Binary,
    StdError,
> {
    cosmwasm_std::to_binary(&Cw20QueryMsg::AllAccounts { start_after, limit: Some(limit) })
}

/// `QuerierWrapper::query` of `msg` at `contract`, read as a token's info.
#[verifier::external_body]
pub(crate) fn query_nft_info(target: &Target, contract: &str, msg: Binary) -> Result<
    NftInfoResponse<Extension>,
    StdError,
> {
    target.deps.querier.query(
        &QueryRequest::Wasm(WasmQuery::Smart { contract_addr: contract.to_string(), msg }),
    )
}

/// `QuerierWrapper::query` of `msg` at `contract`, read as an account's
/// balance.
#[verifier::external_body]
pub(crate) fn query_balance(target: &Target, contract: &str, msg: Binary) -> Result<
    BalanceResponse,
    StdError,
> {
    target.deps.querier.query(
        &QueryRequest::Wasm(WasmQuery::Smart { contract_addr: contract.to_string(), msg }),
    )
}

/// `QuerierWrapper::query` of `msg` at `contract`, read as a page of token
/// ids.
#[verifier::external_body]
pub(crate) fn query_all_tokens(target: &Target, contract: &str, msg: Binary) -> Result<
    Vec<String>,
    StdError,
> {
    let page: Result<TokensResponse, StdError> = target.deps.querier.query(
        &QueryRequest::Wasm(WasmQuery::Smart { contract_addr: contract.to_string(), msg }),
    );
    page.map(|p| p.tokens)
}

/// `QuerierWrapper::query` of `msg` at `contract`, read as a page of
/// accounts.
#[verifier::external_body]
pub(crate) fn query_all_accounts(target: &Target, contract: &str, msg: Binary) -> Result<
    Vec<String>,
    StdError,
> {
    let page: Result<AllAccountsResponse, StdError> = target.deps.querier.query(
        &QueryRequest::Wasm(WasmQuery::Smart { contract_addr: contract.to_string(), msg }),
    );
    page.map(|p| p.accounts)
}

} // verus!

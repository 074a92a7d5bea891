//! The messages that the contract's entry points take.

use vstd::prelude::*;

verus! {

/// Sent once, when the contract is set up. It carries nothing.
#[derive(Clone, Debug, PartialEq, Eq)]
pub struct InstantiateMsg {}

/// The width of the unsigned integer under which a target stores its keys.
#[derive(Clone, Copy, Debug, PartialEq, Eq, Structural)]
pub enum IntType {
    U8,
    U16,
    U32,
    U64,
    U128,
}

/// One batch request.
#[allow(inconsistent_fields)]
#[derive(Clone, Debug, PartialEq, Eq)]
pub enum QueryMsg {
    /// Token info of each of `token_ids`, asked of the collection's own query.
    Cw721BundleQuerySmart { token_ids: Vec<String>, contract: String },
    /// The stored bytes of each of `token_ids`, read from the collection's storage.
    Cw721BundleQueryRaw { token_ids: Vec<String>, contract: String },
    /// Every token id of the collection, in at most `loop_limit` pages.
    Cw721BundleQueryIds {
        loop_limit: u32,
        max_limit: Option<u32>,
        contract: String,
        start_after: Option<String>,
    },
    /// The balance of each of `accounts`, asked of the ledger's own query.
    Cw20BundleQuerySmart { accounts: Vec<String>, contract: String },
    /// The stored bytes of each of `accounts`, read from the ledger's storage.
    Cw20BundleQueryRaw { accounts: Vec<String>, contract: String },
    /// Every account of the ledger, in at most `loop_limit` pages.
    Cw20BundleQueryAccounts { loop_limit: u32, contract: String, start_after: Option<String> },
    /// The stored bytes under each of `keys` in the map `namespace`.
    GenericStringBundleQueryRaw { keys: Vec<String>, namespace: String, contract: String },
    /// The stored bytes under each of `keys`, taken as integers of width
    /// `keytype`, in the map `namespace`.
    GenericUIntBundleQueryRaw {
        keys: Vec<u64>,
        keytype: IntType,
        namespace: String,
        contract: String,
    },
}

} // verus!

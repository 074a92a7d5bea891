//! Batched, error-isolated queries against CosmWasm contracts.
//!
//! One call reads many entries of another contract: through the contract's
//! own queries, straight from its storage under the raw keys that its maps
//! use, or page by page where the keys are not known beforehand.
//!
//! - [`encoding`]: the raw key of a map entry, and the laws of its layout.
//! - [`query`]: batches, in which the failure of one item leaves the others
//!   as they are.
//! - [`paging`]: collecting a whole collection in bounded many fetches.
//! - [`contract`]: the entry point that routes a request to one of these.
//! - [`error`], [`msg`], [`text`]: errors, messages, texts.
//! - [`target`]: the calls into the host, which are taken on trust.

pub mod contract;
pub mod encoding;
pub mod error;
pub mod msg;
pub mod paging;
pub mod query;
pub mod target;
pub mod text;

pub use crate::error::ContractError;

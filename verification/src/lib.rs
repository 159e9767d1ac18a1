//! Audits a claimed list of blockchain transactions for an address against
//! ground truth from an Ethereum JSON-RPC node and a block-explorer index.
//! Given CSV rows asserting "the address appears at location L of the
//! transaction at (block, index)", the library builds the requests that
//! fetch every relevant transaction, receipt, trace list and block header,
//! dispatches the responses by correlation id, merges the independently
//! arriving views into a content-addressed cache, derives the structural
//! locations where the address actually occurs, and diffs the derived set
//! against the claimed one, reporting missing and incorrect entries.
//!
//! Everything that decides or computes lives here, under contracts; the
//! thin unverified rim around it only moves bytes between files, sockets
//! and these functions.

pub mod api_call;
pub mod block_string;
pub mod cache;
pub mod client;
pub mod errors;
pub mod explorer;
pub mod fetch;
pub mod filter;
pub mod hex;
pub mod matcher;
pub mod numtext;
pub mod persist;
pub mod reconcile;
pub mod records;
pub mod request;
pub mod response;
pub mod util;

//! Resilience and consistency layer between a block-explorer dashboard and a
//! Kaspa node: view models, the decisions of every request, and the caches.
//!
//! The library makes no node call and reads no clock. Each request is a small
//! machine: the caller makes the call that a step asks for and hands the
//! outcome back, until the step is the view to return or the failure to
//! report. What each step decides is stated in its contract and proved.
//!
//! - [`tip_chain`]: the latest blocks, by a walk along selected parents.
//! - [`mempool`], [`order`], [`snapshotter`]: the mempool view, its window and
//!   its fetch with retries and fallbacks.
//! - [`balance`]: address balances, indexed and computed, and their cache.
//! - [`peers`]: the peer view of the last successful contact.
//! - [`endpoint`], [`error`], [`hash`], [`amount`], [`text`]: what these share.

pub mod amount;
pub mod balance;
pub mod endpoint;
pub mod error;
pub mod hash;
pub mod mempool;
pub mod order;
pub mod peers;
pub mod snapshotter;
pub mod text;
pub mod tip_chain;

//! A resource-oriented execution engine for a transactional ledger.
//!
//! Value lives in containers (buckets and vaults) that can be split, merged
//! and moved, but never duplicated or silently dropped. Every operation is
//! stated over a mathematical model and proved against it.
//!
//! - [`types`], [`decimal`]: identifiers and fixed-point amounts.
//! - [`resource`]: resource definitions, holdings and vaults.
//! - [`frame`], [`bucket`]: the buckets and references of one invocation,
//!   and the calls that make, merge, split, lend, mint and burn them.
//! - [`kernel`]: the numbered calls through which sandboxed code reaches a
//!   frame, with input and output as bytes.
//! - [`describe`], [`codec`], [`nested`]: schemas, the byte form of
//!   component state, and the walk over nested values.
//! - [`component`]: components and the rules on who may call their methods.
//! - [`store`], [`memory_store`], [`transaction`]: the substate store, its
//!   seeding, and the buffer that commits a transaction's writes together.
//! - [`error`]: the errors that end a transaction.
//! - [`laws`]: what holds of every frame.

pub mod bucket;
pub mod codec;
pub mod component;
pub mod decimal;
pub mod describe;
pub mod error;
pub mod frame;
pub mod kernel;
pub mod laws;
pub mod memory_store;
pub mod nested;
pub mod resource;
pub mod store;
pub mod transaction;
pub mod types;

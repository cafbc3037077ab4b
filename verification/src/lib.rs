//! Contributor side of a cross-chain token sale: verification of conductor
//! messages, the sale state machine, per-buyer contribution accounting and
//! the settlement of allocations and refunds.

pub mod accounts;
pub mod attestation;
pub mod buyer;
pub mod bytes;
pub mod custodian;
pub mod error;
pub mod instructions;
pub mod laws;
pub mod ledger;
pub mod message;
pub mod model;
pub mod registry;
pub mod sale;
pub mod settlement;
pub mod text;

pub use custodian::create_config;
pub use instructions::{init_sale, sale_aborted, sale_sealed};

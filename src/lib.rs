//! Line-item discount proposals for a shopping cart: a discount's
//! configuration is resolved from its payload, and each cart line whose
//! product variant does not carry the excluded tag gets a percentage-off
//! candidate.

pub mod config;
pub mod decimal;
pub mod generate;
pub mod laws;
pub mod model;

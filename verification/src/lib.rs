//! A ledger-resident registry that lets an uploader list a digital artifact
//! for rent at a fixed price, and lets any party rent it by paying that price.
//!
//! The registry state (records, balances, event logs) is held in
//! [`registry::Registry`]; the two operations, [`registry::Registry::create_model`]
//! and [`registry::Registry::rent_model`], apply as single indivisible
//! transitions: either every effect of an operation is applied, or none is.

pub mod bank;
pub mod errors;
pub mod laws;
pub mod pda;
pub mod records;
pub mod registry;

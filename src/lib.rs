//! A gateway-driven voting ledger: authenticated instructions create proposals
//! and record weighted votes; queries read proposals and tallies back.

pub mod decimal;
pub mod state;
pub mod ledger;
pub mod callback;
pub mod contract;
pub mod laws;

//! Custodial escrow settlement: a two-party exchange whose offered side is held in a vault that
//! only a derived authority can move, with the ledger, the address derivation and the three
//! lifecycle operations stated and proved over mathematical models; beside it, the request
//! models and bearer-token checks of a task tracker's API.
pub mod address;
pub mod auth;
pub mod error;
pub mod laws;
pub mod ledger;
pub mod settlement;
pub mod tasks;

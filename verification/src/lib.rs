//! A privacy-preserving fungible token, run as a message-driven contract.

pub mod api;
pub mod codec;
pub mod contract;
pub mod deps;
pub mod display;
pub mod guard;
pub mod laws;
pub mod ledger;
pub mod listing;
pub mod model;
pub mod msg;
pub mod names;
pub mod operations;
pub mod readings;
pub mod state;
pub mod table;
pub mod text;
pub mod types;
pub mod utils;
pub mod viewing_key;
pub mod views;

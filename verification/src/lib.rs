//! Threshold funding: an escrow that collects deposits of one coin until a
//! deadline. If the deposits reach the threshold the funds go to the receiver,
//! otherwise every participant gets their deposit back.
//!
//! The crate holds the bookkeeping and the settlement rules. It never moves
//! funds and never touches a store: every operation takes the escrow's state,
//! changes it, and describes the transfers that the host has to carry out.

pub mod contract;
pub mod entries;
pub mod error;
pub mod laws;
pub mod msg;
pub mod order;
pub mod response;
pub mod rules;
pub mod state;
pub mod text;
pub mod types;

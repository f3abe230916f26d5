//! The peer connection orchestrator.

pub mod action;
pub mod connect_peer;
pub mod handle_answer;
pub mod handle_ice_candidate;
pub mod handle_offer;
pub mod laws;
pub mod model;
pub mod table;

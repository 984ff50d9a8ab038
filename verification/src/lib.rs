//! A mining pool for ORE: it hands ranges of nonces to its clients, judges the solutions that
//! they send in, and submits the best one to the chain, with a tip for the block engine.
pub mod auth;
pub mod chain;
mod chance;
pub mod clients;
pub mod double;
pub mod fee;
pub mod handler;
pub mod history;
pub mod jito;
pub mod message;
pub mod order;
pub mod ore;
pub mod round;
pub mod solution;
pub mod startup;
pub mod submit;
pub mod wire;

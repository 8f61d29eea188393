//! The deciding half of an Ark client.
//!
//! An Ark server (ASP) holds rounds in which on-chain funds and virtual outputs (VTXOs) are turned
//! into new VTXOs. Nothing in this crate talks to a server or to a blockchain: it builds the
//! requests, reads the replies, runs the round as a state machine and says which transactions to
//! sign and to broadcast. The contract of every function says exactly what it returns.

pub mod address;
pub mod armor;
pub mod branch;
pub mod broadcast;
pub mod client;
pub mod convert;
pub mod cosigners;
pub mod error;
pub mod exit;
pub mod exit_laws;
pub mod forfeit;
pub mod grpc;
pub mod hex;
pub mod internal_node;
pub mod keys;
pub mod oor;
pub mod psbt;
pub mod redeem;
pub mod registration;
pub mod round;
pub mod round_laws;
pub mod script;
pub mod server;
pub mod signing;
pub mod spendable;
pub mod taproot;
pub mod tree;
pub mod tx;
pub mod value_laws;
pub mod views;
pub mod vtxo;
pub mod walk;
pub mod wire;
pub mod wire_laws;

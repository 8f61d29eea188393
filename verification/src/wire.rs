//! The messages of the server, as they are sent.

use vstd::prelude::*;

verus! {

/// A reference to an output.
#[derive(Debug, Clone, PartialEq, Eq)]
pub struct Outpoint {
    pub txid: String,
    pub vout: u32,
}

/// A VTXO.
#[derive(Debug, Clone, PartialEq, Eq)]
pub struct Vtxo {
    pub outpoint: Option<Outpoint>,
    pub amount: u64,
    pub round_txid: String,
    pub redeem_tx: String,
}

/// A node of a VTXO tree.
#[derive(Debug, Clone, PartialEq, Eq)]
pub struct Node {
    pub txid: String,
    pub tx: String,
    pub parent_txid: String,
}

/// A level of a VTXO tree.
#[derive(Debug, Clone, PartialEq, Eq)]
pub struct TreeLevel {
    pub nodes: Vec<Node>,
}

/// A VTXO tree, the root first.
#[derive(Debug, Clone, PartialEq, Eq)]
pub struct Tree {
    pub levels: Vec<TreeLevel>,
}

/// The cosigners are asked to sign the tree of a round.
#[derive(Debug, Clone, PartialEq, Eq)]
pub struct RoundSigningEvent {
    pub id: String,
    pub cosigners_pubkeys: Vec<String>,
    pub unsigned_vtxo_tree: Option<Tree>,
    pub unsigned_round_tx: String,
}

/// The nonces of all cosigners have been combined.
#[derive(Debug, PartialEq, Eq)]
pub struct RoundSigningNoncesGeneratedEvent {
    pub id: String,
    /// The nonces of the tree, or why they could not be decoded.
    pub tree_nonces: Result<Vec<Vec<Vec<u8>>>, String>,
}

/// The inputs of a round are to be signed.
#[derive(Debug, Clone, PartialEq, Eq)]
pub struct RoundFinalizationEvent {
    pub id: String,
    pub round_tx: String,
    pub vtxo_tree: Option<Tree>,
    pub connectors: Vec<String>,
    pub min_relay_fee_rate: i64,
}

/// A round is over.
#[derive(Debug, Clone, PartialEq, Eq)]
pub struct RoundFinalizedEvent {
    pub id: String,
    pub round_txid: String,
}

/// A round has failed.
#[derive(Debug, Clone, PartialEq, Eq)]
pub struct RoundFailed {
    pub id: String,
    pub reason: String,
}

/// An event of a round.
#[derive(Debug, PartialEq, Eq)]
pub enum Event {
    RoundFinalization(RoundFinalizationEvent),
    RoundFinalized(RoundFinalizedEvent),
    RoundFailed(RoundFailed),
    RoundSigning(RoundSigningEvent),
    RoundSigningNoncesGenerated(RoundSigningNoncesGeneratedEvent),
}

/// A round of the past.
#[derive(Debug, Clone, PartialEq, Eq)]
pub struct Round {
    pub id: String,
    pub start: i64,
    pub end: i64,
    pub round_tx: String,
    pub vtxo_tree: Option<Tree>,
    pub forfeit_txs: Vec<String>,
    pub connectors: Vec<String>,
    pub stage: i32,
}

/// What a round did to the outputs.
#[derive(Debug, Clone, PartialEq, Eq)]
pub struct RoundTransaction {
    pub txid: String,
    pub spent_vtxos: Vec<Outpoint>,
    pub spendable_vtxos: Vec<Vtxo>,
    pub claimed_boarding_utxos: Vec<Outpoint>,
}

/// What an off-chain payment did to the outputs.
#[derive(Debug, Clone, PartialEq, Eq)]
pub struct RedeemTransaction {
    pub txid: String,
    pub spent_vtxos: Vec<Outpoint>,
    pub spendable_vtxos: Vec<Vtxo>,
}

/// An event of the transaction stream.
#[derive(Debug, Clone, PartialEq, Eq)]
pub enum Tx {
    Round(RoundTransaction),
    Redeem(RedeemTransaction),
}

/// The VTXOs of an address.
#[derive(Debug, Clone, PartialEq, Eq)]
pub struct ListVtxosResponse {
    pub spent_vtxos: Vec<Vtxo>,
    pub spendable_vtxos: Vec<Vtxo>,
}

/// Asks for the VTXOs of an address.
#[derive(Debug, Clone, PartialEq, Eq)]
pub struct ListVtxosRequest {
    pub address: String,
}

/// The leaves of a taproot output.
#[derive(Debug, Clone, PartialEq, Eq)]
pub enum TaprootTree {
    Tapscripts(Vec<String>),
}

/// An input for the next round.
#[derive(Debug, Clone, PartialEq, Eq)]
pub struct Input {
    pub outpoint: Option<Outpoint>,
    pub taproot_tree: Option<TaprootTree>,
}

/// Registers inputs for the next round.
#[derive(Debug, Clone, PartialEq, Eq)]
pub struct RegisterInputsForNextRoundRequest {
    pub inputs: Vec<Input>,
    pub ephemeral_pubkey: Option<String>,
    pub notes: Vec<String>,
}

/// An output for the next round.
#[derive(Debug, Clone, PartialEq, Eq)]
pub struct Output {
    pub address: String,
    pub amount: u64,
}

/// Registers outputs for the next round.
#[derive(Debug, Clone, PartialEq, Eq)]
pub struct RegisterOutputsForNextRoundRequest {
    pub request_id: String,
    pub outputs: Vec<Output>,
}

/// Submits the transaction of an off-chain payment.
#[derive(Debug, Clone, PartialEq, Eq)]
pub struct SubmitRedeemTxRequest {
    pub redeem_tx: String,
}

/// Tells the server that the client still waits for the round.
#[derive(Debug, Clone, PartialEq, Eq)]
pub struct PingRequest {
    pub request_id: String,
}

/// Submits the public nonces of the client.
#[derive(Debug, Clone, PartialEq, Eq)]
pub struct SubmitTreeNoncesRequest {
    pub round_id: String,
    pub pubkey: String,
    pub tree_nonces: String,
}

/// Submits the partial signatures of the client.
#[derive(Debug, Clone, PartialEq, Eq)]
pub struct SubmitTreeSignaturesRequest {
    pub round_id: String,
    pub pubkey: String,
    pub tree_signatures: String,
}

/// Submits the signed forfeit transactions and the signed round transaction.
#[derive(Debug, Clone, PartialEq, Eq)]
pub struct SubmitSignedForfeitTxsRequest {
    pub signed_forfeit_txs: Vec<String>,
    pub signed_round_tx: Option<String>,
}

/// Asks for a round of the past.
#[derive(Debug, Clone, PartialEq, Eq)]
pub struct GetRoundRequest {
    pub txid: String,
}

} // verus!

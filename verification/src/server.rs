//! What the server says, read into the types of the client.

use vstd::prelude::*;

use crate::psbt::Psbt;
use crate::tx::{OutPoint, OutPointView, Txid};
use crate::views;

verus! {

/// A compressed public key.
#[derive(Debug, Clone, Copy, PartialEq, Eq)]
pub struct PublicKey {
    pub bytes: [u8; 33],
}

impl View for PublicKey {
    type V = Seq<u8>;

    open spec fn view(&self) -> Seq<u8> {
        self.bytes@
    }
}

/// A bitcoin network.
#[derive(Debug, Clone, Copy, PartialEq, Eq)]
pub enum Network {
    Bitcoin,
    Testnet,
    Testnet4,
    Signet,
    Regtest,
}

/// What the server says of itself.
#[derive(Debug, Clone, PartialEq, Eq)]
pub struct Info {
    pub pubkey: String,
    pub round_lifetime: i64,
    pub unilateral_exit_delay: i64,
    pub network: Network,
    pub dust: u64,
    pub boarding_descriptor_template: String,
    pub forfeit_address: String,
}

/// A VTXO, as the server lists it.
#[derive(Debug, Clone, PartialEq, Eq)]
pub struct VtxoOutPoint {
    pub outpoint: Option<OutPoint>,
    /// The amount in satoshi.
    pub amount: u64,
    /// The transaction of the round that made it.
    pub round_txid: String,
    /// The transaction of the payment that made it, or nothing if a round did.
    pub redeem_tx: String,
}

/// The value of a [`VtxoOutPoint`].
pub struct VtxoOutPointView {
    pub outpoint: Option<OutPointView>,
    pub amount: u64,
    pub round_txid: Seq<char>,
    pub redeem_tx: Seq<char>,
}

impl View for VtxoOutPoint {
    type V = VtxoOutPointView;

    open spec fn view(&self) -> VtxoOutPointView {
        VtxoOutPointView {
            outpoint: views::option_view(self.outpoint),
            amount: self.amount,
            round_txid: self.round_txid@,
            redeem_tx: self.redeem_tx@,
        }
    }
}

impl VtxoOutPoint {
    /// A copy.
    pub fn copy(&self) -> (copy: VtxoOutPoint)
        ensures
            copy@ == self@,
    {
        VtxoOutPoint {
            outpoint: self.outpoint,
            amount: self.amount,
            round_txid: self.round_txid.clone(),
            redeem_tx: self.redeem_tx.clone(),
        }
    }

    /// Whether two entries are the same in every field.
    pub fn same(&self, other: &VtxoOutPoint) -> (same: bool)
        ensures
            same == (self@ == other@),
    {
        let outpoints: bool = match (&self.outpoint, &other.outpoint) {
            (Some(a), Some(b)) => a.same(b),
            (None, None) => true,
            _ => false,
        };
        outpoints && self.amount == other.amount && self.round_txid == other.round_txid
            && self.redeem_tx == other.redeem_tx
    }
}

/// The VTXOs of an address.
#[derive(Debug, Clone, PartialEq, Eq)]
pub struct ListVtxo {
    pub spent: Vec<VtxoOutPoint>,
    pub spendable: Vec<VtxoOutPoint>,
}

/// The value of a [`ListVtxo`].
pub struct ListVtxoView {
    pub spent: Seq<VtxoOutPointView>,
    pub spendable: Seq<VtxoOutPointView>,
}

impl View for ListVtxo {
    type V = ListVtxoView;

    open spec fn view(&self) -> ListVtxoView {
        ListVtxoView {
            spent: views::views(self.spent@),
            spendable: views::views(self.spendable@),
        }
    }
}

/// A node of a VTXO tree.
pub struct Node {
    pub txid: Txid,
    pub tx: Psbt,
    pub parent_txid: Txid,
}

/// The value of a [`Node`].
pub struct NodeView {
    pub txid: Seq<u8>,
    pub tx: Seq<u8>,
    pub parent_txid: Seq<u8>,
}

impl View for Node {
    type V = NodeView;

    open spec fn view(&self) -> NodeView {
        NodeView { txid: self.txid@, tx: self.tx@, parent_txid: self.parent_txid@ }
    }
}

/// A level of a VTXO tree.
pub struct TreeLevel {
    pub nodes: Vec<Node>,
}

impl View for TreeLevel {
    type V = Seq<NodeView>;

    open spec fn view(&self) -> Seq<NodeView> {
        views::views(self.nodes@)
    }
}

/// A VTXO tree: its levels, the root first.
pub struct Tree {
    pub levels: Vec<TreeLevel>,
}

impl View for Tree {
    type V = Seq<Seq<NodeView>>;

    open spec fn view(&self) -> Seq<Seq<NodeView>> {
        views::views(self.levels@)
    }
}

impl Node {
    /// A copy.
    pub fn copy(&self) -> (copy: Node)
        ensures
            copy@ == self@,
    {
        Node { txid: self.txid, tx: self.tx.copy(), parent_txid: self.parent_txid }
    }
}

impl TreeLevel {
    /// A copy.
    pub fn copy(&self) -> (copy: TreeLevel)
        ensures
            copy@ == self@,
    {
        let mut nodes: Vec<Node> = Vec::new();
        let mut i: usize = 0;
        while i < self.nodes.len()
            invariant
                i <= self.nodes@.len(),
                nodes@.len() == i,
                forall|k: int| 0 <= k < i ==> (#[trigger] nodes@[k])@ == self.nodes@[k]@,
            decreases self.nodes@.len() - i,
        {
            nodes.push(self.nodes[i].copy());
            i = i + 1;
        }
        let copy = TreeLevel { nodes };
        assert(copy@ =~= self@);
        copy
    }
}

impl Tree {
    /// A copy.
    pub fn copy(&self) -> (copy: Tree)
        ensures
            copy@ == self@,
    {
        let mut levels: Vec<TreeLevel> = Vec::new();
        let mut i: usize = 0;
        while i < self.levels.len()
            invariant
                i <= self.levels@.len(),
                levels@.len() == i,
                forall|k: int| 0 <= k < i ==> (#[trigger] levels@[k])@ == self.levels@[k]@,
            decreases self.levels@.len() - i,
        {
            levels.push(self.levels[i].copy());
            i = i + 1;
        }
        let copy = Tree { levels };
        assert(copy@ =~= self@);
        copy
    }
}

/// The cosigners are asked to sign the tree of a round.
pub struct RoundSigningEvent {
    pub id: String,
    pub cosigners_pubkeys: Vec<PublicKey>,
    pub unsigned_vtxo_tree: Option<Tree>,
    pub unsigned_round_tx: Psbt,
}

/// The value of a [`RoundSigningEvent`].
pub struct RoundSigningEventView {
    pub id: Seq<char>,
    pub cosigners_pubkeys: Seq<Seq<u8>>,
    pub unsigned_vtxo_tree: Option<Seq<Seq<NodeView>>>,
    pub unsigned_round_tx: Seq<u8>,
}

impl View for RoundSigningEvent {
    type V = RoundSigningEventView;

    open spec fn view(&self) -> RoundSigningEventView {
        RoundSigningEventView {
            id: self.id@,
            cosigners_pubkeys: views::views(self.cosigners_pubkeys@),
            unsigned_vtxo_tree: views::option_view(self.unsigned_vtxo_tree),
            unsigned_round_tx: self.unsigned_round_tx@,
        }
    }
}

/// The nonces of all cosigners have been combined.
pub struct RoundSigningNoncesGeneratedEvent {
    pub id: String,
    pub tree_nonces: Vec<Vec<Vec<u8>>>,
}

/// The value of a [`RoundSigningNoncesGeneratedEvent`].
pub struct RoundSigningNoncesGeneratedEventView {
    pub id: Seq<char>,
    pub tree_nonces: Seq<Seq<Seq<u8>>>,
}

impl View for RoundSigningNoncesGeneratedEvent {
    type V = RoundSigningNoncesGeneratedEventView;

    open spec fn view(&self) -> RoundSigningNoncesGeneratedEventView {
        RoundSigningNoncesGeneratedEventView {
            id: self.id@,
            tree_nonces: views::views2(self.tree_nonces@),
        }
    }
}

/// The inputs of a round are to be signed.
pub struct RoundFinalizationEvent {
    pub id: String,
    pub round_tx: Psbt,
    pub vtxo_tree: Option<Tree>,
    pub connectors: Vec<Psbt>,
    pub min_relay_fee_rate: i64,
}

/// The value of a [`RoundFinalizationEvent`].
pub struct RoundFinalizationEventView {
    pub id: Seq<char>,
    pub round_tx: Seq<u8>,
    pub vtxo_tree: Option<Seq<Seq<NodeView>>>,
    pub connectors: Seq<Seq<u8>>,
    pub min_relay_fee_rate: i64,
}

impl View for RoundFinalizationEvent {
    type V = RoundFinalizationEventView;

    open spec fn view(&self) -> RoundFinalizationEventView {
        RoundFinalizationEventView {
            id: self.id@,
            round_tx: self.round_tx@,
            vtxo_tree: views::option_view(self.vtxo_tree),
            connectors: views::views(self.connectors@),
            min_relay_fee_rate: self.min_relay_fee_rate,
        }
    }
}

/// A round is over.
pub struct RoundFinalizedEvent {
    pub id: String,
    pub round_txid: Txid,
}

/// The value of a [`RoundFinalizedEvent`].
pub struct RoundFinalizedEventView {
    pub id: Seq<char>,
    pub round_txid: Seq<u8>,
}

impl View for RoundFinalizedEvent {
    type V = RoundFinalizedEventView;

    open spec fn view(&self) -> RoundFinalizedEventView {
        RoundFinalizedEventView { id: self.id@, round_txid: self.round_txid@ }
    }
}

/// A round has failed.
pub struct RoundFailedEvent {
    pub id: String,
    pub reason: String,
}

/// The value of a [`RoundFailedEvent`].
pub struct RoundFailedEventView {
    pub id: Seq<char>,
    pub reason: Seq<char>,
}

impl View for RoundFailedEvent {
    type V = RoundFailedEventView;

    open spec fn view(&self) -> RoundFailedEventView {
        RoundFailedEventView { id: self.id@, reason: self.reason@ }
    }
}

/// An event of a round.
pub enum RoundStreamEvent {
    RoundFinalization(RoundFinalizationEvent),
    RoundFinalized(RoundFinalizedEvent),
    RoundFailed(RoundFailedEvent),
    RoundSigning(RoundSigningEvent),
    RoundSigningNoncesGenerated(RoundSigningNoncesGeneratedEvent),
}

/// The value of a [`RoundStreamEvent`].
pub enum RoundStreamEventView {
    RoundFinalization(RoundFinalizationEventView),
    RoundFinalized(RoundFinalizedEventView),
    RoundFailed(RoundFailedEventView),
    RoundSigning(RoundSigningEventView),
    RoundSigningNoncesGenerated(RoundSigningNoncesGeneratedEventView),
}

impl View for RoundStreamEvent {
    type V = RoundStreamEventView;

    open spec fn view(&self) -> RoundStreamEventView {
        match *self {
            RoundStreamEvent::RoundFinalization(e) => RoundStreamEventView::RoundFinalization(e@),
            RoundStreamEvent::RoundFinalized(e) => RoundStreamEventView::RoundFinalized(e@),
            RoundStreamEvent::RoundFailed(e) => RoundStreamEventView::RoundFailed(e@),
            RoundStreamEvent::RoundSigning(e) => RoundStreamEventView::RoundSigning(e@),
            RoundStreamEvent::RoundSigningNoncesGenerated(e) => {
                RoundStreamEventView::RoundSigningNoncesGenerated(e@)
            },
        }
    }
}

/// A round of the past.
pub struct Round {
    pub id: String,
    pub start: i64,
    pub end: i64,
    pub round_tx: Psbt,
    pub vtxo_tree: Option<Tree>,
    pub forfeit_txs: Vec<Psbt>,
    pub connectors: Vec<Psbt>,
    pub stage: i32,
}

/// The value of a [`Round`].
pub struct RoundView {
    pub id: Seq<char>,
    pub start: i64,
    pub end: i64,
    pub round_tx: Seq<u8>,
    pub vtxo_tree: Option<Seq<Seq<NodeView>>>,
    pub forfeit_txs: Seq<Seq<u8>>,
    pub connectors: Seq<Seq<u8>>,
    pub stage: i32,
}

impl View for Round {
    type V = RoundView;

    open spec fn view(&self) -> RoundView {
        RoundView {
            id: self.id@,
            start: self.start,
            end: self.end,
            round_tx: self.round_tx@,
            vtxo_tree: views::option_view(self.vtxo_tree),
            forfeit_txs: views::views(self.forfeit_txs@),
            connectors: views::views(self.connectors@),
            stage: self.stage,
        }
    }
}

/// What a round did to the outputs.
pub struct RoundTransaction {
    pub txid: Txid,
    pub spent_vtxos: Vec<OutPoint>,
    pub spendable_vtxos: Vec<VtxoOutPoint>,
    pub claimed_boarding_utxos: Vec<OutPoint>,
}

/// The value of a [`RoundTransaction`].
pub struct RoundTransactionView {
    pub txid: Seq<u8>,
    pub spent_vtxos: Seq<OutPointView>,
    pub spendable_vtxos: Seq<VtxoOutPointView>,
    pub claimed_boarding_utxos: Seq<OutPointView>,
}

impl View for RoundTransaction {
    type V = RoundTransactionView;

    open spec fn view(&self) -> RoundTransactionView {
        RoundTransactionView {
            txid: self.txid@,
            spent_vtxos: views::views(self.spent_vtxos@),
            spendable_vtxos: views::views(self.spendable_vtxos@),
            claimed_boarding_utxos: views::views(self.claimed_boarding_utxos@),
        }
    }
}

/// What an off-chain payment did to the outputs.
pub struct RedeemTransaction {
    pub txid: Txid,
    pub spent_vtxos: Vec<OutPoint>,
    pub spendable_vtxos: Vec<VtxoOutPoint>,
}

/// The value of a [`RedeemTransaction`].
pub struct RedeemTransactionView {
    pub txid: Seq<u8>,
    pub spent_vtxos: Seq<OutPointView>,
    pub spendable_vtxos: Seq<VtxoOutPointView>,
}

impl View for RedeemTransaction {
    type V = RedeemTransactionView;

    open spec fn view(&self) -> RedeemTransactionView {
        RedeemTransactionView {
            txid: self.txid@,
            spent_vtxos: views::views(self.spent_vtxos@),
            spendable_vtxos: views::views(self.spendable_vtxos@),
        }
    }
}

/// An event of the transaction stream.
pub enum TransactionEvent {
    Round(RoundTransaction),
    Redeem(RedeemTransaction),
}

/// The value of a [`TransactionEvent`].
pub enum TransactionEventView {
    Round(RoundTransactionView),
    Redeem(RedeemTransactionView),
}

impl View for TransactionEvent {
    type V = TransactionEventView;

    open spec fn view(&self) -> TransactionEventView {
        match *self {
            TransactionEvent::Round(t) => TransactionEventView::Round(t@),
            TransactionEvent::Redeem(t) => TransactionEventView::Redeem(t@),
        }
    }
}

} // verus!

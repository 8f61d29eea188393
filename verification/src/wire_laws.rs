//! What holds of the messages of the server as a whole.
//!
//! A message is read as a value just if each of its fields is read as the field of that name, and
//! where it cannot be read, the first part that cannot be read says why.

use vstd::prelude::*;

use crate::armor;
use crate::convert;
use crate::convert::FromWire;
use crate::hex;
use crate::psbt;
use crate::psbt::Psbt;
use crate::server::{
    ListVtxo, ListVtxoView, Node, NodeView, PublicKey, RedeemTransaction, RedeemTransactionView, Round,
    RoundFailedEvent, RoundFailedEventView, RoundFinalizationEvent, RoundFinalizationEventView,
    RoundFinalizedEvent, RoundFinalizedEventView, RoundSigningEvent, RoundSigningEventView,
    RoundSigningNoncesGeneratedEvent, RoundSigningNoncesGeneratedEventView, RoundStreamEvent,
    RoundStreamEventView, RoundTransaction, RoundTransactionView, RoundView, TransactionEvent,
    TransactionEventView, Tree, TreeLevel, VtxoOutPoint, VtxoOutPointView,
};
use crate::tx::{OutPoint, OutPointView, Txid};
use crate::wire;

verus! {

/// A list is read just if each of its messages is, each at its place.
pub proof fn law_list_is_read_item_by_item<W, T: FromWire<W>>(values: Seq<W>, items: Seq<<T as View>::V>)
    ensures
        convert::all_of_wire::<W, T>(values) == Ok::<Seq<<T as View>::V>, Seq<char>>(items) <==> (
        items.len() == values.len() && forall|i: int|
            0 <= i < values.len() ==> T::of_wire(#[trigger] values[i]) == Ok::<
                <T as View>::V,
                Seq<char>,
            >(items[i])),
    decreases values.len(),
{
    if values.len() == 0 {
        assert(items.len() == 0 ==> items =~= Seq::empty());
    } else if convert::all_of_wire::<W, T>(values) == Ok::<Seq<<T as View>::V>, Seq<char>>(items) {
        convert::lemma_all_of_wire::<W, T>(values);
    } else if items.len() == values.len() && forall|i: int|
        0 <= i < values.len() ==> T::of_wire(#[trigger] values[i]) == Ok::<<T as View>::V, Seq<char>>(
            items[i],
        ) {
        let before = values.drop_last();
        assert forall|i: int| 0 <= i < before.len() implies T::of_wire(#[trigger] before[i]) == Ok::<
            <T as View>::V,
            Seq<char>,
        >(items.drop_last()[i]) by {
            assert(before[i] == values[i]);
        }
        law_list_is_read_item_by_item::<W, T>(before, items.drop_last());
        assert(T::of_wire(values[values.len() - 1]) == Ok::<<T as View>::V, Seq<char>>(
            items[values.len() - 1],
        ));
        assert(items.drop_last().push(items.last()) =~= items);
    }
}

/// A list that cannot be read is refused for the first of its messages that cannot be read.
pub proof fn law_first_unreadable_item_counts<W, T: FromWire<W>>(
    values: Seq<W>,
    k: int,
    cause: Seq<char>,
)
    requires
        0 <= k < values.len(),
        forall|i: int| 0 <= i < k ==> T::of_wire(#[trigger] values[i]) is Ok,
        T::of_wire(values[k]) == Err::<<T as View>::V, Seq<char>>(cause),
    ensures
        convert::all_of_wire::<W, T>(values) == Err::<Seq<<T as View>::V>, Seq<char>>(cause),
    decreases values.len(),
{
    let before = values.drop_last();
    if k < values.len() - 1 {
        assert forall|i: int| 0 <= i < k implies T::of_wire(#[trigger] before[i]) is Ok by {
            assert(before[i] == values[i]);
        }
        law_first_unreadable_item_counts::<W, T>(before, k, cause);
    } else {
        let items = Seq::new(before.len(), |i: int| T::of_wire(before[i])->Ok_0);
        assert forall|i: int| 0 <= i < before.len() implies T::of_wire(#[trigger] before[i]) == Ok::<
            <T as View>::V,
            Seq<char>,
        >(items[i]) by {
            assert(before[i] == values[i]);
        }
        law_list_is_read_item_by_item::<W, T>(before, items);
    }
}

/// A message that is missing is read as nothing, and one that is there as what it stands for.
pub proof fn law_missing_message_is_nothing<W, T: FromWire<W>>(message: W)
    ensures
        convert::option_of_wire::<W, T>(None) == Ok::<Option<<T as View>::V>, Seq<char>>(None),
        match T::of_wire(message) {
            Ok(v) => convert::option_of_wire::<W, T>(Some(message)) == Ok::<
                Option<<T as View>::V>,
                Seq<char>,
            >(Some(v)),
            Err(cause) => convert::option_of_wire::<W, T>(Some(message)) == Err::<
                Option<<T as View>::V>,
                Seq<char>,
            >(cause),
        },
{
}

/// A text is read as the transaction whose encoding it holds in base64, and as the transaction id
/// whose bytes it holds in hexadecimal.
pub proof fn law_texts_are_read_back(text: String, tx: Seq<u8>, txid: Seq<u8>)
    ensures
        text@ == armor::base64_text(tx) ==> <Psbt as FromWire<String>>::of_wire(text)
            == psbt::read_psbt(tx),
        text@ == hex::txid_text(txid) && txid.len() == 32 ==> <Txid as FromWire<String>>::of_wire(text)
            == Ok::<Seq<u8>, Seq<char>>(txid),
{
    armor::law_base64_round_trip(tx);
    if txid.len() == 32 {
        hex::law_txid_round_trip(txid);
    }
}

/// An outpoint is read field by field.
pub proof fn law_outpoint_is_read(message: wire::Outpoint, value: OutPointView)
    ensures
        <OutPoint as FromWire<wire::Outpoint>>::of_wire(message) == Ok::<OutPointView, Seq<char>>(value)
            <==> (hex::txid_of_text(message.txid@) == Some(value.txid) && message.vout == value.vout),
{
}

/// A VTXO is read field by field.
pub proof fn law_vtxo_is_read(message: wire::Vtxo, value: VtxoOutPointView)
    ensures
        <VtxoOutPoint as FromWire<wire::Vtxo>>::of_wire(message) == Ok::<VtxoOutPointView, Seq<char>>(
            value,
        ) <==> (message.amount == value.amount && message.round_txid@ == value.round_txid
            && message.redeem_tx@ == value.redeem_tx && match (message.outpoint, value.outpoint) {
            (Some(m), Some(o)) => hex::txid_of_text(m.txid@) == Some(o.txid) && m.vout == o.vout,
            (None, None) => true,
            _ => false,
        }),
{
}

/// A node of a tree is read field by field, and refused for the first field that cannot be read.
pub proof fn law_node_is_read(message: wire::Node, value: NodeView)
    ensures
        <Node as FromWire<wire::Node>>::of_wire(message) == Ok::<NodeView, Seq<char>>(value) <==> (
        hex::txid_of_text(message.txid@) == Some(value.txid) && convert::psbt_of_text(message.tx@)
            == Ok::<Seq<u8>, Seq<char>>(value.tx) && hex::txid_of_text(message.parent_txid@) == Some(
            value.parent_txid,
        )),
        match <Node as FromWire<wire::Node>>::of_wire(message) {
            Err(cause) => if hex::txid_of_text(message.txid@) is None {
                convert::read_txid(message.txid@) == Err::<Seq<u8>, Seq<char>>(cause)
            } else if convert::psbt_of_text(message.tx@) is Err {
                convert::psbt_of_text(message.tx@) == Err::<Seq<u8>, Seq<char>>(cause)
            } else {
                convert::read_txid(message.parent_txid@) == Err::<Seq<u8>, Seq<char>>(cause)
            },
            Ok(_) => true,
        },
{
}

/// A tree is read just if each of its nodes is, each at its place in its level.
pub proof fn law_tree_is_read_node_by_node(message: wire::Tree, levels: Seq<Seq<NodeView>>)
    ensures
        <Tree as FromWire<wire::Tree>>::of_wire(message) == Ok::<Seq<Seq<NodeView>>, Seq<char>>(levels)
            <==> (levels.len() == message.levels@.len() && (forall|i: int|
            0 <= i < levels.len() ==> (#[trigger] levels[i]).len() == message.levels@[i].nodes@.len())
            && (forall|i: int, j: int|
            0 <= i < levels.len() && 0 <= j < levels[i].len() ==> <Node as FromWire<
                wire::Node,
            >>::of_wire(message.levels@[i].nodes@[j]) == Ok::<NodeView, Seq<char>>(
                #[trigger] levels[i][j],
            ))),
{
    let rows = message.levels@;
    law_list_is_read_item_by_item::<wire::TreeLevel, TreeLevel>(rows, levels);
    assert forall|i: int| 0 <= i < rows.len() && levels.len() == rows.len() implies (
    <TreeLevel as FromWire<wire::TreeLevel>>::of_wire(#[trigger] rows[i]) == Ok::<
        Seq<NodeView>,
        Seq<char>,
    >(levels[i]) <==> (levels[i].len() == rows[i].nodes@.len() && forall|j: int|
        0 <= j < levels[i].len() ==> <Node as FromWire<wire::Node>>::of_wire(rows[i].nodes@[j]) == Ok::<
            NodeView,
            Seq<char>,
        >(#[trigger] levels[i][j]))) by {
        law_list_is_read_item_by_item::<wire::Node, Node>(rows[i].nodes@, levels[i]);
    }
}

/// The VTXOs of an address are read list by list.
pub proof fn law_vtxo_list_is_read(message: wire::ListVtxosResponse, value: ListVtxoView)
    ensures
        <ListVtxo as FromWire<wire::ListVtxosResponse>>::of_wire(message) == Ok::<
            ListVtxoView,
            Seq<char>,
        >(value) <==> (convert::all_of_wire::<wire::Vtxo, VtxoOutPoint>(message.spent_vtxos@) == Ok::<
            Seq<VtxoOutPointView>,
            Seq<char>,
        >(value.spent) && convert::all_of_wire::<wire::Vtxo, VtxoOutPoint>(message.spendable_vtxos@)
            == Ok::<Seq<VtxoOutPointView>, Seq<char>>(value.spendable)),
{
}

/// The request to sign a tree is read field by field.
pub proof fn law_signing_event_is_read(message: wire::RoundSigningEvent, value: RoundSigningEventView)
    ensures
        <RoundSigningEvent as FromWire<wire::RoundSigningEvent>>::of_wire(message) == Ok::<
            RoundSigningEventView,
            Seq<char>,
        >(value) <==> (message.id@ == value.id && convert::all_of_wire::<String, PublicKey>(
            message.cosigners_pubkeys@,
        ) == Ok::<Seq<Seq<u8>>, Seq<char>>(value.cosigners_pubkeys) && convert::option_of_wire::<
            wire::Tree,
            Tree,
        >(message.unsigned_vtxo_tree) == Ok::<Option<Seq<Seq<NodeView>>>, Seq<char>>(
            value.unsigned_vtxo_tree,
        ) && convert::psbt_of_text(message.unsigned_round_tx@) == Ok::<Seq<u8>, Seq<char>>(
            value.unsigned_round_tx,
        )),
{
}

/// The combined nonces are read as they are, each at its place.
pub proof fn law_nonces_event_is_read(
    message: wire::RoundSigningNoncesGeneratedEvent,
    value: RoundSigningNoncesGeneratedEventView,
)
    ensures
        <RoundSigningNoncesGeneratedEvent as FromWire<
            wire::RoundSigningNoncesGeneratedEvent,
        >>::of_wire(message) == Ok::<RoundSigningNoncesGeneratedEventView, Seq<char>>(value) <==> (
        message.id@ == value.id && (message.tree_nonces matches Ok(tree) && tree@.len()
            == value.tree_nonces.len() && (forall|i: int|
            0 <= i < tree@.len() ==> (#[trigger] tree@[i])@.len() == value.tree_nonces[i].len())
            && (forall|i: int, j: int|
            0 <= i < tree@.len() && 0 <= j < tree@[i]@.len() ==> (#[trigger] tree@[i]@[j])@
                == value.tree_nonces[i][j]))),
        message.tree_nonces matches Err(cause) ==> <RoundSigningNoncesGeneratedEvent as FromWire<
            wire::RoundSigningNoncesGeneratedEvent,
        >>::of_wire(message) == Err::<RoundSigningNoncesGeneratedEventView, Seq<char>>(cause@),
{
    if let Ok(tree) = message.tree_nonces {
        let shown = crate::views::views2(tree@);
        if tree@.len() == value.tree_nonces.len() && (forall|i: int|
            0 <= i < tree@.len() ==> (#[trigger] tree@[i])@.len() == value.tree_nonces[i].len()) && (
        forall|i: int, j: int|
            0 <= i < tree@.len() && 0 <= j < tree@[i]@.len() ==> (#[trigger] tree@[i]@[j])@
                == value.tree_nonces[i][j]) {
            assert forall|i: int| 0 <= i < tree@.len() implies shown[i] == value.tree_nonces[i] by {
                assert(tree@[i]@.len() == value.tree_nonces[i].len());
                assert forall|j: int| 0 <= j < tree@[i]@.len() implies shown[i][j]
                    == value.tree_nonces[i][j] by {
                    assert(tree@[i]@[j]@ == value.tree_nonces[i][j]);
                }
                assert(shown[i] =~= value.tree_nonces[i]);
            }
            assert(shown =~= value.tree_nonces);
        } else if shown == value.tree_nonces {
            assert forall|i: int| 0 <= i < tree@.len() implies (#[trigger] tree@[i])@.len()
                == value.tree_nonces[i].len() by {
                assert(shown[i].len() == tree@[i]@.len());
            }
            assert forall|i: int, j: int| 0 <= i < tree@.len() && 0 <= j < tree@[i]@.len() implies (
            #[trigger] tree@[i]@[j])@ == value.tree_nonces[i][j] by {
                assert(shown[i][j] == tree@[i]@[j]@);
            }
        }
    }
}

/// The request to finalize a round is read field by field.
pub proof fn law_finalization_event_is_read(
    message: wire::RoundFinalizationEvent,
    value: RoundFinalizationEventView,
)
    ensures
        <RoundFinalizationEvent as FromWire<wire::RoundFinalizationEvent>>::of_wire(message) == Ok::<
            RoundFinalizationEventView,
            Seq<char>,
        >(value) <==> (message.id@ == value.id && convert::psbt_of_text(message.round_tx@) == Ok::<
            Seq<u8>,
            Seq<char>,
        >(value.round_tx) && convert::option_of_wire::<wire::Tree, Tree>(message.vtxo_tree) == Ok::<
            Option<Seq<Seq<NodeView>>>,
            Seq<char>,
        >(value.vtxo_tree) && convert::all_of_wire::<String, Psbt>(message.connectors@) == Ok::<
            Seq<Seq<u8>>,
            Seq<char>,
        >(value.connectors) && message.min_relay_fee_rate == value.min_relay_fee_rate),
{
}

/// The ends of a round are read field by field.
pub proof fn law_end_of_a_round_is_read(
    finalized: wire::RoundFinalizedEvent,
    end: RoundFinalizedEventView,
    failed: wire::RoundFailed,
    failure: RoundFailedEventView,
)
    ensures
        <RoundFinalizedEvent as FromWire<wire::RoundFinalizedEvent>>::of_wire(finalized) == Ok::<
            RoundFinalizedEventView,
            Seq<char>,
        >(end) <==> (finalized.id@ == end.id && hex::txid_of_text(finalized.round_txid@) == Some(
            end.round_txid,
        )),
        <RoundFailedEvent as FromWire<wire::RoundFailed>>::of_wire(failed) == Ok::<
            RoundFailedEventView,
            Seq<char>,
        >(failure) <==> (failed.id@ == failure.id && failed.reason@ == failure.reason),
{
}

/// An event of a round is read as an event of its own kind.
pub proof fn law_event_keeps_its_kind(message: wire::Event, value: RoundStreamEventView)
    ensures
        <RoundStreamEvent as FromWire<wire::Event>>::of_wire(message) == Ok::<
            RoundStreamEventView,
            Seq<char>,
        >(value) <==> match (message, value) {
            (wire::Event::RoundFinalization(m), RoundStreamEventView::RoundFinalization(v)) => {
                <RoundFinalizationEvent as FromWire<wire::RoundFinalizationEvent>>::of_wire(m) == Ok::<
                    RoundFinalizationEventView,
                    Seq<char>,
                >(v)
            },
            (wire::Event::RoundFinalized(m), RoundStreamEventView::RoundFinalized(v)) => {
                <RoundFinalizedEvent as FromWire<wire::RoundFinalizedEvent>>::of_wire(m) == Ok::<
                    RoundFinalizedEventView,
                    Seq<char>,
                >(v)
            },
            (wire::Event::RoundFailed(m), RoundStreamEventView::RoundFailed(v)) => {
                <RoundFailedEvent as FromWire<wire::RoundFailed>>::of_wire(m) == Ok::<
                    RoundFailedEventView,
                    Seq<char>,
                >(v)
            },
            (wire::Event::RoundSigning(m), RoundStreamEventView::RoundSigning(v)) => {
                <RoundSigningEvent as FromWire<wire::RoundSigningEvent>>::of_wire(m) == Ok::<
                    RoundSigningEventView,
                    Seq<char>,
                >(v)
            },
            (
                wire::Event::RoundSigningNoncesGenerated(m),
                RoundStreamEventView::RoundSigningNoncesGenerated(v),
            ) => {
                <RoundSigningNoncesGeneratedEvent as FromWire<
                    wire::RoundSigningNoncesGeneratedEvent,
                >>::of_wire(m) == Ok::<RoundSigningNoncesGeneratedEventView, Seq<char>>(v)
            },
            _ => false,
        },
{
}

/// A round of the past is read field by field.
pub proof fn law_round_is_read(message: wire::Round, value: RoundView)
    ensures
        <Round as FromWire<wire::Round>>::of_wire(message) == Ok::<RoundView, Seq<char>>(value) <==> (
        message.id@ == value.id && message.start == value.start && message.end == value.end
            && message.stage == value.stage && convert::psbt_of_text(message.round_tx@) == Ok::<
            Seq<u8>,
            Seq<char>,
        >(value.round_tx) && convert::option_of_wire::<wire::Tree, Tree>(message.vtxo_tree) == Ok::<
            Option<Seq<Seq<NodeView>>>,
            Seq<char>,
        >(value.vtxo_tree) && convert::all_of_wire::<String, Psbt>(message.forfeit_txs@) == Ok::<
            Seq<Seq<u8>>,
            Seq<char>,
        >(value.forfeit_txs) && convert::all_of_wire::<String, Psbt>(message.connectors@) == Ok::<
            Seq<Seq<u8>>,
            Seq<char>,
        >(value.connectors)),
{
}

/// What a round did to the outputs is read field by field.
pub proof fn law_round_transaction_is_read(message: wire::RoundTransaction, value: RoundTransactionView)
    ensures
        <RoundTransaction as FromWire<wire::RoundTransaction>>::of_wire(message) == Ok::<
            RoundTransactionView,
            Seq<char>,
        >(value) <==> (hex::txid_of_text(message.txid@) == Some(value.txid) && convert::all_of_wire::<
            wire::Outpoint,
            OutPoint,
        >(message.spent_vtxos@) == Ok::<Seq<OutPointView>, Seq<char>>(value.spent_vtxos)
            && convert::all_of_wire::<wire::Vtxo, VtxoOutPoint>(message.spendable_vtxos@) == Ok::<
            Seq<VtxoOutPointView>,
            Seq<char>,
        >(value.spendable_vtxos) && convert::all_of_wire::<wire::Outpoint, OutPoint>(
            message.claimed_boarding_utxos@,
        ) == Ok::<Seq<OutPointView>, Seq<char>>(value.claimed_boarding_utxos)),
{
}

/// What an off-chain payment did to the outputs is read field by field.
pub proof fn law_redeem_transaction_is_read(
    message: wire::RedeemTransaction,
    value: RedeemTransactionView,
)
    ensures
        <RedeemTransaction as FromWire<wire::RedeemTransaction>>::of_wire(message) == Ok::<
            RedeemTransactionView,
            Seq<char>,
        >(value) <==> (hex::txid_of_text(message.txid@) == Some(value.txid) && convert::all_of_wire::<
            wire::Outpoint,
            OutPoint,
        >(message.spent_vtxos@) == Ok::<Seq<OutPointView>, Seq<char>>(value.spent_vtxos)
            && convert::all_of_wire::<wire::Vtxo, VtxoOutPoint>(message.spendable_vtxos@) == Ok::<
            Seq<VtxoOutPointView>,
            Seq<char>,
        >(value.spendable_vtxos)),
{
}

/// A transaction of the stream is read as one of its own kind.
pub proof fn law_transaction_keeps_its_kind(message: wire::Tx, value: TransactionEventView)
    ensures
        <TransactionEvent as FromWire<wire::Tx>>::of_wire(message) == Ok::<
            TransactionEventView,
            Seq<char>,
        >(value) <==> match (message, value) {
            (wire::Tx::Round(m), TransactionEventView::Round(v)) => {
                <RoundTransaction as FromWire<wire::RoundTransaction>>::of_wire(m) == Ok::<
                    RoundTransactionView,
                    Seq<char>,
                >(v)
            },
            (wire::Tx::Redeem(m), TransactionEventView::Redeem(v)) => {
                <RedeemTransaction as FromWire<wire::RedeemTransaction>>::of_wire(m) == Ok::<
                    RedeemTransactionView,
                    Seq<char>,
                >(v)
            },
            _ => false,
        },
{
}

/// The spent VTXOs of an address are read before the spendable ones.
pub proof fn law_vtxo_list_is_refused_for_its_first_part(
    message: wire::ListVtxosResponse,
    cause: Seq<char>,
)
    ensures
        convert::all_of_wire::<wire::Vtxo, VtxoOutPoint>(message.spent_vtxos@)
                == Err::<Seq<VtxoOutPointView>, Seq<char>>(cause)
            ==> <ListVtxo as FromWire<wire::ListVtxosResponse>>::of_wire(message)
            == Err::<ListVtxoView, Seq<char>>(cause),
        convert::all_of_wire::<wire::Vtxo, VtxoOutPoint>(message.spent_vtxos@) is Ok
            && convert::all_of_wire::<wire::Vtxo, VtxoOutPoint>(message.spendable_vtxos@)
                == Err::<Seq<VtxoOutPointView>, Seq<char>>(cause)
            ==> <ListVtxo as FromWire<wire::ListVtxosResponse>>::of_wire(message)
            == Err::<ListVtxoView, Seq<char>>(cause),
{
}

/// The tree of a finalization is read first, then the transaction, then the connectors.
pub proof fn law_finalization_is_refused_for_its_first_part(
    message: wire::RoundFinalizationEvent,
    cause: Seq<char>,
)
    ensures
        convert::option_of_wire::<wire::Tree, Tree>(message.vtxo_tree)
                == Err::<Option<Seq<Seq<NodeView>>>, Seq<char>>(cause)
            ==> <RoundFinalizationEvent as FromWire<wire::RoundFinalizationEvent>>::of_wire(message)
            == Err::<RoundFinalizationEventView, Seq<char>>(cause),
        convert::option_of_wire::<wire::Tree, Tree>(message.vtxo_tree) is Ok
            && convert::psbt_of_text(message.round_tx@) == Err::<Seq<u8>, Seq<char>>(cause)
            ==> <RoundFinalizationEvent as FromWire<wire::RoundFinalizationEvent>>::of_wire(message)
            == Err::<RoundFinalizationEventView, Seq<char>>(cause),
        convert::option_of_wire::<wire::Tree, Tree>(message.vtxo_tree) is Ok
            && convert::psbt_of_text(message.round_tx@) is Ok
            && convert::all_of_wire::<String, Psbt>(message.connectors@)
                == Err::<Seq<Seq<u8>>, Seq<char>>(cause)
            ==> <RoundFinalizationEvent as FromWire<wire::RoundFinalizationEvent>>::of_wire(message)
            == Err::<RoundFinalizationEventView, Seq<char>>(cause),
{
}

/// The text of the transaction is decoded first, then the tree is read, then the transaction, then
/// the keys.
pub proof fn law_signing_is_refused_for_its_first_part(
    message: wire::RoundSigningEvent,
    cause: Seq<char>,
)
    ensures
        armor::read_base64(message.unsigned_round_tx@) == Err::<Seq<u8>, Seq<char>>(cause)
            ==> <RoundSigningEvent as FromWire<wire::RoundSigningEvent>>::of_wire(message)
            == Err::<RoundSigningEventView, Seq<char>>(cause),
        armor::read_base64(message.unsigned_round_tx@) is Ok
            && convert::option_of_wire::<wire::Tree, Tree>(message.unsigned_vtxo_tree)
                == Err::<Option<Seq<Seq<NodeView>>>, Seq<char>>(cause)
            ==> <RoundSigningEvent as FromWire<wire::RoundSigningEvent>>::of_wire(message)
            == Err::<RoundSigningEventView, Seq<char>>(cause),
        armor::read_base64(message.unsigned_round_tx@) is Ok
            && convert::option_of_wire::<wire::Tree, Tree>(message.unsigned_vtxo_tree) is Ok
            && convert::psbt_of_text(message.unsigned_round_tx@) == Err::<Seq<u8>, Seq<char>>(cause)
            ==> <RoundSigningEvent as FromWire<wire::RoundSigningEvent>>::of_wire(message)
            == Err::<RoundSigningEventView, Seq<char>>(cause),
        armor::read_base64(message.unsigned_round_tx@) is Ok
            && convert::option_of_wire::<wire::Tree, Tree>(message.unsigned_vtxo_tree) is Ok
            && convert::psbt_of_text(message.unsigned_round_tx@) is Ok
            && convert::all_of_wire::<String, PublicKey>(message.cosigners_pubkeys@)
                == Err::<Seq<Seq<u8>>, Seq<char>>(cause)
            ==> <RoundSigningEvent as FromWire<wire::RoundSigningEvent>>::of_wire(message)
            == Err::<RoundSigningEventView, Seq<char>>(cause),
{
}

/// The transaction of a round is read first, then the tree, the forfeit transactions and the
/// connectors.
pub proof fn law_round_is_refused_for_its_first_part(message: wire::Round, cause: Seq<char>)
    ensures
        convert::psbt_of_text(message.round_tx@) == Err::<Seq<u8>, Seq<char>>(cause)
            ==> <Round as FromWire<wire::Round>>::of_wire(message)
            == Err::<RoundView, Seq<char>>(cause),
        convert::psbt_of_text(message.round_tx@) is Ok
            && convert::option_of_wire::<wire::Tree, Tree>(message.vtxo_tree)
                == Err::<Option<Seq<Seq<NodeView>>>, Seq<char>>(cause)
            ==> <Round as FromWire<wire::Round>>::of_wire(message)
            == Err::<RoundView, Seq<char>>(cause),
        convert::psbt_of_text(message.round_tx@) is Ok
            && convert::option_of_wire::<wire::Tree, Tree>(message.vtxo_tree) is Ok
            && convert::all_of_wire::<String, Psbt>(message.forfeit_txs@)
                == Err::<Seq<Seq<u8>>, Seq<char>>(cause)
            ==> <Round as FromWire<wire::Round>>::of_wire(message)
            == Err::<RoundView, Seq<char>>(cause),
        convert::psbt_of_text(message.round_tx@) is Ok
            && convert::option_of_wire::<wire::Tree, Tree>(message.vtxo_tree) is Ok
            && convert::all_of_wire::<String, Psbt>(message.forfeit_txs@) is Ok
            && convert::all_of_wire::<String, Psbt>(message.connectors@)
                == Err::<Seq<Seq<u8>>, Seq<char>>(cause)
            ==> <Round as FromWire<wire::Round>>::of_wire(message)
            == Err::<RoundView, Seq<char>>(cause),
{
}

/// What a round spent is read first, then what it claimed, what it made, and its id.
pub proof fn law_round_transaction_is_refused_for_its_first_part(
    message: wire::RoundTransaction,
    cause: Seq<char>,
)
    ensures
        convert::all_of_wire::<wire::Outpoint, OutPoint>(message.spent_vtxos@)
                == Err::<Seq<OutPointView>, Seq<char>>(cause)
            ==> <RoundTransaction as FromWire<wire::RoundTransaction>>::of_wire(message)
            == Err::<RoundTransactionView, Seq<char>>(cause),
        convert::all_of_wire::<wire::Outpoint, OutPoint>(message.spent_vtxos@) is Ok
            && convert::all_of_wire::<wire::Outpoint, OutPoint>(message.claimed_boarding_utxos@)
                == Err::<Seq<OutPointView>, Seq<char>>(cause)
            ==> <RoundTransaction as FromWire<wire::RoundTransaction>>::of_wire(message)
            == Err::<RoundTransactionView, Seq<char>>(cause),
        convert::all_of_wire::<wire::Outpoint, OutPoint>(message.spent_vtxos@) is Ok
            && convert::all_of_wire::<wire::Outpoint, OutPoint>(message.claimed_boarding_utxos@) is Ok
            && convert::all_of_wire::<wire::Vtxo, VtxoOutPoint>(message.spendable_vtxos@)
                == Err::<Seq<VtxoOutPointView>, Seq<char>>(cause)
            ==> <RoundTransaction as FromWire<wire::RoundTransaction>>::of_wire(message)
            == Err::<RoundTransactionView, Seq<char>>(cause),
        convert::all_of_wire::<wire::Outpoint, OutPoint>(message.spent_vtxos@) is Ok
            && convert::all_of_wire::<wire::Outpoint, OutPoint>(message.claimed_boarding_utxos@) is Ok
            && convert::all_of_wire::<wire::Vtxo, VtxoOutPoint>(message.spendable_vtxos@) is Ok
            && convert::read_txid(message.txid@) == Err::<Seq<u8>, Seq<char>>(cause)
            ==> <RoundTransaction as FromWire<wire::RoundTransaction>>::of_wire(message)
            == Err::<RoundTransactionView, Seq<char>>(cause),
{
}

/// What a payment spent is read first, then what it made, and its id.
pub proof fn law_redeem_transaction_is_refused_for_its_first_part(
    message: wire::RedeemTransaction,
    cause: Seq<char>,
)
    ensures
        convert::all_of_wire::<wire::Outpoint, OutPoint>(message.spent_vtxos@)
                == Err::<Seq<OutPointView>, Seq<char>>(cause)
            ==> <RedeemTransaction as FromWire<wire::RedeemTransaction>>::of_wire(message)
            == Err::<RedeemTransactionView, Seq<char>>(cause),
        convert::all_of_wire::<wire::Outpoint, OutPoint>(message.spent_vtxos@) is Ok
            && convert::all_of_wire::<wire::Vtxo, VtxoOutPoint>(message.spendable_vtxos@)
                == Err::<Seq<VtxoOutPointView>, Seq<char>>(cause)
            ==> <RedeemTransaction as FromWire<wire::RedeemTransaction>>::of_wire(message)
            == Err::<RedeemTransactionView, Seq<char>>(cause),
        convert::all_of_wire::<wire::Outpoint, OutPoint>(message.spent_vtxos@) is Ok
            && convert::all_of_wire::<wire::Vtxo, VtxoOutPoint>(message.spendable_vtxos@) is Ok
            && convert::read_txid(message.txid@) == Err::<Seq<u8>, Seq<char>>(cause)
            ==> <RedeemTransaction as FromWire<wire::RedeemTransaction>>::of_wire(message)
            == Err::<RedeemTransactionView, Seq<char>>(cause),
{
}

} // verus!

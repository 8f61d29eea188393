//! From the messages of the server to the types of the client.
//!
//! Every message is read or refused as a whole: where one part of it cannot be read, the whole
//! message is a conversion error, for the cause of the first such part.

use vstd::prelude::*;

use crate::armor;
use crate::armor::decode_base64;
use crate::error;
use crate::error::Error;
use crate::hex;
use crate::keys;
use crate::keys::read_public_key;
use crate::psbt;
use crate::psbt::Psbt;
use crate::server::{
    ListVtxo, ListVtxoView, Node, NodeView, PublicKey, RedeemTransaction, RedeemTransactionView, Round,
    RoundFailedEvent, RoundFailedEventView, RoundFinalizationEvent, RoundFinalizationEventView,
    RoundFinalizedEvent, RoundFinalizedEventView, RoundSigningEvent, RoundSigningEventView,
    RoundSigningNoncesGeneratedEvent, RoundSigningNoncesGeneratedEventView, RoundStreamEvent,
    RoundStreamEventView, RoundTransaction, RoundTransactionView, RoundView, TransactionEvent,
    TransactionEventView, Tree, TreeLevel, VtxoOutPoint, VtxoOutPointView,
};
use crate::tx;
use crate::tx::{txid_error_text, OutPoint, OutPointView, Txid};
use crate::views;
use crate::views::copy_bytes;
use crate::wire;

verus! {

/// A type that is read from a message of the server.
pub trait FromWire<W>: View + Sized {
    /// The value that a message stands for, or why it cannot be read.
    spec fn of_wire(value: W) -> Result<<Self as View>::V, Seq<char>>;

    /// Reads a message.
    fn from_wire(value: &W) -> (read: Result<Self, Error>)
        ensures
            error::is_reading(read, Self::of_wire(*value)),
    ;
}

/// The values that a list of messages stands for, or why the first that cannot be read cannot be
/// read.
pub open spec fn all_of_wire<W, T: FromWire<W>>(values: Seq<W>) -> Result<
    Seq<<T as View>::V>,
    Seq<char>,
>
    decreases values.len(),
{
    if values.len() == 0 {
        Ok(Seq::empty())
    } else {
        match all_of_wire::<W, T>(values.drop_last()) {
            Ok(before) => match T::of_wire(values.last()) {
                Ok(v) => Ok(before.push(v)),
                Err(cause) => Err(cause),
            },
            Err(cause) => Err(cause),
        }
    }
}

/// The value that an optional message stands for, or why it cannot be read where it is not missing.
pub open spec fn option_of_wire<W, T: FromWire<W>>(value: Option<W>) -> Result<
    Option<<T as View>::V>,
    Seq<char>,
> {
    match value {
        Some(w) => match T::of_wire(w) {
            Ok(v) => Ok(Some(v)),
            Err(cause) => Err(cause),
        },
        None => Ok(None),
    }
}

/// That a reading of a list gave what there was to be read.
pub open spec fn is_list_reading<T: View>(
    read: Result<Vec<T>, Error>,
    values: Result<Seq<T::V>, Seq<char>>,
) -> bool {
    match values {
        Ok(v) => read matches Ok(items) && views::views(items@) == v,
        Err(cause) => read matches Err(e) && error::is_conversion(e, cause),
    }
}

/// That a reading of an optional message gave what there was to be read.
pub open spec fn is_option_reading<T: View>(
    read: Result<Option<T>, Error>,
    value: Result<Option<T::V>, Seq<char>>,
) -> bool {
    match value {
        Ok(v) => read matches Ok(item) && views::option_view(item) == v,
        Err(cause) => read matches Err(e) && error::is_conversion(e, cause),
    }
}

/// A list that cannot be read at some place cannot be read as a whole.
proof fn lemma_unread_part<W, T: FromWire<W>>(values: Seq<W>, n: int)
    requires
        0 <= n <= values.len(),
        all_of_wire::<W, T>(values.take(n)) is Err,
    ensures
        all_of_wire::<W, T>(values) == all_of_wire::<W, T>(values.take(n)),
    decreases values.len() - n,
{
    if n == values.len() {
        assert(values.take(n) =~= values);
    } else {
        assert(values.take(n + 1).drop_last() =~= values.take(n));
        lemma_unread_part::<W, T>(values, n + 1);
    }
}

/// The values of a list that can be read are those of its messages.
pub proof fn lemma_all_of_wire<W, T: FromWire<W>>(values: Seq<W>)
    requires
        all_of_wire::<W, T>(values) is Ok,
    ensures
        (all_of_wire::<W, T>(values)->Ok_0).len() == values.len(),
        forall|i: int|
            0 <= i < values.len() ==> T::of_wire(#[trigger] values[i])
                == Ok::<<T as View>::V, Seq<char>>((all_of_wire::<W, T>(values)->Ok_0)[i]),
    decreases values.len(),
{
    if values.len() > 0 {
        lemma_all_of_wire::<W, T>(values.drop_last());
        assert forall|i: int| 0 <= i < values.len() implies T::of_wire(#[trigger] values[i])
            == Ok::<<T as View>::V, Seq<char>>((all_of_wire::<W, T>(values)->Ok_0)[i]) by {
            if i < values.len() - 1 {
                assert(values.drop_last()[i] == values[i]);
            }
        }
    }
}

/// Reads a list of messages.
pub fn read_all<W, T: FromWire<W>>(values: &Vec<W>) -> (read: Result<Vec<T>, Error>)
    ensures
        is_list_reading(read, all_of_wire::<W, T>(values@)),
{
    let mut items: Vec<T> = Vec::new();
    let mut i: usize = 0;
    assert(views::views(items@) =~= Seq::empty());
    while i < values.len()
        invariant
            i <= values@.len(),
            all_of_wire::<W, T>(values@.take(i as int)) == Ok::<Seq<<T as View>::V>, Seq<char>>(
                views::views(items@),
            ),
        decreases values@.len() - i,
    {
        assert(values@.take(i + 1).drop_last() =~= values@.take(i as int));
        let ghost before = items@;
        match T::from_wire(&values[i]) {
            Ok(item) => {
                items.push(item);
                assert(views::views(items@) =~= views::views(before).push(item@));
            },
            Err(e) => {
                proof {
                    lemma_unread_part::<W, T>(values@, i + 1);
                }
                return Err(e);
            },
        }
        i = i + 1;
    }
    assert(values@.take(i as int) =~= values@);
    Ok(items)
}

/// Reads an optional message.
pub fn read_option<W, T: FromWire<W>>(value: &Option<W>) -> (read: Result<Option<T>, Error>)
    ensures
        is_option_reading(read, option_of_wire::<W, T>(*value)),
{
    match value {
        Some(w) => match T::from_wire(w) {
            Ok(item) => Ok(Some(item)),
            Err(e) => Err(e),
        },
        None => Ok(None),
    }
}

/// The encoding of the partially signed transaction that a text holds, or why it holds none.
pub open spec fn psbt_of_text(text: Seq<char>) -> Result<Seq<u8>, Seq<char>> {
    match armor::read_base64(text) {
        Ok(bytes) => psbt::read_psbt(bytes),
        Err(cause) => Err(cause),
    }
}

/// The transaction id that a text names, or why it names none.
pub open spec fn read_txid(text: Seq<char>) -> Result<Seq<u8>, Seq<char>> {
    match hex::txid_of_text(text) {
        Some(txid) => Ok(txid),
        None => Err(tx::txid_error(text)),
    }
}

impl FromWire<String> for Psbt {
    open spec fn of_wire(value: String) -> Result<Seq<u8>, Seq<char>> {
        psbt_of_text(value@)
    }

    fn from_wire(value: &String) -> (read: Result<Self, Error>) {
        match decode_base64(value.as_str()) {
            Ok(bytes) => Psbt::deserialize(bytes),
            Err(e) => Err(e),
        }
    }
}

impl FromWire<String> for Txid {
    open spec fn of_wire(value: String) -> Result<Seq<u8>, Seq<char>> {
        read_txid(value@)
    }

    fn from_wire(value: &String) -> (read: Result<Self, Error>) {
        match Txid::parse(value.as_str()) {
            Some(txid) => Ok(txid),
            None => Err(Error::Conversion(txid_error_text(value.as_str()))),
        }
    }
}

impl FromWire<String> for PublicKey {
    open spec fn of_wire(value: String) -> Result<Seq<u8>, Seq<char>> {
        keys::public_key_of_text(value@)
    }

    fn from_wire(value: &String) -> (read: Result<Self, Error>) {
        match read_public_key(value.as_str()) {
            Ok(bytes) => Ok(PublicKey { bytes }),
            Err(e) => Err(Error::Conversion(e)),
        }
    }
}

impl FromWire<wire::Outpoint> for OutPoint {
    open spec fn of_wire(value: wire::Outpoint) -> Result<OutPointView, Seq<char>> {
        match read_txid(value.txid@) {
            Ok(txid) => Ok(OutPointView { txid, vout: value.vout }),
            Err(cause) => Err(cause),
        }
    }

    fn from_wire(value: &wire::Outpoint) -> (read: Result<Self, Error>) {
        match Txid::from_wire(&value.txid) {
            Ok(txid) => Ok(OutPoint { txid, vout: value.vout }),
            Err(e) => Err(e),
        }
    }
}

impl FromWire<wire::Vtxo> for VtxoOutPoint {
    open spec fn of_wire(value: wire::Vtxo) -> Result<VtxoOutPointView, Seq<char>> {
        match option_of_wire::<wire::Outpoint, OutPoint>(value.outpoint) {
            Ok(outpoint) => Ok(
                VtxoOutPointView {
                    outpoint,
                    amount: value.amount,
                    round_txid: value.round_txid@,
                    redeem_tx: value.redeem_tx@,
                },
            ),
            Err(cause) => Err(cause),
        }
    }

    fn from_wire(value: &wire::Vtxo) -> (read: Result<Self, Error>) {
        let outpoint: Option<OutPoint> = match read_option(&value.outpoint) {
            Ok(o) => o,
            Err(e) => {
                return Err(e);
            },
        };
        Ok(
            VtxoOutPoint {
                outpoint,
                amount: value.amount,
                round_txid: value.round_txid.clone(),
                redeem_tx: value.redeem_tx.clone(),
            },
        )
    }
}

impl FromWire<wire::Node> for Node {
    open spec fn of_wire(value: wire::Node) -> Result<NodeView, Seq<char>> {
        match (read_txid(value.txid@), psbt_of_text(value.tx@), read_txid(value.parent_txid@)) {
            (Ok(txid), Ok(tx), Ok(parent_txid)) => Ok(NodeView { txid, tx, parent_txid }),
            (Err(cause), _, _) => Err(cause),
            (_, Err(cause), _) => Err(cause),
            (_, _, Err(cause)) => Err(cause),
        }
    }

    fn from_wire(value: &wire::Node) -> (read: Result<Self, Error>) {
        let txid: Txid = match Txid::from_wire(&value.txid) {
            Ok(t) => t,
            Err(e) => {
                return Err(e);
            },
        };
        let tx: Psbt = match Psbt::from_wire(&value.tx) {
            Ok(p) => p,
            Err(e) => {
                return Err(e);
            },
        };
        let parent_txid: Txid = match Txid::from_wire(&value.parent_txid) {
            Ok(t) => t,
            Err(e) => {
                return Err(e);
            },
        };
        Ok(Node { txid, tx, parent_txid })
    }
}

impl FromWire<wire::TreeLevel> for TreeLevel {
    open spec fn of_wire(value: wire::TreeLevel) -> Result<Seq<NodeView>, Seq<char>> {
        all_of_wire::<wire::Node, Node>(value.nodes@)
    }

    fn from_wire(value: &wire::TreeLevel) -> (read: Result<Self, Error>) {
        match read_all(&value.nodes) {
            Ok(nodes) => Ok(TreeLevel { nodes }),
            Err(e) => Err(e),
        }
    }
}

impl FromWire<wire::Tree> for Tree {
    open spec fn of_wire(value: wire::Tree) -> Result<Seq<Seq<NodeView>>, Seq<char>> {
        all_of_wire::<wire::TreeLevel, TreeLevel>(value.levels@)
    }

    fn from_wire(value: &wire::Tree) -> (read: Result<Self, Error>) {
        match read_all(&value.levels) {
            Ok(levels) => Ok(Tree { levels }),
            Err(e) => Err(e),
        }
    }
}

/// A tree that is read has the shape of its message: no node is lost, and none is made up.
pub proof fn law_tree_keeps_its_shape(message: wire::Tree)
    requires
        <Tree as FromWire<wire::Tree>>::of_wire(message) is Ok,
    ensures
        ({
            let levels = <Tree as FromWire<wire::Tree>>::of_wire(message)->Ok_0;
            &&& levels.len() == message.levels@.len()
            &&& forall|i: int|
                0 <= i < levels.len() ==> (#[trigger] levels[i]).len()
                    == message.levels@[i].nodes@.len()
        }),
{
    let levels = <Tree as FromWire<wire::Tree>>::of_wire(message)->Ok_0;
    lemma_all_of_wire::<wire::TreeLevel, TreeLevel>(message.levels@);
    assert forall|i: int| 0 <= i < levels.len() implies (#[trigger] levels[i]).len()
        == message.levels@[i].nodes@.len() by {
        assert(TreeLevel::of_wire(message.levels@[i]) is Ok);
        lemma_all_of_wire::<wire::Node, Node>(message.levels@[i].nodes@);
    }
}

impl FromWire<wire::ListVtxosResponse> for ListVtxo {
    open spec fn of_wire(value: wire::ListVtxosResponse) -> Result<ListVtxoView, Seq<char>> {
        match (
            all_of_wire::<wire::Vtxo, VtxoOutPoint>(value.spent_vtxos@),
            all_of_wire::<wire::Vtxo, VtxoOutPoint>(value.spendable_vtxos@),
        ) {
            (Ok(spent), Ok(spendable)) => Ok(ListVtxoView { spent, spendable }),
            (Err(cause), _) => Err(cause),
            (_, Err(cause)) => Err(cause),
        }
    }

    fn from_wire(value: &wire::ListVtxosResponse) -> (read: Result<Self, Error>) {
        let spent: Vec<VtxoOutPoint> = match read_all(&value.spent_vtxos) {
            Ok(v) => v,
            Err(e) => {
                return Err(e);
            },
        };
        let spendable: Vec<VtxoOutPoint> = match read_all(&value.spendable_vtxos) {
            Ok(v) => v,
            Err(e) => {
                return Err(e);
            },
        };
        Ok(ListVtxo { spent, spendable })
    }
}

impl FromWire<wire::RoundFinalizationEvent> for RoundFinalizationEvent {
    open spec fn of_wire(value: wire::RoundFinalizationEvent) -> Result<
        RoundFinalizationEventView,
        Seq<char>,
    > {
        match (
            option_of_wire::<wire::Tree, Tree>(value.vtxo_tree),
            psbt_of_text(value.round_tx@),
            all_of_wire::<String, Psbt>(value.connectors@),
        ) {
            (Ok(vtxo_tree), Ok(round_tx), Ok(connectors)) => Ok(
                RoundFinalizationEventView {
                    id: value.id@,
                    round_tx,
                    vtxo_tree,
                    connectors,
                    min_relay_fee_rate: value.min_relay_fee_rate,
                },
            ),
            (Err(cause), _, _) => Err(cause),
            (_, Err(cause), _) => Err(cause),
            (_, _, Err(cause)) => Err(cause),
        }
    }

    fn from_wire(value: &wire::RoundFinalizationEvent) -> (read: Result<Self, Error>) {
        let vtxo_tree: Option<Tree> = match read_option(&value.vtxo_tree) {
            Ok(t) => t,
            Err(e) => {
                return Err(e);
            },
        };
        let round_tx: Psbt = match Psbt::from_wire(&value.round_tx) {
            Ok(p) => p,
            Err(e) => {
                return Err(e);
            },
        };
        let connectors: Vec<Psbt> = match read_all(&value.connectors) {
            Ok(c) => c,
            Err(e) => {
                return Err(e);
            },
        };
        Ok(
            RoundFinalizationEvent {
                id: value.id.clone(),
                round_tx,
                vtxo_tree,
                connectors,
                min_relay_fee_rate: value.min_relay_fee_rate,
            },
        )
    }
}

impl FromWire<wire::RoundFinalizedEvent> for RoundFinalizedEvent {
    open spec fn of_wire(value: wire::RoundFinalizedEvent) -> Result<
        RoundFinalizedEventView,
        Seq<char>,
    > {
        match read_txid(value.round_txid@) {
            Ok(round_txid) => Ok(RoundFinalizedEventView { id: value.id@, round_txid }),
            Err(cause) => Err(cause),
        }
    }

    fn from_wire(value: &wire::RoundFinalizedEvent) -> (read: Result<Self, Error>) {
        match Txid::from_wire(&value.round_txid) {
            Ok(round_txid) => Ok(RoundFinalizedEvent { id: value.id.clone(), round_txid }),
            Err(e) => Err(e),
        }
    }
}

impl FromWire<wire::RoundFailed> for RoundFailedEvent {
    open spec fn of_wire(value: wire::RoundFailed) -> Result<RoundFailedEventView, Seq<char>> {
        Ok(RoundFailedEventView { id: value.id@, reason: value.reason@ })
    }

    fn from_wire(value: &wire::RoundFailed) -> (read: Result<Self, Error>) {
        Ok(RoundFailedEvent { id: value.id.clone(), reason: value.reason.clone() })
    }
}

impl FromWire<wire::RoundSigningEvent> for RoundSigningEvent {
    open spec fn of_wire(value: wire::RoundSigningEvent) -> Result<RoundSigningEventView, Seq<char>> {
        match (
            armor::read_base64(value.unsigned_round_tx@),
            option_of_wire::<wire::Tree, Tree>(value.unsigned_vtxo_tree),
            psbt_of_text(value.unsigned_round_tx@),
            all_of_wire::<String, PublicKey>(value.cosigners_pubkeys@),
        ) {
            (Ok(_), Ok(unsigned_vtxo_tree), Ok(unsigned_round_tx), Ok(cosigners_pubkeys)) => Ok(
                RoundSigningEventView {
                    id: value.id@,
                    cosigners_pubkeys,
                    unsigned_vtxo_tree,
                    unsigned_round_tx,
                },
            ),
            (Err(cause), _, _, _) => Err(cause),
            (_, Err(cause), _, _) => Err(cause),
            (_, _, Err(cause), _) => Err(cause),
            (_, _, _, Err(cause)) => Err(cause),
        }
    }

    fn from_wire(value: &wire::RoundSigningEvent) -> (read: Result<Self, Error>) {
        let bytes: Vec<u8> = match decode_base64(value.unsigned_round_tx.as_str()) {
            Ok(b) => b,
            Err(e) => {
                return Err(e);
            },
        };
        let unsigned_vtxo_tree: Option<Tree> = match read_option(&value.unsigned_vtxo_tree) {
            Ok(t) => t,
            Err(e) => {
                return Err(e);
            },
        };
        let unsigned_round_tx: Psbt = match Psbt::deserialize(bytes) {
            Ok(p) => p,
            Err(e) => {
                return Err(e);
            },
        };
        let cosigners_pubkeys: Vec<PublicKey> = match read_all(&value.cosigners_pubkeys) {
            Ok(k) => k,
            Err(e) => {
                return Err(e);
            },
        };
        Ok(
            RoundSigningEvent {
                id: value.id.clone(),
                cosigners_pubkeys,
                unsigned_vtxo_tree,
                unsigned_round_tx,
            },
        )
    }
}

/// A copy of a tree of byte strings.
fn copy_matrix(rows: &Vec<Vec<Vec<u8>>>) -> (copy: Vec<Vec<Vec<u8>>>)
    ensures
        views::views2(copy@) == views::views2(rows@),
{
    let mut copy: Vec<Vec<Vec<u8>>> = Vec::new();
    let mut i: usize = 0;
    while i < rows.len()
        invariant
            i <= rows@.len(),
            copy@.len() == i,
            forall|k: int|
                0 <= k < i ==> views::views((#[trigger] copy@[k])@) == views::views(rows@[k]@),
        decreases rows@.len() - i,
    {
        let row: &Vec<Vec<u8>> = &rows[i];
        let mut copied: Vec<Vec<u8>> = Vec::new();
        let mut j: usize = 0;
        while j < row.len()
            invariant
                j <= row@.len(),
                copied@.len() == j,
                forall|k: int| 0 <= k < j ==> (#[trigger] copied@[k])@ == row@[k]@,
            decreases row@.len() - j,
        {
            copied.push(copy_bytes(row[j].as_slice()));
            j = j + 1;
        }
        assert(views::views(copied@) =~= views::views(row@));
        copy.push(copied);
        i = i + 1;
    }
    assert(views::views2(copy@) =~= views::views2(rows@));
    copy
}

impl FromWire<wire::RoundSigningNoncesGeneratedEvent> for RoundSigningNoncesGeneratedEvent {
    open spec fn of_wire(value: wire::RoundSigningNoncesGeneratedEvent) -> Result<
        RoundSigningNoncesGeneratedEventView,
        Seq<char>,
    > {
        match value.tree_nonces {
            Ok(tree) => Ok(
                RoundSigningNoncesGeneratedEventView {
                    id: value.id@,
                    tree_nonces: views::views2(tree@),
                },
            ),
            Err(cause) => Err(cause@),
        }
    }

    fn from_wire(value: &wire::RoundSigningNoncesGeneratedEvent) -> (read: Result<Self, Error>) {
        match &value.tree_nonces {
            Ok(tree) => Ok(
                RoundSigningNoncesGeneratedEvent {
                    id: value.id.clone(),
                    tree_nonces: copy_matrix(tree),
                },
            ),
            Err(cause) => Err(Error::Conversion(cause.clone())),
        }
    }
}

impl FromWire<wire::Event> for RoundStreamEvent {
    open spec fn of_wire(value: wire::Event) -> Result<RoundStreamEventView, Seq<char>> {
        match value {
            wire::Event::RoundFinalization(e) => match RoundFinalizationEvent::of_wire(e) {
                Ok(v) => Ok(RoundStreamEventView::RoundFinalization(v)),
                Err(cause) => Err(cause),
            },
            wire::Event::RoundFinalized(e) => match RoundFinalizedEvent::of_wire(e) {
                Ok(v) => Ok(RoundStreamEventView::RoundFinalized(v)),
                Err(cause) => Err(cause),
            },
            wire::Event::RoundFailed(e) => match RoundFailedEvent::of_wire(e) {
                Ok(v) => Ok(RoundStreamEventView::RoundFailed(v)),
                Err(cause) => Err(cause),
            },
            wire::Event::RoundSigning(e) => match RoundSigningEvent::of_wire(e) {
                Ok(v) => Ok(RoundStreamEventView::RoundSigning(v)),
                Err(cause) => Err(cause),
            },
            wire::Event::RoundSigningNoncesGenerated(e) => {
                match RoundSigningNoncesGeneratedEvent::of_wire(e) {
                    Ok(v) => Ok(RoundStreamEventView::RoundSigningNoncesGenerated(v)),
                    Err(cause) => Err(cause),
                }
            },
        }
    }

    fn from_wire(value: &wire::Event) -> (read: Result<Self, Error>) {
        match value {
            wire::Event::RoundFinalization(e) => match RoundFinalizationEvent::from_wire(e) {
                Ok(v) => Ok(RoundStreamEvent::RoundFinalization(v)),
                Err(err) => Err(err),
            },
            wire::Event::RoundFinalized(e) => match RoundFinalizedEvent::from_wire(e) {
                Ok(v) => Ok(RoundStreamEvent::RoundFinalized(v)),
                Err(err) => Err(err),
            },
            wire::Event::RoundFailed(e) => match RoundFailedEvent::from_wire(e) {
                Ok(v) => Ok(RoundStreamEvent::RoundFailed(v)),
                Err(err) => Err(err),
            },
            wire::Event::RoundSigning(e) => match RoundSigningEvent::from_wire(e) {
                Ok(v) => Ok(RoundStreamEvent::RoundSigning(v)),
                Err(err) => Err(err),
            },
            wire::Event::RoundSigningNoncesGenerated(e) => {
                match RoundSigningNoncesGeneratedEvent::from_wire(e) {
                    Ok(v) => Ok(RoundStreamEvent::RoundSigningNoncesGenerated(v)),
                    Err(err) => Err(err),
                }
            },
        }
    }
}

impl FromWire<wire::Round> for Round {
    open spec fn of_wire(value: wire::Round) -> Result<RoundView, Seq<char>> {
        match (
            psbt_of_text(value.round_tx@),
            option_of_wire::<wire::Tree, Tree>(value.vtxo_tree),
            all_of_wire::<String, Psbt>(value.forfeit_txs@),
            all_of_wire::<String, Psbt>(value.connectors@),
        ) {
            (Ok(round_tx), Ok(vtxo_tree), Ok(forfeit_txs), Ok(connectors)) => Ok(
                RoundView {
                    id: value.id@,
                    start: value.start,
                    end: value.end,
                    round_tx,
                    vtxo_tree,
                    forfeit_txs,
                    connectors,
                    stage: value.stage,
                },
            ),
            (Err(cause), _, _, _) => Err(cause),
            (_, Err(cause), _, _) => Err(cause),
            (_, _, Err(cause), _) => Err(cause),
            (_, _, _, Err(cause)) => Err(cause),
        }
    }

    fn from_wire(value: &wire::Round) -> (read: Result<Self, Error>) {
        let round_tx: Psbt = match Psbt::from_wire(&value.round_tx) {
            Ok(p) => p,
            Err(e) => {
                return Err(e);
            },
        };
        let vtxo_tree: Option<Tree> = match read_option(&value.vtxo_tree) {
            Ok(t) => t,
            Err(e) => {
                return Err(e);
            },
        };
        let forfeit_txs: Vec<Psbt> = match read_all(&value.forfeit_txs) {
            Ok(v) => v,
            Err(e) => {
                return Err(e);
            },
        };
        let connectors: Vec<Psbt> = match read_all(&value.connectors) {
            Ok(v) => v,
            Err(e) => {
                return Err(e);
            },
        };
        Ok(
            Round {
                id: value.id.clone(),
                start: value.start,
                end: value.end,
                round_tx,
                vtxo_tree,
                forfeit_txs,
                connectors,
                stage: value.stage,
            },
        )
    }
}

impl FromWire<wire::RoundTransaction> for RoundTransaction {
    open spec fn of_wire(value: wire::RoundTransaction) -> Result<RoundTransactionView, Seq<char>> {
        match (
            all_of_wire::<wire::Outpoint, OutPoint>(value.spent_vtxos@),
            all_of_wire::<wire::Outpoint, OutPoint>(value.claimed_boarding_utxos@),
            all_of_wire::<wire::Vtxo, VtxoOutPoint>(value.spendable_vtxos@),
            read_txid(value.txid@),
        ) {
            (Ok(spent_vtxos), Ok(claimed_boarding_utxos), Ok(spendable_vtxos), Ok(txid)) => Ok(
                RoundTransactionView { txid, spent_vtxos, spendable_vtxos, claimed_boarding_utxos },
            ),
            (Err(cause), _, _, _) => Err(cause),
            (_, Err(cause), _, _) => Err(cause),
            (_, _, Err(cause), _) => Err(cause),
            (_, _, _, Err(cause)) => Err(cause),
        }
    }

    fn from_wire(value: &wire::RoundTransaction) -> (read: Result<Self, Error>) {
        let spent_vtxos: Vec<OutPoint> = match read_all(&value.spent_vtxos) {
            Ok(v) => v,
            Err(e) => {
                return Err(e);
            },
        };
        let claimed_boarding_utxos: Vec<OutPoint> = match read_all(&value.claimed_boarding_utxos) {
            Ok(v) => v,
            Err(e) => {
                return Err(e);
            },
        };
        let spendable_vtxos: Vec<VtxoOutPoint> = match read_all(&value.spendable_vtxos) {
            Ok(v) => v,
            Err(e) => {
                return Err(e);
            },
        };
        match Txid::from_wire(&value.txid) {
            Ok(txid) => Ok(
                RoundTransaction { txid, spent_vtxos, spendable_vtxos, claimed_boarding_utxos },
            ),
            Err(e) => Err(e),
        }
    }
}

impl FromWire<wire::RedeemTransaction> for RedeemTransaction {
    open spec fn of_wire(value: wire::RedeemTransaction) -> Result<RedeemTransactionView, Seq<char>> {
        match (
            all_of_wire::<wire::Outpoint, OutPoint>(value.spent_vtxos@),
            all_of_wire::<wire::Vtxo, VtxoOutPoint>(value.spendable_vtxos@),
            read_txid(value.txid@),
        ) {
            (Ok(spent_vtxos), Ok(spendable_vtxos), Ok(txid)) => Ok(
                RedeemTransactionView { txid, spent_vtxos, spendable_vtxos },
            ),
            (Err(cause), _, _) => Err(cause),
            (_, Err(cause), _) => Err(cause),
            (_, _, Err(cause)) => Err(cause),
        }
    }

    fn from_wire(value: &wire::RedeemTransaction) -> (read: Result<Self, Error>) {
        let spent_vtxos: Vec<OutPoint> = match read_all(&value.spent_vtxos) {
            Ok(v) => v,
            Err(e) => {
                return Err(e);
            },
        };
        let spendable_vtxos: Vec<VtxoOutPoint> = match read_all(&value.spendable_vtxos) {
            Ok(v) => v,
            Err(e) => {
                return Err(e);
            },
        };
        match Txid::from_wire(&value.txid) {
            Ok(txid) => Ok(RedeemTransaction { txid, spent_vtxos, spendable_vtxos }),
            Err(e) => Err(e),
        }
    }
}

impl FromWire<wire::Tx> for TransactionEvent {
    open spec fn of_wire(value: wire::Tx) -> Result<TransactionEventView, Seq<char>> {
        match value {
            wire::Tx::Round(t) => match RoundTransaction::of_wire(t) {
                Ok(v) => Ok(TransactionEventView::Round(v)),
                Err(cause) => Err(cause),
            },
            wire::Tx::Redeem(t) => match RedeemTransaction::of_wire(t) {
                Ok(v) => Ok(TransactionEventView::Redeem(v)),
                Err(cause) => Err(cause),
            },
        }
    }

    fn from_wire(value: &wire::Tx) -> (read: Result<Self, Error>) {
        match value {
            wire::Tx::Round(t) => match RoundTransaction::from_wire(t) {
                Ok(v) => Ok(TransactionEvent::Round(v)),
                Err(e) => Err(e),
            },
            wire::Tx::Redeem(t) => match RedeemTransaction::from_wire(t) {
                Ok(v) => Ok(TransactionEvent::Redeem(v)),
                Err(e) => Err(e),
            },
        }
    }
}

/// A list and an optional message give each value where there are values to be read, and otherwise a
/// conversion error that says why.
pub proof fn law_lists_give_what_is_there<T: View>(
    list: Result<Vec<T>, Error>,
    values: Result<Seq<T::V>, Seq<char>>,
    option: Result<Option<T>, Error>,
    value: Result<Option<T::V>, Seq<char>>,
)
    requires
        is_list_reading(list, values),
        is_option_reading(option, value),
    ensures
        values matches Ok(v) ==> (list matches Ok(items) && items@.len() == v.len() && forall|i: int|
            0 <= i < v.len() ==> (#[trigger] items@[i])@ == v[i]),
        values matches Err(cause) ==> (list matches Err(Error::Conversion(text)) && text@ == cause),
        value matches Ok(v) ==> (option matches Ok(item) && match (item, v) {
            (Some(i), Some(x)) => i@ == x,
            (None, None) => true,
            _ => false,
        }),
        value matches Err(cause) ==> (option matches Err(Error::Conversion(text)) && text@ == cause),
{
    if let Ok(v) = values {
        let items = list->Ok_0;
        assert forall|i: int| 0 <= i < v.len() implies (#[trigger] items@[i])@ == v[i] by {
            assert(views::views(items@)[i] == items@[i]@);
        }
    }
}

} // verus!

//! VTXO trees: what their nodes spend, what is signed for them, and the way from a leaf to the root.

use vstd::prelude::*;

use crate::psbt;
use crate::psbt::Psbt;
use crate::server::{Node, NodeView, Tree, TreeLevel};
use crate::taproot;
use crate::taproot::key_sighash;
use crate::tx::{TxOut, TxOutView, Txid};
use crate::views;
use crate::views::copy_bytes;

verus! {

/// The input by which a transaction of the tree spends its parent.
pub const VTXO_INPUT_INDEX: usize = 0;

/// The first of some nodes with a transaction id.
pub open spec fn find_node(nodes: Seq<NodeView>, txid: Seq<u8>) -> Option<NodeView>
    decreases nodes.len(),
{
    if nodes.len() == 0 {
        None
    } else {
        match find_node(nodes.drop_last(), txid) {
            Some(node) => Some(node),
            None => if nodes.last().txid == txid {
                Some(nodes.last())
            } else {
                None
            },
        }
    }
}

/// The outputs of the transaction that the node at a place of the tree spends: that of the round for
/// the first level, that of the parent on the level above for the others.
pub open spec fn parent_outputs(
    levels: Seq<Seq<NodeView>>,
    round_tx: Seq<u8>,
    i: int,
    j: int,
) -> Option<Seq<TxOutView>> {
    if i == 0 {
        Some(psbt::outputs_of(round_tx))
    } else {
        match find_node(levels[i - 1], levels[i][j].parent_txid) {
            Some(parent) => Some(psbt::outputs_of(parent.tx)),
            None => None,
        }
    }
}

/// The output that the node at a place of the tree spends.
pub open spec fn spent_output(
    levels: Seq<Seq<NodeView>>,
    round_tx: Seq<u8>,
    i: int,
    j: int,
) -> Option<TxOutView> {
    let inputs = (psbt::psbt_parts(levels[i][j].tx)->0).inputs;
    match parent_outputs(levels, round_tx, i, j) {
        Some(outputs) => if inputs.len() > 0 && inputs[VTXO_INPUT_INDEX as int].vout
            < outputs.len() {
            Some(outputs[inputs[VTXO_INPUT_INDEX as int].vout as int])
        } else {
            None
        },
        None => None,
    }
}

/// The message that the cosigners sign for the node at a place of the tree: that of a key spend, for
/// they hold the key of the spent output together.
pub open spec fn node_message(
    levels: Seq<Seq<NodeView>>,
    round_tx: Seq<u8>,
    i: int,
    j: int,
) -> Option<Seq<u8>> {
    match spent_output(levels, round_tx, i, j) {
        Some(output) => taproot::key_spend_sighash(
            levels[i][j].tx,
            VTXO_INPUT_INDEX as int,
            seq![output],
        ),
        None => None,
    }
}

/// Finds the first node with a transaction id.
pub fn find_in_level<'a>(level: &'a TreeLevel, txid: &Txid) -> (found: Option<&'a Node>)
    ensures
        match found {
            Some(node) => find_node(level@, txid@) == Some(node@),
            None => find_node(level@, txid@) is None,
        },
{
    let mut j: usize = 0;
    while j < level.nodes.len()
        invariant
            j <= level.nodes@.len(),
            find_node(level@.take(j as int), txid@) is None,
        decreases level.nodes@.len() - j,
    {
        assert(level@.take(j + 1).drop_last() =~= level@.take(j as int));
        if level.nodes[j].txid.same(txid) {
            proof {
                lemma_found_early(level@, txid@, j + 1);
            }
            return Some(&level.nodes[j]);
        }
        j = j + 1;
    }
    assert(level@.take(level@.len() as int) =~= level@);
    None
}

proof fn lemma_found_early(nodes: Seq<NodeView>, txid: Seq<u8>, n: int)
    requires
        0 <= n <= nodes.len(),
        find_node(nodes.take(n), txid) is Some,
    ensures
        find_node(nodes, txid) == find_node(nodes.take(n), txid),
    decreases nodes.len() - n,
{
    if n == nodes.len() {
        assert(nodes.take(n) =~= nodes);
    } else {
        assert(nodes.take(n + 1).drop_last() =~= nodes.take(n));
        lemma_found_early(nodes, txid, n + 1);
    }
}

/// Makes the message that the cosigners sign for a node.
pub fn message_of(tree: &Tree, round_tx: &Psbt, i: usize, j: usize) -> (message: Option<[u8; 32]>)
    requires
        i < tree@.len(),
        j < tree@[i as int].len(),
    ensures
        views::option_view(message) == node_message(tree@, round_tx@, i as int, j as int),
{
    let node: &Node = &tree.levels[i].nodes[j];
    assert(tree@[i as int][j as int] == node@);
    let parts = node.tx.parts();
    let outputs: &Vec<TxOut> = if i == 0 {
        &round_tx.parts().outputs
    } else {
        assert(tree@[i - 1] == tree.levels@[i - 1]@);
        match find_in_level(&tree.levels[i - 1], &node.parent_txid) {
            Some(parent) => &parent.tx.parts().outputs,
            None => {
                return None;
            },
        }
    };
    assert(parent_outputs(tree@, round_tx@, i as int, j as int) == Some(views::views(outputs@)));
    if parts.inputs.len() == 0 {
        return None;
    }
    let vout: usize = parts.inputs[VTXO_INPUT_INDEX].vout as usize;
    assert(parts@.inputs[0].vout == vout);
    if vout >= outputs.len() {
        return None;
    }
    let mut prevouts: Vec<TxOut> = Vec::new();
    prevouts.push(outputs[vout].copy());
    assert(views::views(prevouts@) =~= seq![outputs@[vout as int]@]);
    key_sighash(node.tx.serialize().as_slice(), VTXO_INPUT_INDEX, &prevouts)
}

/// What is to be signed for a node: the message, and the combined nonce of the cosigners.
#[derive(Debug, Clone, PartialEq, Eq)]
pub struct SignJob {
    pub message: [u8; 32],
    pub aggregated_nonce: Vec<u8>,
}

/// The value of a [`SignJob`].
pub struct SignJobView {
    pub message: Seq<u8>,
    pub aggregated_nonce: Seq<u8>,
}

impl View for SignJob {
    type V = SignJobView;

    open spec fn view(&self) -> SignJobView {
        SignJobView { message: self.message@, aggregated_nonce: self.aggregated_nonce@ }
    }
}

/// What is to be signed for the node at a place of the tree: nothing if the nonces have no such
/// place, or there is no message.
pub open spec fn node_job(
    levels: Seq<Seq<NodeView>>,
    round_tx: Seq<u8>,
    nonces: Seq<Seq<Seq<u8>>>,
    i: int,
    j: int,
) -> Option<SignJobView> {
    if i < nonces.len() && j < nonces[i].len() {
        match node_message(levels, round_tx, i, j) {
            Some(message) => Some(SignJobView { message, aggregated_nonce: nonces[i][j] }),
            None => None,
        }
    } else {
        None
    }
}

/// What is to be signed for a level of the tree.
pub open spec fn level_jobs(
    levels: Seq<Seq<NodeView>>,
    round_tx: Seq<u8>,
    nonces: Seq<Seq<Seq<u8>>>,
    i: int,
) -> Option<Seq<SignJobView>> {
    views::whole(Seq::new(levels[i].len(), |j: int| node_job(levels, round_tx, nonces, i, j)))
}

/// What is to be signed for a tree: something for every node, or nothing at all.
pub open spec fn tree_jobs(
    levels: Seq<Seq<NodeView>>,
    round_tx: Seq<u8>,
    nonces: Seq<Seq<Seq<u8>>>,
) -> Option<Seq<Seq<SignJobView>>> {
    views::whole(Seq::new(levels.len(), |i: int| level_jobs(levels, round_tx, nonces, i)))
}

/// The value of what is to be signed for a tree.
pub open spec fn jobs_view(jobs: Option<Vec<Vec<SignJob>>>) -> Option<Seq<Seq<SignJobView>>> {
    match jobs {
        Some(rows) => Some(views::views2(rows@)),
        None => None,
    }
}

/// Makes what is to be signed for a level of the tree.
fn jobs_of_level(tree: &Tree, round_tx: &Psbt, nonces: &Vec<Vec<Vec<u8>>>, i: usize) -> (jobs: Option<
    Vec<SignJob>,
>)
    requires
        i < tree@.len(),
    ensures
        match jobs {
            Some(row) => level_jobs(tree@, round_tx@, views::views2(nonces@), i as int) == Some(
                views::views(row@),
            ),
            None => level_jobs(tree@, round_tx@, views::views2(nonces@), i as int) is None,
        },
{
    let ghost all = views::views2(nonces@);
    let ghost wanted = Seq::new(
        tree@[i as int].len(),
        |j: int| node_job(tree@, round_tx@, all, i as int, j),
    );
    let mut row: Vec<SignJob> = Vec::new();
    let mut j: usize = 0;
    assert(tree@[i as int] == tree.levels@[i as int]@);
    while j < tree.levels[i].nodes.len()
        invariant
            i < tree@.len(),
            tree@[i as int] == tree.levels@[i as int]@,
            j <= tree@[i as int].len(),
            all == views::views2(nonces@),
            wanted == Seq::new(
                tree@[i as int].len(),
                |j: int| node_job(tree@, round_tx@, all, i as int, j),
            ),
            row@.len() == j,
            forall|k: int| 0 <= k < j ==> #[trigger] wanted[k] == Some(row@[k]@),
        decreases tree@[i as int].len() - j,
    {
        assert(wanted[j as int] == node_job(tree@, round_tx@, all, i as int, j as int));
        if i >= nonces.len() || j >= nonces[i].len() {
            return None;
        }
        assert(all[i as int][j as int] == nonces@[i as int]@[j as int]@);
        let message: [u8; 32] = match message_of(tree, round_tx, i, j) {
            Some(m) => m,
            None => {
                return None;
            },
        };
        row.push(SignJob { message, aggregated_nonce: copy_bytes(nonces[i][j].as_slice()) });
        j = j + 1;
    }
    assert(views::whole(wanted)->0 =~= views::views(row@));
    Some(row)
}

/// Makes what is to be signed for a tree.
pub fn jobs_of_tree(tree: &Tree, round_tx: &Psbt, nonces: &Vec<Vec<Vec<u8>>>) -> (jobs: Option<
    Vec<Vec<SignJob>>,
>)
    ensures
        jobs_view(jobs) == tree_jobs(tree@, round_tx@, views::views2(nonces@)),
{
    let ghost all = views::views2(nonces@);
    let ghost wanted = Seq::new(tree@.len(), |i: int| level_jobs(tree@, round_tx@, all, i));
    let mut rows: Vec<Vec<SignJob>> = Vec::new();
    let mut i: usize = 0;
    while i < tree.levels.len()
        invariant
            i <= tree@.len(),
            all == views::views2(nonces@),
            wanted == Seq::new(tree@.len(), |i: int| level_jobs(tree@, round_tx@, all, i)),
            rows@.len() == i,
            forall|k: int| 0 <= k < i ==> #[trigger] wanted[k] == Some(views::views(rows@[k]@)),
        decreases tree@.len() - i,
    {
        assert(wanted[i as int] == level_jobs(tree@, round_tx@, all, i as int));
        match jobs_of_level(tree, round_tx, nonces, i) {
            Some(row) => {
                rows.push(row);
            },
            None => {
                return None;
            },
        }
        i = i + 1;
    }
    assert(views::whole(wanted)->0 =~= views::views2(rows@));
    Some(rows)
}

/// That a tree of items has the shape of a VTXO tree: an item for every node, and no others.
pub open spec fn has_shape<A>(rows: Seq<Seq<A>>, levels: Seq<Seq<NodeView>>) -> bool {
    rows.len() == levels.len() && forall|i: int|
        0 <= i < levels.len() ==> (#[trigger] rows[i]).len() == levels[i].len()
}

/// The partial signatures that are asked for have the shape of the tree.
pub proof fn law_one_signature_for_each_node(
    levels: Seq<Seq<NodeView>>,
    round_tx: Seq<u8>,
    nonces: Seq<Seq<Seq<u8>>>,
)
    requires
        tree_jobs(levels, round_tx, nonces) is Some,
    ensures
        has_shape(tree_jobs(levels, round_tx, nonces)->0, levels),
{
    let wanted = Seq::new(levels.len(), |i: int| level_jobs(levels, round_tx, nonces, i));
    assert forall|i: int| 0 <= i < levels.len() implies (#[trigger] tree_jobs(
        levels,
        round_tx,
        nonces,
    )->0[i]).len() == levels[i].len() by {
        assert(wanted[i] is Some);
    }
}

/// What is found is the first node with the transaction id, and nothing is found just if no node has
/// it.
pub proof fn law_first_node_is_found(nodes: Seq<NodeView>, txid: Seq<u8>)
    ensures
        match find_node(nodes, txid) {
            Some(node) => exists|k: int|
                0 <= k < nodes.len() && #[trigger] nodes[k] == node && node.txid == txid && forall|
                    earlier: int,
                |
                    0 <= earlier < k ==> (#[trigger] nodes[earlier]).txid != txid,
            None => forall|k: int| 0 <= k < nodes.len() ==> (#[trigger] nodes[k]).txid != txid,
        },
    decreases nodes.len(),
{
    if nodes.len() > 0 {
        let front = nodes.drop_last();
        law_first_node_is_found(front, txid);
        match find_node(front, txid) {
            Some(node) => {
                let k = choose|k: int|
                    0 <= k < front.len() && #[trigger] front[k] == node && node.txid == txid && forall|
                        earlier: int,
                    |
                        0 <= earlier < k ==> (#[trigger] front[earlier]).txid != txid;
                assert(nodes[k] == node);
                assert forall|earlier: int| 0 <= earlier < k implies (
                #[trigger] nodes[earlier]).txid != txid by {
                    assert(front[earlier].txid != txid);
                }
            },
            None => {
                assert forall|k: int| 0 <= k < front.len() implies (#[trigger] nodes[k]).txid
                    != txid by {
                    assert(front[k].txid != txid);
                }
                assert(nodes[nodes.len() - 1] == nodes.last());
            },
        }
    }
}

/// Each node is signed with the combined nonce at its own place, and a tree for which a nonce is
/// missing is not signed at all.
pub proof fn law_each_node_has_its_own_nonce(
    levels: Seq<Seq<NodeView>>,
    round_tx: Seq<u8>,
    nonces: Seq<Seq<Seq<u8>>>,
    i: int,
    j: int,
)
    requires
        tree_jobs(levels, round_tx, nonces) is Some,
        0 <= i < levels.len(),
        0 <= j < levels[i].len(),
    ensures
        i < nonces.len(),
        j < nonces[i].len(),
        tree_jobs(levels, round_tx, nonces)->0[i][j].aggregated_nonce == nonces[i][j],
        node_message(levels, round_tx, i, j) == Some(
            tree_jobs(levels, round_tx, nonces)->0[i][j].message,
        ),
{
    let rows = Seq::new(levels.len(), |i: int| level_jobs(levels, round_tx, nonces, i));
    assert(rows[i] is Some);
    let row = Seq::new(levels[i].len(), |j: int| node_job(levels, round_tx, nonces, i, j));
    assert(row[j] is Some);
}

/// A tree is signed if there is a combined nonce and a message for each of its nodes.
pub proof fn law_tree_is_signed_if_it_can_be(
    levels: Seq<Seq<NodeView>>,
    round_tx: Seq<u8>,
    nonces: Seq<Seq<Seq<u8>>>,
)
    requires
        nonces.len() >= levels.len(),
        forall|i: int|
            0 <= i < levels.len() ==> (#[trigger] nonces[i]).len() >= levels[i].len(),
        forall|i: int, j: int|
            0 <= i < levels.len() && 0 <= j < levels[i].len() ==> #[trigger] node_message(
                levels,
                round_tx,
                i,
                j,
            ) is Some,
    ensures
        tree_jobs(levels, round_tx, nonces) is Some,
{
    let rows = Seq::new(levels.len(), |i: int| level_jobs(levels, round_tx, nonces, i));
    assert forall|i: int| 0 <= i < rows.len() implies (#[trigger] rows[i]) is Some by {
        let row = Seq::new(levels[i].len(), |j: int| node_job(levels, round_tx, nonces, i, j));
        assert forall|j: int| 0 <= j < row.len() implies (#[trigger] row[j]) is Some by {
            assert(nonces[i].len() >= levels[i].len());
            assert(node_message(levels, round_tx, i, j) is Some);
        }
        assert(level_jobs(levels, round_tx, nonces, i) is Some);
    }
}

/// The root is signed for the output of the round transaction that its first input names.
pub proof fn law_root_spends_the_round(
    levels: Seq<Seq<NodeView>>,
    round_tx: Seq<u8>,
    j: int,
    spent: crate::tx::OutPointView,
)
    requires
        0 < levels.len(),
        0 <= j < levels[0].len(),
        (psbt::psbt_parts(levels[0][j].tx)->0).inputs.len() > 0,
        spent == (psbt::psbt_parts(levels[0][j].tx)->0).inputs[0],
    ensures
        node_message(levels, round_tx, 0, j) == (if spent.vout < psbt::outputs_of(round_tx).len() {
            taproot::key_spend_sighash(
                levels[0][j].tx,
                0,
                seq![psbt::outputs_of(round_tx)[spent.vout as int]],
            )
        } else {
            None
        }),
{
}

/// Below the root, a node is signed for the output that its first input names of the first node on
/// the level above that has the id of its parent.
pub proof fn law_node_spends_its_parent(
    levels: Seq<Seq<NodeView>>,
    round_tx: Seq<u8>,
    i: int,
    j: int,
    p: int,
    spent: crate::tx::OutPointView,
)
    requires
        0 < i < levels.len(),
        0 <= j < levels[i].len(),
        0 <= p < levels[i - 1].len(),
        levels[i - 1][p].txid == levels[i][j].parent_txid,
        forall|q: int|
            0 <= q < p ==> (#[trigger] levels[i - 1][q]).txid != levels[i][j].parent_txid,
        (psbt::psbt_parts(levels[i][j].tx)->0).inputs.len() > 0,
        spent == (psbt::psbt_parts(levels[i][j].tx)->0).inputs[0],
    ensures
        node_message(levels, round_tx, i, j) == (if spent.vout < psbt::outputs_of(
            levels[i - 1][p].tx,
        ).len() {
            taproot::key_spend_sighash(
                levels[i][j].tx,
                0,
                seq![psbt::outputs_of(levels[i - 1][p].tx)[spent.vout as int]],
            )
        } else {
            None
        }),
{
    let above = levels[i - 1];
    law_first_node_is_found(above, levels[i][j].parent_txid);
    assert(above[p].txid == levels[i][j].parent_txid);
    let node = find_node(above, levels[i][j].parent_txid)->0;
    let k = choose|k: int|
        0 <= k < above.len() && #[trigger] above[k] == node && node.txid
            == levels[i][j].parent_txid && forall|earlier: int|
            0 <= earlier < k ==> (#[trigger] above[earlier]).txid != levels[i][j].parent_txid;
    if k < p {
        assert(levels[i - 1][k].txid != levels[i][j].parent_txid);
    } else if p < k {
        assert(above[p].txid != levels[i][j].parent_txid);
    }
}

/// A node without inputs, or whose parent is not on the level above, cannot be signed.
pub proof fn law_orphan_cannot_be_signed(
    levels: Seq<Seq<NodeView>>,
    round_tx: Seq<u8>,
    i: int,
    j: int,
)
    requires
        0 <= i < levels.len(),
        0 <= j < levels[i].len(),
        (psbt::psbt_parts(levels[i][j].tx)->0).inputs.len() == 0 || (i > 0 && forall|q: int|
            0 <= q < levels[i - 1].len() ==> (#[trigger] levels[i - 1][q]).txid
                != levels[i][j].parent_txid),
    ensures
        node_message(levels, round_tx, i, j) is None,
{
    if i > 0 {
        law_first_node_is_found(levels[i - 1], levels[i][j].parent_txid);
    }
}

/// The value of what is to be signed for a tree holds each part at its place.
pub proof fn law_jobs_are_shown(jobs: Option<Vec<Vec<SignJob>>>)
    ensures
        match jobs {
            Some(rows) => jobs_view(jobs) matches Some(shown) && shown.len() == rows@.len() && forall|
                i: int,
            |
                0 <= i < rows@.len() ==> shown[i] == views::views((#[trigger] rows@[i])@),
            None => jobs_view(jobs) is None,
        },
{
}

} // verus!

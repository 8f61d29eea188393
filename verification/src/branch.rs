//! The way from a leaf of a VTXO tree up to its root.

use vstd::prelude::*;

use crate::psbt::Psbt;
use crate::server::{Node, NodeView, Tree};
use crate::tree;
use crate::tree::find_in_level;
use crate::tx::Txid;
use crate::views;

verus! {

/// The nodes of a tree, level by level.
pub open spec fn all_nodes(levels: Seq<Seq<NodeView>>) -> Seq<NodeView> {
    views::flatten(levels)
}

/// The nodes from the root down to a node, if the root is reached from it in at most so many steps
/// to a parent.
pub open spec fn climb(nodes: Seq<NodeView>, root: Seq<u8>, node: NodeView, steps: nat) -> Option<
    Seq<NodeView>,
>
    decreases steps,
{
    if node.txid == root {
        Some(seq![node])
    } else if steps == 0 {
        None
    } else {
        match tree::find_node(nodes, node.parent_txid) {
            None => None,
            Some(parent) => match climb(nodes, root, parent, (steps - 1) as nat) {
                None => None,
                Some(above) => Some(above.push(node)),
            },
        }
    }
}

/// The branch of a node: the nodes from the root down to it, if the root can be reached at all.
pub open spec fn branch_of(levels: Seq<Seq<NodeView>>, root: Seq<u8>, node: NodeView) -> Option<
    Seq<NodeView>,
> {
    climb(all_nodes(levels), root, node, all_nodes(levels).len())
}

/// The transactions of some nodes.
pub open spec fn txs_of(nodes: Seq<NodeView>) -> Seq<Seq<u8>> {
    Seq::new(nodes.len(), |i: int| nodes[i].tx)
}

/// That every node of a branch is the parent of the next one.
pub open spec fn is_linked(branch: Seq<NodeView>) -> bool {
    forall|i: int|
        0 <= i < branch.len() - 1 ==> (#[trigger] branch[i]).txid == branch[i + 1].parent_txid
}

/// What is found has the transaction id that was looked for, and is one of the nodes.
pub proof fn lemma_find_node(nodes: Seq<NodeView>, txid: Seq<u8>)
    ensures
        tree::find_node(nodes, txid) matches Some(node) ==> node.txid == txid && nodes.contains(node),
    decreases nodes.len(),
{
    if nodes.len() > 0 {
        lemma_find_node(nodes.drop_last(), txid);
        if let Some(node) = tree::find_node(nodes.drop_last(), txid) {
            let k = choose|k: int| 0 <= k < nodes.drop_last().len() && nodes.drop_last()[k] == node;
            assert(nodes[k] == node);
        } else if nodes.last().txid == txid {
            assert(nodes[nodes.len() - 1] == nodes.last());
        }
    }
}

/// A branch starts at the root, ends at its node, and goes from parent to child all the way.
pub proof fn law_branch_goes_from_root_to_leaf(
    nodes: Seq<NodeView>,
    root: Seq<u8>,
    node: NodeView,
    steps: nat,
)
    requires
        climb(nodes, root, node, steps) is Some,
    ensures
        climb(nodes, root, node, steps)->0.len() > 0,
        climb(nodes, root, node, steps)->0.first().txid == root,
        climb(nodes, root, node, steps)->0.last() == node,
        is_linked(climb(nodes, root, node, steps)->0),
    decreases steps,
{
    if node.txid != root {
        let parent = tree::find_node(nodes, node.parent_txid)->0;
        lemma_find_node(nodes, node.parent_txid);
        law_branch_goes_from_root_to_leaf(nodes, root, parent, (steps - 1) as nat);
    }
}

/// More steps than are needed change nothing.
proof fn lemma_climb_more(nodes: Seq<NodeView>, root: Seq<u8>, node: NodeView, few: nat, many: nat)
    requires
        few <= many,
        climb(nodes, root, node, few) is Some,
    ensures
        climb(nodes, root, node, many) == climb(nodes, root, node, few),
    decreases few,
{
    if node.txid != root {
        let parent = tree::find_node(nodes, node.parent_txid)->0;
        lemma_climb_more(nodes, root, parent, (few - 1) as nat, (many - 1) as nat);
    }
}

/// Where the root is reached, a branch of `n` nodes takes `n - 1` steps, and each node of it has the
/// part of the branch above it as its own branch.
proof fn lemma_climb_prefix(nodes: Seq<NodeView>, root: Seq<u8>, node: NodeView, steps: nat, i: int)
    requires
        climb(nodes, root, node, steps) is Some,
        0 <= i < climb(nodes, root, node, steps)->0.len(),
    ensures
        ({
            let branch = climb(nodes, root, node, steps)->0;
            &&& climb(nodes, root, branch[i], i as nat) == Some(branch.take(i + 1))
            &&& branch.len() <= steps + 1
            &&& (i < branch.len() - 1 ==> nodes.contains(branch[i]) && tree::find_node(
                nodes,
                branch[i].txid,
            ) == Some(branch[i]))
        }),
    decreases steps,
{
    let branch = climb(nodes, root, node, steps)->0;
    if node.txid == root {
        assert(branch.take(1) =~= branch);
    } else {
        let parent = tree::find_node(nodes, node.parent_txid)->0;
        let above = climb(nodes, root, parent, (steps - 1) as nat)->0;
        lemma_find_node(nodes, node.parent_txid);
        law_branch_goes_from_root_to_leaf(nodes, root, parent, (steps - 1) as nat);
        if i < above.len() {
            lemma_climb_prefix(nodes, root, parent, (steps - 1) as nat, i);
            assert(branch.take(i + 1) =~= above.take(i + 1));
        } else {
            lemma_climb_prefix(nodes, root, parent, (steps - 1) as nat, above.len() - 1);
            assert(above.take(above.len() as int) =~= above);
            assert(branch.take(i + 1) =~= branch);
        }
    }
}

/// Where the root can be reached in any number of steps, it is reached in as many as there are
/// nodes: on the way no node comes up twice.
pub proof fn law_branch_is_found_if_there_is_one(
    levels: Seq<Seq<NodeView>>,
    root: Seq<u8>,
    node: NodeView,
    steps: nat,
)
    requires
        climb(all_nodes(levels), root, node, steps) is Some,
    ensures
        branch_of(levels, root, node) == climb(all_nodes(levels), root, node, steps),
{
    let nodes = all_nodes(levels);
    let branch = climb(nodes, root, node, steps)->0;
    law_branch_goes_from_root_to_leaf(nodes, root, node, steps);
    let above = branch.drop_last();
    assert forall|i: int, j: int| 0 <= i < above.len() && 0 <= j < above.len() && i != j implies
        above[i] != above[j] by {
        lemma_climb_prefix(nodes, root, node, steps, i);
        lemma_climb_prefix(nodes, root, node, steps, j);
        if above[i] == above[j] {
            let few: int = if i < j {
                i
            } else {
                j
            };
            let many: int = if i < j {
                j
            } else {
                i
            };
            lemma_climb_more(nodes, root, above[i], few as nat, many as nat);
            assert(branch.take(i + 1).len() == branch.take(j + 1).len());
        }
    }
    assert(above.no_duplicates());
    above.unique_seq_to_set();
    assert(above.to_set().subset_of(nodes.to_set())) by {
        assert forall|n: NodeView| above.to_set().contains(n) implies nodes.to_set().contains(n) by {
            let i = choose|i: int| 0 <= i < above.len() && above[i] == n;
            lemma_climb_prefix(nodes, root, node, steps, i);
        }
    }
    vstd::seq_lib::seq_to_set_is_finite(nodes);
    vstd::set_lib::lemma_len_subset(above.to_set(), nodes.to_set());
    nodes.lemma_cardinality_of_set();
    lemma_climb_prefix(nodes, root, node, steps, branch.len() - 1);
    assert(branch.take(branch.len() as int) =~= branch);
    lemma_climb_more(nodes, root, node, (branch.len() - 1) as nat, nodes.len());
    if branch.len() - 1 <= steps {
        lemma_climb_more(nodes, root, node, (branch.len() - 1) as nat, steps);
    }
}

proof fn lemma_find_in_levels(levels: Seq<Seq<NodeView>>, txid: Seq<u8>, n: int)
    requires
        0 <= n <= levels.len(),
        tree::find_node(views::flatten(levels.take(n)), txid) is Some,
    ensures
        tree::find_node(views::flatten(levels), txid) == tree::find_node(
            views::flatten(levels.take(n)),
            txid,
        ),
    decreases levels.len() - n,
{
    if n == levels.len() {
        assert(levels.take(n) =~= levels);
    } else {
        assert(levels.take(n + 1).drop_last() =~= levels.take(n));
        lemma_find_in_both(views::flatten(levels.take(n)), levels[n], txid);
        lemma_find_in_levels(levels, txid, n + 1);
    }
}

proof fn lemma_find_in_both(front: Seq<NodeView>, back: Seq<NodeView>, txid: Seq<u8>)
    ensures
        tree::find_node(front + back, txid) == (match tree::find_node(front, txid) {
            Some(node) => Some(node),
            None => tree::find_node(back, txid),
        }),
    decreases back.len(),
{
    if back.len() == 0 {
        assert(front + back =~= front);
    } else {
        assert((front + back).drop_last() =~= front + back.drop_last());
        lemma_find_in_both(front, back.drop_last(), txid);
    }
}

/// Finds the first node of a tree with a transaction id.
pub fn find_in_tree<'a>(tree: &'a Tree, txid: &Txid) -> (found: Option<&'a Node>)
    ensures
        match found {
            Some(node) => tree::find_node(all_nodes(tree@), txid@) == Some(node@),
            None => tree::find_node(all_nodes(tree@), txid@) is None,
        },
{
    let mut i: usize = 0;
    while i < tree.levels.len()
        invariant
            i <= tree@.len(),
            tree::find_node(views::flatten(tree@.take(i as int)), txid@) is None,
        decreases tree@.len() - i,
    {
        proof {
            assert(tree@.take(i + 1).drop_last() =~= tree@.take(i as int));
            lemma_find_in_both(views::flatten(tree@.take(i as int)), tree@[i as int], txid@);
        }
        match find_in_level(&tree.levels[i], txid) {
            Some(node) => {
                proof {
                    lemma_find_in_levels(tree@, txid@, i + 1);
                }
                return Some(node);
            },
            None => {},
        }
        i = i + 1;
    }
    assert(tree@.take(tree@.len() as int) =~= tree@);
    None
}

proof fn lemma_flatten_grows(levels: Seq<Seq<NodeView>>, n: int)
    requires
        0 <= n <= levels.len(),
    ensures
        views::flatten(levels.take(n)).len() <= views::flatten(levels).len(),
    decreases levels.len() - n,
{
    if n == levels.len() {
        assert(levels.take(n) =~= levels);
    } else {
        assert(levels.take(n + 1).drop_last() =~= levels.take(n));
        lemma_flatten_grows(levels, n + 1);
    }
}

/// A way that was found to a node, with the nodes below it.
spec fn extended(above: Option<Seq<NodeView>>, below: Seq<NodeView>) -> Option<Seq<NodeView>> {
    match above {
        Some(nodes) => Some(nodes + below),
        None => None,
    }
}

/// Puts the transaction of a node before those of the nodes below it.
fn with_parent(node: &Node, below: Vec<Psbt>, Ghost(nodes): Ghost<Seq<NodeView>>) -> (longer: Vec<Psbt>)
    requires
        views::views(below@) == txs_of(nodes),
    ensures
        views::views(longer@) == txs_of(seq![node@] + nodes),
{
    let ghost old_below = below@;
    let mut longer: Vec<Psbt> = below;
    longer.insert(0, node.tx.copy());
    assert(txs_of(nodes).len() == views::views(old_below).len());
    assert forall|k: int| 0 <= k < longer@.len() implies views::views(longer@)[k] == txs_of(
        seq![node@] + nodes,
    )[k] by {
        if k > 0 {
            assert(views::views(old_below)[k - 1] == txs_of(nodes)[k - 1]);
        }
    }
    assert(views::views(longer@) =~= txs_of(seq![node@] + nodes));
    longer
}

/// Builds the branch of a node, from the root down to it: nothing if the root cannot be reached.
pub fn branch_to_root(tree: &Tree, root: &Txid, leaf: &Node) -> (branch: Option<Vec<Psbt>>)
    ensures
        match branch {
            Some(b) => branch_of(tree@, root@, leaf@) matches Some(nodes) && views::views(b@)
                == txs_of(nodes),
            None => branch_of(tree@, root@, leaf@) is None,
        },
{
    let ghost nodes = all_nodes(tree@);
    let ghost mut rest: nat = nodes.len();
    let ghost mut below_nodes: Seq<NodeView> = Seq::empty();
    let mut below: Vec<Psbt> = Vec::new();
    let mut current: &Node = leaf;
    let mut i: usize = 0;
    proof {
        assert(views::views(below@) =~= txs_of(below_nodes));
        if let Some(b) = branch_of(tree@, root@, leaf@) {
            assert(b + below_nodes =~= b);
        }
    }
    // One step to a parent for every node of the tree.
    while i < tree.levels.len()
        invariant
            i <= tree@.len(),
            nodes == all_nodes(tree@),
            rest == nodes.len() - views::flatten(tree@.take(i as int)).len(),
            views::views(below@) == txs_of(below_nodes),
            branch_of(tree@, root@, leaf@) == extended(
                climb(nodes, root@, current@, rest),
                below_nodes,
            ),
        decreases tree@.len() - i,
    {
        let mut j: usize = 0;
        proof {
            assert(tree@.take(i + 1).drop_last() =~= tree@.take(i as int));
            lemma_flatten_grows(tree@, i + 1);
        }
        while j < tree.levels[i].nodes.len()
            invariant
                i < tree@.len(),
                j <= tree@[i as int].len(),
                nodes == all_nodes(tree@),
                views::flatten(tree@.take(i + 1)).len() == views::flatten(
                    tree@.take(i as int),
                ).len() + tree@[i as int].len(),
                views::flatten(tree@.take(i + 1)).len() <= nodes.len(),
                rest == nodes.len() - views::flatten(tree@.take(i as int)).len() - j,
                views::views(below@) == txs_of(below_nodes),
                branch_of(tree@, root@, leaf@) == extended(
                    climb(nodes, root@, current@, rest),
                    below_nodes,
                ),
            decreases tree@[i as int].len() - j,
        {
            if current.txid.same(root) {
                return Some(with_parent(current, below, Ghost(below_nodes)));
            }
            match find_in_tree(tree, &current.parent_txid) {
                Some(parent) => {
                    below = with_parent(current, below, Ghost(below_nodes));
                    proof {
                        let above = climb(nodes, root@, parent@, (rest - 1) as nat);
                        if let Some(a) = above {
                            assert(a.push(current@) + below_nodes =~= a + (seq![current@]
                                + below_nodes));
                        }
                        below_nodes = seq![current@] + below_nodes;
                        rest = (rest - 1) as nat;
                    }
                    current = parent;
                },
                None => {
                    return None;
                },
            }
            j = j + 1;
        }
        i = i + 1;
    }
    assert(tree@.take(tree@.len() as int) =~= tree@);
    if current.txid.same(root) {
        Some(with_parent(current, below, Ghost(below_nodes)))
    } else {
        None
    }
}

/// The nodes of a tree are those of all its levels, from the root down.
pub proof fn law_all_nodes_are_there(levels: Seq<Seq<NodeView>>)
    ensures
        all_nodes(levels) == levels.flatten(),
{
    views::law_flatten_joins_rows(levels);
}

/// Any way from the root down to a node, from parent to child, is the branch of the node, where the ids
/// on the way are those of just one node each.
pub proof fn law_the_way_from_the_root_is_the_branch(
    levels: Seq<Seq<NodeView>>,
    root: Seq<u8>,
    path: Seq<NodeView>,
)
    requires
        path.len() > 0,
        path[0].txid == root,
        forall|i: int| 0 < i < path.len() ==> (#[trigger] path[i]).txid != root,
        forall|i: int| 0 < i < path.len() ==> (#[trigger] path[i]).parent_txid == path[i - 1].txid,
        forall|i: int| 0 <= i < path.len() - 1 ==> levels.flatten().contains(#[trigger] path[i]),
        forall|i: int, node: NodeView|
            0 <= i < path.len() - 1 && #[trigger] levels.flatten().contains(node) && node.txid == (
            #[trigger] path[i]).txid ==> node == path[i],
    ensures
        branch_of(levels, root, path.last()) == Some(path),
{
    law_all_nodes_are_there(levels);
    lemma_climb_path(all_nodes(levels), root, path);
    law_branch_is_found_if_there_is_one(levels, root, path.last(), (path.len() - 1) as nat);
}

proof fn lemma_climb_path(nodes: Seq<NodeView>, root: Seq<u8>, path: Seq<NodeView>)
    requires
        path.len() > 0,
        path[0].txid == root,
        forall|i: int| 0 < i < path.len() ==> (#[trigger] path[i]).txid != root,
        forall|i: int| 0 < i < path.len() ==> (#[trigger] path[i]).parent_txid == path[i - 1].txid,
        forall|i: int| 0 <= i < path.len() - 1 ==> nodes.contains(#[trigger] path[i]),
        forall|i: int, node: NodeView|
            0 <= i < path.len() - 1 && #[trigger] nodes.contains(node) && node.txid == (
            #[trigger] path[i]).txid ==> node == path[i],
    ensures
        climb(nodes, root, path.last(), (path.len() - 1) as nat) == Some(path),
    decreases path.len(),
{
    if path.len() == 1 {
        assert(path =~= seq![path.last()]);
    } else {
        let above = path.drop_last();
        let parent = path[path.len() - 2];
        assert forall|i: int| 0 < i < above.len() implies (#[trigger] above[i]).txid != root by {
            assert(path[i].txid != root);
        }
        assert forall|i: int| 0 < i < above.len() implies (#[trigger] above[i]).parent_txid
            == above[i - 1].txid by {
            assert(path[i].parent_txid == path[i - 1].txid);
        }
        assert forall|i: int| 0 <= i < above.len() - 1 implies nodes.contains(#[trigger] above[i]) by {
            assert(nodes.contains(path[i]));
        }
        assert forall|i: int, node: NodeView|
            0 <= i < above.len() - 1 && #[trigger] nodes.contains(node) && node.txid == (
            #[trigger] above[i]).txid implies node == above[i] by {
            assert(node.txid == path[i].txid);
        }
        lemma_climb_path(nodes, root, above);
        let leaf = path[path.len() - 1];
        assert(leaf.txid != root);
        assert(leaf.parent_txid == parent.txid);
        assert(nodes.contains(parent));
        tree::law_first_node_is_found(nodes, parent.txid);
        lemma_find_node(nodes, parent.txid);
        let k = choose|k: int| 0 <= k < nodes.len() && nodes[k] == parent;
        assert(nodes[k].txid == parent.txid);
        let found = tree::find_node(nodes, parent.txid)->0;
        assert(nodes.contains(found));
        assert(found == path[path.len() - 2]);
        assert(above.push(leaf) =~= path);
    }
}

/// Every node of a branch above its own is a node of the tree.
pub proof fn law_branch_stays_in_the_tree(
    levels: Seq<Seq<NodeView>>,
    root: Seq<u8>,
    node: NodeView,
    i: int,
)
    requires
        branch_of(levels, root, node) is Some,
        0 <= i < branch_of(levels, root, node)->0.len() - 1,
    ensures
        levels.flatten().contains(branch_of(levels, root, node)->0[i]),
{
    law_all_nodes_are_there(levels);
    lemma_climb_prefix(all_nodes(levels), root, node, all_nodes(levels).len(), i);
}

} // verus!

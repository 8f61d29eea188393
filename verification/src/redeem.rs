//! Leaving the ark without the server.
//!
//! A VTXO is a leaf of the tree of a round. To get at it on-chain, the transactions from the root of
//! the tree down to the leaf are broadcast, as far as they are not on-chain yet. [`RedeemPlan`]
//! gathers the branches, [`BranchWalk`](crate::walk::BranchWalk) finds out which part of a branch is
//! missing, and [`BroadcastList`](crate::broadcast::BroadcastList) puts the missing transactions into
//! an order in which they can be broadcast.

use vstd::prelude::*;

use crate::branch;
use crate::branch::branch_to_root;
use crate::psbt;
use crate::psbt::Psbt;
use crate::script;
use crate::script::{extract_sequence_from_csv_sig_script, relative_lock_seconds};
use crate::server::{NodeView, Round, RoundView, Tree, VtxoOutPoint, VtxoOutPointView};
use crate::tree;
use crate::tree::{find_in_level, VTXO_INPUT_INDEX};
use crate::tx::OutPoint;
use crate::views;

verus! {

/// The branch of a VTXO.
pub struct RedeemBranch {
    pub vtxo: VtxoOutPoint,
    /// The transactions from the root of the tree down to the VTXO.
    pub branch: Vec<Psbt>,
    /// The seconds after which the server may sweep the tree.
    pub lifetime: u64,
    /// The transaction of the round, which the root spends.
    pub round_tx: Psbt,
}

/// The value of a [`RedeemBranch`].
pub struct RedeemBranchView {
    pub vtxo: VtxoOutPointView,
    pub branch: Seq<Seq<u8>>,
    pub lifetime: u64,
    pub round_tx: Seq<u8>,
}

impl View for RedeemBranch {
    type V = RedeemBranchView;

    open spec fn view(&self) -> RedeemBranchView {
        RedeemBranchView {
            vtxo: self.vtxo@,
            branch: views::views(self.branch@),
            lifetime: self.lifetime,
            round_tx: self.round_tx@,
        }
    }
}

/// The tree of a round.
pub struct RoundTree {
    pub round_txid: String,
    pub tree: Tree,
}

/// The value of a [`RoundTree`].
pub struct RoundTreeView {
    pub round_txid: Seq<char>,
    pub levels: Seq<Seq<NodeView>>,
}

impl View for RoundTree {
    type V = RoundTreeView;

    open spec fn view(&self) -> RoundTreeView {
        RoundTreeView { round_txid: self.round_txid@, levels: self.tree@ }
    }
}

/// The branches of the VTXOs that the client takes out of the ark, one for each VTXO transaction,
/// and the trees that they were found in, one for each round.
pub struct RedeemPlan {
    trees: Vec<RoundTree>,
    branches: Vec<RedeemBranch>,
}

/// The value of a [`RedeemPlan`].
pub struct PlanView {
    pub trees: Seq<RoundTreeView>,
    pub branches: Seq<RedeemBranchView>,
}

impl View for RedeemPlan {
    type V = PlanView;

    closed spec fn view(&self) -> PlanView {
        PlanView { trees: views::views(self.trees@), branches: views::views(self.branches@) }
    }
}

/// Whether a VTXO is taken out by its branch: only those that a round made are.
pub open spec fn is_redeemed(vtxo: VtxoOutPointView) -> bool {
    vtxo.redeem_tx.len() == 0
}

/// The tree of a round, if it is known.
pub open spec fn known_tree(trees: Seq<RoundTreeView>, round_txid: Seq<char>) -> Option<
    Seq<Seq<NodeView>>,
>
    decreases trees.len(),
{
    if trees.len() == 0 {
        None
    } else {
        match known_tree(trees.drop_last(), round_txid) {
            Some(levels) => Some(levels),
            None => if trees.last().round_txid == round_txid {
                Some(trees.last().levels)
            } else {
                None
            },
        }
    }
}

/// The transaction that a branch leads to.
pub open spec fn branch_key(branch: RedeemBranchView) -> Option<Seq<u8>> {
    match branch.vtxo.outpoint {
        Some(outpoint) => Some(outpoint.txid),
        None => None,
    }
}

/// Whether some branch leads to a transaction.
pub open spec fn has_branch(branches: Seq<RedeemBranchView>, key: Option<Seq<u8>>) -> bool {
    exists|i: int| 0 <= i < branches.len() && branch_key(#[trigger] branches[i]) == key
}

/// Branches after one was put in: in the place of the one that leads to the same transaction, or at
/// the end where there is none.
pub open spec fn put_branch(branches: Seq<RedeemBranchView>, new: RedeemBranchView) -> Seq<
    RedeemBranchView,
> {
    if has_branch(branches, branch_key(new)) {
        Seq::new(
            branches.len(),
            |i: int|
                if branch_key(branches[i]) == branch_key(new) {
                    new
                } else {
                    branches[i]
                },
        )
    } else {
        branches.push(new)
    }
}

/// The seconds that a script makes its spender wait, if it counts in time.
pub open spec fn script_lifetime(script: Seq<u8>) -> Option<u64> {
    match script::csv_sequence(script) {
        Some(sequence) => script::time_lock_seconds(sequence),
        None => None,
    }
}

/// The lifetime of a tree, by the scripts of its root: that of the last one, where there is one.
/// There is no answer where a script does not count in time.
pub open spec fn tree_lifetime(scripts: Seq<Seq<u8>>) -> Option<Option<u64>> {
    if forall|i: int| 0 <= i < scripts.len() ==> script_lifetime(#[trigger] scripts[i]) is Some {
        if scripts.len() == 0 {
            Some(None)
        } else {
            Some(script_lifetime(scripts.last()))
        }
    } else {
        None
    }
}

/// The branch by which a VTXO is taken out of a tree: none where the root has no scripts. There is no
/// answer where the tree has no root, a script of the root does not count in time, the VTXO is not
/// among the leaves, or the root cannot be reached from it.
pub open spec fn found_branch(
    levels: Seq<Seq<NodeView>>,
    vtxo: VtxoOutPointView,
    round_tx: Seq<u8>,
) -> Option<Option<RedeemBranchView>> {
    if levels.len() == 0 || levels[0].len() == 0 {
        None
    } else {
        let root = levels[0][0];
        match psbt::psbt_tap_input(root.tx, VTXO_INPUT_INDEX as int) {
            None => None,
            Some(tap) => match tree_lifetime(tap.scripts) {
                None => None,
                Some(None) => Some(None),
                Some(Some(lifetime)) => match vtxo.outpoint {
                    None => None,
                    Some(outpoint) => match tree::find_node(levels.last(), outpoint.txid) {
                        None => None,
                        Some(leaf) => match branch::branch_of(levels, root.txid, leaf) {
                            None => None,
                            Some(nodes) => Some(
                                Some(
                                    RedeemBranchView {
                                        vtxo,
                                        branch: branch::txs_of(nodes),
                                        lifetime,
                                        round_tx,
                                    },
                                ),
                            ),
                        },
                    },
                },
            },
        }
    }
}

/// The tree in which a VTXO of a round is looked for: the one that is known already, or the one that
/// the server sent with the round.
pub open spec fn tree_for(trees: Seq<RoundTreeView>, round_txid: Seq<char>, round: RoundView) -> Option<
    Seq<Seq<NodeView>>,
> {
    match known_tree(trees, round_txid) {
        Some(levels) => Some(levels),
        None => round.vtxo_tree,
    }
}

/// A plan after a VTXO and its round were looked at.
pub open spec fn planned(plan: PlanView, vtxo: VtxoOutPointView, round: Option<RoundView>) -> Option<
    PlanView,
> {
    if !is_redeemed(vtxo) {
        Some(plan)
    } else {
        match round {
            None => None,
            Some(r) => match tree_for(plan.trees, vtxo.round_txid, r) {
                None => None,
                Some(levels) => match found_branch(levels, vtxo, r.round_tx) {
                    None => None,
                    Some(branch) => Some(
                        PlanView {
                            trees: if known_tree(plan.trees, vtxo.round_txid) is Some {
                                plan.trees
                            } else {
                                plan.trees.push(
                                    RoundTreeView { round_txid: vtxo.round_txid, levels },
                                )
                            },
                            branches: match branch {
                                Some(b) => put_branch(plan.branches, b),
                                None => plan.branches,
                            },
                        },
                    ),
                },
            },
        }
    }
}

/// That no two branches lead to the same transaction.
pub open spec fn one_branch_each(branches: Seq<RedeemBranchView>) -> bool {
    forall|i: int, j: int|
        0 <= i < j < branches.len() ==> branch_key(#[trigger] branches[i]) != branch_key(
            #[trigger] branches[j],
        )
}

/// Looking at a VTXO leaves one branch for each transaction: the branch of the VTXO is there, those
/// of others are as they were.
pub proof fn law_one_branch_for_each_transaction(
    branches: Seq<RedeemBranchView>,
    new: RedeemBranchView,
)
    requires
        one_branch_each(branches),
    ensures
        one_branch_each(put_branch(branches, new)),
        put_branch(branches, new).contains(new),
        forall|old_one: RedeemBranchView|
            branch_key(old_one) != branch_key(new) ==> (#[trigger] put_branch(branches, new).contains(
                old_one,
            ) <==> branches.contains(old_one)),
{
    let after = put_branch(branches, new);
    if has_branch(branches, branch_key(new)) {
        let at = choose|at: int|
            0 <= at < branches.len() && branch_key(#[trigger] branches[at]) == branch_key(new);
        assert(after[at] == new);
    } else {
        assert(after[branches.len() as int] == new);
    }
    assert forall|i: int, j: int| 0 <= i < j < after.len() implies branch_key(#[trigger] after[i])
        != branch_key(#[trigger] after[j]) by {
        if j < branches.len() {
            assert(branch_key(branches[i]) != branch_key(branches[j]));
        } else {
            assert(branch_key(branches[i]) != branch_key(new));
        }
    }
    assert forall|old_one: RedeemBranchView| branch_key(old_one) != branch_key(new) implies (
    #[trigger] after.contains(old_one) <==> branches.contains(old_one)) by {
        if after.contains(old_one) {
            let k = choose|k: int| 0 <= k < after.len() && after[k] == old_one;
            assert(branches[k] == old_one);
        }
        if branches.contains(old_one) {
            let k = choose|k: int| 0 <= k < branches.len() && branches[k] == old_one;
            assert(after[k] == old_one);
        }
    }
}

/// The branch of a VTXO leads from the root of the tree, from parent to child, to the leaf whose
/// transaction is that of the VTXO.
pub proof fn law_branch_leads_to_the_vtxo(
    levels: Seq<Seq<NodeView>>,
    vtxo: VtxoOutPointView,
    round_tx: Seq<u8>,
)
    requires
        found_branch(levels, vtxo, round_tx) matches Some(Some(_)),
    ensures
        vtxo.outpoint is Some,
        exists|nodes: Seq<NodeView>|
            (found_branch(levels, vtxo, round_tx)->0->0).branch == #[trigger] branch::txs_of(nodes)
                && branch::is_linked(nodes) && nodes.len() > 0 && nodes.first().txid
                == levels[0][0].txid && nodes.last().txid == (vtxo.outpoint->0).txid,
{
    let root = levels[0][0].txid;
    let txid = (vtxo.outpoint->0).txid;
    let leaf = tree::find_node(levels.last(), txid)->0;
    let nodes = branch::branch_of(levels, root, leaf)->0;
    let all = branch::all_nodes(levels);
    branch::law_branch_goes_from_root_to_leaf(all, root, leaf, all.len());
    branch::lemma_find_node(levels.last(), txid);
    assert((found_branch(levels, vtxo, round_tx)->0->0).branch == branch::txs_of(nodes));
}

/// Reads the lifetime of a tree from the scripts of its root.
fn read_lifetime(scripts: &Vec<Vec<u8>>) -> (lifetime: Option<Option<u64>>)
    ensures
        lifetime == tree_lifetime(views::views(scripts@)),
{
    let ghost all = views::views(scripts@);
    let mut lifetime: Option<u64> = None;
    let mut i: usize = 0;
    while i < scripts.len()
        invariant
            i <= scripts@.len(),
            all == views::views(scripts@),
            forall|k: int| 0 <= k < i ==> script_lifetime(#[trigger] all[k]) is Some,
            i == 0 ==> lifetime is None,
            i > 0 ==> lifetime == script_lifetime(all[i - 1]),
        decreases scripts@.len() - i,
    {
        assert(all[i as int] == scripts@[i as int]@);
        match extract_sequence_from_csv_sig_script(&scripts[i]) {
            Some(sequence) => match relative_lock_seconds(sequence) {
                Some(seconds) => {
                    lifetime = Some(seconds);
                },
                None => {
                    assert(script_lifetime(all[i as int]) is None);
                    return None;
                },
            },
            None => {
                assert(script_lifetime(all[i as int]) is None);
                return None;
            },
        }
        i = i + 1;
    }
    Some(lifetime)
}

/// Finds the branch by which a VTXO is taken out of a tree.
fn find_branch(tree: &Tree, vtxo: &VtxoOutPoint, round_tx: &Psbt) -> (found: Option<
    Option<RedeemBranch>,
>)
    ensures
        match found {
            Some(b) => found_branch(tree@, vtxo@, round_tx@) == Some(views::option_view(b)),
            None => found_branch(tree@, vtxo@, round_tx@) is None,
        },
{
    if tree.levels.len() == 0 {
        return None;
    }
    assert(tree@[0] == tree.levels@[0]@);
    if tree.levels[0].nodes.len() == 0 {
        return None;
    }
    let root = &tree.levels[0].nodes[0];
    assert(tree@[0][0] == root@);
    let lifetime: u64 = match root.tx.tap_input(VTXO_INPUT_INDEX) {
        Some(tap) => match read_lifetime(&tap.scripts) {
            Some(Some(lifetime)) => lifetime,
            Some(None) => {
                return Some(None);
            },
            None => {
                return None;
            },
        },
        None => {
            return None;
        },
    };
    let outpoint: OutPoint = match vtxo.outpoint {
        Some(outpoint) => outpoint,
        None => {
            return None;
        },
    };
    assert(tree@.last() == tree.levels@[tree.levels@.len() - 1]@);
    match find_in_level(&tree.levels[tree.levels.len() - 1], &outpoint.txid) {
        Some(leaf) => match branch_to_root(tree, &root.txid, leaf) {
            Some(branch) => Some(
                Some(
                    RedeemBranch { vtxo: vtxo.copy(), branch, lifetime, round_tx: round_tx.copy() },
                ),
            ),
            None => None,
        },
        None => None,
    }
}

/// Whether two branches lead to the same transaction.
fn same_key(a: &RedeemBranch, b: &RedeemBranch) -> (same: bool)
    ensures
        same == (branch_key(a@) == branch_key(b@)),
{
    match (&a.vtxo.outpoint, &b.vtxo.outpoint) {
        (Some(x), Some(y)) => x.txid.same(&y.txid),
        (None, None) => true,
        _ => false,
    }
}

impl RedeemPlan {
    /// No two branches lead to the same transaction.
    #[verifier::type_invariant]
    spec fn wf(self) -> bool {
        one_branch_each(views::views(self.branches@))
    }

    /// A plan without branches.
    pub fn new() -> (plan: Self)
        ensures
            plan@.trees == Seq::<RoundTreeView>::empty(),
            plan@.branches == Seq::<RedeemBranchView>::empty(),
    {
        let plan = RedeemPlan { trees: Vec::new(), branches: Vec::new() };
        assert(plan@.trees =~= Seq::empty());
        assert(plan@.branches =~= Seq::empty());
        plan
    }

    /// Whether the round of a VTXO is needed.
    pub fn needs_round(vtxo: &VtxoOutPoint) -> (needed: bool)
        ensures
            needed == is_redeemed(vtxo@),
    {
        vtxo.redeem_tx.as_str().unicode_len() == 0
    }

    /// Hands the branches over.
    pub fn into_branches(self) -> (branches: Vec<RedeemBranch>)
        ensures
            views::views(branches@) == self@.branches,
            one_branch_each(self@.branches),
    {
        proof {
            use_type_invariant(&self);
        }
        self.branches
    }

    /// The branches.
    pub fn branches(&self) -> (branches: &Vec<RedeemBranch>)
        ensures
            views::views(branches@) == self@.branches,
            one_branch_each(self@.branches),
    {
        proof {
            use_type_invariant(self);
        }
        &self.branches
    }

    /// The place of the tree of a round.
    fn find_tree(&self, round_txid: &String) -> (at: Option<usize>)
        ensures
            match at {
                Some(i) => i < self.trees@.len() && known_tree(self@.trees, round_txid@) == Some(
                    self.trees@[i as int].tree@,
                ),
                None => known_tree(self@.trees, round_txid@) is None,
            },
    {
        let ghost all = views::views(self.trees@);
        let mut i: usize = 0;
        while i < self.trees.len()
            invariant
                i <= self.trees@.len(),
                all == views::views(self.trees@),
                known_tree(all.take(i as int), round_txid@) is None,
            decreases self.trees@.len() - i,
        {
            assert(all.take(i + 1).drop_last() =~= all.take(i as int));
            if self.trees[i].round_txid == *round_txid {
                proof {
                    lemma_tree_known_early(all, round_txid@, i + 1);
                }
                return Some(i);
            }
            i = i + 1;
        }
        assert(all.take(all.len() as int) =~= all);
        None
    }

    /// Puts a branch in.
    fn put(branches: Vec<RedeemBranch>, new: RedeemBranch) -> (after: Vec<RedeemBranch>)
        requires
            one_branch_each(views::views(branches@)),
        ensures
            views::views(after@) == put_branch(views::views(branches@), new@),
            one_branch_each(views::views(after@)),
    {
        let ghost before = views::views(branches@);
        let ghost added = new@;
        proof {
            law_one_branch_for_each_transaction(before, added);
        }
        let mut after: Vec<RedeemBranch> = branches;
        let mut i: usize = 0;
        while i < after.len()
            invariant
                i <= after@.len(),
                before == views::views(after@),
                before == views::views(branches@),
                added == new@,
                one_branch_each(before),
                one_branch_each(put_branch(before, added)),
                forall|k: int| 0 <= k < i ==> branch_key(#[trigger] before[k]) != branch_key(added),
            decreases after@.len() - i,
        {
            if same_key(&after[i], &new) {
                after.set(i, new);
                proof {
                    let stored = views::views(after@);
                    assert(branch_key(before[i as int]) == branch_key(added));
                    assert forall|k: int| 0 <= k < before.len() implies stored[k] == put_branch(
                        before,
                        added,
                    )[k] by {
                        if k < i {
                            assert(branch_key(before[k]) != branch_key(before[i as int]));
                        } else if k > i {
                            assert(branch_key(before[i as int]) != branch_key(before[k]));
                        }
                    }
                    assert(stored =~= put_branch(before, added));
                }
                return after;
            }
            assert(before[i as int] == after@[i as int]@);
            i = i + 1;
        }
        after.push(new);
        assert(views::views(after@) =~= before.push(added));
        after
    }

    /// Looks at a VTXO and, if it is taken out, at its round as the server sent it.
    ///
    /// The tree of a round is the one that came with it first. There is no plan, and the old one is
    /// lost, where the round or its tree is missing, the tree has no root, a script of the root does
    /// not count in time, the VTXO is not among the leaves, or the root cannot be reached from it.
    pub fn with_vtxo(self, vtxo: &VtxoOutPoint, round: Option<Round>) -> (plan: Option<Self>)
        ensures
            views::option_view(plan) == planned(
                self@,
                vtxo@,
                views::option_view(round),
            ),
    {
        proof {
            use_type_invariant(&self);
        }
        if !Self::needs_round(vtxo) {
            return Some(self);
        }
        let round: Round = match round {
            Some(round) => round,
            None => {
                return None;
            },
        };
        let known: Option<usize> = self.find_tree(&vtxo.round_txid);
        let RedeemPlan { trees, branches } = self;
        let mut trees: Vec<RoundTree> = trees;
        let ghost old_trees = views::views(trees@);
        let at: usize = match known {
            Some(i) => i,
            None => match round.vtxo_tree {
                Some(tree) => {
                    trees.push(RoundTree { round_txid: vtxo.round_txid.clone(), tree });
                    proof {
                        let added = RoundTreeView { round_txid: vtxo.round_txid@, levels: tree@ };
                        assert(views::views(trees@) =~= old_trees.push(added));
                    }
                    trees.len() - 1
                },
                None => {
                    return None;
                },
            },
        };
        match find_branch(&trees[at].tree, vtxo, &round.round_tx) {
            Some(Some(branch)) => Some(
                RedeemPlan { trees, branches: Self::put(branches, branch) },
            ),
            Some(None) => Some(RedeemPlan { trees, branches }),
            None => None,
        }
    }
}

proof fn lemma_tree_known_early(trees: Seq<RoundTreeView>, round_txid: Seq<char>, n: int)
    requires
        0 <= n <= trees.len(),
        known_tree(trees.take(n), round_txid) is Some,
    ensures
        known_tree(trees, round_txid) == known_tree(trees.take(n), round_txid),
    decreases trees.len() - n,
{
    if n == trees.len() {
        assert(trees.take(n) =~= trees);
    } else {
        assert(trees.take(n + 1).drop_last() =~= trees.take(n));
        lemma_tree_known_early(trees, round_txid, n + 1);
    }
}

/// The tree that is known for a round was stored under the id of that very round, and is the first that
/// was; none is known just if none was stored under it.
pub proof fn law_known_tree_is_that_of_the_round(trees: Seq<RoundTreeView>, round_txid: Seq<char>)
    ensures
        match known_tree(trees, round_txid) {
            Some(levels) => exists|k: int|
                0 <= k < trees.len() && (#[trigger] trees[k]).round_txid == round_txid
                    && trees[k].levels == levels && forall|earlier: int|
                    0 <= earlier < k ==> (#[trigger] trees[earlier]).round_txid != round_txid,
            None => forall|k: int|
                0 <= k < trees.len() ==> (#[trigger] trees[k]).round_txid != round_txid,
        },
    decreases trees.len(),
{
    if trees.len() > 0 {
        let front = trees.drop_last();
        law_known_tree_is_that_of_the_round(front, round_txid);
        match known_tree(front, round_txid) {
            Some(levels) => {
                let k = choose|k: int|
                    0 <= k < front.len() && (#[trigger] front[k]).round_txid == round_txid
                        && front[k].levels == levels && forall|earlier: int|
                        0 <= earlier < k ==> (#[trigger] front[earlier]).round_txid != round_txid;
                assert(trees[k] == front[k]);
                assert forall|earlier: int| 0 <= earlier < k implies (
                #[trigger] trees[earlier]).round_txid != round_txid by {
                    assert(front[earlier].round_txid != round_txid);
                }
            },
            None => {
                assert forall|k: int| 0 <= k < front.len() implies (#[trigger] trees[k]).round_txid
                    != round_txid by {
                    assert(front[k].round_txid != round_txid);
                }
                assert(trees[trees.len() - 1] == trees.last());
            },
        }
    }
}

/// That a tree is the one of a round: the first that was stored under the id of the round or, where none
/// was, the one that the server sent with the round.
pub open spec fn is_tree_of_round(
    trees: Seq<RoundTreeView>,
    round_txid: Seq<char>,
    round: RoundView,
    levels: Seq<Seq<NodeView>>,
) -> bool {
    ||| exists|k: int|
        0 <= k < trees.len() && (#[trigger] trees[k]).round_txid == round_txid && trees[k].levels
            == levels && forall|earlier: int|
            0 <= earlier < k ==> (#[trigger] trees[earlier]).round_txid != round_txid
    ||| (forall|k: int| 0 <= k < trees.len() ==> (#[trigger] trees[k]).round_txid != round_txid)
        && round.vtxo_tree == Some(levels)
}

/// A VTXO is looked for in the tree of its own round, and in no other.
pub proof fn law_vtxo_is_looked_for_in_its_own_round(
    trees: Seq<RoundTreeView>,
    round_txid: Seq<char>,
    round: RoundView,
    levels: Seq<Seq<NodeView>>,
)
    ensures
        tree_for(trees, round_txid, round) == Some(levels) <==> is_tree_of_round(
            trees,
            round_txid,
            round,
            levels,
        ),
{
    law_known_tree_is_that_of_the_round(trees, round_txid);
    if is_tree_of_round(trees, round_txid, round, levels) {
        if exists|k: int|
            0 <= k < trees.len() && (#[trigger] trees[k]).round_txid == round_txid && trees[k].levels
                == levels && forall|earlier: int|
                0 <= earlier < k ==> (#[trigger] trees[earlier]).round_txid != round_txid {
            let k = choose|k: int|
                0 <= k < trees.len() && (#[trigger] trees[k]).round_txid == round_txid
                    && trees[k].levels == levels && forall|earlier: int|
                    0 <= earlier < k ==> (#[trigger] trees[earlier]).round_txid != round_txid;
            let found = known_tree(trees, round_txid)->0;
            let m = choose|m: int|
                0 <= m < trees.len() && (#[trigger] trees[m]).round_txid == round_txid
                    && trees[m].levels == found && forall|earlier: int|
                    0 <= earlier < m ==> (#[trigger] trees[earlier]).round_txid != round_txid;
            if m < k {
                assert(trees[m].round_txid != round_txid);
            } else if k < m {
                assert(trees[k].round_txid != round_txid);
            }
        }
    }
}

/// A VTXO that a round made is put into the plan by its branch in the tree of its own round, just if
/// there is an answer there; the plan then knows that tree for the round, and knows of other rounds what
/// it knew. One that a payment made changes nothing.
pub proof fn law_plan_grows_by_the_branch_of_the_vtxo(
    plan: PlanView,
    vtxo: VtxoOutPointView,
    round: RoundView,
    levels: Seq<Seq<NodeView>>,
)
    requires
        is_tree_of_round(plan.trees, vtxo.round_txid, round, levels),
    ensures
        vtxo.redeem_tx.len() > 0 ==> planned(plan, vtxo, Some(round)) == Some(plan),
        vtxo.redeem_tx.len() == 0 ==> match found_branch(levels, vtxo, round.round_tx) {
            None => planned(plan, vtxo, Some(round)) is None,
            Some(found) => {
                let after = planned(plan, vtxo, Some(round))->0;
                &&& planned(plan, vtxo, Some(round)) is Some
                &&& after.branches == (match found {
                    Some(branch) => put_branch(plan.branches, branch),
                    None => plan.branches,
                })
                &&& known_tree(after.trees, vtxo.round_txid) == Some(levels)
                &&& forall|other: Seq<char>|
                    other != vtxo.round_txid ==> #[trigger] known_tree(after.trees, other) == known_tree(
                        plan.trees,
                        other,
                    )
            },
        },
{
    law_vtxo_is_looked_for_in_its_own_round(plan.trees, vtxo.round_txid, round, levels);
    let added = RoundTreeView { round_txid: vtxo.round_txid, levels };
    assert(plan.trees.push(added).drop_last() =~= plan.trees);
}

/// Without its round, or where the round has no tree and none was stored for it, there is no plan for a
/// VTXO that a round made.
pub proof fn law_no_plan_without_the_tree(
    plan: PlanView,
    vtxo: VtxoOutPointView,
    round: Option<RoundView>,
)
    requires
        vtxo.redeem_tx.len() == 0,
        round matches Some(r) ==> r.vtxo_tree is None && forall|k: int|
            0 <= k < plan.trees.len() ==> (#[trigger] plan.trees[k]).round_txid != vtxo.round_txid,
    ensures
        planned(plan, vtxo, round) is None,
{
    law_known_tree_is_that_of_the_round(plan.trees, vtxo.round_txid);
}

/// The branch that is found for a VTXO is its own: it is kept with the VTXO and the transaction of the
/// round, it goes from the first node of the first level, from parent to child, to a leaf whose
/// transaction is that of the VTXO, and all of it is in the tree.
pub proof fn law_branch_is_that_of_the_vtxo(
    levels: Seq<Seq<NodeView>>,
    vtxo: VtxoOutPointView,
    round_tx: Seq<u8>,
)
    requires
        found_branch(levels, vtxo, round_tx) matches Some(Some(_)),
    ensures
        ({
            let branch = found_branch(levels, vtxo, round_tx)->0->0;
            &&& branch.vtxo == vtxo
            &&& branch.round_tx == round_tx
            &&& vtxo.outpoint is Some
            &&& exists|nodes: Seq<NodeView>|
                #![trigger nodes.len()]
                nodes.len() == branch.branch.len() && nodes.len() > 0 && nodes[0].txid
                    == levels[0][0].txid && nodes.last().txid == (vtxo.outpoint->0).txid
                    && levels.last().contains(nodes.last()) && (forall|k: int|
                    0 <= k < nodes.len() ==> #[trigger] branch.branch[k] == nodes[k].tx) && (forall|
                    k: int,
                |
                    0 < k < nodes.len() ==> (#[trigger] nodes[k]).parent_txid == nodes[k - 1].txid)
                    && (forall|k: int|
                    0 <= k < nodes.len() - 1 ==> levels.flatten().contains(#[trigger] nodes[k]))
        }),
{
    let branch = found_branch(levels, vtxo, round_tx)->0->0;
    let root = levels[0][0].txid;
    let txid = (vtxo.outpoint->0).txid;
    let leaf = tree::find_node(levels.last(), txid)->0;
    let nodes = branch::branch_of(levels, root, leaf)->0;
    let all = branch::all_nodes(levels);
    branch::law_branch_goes_from_root_to_leaf(all, root, leaf, all.len());
    branch::lemma_find_node(levels.last(), txid);
    assert forall|k: int| 0 <= k < nodes.len() - 1 implies levels.flatten().contains(
        #[trigger] nodes[k],
    ) by {
        branch::law_branch_stays_in_the_tree(levels, root, leaf, k);
    }
    assert forall|k: int| 0 < k < nodes.len() implies (#[trigger] nodes[k]).parent_txid == nodes[k
        - 1].txid by {
        assert(nodes[k - 1].txid == nodes[k].parent_txid);
    }
    assert(nodes[0] == nodes.first());
    assert(nodes.len() == branch.branch.len());
}

/// The branch of a VTXO is found where there is one: the root says when the tree may be swept, the VTXO
/// is among the leaves, and some way leads to it from the root.
pub proof fn law_branch_is_found_where_there_is_one(
    levels: Seq<Seq<NodeView>>,
    vtxo: VtxoOutPointView,
    round_tx: Seq<u8>,
    path: Seq<NodeView>,
    lifetime: u64,
    outpoint: crate::tx::OutPointView,
)
    requires
        levels.len() > 0,
        levels[0].len() > 0,
        psbt::psbt_tap_input(levels[0][0].tx, 0) is Some,
        tree_lifetime((psbt::psbt_tap_input(levels[0][0].tx, 0)->0).scripts) == Some(Some(lifetime)),
        vtxo.outpoint == Some(outpoint),
        path.len() > 0,
        path.last().txid == outpoint.txid,
        levels.last().contains(path.last()),
        forall|node: NodeView| #[trigger]
            levels.last().contains(node) && node.txid == outpoint.txid ==> node == path.last(),
        path[0].txid == levels[0][0].txid,
        forall|i: int| 0 < i < path.len() ==> (#[trigger] path[i]).txid != levels[0][0].txid,
        forall|i: int| 0 < i < path.len() ==> (#[trigger] path[i]).parent_txid == path[i - 1].txid,
        forall|i: int| 0 <= i < path.len() - 1 ==> levels.flatten().contains(#[trigger] path[i]),
        forall|i: int, node: NodeView|
            0 <= i < path.len() - 1 && #[trigger] levels.flatten().contains(node) && node.txid == (
            #[trigger] path[i]).txid ==> node == path[i],
    ensures
        found_branch(levels, vtxo, round_tx) matches Some(Some(branch)) && branch.vtxo == vtxo
            && branch.lifetime == lifetime && branch.round_tx == round_tx && branch.branch
            == path.map_values(|node: NodeView| node.tx),
{
    branch::law_the_way_from_the_root_is_the_branch(levels, levels[0][0].txid, path);
    tree::law_first_node_is_found(levels.last(), outpoint.txid);
    branch::lemma_find_node(levels.last(), outpoint.txid);
    let k = choose|k: int| 0 <= k < levels.last().len() && levels.last()[k] == path.last();
    assert(levels.last()[k].txid == outpoint.txid);
    assert(branch::txs_of(path) =~= path.map_values(|node: NodeView| node.tx));
}

/// There is no branch where the tree has no root, or the VTXO has no place or is not among the leaves.
pub proof fn law_no_branch_without_a_leaf(
    levels: Seq<Seq<NodeView>>,
    vtxo: VtxoOutPointView,
    round_tx: Seq<u8>,
)
    requires
        levels.len() == 0 || levels[0].len() == 0 || vtxo.outpoint is None || forall|k: int|
            0 <= k < levels.last().len() ==> (#[trigger] levels.last()[k]).txid != (
            vtxo.outpoint->0).txid,
    ensures
        !(found_branch(levels, vtxo, round_tx) matches Some(Some(_))),
{
    if levels.len() > 0 && vtxo.outpoint is Some {
        tree::law_first_node_is_found(levels.last(), (vtxo.outpoint->0).txid);
    }
}

/// The lifetime of a tree is what the last script of its root makes its spender wait, where all of them
/// count in time; there is none where there are no scripts, and no answer where one does not.
pub proof fn law_lifetime_is_that_of_the_last_script(
    scripts: Seq<Seq<u8>>,
    sequences: Seq<u32>,
    keys: Seq<Seq<u8>>,
)
    requires
        scripts.len() == sequences.len(),
        scripts.len() == keys.len(),
        forall|i: int|
            0 <= i < scripts.len() ==> #[trigger] scripts[i] == script::csv_sig(
                sequences[i],
                keys[i],
            ),
    ensures
        tree_lifetime(scripts) == (if exists|i: int|
            0 <= i < sequences.len() && ((#[trigger] sequences[i]) & 0x8000_0000 != 0 || sequences[i]
                & 0x40_0000 == 0) {
            None
        } else if scripts.len() == 0 {
            Some(None)
        } else {
            Some(Some(((sequences.last() & 0xffff) * 512) as u64))
        }),
{
    assert forall|i: int| 0 <= i < scripts.len() implies script_lifetime(#[trigger] scripts[i])
        == script::time_lock_seconds(sequences[i]) by {
        script::law_csv_round_trip(sequences[i], keys[i]);
    }
    assert forall|i: int| 0 <= i < sequences.len() implies (script_lifetime(scripts[i]) is Some) == ((
    #[trigger] sequences[i]) & 0x8000_0000 == 0 && sequences[i] & 0x40_0000 != 0) by {
        script::law_time_lock_reads_the_bits(sequences[i]);
        assert(script_lifetime(scripts[i]) == script::time_lock_seconds(sequences[i]));
    }
    if scripts.len() > 0 {
        script::law_time_lock_reads_the_bits(sequences.last());
        assert(script_lifetime(scripts[scripts.len() - 1]) == script::time_lock_seconds(
            sequences[scripts.len() - 1],
        ));
    }
    if forall|i: int| 0 <= i < scripts.len() ==> script_lifetime(#[trigger] scripts[i]) is Some {
        assert forall|i: int| 0 <= i < sequences.len() implies !((#[trigger] sequences[i]) & 0x8000_0000
            != 0 || sequences[i] & 0x40_0000 == 0) by {
            assert(script_lifetime(scripts[i]) is Some);
        }
    } else {
        let i = choose|i: int| 0 <= i < scripts.len() && script_lifetime(#[trigger] scripts[i]) is None;
        assert(sequences[i] & 0x8000_0000 != 0 || sequences[i] & 0x40_0000 == 0);
    }
}

/// A branch takes the place of the one that leads to the same transaction, or the place behind all
/// others; all others keep their places.
pub proof fn law_branches_keep_their_places(
    branches: Seq<RedeemBranchView>,
    new: RedeemBranchView,
    i: int,
)
    requires
        0 <= i < branches.len(),
        branches[i].vtxo.outpoint is Some,
        new.vtxo.outpoint is Some,
    ensures
        put_branch(branches, new)[i] == (if (branches[i].vtxo.outpoint->0).txid == (
        new.vtxo.outpoint->0).txid {
            new
        } else {
            branches[i]
        }),
        put_branch(branches, new).len() <= branches.len() + 1,
        (branches[i].vtxo.outpoint->0).txid == (new.vtxo.outpoint->0).txid ==> put_branch(
            branches,
            new,
        ).len() == branches.len(),
        put_branch(branches, new).len() == branches.len() + 1 ==> put_branch(branches, new).last()
            == new,
{
    if (branches[i].vtxo.outpoint->0).txid == (new.vtxo.outpoint->0).txid {
        assert(branch_key(branches[i]) == branch_key(new));
        assert(has_branch(branches, branch_key(new)));
    }
}

/// A tree needs no branch just if it has a root whose input has no scripts.
pub proof fn law_no_branch_is_needed_without_scripts(
    levels: Seq<Seq<NodeView>>,
    vtxo: VtxoOutPointView,
    round_tx: Seq<u8>,
)
    ensures
        found_branch(levels, vtxo, round_tx) == Some(None::<RedeemBranchView>) <==> (levels.len() > 0
            && levels[0].len() > 0 && (psbt::psbt_tap_input(levels[0][0].tx, 0) matches Some(tap)
            && tap.scripts.len() == 0)),
{
}

} // verus!

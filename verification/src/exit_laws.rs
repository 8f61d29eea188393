//! What holds of every way out of the ark, as long as the blockchain does not change its mind.

use vstd::prelude::*;

use crate::broadcast;
use crate::broadcast::ListView;
use crate::error::Error;
use crate::exit;
use crate::exit::{AnswerView, ExitView, MadeView, QuestionView};
use crate::oor;
use crate::psbt;
use crate::redeem;
use crate::redeem::{PlanView, RedeemBranchView};
use crate::server::{RoundView, VtxoOutPointView};
use crate::spendable::SpendableGroupView;
use crate::walk;
use crate::walk::WalkView;

verus! {

/// The id of a transaction of a branch, by which it is asked about.
pub open spec fn node_id(branch: RedeemBranchView, k: int) -> Seq<u8> {
    psbt::psbt_txid(branch.branch[k])
}

/// The id of what a transaction of a branch hangs on: the one above it, or the transaction of the
/// round.
pub open spec fn parent_id(branch: RedeemBranchView, k: int) -> Seq<u8> {
    if k == 0 {
        psbt::psbt_txid(branch.round_tx)
    } else {
        node_id(branch, k - 1)
    }
}

/// That every transaction of a branch spends just outputs of what it hangs on, without a script
/// signature.
pub open spec fn is_spending_chain(branch: RedeemBranchView) -> bool {
    forall|k: int|
        0 <= k < branch.branch.len() ==> #[trigger] spends_its_parent(branch, k)
            && psbt::has_no_script_sigs(branch.branch[k])
}

/// That a transaction of a branch spends just outputs of what it hangs on.
pub open spec fn spends_its_parent(branch: RedeemBranchView, k: int) -> bool {
    let inputs = (psbt::psbt_parts(branch.branch[k])->0).inputs;
    forall|q: int| 0 <= q < inputs.len() ==> (#[trigger] inputs[q]).txid == parent_id(branch, k)
}

/// That branches hang together, and no transaction of a round is one of a branch.
pub open spec fn are_spending_chains(branches: Seq<RedeemBranchView>) -> bool {
    &&& forall|b: int| 0 <= b < branches.len() ==> is_spending_chain(#[trigger] branches[b])
    &&& forall|b: int, c: int, k: int|
        0 <= b < branches.len() && 0 <= c < branches.len() && 0 <= k < branches[c].branch.len()
            ==> psbt::psbt_txid((#[trigger] branches[b]).round_tx) != #[trigger] node_id(
            branches[c],
            k,
        )
}

/// That a transaction spends an output of another.
pub open spec fn spends(child: Seq<u8>, parent: Seq<u8>) -> bool {
    exists|q: int|
        0 <= q < (psbt::tx_head(child)->0).inputs.len() && Some(
            (#[trigger] (psbt::tx_head(child)->0).inputs[q]).txid,
        ) == psbt::tx_txid(parent)
}

/// That transactions can be broadcast in this order: what one of them spends of another comes before
/// it.
pub open spec fn is_valid_order(txs: Seq<Seq<u8>>) -> bool {
    forall|i: int, j: int|
        0 <= i < txs.len() && 0 <= j < txs.len() && spends(#[trigger] txs[j], #[trigger] txs[i])
            ==> i < j
}

/// That an id is that of a transaction of some branch.
pub open spec fn is_node_id(branches: Seq<RedeemBranchView>, txid: Seq<u8>) -> bool {
    exists|b: int, k: int|
        0 <= b < branches.len() && 0 <= k < branches[b].branch.len() && #[trigger] node_id(
            branches[b],
            k,
        ) == txid
}

/// That an id is that of the transaction of a round.
pub open spec fn is_round_id(branches: Seq<RedeemBranchView>, txid: Seq<u8>) -> bool {
    exists|b: int|
        0 <= b < branches.len() && psbt::psbt_txid((#[trigger] branches[b]).round_tx) == txid
}

/// That what a transaction of a list spends is before it in the list, on-chain, or of a round.
pub open spec fn is_grounded(
    list: ListView,
    branches: Seq<RedeemBranchView>,
    on_chain: spec_fn(Seq<u8>) -> bool,
    i: int,
) -> bool {
    let inputs = (psbt::tx_head(list.txs[i])->0).inputs;
    forall|q: int|
        0 <= q < inputs.len() ==> list.txids.take(i).contains((#[trigger] inputs[q]).txid)
            || on_chain(inputs[q].txid) || is_round_id(branches, inputs[q].txid)
}

/// That a list can be broadcast in its order, as far as it goes.
pub open spec fn is_ordered(
    list: ListView,
    branches: Seq<RedeemBranchView>,
    on_chain: spec_fn(Seq<u8>) -> bool,
) -> bool {
    &&& broadcast::is_proper(list)
    &&& forall|i: int|
        0 <= i < list.txids.len() ==> !on_chain(#[trigger] list.txids[i]) && is_node_id(
            branches,
            list.txids[i],
        )
    &&& forall|i: int| #![trigger list.txs[i]]
        0 <= i < list.txs.len() ==> is_grounded(list, branches, on_chain, i)
}

/// That a walk up a branch was told what is on-chain.
pub open spec fn walk_agrees(
    branch: RedeemBranchView,
    walk: WalkView,
    on_chain: spec_fn(Seq<u8>) -> bool,
) -> bool {
    &&& walk.unasked + walk.pending.len() == branch.branch.len()
    &&& forall|i: int|
        0 <= i < walk.pending.len() ==> walk::prepared(branch, branch.branch[walk.unasked + i])
            == Some(#[trigger] walk.pending[i]) && !on_chain(node_id(branch, walk.unasked + i))
    &&& walk.stopped ==> walk.unasked > 0 && on_chain(node_id(branch, walk.unasked - 1))
}

proof fn lemma_ordered_list_is_valid(
    list: ListView,
    branches: Seq<RedeemBranchView>,
    on_chain: spec_fn(Seq<u8>) -> bool,
)
    requires
        is_ordered(list, branches, on_chain),
        are_spending_chains(branches),
    ensures
        is_valid_order(list.txs),
{
    assert forall|i: int, j: int|
        0 <= i < list.txs.len() && 0 <= j < list.txs.len() && spends(
            #[trigger] list.txs[j],
            #[trigger] list.txs[i],
        ) implies i < j by {
        assert(is_grounded(list, branches, on_chain, j));
        let inputs = (psbt::tx_head(list.txs[j])->0).inputs;
        let q = choose|q: int|
            0 <= q < inputs.len() && Some((#[trigger] inputs[q]).txid) == psbt::tx_txid(list.txs[i]);
        let spent = inputs[q].txid;
        assert(psbt::tx_txid(list.txs[i]) == Some(list.txids[i]));
        assert(spent == list.txids[i]);
        assert(is_node_id(branches, list.txids[i]));
        if list.txids.take(j).contains(spent) {
            let m = choose|m: int| 0 <= m < j && list.txids.take(j)[m] == spent;
            assert(list.txids[m] == list.txids[i]);
        }
    }
}

/// Putting one more transaction of a finished walk into a list keeps it in order.
proof fn lemma_one_more(
    list: ListView,
    branches: Seq<RedeemBranchView>,
    at: int,
    walk: WalkView,
    on_chain: spec_fn(Seq<u8>) -> bool,
    n: int,
)
    requires
        0 <= at < branches.len(),
        are_spending_chains(branches),
        is_ordered(list, branches, on_chain),
        walk_agrees(branches[at], walk, on_chain),
        walk::walk_over(walk),
        exit::is_made(MadeView { branch: branches[at], from: walk.unasked }),
        0 <= n <= walk.pending.len(),
        broadcast::with_branch(list, walk.pending.take(n)) matches Some(Ok(_)),
    ensures
        ({
            let longer = broadcast::with_branch(list, walk.pending.take(n))->0->Ok_0;
            &&& is_ordered(longer, branches, on_chain)
            &&& n > 0 ==> longer.txids.contains(node_id(branches[at], walk.unasked + n - 1))
        }),
    decreases n,
{
    let branch = branches[at];
    if n == 0 {
        assert(walk.pending.take(0) =~= Seq::empty());
    } else {
        let front = walk.pending.take(n - 1);
        assert(walk.pending.take(n).drop_last() =~= front);
        lemma_one_more(list, branches, at, walk, on_chain, n - 1);
        let before = broadcast::with_branch(list, front)->0->Ok_0;
        let after = broadcast::with_branch(list, walk.pending.take(n))->0->Ok_0;
        let ready = walk.pending[n - 1];
        let k = walk.unasked + n - 1;
        assert(walk.pending.take(n).last() == ready);
        assert(walk::prepared(branch, branch.branch[k]) == Some(ready));
        let tx = broadcast::finalized(ready)->0->Ok_0;
        let head = psbt::tx_head(tx)->0;
        assert(exit::final_head(branch, k) == Some(head));
        assert(exit::keeps_node(branch, k));
        assert(is_spending_chain(branch));
        assert(spends_its_parent(branch, k));
        assert(head.txid == node_id(branch, k));
        if !before.txids.contains(head.txid) {
            let last = before.txids.len() as int;
            broadcast::law_no_transaction_twice(list, walk.pending.take(n));
            assert(after.txids[last] == head.txid);
            assert(after.txids =~= before.txids.push(head.txid));
            assert(after.txs =~= before.txs.push(tx));
            assert forall|i: int| 0 <= i < after.txids.len() implies !on_chain(
                #[trigger] after.txids[i],
            ) && is_node_id(branches, after.txids[i]) by {
                if i < last {
                    assert(after.txids[i] == before.txids[i]);
                } else {
                    assert(!on_chain(node_id(branch, walk.unasked + (n - 1))));
                    assert(node_id(branches[at], k) == head.txid);
                }
            }
            assert forall|i: int| #![trigger after.txs[i]]
                0 <= i < after.txs.len() implies is_grounded(after, branches, on_chain, i) by {
                if i < last {
                    assert(after.txs[i] == before.txs[i]);
                    assert(is_grounded(before, branches, on_chain, i));
                    assert(after.txids.take(i) =~= before.txids.take(i));
                } else {
                    assert(after.txids.take(last) =~= before.txids);
                    if n == 1 && k == 0 {
                        assert(is_round_id(branches, psbt::psbt_txid(branches[at].round_tx)));
                    }
                }
            }
        }
    }
}

/// What an exit remembers of the branches whose transactions have been made final.
pub open spec fn made_of(exit: ExitView) -> Seq<MadeView> {
    match exit {
        ExitView::Gathering { .. } => Seq::empty(),
        ExitView::Walking { made, .. } => made,
        ExitView::Sending { made, .. } => made,
    }
}

proof fn lemma_settled_remembers(
    branches: Seq<RedeemBranchView>,
    at: nat,
    walk: WalkView,
    list: ListView,
    made: Seq<MadeView>,
)
    requires
        at < branches.len(),
        exit::settled(branches, at, walk, list, made) matches Some(Ok(_)),
    ensures
        ({
            let all = made_of(exit::settled(branches, at, walk, list, made)->0->Ok_0);
            &&& made.is_prefix_of(all)
            &&& walk::walk_over(walk) ==> made.push(
                MadeView { branch: branches[at as int], from: walk.unasked },
            ).is_prefix_of(all)
        }),
    decreases branches.len() - at,
{
    let all = made_of(exit::settled(branches, at, walk, list, made)->0->Ok_0);
    if walk::walk_over(walk) {
        let longer = broadcast::with_branch(list, walk.pending)->0->Ok_0;
        let more = made.push(MadeView { branch: branches[at as int], from: walk.unasked });
        if at + 1 < branches.len() {
            let next = walk::walk_start(branches[(at + 1) as int]);
            lemma_settled_remembers(branches, at + 1, next, longer, more);
        } else {
            assert(more =~= all.take(more.len() as int));
        }
        assert(made =~= all.take(made.len() as int)) by {
            assert(more =~= all.take(more.len() as int));
            assert forall|i: int| 0 <= i < made.len() implies made[i] == all[i] by {
                assert(more[i] == all.take(more.len() as int)[i]);
            }
        }
    } else {
        assert(made =~= all.take(made.len() as int));
    }
}

proof fn lemma_settled_is_ordered(
    branches: Seq<RedeemBranchView>,
    at: nat,
    walk: WalkView,
    list: ListView,
    made: Seq<MadeView>,
    on_chain: spec_fn(Seq<u8>) -> bool,
)
    requires
        at < branches.len(),
        exit::settled(branches, at, walk, list, made) matches Some(Ok(next)) && exit::is_faithful(next),
        are_spending_chains(branches),
        is_ordered(list, branches, on_chain),
        walk_agrees(branches[at as int], walk, on_chain),
    ensures
        keeps_order(exit::settled(branches, at, walk, list, made)->0->Ok_0, on_chain),
    decreases branches.len() - at,
{
    if walk::walk_over(walk) {
        if let Some(Ok(longer)) = broadcast::with_branch(list, walk.pending) {
            let this = MadeView { branch: branches[at as int], from: walk.unasked };
            let more = made.push(this);
            lemma_settled_remembers(branches, at, walk, list, made);
            assert(exit::is_made(this)) by {
                let all = made_of(exit::settled(branches, at, walk, list, made)->0->Ok_0);
                assert(more[made.len() as int] == all.take(more.len() as int)[made.len() as int]);
                assert(all[made.len() as int] == this);
            }
            assert(walk.pending.take(walk.pending.len() as int) =~= walk.pending);
            lemma_one_more(
                list,
                branches,
                at as int,
                walk,
                on_chain,
                walk.pending.len() as int,
            );
            if at + 1 < branches.len() {
                lemma_settled_is_ordered(
                    branches,
                    at + 1,
                    walk::walk_start(branches[(at + 1) as int]),
                    longer,
                    more,
                    on_chain,
                );
            } else {
                lemma_ordered_list_is_valid(longer, branches, on_chain);
            }
        }
    }
}

/// That an exit has put nothing into a wrong order, given what is on-chain.
pub open spec fn keeps_order(exit: ExitView, on_chain: spec_fn(Seq<u8>) -> bool) -> bool {
    match exit {
        ExitView::Gathering { .. } => true,
        ExitView::Walking { branches, at, walk, list, .. } => {
            &&& at < branches.len()
            &&& are_spending_chains(branches)
            &&& is_ordered(list, branches, on_chain)
            &&& walk_agrees(branches[at as int], walk, on_chain)
        },
        ExitView::Sending { txs, .. } => is_valid_order(txs),
    }
}

/// That an answer says what is on-chain, where it is asked for.
pub open spec fn is_true_answer(
    exit: ExitView,
    answer: AnswerView,
    on_chain: spec_fn(Seq<u8>) -> bool,
) -> bool {
    match (exit::asks(exit), answer) {
        (QuestionView::OnChain { txid }, AnswerView::OnChain(said)) => said == on_chain(txid),
        _ => true,
    }
}

/// That the branches that an exit has gathered hang together, if an answer is the last round that it
/// asked for.
pub open spec fn gathers_chains(exit: ExitView, answer: AnswerView) -> bool {
    match (exit, answer) {
        (ExitView::Gathering { vtxos, next, plan }, AnswerView::Round(round)) => next + 1 >= vtxos.len()
            ==> (redeem::planned(plan, vtxos[next as int], round) matches Some(plan)
            ==> are_spending_chains(plan.branches)),
        _ => true,
    }
}

proof fn lemma_walk_agrees(
    branch: RedeemBranchView,
    walk: WalkView,
    said: bool,
    on_chain: spec_fn(Seq<u8>) -> bool,
)
    requires
        !walk::walk_over(walk),
        walk_agrees(branch, walk, on_chain),
        said == on_chain(node_id(branch, walk.unasked - 1)),
        walk::walk_on(branch, walk, said) is Some,
    ensures
        walk_agrees(branch, walk::walk_on(branch, walk, said)->0, on_chain),
{
    let next = walk::walk_on(branch, walk, said)->0;
    assert forall|i: int| 0 <= i < next.pending.len() implies walk::prepared(
        branch,
        branch.branch[next.unasked + i],
    ) == Some(#[trigger] next.pending[i]) && !on_chain(node_id(branch, next.unasked + i)) by {
        if !said && i > 0 {
            assert(next.pending[i] == walk.pending[i - 1]);
            assert(next.unasked + i == walk.unasked + (i - 1));
        }
    }
}

/// An answer that says what is on-chain leaves everything in order.
pub proof fn law_answer_keeps_order(
    exit: ExitView,
    answer: AnswerView,
    on_chain: spec_fn(Seq<u8>) -> bool,
)
    requires
        exit::is_sound(exit),
        keeps_order(exit, on_chain),
        is_true_answer(exit, answer, on_chain),
        gathers_chains(exit, answer),
        exit::told(exit, answer) matches Some(Ok(next)) && exit::is_faithful(next),
    ensures
        keeps_order(exit::told(exit, answer)->0->Ok_0, on_chain),
{
    match (exit, answer) {
        (ExitView::Gathering { vtxos, next, plan }, AnswerView::Round(round)) => {
            let plan = redeem::planned(plan, vtxos[next as int], round)->0;
            if next + 1 >= vtxos.len() && plan.branches.len() > 0 {
                lemma_settled_is_ordered(
                    plan.branches,
                    0,
                    walk::walk_start(plan.branches[0]),
                    exit::empty_list(),
                    Seq::empty(),
                    on_chain,
                );
            }
        },
        (ExitView::Walking { branches, at, walk, list, made }, AnswerView::OnChain(said)) => {
            lemma_walk_agrees(branches[at as int], walk, said, on_chain);
            let next = walk::walk_on(branches[at as int], walk, said)->0;
            lemma_settled_is_ordered(branches, at, next, list, made, on_chain);
        },
        _ => {},
    }
}

/// That an exit went through these states as it got these answers.
pub open spec fn is_exit_trace(
    groups: Seq<SpendableGroupView>,
    states: Seq<ExitView>,
    answers: Seq<AnswerView>,
) -> bool {
    &&& states.len() == answers.len() + 1
    &&& states[0] == exit::exit_start(groups)
    &&& forall|i: int|
        0 <= i < answers.len() ==> exit::told(states[i], #[trigger] answers[i]) == Some(
            Ok::<ExitView, Error>(states[i + 1]),
        )
}

/// Every transaction is broadcast before those that spend it, and none is broadcast twice: as long as
/// what is on-chain does not change, and the branches hang together, the transactions of a whole exit
/// are in a valid order, also across branches. The states are those of a [`UnilateralExit`], which is
/// always faithful.
///
/// [`UnilateralExit`]: crate::exit::UnilateralExit
pub proof fn law_exit_broadcasts_in_order(
    groups: Seq<SpendableGroupView>,
    states: Seq<ExitView>,
    answers: Seq<AnswerView>,
    on_chain: spec_fn(Seq<u8>) -> bool,
    n: int,
)
    requires
        is_exit_trace(groups, states, answers),
        0 <= n < states.len(),
        forall|i: int| 0 <= i < states.len() ==> exit::is_faithful(#[trigger] states[i]),
        forall|i: int|
            0 <= i < answers.len() ==> is_true_answer(states[i], #[trigger] answers[i], on_chain)
                && gathers_chains(states[i], answers[i]),
    ensures
        exit::is_sound(states[n]),
        exit::has_no_repeats(states[n]),
        keeps_order(states[n], on_chain),
        states[n] matches ExitView::Sending { txs, .. } ==> is_valid_order(txs),
    decreases n,
{
    if n == 0 {
        exit::law_exit_starts_sound(groups);
    } else {
        law_exit_broadcasts_in_order(groups, states, answers, on_chain, n - 1);
        assert(exit::told(states[n - 1], answers[n - 1]) == Some(
            Ok::<ExitView, Error>(states[n]),
        ));
        exit::law_exit_stays_sound(states[n - 1], answers[n - 1]);
        exit::law_exit_has_no_repeats(states[n - 1], answers[n - 1]);
        law_answer_keeps_order(states[n - 1], answers[n - 1], on_chain);
    }
}

/// That a transaction of a branch is missing on-chain: neither it nor any below it is on-chain.
pub open spec fn is_missing(
    branch: RedeemBranchView,
    k: int,
    on_chain: spec_fn(Seq<u8>) -> bool,
) -> bool {
    &&& 0 <= k < branch.branch.len()
    &&& forall|below: int|
        k <= below < branch.branch.len() ==> !on_chain(#[trigger] node_id(branch, below))
}

/// That the transaction that is made of one of a branch is among some transactions: one of them has its
/// id.
pub open spec fn is_among(txs: Seq<Seq<u8>>, branch: RedeemBranchView, k: int) -> bool {
    exists|i: int|
        0 <= i < txs.len() && exit::final_head(branch, k) is Some && psbt::tx_txid(#[trigger] txs[i])
            == Some((exit::final_head(branch, k)->0).txid)
}

/// That a transaction is the one that is made of a missing one of some branches.
pub open spec fn is_of_missing(
    tx: Seq<u8>,
    branches: Seq<RedeemBranchView>,
    on_chain: spec_fn(Seq<u8>) -> bool,
) -> bool {
    exists|b: int, k: int|
        0 <= b < branches.len() && #[trigger] is_missing(branches[b], k, on_chain)
            && exit::final_tx_of(branches[b], k) == Some(tx) && psbt::tx_head(tx) is Some
}

/// That a transaction is a missing one of some branches, with the signature as its witness.
pub open spec fn is_missing_made_final(
    tx: Seq<u8>,
    branches: Seq<RedeemBranchView>,
    on_chain: spec_fn(Seq<u8>) -> bool,
) -> bool {
    exists|b: int, k: int|
        0 <= b < branches.len() && #[trigger] is_missing(branches[b], k, on_chain) && psbt::tx_head(
            tx,
        ) is Some && broadcast::is_final_form(branches[b].branch[k], psbt::tx_head(tx)->0)
}

/// That every missing transaction of some branches is among some transactions.
pub open spec fn has_all_missing(
    txs: Seq<Seq<u8>>,
    branches: Seq<RedeemBranchView>,
    on_chain: spec_fn(Seq<u8>) -> bool,
) -> bool {
    forall|b: int, k: int|
        0 <= b < branches.len() && #[trigger] is_missing(branches[b], k, on_chain) ==> is_among(
            txs,
            branches[b],
            k,
        )
}

/// That some transactions are all made of missing ones of some branches.
pub open spec fn has_just_missing(
    txs: Seq<Seq<u8>>,
    branches: Seq<RedeemBranchView>,
    on_chain: spec_fn(Seq<u8>) -> bool,
) -> bool {
    forall|i: int| 0 <= i < txs.len() ==> is_of_missing(#[trigger] txs[i], branches, on_chain)
}

/// That it is remembered of some branches that their missing transactions have been made final.
pub open spec fn remembers_missing(
    made: Seq<MadeView>,
    branches: Seq<RedeemBranchView>,
    on_chain: spec_fn(Seq<u8>) -> bool,
) -> bool {
    &&& made.len() == branches.len()
    &&& forall|b: int| 0 <= b < made.len() ==> (#[trigger] made[b]).branch == branches[b]
    &&& forall|b: int, k: int|
        0 <= b < branches.len() && #[trigger] is_missing(branches[b], k, on_chain) ==> made[b].from <= k
}

/// That an exit has done its part for the branches that it has come past.
pub open spec fn is_complete(
    exit: ExitView,
    branches: Seq<RedeemBranchView>,
    on_chain: spec_fn(Seq<u8>) -> bool,
) -> bool {
    match exit {
        ExitView::Gathering { .. } => false,
        ExitView::Walking { branches: all, at, walk, list, made } => {
            &&& all == branches
            &&& at < branches.len()
            &&& walk_agrees(branches[at as int], walk, on_chain)
            &&& broadcast::is_proper(list)
            &&& has_all_missing(list.txs, branches.take(at as int), on_chain)
            &&& has_just_missing(list.txs, branches.take(at as int), on_chain)
            &&& remembers_missing(made, branches.take(at as int), on_chain)
        },
        ExitView::Sending { txs, made, .. } => {
            &&& has_all_missing(txs, branches, on_chain)
            &&& has_just_missing(txs, branches, on_chain)
            &&& remembers_missing(made, branches, on_chain)
        },
    }
}

/// Putting the missing part of one more branch into a list leaves nothing out, and brings in nothing
/// else.
proof fn lemma_one_more_branch(
    list: ListView,
    branches: Seq<RedeemBranchView>,
    at: int,
    walk: WalkView,
    made: Seq<MadeView>,
    on_chain: spec_fn(Seq<u8>) -> bool,
)
    requires
        0 <= at < branches.len(),
        walk_agrees(branches[at], walk, on_chain),
        walk::walk_over(walk),
        remembers_missing(made, branches.take(at), on_chain),
        broadcast::is_proper(list),
        has_all_missing(list.txs, branches.take(at), on_chain),
        has_just_missing(list.txs, branches.take(at), on_chain),
        broadcast::with_branch(list, walk.pending) matches Some(Ok(_)),
    ensures
        ({
            let longer = broadcast::with_branch(list, walk.pending)->0->Ok_0;
            &&& broadcast::is_proper(longer)
            &&& has_all_missing(longer.txs, branches.take(at + 1), on_chain)
            &&& has_just_missing(longer.txs, branches.take(at + 1), on_chain)
            &&& remembers_missing(
                made.push(MadeView { branch: branches[at], from: walk.unasked }),
                branches.take(at + 1),
                on_chain,
            )
        }),
{
    let branch = branches[at];
    let longer = broadcast::with_branch(list, walk.pending)->0->Ok_0;
    let before = branches.take(at);
    let after = branches.take(at + 1);
    broadcast::law_no_transaction_twice(list, walk.pending);
    broadcast::law_list_grows_at_its_end(list, walk.pending, 0);
    assert(walk.pending.take(0) =~= Seq::empty());
    assert forall|i: int| 0 <= i < list.txs.len() implies longer.txs[i] == #[trigger] list.txs[i] by {
        assert(longer.txs.take(list.txs.len() as int)[i] == list.txs[i]);
    }
    assert forall|b: int, k: int|
        0 <= b < after.len() && #[trigger] is_missing(after[b], k, on_chain) implies made.push(
        MadeView { branch, from: walk.unasked },
    )[b].from <= k by {
        if b < at {
            assert(is_missing(before[b], k, on_chain));
        } else if k < walk.unasked {
            assert(!on_chain(node_id(branch, walk.unasked - 1)));
        }
    }
    assert forall|b: int, k: int|
        0 <= b < after.len() && #[trigger] is_missing(after[b], k, on_chain) implies is_among(
        longer.txs,
        after[b],
        k,
    ) by {
        if b < at {
            assert(is_missing(before[b], k, on_chain));
            assert(is_among(list.txs, before[b], k));
            let i = choose|i: int|
                0 <= i < list.txs.len() && exit::final_head(before[b], k) is Some && psbt::tx_txid(
                    #[trigger] list.txs[i],
                ) == Some((exit::final_head(before[b], k)->0).txid);
            assert(longer.txs[i] == list.txs[i]);
        } else {
            if k < walk.unasked {
                assert(!on_chain(node_id(branch, walk.unasked - 1)));
            }
            let n = k - walk.unasked;
            let ready = walk.pending[n];
            assert(walk::prepared(branch, branch.branch[walk.unasked + n]) == Some(ready));
            broadcast::lemma_branch_is_made(list, walk.pending, n);
            broadcast::law_whole_branch_is_broadcast(list, walk.pending, n);
            let i = choose|i: int|
                0 <= i < longer.txids.len() && longer.txids[i] == broadcast::final_txid(ready);
            assert(psbt::tx_txid(longer.txs[i]) == Some(longer.txids[i]));
        }
    }
    assert forall|i: int| 0 <= i < longer.txs.len() implies is_of_missing(
        #[trigger] longer.txs[i],
        after,
        on_chain,
    ) by {
        if i < list.txs.len() {
            assert(is_of_missing(list.txs[i], before, on_chain));
            let (b, k) = choose|b: int, k: int|
                0 <= b < before.len() && #[trigger] is_missing(before[b], k, on_chain)
                    && exit::final_tx_of(before[b], k) == Some(list.txs[i]);
            assert(is_missing(after[b], k, on_chain));
        } else {
            broadcast::law_branch_brings_nothing_else(list, walk.pending, i);
            let n = choose|n: int|
                0 <= n < walk.pending.len() && broadcast::finalized(#[trigger] walk.pending[n]) == Some(
                    Ok::<Seq<u8>, Error>(longer.txs[i]),
                );
            let k = walk.unasked + n;
            broadcast::lemma_branch_is_made(list, walk.pending, n);
            assert(is_missing(after[at], k, on_chain)) by {
                assert forall|below: int| k <= below < branch.branch.len() implies !on_chain(
                    #[trigger] node_id(branch, below),
                ) by {
                    let ready = walk.pending[below - walk.unasked];
                    assert(walk.unasked + (below - walk.unasked) == below);
                }
            }
        }
    }
}

proof fn lemma_settled_is_complete(
    branches: Seq<RedeemBranchView>,
    at: nat,
    walk: WalkView,
    list: ListView,
    made: Seq<MadeView>,
    on_chain: spec_fn(Seq<u8>) -> bool,
)
    requires
        at < branches.len(),
        walk_agrees(branches[at as int], walk, on_chain),
        broadcast::is_proper(list),
        has_all_missing(list.txs, branches.take(at as int), on_chain),
        has_just_missing(list.txs, branches.take(at as int), on_chain),
        remembers_missing(made, branches.take(at as int), on_chain),
        exit::settled(branches, at, walk, list, made) matches Some(Ok(_)),
    ensures
        is_complete(exit::settled(branches, at, walk, list, made)->0->Ok_0, branches, on_chain),
    decreases branches.len() - at,
{
    if walk::walk_over(walk) {
        let longer = broadcast::with_branch(list, walk.pending)->0->Ok_0;
        let more = made.push(MadeView { branch: branches[at as int], from: walk.unasked });
        lemma_one_more_branch(list, branches, at as int, walk, made, on_chain);
        if at + 1 < branches.len() {
            let next = walk::walk_start(branches[(at + 1) as int]);
            lemma_settled_is_complete(branches, at + 1, next, longer, more, on_chain);
        } else {
            assert(branches.take((at + 1) as int) =~= branches);
        }
    }
}

/// The branches that an exit has gathered once an answer was the last round that it asked for.
pub open spec fn gathered_branches(exit: ExitView, answer: AnswerView) -> Seq<RedeemBranchView> {
    match (exit, answer) {
        (ExitView::Gathering { vtxos, next, plan }, AnswerView::Round(round)) => (redeem::planned(
            plan,
            vtxos[next as int],
            round,
        )->0).branches,
        _ => Seq::empty(),
    }
}

/// An answer that says what is on-chain leaves nothing out.
pub proof fn law_answer_keeps_complete(
    exit: ExitView,
    answer: AnswerView,
    branches: Seq<RedeemBranchView>,
    on_chain: spec_fn(Seq<u8>) -> bool,
)
    requires
        exit::is_sound(exit),
        is_complete(exit, branches, on_chain),
        is_true_answer(exit, answer, on_chain),
        exit::told(exit, answer) matches Some(Ok(_)),
    ensures
        is_complete(exit::told(exit, answer)->0->Ok_0, branches, on_chain),
{
    match (exit, answer) {
        (ExitView::Walking { branches, at, walk, list, made }, AnswerView::OnChain(said)) => {
            lemma_walk_agrees(branches[at as int], walk, said, on_chain);
            let next = walk::walk_on(branches[at as int], walk, said)->0;
            lemma_settled_is_complete(branches, at, next, list, made, on_chain);
        },
        _ => {},
    }
}

/// Nothing is left out, and nothing else is broadcast: as long as what is on-chain does not change, once
/// an exit sends, the transactions that it sends are just those of the gathered branches that are
/// missing on-chain, made final.
pub proof fn law_exit_broadcasts_all_that_is_missing(
    groups: Seq<SpendableGroupView>,
    states: Seq<ExitView>,
    answers: Seq<AnswerView>,
    on_chain: spec_fn(Seq<u8>) -> bool,
    last_round: int,
    n: int,
)
    requires
        is_exit_trace(groups, states, answers),
        0 <= last_round < n < states.len(),
        states[last_round] is Gathering,
        !(states[last_round + 1] is Gathering),
        forall|i: int|
            0 <= i < answers.len() ==> is_true_answer(states[i], #[trigger] answers[i], on_chain),
    ensures
        ({
            let branches = gathered_branches(states[last_round], answers[last_round]);
            &&& is_complete(states[n], branches, on_chain)
            &&& states[n] matches ExitView::Sending { txs, .. } ==> has_all_missing(
                txs,
                branches,
                on_chain,
            ) && has_just_missing(txs, branches, on_chain)
        }),
    decreases n,
{
    let branches = gathered_branches(states[last_round], answers[last_round]);
    assert(exit::told(states[n - 1], answers[n - 1]) == Some(Ok::<ExitView, Error>(states[n])));
    if n == last_round + 1 {
        if branches.len() > 0 {
            assert(branches.take(0) =~= Seq::empty());
            lemma_settled_is_complete(
                branches,
                0,
                walk::walk_start(branches[0]),
                exit::empty_list(),
                Seq::empty(),
                on_chain,
            );
        }
    } else {
        law_exit_broadcasts_all_that_is_missing(
            groups,
            states,
            answers,
            on_chain,
            last_round,
            n - 1,
        );
        lemma_trace_is_sound(groups, states, answers, n - 1);
        law_answer_keeps_complete(states[n - 1], answers[n - 1], branches, on_chain);
    }
}

/// Every missing transaction is broadcast under its own id: where it has no script signature, one of
/// the transactions that an exit sends has the id of the transaction of the branch. And whatever an exit
/// sends is a transaction of a branch, with the signature as its witness.
pub proof fn law_missing_is_broadcast_as_it_is(
    txs: Seq<Seq<u8>>,
    next: nat,
    made: Seq<MadeView>,
    branches: Seq<RedeemBranchView>,
    on_chain: spec_fn(Seq<u8>) -> bool,
)
    requires
        is_complete(ExitView::Sending { txs, next, made }, branches, on_chain),
        exit::is_faithful(ExitView::Sending { txs, next, made }),
    ensures
        forall|b: int, k: int|
            0 <= b < branches.len() && #[trigger] is_missing(branches[b], k, on_chain)
                && psbt::has_no_script_sigs(branches[b].branch[k]) ==> exists|i: int|
                0 <= i < txs.len() && psbt::tx_txid(#[trigger] txs[i]) == Some(
                    node_id(branches[b], k),
                ),
        forall|i: int|
            0 <= i < txs.len() ==> is_missing_made_final(#[trigger] txs[i], branches, on_chain),
{
    assert forall|b: int, k: int|
        0 <= b < branches.len() && #[trigger] is_missing(branches[b], k, on_chain)
            && psbt::has_no_script_sigs(branches[b].branch[k]) implies exists|i: int|
        0 <= i < txs.len() && psbt::tx_txid(#[trigger] txs[i]) == Some(node_id(branches[b], k)) by {
        assert(is_among(txs, branches[b], k));
        assert(exit::is_made(made[b]));
        assert(exit::keeps_node(branches[b], k));
    }
    assert forall|i: int| 0 <= i < txs.len() implies is_missing_made_final(
        #[trigger] txs[i],
        branches,
        on_chain,
    ) by {
        assert(is_of_missing(txs[i], branches, on_chain));
        let (b, k) = choose|b: int, k: int|
            0 <= b < branches.len() && #[trigger] is_missing(branches[b], k, on_chain)
                && exit::final_tx_of(branches[b], k) == Some(txs[i]);
        assert(exit::is_made(made[b]));
        assert(exit::keeps_node(branches[b], k));
    }
}

proof fn lemma_trace_is_sound(
    groups: Seq<SpendableGroupView>,
    states: Seq<ExitView>,
    answers: Seq<AnswerView>,
    n: int,
)
    requires
        is_exit_trace(groups, states, answers),
        0 <= n < states.len(),
    ensures
        exit::is_sound(states[n]),
    decreases n,
{
    if n == 0 {
        exit::law_exit_starts_sound(groups);
    } else {
        lemma_trace_is_sound(groups, states, answers, n - 1);
        assert(exit::told(states[n - 1], answers[n - 1]) == Some(
            Ok::<ExitView, Error>(states[n]),
        ));
        exit::law_exit_stays_sound(states[n - 1], answers[n - 1]);
    }
}

/// An exit takes out just the VTXOs that a round made, of all groups and in their order.
pub proof fn law_exit_takes_out_what_rounds_made(groups: Seq<SpendableGroupView>)
    ensures
        ({
            let vtxos = groups.map_values(|g: SpendableGroupView| g.outpoints).flatten().filter(
                |v: VtxoOutPointView| v.redeem_tx.len() == 0,
            );
            match exit::exit_start(groups) {
                ExitView::Gathering { vtxos: taken, next, plan } => vtxos.len() > 0 && taken == vtxos
                    && next == 0 && plan.trees.len() == 0 && plan.branches.len() == 0,
                ExitView::Sending { txs, next, made } => vtxos.len() == 0 && txs.len() == 0 && next
                    == 0,
                ExitView::Walking { .. } => false,
            }
        }),
{
    oor::law_candidates_are_all_coins(groups);
    lemma_taken_out_is_filtered(oor::candidate_coins(groups));
}

proof fn lemma_taken_out_is_filtered(vtxos: Seq<VtxoOutPointView>)
    ensures
        exit::taken_out(vtxos) == vtxos.filter(|v: VtxoOutPointView| v.redeem_tx.len() == 0),
    decreases vtxos.len(),
{
    reveal(Seq::filter);
    if vtxos.len() > 0 {
        lemma_taken_out_is_filtered(vtxos.drop_last());
    } else {
        assert(exit::taken_out(vtxos) =~= vtxos);
    }
}

/// While it gathers, an exit asks for the round of the VTXO that it looks at next, and puts just that
/// VTXO into its plan when it gets the round.
pub proof fn law_exit_looks_at_one_vtxo_after_another(
    vtxos: Seq<VtxoOutPointView>,
    next: nat,
    plan: PlanView,
    round: Option<RoundView>,
)
    requires
        next < vtxos.len(),
    ensures
        exit::asks(ExitView::Gathering { vtxos, next, plan }) == (QuestionView::Round {
            round_txid: vtxos[next as int].round_txid,
        }),
        match (
            redeem::planned(plan, vtxos[next as int], round),
            exit::told(ExitView::Gathering { vtxos, next, plan }, AnswerView::Round(round)),
        ) {
            (None, outcome) => outcome is None,
            (Some(after), Some(Ok(ExitView::Gathering { vtxos: same, next: now, plan: grown }))) => same
                == vtxos && now == next + 1 && now < vtxos.len() && grown == after,
            (Some(after), Some(Ok(ExitView::Walking { branches, .. }))) => next + 1 == vtxos.len()
                && branches == after.branches,
            (Some(_), _) => next + 1 == vtxos.len(),
        },
{
    if let Some(after) = redeem::planned(plan, vtxos[next as int], round) {
        if next + 1 == vtxos.len() && after.branches.len() > 0 {
            lemma_settled_keeps_branches(
                after.branches,
                0,
                walk::walk_start(after.branches[0]),
                exit::empty_list(),
                Seq::empty(),
            );
        }
    }
}

proof fn lemma_settled_keeps_branches(
    branches: Seq<RedeemBranchView>,
    at: nat,
    walk: WalkView,
    list: ListView,
    made: Seq<MadeView>,
)
    requires
        at < branches.len(),
    ensures
        match exit::settled(branches, at, walk, list, made) {
            Some(Ok(ExitView::Walking { branches: same, .. })) => same == branches,
            Some(Ok(ExitView::Gathering { .. })) => false,
            _ => true,
        },
    decreases branches.len() - at,
{
    if walk::walk_over(walk) && at + 1 < branches.len() {
        if let Some(Ok(longer)) = broadcast::with_branch(list, walk.pending) {
            let more = made.push(MadeView { branch: branches[at as int], from: walk.unasked });
            let next = walk::walk_start(branches[(at + 1) as int]);
            lemma_settled_keeps_branches(branches, at + 1, next, longer, more);
        }
    }
}

/// While it walks, an exit asks about the lowest transaction of the branch that it has not asked about.
pub proof fn law_exit_asks_from_the_leaf_up(
    branches: Seq<RedeemBranchView>,
    at: nat,
    walk: WalkView,
    list: ListView,
    made: Seq<MadeView>,
)
    requires
        at < branches.len(),
        0 < walk.unasked <= branches[at as int].branch.len(),
    ensures
        exit::asks(ExitView::Walking { branches, at, walk, list, made }) == (QuestionView::OnChain {
            txid: psbt::psbt_txid(branches[at as int].branch[walk.unasked - 1]),
        }),
{
}

/// Once it sends, an exit asks to broadcast one transaction after another, none of them before the one
/// before was broadcast and each of them until it was; then it is done.
pub proof fn law_every_transaction_is_broadcast_in_turn(
    txs: Seq<Seq<u8>>,
    next: nat,
    made: Seq<MadeView>,
    sent: bool,
)
    requires
        next <= txs.len(),
    ensures
        ({
            let exit = ExitView::Sending { txs, next, made };
            let after = exit::told(exit, AnswerView::Broadcast(sent));
            if next == txs.len() {
                &&& exit::asks(exit) == QuestionView::Done
                &&& after == Some(Ok::<ExitView, Error>(exit))
            } else {
                &&& exit::asks(exit) == (QuestionView::Broadcast { tx: txs[next as int] })
                &&& sent ==> after == Some(
                    Ok::<ExitView, Error>(ExitView::Sending { txs, next: next + 1, made }),
                )
                &&& !sent ==> after == Some(Ok::<ExitView, Error>(exit))
            }
        }),
{
}

/// An answer to another question than the one that was asked changes nothing.
pub proof fn law_other_answers_change_nothing(exit: ExitView, answer: AnswerView)
    requires
        match exit {
            ExitView::Gathering { .. } => !(answer is Round),
            ExitView::Walking { .. } => !(answer is OnChain),
            ExitView::Sending { .. } => !(answer is Broadcast),
        },
    ensures
        exit::told(exit, answer) == Some(Ok::<ExitView, Error>(exit)),
{
}

/// A walk goes on until it is over; then its transactions are put into the list, and the next branch is
/// walked with that list or, after the last, the list is sent from its start. A transaction that cannot
/// be made final ends the exit with its error.
pub proof fn law_walks_follow_each_other(
    branches: Seq<RedeemBranchView>,
    at: nat,
    walk: WalkView,
    list: ListView,
    made: Seq<MadeView>,
    on_chain: bool,
    after: WalkView,
)
    requires
        at < branches.len(),
        walk::walk_on(branches[at as int], walk, on_chain) == Some(after),
    ensures
        ({
            let outcome = exit::told(
                ExitView::Walking { branches, at, walk, list, made },
                AnswerView::OnChain(on_chain),
            );
            if !after.stopped && after.unasked > 0 {
                outcome == Some(
                    Ok::<ExitView, Error>(
                        ExitView::Walking { branches, at, walk: after, list, made },
                    ),
                )
            } else {
                match broadcast::with_branch(list, after.pending) {
                    None => outcome is None,
                    Some(Err(error)) => outcome == Some(Err::<ExitView, Error>(error)),
                    Some(Ok(longer)) => if at + 1 == branches.len() {
                        outcome matches Some(Ok(ExitView::Sending { txs, next, .. })) && txs
                            == longer.txs && next == 0
                    } else {
                        branches[at as int + 1].branch.len() > 0 ==> (outcome matches Some(
                            Ok(ExitView::Walking { branches: same, at: now, walk: fresh, list: grown, .. }),
                        ) && same == branches && now == at + 1 && fresh.unasked
                            == branches[at as int + 1].branch.len() && !fresh.stopped && fresh.pending.len()
                            == 0 && grown == longer)
                    },
                }
            }
        }),
{
    reveal_with_fuel(exit::settled, 3);
}

/// Once the last VTXO was looked at, an exit walks up the first branch of its plan from the leaf, with
/// nothing to send yet; without branches it has nothing to send at all.
pub proof fn law_exit_walks_when_all_is_gathered(
    vtxos: Seq<VtxoOutPointView>,
    plan: PlanView,
    round: Option<RoundView>,
    grown: PlanView,
)
    requires
        vtxos.len() > 0,
        redeem::planned(plan, vtxos.last(), round) == Some(grown),
    ensures
        ({
            let next = (vtxos.len() - 1) as nat;
            let outcome = exit::told(
                ExitView::Gathering { vtxos, next, plan },
                AnswerView::Round(round),
            );
            &&& grown.branches.len() == 0 ==> (outcome matches Some(
                Ok(ExitView::Sending { txs, next: now, .. }),
            ) && txs.len() == 0 && now == 0)
            &&& grown.branches.len() > 0 && grown.branches[0].branch.len() > 0 ==> (outcome matches Some(
                Ok(ExitView::Walking { branches, at, walk, list, .. }),
            ) && branches == grown.branches && at == 0 && walk.unasked
                == grown.branches[0].branch.len() && !walk.stopped && walk.pending.len() == 0
                && list.txs.len() == 0 && list.txids.len() == 0)
        }),
{
}

} // verus!

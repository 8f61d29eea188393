//! The whole way out of the ark, as a sequence of questions and answers.
//!
//! [`UnilateralExit`] asks for the rounds of the VTXOs that are taken out, then whether the
//! transactions of their branches are on-chain, and then to broadcast the missing ones.

use vstd::prelude::*;

use crate::broadcast;
use crate::broadcast::{BroadcastList, ListView};
use crate::error::Error;
use crate::oor;
use crate::oor::candidates;
use crate::psbt;
use crate::psbt::TxHeadView;
use crate::redeem;
use crate::redeem::{PlanView, RedeemBranch, RedeemBranchView, RedeemPlan};
use crate::server::{Round, RoundView, VtxoOutPoint, VtxoOutPointView};
use crate::spendable::{SpendableGroup, SpendableGroupView};
use crate::tx::Txid;
use crate::views;
use crate::views::copy_bytes;
use crate::walk;
use crate::walk::{BranchWalk, WalkView};

verus! {

enum Stage {
    Gathering { vtxos: Vec<VtxoOutPoint>, next: usize, plan: RedeemPlan },
    Walking {
        branches: Vec<RedeemBranch>,
        at: usize,
        walk: BranchWalk,
        list: BroadcastList,
        made: Ghost<Seq<MadeView>>,
    },
    Sending { txs: Vec<Vec<u8>>, next: usize, made: Ghost<Seq<MadeView>> },
}

/// The way out of the ark, up to its next question.
pub struct UnilateralExit {
    stage: Stage,
}

/// A branch whose transactions, from some place on, have been made final.
pub struct MadeView {
    pub branch: RedeemBranchView,
    pub from: nat,
}

/// The value of a [`UnilateralExit`]. It remembers of which branches transactions have been made
/// final.
pub enum ExitView {
    /// The rounds of the VTXOs are asked for, and the branches are gathered.
    Gathering { vtxos: Seq<VtxoOutPointView>, next: nat, plan: PlanView },
    /// The branches are walked up, one after another.
    Walking {
        branches: Seq<RedeemBranchView>,
        at: nat,
        walk: WalkView,
        list: ListView,
        made: Seq<MadeView>,
    },
    /// The missing transactions are broadcast.
    Sending { txs: Seq<Seq<u8>>, next: nat, made: Seq<MadeView> },
}

impl View for UnilateralExit {
    type V = ExitView;

    closed spec fn view(&self) -> ExitView {
        match self.stage {
            Stage::Gathering { vtxos, next, plan } => ExitView::Gathering {
                vtxos: views::views(vtxos@),
                next: next as nat,
                plan: plan@,
            },
            Stage::Walking { branches, at, walk, list, made } => ExitView::Walking {
                branches: views::views(branches@),
                at: at as nat,
                walk: walk@,
                list: list@,
                made: made@,
            },
            Stage::Sending { txs, next, made } => ExitView::Sending {
                txs: views::views(txs@),
                next: next as nat,
                made: made@,
            },
        }
    }
}

/// A question of a [`UnilateralExit`].
#[derive(Debug, Clone, PartialEq, Eq)]
pub enum Question {
    /// Which round has this transaction?
    Round { round_txid: String },
    /// Is this transaction on-chain?
    OnChain { txid: Txid },
    /// Was this transaction broadcast?
    Broadcast { tx: Vec<u8> },
    /// There are no more questions.
    Done,
}

/// The value of a [`Question`].
pub enum QuestionView {
    Round { round_txid: Seq<char> },
    OnChain { txid: Seq<u8> },
    Broadcast { tx: Seq<u8> },
    Done,
}

impl View for Question {
    type V = QuestionView;

    open spec fn view(&self) -> QuestionView {
        match *self {
            Question::Round { round_txid } => QuestionView::Round { round_txid: round_txid@ },
            Question::OnChain { txid } => QuestionView::OnChain { txid: txid@ },
            Question::Broadcast { tx } => QuestionView::Broadcast { tx: tx@ },
            Question::Done => QuestionView::Done,
        }
    }
}

/// An answer to a [`Question`].
pub enum Answer {
    /// The round, if the server knows it.
    Round(Option<Round>),
    /// Whether the transaction is on-chain.
    OnChain(bool),
    /// Whether the transaction was broadcast.
    Broadcast(bool),
}

/// The value of an [`Answer`].
pub enum AnswerView {
    Round(Option<RoundView>),
    OnChain(bool),
    Broadcast(bool),
}

impl View for Answer {
    type V = AnswerView;

    open spec fn view(&self) -> AnswerView {
        match *self {
            Answer::Round(round) => AnswerView::Round(views::option_view(round)),
            Answer::OnChain(on_chain) => AnswerView::OnChain(on_chain),
            Answer::Broadcast(sent) => AnswerView::Broadcast(sent),
        }
    }
}

/// The VTXOs that are taken out: those that a round made, in order.
pub open spec fn taken_out(vtxos: Seq<VtxoOutPointView>) -> Seq<VtxoOutPointView>
    decreases vtxos.len(),
{
    if vtxos.len() == 0 {
        Seq::empty()
    } else if redeem::is_redeemed(vtxos.last()) {
        taken_out(vtxos.drop_last()).push(vtxos.last())
    } else {
        taken_out(vtxos.drop_last())
    }
}

/// A plan without branches.
pub open spec fn empty_plan() -> PlanView {
    PlanView { trees: Seq::empty(), branches: Seq::empty() }
}

/// An empty list.
pub open spec fn empty_list() -> ListView {
    ListView { txids: Seq::empty(), txs: Seq::empty() }
}

/// The exit once the walks that are over have been turned into transactions, up to the next
/// question.
pub open spec fn settled(
    branches: Seq<RedeemBranchView>,
    at: nat,
    walk: WalkView,
    list: ListView,
    made: Seq<MadeView>,
) -> Option<Result<ExitView, Error>>
    decreases branches.len() - at,
{
    if !walk::walk_over(walk) {
        Some(Ok(ExitView::Walking { branches, at, walk, list, made }))
    } else {
        match broadcast::with_branch(list, walk.pending) {
            Some(Ok(longer)) => {
                let more = made.push(
                    MadeView { branch: branches[at as int], from: walk.unasked },
                );
                if at + 1 < branches.len() {
                    let next = walk::walk_start(branches[(at + 1) as int]);
                    settled(branches, at + 1, next, longer, more)
                } else {
                    Some(Ok(ExitView::Sending { txs: longer.txs, next: 0, made: more }))
                }
            },
            Some(Err(e)) => Some(Err(e)),
            None => None,
        }
    }
}

/// The exit once all rounds are known, up to the next question.
pub open spec fn gathered(plan: PlanView) -> Option<Result<ExitView, Error>> {
    if plan.branches.len() == 0 {
        Some(Ok(ExitView::Sending { txs: Seq::empty(), next: 0, made: Seq::empty() }))
    } else {
        settled(
            plan.branches,
            0,
            walk::walk_start(plan.branches[0]),
            empty_list(),
            Seq::empty(),
        )
    }
}

/// The exit at its start: the first question is for the round of the first VTXO, if there is one.
pub open spec fn exit_start(groups: Seq<SpendableGroupView>) -> ExitView {
    let vtxos = taken_out(oor::candidate_coins(groups));
    if vtxos.len() == 0 {
        ExitView::Sending { txs: Seq::empty(), next: 0, made: Seq::empty() }
    } else {
        ExitView::Gathering { vtxos, next: 0, plan: empty_plan() }
    }
}

/// What an exit asks.
pub open spec fn asks(exit: ExitView) -> QuestionView {
    match exit {
        ExitView::Gathering { vtxos, next, plan } => QuestionView::Round {
            round_txid: vtxos[next as int].round_txid,
        },
        ExitView::Walking { branches, at, walk, .. } => QuestionView::OnChain {
            txid: psbt::psbt_txid(branches[at as int].branch[walk.unasked - 1]),
        },
        ExitView::Sending { txs, next, .. } => if next < txs.len() {
            QuestionView::Broadcast { tx: txs[next as int] }
        } else {
            QuestionView::Done
        },
    }
}

/// An exit after an answer. What was not asked changes nothing, and a transaction that could not be
/// broadcast is asked for again. It is an error if a transaction lacks its signature; there is no
/// outcome where a branch or a transaction cannot be made.
pub open spec fn told(exit: ExitView, answer: AnswerView) -> Option<Result<ExitView, Error>> {
    match (exit, answer) {
        (ExitView::Gathering { vtxos, next, plan }, AnswerView::Round(round)) => match redeem::planned(
            plan,
            vtxos[next as int],
            round,
        ) {
            Some(plan) => if next + 1 < vtxos.len() {
                Some(Ok(ExitView::Gathering { vtxos, next: next + 1, plan }))
            } else {
                gathered(plan)
            },
            None => None,
        },
        (
            ExitView::Walking { branches, at, walk, list, made },
            AnswerView::OnChain(on_chain),
        ) => match walk::walk_on(branches[at as int], walk, on_chain) {
            Some(walk) => settled(branches, at, walk, list, made),
            None => None,
        },
        (ExitView::Sending { txs, next, made }, AnswerView::Broadcast(sent)) => if sent && next
            < txs.len() {
            Some(Ok(ExitView::Sending { txs, next: next + 1, made }))
        } else {
            Some(Ok(exit))
        },
        _ => Some(Ok(exit)),
    }
}

/// That the place where an exit is exists.
pub open spec fn is_sound(exit: ExitView) -> bool {
    match exit {
        ExitView::Gathering { vtxos, next, plan } => next < vtxos.len() && forall|i: int|
            0 <= i < vtxos.len() ==> redeem::is_redeemed(#[trigger] vtxos[i]),
        ExitView::Walking { branches, at, walk, .. } => at < branches.len() && !walk::walk_over(
            walk,
        ) && walk.unasked <= branches[at as int].branch.len(),
        ExitView::Sending { txs, next, .. } => next <= txs.len(),
    }
}

/// The final transaction that is made of one of a branch, if it can be made.
pub open spec fn final_tx_of(branch: RedeemBranchView, k: int) -> Option<Seq<u8>> {
    match walk::prepared(branch, branch.branch[k]) {
        Some(ready) => match broadcast::finalized(ready) {
            Some(Ok(tx)) => Some(tx),
            _ => None,
        },
        None => None,
    }
}

/// What the final transaction that is made of one of a branch says.
pub open spec fn final_head(branch: RedeemBranchView, k: int) -> Option<TxHeadView> {
    match final_tx_of(branch, k) {
        Some(tx) => psbt::tx_head(tx),
        None => None,
    }
}

/// That the final transaction that is made of one of a branch is the same transaction, with the
/// signature as its witness.
pub open spec fn keeps_node(branch: RedeemBranchView, k: int) -> bool {
    final_head(branch, k) matches Some(head) ==> broadcast::is_final_form(branch.branch[k], head)
}

/// That the transactions of a branch that have been made final are still the same transactions.
pub open spec fn is_made(made: MadeView) -> bool {
    forall|k: int| made.from <= k < made.branch.branch.len() ==> #[trigger] keeps_node(made.branch, k)
}

/// That all transactions that have been made final are still the same transactions.
pub open spec fn are_made(made: Seq<MadeView>) -> bool {
    forall|i: int| 0 <= i < made.len() ==> is_made(#[trigger] made[i])
}

/// That whatever an exit has made of the transactions of its branches is still the same transaction.
pub open spec fn is_faithful(exit: ExitView) -> bool {
    match exit {
        ExitView::Gathering { .. } => true,
        ExitView::Walking { branches, at, walk, made, .. } => walk::is_walk_of(
            branches[at as int],
            walk,
        ) && are_made(made),
        ExitView::Sending { made, .. } => are_made(made),
    }
}

proof fn lemma_is_made(branch: RedeemBranchView, walk: WalkView)
    requires
        walk::is_walk_of(branch, walk),
        forall|i: int| 0 <= i < walk.pending.len() ==> broadcast::keeps_tx(#[trigger] walk.pending[i]),
    ensures
        is_made(MadeView { branch, from: walk.unasked }),
{
    assert forall|k: int| walk.unasked <= k < branch.branch.len() implies #[trigger] keeps_node(
        branch,
        k,
    ) by {
        let ready = walk.pending[k - walk.unasked];
        assert(walk.unasked + (k - walk.unasked) == k);
        assert(broadcast::keeps_tx(ready));
        walk::lemma_told_keeps_inputs(branch.branch[k], ready);
    }
}

proof fn lemma_taken_out(vtxos: Seq<VtxoOutPointView>)
    ensures
        forall|i: int|
            0 <= i < taken_out(vtxos).len() ==> redeem::is_redeemed(#[trigger] taken_out(vtxos)[i]),
    decreases vtxos.len(),
{
    if vtxos.len() > 0 {
        let front = taken_out(vtxos.drop_last());
        lemma_taken_out(vtxos.drop_last());
        assert forall|i: int| 0 <= i < taken_out(vtxos).len() implies redeem::is_redeemed(
            #[trigger] taken_out(vtxos)[i],
        ) by {
            if i < front.len() {
                assert(redeem::is_redeemed(front[i]));
            }
        }
    }
}

proof fn lemma_settled_is_sound(
    branches: Seq<RedeemBranchView>,
    at: nat,
    walk: WalkView,
    list: ListView,
    made: Seq<MadeView>,
)
    requires
        at < branches.len(),
        walk.unasked <= branches[at as int].branch.len(),
    ensures
        settled(branches, at, walk, list, made) matches Some(Ok(exit)) ==> is_sound(exit),
    decreases branches.len() - at,
{
    if walk::walk_over(walk) && at + 1 < branches.len() {
        if let Some(Ok(longer)) = broadcast::with_branch(list, walk.pending) {
            let more = made.push(MadeView { branch: branches[at as int], from: walk.unasked });
            let next = walk::walk_start(branches[(at + 1) as int]);
            lemma_settled_is_sound(branches, at + 1, next, longer, more);
        }
    }
}

/// How far an exit has come: the stage, and how much of it is left.
pub open spec fn progress(exit: ExitView) -> (int, int, int) {
    match exit {
        ExitView::Gathering { vtxos, next, plan } => (2, vtxos.len() - next, 0),
        ExitView::Walking { branches, at, walk, .. } => (
            1,
            branches.len() - at,
            if walk.stopped {
                0
            } else {
                walk.unasked as int
            },
        ),
        ExitView::Sending { txs, next, .. } => (0, txs.len() - next, 0),
    }
}

/// Whether one exit has come further than another.
pub open spec fn is_further(later: (int, int, int), earlier: (int, int, int)) -> bool {
    later.0 < earlier.0 || (later.0 == earlier.0 && (later.1 < earlier.1 || (later.1 == earlier.1
        && later.2 < earlier.2)))
}

proof fn lemma_settled_is_progress(
    branches: Seq<RedeemBranchView>,
    at: nat,
    walk: WalkView,
    list: ListView,
    made: Seq<MadeView>,
)
    requires
        at < branches.len(),
    ensures
        settled(branches, at, walk, list, made) matches Some(Ok(exit)) ==> progress(exit).0 <= 1 && (
        walk::walk_over(walk) ==> progress(exit).0 == 0 || progress(exit).1 < branches.len() - at),
    decreases branches.len() - at,
{
    if walk::walk_over(walk) && at + 1 < branches.len() {
        if let Some(Ok(longer)) = broadcast::with_branch(list, walk.pending) {
            let more = made.push(MadeView { branch: branches[at as int], from: walk.unasked });
            let next = walk::walk_start(branches[(at + 1) as int]);
            lemma_settled_is_progress(branches, at + 1, next, longer, more);
        }
    }
}

/// That an answer is one to what is asked, and not that a broadcast failed.
pub open spec fn is_answer(question: QuestionView, answer: AnswerView) -> bool {
    match (question, answer) {
        (QuestionView::Round { .. }, AnswerView::Round(_)) => true,
        (QuestionView::OnChain { .. }, AnswerView::OnChain(_)) => true,
        (QuestionView::Broadcast { .. }, AnswerView::Broadcast(sent)) => sent,
        _ => false,
    }
}

/// Every answer brings the end nearer, so that the exit comes to it: no question is asked for ever,
/// but for broadcasts that keep failing.
pub proof fn law_every_answer_is_progress(exit: ExitView, answer: AnswerView)
    requires
        is_sound(exit),
        is_answer(asks(exit), answer),
        told(exit, answer) matches Some(Ok(_)),
    ensures
        is_further(progress(told(exit, answer)->0->Ok_0), progress(exit)),
        progress(told(exit, answer)->0->Ok_0).1 >= 0,
        progress(told(exit, answer)->0->Ok_0).2 >= 0,
{
    law_exit_stays_sound(exit, answer);
    match (exit, answer) {
        (ExitView::Gathering { vtxos, next, plan }, AnswerView::Round(round)) => {
            let plan = redeem::planned(plan, vtxos[next as int], round)->0;
            if plan.branches.len() > 0 {
                lemma_settled_is_progress(
                    plan.branches,
                    0,
                    walk::walk_start(plan.branches[0]),
                    empty_list(),
                    Seq::empty(),
                );
            }
        },
        (
            ExitView::Walking { branches, at, walk, list, made },
            AnswerView::OnChain(on_chain),
        ) => {
            let next = walk::walk_on(branches[at as int], walk, on_chain)->0;
            lemma_settled_is_progress(branches, at, next, list, made);
        },
        _ => {},
    }
}

/// An exit starts where there is something to ask, or at its end, and has broadcast nothing.
pub proof fn law_exit_starts_sound(groups: Seq<SpendableGroupView>)
    ensures
        is_sound(exit_start(groups)),
        has_no_repeats(exit_start(groups)),
{
    lemma_taken_out(oor::candidate_coins(groups));
}

/// An answer leaves an exit where there is something to ask, or at its end.
pub proof fn law_exit_stays_sound(exit: ExitView, answer: AnswerView)
    requires
        is_sound(exit),
        told(exit, answer) matches Some(Ok(_)),
    ensures
        is_sound(told(exit, answer)->0->Ok_0),
{
    match (exit, answer) {
        (ExitView::Gathering { vtxos, next, plan }, AnswerView::Round(round)) => {
            let plan = redeem::planned(plan, vtxos[next as int], round)->0;
            if next + 1 >= vtxos.len() && plan.branches.len() > 0 {
                lemma_settled_is_sound(
                    plan.branches,
                    0,
                    walk::walk_start(plan.branches[0]),
                    empty_list(),
                    Seq::empty(),
                );
            }
        },
        (
            ExitView::Walking { branches, at, walk, list, made },
            AnswerView::OnChain(on_chain),
        ) => {
            let next = walk::walk_on(branches[at as int], walk, on_chain)->0;
            lemma_settled_is_sound(branches, at, next, list, made);
        },
        _ => {},
    }
}

proof fn lemma_settled_list_is_proper(
    branches: Seq<RedeemBranchView>,
    at: nat,
    walk: WalkView,
    list: ListView,
    made: Seq<MadeView>,
)
    requires
        at < branches.len(),
        broadcast::is_proper(list),
    ensures
        settled(branches, at, walk, list, made) matches Some(Ok(exit)) ==> has_no_repeats(exit),
    decreases branches.len() - at,
{
    if walk::walk_over(walk) {
        if let Some(Ok(longer)) = broadcast::with_branch(list, walk.pending) {
            broadcast::law_no_transaction_twice(list, walk.pending);
            if at + 1 < branches.len() {
                let more = made.push(MadeView { branch: branches[at as int], from: walk.unasked });
                lemma_settled_list_is_proper(
                    branches,
                    at + 1,
                    walk::walk_start(branches[(at + 1) as int]),
                    longer,
                    more,
                );
            } else {
                lemma_proper_txs_differ(longer);
            }
        }
    }
}

proof fn lemma_proper_txs_differ(list: ListView)
    requires
        broadcast::is_proper(list),
    ensures
        forall|i: int, j: int|
            0 <= i < j < list.txs.len() ==> psbt::tx_txid(#[trigger] list.txs[i]) != psbt::tx_txid(
                #[trigger] list.txs[j],
            ),
{
    assert forall|i: int, j: int| 0 <= i < j < list.txs.len() implies psbt::tx_txid(
        #[trigger] list.txs[i],
    ) != psbt::tx_txid(#[trigger] list.txs[j]) by {
        assert(list.txids[i] != list.txids[j]);
    }
}

/// That no transaction is broadcast twice.
pub open spec fn has_no_repeats(exit: ExitView) -> bool {
    match exit {
        ExitView::Gathering { .. } => true,
        ExitView::Walking { list, .. } => broadcast::is_proper(list),
        ExitView::Sending { txs, .. } => forall|i: int, j: int|
            0 <= i < j < txs.len() ==> psbt::tx_txid(#[trigger] txs[i]) != psbt::tx_txid(
                #[trigger] txs[j],
            ),
    }
}

/// From its start to its end, an exit never asks to broadcast a transaction that it has asked for
/// before and that was broadcast.
pub proof fn law_exit_has_no_repeats(exit: ExitView, answer: AnswerView)
    requires
        is_sound(exit),
        has_no_repeats(exit),
        told(exit, answer) matches Some(Ok(_)),
    ensures
        has_no_repeats(told(exit, answer)->0->Ok_0),
{
    match (exit, answer) {
        (ExitView::Gathering { vtxos, next, plan }, AnswerView::Round(round)) => {
            let plan = redeem::planned(plan, vtxos[next as int], round)->0;
            if next + 1 >= vtxos.len() && plan.branches.len() > 0 {
                lemma_settled_list_is_proper(
                    plan.branches,
                    0,
                    walk::walk_start(plan.branches[0]),
                    empty_list(),
                    Seq::empty(),
                );
            }
        },
        (
            ExitView::Walking { branches, at, walk, list, made },
            AnswerView::OnChain(on_chain),
        ) => {
            let next = walk::walk_on(branches[at as int], walk, on_chain)->0;
            lemma_settled_list_is_proper(branches, at, next, list, made);
        },
        _ => {},
    }
}

/// Leaves out the VTXOs that a payment made.
fn take_out(vtxos: &Vec<VtxoOutPoint>) -> (taken: Vec<VtxoOutPoint>)
    ensures
        views::views(taken@) == taken_out(views::views(vtxos@)),
{
    let ghost all = views::views(vtxos@);
    let mut taken: Vec<VtxoOutPoint> = Vec::new();
    let mut i: usize = 0;
    assert(all.take(0) =~= Seq::empty());
    assert(views::views(taken@) =~= Seq::empty());
    while i < vtxos.len()
        invariant
            i <= vtxos@.len(),
            all == views::views(vtxos@),
            views::views(taken@) == taken_out(all.take(i as int)),
        decreases vtxos@.len() - i,
    {
        assert(all.take(i + 1).drop_last() =~= all.take(i as int));
        assert(all.take(i + 1).last() == vtxos@[i as int]@);
        if RedeemPlan::needs_round(&vtxos[i]) {
            let vtxo: VtxoOutPoint = vtxos[i].copy();
            let ghost before = taken@;
            taken.push(vtxo);
            assert(views::views(taken@) =~= views::views(before).push(vtxo@));
        }
        i = i + 1;
    }
    assert(all.take(all.len() as int) =~= all);
    taken
}

/// Turns the walks that are over into transactions, up to the next question.
fn settle(
    branches: Vec<RedeemBranch>,
    at: usize,
    walk: BranchWalk,
    list: BroadcastList,
    made: Ghost<Seq<MadeView>>,
) -> (outcome: Option<Result<UnilateralExit, Error>>)
    requires
        at < branches@.len(),
        walk::is_walk_of(branches@[at as int]@, walk@),
        are_made(made@),
    ensures
        views::outcome_view(outcome) == settled(
            views::views(branches@),
            at as nat,
            walk@,
            list@,
            made@,
        ),
        outcome matches Some(Ok(exit)) ==> is_sound(exit@) && is_faithful(exit@),
{
    let ghost all = views::views(branches@);
    let mut place: usize = at;
    let mut current: BranchWalk = walk;
    let mut so_far: BroadcastList = list;
    let ghost mut done = made@;
    while current.is_over()
        invariant
            place < branches@.len(),
            all == views::views(branches@),
            walk::is_walk_of(all[place as int], current@),
            are_made(done),
            settled(all, at as nat, walk@, list@, made@) == settled(
                all,
                place as nat,
                current@,
                so_far@,
                done,
            ),
        decreases branches@.len() - place,
    {
        match so_far.with_branch(current.pending()) {
            Some(Ok(longer)) => {
                proof {
                    let branch = all[place as int];
                    lemma_is_made(branch, current@);
                    done = done.push(MadeView { branch, from: current@.unasked });
                }
                if branches.len() - place > 1 {
                    place = place + 1;
                    current = BranchWalk::new(&branches[place]);
                    so_far = longer;
                } else {
                    let exit = UnilateralExit {
                        stage: Stage::Sending { txs: longer.into_txs(), next: 0, made: Ghost(done) },
                    };
                    return Some(Ok(exit));
                }
            },
            Some(Err(e)) => {
                return Some(Err(e));
            },
            None => {
                return None;
            },
        }
    }
    Some(
        Ok(
            UnilateralExit {
                stage: Stage::Walking {
                    branches,
                    at: place,
                    walk: current,
                    list: so_far,
                    made: Ghost(done),
                },
            },
        ),
    )
}

impl UnilateralExit {
    /// The place where the exit is exists, and what it has made of transactions is still the same.
    #[verifier::type_invariant]
    spec fn wf(self) -> bool {
        is_sound(self@) && is_faithful(self@)
    }

    /// An exit with all spendable VTXOs that a round made.
    pub fn new(groups: &Vec<SpendableGroup>) -> (exit: Self)
        ensures
            exit@ == exit_start(views::views(groups@)),
            is_sound(exit@),
            is_faithful(exit@),
    {
        let coins: Vec<VtxoOutPoint> = candidates(groups);
        let vtxos: Vec<VtxoOutPoint> = take_out(&coins);
        proof {
            lemma_taken_out(views::views(coins@));
        }
        if vtxos.len() == 0 {
            let txs: Vec<Vec<u8>> = Vec::new();
            assert(views::views(txs@) =~= Seq::empty());
            UnilateralExit { stage: Stage::Sending { txs, next: 0, made: Ghost(Seq::empty()) } }
        } else {
            let plan = RedeemPlan::new();
            assert(plan@ == empty_plan());
            UnilateralExit { stage: Stage::Gathering { vtxos, next: 0, plan } }
        }
    }

    /// The next question.
    pub fn question(&self) -> (question: Question)
        ensures
            question@ == asks(self@),
            is_sound(self@),
            is_faithful(self@),
    {
        proof {
            use_type_invariant(self);
        }
        match &self.stage {
            Stage::Gathering { vtxos, next, plan: _ } => Question::Round {
                round_txid: vtxos[*next].round_txid.clone(),
            },
            Stage::Walking { branches, at, walk, list: _, made: _ } => match walk.question(&branches[*at]) {
                Some(txid) => Question::OnChain { txid },
                None => Question::Done,
            },
            Stage::Sending { txs, next, made: _ } => {
                if *next < txs.len() {
                    Question::Broadcast { tx: copy_bytes(txs[*next].as_slice()) }
                } else {
                    Question::Done
                }
            },
        }
    }

    /// Goes on with an answer to the question.
    pub fn answer(self, answer: Answer) -> (outcome: Option<Result<Self, Error>>)
        ensures
            views::outcome_view(outcome) == told(self@, answer@),
            outcome matches Some(Ok(exit)) ==> is_sound(exit@) && is_faithful(exit@),
    {
        proof {
            use_type_invariant(&self);
            if let Some(Ok(_)) = told(self@, answer@) {
                law_exit_stays_sound(self@, answer@);
            }
        }
        let UnilateralExit { stage } = self;
        match (stage, answer) {
            (Stage::Gathering { vtxos, next, plan }, Answer::Round(round)) => {
                match plan.with_vtxo(&vtxos[next], round) {
                    Some(plan) => {
                        if vtxos.len() - next > 1 {
                            return Some(
                                Ok(
                                    UnilateralExit {
                                        stage: Stage::Gathering { vtxos, next: next + 1, plan },
                                    },
                                ),
                            );
                        }
                        let branches: Vec<RedeemBranch> = plan.into_branches();
                        if branches.len() == 0 {
                            let txs: Vec<Vec<u8>> = Vec::new();
                            assert(views::views(txs@) =~= Seq::empty());
                            let made: Ghost<Seq<MadeView>> = Ghost(Seq::empty());
                            return Some(
                                Ok(UnilateralExit { stage: Stage::Sending { txs, next: 0, made } }),
                            );
                        }
                        let walk = BranchWalk::new(&branches[0]);
                        let list = BroadcastList::new();
                        assert(list@ == empty_list());
                        settle(branches, 0, walk, list, Ghost(Seq::empty()))
                    },
                    None => None,
                }
            },
            (Stage::Walking { branches, at, walk, list, made }, Answer::OnChain(on_chain)) => {
                match walk.answer(&branches[at], on_chain) {
                    Some(walk) => settle(branches, at, walk, list, made),
                    None => None,
                }
            },
            (Stage::Sending { txs, next, made }, Answer::Broadcast(sent)) => {
                if sent && next < txs.len() {
                    Some(Ok(UnilateralExit { stage: Stage::Sending { txs, next: next + 1, made } }))
                } else {
                    Some(Ok(UnilateralExit { stage: Stage::Sending { txs, next, made } }))
                }
            },
            (stage, _) => Some(Ok(UnilateralExit { stage })),
        }
    }
}

} // verus!

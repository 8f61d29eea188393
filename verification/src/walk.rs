//! Finding out which part of a branch is not on-chain yet.

use vstd::prelude::*;

use crate::psbt;
use crate::psbt::Psbt;
use crate::redeem::{RedeemBranch, RedeemBranchView};
use crate::tree::VTXO_INPUT_INDEX;
use crate::tx::{OutPoint, OutPointView, TxOut, TxOutView, Txid};
use crate::views;

verus! {

/// The output that an input spends, looked for among some transactions: it is one of the first that
/// has the id. There is none where no transaction has the id, or the first that has it has no such
/// output.
pub open spec fn previous_output(psbts: Seq<Seq<u8>>, spent: OutPointView) -> Option<TxOutView>
    decreases psbts.len(),
{
    if psbts.len() == 0 {
        None
    } else if psbt::psbt_txid(psbts[0]) == spent.txid {
        let outputs = psbt::outputs_of(psbts[0]);
        if spent.vout < outputs.len() {
            Some(outputs[spent.vout as int])
        } else {
            None
        }
    } else {
        previous_output(psbts.skip(1), spent)
    }
}

/// A transaction of a branch after it was told which output it spends: one of the branch, or of the
/// transaction of the round.
pub open spec fn prepared(branch: RedeemBranchView, psbt: Seq<u8>) -> Option<Seq<u8>> {
    let inputs = (psbt::psbt_parts(psbt)->0).inputs;
    if inputs.len() == 0 {
        None
    } else {
        match previous_output(
            branch.branch.push(branch.round_tx),
            inputs[VTXO_INPUT_INDEX as int],
        ) {
            Some(output) => psbt::readable(
                psbt::psbt_with_witness_utxo(psbt, VTXO_INPUT_INDEX as int, output),
            ),
            None => None,
        }
    }
}

/// A walk up a branch, from the leaf towards the root. For each transaction it has to be said
/// whether it is on-chain, and the first that is ends the walk: so are all those above it.
pub struct BranchWalk {
    unasked: usize,
    stopped: bool,
    pending: Vec<Psbt>,
}

/// The value of a [`BranchWalk`].
pub struct WalkView {
    /// The number of transactions, from the root down, that have not been asked about.
    pub unasked: nat,
    /// Whether a transaction was on-chain.
    pub stopped: bool,
    /// The transactions that are missing on-chain, the one nearest to the root first.
    pub pending: Seq<Seq<u8>>,
}

impl View for BranchWalk {
    type V = WalkView;

    closed spec fn view(&self) -> WalkView {
        WalkView {
            unasked: self.unasked as nat,
            stopped: self.stopped,
            pending: views::views(self.pending@),
        }
    }
}

/// That a transaction is what became of another once it was told which output it spends: the same,
/// but for that.
pub open spec fn is_told(psbt: Seq<u8>, ready: Seq<u8>) -> bool {
    &&& psbt::psbt_parts(psbt) is Some
    &&& psbt::psbt_parts(ready) is Some
    &&& psbt::psbt_txid(ready) == psbt::psbt_txid(psbt)
    &&& (psbt::psbt_parts(ready)->0).inputs == (psbt::psbt_parts(psbt)->0).inputs
    &&& psbt::outputs_of(ready) == psbt::outputs_of(psbt)
    &&& psbt::keeps_taproot(psbt, ready, VTXO_INPUT_INDEX as int)
}

/// What the inputs of a transaction are final with stays the same once it was told what it spends.
pub proof fn lemma_told_keeps_inputs(psbt: Seq<u8>, ready: Seq<u8>)
    requires
        is_told(psbt, ready),
    ensures
        psbt::script_sigs_of(ready) == psbt::script_sigs_of(psbt),
        psbt::witnesses_of(ready) == psbt::witnesses_of(psbt),
        psbt::has_no_script_sigs(psbt) ==> psbt::has_no_script_sigs(ready),
{
    assert forall|k: int| 0 <= k < (psbt::psbt_parts(ready)->0).inputs.len() implies
        #[trigger] psbt::psbt_tap_input(ready, k) == psbt::psbt_tap_input(psbt, k) by {
        assert(psbt::has_input(psbt, k));
    }
    assert(psbt::script_sigs_of(ready) =~= psbt::script_sigs_of(psbt));
    assert(psbt::witnesses_of(ready) =~= psbt::witnesses_of(psbt));
}

/// That a walk is one up a branch: what it has found missing is the part of the branch that it has
/// asked about.
pub open spec fn is_walk_of(branch: RedeemBranchView, walk: WalkView) -> bool {
    &&& walk.unasked + walk.pending.len() == branch.branch.len()
    &&& forall|i: int|
        0 <= i < walk.pending.len() ==> prepared(branch, branch.branch[walk.unasked + i]) == Some(
            #[trigger] walk.pending[i],
        ) && is_told(branch.branch[walk.unasked + i], walk.pending[i])
}

/// A walk at its start.
pub open spec fn walk_start(branch: RedeemBranchView) -> WalkView {
    WalkView { unasked: branch.branch.len(), stopped: false, pending: Seq::empty() }
}

/// Whether a walk is over.
pub open spec fn walk_over(walk: WalkView) -> bool {
    walk.stopped || walk.unasked == 0
}

/// A walk after it was said whether the transaction that it asks about is on-chain. There is none
/// where the output that the transaction spends is not to be found.
pub open spec fn walk_on(branch: RedeemBranchView, walk: WalkView, on_chain: bool) -> Option<WalkView> {
    if walk_over(walk) {
        Some(walk)
    } else if on_chain {
        Some(WalkView { stopped: true, ..walk })
    } else {
        match prepared(branch, branch.branch[walk.unasked - 1]) {
            Some(psbt) => Some(
                WalkView {
                    unasked: (walk.unasked - 1) as nat,
                    pending: seq![psbt] + walk.pending,
                    ..walk
                },
            ),
            None => None,
        }
    }
}

/// A walk after some answers.
pub open spec fn walk_through(branch: RedeemBranchView, answers: Seq<bool>) -> Option<WalkView>
    decreases answers.len(),
{
    if answers.len() == 0 {
        Some(walk_start(branch))
    } else {
        match walk_through(branch, answers.drop_last()) {
            Some(walk) => walk_on(branch, walk, answers.last()),
            None => None,
        }
    }
}

/// What a walk has found missing is the lower part of the branch, in the order of the branch: each
/// parent before its child.
pub proof fn law_missing_is_the_lower_part(branch: RedeemBranchView, answers: Seq<bool>)
    requires
        walk_through(branch, answers) is Some,
    ensures
        ({
            let walk = walk_through(branch, answers)->0;
            &&& walk.unasked + walk.pending.len() == branch.branch.len()
            &&& forall|i: int|
                0 <= i < walk.pending.len() ==> prepared(
                    branch,
                    branch.branch[walk.unasked + i],
                ) == Some(#[trigger] walk.pending[i])
        }),
    decreases answers.len(),
{
    if answers.len() > 0 {
        law_missing_is_the_lower_part(branch, answers.drop_last());
        let before = walk_through(branch, answers.drop_last())->0;
        let after = walk_through(branch, answers)->0;
        if !walk_over(before) && !answers.last() {
            assert forall|i: int| 0 <= i < after.pending.len() implies prepared(
                branch,
                branch.branch[after.unasked + i],
            ) == Some(#[trigger] after.pending[i]) by {
                if i > 0 {
                    assert(after.pending[i] == before.pending[i - 1]);
                    assert(after.unasked + i == before.unasked + (i - 1));
                }
            }
        }
    }
}

/// The first transaction that is on-chain ends the walk: just those below it are missing, and
/// nothing that is said later counts.
pub proof fn law_walk_ends_at_the_first_on_chain(
    branch: RedeemBranchView,
    answers: Seq<bool>,
    first: int,
)
    requires
        walk_through(branch, answers) is Some,
        0 <= first < answers.len(),
        first < branch.branch.len(),
        answers[first],
        forall|i: int| 0 <= i < first ==> !(#[trigger] answers[i]),
    ensures
        walk_through(branch, answers)->0.stopped,
        walk_through(branch, answers)->0.pending.len() == first,
    decreases answers.len(),
{
    if first == answers.len() - 1 {
        lemma_nothing_on_chain(branch, answers.drop_last());
    } else {
        law_walk_ends_at_the_first_on_chain(branch, answers.drop_last(), first);
    }
}

/// Where nothing is on-chain, the whole branch is missing.
pub proof fn law_whole_branch_is_missing(branch: RedeemBranchView, answers: Seq<bool>)
    requires
        walk_through(branch, answers) is Some,
        answers.len() == branch.branch.len(),
        forall|i: int| 0 <= i < answers.len() ==> !(#[trigger] answers[i]),
    ensures
        walk_over(walk_through(branch, answers)->0),
        walk_through(branch, answers)->0.pending.len() == branch.branch.len(),
{
    lemma_nothing_on_chain(branch, answers);
}

proof fn lemma_nothing_on_chain(branch: RedeemBranchView, answers: Seq<bool>)
    requires
        walk_through(branch, answers) is Some,
        answers.len() <= branch.branch.len(),
        forall|i: int| 0 <= i < answers.len() ==> !(#[trigger] answers[i]),
    ensures
        !walk_through(branch, answers)->0.stopped,
        walk_through(branch, answers)->0.pending.len() == answers.len(),
        walk_through(branch, answers)->0.unasked == branch.branch.len() - answers.len(),
    decreases answers.len(),
{
    if answers.len() > 0 {
        assert forall|i: int| 0 <= i < answers.drop_last().len() implies !(
        #[trigger] answers.drop_last()[i]) by {
            assert(!answers[i]);
        }
        lemma_nothing_on_chain(branch, answers.drop_last());
    }
}

/// Looks an output up in one transaction after another: in those of a branch, then in that of the
/// round.
fn find_output(branch: &RedeemBranch, spent: &OutPoint) -> (output: Option<TxOut>)
    ensures
        views::option_view(output) == previous_output(
            branch@.branch.push(branch@.round_tx),
            spent@,
        ),
{
    let ghost all = branch@.branch.push(branch@.round_tx);
    let vout: usize = spent.vout as usize;
    let mut i: usize = 0;
    assert(all.skip(0) =~= all);
    while i < branch.branch.len()
        invariant
            i <= branch.branch@.len(),
            all == branch@.branch.push(branch@.round_tx),
            vout == spent.vout,
            previous_output(all, spent@) == previous_output(all.skip(i as int), spent@),
        decreases branch.branch@.len() - i,
    {
        assert(all.skip(i as int)[0] == branch.branch@[i as int]@);
        assert(all.skip(i as int).skip(1) =~= all.skip(i + 1));
        if branch.branch[i].txid().same(&spent.txid) {
            let outputs = &branch.branch[i].parts().outputs;
            return if vout < outputs.len() {
                Some(outputs[vout].copy())
            } else {
                None
            };
        }
        i = i + 1;
    }
    assert(all.skip(i as int)[0] == branch@.round_tx);
    assert(all.skip(i as int).skip(1) =~= Seq::empty());
    reveal_with_fuel(previous_output, 2);
    let outputs = &branch.round_tx.parts().outputs;
    if vout < outputs.len() && branch.round_tx.txid().same(&spent.txid) {
        Some(outputs[vout].copy())
    } else {
        None
    }
}

/// Tells a transaction of a branch which output it spends. It stays the same transaction.
pub fn prepare(branch: &RedeemBranch, psbt: &Psbt) -> (ready: Option<Psbt>)
    ensures
        views::option_view(ready) == prepared(branch@, psbt@),
        ready matches Some(r) ==> is_told(psbt@, r@),
{
    let parts = psbt.parts();
    if parts.inputs.len() == 0 {
        return None;
    }
    assert(parts@.inputs[0] == parts.inputs@[0]@);
    match find_output(branch, &parts.inputs[VTXO_INPUT_INDEX]) {
        Some(output) => psbt.with_witness_utxo(VTXO_INPUT_INDEX, &output),
        None => None,
    }
}

impl BranchWalk {
    /// A walk that starts at the leaf of a branch.
    pub fn new(branch: &RedeemBranch) -> (walk: BranchWalk)
        ensures
            walk@ == walk_start(branch@),
    {
        let walk = BranchWalk {
            unasked: branch.branch.len(),
            stopped: false,
            pending: Vec::new(),
        };
        assert(walk@.pending =~= Seq::empty());
        walk
    }

    /// Whether the walk is over.
    pub fn is_over(&self) -> (over: bool)
        ensures
            over == walk_over(self@),
    {
        self.stopped || self.unasked == 0
    }

    /// The transaction that a walk up a branch asks about, until it is over.
    pub fn question(&self, branch: &RedeemBranch) -> (txid: Option<Txid>)
        requires
            self@.unasked <= branch@.branch.len(),
        ensures
            match txid {
                Some(t) => !walk_over(self@) && t@ == psbt::psbt_txid(
                    branch@.branch[self@.unasked - 1],
                ),
                None => walk_over(self@),
            },
    {
        if self.stopped || self.unasked == 0 {
            None
        } else {
            Some(branch.branch[self.unasked - 1].txid())
        }
    }

    /// Walks on up a branch, told whether the transaction that was asked about is on-chain.
    pub fn answer(self, branch: &RedeemBranch, on_chain: bool) -> (walk: Option<BranchWalk>)
        requires
            self@.unasked <= branch@.branch.len(),
        ensures
            views::option_view(walk) == walk_on(branch@, self@, on_chain),
            is_walk_of(branch@, self@) ==> (walk matches Some(w) ==> is_walk_of(branch@, w@)),
    {
        if self.stopped || self.unasked == 0 {
            return Some(self);
        }
        let BranchWalk { unasked, stopped, pending } = self;
        if on_chain {
            return Some(BranchWalk { unasked, stopped: true, pending });
        }
        match prepare(branch, &branch.branch[unasked - 1]) {
            Some(psbt) => {
                let ghost before = views::views(pending@);
                let ghost added = psbt@;
                let mut pending: Vec<Psbt> = pending;
                pending.insert(0, psbt);
                assert(views::views(pending@) =~= seq![added] + before);
                let walk = BranchWalk { unasked: unasked - 1, stopped, pending };
                assert(is_walk_of(branch@, self@) ==> is_walk_of(branch@, walk@)) by {
                    assert forall|i: int| 0 < i < walk@.pending.len() implies walk@.pending[i]
                        == #[trigger] before[i - 1] && walk@.unasked + i == unasked + (i - 1) by {}
                }
                Some(walk)
            },
            None => None,
        }
    }

    /// The transactions that are missing on-chain, the one nearest to the root first.
    pub fn pending(&self) -> (pending: &Vec<Psbt>)
        ensures
            views::views(pending@) == self@.pending,
    {
        &self.pending
    }
}

/// The output that an input spends is the one with the number that it names, of the first transaction
/// with the id that it names.
pub proof fn law_previous_output_is_the_named_one(psbts: Seq<Seq<u8>>, spent: OutPointView, k: int)
    requires
        0 <= k < psbts.len(),
        psbt::psbt_txid(psbts[k]) == spent.txid,
        forall|i: int| 0 <= i < k ==> psbt::psbt_txid(#[trigger] psbts[i]) != spent.txid,
    ensures
        previous_output(psbts, spent) == (if spent.vout < psbt::outputs_of(psbts[k]).len() {
            Some(psbt::outputs_of(psbts[k])[spent.vout as int])
        } else {
            None
        }),
    decreases k,
{
    if k > 0 {
        assert(psbt::psbt_txid(psbts[0]) != spent.txid);
        assert forall|i: int| 0 <= i < k - 1 implies psbt::psbt_txid(#[trigger] psbts.skip(1)[i])
            != spent.txid by {
            assert(psbt::psbt_txid(psbts[i + 1]) != spent.txid);
        }
        law_previous_output_is_the_named_one(psbts.skip(1), spent, k - 1);
        assert(psbts.skip(1)[k - 1] == psbts[k]);
    }
}

/// Where no transaction has the id that an input names, there is no such output.
pub proof fn law_no_previous_output_without_its_transaction(psbts: Seq<Seq<u8>>, spent: OutPointView)
    requires
        forall|i: int| 0 <= i < psbts.len() ==> psbt::psbt_txid(#[trigger] psbts[i]) != spent.txid,
    ensures
        previous_output(psbts, spent) is None,
    decreases psbts.len(),
{
    if psbts.len() > 0 {
        assert(psbt::psbt_txid(psbts[0]) != spent.txid);
        assert forall|i: int| 0 <= i < psbts.skip(1).len() implies psbt::psbt_txid(
            #[trigger] psbts.skip(1)[i],
        ) != spent.txid by {
            assert(psbt::psbt_txid(psbts[i + 1]) != spent.txid);
        }
        law_no_previous_output_without_its_transaction(psbts.skip(1), spent);
    }
}

/// A transaction of a branch is told, for its first input, the output of the branch or of the round
/// transaction that the input names.
pub proof fn law_transaction_is_told_what_it_spends(
    branch: RedeemBranchView,
    psbt: Seq<u8>,
    spent: OutPointView,
    k: int,
)
    requires
        (psbt::psbt_parts(psbt)->0).inputs.len() > 0,
        spent == (psbt::psbt_parts(psbt)->0).inputs[0],
        0 <= k <= branch.branch.len(),
        psbt::psbt_txid(branch.branch.push(branch.round_tx)[k]) == spent.txid,
        forall|i: int|
            0 <= i < k ==> psbt::psbt_txid(#[trigger] branch.branch[i]) != spent.txid,
    ensures
        ({
            let outputs = psbt::outputs_of(
                if k < branch.branch.len() {
                    branch.branch[k]
                } else {
                    branch.round_tx
                },
            );
            prepared(branch, psbt) == (if spent.vout < outputs.len() {
                psbt::readable(
                    psbt::psbt_with_witness_utxo(psbt, 0, outputs[spent.vout as int]),
                )
            } else {
                None
            })
        }),
{
    let all = branch.branch.push(branch.round_tx);
    assert forall|i: int| 0 <= i < k implies psbt::psbt_txid(#[trigger] all[i]) != spent.txid by {
        assert(all[i] == branch.branch[i]);
    }
    law_previous_output_is_the_named_one(all, spent, k);
}

/// One answer after another: a transaction that is on-chain ends the walk and leaves what was found, one
/// that is not is put before what was found, and once a walk is over nothing changes it.
pub proof fn law_walk_goes_up_one_at_a_time(branch: RedeemBranchView, walk: WalkView, on_chain: bool)
    requires
        walk_on(branch, walk, on_chain) is Some,
        walk.unasked <= branch.branch.len(),
    ensures
        ({
            let after = walk_on(branch, walk, on_chain)->0;
            if walk.stopped || walk.unasked == 0 {
                after == walk
            } else if on_chain {
                after.stopped && after.pending == walk.pending && after.unasked == walk.unasked
            } else {
                &&& !after.stopped
                &&& after.unasked == walk.unasked - 1
                &&& after.pending.len() == walk.pending.len() + 1
                &&& after.pending.skip(1) == walk.pending
                &&& prepared(branch, branch.branch[walk.unasked - 1]) == Some(after.pending[0])
            }
        }),
{
    let after = walk_on(branch, walk, on_chain)->0;
    if !(walk.stopped || walk.unasked == 0) && !on_chain {
        assert(after.pending.skip(1) =~= walk.pending);
    }
}

} // verus!

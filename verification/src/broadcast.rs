//! The transactions to broadcast.

use vstd::prelude::*;

use crate::error::Error;
use crate::psbt;
use crate::psbt::{Psbt, TxHead, TxHeadView};
use crate::tree::VTXO_INPUT_INDEX;
use crate::tx::Txid;
use crate::views;

verus! {

/// The final transaction of a partially signed one of a tree: the signature of its key spend is made
/// its witness. It is an error if there is no signature; there is no outcome where the transaction
/// cannot be made.
pub open spec fn finalized(psbt: Seq<u8>) -> Option<Result<Seq<u8>, Error>> {
    match psbt::psbt_tap_input(psbt, VTXO_INPUT_INDEX as int) {
        None => None,
        Some(tap) => match tap.key_sig {
            None => Some(Err(Error::Unknown)),
            Some(signature) => match psbt::readable(
                psbt::psbt_with_key_spend(psbt, VTXO_INPUT_INDEX as int, signature),
            ) {
                None => None,
                Some(signed) => match psbt::final_tx(signed) {
                    None => None,
                    Some(tx) => Some(Ok(tx)),
                },
            },
        },
    }
}

/// That a transaction is a partially signed one of a tree, made final: it spends and pays the same, the
/// signature of the key spend is the witness of the input that spends the tree, and the other inputs
/// are as they were. It has the same id if no input has a final script signature.
pub open spec fn is_final_form(psbt: Seq<u8>, head: TxHeadView) -> bool {
    &&& head.inputs == (psbt::psbt_parts(psbt)->0).inputs
    &&& head.outputs == psbt::outputs_of(psbt)
    &&& head.script_sigs == psbt::script_sigs_of(psbt)
    &&& (psbt::psbt_tap_input(psbt, VTXO_INPUT_INDEX as int)->0).key_sig matches Some(signature)
        && head.witnesses == psbt::witnesses_of(psbt).update(
        VTXO_INPUT_INDEX as int,
        seq![signature],
    )
    &&& psbt::has_no_script_sigs(psbt) ==> head.txid == psbt::psbt_txid(psbt)
}

/// That the final transaction that is made of a partially signed one is the same transaction, with the
/// signature as its witness.
pub open spec fn keeps_tx(psbt: Seq<u8>) -> bool {
    finalized(psbt) matches Some(Ok(tx)) ==> (psbt::tx_head(tx) matches Some(head)
        ==> is_final_form(psbt, head))
}

/// Transactions in the order in which they are broadcast, none of them twice.
#[derive(Debug, Clone, PartialEq, Eq)]
pub struct BroadcastList {
    txids: Vec<Txid>,
    txs: Vec<Vec<u8>>,
}

/// The value of a [`BroadcastList`].
pub struct ListView {
    pub txids: Seq<Seq<u8>>,
    pub txs: Seq<Seq<u8>>,
}

impl View for BroadcastList {
    type V = ListView;

    closed spec fn view(&self) -> ListView {
        ListView { txids: views::views(self.txids@), txs: views::views(self.txs@) }
    }
}

/// A list after a transaction was put at its end, unless it was in the list already.
pub open spec fn with_tx(list: ListView, tx: Seq<u8>) -> Option<ListView> {
    match psbt::tx_txid(tx) {
        None => None,
        Some(txid) => if list.txids.contains(txid) {
            Some(list)
        } else {
            Some(ListView { txids: list.txids.push(txid), txs: list.txs.push(tx) })
        },
    }
}

/// A list after the transactions of the missing part of a branch were put at its end.
pub open spec fn with_branch(list: ListView, pending: Seq<Seq<u8>>) -> Option<
    Result<ListView, Error>,
>
    decreases pending.len(),
{
    if pending.len() == 0 {
        Some(Ok(list))
    } else {
        match with_branch(list, pending.drop_last()) {
            Some(Ok(so_far)) => match finalized(pending.last()) {
                Some(Ok(tx)) => match with_tx(so_far, tx) {
                    Some(longer) => Some(Ok(longer)),
                    None => None,
                },
                Some(Err(e)) => Some(Err(e)),
                None => None,
            },
            other => other,
        }
    }
}

/// The id of the final transaction of a partially signed one.
pub open spec fn final_txid(psbt: Seq<u8>) -> Seq<u8> {
    psbt::tx_txid(finalized(psbt)->0->Ok_0)->0
}

/// That a list names the ids of its transactions, and none of them twice.
pub open spec fn is_proper(list: ListView) -> bool {
    &&& list.txids.len() == list.txs.len()
    &&& forall|i: int|
        0 <= i < list.txs.len() ==> psbt::tx_txid(#[trigger] list.txs[i]) == Some(list.txids[i])
    &&& list.txids.no_duplicates()
}

/// No transaction is broadcast twice: putting a branch into a list keeps it proper.
pub proof fn law_no_transaction_twice(list: ListView, pending: Seq<Seq<u8>>)
    requires
        is_proper(list),
        with_branch(list, pending) matches Some(Ok(_)),
    ensures
        is_proper(with_branch(list, pending)->0->Ok_0),
    decreases pending.len(),
{
    if pending.len() > 0 {
        law_no_transaction_twice(list, pending.drop_last());
    }
}

/// What is in a list stays where it is.
pub proof fn law_list_grows_at_its_end(list: ListView, pending: Seq<Seq<u8>>, n: int)
    requires
        0 <= n <= pending.len(),
        with_branch(list, pending) matches Some(Ok(_)),
    ensures
        with_branch(list, pending.take(n)) matches Some(Ok(_)),
        with_branch(list, pending.take(n))->0->Ok_0.txids.is_prefix_of(
            with_branch(list, pending)->0->Ok_0.txids,
        ),
        with_branch(list, pending.take(n))->0->Ok_0.txs.is_prefix_of(
            with_branch(list, pending)->0->Ok_0.txs,
        ),
    decreases pending.len(),
{
    if n == pending.len() {
        assert(pending.take(n) =~= pending);
    } else {
        law_list_grows_at_its_end(list, pending.drop_last(), n);
        assert(pending.drop_last().take(n) =~= pending.take(n));
        let early = with_branch(list, pending.take(n))->0->Ok_0;
        let before = with_branch(list, pending.drop_last())->0->Ok_0;
        let after = with_branch(list, pending)->0->Ok_0;
        assert(after.txids.take(early.txids.len() as int) =~= early.txids);
        assert(after.txs.take(early.txs.len() as int) =~= early.txs);
    }
}

/// Every transaction of a branch that is missing on-chain is broadcast.
pub proof fn law_whole_branch_is_broadcast(list: ListView, pending: Seq<Seq<u8>>, i: int)
    requires
        with_branch(list, pending) matches Some(Ok(_)),
        0 <= i < pending.len(),
    ensures
        with_branch(list, pending)->0->Ok_0.txids.contains(final_txid(pending[i])),
{
    law_list_grows_at_its_end(list, pending, i);
    law_list_grows_at_its_end(list, pending, i + 1);
    let now = with_branch(list, pending.take(i + 1))->0->Ok_0;
    let after = with_branch(list, pending)->0->Ok_0;
    assert(pending.take(i + 1).drop_last() =~= pending.take(i));
    let before = with_branch(list, pending.take(i))->0->Ok_0;
    let txid = final_txid(pending[i]);
    if !before.txids.contains(txid) {
        assert(now.txids[before.txids.len() as int] == txid);
    }
    assert(now.txids.contains(txid));
    let k = choose|k: int| 0 <= k < now.txids.len() && now.txids[k] == txid;
    assert(after.txids[k] == txid);
}

/// Where a branch was put into a list, each of its transactions could be made and has an id.
pub proof fn lemma_branch_is_made(list: ListView, pending: Seq<Seq<u8>>, i: int)
    requires
        with_branch(list, pending) matches Some(Ok(_)),
        0 <= i < pending.len(),
    ensures
        finalized(pending[i]) matches Some(Ok(tx)) && psbt::tx_head(tx) is Some,
{
    law_list_grows_at_its_end(list, pending, i + 1);
    assert(pending.take(i + 1).last() == pending[i]);
}

/// A branch brings nothing into a list but its own transactions.
pub proof fn law_branch_brings_nothing_else(list: ListView, pending: Seq<Seq<u8>>, n: int)
    requires
        with_branch(list, pending) matches Some(Ok(_)),
        list.txs.len() <= n < with_branch(list, pending)->0->Ok_0.txs.len(),
    ensures
        exists|i: int|
            0 <= i < pending.len() && finalized(#[trigger] pending[i]) == Some(
                Ok::<Seq<u8>, Error>(with_branch(list, pending)->0->Ok_0.txs[n]),
            ),
    decreases pending.len(),
{
    if pending.len() > 0 {
        let front = pending.drop_last();
        let before = with_branch(list, front)->0->Ok_0;
        if n < before.txs.len() {
            law_branch_brings_nothing_else(list, front, n);
            let i = choose|i: int|
                0 <= i < front.len() && finalized(#[trigger] front[i]) == Some(
                    Ok::<Seq<u8>, Error>(before.txs[n]),
                );
            assert(pending[i] == front[i]);
        } else {
            assert(finalized(pending[pending.len() - 1]) is Some);
        }
    }
}

/// A transaction that a branch brings into the list is broadcast after those that come before it in
/// the branch: a parent before its child.
pub proof fn law_parent_is_broadcast_first(list: ListView, pending: Seq<Seq<u8>>, i: int, j: int)
    requires
        with_branch(list, pending) matches Some(Ok(_)),
        0 <= i < j < pending.len(),
        !list.txids.contains(final_txid(pending[j])),
        forall|k: int| 0 <= k < j ==> final_txid(#[trigger] pending[k]) != final_txid(pending[j]),
    ensures
        exists|a: int, b: int|
            0 <= a < b < with_branch(list, pending)->0->Ok_0.txids.len()
                && #[trigger] with_branch(list, pending)->0->Ok_0.txids[a] == final_txid(pending[i])
                && #[trigger] with_branch(list, pending)->0->Ok_0.txids[b] == final_txid(pending[j]),
{
    law_list_grows_at_its_end(list, pending, j);
    law_list_grows_at_its_end(list, pending, j + 1);
    let before = with_branch(list, pending.take(j))->0->Ok_0;
    let now = with_branch(list, pending.take(j + 1))->0->Ok_0;
    let after = with_branch(list, pending)->0->Ok_0;
    assert(pending.take(j + 1).drop_last() =~= pending.take(j));
    assert(pending.take(j)[i] == pending[i]);
    law_whole_branch_is_broadcast(list, pending.take(j), i);
    assert forall|k: int| 0 <= k < pending.take(j).len() implies final_txid(
        #[trigger] pending.take(j)[k],
    ) != final_txid(pending[j]) by {
        assert(pending.take(j)[k] == pending[k]);
    }
    lemma_not_brought_in(list, pending.take(j), final_txid(pending[j]));
    let a = choose|a: int| 0 <= a < before.txids.len() && before.txids[a] == final_txid(pending[i]);
    let b = before.txids.len() as int;
    assert(now.txids[b] == final_txid(pending[j]));
    assert(after.txids[a] == before.txids[a]);
    assert(after.txids[b] == now.txids[b]);
}

proof fn lemma_not_brought_in(list: ListView, pending: Seq<Seq<u8>>, txid: Seq<u8>)
    requires
        with_branch(list, pending) matches Some(Ok(_)),
        !list.txids.contains(txid),
        forall|k: int| 0 <= k < pending.len() ==> final_txid(#[trigger] pending[k]) != txid,
    ensures
        !with_branch(list, pending)->0->Ok_0.txids.contains(txid),
    decreases pending.len(),
{
    if pending.len() > 0 {
        assert forall|k: int| 0 <= k < pending.drop_last().len() implies final_txid(
            #[trigger] pending.drop_last()[k],
        ) != txid by {
            assert(pending.drop_last()[k] == pending[k]);
        }
        lemma_not_brought_in(list, pending.drop_last(), txid);
        assert(final_txid(pending[pending.len() - 1]) != txid);
    }
}

proof fn lemma_stuck(list: ListView, pending: Seq<Seq<u8>>, n: int)
    requires
        0 <= n <= pending.len(),
        !(with_branch(list, pending.take(n)) matches Some(Ok(_))),
    ensures
        with_branch(list, pending) == with_branch(list, pending.take(n)),
    decreases pending.len() - n,
{
    if n == pending.len() {
        assert(pending.take(n) =~= pending);
    } else {
        assert(pending.take(n + 1).drop_last() =~= pending.take(n));
        lemma_stuck(list, pending, n + 1);
    }
}

/// Makes the final transaction of a partially signed one of a tree: the same transaction, with the
/// signature of the key spend as its witness.
pub fn finalize(psbt: &Psbt) -> (outcome: Option<Result<Vec<u8>, Error>>)
    ensures
        views::outcome_view(outcome) == finalized(psbt@),
        keeps_tx(psbt@),
{
    match psbt.tap_input(VTXO_INPUT_INDEX) {
        Some(tap) => match tap.key_sig {
            Some(signature) => match psbt.with_key_spend(VTXO_INPUT_INDEX, &signature) {
                Some(signed) => match signed.extract_tx() {
                    Some(tx) => {
                        proof {
                            lemma_signature_is_witness(psbt@, signed@, signature@);
                        }
                        Some(Ok(tx))
                    },
                    None => None,
                },
                None => None,
            },
            None => Some(Err(Error::Unknown)),
        },
        None => None,
    }
}

/// Where a signature was made the witness of the input that spends the tree, that is all that changed.
proof fn lemma_signature_is_witness(before: Seq<u8>, after: Seq<u8>, signature: Seq<u8>)
    requires
        psbt::has_input(before, VTXO_INPUT_INDEX as int),
        psbt::psbt_parts(after) == psbt::psbt_parts(before),
        psbt::keeps_taproot_but(before, after, VTXO_INPUT_INDEX as int),
        psbt::psbt_tap_input(after, VTXO_INPUT_INDEX as int) == Some(
            psbt::with_signature(
                psbt::psbt_tap_input(before, VTXO_INPUT_INDEX as int)->0,
                signature,
            ),
        ),
    ensures
        psbt::script_sigs_of(after) == psbt::script_sigs_of(before),
        psbt::witnesses_of(after) == psbt::witnesses_of(before).update(
            VTXO_INPUT_INDEX as int,
            seq![signature],
        ),
        psbt::has_no_script_sigs(before) ==> psbt::has_no_script_sigs(after),
{
    let count = (psbt::psbt_parts(before)->0).inputs.len();
    assert forall|k: int| 0 <= k < count && k != VTXO_INPUT_INDEX implies
        #[trigger] psbt::psbt_tap_input(after, k) == psbt::psbt_tap_input(before, k) by {
        assert(psbt::has_input(before, k));
    }
    assert(psbt::script_sigs_of(after) =~= psbt::script_sigs_of(before));
    assert(psbt::witnesses_of(after) =~= psbt::witnesses_of(before).update(
        VTXO_INPUT_INDEX as int,
        seq![signature],
    ));
}

impl BroadcastList {
    /// An empty list.
    pub fn new() -> (list: Self)
        ensures
            list@.txids == Seq::<Seq<u8>>::empty(),
            list@.txs == Seq::<Seq<u8>>::empty(),
    {
        let list = BroadcastList { txids: Vec::new(), txs: Vec::new() };
        assert(list@.txids =~= Seq::empty());
        assert(list@.txs =~= Seq::empty());
        list
    }

    /// The transactions, in order.
    pub fn txs(&self) -> (txs: &Vec<Vec<u8>>)
        ensures
            views::views(txs@) == self@.txs,
    {
        &self.txs
    }

    /// Hands the transactions over, in order.
    pub fn into_txs(self) -> (txs: Vec<Vec<u8>>)
        ensures
            views::views(txs@) == self@.txs,
    {
        self.txs
    }

    /// The ids of the transactions, in order.
    pub fn txids(&self) -> (txids: &Vec<Txid>)
        ensures
            views::views(txids@) == self@.txids,
    {
        &self.txids
    }

    /// Whether a transaction is in the list.
    pub fn contains(&self, txid: &Txid) -> (found: bool)
        ensures
            found == self@.txids.contains(txid@),
    {
        let mut i: usize = 0;
        while i < self.txids.len()
            invariant
                i <= self.txids@.len(),
                forall|k: int| 0 <= k < i ==> #[trigger] self@.txids[k] != txid@,
            decreases self.txids@.len() - i,
        {
            assert(self@.txids[i as int] == self.txids@[i as int]@);
            if self.txids[i].same(txid) {
                return true;
            }
            i = i + 1;
        }
        false
    }

    /// Puts the transactions of the missing part of a branch at the end of the list, the one nearest
    /// to the root first.
    pub fn with_branch(self, pending: &Vec<Psbt>) -> (outcome: Option<Result<Self, Error>>)
        ensures
            views::outcome_view(outcome) == with_branch(
                self@,
                views::views(pending@),
            ),
            outcome matches Some(Ok(_)) ==> forall|k: int|
                0 <= k < pending@.len() ==> keeps_tx(#[trigger] pending@[k]@),
    {
        let ghost start = self@;
        let ghost all = views::views(pending@);
        let mut list: BroadcastList = self;
        let mut i: usize = 0;
        assert(all.take(0) =~= Seq::empty());
        while i < pending.len()
            invariant
                i <= pending@.len(),
                all == views::views(pending@),
                start == self@,
                with_branch(start, all.take(i as int)) == Some(Ok::<ListView, Error>(list@)),
                forall|k: int| 0 <= k < i ==> keeps_tx(#[trigger] pending@[k]@),
            decreases pending@.len() - i,
        {
            assert(all.take(i + 1).drop_last() =~= all.take(i as int));
            assert(all.take(i + 1).last() == pending@[i as int]@);
            match finalize(&pending[i]) {
                Some(Ok(tx)) => match TxHead::read(&tx) {
                    Some(head) => {
                        let txid: Txid = head.txid;
                        if !list.contains(&txid) {
                            let ghost before = list@;
                            let ghost added = tx@;
                            list.txids.push(txid);
                            list.txs.push(tx);
                            assert(list@.txids =~= before.txids.push(txid@));
                            assert(list@.txs =~= before.txs.push(added));
                        }
                    },
                    None => {
                        proof {
                            lemma_stuck(start, all, i + 1);
                        }
                        return None;
                    },
                },
                Some(Err(e)) => {
                    proof {
                        lemma_stuck(start, all, i + 1);
                    }
                    return Some(Err(e));
                },
                None => {
                    proof {
                        lemma_stuck(start, all, i + 1);
                    }
                    return None;
                },
            }
            i = i + 1;
        }
        assert(all.take(all.len() as int) =~= all);
        Some(Ok(list))
    }
}

/// A transaction of a tree is made final by the signature of the key spend of its first input. Without
/// the signature it is an error, and that is the only one.
pub proof fn law_transaction_is_made_final_by_its_signature(psbt: Seq<u8>)
    ensures
        match psbt::psbt_tap_input(psbt, 0) {
            None => finalized(psbt) is None,
            Some(tap) => match tap.key_sig {
                None => finalized(psbt) == Some(Err::<Seq<u8>, Error>(Error::Unknown)),
                Some(signature) => match finalized(psbt) {
                    Some(Ok(tx)) => exists|signed: Seq<u8>|
                        psbt::psbt_with_key_spend(psbt, 0, signature) == Some(signed)
                            && psbt::psbt_parts(signed) is Some && psbt::psbt_fee(signed) is Some
                            && #[trigger] psbt::extracted_tx(signed) == Some(tx),
                    Some(Err(_)) => false,
                    None => match psbt::psbt_with_key_spend(psbt, 0, signature) {
                        Some(signed) => psbt::psbt_parts(signed) is None || psbt::psbt_fee(
                            signed,
                        ) is None || psbt::extracted_tx(signed) is None,
                        None => true,
                    },
                },
            },
        },
{
}

/// Putting one more transaction of a branch into a list puts it at the end, unless one with its id is in
/// the list; the list then says its id.
pub proof fn law_one_more_transaction(list: ListView, tx: Seq<u8>, head: TxHeadView)
    requires
        psbt::tx_head(tx) == Some(head),
    ensures
        with_tx(list, tx) is Some,
        (exists|i: int| 0 <= i < list.txids.len() && #[trigger] list.txids[i] == head.txid)
            ==> with_tx(list, tx) == Some(list),
        (forall|i: int| 0 <= i < list.txids.len() ==> #[trigger] list.txids[i] != head.txid) ==> (
        with_tx(list, tx)->0).txids == list.txids.push(head.txid) && (with_tx(list, tx)->0).txs
            == list.txs.push(tx),
{
}

/// One more transaction of a branch is made final and put into the list, unless one before it could not
/// be; the first that could not be decides.
pub proof fn law_first_transaction_that_fails_counts(list: ListView, pending: Seq<Seq<u8>>, psbt: Seq<u8>)
    ensures
        match (with_branch(list, pending), finalized(psbt)) {
            (Some(Ok(so_far)), Some(Ok(tx))) => match with_tx(so_far, tx) {
                Some(longer) => with_branch(list, pending.push(psbt)) == Some(
                    Ok::<ListView, Error>(longer),
                ),
                None => with_branch(list, pending.push(psbt)) is None,
            },
            (Some(Ok(_)), Some(Err(e))) => with_branch(list, pending.push(psbt)) == Some(
                Err::<ListView, Error>(e),
            ),
            (Some(Ok(_)), None) => with_branch(list, pending.push(psbt)) is None,
            (failed, _) => with_branch(list, pending.push(psbt)) == failed,
        },
{
    assert(pending.push(psbt).drop_last() =~= pending);
}

} // verus!

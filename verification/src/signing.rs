//! Signing the inputs that spend an output of the client by a leaf of its tree.

use vstd::prelude::*;

use crate::error::Error;
use crate::keys;
use crate::keys::Keypair;
use crate::psbt;
use crate::psbt::{Psbt, SpendPath, SpendPathView};
use crate::taproot;
use crate::taproot::{leaf_hash, script_sighash};
use crate::tx::{OutPoint, OutPointView, TxOut, TxOutView};
use crate::views;

verus! {

/// An output that the client may spend: where it is, if that is known, and by which leaf.
#[derive(Debug, Clone, PartialEq, Eq)]
pub struct OwnedOutput {
    pub outpoint: Option<OutPoint>,
    pub path: SpendPath,
}

/// The value of an [`OwnedOutput`].
pub struct OwnedOutputView {
    pub outpoint: Option<OutPointView>,
    pub path: SpendPathView,
}

impl View for OwnedOutput {
    type V = OwnedOutputView;

    open spec fn view(&self) -> OwnedOutputView {
        OwnedOutputView { outpoint: views::option_view(self.outpoint), path: self.path@ }
    }
}

/// An encoding after one input was signed by a leaf.
///
/// The message is that of the transaction of `psbt`, whose spent outputs are `prevouts`; the
/// signature goes into `bytes`. There is no outcome where there is no message to sign or the leaf
/// does not fit an encoding, and an error where the own signature does not verify.
pub open spec fn sign_input(
    psbt: Seq<u8>,
    bytes: Seq<u8>,
    index: int,
    prevouts: Seq<TxOutView>,
    path: SpendPathView,
    secret: Seq<u8>,
) -> Option<Result<Seq<u8>, Error>> {
    match taproot::tap_leaf_hash(path.script, path.leaf_version) {
        None => None,
        Some(leaf) => match taproot::script_spend_sighash(psbt, index, prevouts, leaf) {
            None => None,
            Some(message) => match keys::checked_signature(secret, message) {
                None => Some(Err(Error::Unknown)),
                Some(signature) => match psbt::readable(
                    psbt::psbt_with_script_spend(
                        bytes,
                        index,
                        path,
                        keys::x_only_key(secret),
                        leaf,
                        signature,
                    ),
                ) {
                    None => None,
                    Some(changed) => Some(Ok(changed)),
                },
            },
        },
    }
}

/// The outputs that a partially signed transaction says it spends.
pub open spec fn known_prevouts(psbt: Seq<u8>) -> Seq<TxOutView> {
    views::present((psbt::psbt_parts(psbt)->0).witness_utxos)
}

/// What the inputs of a partially signed transaction spend.
pub open spec fn spent_outpoints(psbt: Seq<u8>) -> Seq<OutPointView> {
    (psbt::psbt_parts(psbt)->0).inputs
}

/// An encoding after those of the first `n` inputs were signed that spend one output of the client.
pub open spec fn sign_for_output(
    psbt: Seq<u8>,
    bytes: Seq<u8>,
    owned: OwnedOutputView,
    secret: Seq<u8>,
    n: nat,
) -> Option<Result<Seq<u8>, Error>>
    decreases n,
{
    if n == 0 {
        Some(Ok(bytes))
    } else {
        match sign_for_output(psbt, bytes, owned, secret, (n - 1) as nat) {
            Some(Ok(so_far)) => match owned.outpoint {
                None => None,
                Some(outpoint) => if spent_outpoints(psbt)[n - 1] == outpoint {
                    sign_input(psbt, so_far, n - 1, known_prevouts(psbt), owned.path, secret)
                } else {
                    Some(Ok(so_far))
                },
            },
            other => other,
        }
    }
}

/// A partially signed transaction after every input was signed that spends an output of the client.
pub open spec fn sign_for_outputs(
    psbt: Seq<u8>,
    owned: Seq<OwnedOutputView>,
    secret: Seq<u8>,
) -> Option<Result<Seq<u8>, Error>>
    decreases owned.len(),
{
    if owned.len() == 0 {
        Some(Ok(psbt))
    } else {
        match sign_for_outputs(psbt, owned.drop_last(), secret) {
            Some(Ok(so_far)) => sign_for_output(
                psbt,
                so_far,
                owned.last(),
                secret,
                spent_outpoints(psbt).len(),
            ),
            other => other,
        }
    }
}

/// No signature is put into a transaction that does not verify under the client's own key.
pub proof fn law_only_verified_signatures(
    psbt: Seq<u8>,
    bytes: Seq<u8>,
    index: int,
    prevouts: Seq<TxOutView>,
    path: SpendPathView,
    secret: Seq<u8>,
)
    requires
        sign_input(psbt, bytes, index, prevouts, path, secret) matches Some(Ok(_)),
    ensures
        ({
            let leaf = taproot::tap_leaf_hash(path.script, path.leaf_version)->0;
            let message = taproot::script_spend_sighash(psbt, index, prevouts, leaf)->0;
            let signature = keys::schnorr_signature(secret, message);
            &&& keys::schnorr_verifies(signature, message, keys::x_only_key(secret))
            &&& psbt::psbt_with_script_spend(
                bytes,
                index,
                path,
                keys::x_only_key(secret),
                leaf,
                signature,
            ) == Some(sign_input(psbt, bytes, index, prevouts, path, secret)->0->Ok_0)
        }),
{
}

/// That a partially signed transaction is another one after one input was signed by a leaf: the leaf
/// is the only one of that input, and the transaction and all other inputs are as they were.
pub open spec fn is_signed(before: Seq<u8>, after: Seq<u8>, index: int, path: SpendPathView) -> bool {
    &&& psbt::psbt_parts(after) == psbt::psbt_parts(before)
    &&& psbt::psbt_txid(after) == psbt::psbt_txid(before)
    &&& psbt::keeps_taproot_but(before, after, index)
    &&& psbt::psbt_tap_input(after, index) == Some(
        psbt::with_one_leaf(psbt::psbt_tap_input(before, index)->0, path.script),
    )
}

/// That an input of a partially signed transaction spends one of some outputs.
pub open spec fn is_owned_input(psbt: Seq<u8>, owned: Seq<OwnedOutputView>, index: int) -> bool {
    exists|j: int|
        0 <= j < owned.len() && 0 <= index < spent_outpoints(psbt).len() && (#[trigger] owned[j]).outpoint
            == Some(spent_outpoints(psbt)[index])
}

/// That an output is the last of some that an input spends: it is for this one that the input is signed
/// in the end.
pub open spec fn is_last_owner(psbt: Seq<u8>, owned: Seq<OwnedOutputView>, j: int, index: int) -> bool {
    &&& 0 <= j < owned.len()
    &&& owned[j].outpoint == Some(spent_outpoints(psbt)[index])
    &&& forall|later: int|
        j < later < owned.len() ==> (#[trigger] owned[later]).outpoint != Some(
            spent_outpoints(psbt)[index],
        )
}

/// That an input carries the leaf of the output that it spends as its only one, and is otherwise as it
/// was.
pub open spec fn carries_leaf_of_owner(
    before: Seq<u8>,
    after: Seq<u8>,
    owned: Seq<OwnedOutputView>,
    index: int,
) -> bool {
    exists|j: int| #[trigger]
        is_last_owner(before, owned, j, index) && psbt::psbt_tap_input(after, index) == Some(
            psbt::with_one_leaf(psbt::psbt_tap_input(before, index)->0, owned[j].path.script),
        )
}

/// That a partially signed transaction was signed for some outputs: every input that spends one of
/// them carries its leaf, and nothing else was changed.
pub open spec fn only_owned_signed(
    before: Seq<u8>,
    after: Seq<u8>,
    owned: Seq<OwnedOutputView>,
) -> bool {
    &&& psbt::psbt_parts(after) == psbt::psbt_parts(before)
    &&& psbt::psbt_txid(after) == psbt::psbt_txid(before)
    &&& forall|k: int|
        0 <= k && psbt::has_input(before, k) && !is_owned_input(before, owned, k)
            ==> #[trigger] psbt::psbt_tap_input(after, k) == psbt::psbt_tap_input(before, k)
    &&& forall|k: int|
        #[trigger] is_owned_input(before, owned, k) ==> carries_leaf_of_owner(before, after, owned, k)
}

/// The leaf that an input is signed by in the end, if it spends one of some outputs.
spec fn leaf_for(owned: Seq<OwnedOutputView>, spent: OutPointView) -> Option<SpendPathView>
    decreases owned.len(),
{
    if owned.len() == 0 {
        None
    } else if owned.last().outpoint == Some(spent) {
        Some(owned.last().path)
    } else {
        leaf_for(owned.drop_last(), spent)
    }
}

/// That an input is as signing for some outputs leaves it.
spec fn is_input_signed(
    before: Seq<u8>,
    after: Seq<u8>,
    owned: Seq<OwnedOutputView>,
    index: int,
) -> bool {
    psbt::psbt_tap_input(after, index) == match leaf_for(owned, spent_outpoints(before)[index]) {
        Some(path) => Some(
            psbt::with_one_leaf(psbt::psbt_tap_input(before, index)->0, path.script),
        ),
        None => psbt::psbt_tap_input(before, index),
    }
}

proof fn lemma_leaf_for(psbt: Seq<u8>, owned: Seq<OwnedOutputView>, index: int)
    requires
        0 <= index < spent_outpoints(psbt).len(),
    ensures
        match leaf_for(owned, spent_outpoints(psbt)[index]) {
            Some(path) => exists|j: int| #[trigger]
                is_last_owner(psbt, owned, j, index) && owned[j].path == path,
            None => !is_owned_input(psbt, owned, index),
        },
    decreases owned.len(),
{
    let spent = spent_outpoints(psbt)[index];
    if owned.len() > 0 {
        let front = owned.drop_last();
        if owned.last().outpoint == Some(spent) {
            assert(is_last_owner(psbt, owned, owned.len() - 1, index));
        } else {
            lemma_leaf_for(psbt, front, index);
            if leaf_for(front, spent) is Some {
                let j = choose|j: int| #[trigger]
                    is_last_owner(psbt, front, j, index) && front[j].path == leaf_for(front, spent)->0;
                assert forall|later: int| j < later < owned.len() implies (
                #[trigger] owned[later]).outpoint != Some(spent) by {
                    if later < front.len() {
                        assert(front[later].outpoint != Some(spent));
                    }
                }
                assert(is_last_owner(psbt, owned, j, index));
            } else {
                assert forall|j: int| 0 <= j < owned.len() implies (#[trigger] owned[j]).outpoint
                    != Some(spent) by {
                    if j < front.len() {
                        assert(front[j].outpoint != Some(spent));
                    }
                }
            }
        }
    }
}

proof fn lemma_inputs_are_signed(before: Seq<u8>, after: Seq<u8>, owned: Seq<OwnedOutputView>)
    requires
        psbt::psbt_parts(before) is Some,
        psbt::psbt_parts(after) == psbt::psbt_parts(before),
        psbt::psbt_txid(after) == psbt::psbt_txid(before),
        forall|k: int|
            0 <= k < spent_outpoints(before).len() ==> #[trigger] is_input_signed(
                before,
                after,
                owned,
                k,
            ),
    ensures
        only_owned_signed(before, after, owned),
{
    assert forall|k: int| 0 <= k && psbt::has_input(before, k) && !is_owned_input(before, owned, k) implies
        #[trigger] psbt::psbt_tap_input(after, k) == psbt::psbt_tap_input(before, k) by {
        lemma_leaf_for(before, owned, k);
        assert(is_input_signed(before, after, owned, k));
        if leaf_for(owned, spent_outpoints(before)[k]) is Some {
            let j = choose|j: int| #[trigger] is_last_owner(before, owned, j, k);
            assert(owned[j].outpoint == Some(spent_outpoints(before)[k]));
        }
    }
    assert forall|k: int| #[trigger] is_owned_input(before, owned, k) implies carries_leaf_of_owner(
        before,
        after,
        owned,
        k,
    ) by {
        lemma_leaf_for(before, owned, k);
        assert(is_input_signed(before, after, owned, k));
    }
}

/// That an output has a place, and a partially signed transaction does not spend it.
pub open spec fn is_foreign(psbt: Seq<u8>, owned: OwnedOutputView) -> bool {
    owned.outpoint matches Some(outpoint) && !spent_outpoints(psbt).contains(outpoint)
}

/// Where one input spends an output of the client, and no other does, just that input is signed.
pub proof fn law_just_the_owned_input_is_signed(
    psbt: Seq<u8>,
    owned: OwnedOutputView,
    secret: Seq<u8>,
    index: int,
)
    requires
        0 <= index < spent_outpoints(psbt).len(),
        owned.outpoint == Some(spent_outpoints(psbt)[index]),
        forall|i: int|
            0 <= i < spent_outpoints(psbt).len() && i != index ==> owned.outpoint != Some(
                #[trigger] spent_outpoints(psbt)[i],
            ),
    ensures
        sign_for_outputs(psbt, seq![owned], secret) == sign_input(
            psbt,
            psbt,
            index,
            known_prevouts(psbt),
            owned.path,
            secret,
        ),
{
    let count = spent_outpoints(psbt).len();
    lemma_just_one(psbt, psbt, owned, secret, index, count);
    assert(seq![owned].drop_last() =~= Seq::empty());
    assert(sign_for_outputs(psbt, Seq::empty(), secret) == Some(Ok::<Seq<u8>, Error>(psbt)));
}

proof fn lemma_just_one(
    psbt: Seq<u8>,
    bytes: Seq<u8>,
    owned: OwnedOutputView,
    secret: Seq<u8>,
    index: int,
    n: nat,
)
    requires
        n <= spent_outpoints(psbt).len(),
        0 <= index < spent_outpoints(psbt).len(),
        owned.outpoint == Some(spent_outpoints(psbt)[index]),
        forall|i: int|
            0 <= i < spent_outpoints(psbt).len() && i != index ==> owned.outpoint != Some(
                #[trigger] spent_outpoints(psbt)[i],
            ),
    ensures
        sign_for_output(psbt, bytes, owned, secret, n) == (if n <= index {
            Some(Ok::<Seq<u8>, Error>(bytes))
        } else {
            sign_input(psbt, bytes, index, known_prevouts(psbt), owned.path, secret)
        }),
    decreases n,
{
    if n > 0 {
        lemma_just_one(psbt, bytes, owned, secret, index, (n - 1) as nat);
        if n - 1 != index {
            assert(owned.outpoint != Some(spent_outpoints(psbt)[n - 1]));
        }
    }
}

/// A transaction that spends no output of the client is left as it is.
pub proof fn law_foreign_transaction_untouched(
    psbt: Seq<u8>,
    owned: Seq<OwnedOutputView>,
    secret: Seq<u8>,
)
    requires
        forall|k: int| 0 <= k < owned.len() ==> is_foreign(psbt, #[trigger] owned[k]),
    ensures
        sign_for_outputs(psbt, owned, secret) == Some(Ok::<Seq<u8>, Error>(psbt)),
    decreases owned.len(),
{
    if owned.len() > 0 {
        law_foreign_transaction_untouched(psbt, owned.drop_last(), secret);
        lemma_no_match(psbt, psbt, owned.last(), secret, spent_outpoints(psbt).len());
    }
}

proof fn lemma_no_match(
    psbt: Seq<u8>,
    bytes: Seq<u8>,
    owned: OwnedOutputView,
    secret: Seq<u8>,
    n: nat,
)
    requires
        n <= spent_outpoints(psbt).len(),
        is_foreign(psbt, owned),
    ensures
        sign_for_output(psbt, bytes, owned, secret, n) == Some(Ok::<Seq<u8>, Error>(bytes)),
    decreases n,
{
    if n > 0 {
        lemma_no_match(psbt, bytes, owned, secret, (n - 1) as nat);
    }
}

proof fn lemma_stuck_output(
    psbt: Seq<u8>,
    bytes: Seq<u8>,
    owned: OwnedOutputView,
    secret: Seq<u8>,
    n: nat,
    all: nat,
)
    requires
        n <= all,
        !(sign_for_output(psbt, bytes, owned, secret, n) matches Some(Ok(_))),
    ensures
        sign_for_output(psbt, bytes, owned, secret, all) == sign_for_output(
            psbt,
            bytes,
            owned,
            secret,
            n,
        ),
    decreases all - n,
{
    if n < all {
        lemma_stuck_output(psbt, bytes, owned, secret, (n + 1) as nat, all);
    }
}

proof fn lemma_stuck_outputs(psbt: Seq<u8>, owned: Seq<OwnedOutputView>, secret: Seq<u8>, n: int)
    requires
        0 <= n <= owned.len(),
        !(sign_for_outputs(psbt, owned.take(n), secret) matches Some(Ok(_))),
    ensures
        sign_for_outputs(psbt, owned, secret) == sign_for_outputs(psbt, owned.take(n), secret),
    decreases owned.len() - n,
{
    if n == owned.len() {
        assert(owned.take(n) =~= owned);
    } else {
        assert(owned.take(n + 1).drop_last() =~= owned.take(n));
        lemma_stuck_outputs(psbt, owned, secret, n + 1);
    }
}

/// Signing one input for an output leaves all inputs as they are to be.
proof fn lemma_one_more_input(
    psbt: Seq<u8>,
    before: Seq<u8>,
    after: Seq<u8>,
    owned: Seq<OwnedOutputView>,
    k: int,
    i: int,
)
    requires
        0 <= k < owned.len(),
        psbt::psbt_parts(psbt) is Some,
        psbt::psbt_parts(before) == psbt::psbt_parts(psbt),
        0 <= i < spent_outpoints(psbt).len(),
        owned[k].outpoint == Some(spent_outpoints(psbt)[i]),
        is_signed(before, after, i, owned[k].path),
        forall|x: int|
            0 <= x < i ==> #[trigger] is_input_signed(psbt, before, owned.take(k + 1), x),
        forall|x: int|
            i <= x < spent_outpoints(psbt).len() ==> #[trigger] is_input_signed(
                psbt,
                before,
                owned.take(k),
                x,
            ),
    ensures
        forall|x: int|
            0 <= x <= i ==> #[trigger] is_input_signed(psbt, after, owned.take(k + 1), x),
        forall|x: int|
            i < x < spent_outpoints(psbt).len() ==> #[trigger] is_input_signed(
                psbt,
                after,
                owned.take(k),
                x,
            ),
{
    assert(is_input_signed(psbt, before, owned.take(k), i));
    assert(is_input_signed(psbt, after, owned.take(k + 1), i));
    assert forall|x: int| 0 <= x < i implies #[trigger] is_input_signed(
        psbt,
        after,
        owned.take(k + 1),
        x,
    ) by {
        assert(is_input_signed(psbt, before, owned.take(k + 1), x));
    }
    assert forall|x: int| i < x < spent_outpoints(psbt).len() implies #[trigger] is_input_signed(
        psbt,
        after,
        owned.take(k),
        x,
    ) by {
        assert(is_input_signed(psbt, before, owned.take(k), x));
    }
}

/// Signs one input by a leaf: the message is that of one partially signed transaction, the signature
/// goes into another.
pub fn sign_one(
    psbt: &Psbt,
    into: &Psbt,
    index: usize,
    prevouts: &Vec<TxOut>,
    path: &SpendPath,
    pair: &Keypair,
) -> (outcome: Option<Result<Psbt, Error>>)
    ensures
        views::outcome_view(outcome) == sign_input(
            psbt@,
            into@,
            index as int,
            views::views(prevouts@),
            path@,
            pair@,
        ),
        outcome matches Some(Ok(signed)) ==> is_signed(into@, signed@, index as int, path@),
{
    let leaf: [u8; 32] = match leaf_hash(&path.script, path.leaf_version) {
        Some(l) => l,
        None => {
            return None;
        },
    };
    let message: [u8; 32] = match script_sighash(
        psbt.serialize().as_slice(),
        index,
        prevouts,
        &leaf,
    ) {
        Some(m) => m,
        None => {
            return None;
        },
    };
    let signature: [u8; 64] = match pair.sign(&message) {
        Some(s) => s,
        None => {
            return Some(Err(Error::Unknown));
        },
    };
    match into.with_script_spend(index, path, &pair.x_only_public_key(), &leaf, &signature) {
        Some(changed) => Some(Ok(changed)),
        None => None,
    }
}

/// The outputs that a partially signed transaction says it spends.
pub fn prevouts_of(psbt: &Psbt) -> (prevouts: Vec<TxOut>)
    ensures
        views::views(prevouts@) == known_prevouts(psbt@),
{
    let parts = psbt.parts();
    let ghost utxos = parts@.witness_utxos;
    let mut prevouts: Vec<TxOut> = Vec::new();
    let mut i: usize = 0;
    while i < parts.witness_utxos.len()
        invariant
            utxos == parts@.witness_utxos,
            i <= utxos.len(),
            views::views(prevouts@) == views::present(utxos.take(i as int)),
        decreases utxos.len() - i,
    {
        let ghost before = prevouts@;
        assert(utxos.take(i + 1).drop_last() =~= utxos.take(i as int));
        match &parts.witness_utxos[i] {
            Some(utxo) => {
                prevouts.push(utxo.copy());
                assert(views::views(prevouts@) =~= views::views(before).push(utxo@));
            },
            None => {},
        }
        i = i + 1;
    }
    assert(utxos.take(utxos.len() as int) =~= utxos);
    prevouts
}

/// Signs every input that spends an output of the client.
///
/// There is no outcome where a message to sign cannot be made: the transaction does not say what
/// each of its inputs spends, a leaf is malformed, or an output of the client has no place yet. It
/// is an error if a signature of the client does not verify. Every input that spends an output of the
/// client then carries its leaf. What the transaction spends and pays is never changed by signing, nor
/// are the inputs that spend what is not the client's.
pub fn sign_owned_inputs(psbt: &Psbt, owned: &Vec<OwnedOutput>, pair: &Keypair) -> (outcome: Option<
    Result<Psbt, Error>,
>)
    ensures
        views::outcome_view(outcome) == sign_for_outputs(psbt@, views::views(owned@), pair@),
        outcome matches Some(Ok(signed)) ==> only_owned_signed(
            psbt@,
            signed@,
            views::views(owned@),
        ),
{
    let prevouts: Vec<TxOut> = prevouts_of(psbt);
    let parts = psbt.parts();
    let ghost all = views::views(owned@);
    let mut signed: Psbt = psbt.copy();
    let mut k: usize = 0;
    assert(all.take(0) =~= Seq::<OwnedOutputView>::empty());
    while k < owned.len()
        invariant
            k <= owned@.len(),
            all == views::views(owned@),
            views::views(prevouts@) == known_prevouts(psbt@),
            psbt::psbt_parts(psbt@) == Some(parts@),
            sign_for_outputs(psbt@, all.take(k as int), pair@) == Some(
                Ok::<Seq<u8>, Error>(signed@),
            ),
            psbt::psbt_parts(signed@) == psbt::psbt_parts(psbt@),
            psbt::psbt_txid(signed@) == psbt::psbt_txid(psbt@),
            forall|x: int|
                0 <= x < parts@.inputs.len() ==> #[trigger] is_input_signed(
                    psbt@,
                    signed@,
                    all.take(k as int),
                    x,
                ),
        decreases owned@.len() - k,
    {
        let ghost start = signed@;
        assert(all.take(k + 1).drop_last() =~= all.take(k as int));
        assert(all.take(k + 1).last() == owned@[k as int]@);
        let mut i: usize = 0;
        while i < parts.inputs.len()
            invariant
                k < owned@.len(),
                all == views::views(owned@),
                i <= parts.inputs@.len(),
                views::views(prevouts@) == known_prevouts(psbt@),
                psbt::psbt_parts(psbt@) == Some(parts@),
                sign_for_outputs(psbt@, all.take(k as int), pair@) == Some(
                    Ok::<Seq<u8>, Error>(start),
                ),
                all.take(k + 1).drop_last() == all.take(k as int),
                all.take(k + 1).last() == owned@[k as int]@,
                sign_for_output(psbt@, start, owned@[k as int]@, pair@, i as nat) == Some(
                    Ok::<Seq<u8>, Error>(signed@),
                ),
                psbt::psbt_parts(signed@) == psbt::psbt_parts(psbt@),
                psbt::psbt_txid(signed@) == psbt::psbt_txid(psbt@),
                forall|x: int|
                    0 <= x < i ==> #[trigger] is_input_signed(psbt@, signed@, all.take(k + 1), x),
                forall|x: int|
                    i <= x < parts@.inputs.len() ==> #[trigger] is_input_signed(
                        psbt@,
                        signed@,
                        all.take(k as int),
                        x,
                    ),
            decreases parts.inputs@.len() - i,
        {
            let ghost before = signed@;
            let ghost o = owned@[k as int]@;
            let ghost count = spent_outpoints(psbt@).len();
            let outpoint: OutPoint = match owned[k].outpoint {
                Some(outpoint) => outpoint,
                None => {
                    proof {
                        lemma_stuck_output(psbt@, start, o, pair@, (i + 1) as nat, count);
                        lemma_stuck_outputs(psbt@, all, pair@, k + 1);
                    }
                    return None;
                },
            };
            assert(spent_outpoints(psbt@)[i as int] == parts.inputs@[i as int]@);
            if parts.inputs[i].same(&outpoint) {
                match sign_one(psbt, &signed, i, &prevouts, &owned[k].path, pair) {
                    Some(Ok(changed)) => {
                        proof {
                            lemma_one_more_input(psbt@, before, changed@, all, k as int, i as int);
                        }
                        signed = changed;
                    },
                    Some(Err(e)) => {
                        proof {
                            lemma_stuck_output(psbt@, start, o, pair@, (i + 1) as nat, count);
                            lemma_stuck_outputs(psbt@, all, pair@, k + 1);
                        }
                        return Some(Err(e));
                    },
                    None => {
                        proof {
                            lemma_stuck_output(psbt@, start, o, pair@, (i + 1) as nat, count);
                            lemma_stuck_outputs(psbt@, all, pair@, k + 1);
                        }
                        return None;
                    },
                }
            } else {
                assert(is_input_signed(psbt@, signed@, all.take(k as int), i as int));
                assert(is_input_signed(psbt@, signed@, all.take(k + 1), i as int));
            }
            i = i + 1;
        }
        k = k + 1;
    }
    assert(all.take(owned@.len() as int) =~= all);
    proof {
        lemma_inputs_are_signed(psbt@, signed@, all);
    }
    Some(Ok(signed))
}

/// The messages that are signed commit to what the transaction says that it spends: where it says so of
/// every input, the outputs in the order of the inputs.
pub proof fn law_prevouts_are_those_of_the_inputs(psbt: Seq<u8>, outputs: Seq<TxOutView>)
    requires
        (psbt::psbt_parts(psbt)->0).witness_utxos == outputs.map_values(|o: TxOutView| Some(o)),
    ensures
        known_prevouts(psbt) == outputs,
{
    lemma_all_present(outputs);
}

proof fn lemma_all_present(outputs: Seq<TxOutView>)
    ensures
        views::present(outputs.map_values(|o: TxOutView| Some(o))) == outputs,
    decreases outputs.len(),
{
    let items = outputs.map_values(|o: TxOutView| Some(o));
    if outputs.len() > 0 {
        lemma_all_present(outputs.drop_last());
        assert(items.drop_last() =~= outputs.drop_last().map_values(|o: TxOutView| Some(o)));
        assert(outputs.drop_last().push(outputs.last()) =~= outputs);
    } else {
        assert(views::present(items) =~= outputs);
    }
}

/// Where one input spends one more output of the client, and no other input does, just that input is
/// signed after what was signed before: by the leaf of the output, for the transaction as it came.
pub proof fn law_one_more_output_is_signed_for(
    psbt: Seq<u8>,
    owned: Seq<OwnedOutputView>,
    output: OwnedOutputView,
    secret: Seq<u8>,
    index: int,
    so_far: Seq<u8>,
)
    requires
        0 <= index < (psbt::psbt_parts(psbt)->0).inputs.len(),
        output.outpoint == Some((psbt::psbt_parts(psbt)->0).inputs[index]),
        forall|i: int|
            0 <= i < (psbt::psbt_parts(psbt)->0).inputs.len() && i != index ==> output.outpoint
                != Some(#[trigger] (psbt::psbt_parts(psbt)->0).inputs[i]),
        sign_for_outputs(psbt, owned, secret) == Some(Ok::<Seq<u8>, Error>(so_far)),
    ensures
        sign_for_outputs(psbt, owned.push(output), secret) == sign_input(
            psbt,
            so_far,
            index,
            known_prevouts(psbt),
            output.path,
            secret,
        ),
{
    assert(owned.push(output).drop_last() =~= owned);
    assert forall|i: int| 0 <= i < spent_outpoints(psbt).len() && i != index implies output.outpoint
        != Some(#[trigger] spent_outpoints(psbt)[i]) by {
        assert(output.outpoint != Some((psbt::psbt_parts(psbt)->0).inputs[i]));
    }
    lemma_just_one(psbt, so_far, output, secret, index, spent_outpoints(psbt).len());
}

/// The first output that cannot be signed for decides: what comes after it changes nothing.
pub proof fn law_first_failure_to_sign_counts(
    psbt: Seq<u8>,
    owned: Seq<OwnedOutputView>,
    output: OwnedOutputView,
    secret: Seq<u8>,
)
    requires
        !(sign_for_outputs(psbt, owned, secret) matches Some(Ok(_))),
    ensures
        sign_for_outputs(psbt, owned.push(output), secret) == sign_for_outputs(psbt, owned, secret),
{
    assert(owned.push(output).drop_last() =~= owned);
}

/// An input is signed over the message of its own leaf, at its own place, by the key of the client; it
/// is an error just if the signature does not verify.
pub proof fn law_signature_is_for_the_message(
    psbt: Seq<u8>,
    bytes: Seq<u8>,
    index: int,
    prevouts: Seq<TxOutView>,
    path: SpendPathView,
    secret: Seq<u8>,
    leaf: Seq<u8>,
    message: Seq<u8>,
)
    requires
        taproot::tap_leaf_hash(path.script, path.leaf_version) == Some(leaf),
        taproot::script_spend_sighash(psbt, index, prevouts, leaf) == Some(message),
    ensures
        ({
            let key = (keys::keys_of_secret(secret)->0).1;
            let signature = keys::schnorr_signature(secret, message);
            if keys::schnorr_verifies(signature, message, key) {
                match psbt::psbt_with_script_spend(bytes, index, path, key, leaf, signature) {
                    Some(signed) => if psbt::psbt_parts(signed) is Some {
                        sign_input(psbt, bytes, index, prevouts, path, secret) == Some(
                            Ok::<Seq<u8>, Error>(signed),
                        )
                    } else {
                        sign_input(psbt, bytes, index, prevouts, path, secret) is None
                    },
                    None => sign_input(psbt, bytes, index, prevouts, path, secret) is None,
                }
            } else {
                sign_input(psbt, bytes, index, prevouts, path, secret) == Some(
                    Err::<Seq<u8>, Error>(Error::Unknown),
                )
            }
        }),
{
}

/// One more input is signed just if it spends the output of the client, at its own place and by the leaf
/// of the output. For an output that is nowhere, no input can be told from the others.
pub proof fn law_one_more_input_is_looked_at(
    psbt: Seq<u8>,
    bytes: Seq<u8>,
    owned: OwnedOutputView,
    secret: Seq<u8>,
    n: nat,
    so_far: Seq<u8>,
)
    requires
        n < (psbt::psbt_parts(psbt)->0).inputs.len(),
        sign_for_output(psbt, bytes, owned, secret, n) == Some(Ok::<Seq<u8>, Error>(so_far)),
    ensures
        owned.outpoint is None ==> sign_for_output(psbt, bytes, owned, secret, n + 1) is None,
        owned.outpoint == Some((psbt::psbt_parts(psbt)->0).inputs[n as int]) ==> sign_for_output(
            psbt,
            bytes,
            owned,
            secret,
            n + 1,
        ) == sign_input(psbt, so_far, n as int, known_prevouts(psbt), owned.path, secret),
        owned.outpoint is Some && owned.outpoint->0 != (psbt::psbt_parts(psbt)->0).inputs[n as int]
            ==> sign_for_output(psbt, bytes, owned, secret, n + 1) == Some(
            Ok::<Seq<u8>, Error>(so_far),
        ),
{
}

} // verus!

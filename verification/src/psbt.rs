//! Partially signed transactions.
//!
//! A [`Psbt`] is its encoding, together with the parts of it that the client reads. What is changed
//! in one is changed in the encoding, so that whatever else it carries stays as it was.

use std::collections::BTreeMap;

use bitcoin::consensus::deserialize;
use bitcoin::Transaction;
use vstd::prelude::*;

use crate::error;
use crate::error::Error;
use crate::tx::{OutPoint, OutPointView, TxOut, TxOutView, Txid};
use crate::views;
use crate::views::copy_bytes;

verus! {

/// The parts of a partially signed transaction that the client reads.
#[derive(Debug, Clone, PartialEq, Eq)]
pub struct PsbtParts {
    /// What the inputs of the unsigned transaction spend.
    pub inputs: Vec<OutPoint>,
    /// The outputs of the unsigned transaction.
    pub outputs: Vec<TxOut>,
    /// The spent outputs, as far as the inputs carry them.
    pub witness_utxos: Vec<Option<TxOut>>,
}

/// The value of a [`PsbtParts`].
pub struct PsbtPartsView {
    pub inputs: Seq<OutPointView>,
    pub outputs: Seq<TxOutView>,
    pub witness_utxos: Seq<Option<TxOutView>>,
}

impl View for PsbtParts {
    type V = PsbtPartsView;

    open spec fn view(&self) -> PsbtPartsView {
        PsbtPartsView {
            inputs: views::views(self.inputs@),
            outputs: views::views(self.outputs@),
            witness_utxos: Seq::new(
                self.witness_utxos@.len(),
                |i: int| views::option_view(self.witness_utxos@[i]),
            ),
        }
    }
}

impl PsbtParts {
    /// A copy.
    pub fn copy(&self) -> (copy: PsbtParts)
        ensures
            copy@ == self@,
    {
        let mut inputs: Vec<OutPoint> = Vec::new();
        let mut i: usize = 0;
        while i < self.inputs.len()
            invariant
                i <= self.inputs@.len(),
                inputs@ == self.inputs@.take(i as int),
            decreases self.inputs@.len() - i,
        {
            inputs.push(self.inputs[i]);
            i = i + 1;
            assert(inputs@ =~= self.inputs@.take(i as int));
        }
        let mut outputs: Vec<TxOut> = Vec::new();
        let mut j: usize = 0;
        while j < self.outputs.len()
            invariant
                j <= self.outputs@.len(),
                outputs@.len() == j,
                forall|k: int| 0 <= k < j ==> (#[trigger] outputs@[k])@ == self.outputs@[k]@,
            decreases self.outputs@.len() - j,
        {
            outputs.push(self.outputs[j].copy());
            j = j + 1;
        }
        let mut witness_utxos: Vec<Option<TxOut>> = Vec::new();
        let mut n: usize = 0;
        while n < self.witness_utxos.len()
            invariant
                n <= self.witness_utxos@.len(),
                witness_utxos@.len() == n,
                forall|k: int|
                    0 <= k < n ==> views::option_view(#[trigger] witness_utxos@[k])
                        == views::option_view(self.witness_utxos@[k]),
            decreases self.witness_utxos@.len() - n,
        {
            witness_utxos.push(
                match &self.witness_utxos[n] {
                    Some(utxo) => Some(utxo.copy()),
                    None => None,
                },
            );
            n = n + 1;
        }
        let copy = PsbtParts { inputs, outputs, witness_utxos };
        assert(copy@.inputs =~= self@.inputs);
        assert(copy@.outputs =~= self@.outputs);
        assert(copy@.witness_utxos =~= self@.witness_utxos);
        copy
    }
}

/// The taproot fields of an input, and what it is final with.
#[derive(Debug, Clone, PartialEq, Eq)]
pub struct TapInput {
    /// The signature for the key spend.
    pub key_sig: Option<Vec<u8>>,
    /// The leaf scripts, in the order of their control blocks.
    pub scripts: Vec<Vec<u8>>,
    /// The final script signature: empty where there is none.
    pub script_sig: Vec<u8>,
    /// The final witness: empty where there is none.
    pub witness: Vec<Vec<u8>>,
}

/// The value of a [`TapInput`].
pub struct TapInputView {
    pub key_sig: Option<Seq<u8>>,
    pub scripts: Seq<Seq<u8>>,
    pub script_sig: Seq<u8>,
    pub witness: Seq<Seq<u8>>,
}

impl View for TapInput {
    type V = TapInputView;

    open spec fn view(&self) -> TapInputView {
        TapInputView {
            key_sig: views::option_view(self.key_sig),
            scripts: views::views(self.scripts@),
            script_sig: self.script_sig@,
            witness: views::views(self.witness@),
        }
    }
}

/// What `Psbt::deserialize` reads from an encoding: nothing if it refuses it.
pub uninterp spec fn psbt_parts(bytes: Seq<u8>) -> Option<PsbtPartsView>;

/// The text of the error with which `Psbt::deserialize` refuses an encoding; nothing if it does not.
pub uninterp spec fn psbt_error(bytes: Seq<u8>) -> Seq<char>;

/// What `Psbt::serialize` makes of what `Psbt::deserialize` reads from an encoding.
pub uninterp spec fn psbt_encoding(bytes: Seq<u8>) -> Option<Seq<u8>>;

/// The taproot fields, the final script signature and the final witness of one input of an encoding,
/// if there is such an input.
pub uninterp spec fn psbt_tap_input(bytes: Seq<u8>, index: int) -> Option<TapInputView>;

/// The id of the unsigned transaction of an encoding.
pub uninterp spec fn psbt_txid(bytes: Seq<u8>) -> Seq<u8>;

/// The encoding of a fresh partially signed transaction.
pub uninterp spec fn psbt_of_unsigned(
    version: i32,
    lock_time: u32,
    inputs: Seq<OutPointView>,
    outputs: Seq<TxOutView>,
) -> Seq<u8>;

/// An encoding after the spent output of one input was filled in.
pub uninterp spec fn psbt_with_witness_utxo(bytes: Seq<u8>, index: int, utxo: TxOutView) -> Option<
    Seq<u8>,
>;

/// An encoding after the sighash type of one input was filled in.
pub uninterp spec fn psbt_with_sighash_type(bytes: Seq<u8>, index: int, sighash_type: u32) -> Option<
    Seq<u8>,
>;

/// An encoding after the script spend of one input was filled in.
pub uninterp spec fn psbt_with_script_spend(
    bytes: Seq<u8>,
    index: int,
    path: SpendPathView,
    key: Seq<u8>,
    leaf_hash: Seq<u8>,
    signature: Seq<u8>,
) -> Option<Seq<u8>>;

/// An encoding after the final witness of one input was made from its key spend signature.
pub uninterp spec fn psbt_with_key_spend(bytes: Seq<u8>, index: int, signature: Seq<u8>) -> Option<
    Seq<u8>,
>;

/// The fee that the transaction of an encoding pays, if it can be told.
pub uninterp spec fn psbt_fee(bytes: Seq<u8>) -> Option<u64>;

/// The final transaction of an encoding, if its fee is sane.
pub uninterp spec fn extracted_tx(bytes: Seq<u8>) -> Option<Seq<u8>>;

/// The id of an encoded transaction, what it spends and pays, and what its inputs are unlocked with.
pub uninterp spec fn tx_head(bytes: Seq<u8>) -> Option<TxHeadView>;

/// What the client reads of a final transaction.
#[derive(Debug, Clone, PartialEq, Eq)]
pub struct TxHead {
    pub txid: Txid,
    /// What the inputs spend.
    pub inputs: Vec<OutPoint>,
    /// What is paid.
    pub outputs: Vec<TxOut>,
    /// The script signatures of the inputs.
    pub script_sigs: Vec<Vec<u8>>,
    /// The witnesses of the inputs.
    pub witnesses: Vec<Vec<Vec<u8>>>,
}

/// The value of a [`TxHead`].
pub struct TxHeadView {
    pub txid: Seq<u8>,
    pub inputs: Seq<OutPointView>,
    pub outputs: Seq<TxOutView>,
    pub script_sigs: Seq<Seq<u8>>,
    pub witnesses: Seq<Seq<Seq<u8>>>,
}

impl View for TxHead {
    type V = TxHeadView;

    open spec fn view(&self) -> TxHeadView {
        TxHeadView {
            txid: self.txid@,
            inputs: views::views(self.inputs@),
            outputs: views::views(self.outputs@),
            script_sigs: views::views(self.script_sigs@),
            witnesses: views::views2(self.witnesses@),
        }
    }
}

/// The id of an encoded transaction.
pub open spec fn tx_txid(bytes: Seq<u8>) -> Option<Seq<u8>> {
    match tx_head(bytes) {
        Some(head) => Some(head.txid),
        None => None,
    }
}

/// A leaf of a taproot output: its script, the script's version, and the proof that it is a leaf.
#[derive(Debug, Clone, PartialEq, Eq)]
pub struct SpendPath {
    pub script: Vec<u8>,
    pub control_block: Vec<u8>,
    pub leaf_version: u8,
}

/// The value of a [`SpendPath`].
pub struct SpendPathView {
    pub script: Seq<u8>,
    pub control_block: Seq<u8>,
    pub leaf_version: u8,
}

impl View for SpendPath {
    type V = SpendPathView;

    open spec fn view(&self) -> SpendPathView {
        SpendPathView {
            script: self.script@,
            control_block: self.control_block@,
            leaf_version: self.leaf_version,
        }
    }
}

impl SpendPath {
    /// A copy of a path.
    pub fn copy(&self) -> (copy: SpendPath)
        ensures
            copy@ == self@,
    {
        SpendPath {
            script: copy_bytes(self.script.as_slice()),
            control_block: copy_bytes(self.control_block.as_slice()),
            leaf_version: self.leaf_version,
        }
    }
}

/// The outputs of a partially signed transaction.
pub open spec fn outputs_of(bytes: Seq<u8>) -> Seq<TxOutView> {
    (psbt_parts(bytes)->0).outputs
}

/// The parts of a partially signed transaction of which nothing but the unsigned transaction is
/// known.
pub open spec fn fresh_parts(inputs: Seq<OutPointView>, outputs: Seq<TxOutView>) -> PsbtPartsView {
    PsbtPartsView { inputs, outputs, witness_utxos: Seq::new(inputs.len(), |i: int| None) }
}

/// Parts after the spent output of one input was filled in.
pub open spec fn parts_with_utxo(parts: PsbtPartsView, index: int, utxo: TxOutView) -> PsbtPartsView {
    PsbtPartsView { witness_utxos: parts.witness_utxos.update(index, Some(utxo)), ..parts }
}

/// That an encoding can be read, and has an input with this number.
pub open spec fn has_input(bytes: Seq<u8>, index: int) -> bool {
    psbt_parts(bytes) matches Some(parts) && index < parts.inputs.len()
}

/// That an encoding is the one that is written for what is read from it.
pub open spec fn is_canonical(bytes: Seq<u8>) -> bool {
    psbt_encoding(bytes) == Some(bytes)
}

/// That an encoding was read and changed, and the changed one, where it can be read again, has these
/// parts, is of the same transaction, and is written the same way again.
pub open spec fn changed_to(before: Seq<u8>, after: Seq<u8>, parts: PsbtPartsView) -> bool {
    psbt_parts(before) is Some && (psbt_parts(after) is Some ==> psbt_parts(after) == Some(parts)
        && psbt_txid(after) == psbt_txid(before) && is_canonical(after))
}

/// That what an encoding holds of taproot was not changed by changing an input, where the changed one
/// can be read again, but perhaps in that input.
pub open spec fn keeps_taproot_but(before: Seq<u8>, after: Seq<u8>, index: int) -> bool {
    psbt_parts(after) is Some ==> forall|k: int|
        0 <= k && has_input(before, k) && k != index ==> #[trigger] psbt_tap_input(after, k)
            == psbt_tap_input(before, k)
}

/// The same, and not in that input either.
pub open spec fn keeps_taproot(before: Seq<u8>, after: Seq<u8>, index: int) -> bool {
    keeps_taproot_but(before, after, index) && (psbt_parts(after) is Some ==> psbt_tap_input(
        after,
        index,
    ) == psbt_tap_input(before, index))
}

/// An input that spends by one leaf.
pub open spec fn with_one_leaf(tap: TapInputView, script: Seq<u8>) -> TapInputView {
    TapInputView { scripts: seq![script], ..tap }
}

/// An input whose final witness is one signature.
pub open spec fn with_signature(tap: TapInputView, signature: Seq<u8>) -> TapInputView {
    TapInputView { witness: seq![signature], ..tap }
}

/// An input of which nothing is known.
pub open spec fn fresh_tap_input() -> TapInputView {
    TapInputView {
        key_sig: None,
        scripts: Seq::empty(),
        script_sig: Seq::empty(),
        witness: Seq::empty(),
    }
}

/// That a taproot signature is written in its own form: the default sighash type is left out, and any
/// other is the last byte.
pub open spec fn is_signature_form(signature: Seq<u8>) -> bool {
    signature.len() == 64 || (signature.len() == 65 && signature[64] != 0)
}

/// That no input of an encoding has a final script signature.
pub open spec fn has_no_script_sigs(bytes: Seq<u8>) -> bool {
    forall|k: int|
        0 <= k < (psbt_parts(bytes)->0).inputs.len() ==> (#[trigger] psbt_tap_input(
            bytes,
            k,
        )->0).script_sig.len() == 0
}

/// The final script signatures of the inputs of an encoding.
pub open spec fn script_sigs_of(bytes: Seq<u8>) -> Seq<Seq<u8>> {
    Seq::new((psbt_parts(bytes)->0).inputs.len(), |k: int| (psbt_tap_input(bytes, k)->0).script_sig)
}

/// The final witnesses of the inputs of an encoding.
pub open spec fn witnesses_of(bytes: Seq<u8>) -> Seq<Seq<Seq<u8>>> {
    Seq::new((psbt_parts(bytes)->0).inputs.len(), |k: int| (psbt_tap_input(bytes, k)->0).witness)
}

/// That a transaction is the unsigned one of an encoding, with what its inputs are final with: it
/// spends and pays the same. It has the same id if no input has a final script signature.
pub open spec fn is_extract(bytes: Seq<u8>, head: TxHeadView) -> bool {
    &&& head.inputs == (psbt_parts(bytes)->0).inputs
    &&& head.outputs == outputs_of(bytes)
    &&& head.script_sigs == script_sigs_of(bytes)
    &&& head.witnesses == witnesses_of(bytes)
    &&& has_no_script_sigs(bytes) ==> head.txid == psbt_txid(bytes)
}

/// `bitcoin::Psbt::deserialize`: reads an encoding, and hands out the outpoints that the unsigned
/// transaction spends, its outputs, and the `witness_utxo` of each input.
#[verifier::external_body]
fn read_parts(bytes: &[u8]) -> (parts: Option<PsbtParts>)
    ensures
        views::option_view(parts) == psbt_parts(bytes@),
{
    let psbt = bitcoin::Psbt::deserialize(bytes).ok()?;
    let out = |o: &bitcoin::TxOut| TxOut {
        value: o.value.to_sat(),
        script_pubkey: o.script_pubkey.to_bytes(),
    };
    Some(PsbtParts {
        inputs: psbt.unsigned_tx.input.iter().map(|i| OutPoint {
            txid: Txid { bytes: bitcoin::hashes::Hash::to_byte_array(i.previous_output.txid) },
            vout: i.previous_output.vout,
        }).collect(),
        outputs: psbt.unsigned_tx.output.iter().map(out).collect(),
        witness_utxos: psbt.inputs.iter().map(|i| i.witness_utxo.as_ref().map(out)).collect(),
    })
}

/// `bitcoin::Psbt::deserialize`: the text of its error, where it gives one.
#[verifier::external_body]
fn encoding_error(bytes: &[u8]) -> (text: String)
    ensures
        text@ == psbt_error(bytes@),
{
    match bitcoin::Psbt::deserialize(bytes) {
        Ok(_) => String::new(),
        Err(e) => e.to_string(),
    }
}

/// `bitcoin::Psbt::deserialize`, then `Psbt::serialize`: the encoding that is written for what was
/// read. Where it is not too long to be read again, the same is read from it, and it is written the
/// same way again.
#[verifier::external_body]
fn read_encoding(bytes: &[u8]) -> (encoding: Option<Vec<u8>>)
    ensures
        views::option_view(encoding) == psbt_encoding(bytes@),
        encoding is Some <==> psbt_parts(bytes@) is Some,
        encoding matches Some(e) ==> (psbt_parts(e@) is Some ==> psbt_parts(e@) == psbt_parts(bytes@)
            && psbt_txid(e@) == psbt_txid(bytes@) && is_canonical(e@)),
{
    Some(bitcoin::Psbt::deserialize(bytes).ok()?.serialize())
}

/// `bitcoin::Psbt::deserialize`: reads an encoding, and hands out the `tap_key_sig` of one input,
/// the scripts of its `tap_scripts`, its `final_script_sig` and its `final_script_witness`. There is
/// an input for each of the unsigned transaction, and a signature is written in its own form.
#[verifier::external_body]
fn read_tap_input(bytes: &[u8], index: usize) -> (tap: Option<TapInput>)
    ensures
        views::option_view(tap) == psbt_tap_input(bytes@, index as int),
        tap is Some <==> has_input(bytes@, index as int),
        tap matches Some(t) ==> (t@.key_sig matches Some(s) ==> is_signature_form(s)),
{
    let psbt = bitcoin::Psbt::deserialize(bytes).ok()?;
    let input = psbt.inputs.get(index)?;
    Some(TapInput {
        key_sig: input.tap_key_sig.map(|s| s.to_vec()),
        scripts: input.tap_scripts.values().map(|s| s.0.to_bytes()).collect(),
        script_sig: input.final_script_sig.clone().unwrap_or_default().into_bytes(),
        witness: input.final_script_witness.clone().unwrap_or_default().to_vec(),
    })
}

/// `bitcoin::Transaction::compute_txid` of the unsigned transaction of an encoding.
#[verifier::external_body]
fn read_txid(bytes: &[u8]) -> (txid: Txid)
    requires
        psbt_parts(bytes@) is Some,
    ensures
        txid@ == psbt_txid(bytes@),
{
    let psbt = bitcoin::Psbt::deserialize(bytes).expect("an encoding that was read before");
    Txid { bytes: bitcoin::hashes::Hash::to_byte_array(psbt.unsigned_tx.compute_txid()) }
}

/// `bitcoin::Psbt::from_unsigned_tx` of a transaction whose inputs have no scripts and the highest
/// sequence, as `TxIn::default` makes them, then `Psbt::serialize`. What is read back from the
/// encoding, where it is not too long to be read, is what it was made of and nothing else, and it is
/// written the same way again.
#[verifier::external_body]
fn unsigned_psbt(
    version: i32,
    lock_time: u32,
    inputs: &Vec<OutPoint>,
    outputs: &Vec<TxOut>,
) -> (bytes: Vec<u8>)
    ensures
        bytes@ == psbt_of_unsigned(version, lock_time, views::views(inputs@), views::views(outputs@)),
        psbt_parts(bytes@) is Some ==> psbt_parts(bytes@) == Some(
            fresh_parts(views::views(inputs@), views::views(outputs@)),
        ) && is_canonical(bytes@) && forall|k: int|
            0 <= k < inputs@.len() ==> #[trigger] psbt_tap_input(bytes@, k) == Some(
                fresh_tap_input(),
            ),
{
    bitcoin::Psbt::from_unsigned_tx(bitcoin::Transaction {
        version: bitcoin::transaction::Version(version),
        lock_time: bitcoin::absolute::LockTime::from_consensus(lock_time),
        input: inputs.iter().map(|i| bitcoin::TxIn {
            previous_output: bitcoin::OutPoint::new(bitcoin::hashes::Hash::from_byte_array(i.txid.bytes), i.vout),
            ..Default::default()
        }).collect(),
        output: outputs.iter().map(|o| bitcoin::TxOut {
            value: bitcoin::Amount::from_sat(o.value),
            script_pubkey: bitcoin::ScriptBuf::from(o.script_pubkey.clone()),
        }).collect(),
    }).expect("inputs without scripts").serialize()
}

/// Sets `witness_utxo` of one input: `bitcoin::Psbt::deserialize`, then `Psbt::serialize`. Of what
/// the client reads, nothing else changes.
#[verifier::external_body]
fn with_witness_utxo(bytes: &[u8], index: usize, utxo: &TxOut) -> (changed: Option<Vec<u8>>)
    ensures
        views::option_view(changed) == psbt_with_witness_utxo(bytes@, index as int, utxo@),
        changed is Some <==> has_input(bytes@, index as int),
        changed matches Some(c) ==> changed_to(
            bytes@,
            c@,
            parts_with_utxo(psbt_parts(bytes@)->0, index as int, utxo@),
        ) && keeps_taproot(bytes@, c@, index as int),
{
    let mut psbt = bitcoin::Psbt::deserialize(bytes).ok()?;
    psbt.inputs.get_mut(index)?.witness_utxo = Some(bitcoin::TxOut {
        value: bitcoin::Amount::from_sat(utxo.value),
        script_pubkey: bitcoin::ScriptBuf::from(utxo.script_pubkey.clone()),
    });
    Some(psbt.serialize())
}

/// Sets `sighash_type` of one input: `bitcoin::Psbt::deserialize`, then `Psbt::serialize`. What the
/// client reads stays as it is.
#[verifier::external_body]
fn with_sighash_type(bytes: &[u8], index: usize, sighash_type: u32) -> (changed: Option<
    Vec<u8>,
>)
    ensures
        views::option_view(changed) == psbt_with_sighash_type(bytes@, index as int, sighash_type),
        changed is Some <==> has_input(bytes@, index as int),
        changed matches Some(c) ==> changed_to(bytes@, c@, psbt_parts(bytes@)->0)
            && keeps_taproot(bytes@, c@, index as int),
{
    let mut psbt = bitcoin::Psbt::deserialize(bytes).ok()?;
    psbt.inputs.get_mut(index)?.sighash_type = Some(
        bitcoin::psbt::PsbtSighashType::from_u32(sighash_type),
    );
    Some(psbt.serialize())
}

/// Makes a leaf the only one in `tap_scripts` of one input, and a signature of the default sighash
/// type the only one in `tap_script_sigs`: `bitcoin::Psbt::deserialize`, then `Psbt::serialize`. Of
/// what the client reads, nothing else changes.
#[verifier::external_body]
fn with_script_spend(
    bytes: &[u8],
    index: usize,
    path: &SpendPath,
    key: &[u8; 32],
    leaf_hash: &[u8; 32],
    signature: &[u8; 64],
) -> (changed: Option<Vec<u8>>)
    ensures
        views::option_view(changed) == psbt_with_script_spend(
            bytes@,
            index as int,
            path@,
            key@,
            leaf_hash@,
            signature@,
        ),
        changed matches Some(c) ==> changed_to(bytes@, c@, psbt_parts(bytes@)->0)
            && keeps_taproot_but(bytes@, c@, index as int) && (psbt_parts(c@) is Some
            ==> psbt_tap_input(c@, index as int) == Some(
            with_one_leaf(psbt_tap_input(bytes@, index as int)->0, path@.script),
        )),
{
    let mut psbt = bitcoin::Psbt::deserialize(bytes).ok()?;
    let input = psbt.inputs.get_mut(index)?;
    let block = bitcoin::taproot::ControlBlock::decode(&path.control_block).ok()?;
    let version = bitcoin::taproot::LeafVersion::from_consensus(path.leaf_version).ok()?;
    let script = bitcoin::ScriptBuf::from(path.script.clone());
    let key = bitcoin::XOnlyPublicKey::from_slice(key).ok()?;
    let leaf: bitcoin::TapLeafHash = bitcoin::hashes::Hash::from_byte_array(*leaf_hash);
    let signature = bitcoin::taproot::Signature::from_slice(signature).ok()?;
    input.tap_scripts = BTreeMap::from_iter([(block, (script, version))]);
    input.tap_script_sigs = BTreeMap::from_iter([((key, leaf), signature)]);
    Some(psbt.serialize())
}

/// `bitcoin::Witness::p2tr_key_spend` of a signature, set as `final_script_witness` of one input:
/// `bitcoin::Psbt::deserialize`, then `Psbt::serialize`. A signature that is written in its own form is
/// the whole witness, and of what the client reads, nothing else changes.
#[verifier::external_body]
fn with_key_spend(bytes: &[u8], index: usize, signature: &[u8]) -> (changed: Option<Vec<u8>>)
    ensures
        views::option_view(changed) == psbt_with_key_spend(bytes@, index as int, signature@),
        changed matches Some(c) ==> changed_to(bytes@, c@, psbt_parts(bytes@)->0)
            && keeps_taproot_but(bytes@, c@, index as int) && (psbt_parts(c@) is Some
            && is_signature_form(signature@) ==> psbt_tap_input(c@, index as int) == Some(
            with_signature(psbt_tap_input(bytes@, index as int)->0, signature@),
        )),
{
    let mut psbt = bitcoin::Psbt::deserialize(bytes).ok()?;
    let signature = bitcoin::taproot::Signature::from_slice(signature).ok()?;
    psbt.inputs.get_mut(index)?.final_script_witness = Some(
        bitcoin::Witness::p2tr_key_spend(&signature),
    );
    Some(psbt.serialize())
}

/// `bitcoin::Psbt::fee`: what the inputs hold more than the outputs.
#[verifier::external_body]
fn read_fee(bytes: &[u8]) -> (fee: Option<u64>)
    ensures
        fee == psbt_fee(bytes@),
{
    bitcoin::Psbt::deserialize(bytes).ok()?.fee().ok().map(|f| f.to_sat())
}

/// `bitcoin::Psbt::extract_tx`, encoded by `bitcoin::consensus::serialize`: nothing if the fee rate
/// is absurd. The transaction, where it can be read again, is the unsigned one with the
/// `final_script_sig` and the `final_script_witness` of each input; it has the same id if no input has
/// a final script signature, for witnesses do not count.
#[verifier::external_body]
fn read_extracted(bytes: &[u8]) -> (tx: Option<Vec<u8>>)
    requires
        psbt_fee(bytes@) is Some,
    ensures
        views::option_view(tx) == extracted_tx(bytes@),
        tx matches Some(t) ==> (tx_head(t@) matches Some(head) ==> is_extract(bytes@, head)),
{
    let tx = bitcoin::Psbt::deserialize(bytes).ok()?.extract_tx().ok()?;
    Some(bitcoin::consensus::serialize(&tx))
}

/// `bitcoin::consensus::deserialize` of a transaction, its `compute_txid`, and its inputs and outputs.
#[verifier::external_body]
fn read_tx_head(bytes: &[u8]) -> (head: Option<TxHead>)
    ensures
        views::option_view(head) == tx_head(bytes@),
{
    let tx: Transaction = deserialize(bytes).ok()?;
    Some(TxHead {
        txid: Txid { bytes: bitcoin::hashes::Hash::to_byte_array(tx.compute_txid()) },
        inputs: tx.input.iter().map(|i| OutPoint {
            txid: Txid { bytes: bitcoin::hashes::Hash::to_byte_array(i.previous_output.txid) },
            vout: i.previous_output.vout,
        }).collect(),
        outputs: tx.output.iter().map(|o| TxOut {
            value: o.value.to_sat(),
            script_pubkey: o.script_pubkey.to_bytes(),
        }).collect(),
        script_sigs: tx.input.iter().map(|i| i.script_sig.to_bytes()).collect(),
        witnesses: tx.input.iter().map(|i| i.witness.to_vec()).collect(),
    })
}

impl TxHead {
    /// Reads an encoded transaction.
    pub fn read(bytes: &Vec<u8>) -> (head: Option<TxHead>)
        ensures
            views::option_view(head) == tx_head(bytes@),
    {
        read_tx_head(bytes.as_slice())
    }
}

/// The final transaction of an encoding: there is one if its fee can be told and is sane.
pub open spec fn final_tx(bytes: Seq<u8>) -> Option<Seq<u8>> {
    if psbt_fee(bytes) is Some {
        extracted_tx(bytes)
    } else {
        None
    }
}

/// An encoding, if it can be read.
pub open spec fn readable(bytes: Option<Seq<u8>>) -> Option<Seq<u8>> {
    match bytes {
        Some(b) => if psbt_parts(b) is Some {
            Some(b)
        } else {
            None
        },
        None => None,
    }
}

/// The partially signed transaction that an encoding stands for, by the encoding that is written for
/// it, or why there is none.
pub open spec fn read_psbt(bytes: Seq<u8>) -> Result<Seq<u8>, Seq<char>> {
    match psbt_encoding(bytes) {
        Some(encoding) => if psbt_parts(encoding) is Some {
            Ok(encoding)
        } else {
            Err(psbt_error(encoding))
        },
        None => Err(psbt_error(bytes)),
    }
}

/// A partially signed transaction.
#[derive(Debug, PartialEq, Eq)]
pub struct Psbt {
    bytes: Vec<u8>,
    parts: PsbtParts,
}

impl View for Psbt {
    type V = Seq<u8>;

    closed spec fn view(&self) -> Seq<u8> {
        self.bytes@
    }
}

impl Psbt {
    /// The encoding is the one that is written, and the parts are those of it.
    #[verifier::type_invariant]
    spec fn wf(self) -> bool {
        is_canonical(self.bytes@) && psbt_parts(self.bytes@) == Some(self.parts@)
    }

    /// Reads an encoding: it is a conversion error if it is none.
    pub fn deserialize(bytes: Vec<u8>) -> (psbt: Result<Psbt, Error>)
        ensures
            error::is_reading(psbt, read_psbt(bytes@)),
            psbt is Ok ==> psbt_parts(bytes@) is Some,
            psbt matches Ok(p) ==> psbt_parts(p@) == psbt_parts(bytes@) && psbt_txid(p@)
                == psbt_txid(bytes@),
    {
        match read_encoding(bytes.as_slice()) {
            Some(encoding) => match read_parts(encoding.as_slice()) {
                Some(parts) => Ok(Psbt { bytes: encoding, parts }),
                None => Err(Error::Conversion(encoding_error(encoding.as_slice()))),
            },
            None => Err(Error::Conversion(encoding_error(bytes.as_slice()))),
        }
    }

    /// Reads an encoding that was just written.
    fn reread(bytes: Vec<u8>) -> (psbt: Option<Psbt>)
        requires
            psbt_parts(bytes@) is Some ==> is_canonical(bytes@),
        ensures
            views::option_view(psbt) == readable(Some(bytes@)),
    {
        match read_parts(bytes.as_slice()) {
            Some(parts) => Some(Psbt { bytes, parts }),
            None => None,
        }
    }

    /// A fresh partially signed transaction, of an unsigned one whose inputs have the highest
    /// sequence: nothing if it is too long to be read again.
    pub fn from_unsigned(
        version: i32,
        lock_time: u32,
        inputs: &Vec<OutPoint>,
        outputs: &Vec<TxOut>,
    ) -> (psbt: Option<Psbt>)
        ensures
            views::option_view(psbt) == readable(
                Some(
                    psbt_of_unsigned(
                        version,
                        lock_time,
                        views::views(inputs@),
                        views::views(outputs@),
                    ),
                ),
            ),
            psbt matches Some(p) ==> psbt_parts(p@) == Some(
                fresh_parts(views::views(inputs@), views::views(outputs@)),
            ) && forall|k: int|
                0 <= k < inputs@.len() ==> #[trigger] psbt_tap_input(p@, k) == Some(
                    fresh_tap_input(),
                ),
    {
        Self::reread(unsigned_psbt(version, lock_time, inputs, outputs))
    }

    /// Fills in the spent output of an input: nothing if there is no such input, or the outcome is too
    /// long to be read again.
    pub fn with_witness_utxo(&self, index: usize, utxo: &TxOut) -> (psbt: Option<Psbt>)
        ensures
            views::option_view(psbt) == readable(
                psbt_with_witness_utxo(self@, index as int, utxo@),
            ),
            psbt matches Some(p) ==> psbt_parts(p@) == Some(
                parts_with_utxo(psbt_parts(self@)->0, index as int, utxo@),
            ) && psbt_txid(p@) == psbt_txid(self@) && keeps_taproot(self@, p@, index as int),
    {
        match with_witness_utxo(self.bytes.as_slice(), index, utxo) {
            Some(bytes) => Self::reread(bytes),
            None => None,
        }
    }

    /// Fills in the sighash type of an input: nothing if there is no such input, or the outcome is too
    /// long to be read again.
    pub fn with_sighash_type(&self, index: usize, sighash_type: u32) -> (psbt: Option<Psbt>)
        ensures
            views::option_view(psbt) == readable(
                psbt_with_sighash_type(self@, index as int, sighash_type),
            ),
            psbt matches Some(p) ==> psbt_parts(p@) == psbt_parts(self@) && psbt_txid(p@)
                == psbt_txid(self@) && keeps_taproot(self@, p@, index as int),
    {
        match with_sighash_type(self.bytes.as_slice(), index, sighash_type) {
            Some(bytes) => Self::reread(bytes),
            None => None,
        }
    }

    /// Fills in the script spend of an input: nothing if there is no such input, the leaf is
    /// malformed, or the outcome is too long to be read again.
    pub fn with_script_spend(
        &self,
        index: usize,
        path: &SpendPath,
        key: &[u8; 32],
        leaf_hash: &[u8; 32],
        signature: &[u8; 64],
    ) -> (psbt: Option<Psbt>)
        ensures
            views::option_view(psbt) == readable(
                psbt_with_script_spend(
                    self@,
                    index as int,
                    path@,
                    key@,
                    leaf_hash@,
                    signature@,
                ),
            ),
            psbt matches Some(p) ==> psbt_parts(p@) == psbt_parts(self@) && psbt_txid(p@)
                == psbt_txid(self@) && keeps_taproot_but(self@, p@, index as int)
                && psbt_tap_input(p@, index as int) == Some(
                with_one_leaf(psbt_tap_input(self@, index as int)->0, path@.script),
            ),
    {
        match with_script_spend(self.bytes.as_slice(), index, path, key, leaf_hash, signature) {
            Some(bytes) => Self::reread(bytes),
            None => None,
        }
    }

    /// Makes the signature of the key spend of an input its final witness: nothing if there is no such
    /// input, the signature is malformed, or the outcome is too long to be read again.
    pub fn with_key_spend(&self, index: usize, signature: &Vec<u8>) -> (psbt: Option<Psbt>)
        ensures
            views::option_view(psbt) == readable(
                psbt_with_key_spend(self@, index as int, signature@),
            ),
            psbt matches Some(p) ==> psbt_parts(p@) == psbt_parts(self@) && psbt_txid(p@)
                == psbt_txid(self@) && keeps_taproot_but(self@, p@, index as int) && (
            is_signature_form(signature@) ==> psbt_tap_input(p@, index as int) == Some(
                with_signature(psbt_tap_input(self@, index as int)->0, signature@),
            )),
    {
        match with_key_spend(self.bytes.as_slice(), index, signature.as_slice()) {
            Some(bytes) => Self::reread(bytes),
            None => None,
        }
    }

    /// Makes the final transaction: nothing if its fee cannot be told or is absurd. It is the unsigned
    /// one with what its inputs are final with.
    pub fn extract_tx(&self) -> (tx: Option<Vec<u8>>)
        ensures
            views::option_view(tx) == final_tx(self@),
            tx matches Some(t) ==> (tx_head(t@) matches Some(head) ==> is_extract(self@, head)),
    {
        match read_fee(self.bytes.as_slice()) {
            Some(_) => read_extracted(self.bytes.as_slice()),
            None => None,
        }
    }

    /// The encoding.
    pub fn serialize(&self) -> (bytes: &Vec<u8>)
        ensures
            bytes@ == self@,
            read_psbt(bytes@) == Ok::<Seq<u8>, Seq<char>>(bytes@),
    {
        proof {
            use_type_invariant(self);
        }
        &self.bytes
    }

    /// The parts that the client reads.
    pub fn parts(&self) -> (parts: &PsbtParts)
        ensures
            psbt_parts(self@) == Some(parts@),
    {
        proof {
            use_type_invariant(self);
        }
        &self.parts
    }

    /// The id of the unsigned transaction.
    pub fn txid(&self) -> (txid: Txid)
        ensures
            txid@ == psbt_txid(self@),
    {
        proof {
            use_type_invariant(self);
        }
        read_txid(self.bytes.as_slice())
    }

    /// The taproot fields of an input, and what it is final with.
    pub fn tap_input(&self, index: usize) -> (tap: Option<TapInput>)
        ensures
            views::option_view(tap) == psbt_tap_input(self@, index as int),
            tap is Some <==> has_input(self@, index as int),
            tap matches Some(t) ==> (t@.key_sig matches Some(s) ==> is_signature_form(s)),
    {
        read_tap_input(self.bytes.as_slice(), index)
    }

    /// A copy.
    pub fn copy(&self) -> (copy: Psbt)
        ensures
            copy@ == self@,
    {
        proof {
            use_type_invariant(self);
        }
        Psbt { bytes: copy_bytes(self.bytes.as_slice()), parts: self.parts.copy() }
    }
}

/// An encoding is read as the one that is written for it, if that one can be read in its turn; it is
/// refused for its own cause, or for that of the one that is written for it.
pub proof fn law_psbt_is_read_as_it_is_written(bytes: Seq<u8>, value: Seq<u8>)
    ensures
        read_psbt(bytes) == Ok::<Seq<u8>, Seq<char>>(value) <==> (psbt_encoding(bytes) == Some(value)
            && psbt_parts(value) is Some),
        psbt_encoding(bytes) is None ==> read_psbt(bytes) == Err::<Seq<u8>, Seq<char>>(
            psbt_error(bytes),
        ),
        psbt_encoding(bytes) == Some(value) && psbt_parts(value) is None ==> read_psbt(bytes) == Err::<
            Seq<u8>,
            Seq<char>,
        >(psbt_error(value)),
{
}

/// A final transaction is extracted just where the fee is known.
pub proof fn law_final_transaction_has_a_fee(bytes: Seq<u8>, tx: Seq<u8>)
    ensures
        final_tx(bytes) == Some(tx) <==> (psbt_fee(bytes) is Some && extracted_tx(bytes) == Some(tx)),
{
}

/// What can be read is handed on as it is, and nothing else is.
pub proof fn law_readable_is_handed_on(bytes: Option<Seq<u8>>, value: Seq<u8>)
    ensures
        readable(bytes) == Some(value) <==> (bytes == Some(value) && psbt_parts(value) is Some),
{
}

/// What is said of the outputs and of the inputs of an encoding is what was read there, each at its
/// place.
pub proof fn law_parts_are_those_that_were_read(bytes: Seq<u8>, parts: PsbtPartsView, i: int)
    requires
        psbt_parts(bytes) == Some(parts),
        0 <= i < parts.inputs.len(),
    ensures
        outputs_of(bytes) == parts.outputs,
        script_sigs_of(bytes).len() == parts.inputs.len(),
        witnesses_of(bytes).len() == parts.inputs.len(),
        psbt_tap_input(bytes, i) matches Some(tap) ==> script_sigs_of(bytes)[i] == tap.script_sig
            && witnesses_of(bytes)[i] == tap.witness,
{
}

/// The id of a transaction is the one that is read from it; there is none where it cannot be read.
pub proof fn law_txid_is_that_of_the_transaction(bytes: Seq<u8>)
    ensures
        match tx_head(bytes) {
            Some(head) => tx_txid(bytes) == Some(head.txid),
            None => tx_txid(bytes) is None,
        },
{
}

} // verus!

//! Taproot: leaf hashes, signature hashes, and outputs with a single leaf.

use bitcoin::secp256k1::{Parity, Secp256k1};
use bitcoin::taproot::{LeafVersion, TaprootBuilder};
use bitcoin::{ScriptBuf, XOnlyPublicKey};
use vstd::prelude::*;

use crate::psbt::{SpendPath, SpendPathView};
use crate::tx::{TxOut, TxOutView};
use crate::views;
use crate::views::{copy_bytes, same_bytes};

verus! {

/// What `TapLeafHash::from_script` gives for a script, if its version is a leaf version.
pub uninterp spec fn tap_leaf_hash(script: Seq<u8>, leaf_version: u8) -> Option<Seq<u8>>;

/// The message that a script spend of an input signs.
pub uninterp spec fn script_spend_sighash(
    psbt: Seq<u8>,
    index: int,
    prevouts: Seq<TxOutView>,
    leaf_hash: Seq<u8>,
) -> Option<Seq<u8>>;

/// The message that the key spend of an input signs.
pub uninterp spec fn key_spend_sighash(psbt: Seq<u8>, index: int, prevouts: Seq<TxOutView>) -> Option<
    Seq<u8>,
>;

/// Whether bytes are an x-only public key.
pub uninterp spec fn is_x_only(key: Seq<u8>) -> bool;

/// What `TaprootBuilder` makes of an internal key and a tree of one leaf.
pub uninterp spec fn single_leaf_output(
    script: Seq<u8>,
    leaf_version: u8,
    internal_key: Seq<u8>,
) -> SpendInfoView;

/// The numbers that are leaf versions: the even ones, but for that of the annex.
pub open spec fn is_leaf_version(version: u8) -> bool {
    version % 2 == 0 && version != 0x50
}

/// `bitcoin::taproot::LeafVersion::from_consensus` and `bitcoin::TapLeafHash::from_script`: there is
/// a hash for every leaf version.
#[verifier::external_body]
pub(crate) fn leaf_hash(script: &Vec<u8>, leaf_version: u8) -> (hash: Option<[u8; 32]>)
    ensures
        views::option_view(hash) == tap_leaf_hash(script@, leaf_version),
        hash is Some <==> is_leaf_version(leaf_version),
{
    let version = bitcoin::taproot::LeafVersion::from_consensus(leaf_version).ok()?;
    let hash = bitcoin::TapLeafHash::from_script(bitcoin::Script::from_bytes(script), version);
    Some(bitcoin::hashes::Hash::to_byte_array(hash))
}

/// `bitcoin::sighash::SighashCache::taproot_script_spend_signature_hash` of the unsigned
/// transaction of an encoding, with all spent outputs and the default sighash type. It fails just
/// where the number of spent outputs is not that of the inputs.
#[verifier::external_body]
pub(crate) fn script_sighash(
    psbt: &[u8],
    index: usize,
    prevouts: &Vec<TxOut>,
    leaf_hash: &[u8; 32],
) -> (message: Option<[u8; 32]>)
    ensures
        views::option_view(message) == script_spend_sighash(
            psbt@,
            index as int,
            views::views(prevouts@),
            leaf_hash@,
        ),
        crate::psbt::psbt_parts(psbt@) matches Some(parts) ==> (message is Some
            <==> prevouts@.len() == parts.inputs.len()),
{
    let psbt = bitcoin::Psbt::deserialize(psbt).ok()?;
    let prevouts: Vec<bitcoin::TxOut> = prevouts.iter().map(|o| bitcoin::TxOut {
        value: bitcoin::Amount::from_sat(o.value),
        script_pubkey: bitcoin::ScriptBuf::from(o.script_pubkey.clone()),
    }).collect();
    let leaf: bitcoin::TapLeafHash = bitcoin::hashes::Hash::from_byte_array(*leaf_hash);
    let all = bitcoin::sighash::Prevouts::All(&prevouts);
    let kind = bitcoin::TapSighashType::Default;
    let hash = bitcoin::sighash::SighashCache::new(&psbt.unsigned_tx)
        .taproot_script_spend_signature_hash(index, &all, leaf, kind).ok()?;
    Some(bitcoin::hashes::Hash::to_byte_array(hash))
}

/// `bitcoin::sighash::SighashCache::taproot_key_spend_signature_hash` of the unsigned transaction
/// of an encoding, with all spent outputs and the default sighash type. It fails just where the
/// number of spent outputs is not that of the inputs.
#[verifier::external_body]
pub(crate) fn key_sighash(psbt: &[u8], index: usize, prevouts: &Vec<TxOut>) -> (message: Option<
    [u8; 32],
>)
    ensures
        views::option_view(message) == key_spend_sighash(psbt@, index as int, views::views(prevouts@)),
        crate::psbt::psbt_parts(psbt@) matches Some(parts) ==> (message is Some
            <==> prevouts@.len() == parts.inputs.len()),
{
    let psbt = bitcoin::Psbt::deserialize(psbt).ok()?;
    let prevouts: Vec<bitcoin::TxOut> = prevouts.iter().map(|o| bitcoin::TxOut {
        value: bitcoin::Amount::from_sat(o.value),
        script_pubkey: bitcoin::ScriptBuf::from(o.script_pubkey.clone()),
    }).collect();
    let all = bitcoin::sighash::Prevouts::All(&prevouts);
    let hash = bitcoin::sighash::SighashCache::new(&psbt.unsigned_tx)
        .taproot_key_spend_signature_hash(index, &all, bitcoin::TapSighashType::Default).ok()?;
    Some(bitcoin::hashes::Hash::to_byte_array(hash))
}

/// How a taproot output with one leaf is spent.
#[derive(Debug, Clone, PartialEq, Eq)]
pub struct SpendInfo {
    /// The key before it was tweaked.
    pub internal_key: [u8; 32],
    /// The root of the tree of leaves.
    pub merkle_root: [u8; 32],
    /// What the internal key is tweaked by.
    pub tap_tweak: [u8; 32],
    /// The key of the output.
    pub output_key: [u8; 32],
    /// Whether the point of the output key has an odd second coordinate.
    pub output_key_odd: bool,
    /// The leaf, and the proof that it is one.
    pub leaf: SpendPath,
}

/// The value of a [`SpendInfo`].
pub struct SpendInfoView {
    pub internal_key: Seq<u8>,
    pub merkle_root: Seq<u8>,
    pub tap_tweak: Seq<u8>,
    pub output_key: Seq<u8>,
    pub output_key_odd: bool,
    pub leaf: SpendPathView,
}

impl View for SpendInfo {
    type V = SpendInfoView;

    open spec fn view(&self) -> SpendInfoView {
        SpendInfoView {
            internal_key: self.internal_key@,
            merkle_root: self.merkle_root@,
            tap_tweak: self.tap_tweak@,
            output_key: self.output_key@,
            output_key_odd: self.output_key_odd,
            leaf: self.leaf@,
        }
    }
}

/// The proof that the only leaf of a tree is one: the leaf version with the parity of the output key
/// in its lowest bit, and the internal key. There are no other leaves to prove anything of.
pub open spec fn only_leaf_control_block(leaf_version: u8, odd: bool, internal_key: Seq<u8>) -> Seq<u8> {
    seq![
        if odd {
            (leaf_version + 1) as u8
        } else {
            leaf_version
        },
    ] + internal_key
}

/// That an output has one leaf: the internal key is this one, the root is the hash of the leaf, and
/// its control block has an empty branch.
pub open spec fn has_only_leaf(
    info: SpendInfoView,
    script: Seq<u8>,
    leaf_version: u8,
    internal_key: Seq<u8>,
) -> bool {
    &&& info.internal_key == internal_key
    &&& tap_leaf_hash(script, leaf_version) == Some(info.merkle_root)
    &&& info.leaf == (SpendPathView {
        script,
        control_block: only_leaf_control_block(
            leaf_version,
            info.output_key_odd,
            internal_key,
        ),
        leaf_version,
    })
}

/// The control block of a script in a tree with one leaf: there is one just for the leaf.
pub open spec fn control_block_in(info: SpendInfoView, script: Seq<u8>, leaf_version: u8) -> Option<
    Seq<u8>,
> {
    if script == info.leaf.script && leaf_version == info.leaf.leaf_version {
        Some(info.leaf.control_block)
    } else {
        None
    }
}

impl SpendInfo {
    /// The control block of a script: there is one just for the leaf.
    pub fn control_block(&self, script: &Vec<u8>, leaf_version: u8) -> (block: Option<Vec<u8>>)
        ensures
            views::option_view(block) == control_block_in(self@, script@, leaf_version),
    {
        if leaf_version == self.leaf.leaf_version && same_bytes(
            script.as_slice(),
            self.leaf.script.as_slice(),
        ) {
            Some(copy_bytes(self.leaf.control_block.as_slice()))
        } else {
            None
        }
    }
}

/// `bitcoin::XOnlyPublicKey::from_slice`.
#[verifier::external_body]
pub(crate) fn check_x_only(key: &[u8; 32]) -> (valid: bool)
    ensures
        valid == is_x_only(key@),
{
    bitcoin::XOnlyPublicKey::from_slice(key).is_ok()
}

/// `bitcoin::taproot::TaprootBuilder` with one leaf at depth zero, finalized with an internal key, and
/// `TaprootSpendInfo::control_block` of the leaf. The internal key is the given one, the root is the
/// hash of the leaf, and the control block holds no branch.
#[verifier::external_body]
pub(crate) fn single_leaf_spend_info(
    script: &Vec<u8>,
    leaf_version: u8,
    internal_key: &[u8; 32],
) -> (info: SpendInfo)
    requires
        is_leaf_version(leaf_version),
        is_x_only(internal_key@),
    ensures
        info@ == single_leaf_output(script@, leaf_version, internal_key@),
        has_only_leaf(info@, script@, leaf_version, internal_key@),
{
    let key = XOnlyPublicKey::from_slice(internal_key).expect("an x-only key");
    let version = LeafVersion::from_consensus(leaf_version).expect("a version");
    let leaf = (ScriptBuf::from(script.clone()), version);
    let info = TaprootBuilder::new().add_leaf_with_ver(0, leaf.0.clone(), version).expect("one leaf")
        .finalize(&Secp256k1::verification_only(), key).expect("a whole tree");
    let control_block = info.control_block(&leaf).expect("the leaf").serialize();
    SpendInfo {
        internal_key: key.serialize(),
        merkle_root: bitcoin::hashes::Hash::to_byte_array(info.merkle_root().expect("a root")),
        tap_tweak: info.tap_tweak().to_scalar().to_be_bytes(),
        output_key: info.output_key().serialize(),
        output_key_odd: info.output_key_parity() == Parity::Odd,
        leaf: SpendPath { script: script.clone(), control_block, leaf_version },
    }
}

/// The control block of the only leaf is the leaf version with the parity of the output key in its lowest
/// bit, then the internal key, and no more.
pub proof fn law_control_block_tells_version_and_parity(
    leaf_version: u8,
    odd: bool,
    internal_key: Seq<u8>,
)
    requires
        leaf_version & 1 == 0,
    ensures
        ({
            let block = only_leaf_control_block(leaf_version, odd, internal_key);
            &&& block.len() == internal_key.len() + 1
            &&& block[0] & 0xfe == leaf_version
            &&& (block[0] & 1 == 1) == odd
            &&& block.skip(1) == internal_key
        }),
{
    let block = only_leaf_control_block(leaf_version, odd, internal_key);
    assert(block.skip(1) =~= internal_key);
    assert(leaf_version & 1 == 0 ==> leaf_version & 0xfe == leaf_version && leaf_version < 255) by (
    bit_vector);
    let next: u8 = (leaf_version + 1) as u8;
    assert(leaf_version & 1 == 0 && next == leaf_version + 1 ==> next & 0xfe == leaf_version && next & 1
        == 1) by (bit_vector);
}

/// A control block is handed out for the leaf of an output, and for nothing else.
pub proof fn law_control_block_is_for_the_leaf(
    info: SpendInfoView,
    script: Seq<u8>,
    leaf_version: u8,
)
    ensures
        match control_block_in(info, script, leaf_version) {
            Some(block) => script == info.leaf.script && leaf_version == info.leaf.leaf_version
                && block == info.leaf.control_block,
            None => script != info.leaf.script || leaf_version != info.leaf.leaf_version,
        },
{
}

} // verus!

use ark_client::error::Error;
use ark_client::forfeit::{create_and_sign_forfeit_txs, find_connectors, sign_forfeit, VtxoInput};
use ark_client::keys::Keypair;
use ark_client::psbt::{Psbt, SpendPath, TxHead};
use ark_client::server::{Info, Network, VtxoOutPoint};
use ark_client::signing::{prevouts_of, sign_owned_inputs, OwnedOutput};
use ark_client::tx::{OutPoint, TxOut, Txid};
use ark_client::vtxo::DefaultVtxo;
use bitcoin::secp256k1::{Message, Secp256k1};
use bitcoin::sighash::{Prevouts, SighashCache};
use bitcoin::taproot::{LeafVersion, TaprootBuilder};
use bitcoin::{Amount, ScriptBuf, TapLeafHash, TapSighashType};

const FORFEIT_ADDRESS: &str = "bcrt1qw508d6qejxtdg4y5r3zarvary0c5xw7kygt080";

fn pair() -> Keypair {
    Keypair::from_secret([0x21; 32]).unwrap()
}

fn script() -> ScriptBuf {
    let key = bitcoin::XOnlyPublicKey::from_slice(&pair().x_only_public_key()).unwrap();
    bitcoin::script::Builder::new()
        .push_x_only_key(&key)
        .push_opcode(bitcoin::opcodes::all::OP_CHECKSIG)
        .into_script()
}

fn path() -> SpendPath {
    let secp = Secp256k1::new();
    let key = bitcoin::XOnlyPublicKey::from_slice(&pair().x_only_public_key()).unwrap();
    let info = TaprootBuilder::new().add_leaf(0, script()).unwrap().finalize(&secp, key).unwrap();
    let block = info.control_block(&(script(), LeafVersion::TapScript)).unwrap();
    SpendPath {
        script: script().into_bytes(),
        control_block: block.serialize(),
        leaf_version: LeafVersion::TapScript.to_consensus(),
    }
}

fn outpoint(seed: u8, vout: u32) -> OutPoint {
    OutPoint { txid: Txid { bytes: [seed; 32] }, vout }
}

fn theirs(o: OutPoint) -> bitcoin::OutPoint {
    bitcoin::OutPoint::new(bitcoin::hashes::Hash::from_byte_array(o.txid.bytes), o.vout)
}

fn output(value: u64, script: Vec<u8>) -> bitcoin::TxOut {
    bitcoin::TxOut { value: Amount::from_sat(value), script_pubkey: ScriptBuf::from(script) }
}

fn unsigned(inputs: &[OutPoint], outputs: Vec<bitcoin::TxOut>) -> bitcoin::Psbt {
    bitcoin::Psbt::from_unsigned_tx(bitcoin::Transaction {
        version: bitcoin::transaction::Version::TWO,
        lock_time: bitcoin::absolute::LockTime::ZERO,
        input: inputs
            .iter()
            .map(|o| bitcoin::TxIn { previous_output: theirs(*o), ..Default::default() })
            .collect(),
        output: outputs,
    })
    .unwrap()
}

fn ours(psbt: &bitcoin::Psbt) -> Psbt {
    Psbt::deserialize(psbt.serialize()).unwrap()
}

fn round_psbt() -> bitcoin::Psbt {
    let mut psbt = unsigned(
        &[outpoint(1, 0), outpoint(2, 1), outpoint(3, 2)],
        vec![output(2_500, vec![0x51])],
    );
    for (i, input) in psbt.inputs.iter_mut().enumerate() {
        input.witness_utxo = Some(output(1_000 + i as u64, vec![0x52, i as u8]));
    }
    psbt
}

fn check_signature(signed: &bitcoin::Psbt, index: usize) {
    let secp = Secp256k1::new();
    let leaf = TapLeafHash::from_script(&script(), LeafVersion::TapScript);
    let key = bitcoin::XOnlyPublicKey::from_slice(&pair().x_only_public_key()).unwrap();
    let prevouts: Vec<bitcoin::TxOut> =
        signed.inputs.iter().filter_map(|i| i.witness_utxo.clone()).collect();
    let hash = SighashCache::new(&signed.unsigned_tx)
        .taproot_script_spend_signature_hash(
            index,
            &Prevouts::All(&prevouts),
            leaf,
            TapSighashType::Default,
        )
        .unwrap();
    let message = Message::from_digest(bitcoin::hashes::Hash::to_byte_array(hash));
    let input = &signed.inputs[index];
    assert_eq!(input.tap_script_sigs.len(), 1);
    let signature = input.tap_script_sigs[&(key, leaf)];
    assert_eq!(signature.sighash_type, TapSighashType::Default);
    secp.verify_schnorr(&signature.signature, &message, &key).unwrap();
    assert_eq!(input.tap_scripts.len(), 1);
    let (block, (leaf_script, version)) = input.tap_scripts.iter().next().unwrap();
    assert_eq!(block.serialize(), path().control_block);
    assert_eq!(*leaf_script, script());
    assert_eq!(*version, LeafVersion::TapScript);
}

fn vtxo() -> DefaultVtxo {
    DefaultVtxo {
        output_key: [4; 32],
        script_pubkey: vec![0x51, 0x20, 4],
        ark_descriptor: "tr(vtxo)".to_string(),
        forfeit: path(),
    }
}

fn input(seed: u8, amount: u64) -> VtxoInput {
    VtxoInput {
        outpoint: VtxoOutPoint {
            outpoint: Some(outpoint(seed, 0)),
            amount,
            round_txid: "round".to_string(),
            redeem_tx: String::new(),
        },
        vtxo: vtxo(),
    }
}

fn info() -> Info {
    Info {
        pubkey: String::new(),
        round_lifetime: 512,
        unilateral_exit_delay: 512,
        network: Network::Regtest,
        dust: 450,
        boarding_descriptor_template: String::new(),
        forfeit_address: FORFEIT_ADDRESS.to_string(),
    }
}

fn connector_psbts() -> Vec<bitcoin::Psbt> {
    vec![
        unsigned(
            &[outpoint(8, 0)],
            vec![output(450, vec![0x53]), output(9_000, vec![0x54]), output(450, vec![0x55])],
        ),
        unsigned(&[outpoint(9, 0)], vec![output(451, vec![0x56])]),
        unsigned(&[outpoint(10, 0)], vec![output(450, vec![0x57])]),
    ]
}

#[test]
fn only_psbts_are_read() {
    for bytes in [vec![], b"psbt\xff".to_vec()] {
        let cause = bitcoin::Psbt::deserialize(&bytes).unwrap_err().to_string();
        assert_eq!(Psbt::deserialize(bytes), Err(Error::Conversion(cause)));
    }
    let theirs = round_psbt();
    let psbt = ours(&theirs);
    assert_eq!(*psbt.serialize(), theirs.serialize());
    assert_eq!(psbt.parts().inputs, vec![outpoint(1, 0), outpoint(2, 1), outpoint(3, 2)]);
    assert_eq!(psbt.parts().outputs, vec![TxOut { value: 2_500, script_pubkey: vec![0x51] }]);
    assert_eq!(
        psbt.parts().witness_utxos[1],
        Some(TxOut { value: 1_001, script_pubkey: vec![0x52, 1] })
    );
    assert_eq!(
        psbt.txid().bytes,
        bitcoin::hashes::Hash::to_byte_array(theirs.unsigned_tx.compute_txid())
    );
    assert_eq!(*psbt.copy().serialize(), theirs.serialize());
}

#[test]
fn psbts_are_written_as_bitcoin_writes_them() {
    let theirs = round_psbt();
    let mut longer = theirs.serialize();
    longer.extend([1, 2, 3]);
    let reread = bitcoin::Psbt::deserialize(&longer).ok().map(|p| p.serialize());
    assert_eq!(Psbt::deserialize(longer).ok().map(|p| p.serialize().clone()), reread);
    let mut shorter = theirs.serialize();
    shorter.pop();
    assert!(bitcoin::Psbt::deserialize(&shorter).is_err());
    assert!(Psbt::deserialize(shorter).is_err());
}

#[test]
fn taproot_fields_are_read() {
    let mut theirs = round_psbt();
    let signature = bitcoin::taproot::Signature::from_slice(&[0x11; 64]).unwrap();
    theirs.inputs[1].tap_key_sig = Some(signature);
    theirs.inputs[2].final_script_sig = Some(ScriptBuf::from(vec![0x51, 0x52]));
    theirs.inputs[0].final_script_witness = Some(bitcoin::Witness::from_slice(&[vec![7], vec![]]));
    let psbt = ours(&theirs);
    assert!(psbt.tap_input(1).unwrap().script_sig.is_empty());
    assert!(psbt.tap_input(1).unwrap().witness.is_empty());
    assert_eq!(psbt.tap_input(0).unwrap().witness, vec![vec![7], vec![]]);
    assert_eq!(psbt.tap_input(2).unwrap().script_sig, vec![0x51, 0x52]);
    assert_eq!(psbt.tap_input(0).unwrap().key_sig, None);
    assert_eq!(psbt.tap_input(1).unwrap().key_sig, Some(vec![0x11; 64]));
    assert!(psbt.tap_input(1).unwrap().scripts.is_empty());
    assert!(psbt.tap_input(3).is_none());
}

#[test]
fn known_prevouts_are_gathered() {
    let mut theirs = round_psbt();
    theirs.inputs[1].witness_utxo = None;
    let values: Vec<u64> = prevouts_of(&ours(&theirs)).iter().map(|o| o.value).collect();
    assert_eq!(values, vec![1_000, 1_002]);
}

#[test]
fn owned_inputs_are_signed() {
    let owned = vec![
        OwnedOutput { outpoint: Some(outpoint(3, 2)), path: path() },
        OwnedOutput { outpoint: Some(outpoint(1, 0)), path: path() },
        OwnedOutput { outpoint: Some(outpoint(2, 7)), path: path() },
    ];
    let before = round_psbt();
    let psbt = sign_owned_inputs(&ours(&before), &owned, &pair()).unwrap().unwrap();
    let signed = bitcoin::Psbt::deserialize(psbt.serialize()).unwrap();
    assert_eq!(signed.unsigned_tx, before.unsigned_tx);
    check_signature(&signed, 0);
    check_signature(&signed, 2);
    assert_eq!(signed.inputs[1], before.inputs[1]);
}

#[test]
fn a_foreign_transaction_is_left_as_it_is() {
    let owned = vec![OwnedOutput { outpoint: Some(outpoint(6, 6)), path: path() }];
    let psbt = ours(&round_psbt());
    assert_eq!(sign_owned_inputs(&psbt, &owned, &pair()), Some(Ok(psbt.copy())));
    assert_eq!(sign_owned_inputs(&psbt, &vec![], &pair()), Some(Ok(psbt.copy())));
}

#[test]
fn signing_needs_every_prevout() {
    let mut theirs = round_psbt();
    theirs.inputs[1].witness_utxo = None;
    let owned = vec![OwnedOutput { outpoint: Some(outpoint(1, 0)), path: path() }];
    assert_eq!(sign_owned_inputs(&ours(&theirs), &owned, &pair()), None);
}

#[test]
fn signing_needs_a_place_and_a_leaf() {
    let psbt = ours(&round_psbt());
    let nowhere = vec![OwnedOutput { outpoint: None, path: path() }];
    assert_eq!(sign_owned_inputs(&psbt, &nowhere, &pair()), None);
    let mut bad = path();
    bad.leaf_version = 0xc1;
    let owned = vec![OwnedOutput { outpoint: Some(outpoint(1, 0)), path: bad }];
    assert_eq!(sign_owned_inputs(&psbt, &owned, &pair()), None);
    let mut bad = path();
    bad.control_block.pop();
    let owned = vec![OwnedOutput { outpoint: Some(outpoint(1, 0)), path: bad }];
    assert_eq!(sign_owned_inputs(&psbt, &owned, &pair()), None);
}

#[test]
fn connectors_are_the_dust_outputs() {
    let psbts: Vec<Psbt> = connector_psbts().iter().map(ours).collect();
    let found = find_connectors(&psbts, 450);
    assert_eq!(found.len(), 3);
    assert_eq!(found[0].outpoint, OutPoint { txid: psbts[0].txid(), vout: 0 });
    assert_eq!(found[1].outpoint, OutPoint { txid: psbts[0].txid(), vout: 2 });
    assert_eq!(found[2].outpoint, OutPoint { txid: psbts[2].txid(), vout: 0 });
    assert_eq!(found[1].output, TxOut { value: 450, script_pubkey: vec![0x55] });
    assert!(find_connectors(&psbts, 449).is_empty());
}

#[test]
fn every_vtxo_is_forfeited_against_every_connector() {
    let psbts: Vec<Psbt> = connector_psbts().iter().map(ours).collect();
    let connectors = find_connectors(&psbts, 450);
    let vtxos = vec![input(20, 10_000), input(21, 20_000)];
    let txs = create_and_sign_forfeit_txs(&info(), &vtxos, &psbts, &vec![100, 200], &pair())
        .unwrap()
        .unwrap();
    assert_eq!(txs.len(), 6);
    for (v, paid) in [(0, 10_350), (1, 20_250)] {
        for c in 0..3 {
            let tx = bitcoin::Psbt::deserialize(txs[v * 3 + c].serialize()).unwrap();
            let unsigned_tx = &tx.unsigned_tx;
            assert_eq!(unsigned_tx.version, bitcoin::transaction::Version::TWO);
            assert_eq!(unsigned_tx.lock_time, bitcoin::absolute::LockTime::ZERO);
            assert_eq!(unsigned_tx.input.len(), 2);
            assert_eq!(unsigned_tx.input[0].previous_output, theirs(connectors[c].outpoint));
            assert_eq!(
                unsigned_tx.input[1].previous_output,
                theirs(vtxos[v].outpoint.outpoint.unwrap())
            );
            assert_eq!(unsigned_tx.input[0].sequence, bitcoin::Sequence::MAX);
            assert_eq!(unsigned_tx.output.len(), 1);
            assert_eq!(unsigned_tx.output[0].value.to_sat(), paid);
            assert_eq!(
                unsigned_tx.output[0].script_pubkey.to_hex_string(),
                "0014751e76e8199196d454941c45d1b3a323f1433bd6"
            );
            assert_eq!(tx.inputs[0].witness_utxo.as_ref().unwrap().value.to_sat(), 450);
            let spent = tx.inputs[1].witness_utxo.as_ref().unwrap();
            assert_eq!(spent.value.to_sat(), vtxos[v].outpoint.amount);
            assert_eq!(spent.script_pubkey.to_bytes(), vtxo().script_pubkey);
            assert_eq!(tx.inputs[1].sighash_type, Some(TapSighashType::Default.into()));
            assert_eq!(tx.inputs[0].sighash_type, None);
            check_signature(&tx, 1);
        }
    }
}

#[test]
fn forfeits_need_an_address_of_the_network() {
    let psbts: Vec<Psbt> = connector_psbts().iter().map(ours).collect();
    let mut bad = info();
    bad.forfeit_address = "no address".to_string();
    assert_eq!(create_and_sign_forfeit_txs(&bad, &vec![], &psbts, &vec![], &pair()), None);
    let mut bad = info();
    bad.network = Network::Bitcoin;
    assert_eq!(create_and_sign_forfeit_txs(&bad, &vec![], &psbts, &vec![], &pair()), None);
    assert_eq!(
        create_and_sign_forfeit_txs(&info(), &vec![], &psbts, &vec![], &pair()),
        Some(Ok(vec![]))
    );
}

#[test]
fn forfeits_cover_their_fee() {
    let psbts: Vec<Psbt> = connector_psbts().iter().map(ours).collect();
    let make = |amount: u64, fee: u64| {
        create_and_sign_forfeit_txs(&info(), &vec![input(20, amount)], &psbts, &vec![fee], &pair())
    };
    assert!(matches!(make(1_000, 1_450), Some(Ok(txs)) if txs.len() == 3));
    assert_eq!(make(1_000, 1_451), None);
    assert_eq!(make(u64::MAX, 0), None);
}

#[test]
fn forfeits_need_a_place_if_there_is_a_connector() {
    let psbts: Vec<Psbt> = connector_psbts().iter().map(ours).collect();
    let mut nowhere = input(20, 1_000);
    nowhere.outpoint.outpoint = None;
    let vtxos = vec![nowhere];
    assert_eq!(create_and_sign_forfeit_txs(&info(), &vtxos, &psbts, &vec![0], &pair()), None);
    assert_eq!(
        create_and_sign_forfeit_txs(&info(), &vtxos, &vec![], &vec![0], &pair()),
        Some(Ok(vec![]))
    );
}

#[test]
fn one_forfeit_spends_both() {
    let psbts: Vec<Psbt> = connector_psbts().iter().map(ours).collect();
    let connector = &find_connectors(&psbts, 450)[0];
    let paid = TxOut { value: 77, script_pubkey: vec![0x51] };
    let forfeit = sign_forfeit(&input(20, 1_000), connector, &paid, &pair()).unwrap().unwrap();
    assert_eq!(forfeit.parts().inputs, vec![connector.outpoint, outpoint(20, 0)]);
    assert_eq!(forfeit.parts().outputs, vec![paid]);
}

#[test]
fn transactions_are_extracted_if_their_fee_is_sane() {
    let mut psbt = unsigned(&[outpoint(1, 0)], vec![output(900, vec![0x51])]);
    assert_eq!(ours(&psbt).extract_tx(), None);
    psbt.inputs[0].witness_utxo = Some(output(1_000, vec![0x52]));
    let expected = psbt.clone().extract_tx().unwrap();
    assert_eq!(ours(&psbt).extract_tx(), Some(bitcoin::consensus::serialize(&expected)));
    psbt.inputs[0].witness_utxo = Some(output(899, vec![0x52]));
    assert_eq!(ours(&psbt).extract_tx(), None);
    psbt.inputs[0].witness_utxo = Some(output(100_000_000_000, vec![0x52]));
    assert_eq!(ours(&psbt).extract_tx(), None);
}

#[test]
fn a_signature_becomes_the_witness() {
    let psbt = ours(&round_psbt());
    for signature in [vec![0x11; 64], [vec![0x11; 64], vec![0x83]].concat()] {
        let signed = psbt.with_key_spend(1, &signature).unwrap();
        assert_eq!(signed.tap_input(1).unwrap().witness, vec![signature.clone()]);
        assert!(signed.tap_input(0).unwrap().witness.is_empty());
        assert_eq!(signed.parts(), psbt.parts());
    }
    // The default sighash type is left out.
    let long = [vec![0x11; 64], vec![0]].concat();
    let signed = psbt.with_key_spend(1, &long).unwrap();
    assert_eq!(signed.tap_input(1).unwrap().witness, vec![vec![0x11; 64]]);
    assert!(psbt.with_key_spend(1, &vec![0x11; 63]).is_none());
    assert!(psbt.with_key_spend(3, &vec![0x11; 64]).is_none());
}

#[test]
fn an_extracted_transaction_is_the_unsigned_one_with_its_witnesses() {
    let mut theirs = round_psbt();
    theirs.inputs[0].final_script_sig = Some(ScriptBuf::from(vec![0x51]));
    theirs.inputs[2].final_script_witness = Some(bitcoin::Witness::from_slice(&[vec![1, 2], vec![3]]));
    let psbt = ours(&theirs);
    let tx = psbt.extract_tx().unwrap();
    let head = TxHead::read(&tx).unwrap();
    assert_eq!(head.inputs, psbt.parts().inputs);
    assert_eq!(head.outputs, psbt.parts().outputs);
    assert_eq!(head.script_sigs, vec![vec![0x51], vec![], vec![]]);
    assert_eq!(head.witnesses, vec![vec![], vec![], vec![vec![1, 2], vec![3]]]);
    assert_ne!(head.txid, psbt.txid());
    let plain = ours(&round_psbt());
    assert_eq!(TxHead::read(&plain.extract_tx().unwrap()).unwrap().txid, plain.txid());
    assert!(TxHead::read(&vec![1, 2, 3]).is_none());
}

#[test]
fn the_last_output_at_a_place_gives_the_leaf() {
    let mut other = path();
    other.script = [vec![0x51, 0x75], other.script].concat();
    let owned = vec![
        OwnedOutput { outpoint: Some(outpoint(2, 1)), path: other },
        OwnedOutput { outpoint: Some(outpoint(2, 1)), path: path() },
    ];
    let psbt = ours(&round_psbt());
    let signed = sign_owned_inputs(&psbt, &owned, &pair()).unwrap().unwrap();
    assert_eq!(signed.tap_input(1).unwrap().scripts, vec![script().into_bytes()]);
    assert_eq!(signed.tap_input(0), psbt.tap_input(0));
}

use ark_client::internal_node::{sweep_script, sweep_tweak, x_only_of, VtxoTreeInternalNodeScript, TAPSCRIPT};
use ark_client::script::{
    csv_sig_script, extract_sequence_from_csv_sig_script, relative_lock_seconds,
};
use ark_client::server::{Info, Network};
use bitcoin::opcodes::all::{OP_CHECKSIG, OP_CSV, OP_DROP};
use bitcoin::secp256k1::{Keypair, Secp256k1};

const SEQUENCES: [u32; 16] = [
    0, 1, 2, 16, 17, 127, 128, 255, 256, 32767, 32768, 65535, 0x40_0001, 0x7fff_ffff, 0x8000_0000, u32::MAX,
];

fn key(seed: u8) -> Keypair {
    Keypair::from_seckey_slice(&Secp256k1::new(), &[seed; 32]).unwrap()
}

fn built_by_bitcoin(sequence: u32, seed: u8) -> bitcoin::ScriptBuf {
    bitcoin::script::Builder::new()
        .push_int(i64::from(sequence))
        .push_opcode(OP_CSV)
        .push_opcode(OP_DROP)
        .push_x_only_key(&key(seed).x_only_public_key().0)
        .push_opcode(OP_CHECKSIG)
        .into_script()
}

fn info(pubkey: String, round_lifetime: i64) -> Info {
    Info {
        pubkey,
        round_lifetime,
        unilateral_exit_delay: 512,
        network: Network::Regtest,
        dust: 546,
        boarding_descriptor_template: String::new(),
        forfeit_address: String::new(),
    }
}

#[test]
fn csv_script_agrees_with_bitcoin() {
    for sequence in SEQUENCES {
        let ours = csv_sig_script(sequence, &key(7).x_only_public_key().0.serialize());
        assert_eq!(ours, built_by_bitcoin(sequence, 7).into_bytes());
    }
}

#[test]
fn csv_sequence_round_trip() {
    for sequence in SEQUENCES {
        let script = csv_sig_script(sequence, &[9; 32]);
        assert_eq!(extract_sequence_from_csv_sig_script(&script), Some(sequence));
    }
}

#[test]
fn other_scripts_ask_for_no_sequence() {
    assert_eq!(extract_sequence_from_csv_sig_script(&vec![]), None);
    assert_eq!(extract_sequence_from_csv_sig_script(&vec![0xb2]), None);
    assert_eq!(extract_sequence_from_csv_sig_script(&vec![0x51]), None);
    assert_eq!(extract_sequence_from_csv_sig_script(&vec![0x51, 0x75]), None);
    // A number that is not written in its shortest form.
    assert_eq!(extract_sequence_from_csv_sig_script(&vec![0x01, 0x05, 0xb2]), None);
    assert_eq!(extract_sequence_from_csv_sig_script(&vec![0x03, 0x05, 0x01, 0x00, 0xb2]), None);
    // A negative number.
    assert_eq!(extract_sequence_from_csv_sig_script(&vec![0x01, 0x85, 0xb2]), None);
    assert_eq!(extract_sequence_from_csv_sig_script(&vec![0x01, 0x11, 0xb2]), Some(17));
}

#[test]
fn lock_times_agree_with_bitcoin() {
    for sequence in [0, 5, 0x40_0000, 0x40_0001, 0x40_ffff, 0x7f_ffff, 0x8040_0001, 0x4040_0002, u32::MAX] {
        let theirs = match bitcoin::Sequence(sequence).to_relative_lock_time() {
            Some(bitcoin::relative::LockTime::Time(time)) => Some(u64::from(time.value()) * 512),
            _ => None,
        };
        assert_eq!(relative_lock_seconds(sequence), theirs, "{sequence:x}");
    }
    assert_eq!(relative_lock_seconds(0x40_0003), Some(1536));
}

#[test]
fn sweep_leaf_agrees_with_bitcoin() {
    let secp = Secp256k1::new();
    let asp = key(3).x_only_public_key().0;
    let aggregate = key(4).x_only_public_key().0;
    let node = VtxoTreeInternalNodeScript::new(0x40_0010, &asp.serialize());
    let ours = node.sweep_spend_leaf(&aggregate.serialize()).unwrap();
    let script = built_by_bitcoin(0x40_0010, 3);
    let theirs = bitcoin::taproot::TaprootBuilder::new()
        .add_leaf(0, script.clone())
        .unwrap()
        .finalize(&secp, aggregate)
        .unwrap();
    assert_eq!(ours.internal_key, aggregate.serialize());
    assert_eq!(ours.output_key, theirs.output_key().serialize());
    assert_eq!(ours.tap_tweak, bitcoin::hashes::Hash::to_byte_array(theirs.tap_tweak()));
    let leaf = bitcoin::TapLeafHash::from_script(&script, bitcoin::taproot::LeafVersion::TapScript);
    assert_eq!(ours.merkle_root, bitcoin::hashes::Hash::to_byte_array(leaf));
    assert_eq!(
        ours.output_key_odd,
        theirs.output_key_parity() == bitcoin::secp256k1::Parity::Odd
    );
    assert_eq!(TAPSCRIPT, bitcoin::taproot::LeafVersion::TapScript.to_consensus());
    let block = theirs.control_block(&(script.clone(), bitcoin::taproot::LeafVersion::TapScript)).unwrap();
    assert_eq!(ours.control_block(&script.to_bytes(), TAPSCRIPT), Some(block.serialize()));
    assert_eq!(ours.control_block(&vec![0x51], TAPSCRIPT), None);
    assert_eq!(ours.control_block(&script.to_bytes(), 0xc2), None);
}

#[test]
fn sweep_leaf_needs_a_key() {
    let node = VtxoTreeInternalNodeScript::new(1, &[1; 32]);
    assert!(node.sweep_spend_leaf(&[0xff; 32]).is_none());
}

#[test]
fn sweep_tweak_follows_from_the_server() {
    let asp = key(3);
    let aggregate = key(4).x_only_public_key().0.serialize();
    let info = info(asp.public_key().to_string(), 0x40_0010);
    let node = VtxoTreeInternalNodeScript::new(0x40_0010, &asp.x_only_public_key().0.serialize());
    assert_eq!(
        sweep_tweak(&info, &aggregate),
        Some(node.sweep_spend_leaf(&aggregate).unwrap().tap_tweak)
    );
    assert!(sweep_script(&info) == Some(node));
    assert_eq!(x_only_of(&asp.public_key().serialize()), asp.x_only_public_key().0.serialize());
}

#[test]
fn sweep_tweak_needs_the_key_of_the_server() {
    assert_eq!(sweep_tweak(&info("no key".to_string(), 1), &[1; 32]), None);
}

#[test]
fn round_lifetime_is_cut_to_its_low_bits() {
    let pubkey = key(3).public_key().to_string();
    assert!(sweep_script(&info(pubkey.clone(), 0x1_0000_0005)) == sweep_script(&info(pubkey, 5)));
}

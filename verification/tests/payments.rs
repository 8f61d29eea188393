use ark_client::client::Client;
use ark_client::error::Error;
use ark_client::keys::Keypair;
use ark_client::oor::{candidates, make_payment_outputs, sign_redeem_psbt, ArkAddress};
use ark_client::psbt::{Psbt, SpendPath};
use ark_client::registration::{
    boarding_outputs, round_inputs, round_outputs, RoundInputs, RoundOutputType, RoundOutputs,
};
use ark_client::server::{Info, ListVtxo, Network, VtxoOutPoint};
use ark_client::spendable::{add_up, BoardingAddress, SpendableGroup, Utxo};
use ark_client::tx::{OutPoint, Txid};
use ark_client::vtxo::{BoardingOutput, DefaultVtxo};
use bitcoin::secp256k1::Secp256k1;
use bitcoin::ScriptBuf;

fn outpoint(seed: u8) -> OutPoint {
    OutPoint { txid: Txid { bytes: [seed; 32] }, vout: u32::from(seed) }
}

fn coin(seed: u8, amount: u64) -> VtxoOutPoint {
    VtxoOutPoint {
        outpoint: Some(outpoint(seed)),
        amount,
        round_txid: String::new(),
        redeem_tx: String::new(),
    }
}

fn path(byte: u8) -> SpendPath {
    let secp = Secp256k1::new();
    let script = ScriptBuf::from(vec![0x51, byte]);
    let key = bitcoin::secp256k1::Keypair::from_seckey_slice(&secp, &[4; 32])
        .unwrap()
        .x_only_public_key()
        .0;
    let info = bitcoin::taproot::TaprootBuilder::new()
        .add_leaf(0, script.clone())
        .unwrap()
        .finalize(&secp, key)
        .unwrap();
    let leaf = (script, bitcoin::taproot::LeafVersion::TapScript);
    SpendPath {
        control_block: info.control_block(&leaf).unwrap().serialize(),
        script: leaf.0.into_bytes(),
        leaf_version: 0xc0,
    }
}

fn vtxo(byte: u8) -> DefaultVtxo {
    DefaultVtxo {
        output_key: [byte; 32],
        script_pubkey: vec![byte],
        ark_descriptor: format!("tr({byte})"),
        forfeit: path(byte),
    }
}

fn groups() -> Vec<SpendableGroup> {
    vec![
        SpendableGroup { outpoints: vec![coin(1, 10), coin(2, 20)], vtxo: vtxo(0x61) },
        SpendableGroup { outpoints: vec![], vtxo: vtxo(0x62) },
        SpendableGroup { outpoints: vec![coin(3, 30), coin(1, 10)], vtxo: vtxo(0x63) },
    ]
}

fn server_key() -> bitcoin::secp256k1::Keypair {
    bitcoin::secp256k1::Keypair::from_seckey_slice(&Secp256k1::new(), &[8; 32]).unwrap()
}

fn info() -> Info {
    Info {
        pubkey: server_key().public_key().to_string(),
        round_lifetime: 0x1_0000_0007,
        unilateral_exit_delay: 1_024,
        network: Network::Regtest,
        dust: 546,
        boarding_descriptor_template: "template".to_string(),
        forfeit_address: String::new(),
    }
}

fn new_client() -> Client {
    Client::new("alice".to_string(), Keypair::from_secret([6; 32]).unwrap())
}

fn connected() -> Client {
    let mut client = new_client();
    client.connect(Ok(info())).unwrap();
    client
}

fn address(byte: u8) -> ArkAddress {
    ArkAddress { network: Network::Regtest, asp: [1; 32], vtxo_tap_key: [byte; 32] }
}

fn boarding(byte: u8) -> BoardingOutput {
    BoardingOutput {
        address: format!("address {byte}"),
        ark_descriptor: format!("board({byte})"),
        forfeit: path(byte),
    }
}

#[test]
fn a_client_knows_nothing_before_it_is_connected() {
    let mut client = new_client();
    assert_eq!(client.name, "alice");
    assert!(client.vtxo_params().is_none());
    assert!(client.boarding_params().is_none());
    assert!(client.get_offchain_address(vtxo(1)).is_none());
    assert!(client.get_offchain_addresses(vtxo(1)).is_none());
    assert!(client.get_onchain_address().is_none());
    assert!(client.create_and_sign_forfeit_txs(&vec![], &vec![], &vec![]).is_none());
    assert!(client.send_oor(&groups(), &vec![], address(1), 1, vtxo(1), 0).is_none());
    assert_eq!(client.connect(Err(Error::NotConnected)), Err(Error::NotConnected));
    assert!(client.asp_info.is_none());
}

#[test]
fn the_parameters_follow_from_the_server() {
    let client = connected();
    let asp = server_key().x_only_public_key().0.serialize();
    let params = client.vtxo_params().unwrap();
    assert_eq!(params.asp, asp);
    assert_eq!(params.owner, client.kp.x_only_public_key());
    assert_eq!(params.exit_delay, 1_024);
    assert_eq!(params.network, Network::Regtest);
    let params = client.boarding_params().unwrap();
    assert_eq!(params.asp, asp);
    assert_eq!(params.round_lifetime, 7);
    assert_eq!(params.descriptor_template, "template");
}

#[test]
fn the_key_of_the_server_must_be_readable() {
    let mut client = new_client();
    let mut bad = info();
    bad.pubkey = "02".to_string();
    client.connect(Ok(bad)).unwrap();
    assert!(client.vtxo_params().is_none());
    assert!(client.boarding_params().is_none());
    assert!(client.get_offchain_address(vtxo(1)).is_none());
}

#[test]
fn there_is_one_offchain_address() {
    let client = connected();
    let addresses = client.get_offchain_addresses(vtxo(5)).unwrap();
    assert_eq!(addresses.len(), 1);
    let expected = ArkAddress {
        network: Network::Regtest,
        asp: server_key().x_only_public_key().0.serialize(),
        vtxo_tap_key: [5; 32],
    };
    assert_eq!(addresses[0].address, expected);
    assert_eq!(addresses[0].vtxo, vtxo(5));
    assert_eq!(client.get_offchain_address(vtxo(5)).unwrap().address, expected);
}

#[test]
fn the_onchain_address_agrees_with_bitcoin() {
    let mut client = connected();
    let key = bitcoin::CompressedPublicKey::from_slice(&client.kp.public_key()).unwrap();
    for (ours, theirs) in [
        (Network::Bitcoin, bitcoin::Network::Bitcoin),
        (Network::Testnet, bitcoin::Network::Testnet),
        (Network::Testnet4, bitcoin::Network::Testnet4),
        (Network::Signet, bitcoin::Network::Signet),
        (Network::Regtest, bitcoin::Network::Regtest),
    ] {
        client.asp_info.as_mut().unwrap().network = ours;
        let expected = bitcoin::Address::p2wpkh(&key, theirs).to_string();
        assert_eq!(client.get_onchain_address(), Some(expected));
    }
}

#[test]
fn spendable_vtxos_are_grouped() {
    let list = ListVtxo { spent: vec![coin(9, 9)], spendable: vec![coin(1, 1), coin(2, 2)] };
    let group = Client::spendable_vtxos(list, vtxo(3));
    assert_eq!(group.outpoints, vec![coin(1, 1), coin(2, 2)]);
    assert_eq!(group.vtxo, vtxo(3));
}

#[test]
fn the_balance_is_the_sum() {
    assert_eq!(Client::offchain_balance(&groups()), Some(70));
    assert_eq!(Client::offchain_balance(&vec![]), Some(0));
    let rich = vec![SpendableGroup {
        outpoints: vec![coin(1, u64::MAX), coin(2, 1)],
        vtxo: vtxo(1),
    }];
    assert_eq!(Client::offchain_balance(&rich), None);
    assert_eq!(add_up(&vec![u64::MAX, 0]), Some(u64::MAX));
    assert_eq!(add_up(&vec![u64::MAX, 1]), None);
}

#[test]
fn everything_is_put_into_a_round() {
    let found = BoardingAddress {
        output: boarding(1),
        utxo: Some(Utxo { outpoint: outpoint(7), amount: 500 }),
    };
    let empty = BoardingAddress { output: boarding(2), utxo: None };
    let funds = Client::prepare_round_transactions(&vec![empty, found.clone()], &groups()).unwrap();
    assert_eq!(funds.total_amount, 570);
    assert_eq!(funds.boarding.len(), 1);
    assert_eq!(funds.boarding[0].outpoint, outpoint(7));
    assert_eq!(funds.boarding[0].output, boarding(1));
    let seeds: Vec<u64> = funds.vtxos.iter().map(|v| v.outpoint.amount).collect();
    assert_eq!(seeds, vec![10, 20, 30, 10]);
    assert_eq!(funds.vtxos[2].vtxo, vtxo(0x63));
    let mut rich = found;
    rich.utxo = Some(Utxo { outpoint: outpoint(7), amount: u64::MAX - 69 });
    assert!(Client::prepare_round_transactions(&vec![rich], &groups()).is_none());
}

#[test]
fn inputs_of_a_round_are_named() {
    let found = BoardingAddress {
        output: boarding(1),
        utxo: Some(Utxo { outpoint: outpoint(7), amount: 500 }),
    };
    let mut nowhere = coin(1, 1);
    nowhere.outpoint = None;
    let groups = vec![SpendableGroup { outpoints: vec![nowhere, coin(2, 2)], vtxo: vtxo(3) }];
    let funds = Client::prepare_round_transactions(&vec![found], &groups).unwrap();
    let expected = vec![
        RoundInputs { outpoint: Some(outpoint(7)), descriptor: "board(1)".to_string() },
        RoundInputs { outpoint: None, descriptor: "tr(3)".to_string() },
        RoundInputs { outpoint: Some(outpoint(2)), descriptor: "tr(3)".to_string() },
    ];
    assert_eq!(round_inputs(&funds.boarding, &funds.vtxos), expected);
    let owned = boarding_outputs(&funds.boarding);
    assert_eq!(owned.len(), 1);
    assert_eq!(owned[0].outpoint, Some(outpoint(7)));
    assert_eq!(owned[0].path, path(1));
}

#[test]
fn boarding_asks_for_everything_back() {
    let wish = Client::board("ark1".to_string(), 900);
    assert_eq!(
        wish,
        RoundOutputType::Board { to_address: "ark1".to_string(), to_amount: 900 }
    );
    assert_eq!(
        round_outputs(&wish),
        vec![RoundOutputs { address: "ark1".to_string(), amount: 900 }]
    );
}

#[test]
fn off_boarding_gives_change() {
    let wish = Client::off_board("bc1".to_string(), 300, "ark1".to_string(), 900).unwrap();
    assert_eq!(
        round_outputs(&wish),
        vec![
            RoundOutputs { address: "bc1".to_string(), amount: 300 },
            RoundOutputs { address: "ark1".to_string(), amount: 600 },
        ]
    );
    let all = Client::off_board("bc1".to_string(), 900, "ark1".to_string(), 900).unwrap();
    assert_eq!(round_outputs(&all)[1].amount, 0);
    assert!(Client::off_board("bc1".to_string(), 901, "ark1".to_string(), 900).is_none());
}

#[test]
fn all_coins_are_candidates() {
    let seeds: Vec<u32> = candidates(&groups()).iter().map(|c| c.outpoint.unwrap().vout).collect();
    assert_eq!(seeds, vec![1, 2, 3, 1]);
}

#[test]
fn payments_spend_the_selected_coins() {
    let client = connected();
    let coins = vec![coin(3, 30), coin(1, 10)];
    let payment = client.send_oor(&groups(), &coins, address(9), 35, vtxo(5), 5).unwrap();
    assert_eq!(payment.selected.len(), 2);
    assert_eq!(payment.selected[0].vtxo, vtxo(0x63));
    // The first group that holds the coin counts.
    assert_eq!(payment.selected[1].vtxo, vtxo(0x61));
    assert_eq!(payment.inputs[0].outpoint, Some(outpoint(3)));
    assert_eq!(payment.inputs[0].descriptor, "tr(99)");
    let leaf = bitcoin::TapLeafHash::from_script(
        &ScriptBuf::from(vec![0x51, 0x63]),
        bitcoin::taproot::LeafVersion::TapScript,
    );
    assert_eq!(
        payment.inputs[0].forfeit_leaf_hash,
        bitcoin::hashes::Hash::to_byte_array(leaf)
    );
    assert_eq!(payment.outputs.len(), 2);
    assert_eq!(payment.outputs[0].address, address(9));
    assert_eq!(payment.outputs[0].amount, 35);
    assert_eq!(payment.outputs[1].address.vtxo_tap_key, [5; 32]);
    assert_eq!(payment.outputs[1].amount, 5);
}

#[test]
fn a_payment_without_change_has_one_output() {
    let outputs = make_payment_outputs(address(1), 40, address(2), 0);
    assert_eq!(outputs.len(), 1);
    assert_eq!(outputs[0].amount, 40);
    let client = connected();
    let coins = vec![coin(1, 10)];
    let payment = client.send_oor(&groups(), &coins, address(9), 10, vtxo(5), 0).unwrap();
    assert_eq!(payment.outputs.len(), 1);
}

#[test]
fn a_coin_must_be_in_a_group() {
    let client = connected();
    // The same place, but another amount.
    let coins = vec![coin(1, 11)];
    assert!(client.send_oor(&groups(), &coins, address(9), 1, vtxo(5), 0).is_none());
    let mut bad = groups();
    bad[0].vtxo.forfeit.leaf_version = 0x50;
    assert!(client.send_oor(&bad, &vec![coin(2, 20)], address(9), 1, vtxo(5), 0).is_none());
}

#[test]
fn the_transaction_of_a_payment_is_signed() {
    let client = connected();
    let coins = vec![coin(2, 20)];
    let payment = client.send_oor(&groups(), &coins, address(9), 20, vtxo(5), 0).unwrap();
    let theirs = |o: OutPoint| {
        bitcoin::OutPoint::new(bitcoin::hashes::Hash::from_byte_array(o.txid.bytes), o.vout)
    };
    let mut psbt = bitcoin::Psbt::from_unsigned_tx(bitcoin::Transaction {
        version: bitcoin::transaction::Version::TWO,
        lock_time: bitcoin::absolute::LockTime::ZERO,
        input: [outpoint(5), outpoint(2)]
            .iter()
            .map(|o| bitcoin::TxIn { previous_output: theirs(*o), ..Default::default() })
            .collect(),
        output: vec![],
    })
    .unwrap();
    for input in psbt.inputs.iter_mut() {
        input.witness_utxo = Some(bitcoin::TxOut {
            value: bitcoin::Amount::from_sat(20),
            script_pubkey: ScriptBuf::new(),
        });
    }
    let redeem = Psbt::deserialize(psbt.serialize()).unwrap();
    let ours = sign_redeem_psbt(&redeem, &payment.selected, &client.kp).unwrap().unwrap();
    let signed = bitcoin::Psbt::deserialize(ours.serialize()).unwrap();
    assert_eq!(signed.unsigned_tx, psbt.unsigned_tx);
    assert!(signed.inputs[0].tap_script_sigs.is_empty());
    assert_eq!(signed.inputs[1].tap_script_sigs.len(), 1);
}

use ark_client::convert::FromWire;
use ark_client::error::Error;
use ark_client::grpc::{
    get_info_reply, get_round_reply, list_vtxos_reply, ping_reply, plain_reply, stream_step, submit_redeem_reply, Client,
    Received, RoundInput, RoundOutput, StreamStep,
};
use ark_client::psbt::Psbt;
use ark_client::server::{
    ListVtxo, Node, PublicKey, RedeemTransaction, Round, RoundFinalizationEvent, RoundStreamEvent,
    RoundTransaction, TransactionEvent, Tree,
};
use ark_client::tx::{OutPoint, Txid};
use ark_client::wire;
use base64::Engine;
use std::str::FromStr;

fn txid_error(text: &str) -> String {
    bitcoin::Txid::from_str(text).unwrap_err().to_string()
}

fn base64_error(text: &str) -> String {
    base64::engine::general_purpose::STANDARD.decode(text).unwrap_err().to_string()
}

fn psbt_error(bytes: &[u8]) -> String {
    bitcoin::Psbt::deserialize(bytes).unwrap_err().to_string()
}

fn text(seed: u8) -> String {
    Txid { bytes: [seed; 32] }.to_text()
}

fn psbt(seed: u8) -> bitcoin::Psbt {
    bitcoin::Psbt::from_unsigned_tx(bitcoin::Transaction {
        version: bitcoin::transaction::Version::TWO,
        lock_time: bitcoin::absolute::LockTime::ZERO,
        input: vec![bitcoin::TxIn {
            previous_output: bitcoin::OutPoint::new(
                bitcoin::hashes::Hash::from_byte_array([seed; 32]),
                1,
            ),
            ..Default::default()
        }],
        output: vec![bitcoin::TxOut {
            value: bitcoin::Amount::from_sat(1_000),
            script_pubkey: bitcoin::ScriptBuf::new(),
        }],
    })
    .unwrap()
}

fn psbt_text(seed: u8) -> String {
    base64::engine::general_purpose::STANDARD.encode(psbt(seed).serialize())
}

fn node(seed: u8) -> wire::Node {
    wire::Node { txid: text(seed), tx: psbt_text(seed), parent_txid: text(seed + 1) }
}

fn tree() -> wire::Tree {
    wire::Tree {
        levels: vec![
            wire::TreeLevel { nodes: vec![node(1)] },
            wire::TreeLevel { nodes: vec![node(2), node(3)] },
        ],
    }
}

fn vtxo(seed: u8) -> wire::Vtxo {
    wire::Vtxo {
        outpoint: Some(wire::Outpoint { txid: text(seed), vout: 3 }),
        amount: 5_000,
        round_txid: text(9),
        redeem_tx: String::new(),
    }
}

fn signing_event() -> wire::RoundSigningEvent {
    let secp = bitcoin::secp256k1::Secp256k1::new();
    let key = bitcoin::secp256k1::Keypair::from_seckey_slice(&secp, &[5; 32]).unwrap().public_key();
    wire::RoundSigningEvent {
        id: "round".to_string(),
        cosigners_pubkeys: vec![key.to_string()],
        unsigned_vtxo_tree: Some(tree()),
        unsigned_round_tx: psbt_text(7),
    }
}

fn finalization_event() -> wire::RoundFinalizationEvent {
    wire::RoundFinalizationEvent {
        id: "round".to_string(),
        round_tx: psbt_text(7),
        vtxo_tree: None,
        connectors: vec![psbt_text(8), psbt_text(9)],
        min_relay_fee_rate: 30,
    }
}

fn round() -> wire::Round {
    wire::Round {
        id: "round".to_string(),
        start: 1,
        end: 2,
        round_tx: psbt_text(7),
        vtxo_tree: Some(tree()),
        forfeit_txs: vec![psbt_text(4)],
        connectors: vec![],
        stage: 3,
    }
}

fn connected() -> Client<u8> {
    let mut client = Client::new("http://localhost:7070".to_string());
    client.connect(Ok(1)).unwrap();
    client
}

fn is_conversion_error<T>(read: Result<T, Error>) -> bool {
    matches!(read, Err(Error::Conversion(_)))
}

#[test]
fn nodes_are_read() {
    let read = Node::from_wire(&node(1)).unwrap();
    assert_eq!(read.txid.bytes, [1; 32]);
    assert_eq!(read.parent_txid.bytes, [2; 32]);
    assert_eq!(*read.tx.serialize(), psbt(1).serialize());
}

#[test]
fn a_node_is_refused_for_any_part() {
    let mut bad = node(1);
    bad.txid.pop();
    assert!(is_conversion_error(Node::from_wire(&bad)));
    let mut bad = node(1);
    bad.tx = "cHNidA==".to_string();
    assert!(is_conversion_error(Node::from_wire(&bad)));
    let mut bad = node(1);
    bad.tx.push('=');
    assert!(is_conversion_error(Node::from_wire(&bad)));
    let mut bad = node(1);
    bad.parent_txid = "parent".to_string();
    assert!(is_conversion_error(Node::from_wire(&bad)));
}

#[test]
fn trees_keep_their_shape() {
    let read = Tree::from_wire(&tree()).unwrap();
    assert_eq!(read.levels.len(), 2);
    assert_eq!(read.levels[0].nodes.len(), 1);
    assert_eq!(read.levels[1].nodes.len(), 2);
    assert_eq!(read.levels[1].nodes[1].txid.bytes, [3; 32]);
    let mut bad = tree();
    bad.levels[1].nodes[1].txid = String::new();
    assert!(is_conversion_error(Tree::from_wire(&bad)));
    assert_eq!(Tree::from_wire(&wire::Tree { levels: vec![] }).unwrap().levels.len(), 0);
}

#[test]
fn signing_events_are_read() {
    let event = wire::Event::RoundSigning(signing_event());
    match RoundStreamEvent::from_wire(&event) {
        Ok(RoundStreamEvent::RoundSigning(e)) => {
            assert_eq!(e.id, "round");
            assert_eq!(e.cosigners_pubkeys.len(), 1);
            assert!(e.unsigned_vtxo_tree.is_some());
            assert_eq!(*e.unsigned_round_tx.serialize(), psbt(7).serialize());
        }
        _ => panic!("a signing event"),
    }
    let mut bad = signing_event();
    bad.cosigners_pubkeys.push("02".to_string());
    assert!(is_conversion_error(RoundStreamEvent::from_wire(&wire::Event::RoundSigning(bad))));
    let mut bad = signing_event();
    bad.unsigned_round_tx = "?".to_string();
    assert!(is_conversion_error(RoundStreamEvent::from_wire(&wire::Event::RoundSigning(bad))));
    let mut without = signing_event();
    without.unsigned_vtxo_tree = None;
    assert!(matches!(
        RoundStreamEvent::from_wire(&wire::Event::RoundSigning(without)),
        Ok(RoundStreamEvent::RoundSigning(e)) if e.unsigned_vtxo_tree.is_none()
    ));
}

#[test]
fn nonces_are_handed_on_if_they_were_decoded() {
    let event = |tree_nonces| {
        wire::Event::RoundSigningNoncesGenerated(wire::RoundSigningNoncesGeneratedEvent {
            id: "round".to_string(),
            tree_nonces,
        })
    };
    let nonces = vec![vec![vec![1, 2], vec![3]], vec![]];
    assert!(matches!(
        RoundStreamEvent::from_wire(&event(Ok(nonces.clone()))),
        Ok(RoundStreamEvent::RoundSigningNoncesGenerated(e)) if e.tree_nonces == nonces
    ));
    assert!(matches!(
        RoundStreamEvent::from_wire(&event(Err("no tree".to_string()))),
        Err(Error::Conversion(cause)) if cause == "no tree"
    ));
}

#[test]
fn finalization_events_are_read() {
    let read = RoundFinalizationEvent::from_wire(&finalization_event()).unwrap();
    assert_eq!(read.connectors.len(), 2);
    assert_eq!(read.min_relay_fee_rate, 30);
    assert!(read.vtxo_tree.is_none());
    assert_eq!(*read.connectors[1].serialize(), psbt(9).serialize());
    let mut bad = finalization_event();
    bad.connectors[1].clear();
    assert!(is_conversion_error(RoundFinalizationEvent::from_wire(&bad)));
}

#[test]
fn the_end_of_a_round_is_read() {
    let finalized = |round_txid: String| {
        wire::Event::RoundFinalized(wire::RoundFinalizedEvent { id: "round".to_string(), round_txid })
    };
    assert!(matches!(
        RoundStreamEvent::from_wire(&finalized(text(6))),
        Ok(RoundStreamEvent::RoundFinalized(e)) if e.round_txid.bytes == [6; 32]
    ));
    assert!(is_conversion_error(RoundStreamEvent::from_wire(&finalized("6".to_string()))));
    let failed = wire::Event::RoundFailed(wire::RoundFailed {
        id: "round".to_string(),
        reason: "because".to_string(),
    });
    assert!(matches!(
        RoundStreamEvent::from_wire(&failed),
        Ok(RoundStreamEvent::RoundFailed(e)) if e.id == "round" && e.reason == "because"
    ));
}

#[test]
fn rounds_are_read() {
    let read = Round::from_wire(&round()).unwrap();
    assert_eq!((read.id.as_str(), read.start, read.end, read.stage), ("round", 1, 2, 3));
    assert_eq!(read.forfeit_txs.len(), 1);
    assert!(read.connectors.is_empty());
    let mut bad = round();
    bad.forfeit_txs.push("x".to_string());
    assert!(is_conversion_error(Round::from_wire(&bad)));
    assert!(matches!(get_round_reply(Ok(Some(round()))), Ok(Some(_))));
    assert!(matches!(get_round_reply(Ok(None)), Ok(None)));
    assert!(matches!(get_round_reply(Err("busy".to_string())), Err(Error::Request(c)) if c == "busy"));
    assert!(matches!(get_round_reply(Ok(Some(bad))), Err(Error::Conversion(_))));
}

#[test]
fn transactions_are_read() {
    let outpoint = wire::Outpoint { txid: text(4), vout: 8 };
    let round = wire::RoundTransaction {
        txid: text(1),
        spent_vtxos: vec![outpoint.clone()],
        spendable_vtxos: vec![vtxo(2)],
        claimed_boarding_utxos: vec![outpoint.clone(), outpoint.clone()],
    };
    let read = RoundTransaction::from_wire(&round).unwrap();
    assert_eq!(read.txid.bytes, [1; 32]);
    assert_eq!(read.claimed_boarding_utxos.len(), 2);
    assert_eq!(read.spent_vtxos, vec![OutPoint { txid: Txid { bytes: [4; 32] }, vout: 8 }]);
    assert_eq!(read.spendable_vtxos[0].amount, 5_000);
    let redeem = wire::RedeemTransaction {
        txid: text(1),
        spent_vtxos: vec![outpoint],
        spendable_vtxos: vec![],
    };
    assert!(RedeemTransaction::from_wire(&redeem).is_ok());
    assert!(matches!(
        TransactionEvent::from_wire(&wire::Tx::Redeem(redeem)),
        Ok(TransactionEvent::Redeem(_))
    ));
    assert!(matches!(
        TransactionEvent::from_wire(&wire::Tx::Round(round.clone())),
        Ok(TransactionEvent::Round(_))
    ));
    let mut bad = round;
    bad.claimed_boarding_utxos[1].txid.push('0');
    assert!(is_conversion_error(TransactionEvent::from_wire(&wire::Tx::Round(bad))));
}

#[test]
fn lists_of_vtxos_are_read() {
    let mut nowhere = vtxo(2);
    nowhere.outpoint = None;
    let list = wire::ListVtxosResponse {
        spent_vtxos: vec![vtxo(1)],
        spendable_vtxos: vec![nowhere, vtxo(3)],
    };
    let read: ListVtxo = list_vtxos_reply(Ok(list.clone())).unwrap();
    assert_eq!(read.spent.len(), 1);
    assert_eq!(read.spendable[0].outpoint, None);
    assert_eq!(read.spendable[1].outpoint.unwrap().txid.bytes, [3; 32]);
    assert_eq!(list_vtxos_reply(Err("busy".to_string())), Err(Error::Request("busy".to_string())));
    let mut bad = list;
    bad.spent_vtxos[0].outpoint = Some(wire::Outpoint { txid: String::new(), vout: 0 });
    assert_eq!(list_vtxos_reply(Ok(bad)), Err(Error::Conversion(txid_error(""))));
}

#[test]
fn nothing_is_asked_before_there_is_a_connection() {
    let mut client: Client<u8> = Client::new("http://localhost:7070".to_string());
    let key = PublicKey { bytes: [2; 33] };
    let tx = Psbt::deserialize(psbt(1).serialize()).unwrap();
    let not = Error::NotConnected;
    assert_eq!(client.inner_client(), Err(not.clone()));
    assert_eq!(client.get_info(), Err(not.clone()));
    assert_eq!(client.list_vtxos(String::new()), Err(not.clone()));
    assert_eq!(client.register_inputs_for_next_round(&key, &vec![]), Err(not.clone()));
    assert_eq!(client.register_outputs_for_next_round(String::new(), &vec![]), Err(not.clone()));
    assert_eq!(client.submit_redeem_transaction(&tx), Err(not.clone()));
    assert_eq!(client.ping(String::new()), Err(not.clone()));
    assert_eq!(client.submit_tree_nonces(String::new(), &key, Err(String::new())), Err(not.clone()));
    let missing = Err(String::new());
    assert_eq!(client.submit_tree_signatures(String::new(), &key, missing), Err(not.clone()));
    assert_eq!(client.submit_signed_forfeit_txs(&vec![], &tx), Err(not.clone()));
    assert_eq!(client.get_event_stream(), Err(not.clone()));
    assert_eq!(client.get_tx_stream(), Err(not.clone()));
    assert_eq!(client.get_round(String::new()), Err(not));
    let refused = "refused".to_string();
    assert_eq!(client.connect(Err(refused.clone())), Err(Error::Connect(refused)));
    assert_eq!(client.get_info(), Err(Error::NotConnected));
    assert_eq!(client.connect(Ok(5)), Ok(()));
    assert_eq!(client.inner_client(), Ok(&5));
    assert_eq!(client.get_info(), Ok(()));
    assert_eq!(client.url(), "http://localhost:7070");
}

#[test]
fn inputs_are_registered() {
    let outpoint = OutPoint { txid: Txid { bytes: [6; 32] }, vout: 2 };
    let inputs = vec![
        RoundInput { outpoint: Some(outpoint), tapscripts: vec![vec![0xab, 0x01], vec![]] },
        RoundInput { outpoint: None, tapscripts: vec![] },
    ];
    let request = connected()
        .register_inputs_for_next_round(&PublicKey { bytes: [0x0f; 33] }, &inputs)
        .unwrap();
    assert_eq!(
        request,
        wire::RegisterInputsForNextRoundRequest {
            inputs: vec![
                wire::Input {
                    outpoint: Some(wire::Outpoint { txid: text(6), vout: 2 }),
                    taproot_tree: Some(wire::TaprootTree::Tapscripts(vec![
                        "ab01".to_string(),
                        String::new()
                    ])),
                },
                wire::Input {
                    outpoint: None,
                    taproot_tree: Some(wire::TaprootTree::Tapscripts(vec![])),
                },
            ],
            ephemeral_pubkey: Some("0f".repeat(33)),
            notes: vec![],
        }
    );
    let sent = request.inputs[0].outpoint.clone().unwrap();
    assert_eq!(OutPoint::from_wire(&sent), Ok(outpoint));
}

#[test]
fn outputs_are_registered() {
    let outputs = vec![RoundOutput { address: "ark1".to_string(), amount: 7 }];
    let request =
        connected().register_outputs_for_next_round("id".to_string(), &outputs).unwrap();
    assert_eq!(
        request,
        wire::RegisterOutputsForNextRoundRequest {
            request_id: "id".to_string(),
            outputs: vec![wire::Output { address: "ark1".to_string(), amount: 7 }],
        }
    );
}

#[test]
fn a_redeem_transaction_is_sent_and_read_back() {
    let tx = Psbt::deserialize(psbt(1).serialize()).unwrap();
    let request = connected().submit_redeem_transaction(&tx).unwrap();
    assert_eq!(request.redeem_tx, psbt_text(1));
    let read = submit_redeem_reply(Ok(request.redeem_tx)).unwrap();
    assert_eq!(read.serialize(), tx.serialize());
    let busy = "busy".to_string();
    assert_eq!(submit_redeem_reply(Err(busy.clone())), Err(Error::Request(busy)));
    assert_eq!(
        submit_redeem_reply(Ok("?".to_string())),
        Err(Error::Conversion(base64_error("?")))
    );
    assert_eq!(
        submit_redeem_reply(Ok("cHNidA==".to_string())),
        Err(Error::Conversion(psbt_error(b"psbt")))
    );
}

#[test]
fn trees_are_sent_in_hex() {
    let key = PublicKey { bytes: [3; 33] };
    let nonces =
        connected().submit_tree_nonces("r".to_string(), &key, Ok(vec![1, 0xff])).unwrap();
    assert_eq!(
        nonces,
        wire::SubmitTreeNoncesRequest {
            round_id: "r".to_string(),
            pubkey: "03".repeat(33),
            tree_nonces: "01ff".to_string(),
        }
    );
    let signatures =
        connected().submit_tree_signatures("r".to_string(), &key, Ok(vec![0xa0])).unwrap();
    assert_eq!(signatures.tree_signatures, "a0");
    assert_eq!(signatures.pubkey, "03".repeat(33));
    let client = connected();
    let bad = "no tree".to_string();
    assert_eq!(
        client.submit_tree_nonces("r".to_string(), &key, Err(bad.clone())),
        Err(Error::Conversion(bad.clone()))
    );
    assert_eq!(
        client.submit_tree_signatures("r".to_string(), &key, Err(bad.clone())),
        Err(Error::Conversion(bad))
    );
}

#[test]
fn signed_transactions_are_sent_in_base64() {
    let ours = |seed| Psbt::deserialize(psbt(seed).serialize()).unwrap();
    assert_eq!(
        connected().submit_signed_forfeit_txs(&vec![ours(1), ours(2)], &ours(3)),
        Ok(wire::SubmitSignedForfeitTxsRequest {
            signed_forfeit_txs: vec![psbt_text(1), psbt_text(2)],
            signed_round_tx: Some(psbt_text(3)),
        })
    );
    assert_eq!(
        connected().submit_signed_forfeit_txs(&vec![], &ours(3)).unwrap().signed_forfeit_txs.len(),
        0
    );
}

#[test]
fn small_requests_carry_their_argument() {
    let client = connected();
    assert_eq!(client.list_vtxos("ark1".to_string()).unwrap().address, "ark1");
    assert_eq!(client.ping("id".to_string()).unwrap().request_id, "id");
    assert_eq!(client.get_round("txid".to_string()).unwrap().txid, "txid");
    assert_eq!(plain_reply(Ok(3)), Ok(3));
    let cause = "busy".to_string();
    assert_eq!(plain_reply::<u8>(Err(cause.clone())), Err(Error::Request(cause.clone())));
    assert_eq!(get_info_reply(Ok(Ok(3))), Ok(3));
    assert_eq!(get_info_reply::<u8>(Ok(Err(cause.clone()))), Err(Error::Conversion(cause.clone())));
    assert_eq!(get_info_reply::<u8>(Err(cause.clone())), Err(Error::Request(cause)));
    assert_eq!(ping_reply(None), Ok(()));
    assert_eq!(ping_reply(Some("late".to_string())), Err(Error::Ping("late".to_string())));
}

#[test]
fn streams_hand_on_what_they_get() {
    let step = |received| stream_step::<wire::Event, RoundStreamEvent>(received);
    let failed = wire::Event::RoundFailed(wire::RoundFailed { id: String::new(), reason: String::new() });
    assert!(matches!(step(Received::Message(None)), StreamStep::Skip));
    assert!(matches!(
        step(Received::Message(Some(failed))),
        StreamStep::Yield(Ok(RoundStreamEvent::RoundFailed(_)))
    ));
    assert!(matches!(step(Received::End), StreamStep::Yield(Err(Error::EventStreamDisconnect))));
    assert!(matches!(
        step(Received::Broken("gone".to_string())),
        StreamStep::Yield(Err(Error::EventStream(cause))) if cause == "gone"
    ));
    let unreadable = wire::Event::RoundFinalized(wire::RoundFinalizedEvent {
        id: String::new(),
        round_txid: String::new(),
    });
    assert!(matches!(
        step(Received::Message(Some(unreadable))),
        StreamStep::Last(Error::Conversion(cause)) if cause == txid_error("")
    ));
}

#[test]
fn the_first_cause_is_kept() {
    let cause = |bad: &wire::Node| match Node::from_wire(bad) {
        Err(Error::Conversion(cause)) => cause,
        _ => panic!("a conversion error"),
    };
    let mut bad = node(1);
    bad.parent_txid = "xy".to_string();
    assert_eq!(cause(&bad), txid_error("xy"));
    bad.tx = "cHNidA==".to_string();
    assert_eq!(cause(&bad), psbt_error(b"psbt"));
    bad.tx = "c".to_string();
    assert_eq!(cause(&bad), base64_error("c"));
    bad.txid = "z".repeat(64);
    assert_eq!(cause(&bad), txid_error(&"z".repeat(64)));
    assert_ne!(txid_error("xy"), txid_error(&"z".repeat(64)));
}

#[test]
fn the_causes_of_a_signing_event_have_an_order() {
    let cause = |bad: wire::RoundSigningEvent| {
        match RoundStreamEvent::from_wire(&wire::Event::RoundSigning(bad)) {
            Err(Error::Conversion(cause)) => cause,
            _ => panic!("a conversion error"),
        }
    };
    let keys = vec!["03".to_string(), "no key".to_string()];
    let mut tree = tree();
    tree.levels[1].nodes[0].txid = "1".to_string();
    let bad = |round_tx: String, unsigned_vtxo_tree| wire::RoundSigningEvent {
        cosigners_pubkeys: keys.clone(),
        unsigned_vtxo_tree,
        unsigned_round_tx: round_tx,
        ..signing_event()
    };
    assert_eq!(cause(bad("!".to_string(), Some(tree.clone()))), base64_error("!"));
    assert_eq!(cause(bad("cHNidA==".to_string(), Some(tree.clone()))), txid_error("1"));
    assert_eq!(cause(bad("cHNidA==".to_string(), None)), psbt_error(b"psbt"));
    assert_eq!(
        cause(bad(psbt_text(7), None)),
        bitcoin::secp256k1::PublicKey::from_str("03").unwrap_err().to_string()
    );
}

use ark_client::error::Error;
use ark_client::forfeit::VtxoInput;
use ark_client::keys::Keypair;
use ark_client::psbt::{Psbt, SpendPath};
use ark_client::round::{
    after_ping, after_round, AfterRound, NonceTree, Participant, RoundAction, RoundSession, RoundStep, Wanted,
};
use ark_client::server::{
    Info, Network, Node, PublicKey, RoundFailedEvent, RoundFinalizationEvent, RoundFinalizedEvent,
    RoundSigningEvent, RoundSigningNoncesGeneratedEvent, RoundStreamEvent, Tree, TreeLevel, VtxoOutPoint,
};
use ark_client::signing::OwnedOutput;
use ark_client::tree::{jobs_of_tree, message_of};
use ark_client::tx::{OutPoint, Txid};
use ark_client::vtxo::DefaultVtxo;
use bitcoin::sighash::{Prevouts, SighashCache};
use bitcoin::{Amount, ScriptBuf, TapSighashType};

fn transaction(inputs: &[bitcoin::OutPoint], outputs: &[u64]) -> bitcoin::Psbt {
    bitcoin::Psbt::from_unsigned_tx(bitcoin::Transaction {
        version: bitcoin::transaction::Version::TWO,
        lock_time: bitcoin::absolute::LockTime::ZERO,
        input: inputs
            .iter()
            .map(|o| bitcoin::TxIn { previous_output: *o, ..Default::default() })
            .collect(),
        output: outputs
            .iter()
            .map(|value| bitcoin::TxOut {
                value: Amount::from_sat(*value),
                script_pubkey: ScriptBuf::from(vec![0x51, *value as u8]),
            })
            .collect(),
    })
    .unwrap()
}

fn spends(psbt: &bitcoin::Psbt, vout: u32) -> bitcoin::OutPoint {
    bitcoin::OutPoint::new(psbt.unsigned_tx.compute_txid(), vout)
}

fn outpoint(seed: u8) -> bitcoin::OutPoint {
    bitcoin::OutPoint::new(bitcoin::hashes::Hash::from_byte_array([seed; 32]), 0)
}

fn txid(psbt: &bitcoin::Psbt) -> Txid {
    Txid { bytes: bitcoin::hashes::Hash::to_byte_array(psbt.unsigned_tx.compute_txid()) }
}

fn ours(psbt: &bitcoin::Psbt) -> Psbt {
    Psbt::deserialize(psbt.serialize()).unwrap()
}

struct Transactions {
    round: bitcoin::Psbt,
    root: bitcoin::Psbt,
    left: bitcoin::Psbt,
    right: bitcoin::Psbt,
}

fn transactions() -> Transactions {
    let mut round = transaction(&[outpoint(1)], &[100, 200]);
    round.inputs[0].witness_utxo = Some(bitcoin::TxOut {
        value: Amount::from_sat(400),
        script_pubkey: ScriptBuf::from(vec![0x51]),
    });
    let root = transaction(&[spends(&round, 1)], &[120, 80]);
    let left = transaction(&[spends(&root, 0)], &[110]);
    let right = transaction(&[spends(&root, 1)], &[70]);
    Transactions { round, root, left, right }
}

fn tree(t: &Transactions) -> Tree {
    let node = |psbt: &bitcoin::Psbt, parent: &bitcoin::Psbt| Node {
        txid: txid(psbt),
        tx: ours(psbt),
        parent_txid: txid(parent),
    };
    Tree {
        levels: vec![
            TreeLevel { nodes: vec![node(&t.root, &t.round)] },
            TreeLevel { nodes: vec![node(&t.left, &t.root), node(&t.right, &t.root)] },
        ],
    }
}

fn key(byte: u8) -> PublicKey {
    PublicKey { bytes: [byte; 33] }
}

fn signing(t: &Transactions) -> RoundStreamEvent {
    RoundStreamEvent::RoundSigning(RoundSigningEvent {
        id: "ours".to_string(),
        cosigners_pubkeys: vec![key(3), key(2)],
        unsigned_vtxo_tree: Some(tree(t)),
        unsigned_round_tx: ours(&t.round),
    })
}

fn combined_nonces() -> Vec<Vec<Vec<u8>>> {
    vec![vec![vec![10]], vec![vec![11], vec![12]]]
}

fn combined(nonces: Vec<Vec<Vec<u8>>>) -> RoundStreamEvent {
    RoundStreamEvent::RoundSigningNoncesGenerated(RoundSigningNoncesGeneratedEvent {
        id: "ours".to_string(),
        tree_nonces: nonces,
    })
}

fn finalization(t: &Transactions) -> RoundStreamEvent {
    RoundStreamEvent::RoundFinalization(RoundFinalizationEvent {
        id: "ours".to_string(),
        round_tx: ours(&t.round),
        vtxo_tree: None,
        connectors: vec![ours(&t.round)],
        min_relay_fee_rate: 250,
    })
}

fn finalized() -> RoundStreamEvent {
    RoundStreamEvent::RoundFinalized(RoundFinalizedEvent {
        id: "ours".to_string(),
        round_txid: Txid { bytes: [0x77; 32] },
    })
}

fn failed(id: &str) -> RoundStreamEvent {
    RoundStreamEvent::RoundFailed(RoundFailedEvent { id: id.to_string(), reason: String::new() })
}

fn nonces() -> NonceTree<&'static str> {
    NonceTree {
        secret: vec![vec!["a"], vec!["b", "c"]],
        public: vec![vec![vec![1]], vec![vec![2], vec![3]]],
    }
}

fn no_nonces() -> NonceTree<&'static str> {
    NonceTree { secret: vec![], public: vec![] }
}

fn pair() -> Keypair {
    Keypair::from_secret([0x33; 32]).unwrap()
}

fn info() -> Info {
    Info {
        pubkey: String::new(),
        round_lifetime: 0,
        unilateral_exit_delay: 0,
        network: Network::Regtest,
        dust: 100,
        boarding_descriptor_template: String::new(),
        forfeit_address: "bcrt1qw508d6qejxtdg4y5r3zarvary0c5xw7kygt080".to_string(),
    }
}

fn path() -> SpendPath {
    let secp = bitcoin::secp256k1::Secp256k1::new();
    let script = ScriptBuf::from(vec![0x51]);
    let key = bitcoin::XOnlyPublicKey::from_slice(&pair().x_only_public_key()).unwrap();
    let spend = bitcoin::taproot::TaprootBuilder::new()
        .add_leaf(0, script.clone())
        .unwrap()
        .finalize(&secp, key)
        .unwrap();
    let version = bitcoin::taproot::LeafVersion::TapScript;
    SpendPath {
        script: script.to_bytes(),
        control_block: spend.control_block(&(script, version)).unwrap().serialize(),
        leaf_version: version.to_consensus(),
    }
}

fn vtxo() -> VtxoInput {
    VtxoInput {
        outpoint: VtxoOutPoint {
            outpoint: Some(OutPoint { txid: Txid { bytes: [5; 32] }, vout: 0 }),
            amount: 1_000,
            round_txid: String::new(),
            redeem_tx: String::new(),
        },
        vtxo: DefaultVtxo {
            output_key: [0; 32],
            script_pubkey: vec![0x51],
            ark_descriptor: String::new(),
            forfeit: path(),
        },
    }
}

fn boarding() -> OwnedOutput {
    OwnedOutput {
        outpoint: Some(OutPoint { txid: Txid { bytes: [1; 32] }, vout: 0 }),
        path: path(),
    }
}

type Reaction = Option<RoundAction<&'static str>>;

fn react(
    session: &mut RoundSession<&'static str>,
    event: RoundStreamEvent,
    nonces: NonceTree<&'static str>,
    fees: Vec<u64>,
) -> Reaction {
    let who = Participant {
        info: &info(),
        pair: &pair(),
        boarding: &vec![boarding()],
        vtxos: &vec![vtxo()],
    };
    session.react(&who, Some(Ok(event)), nonces, &fees)
}

fn started(t: &Transactions) -> RoundSession<&'static str> {
    let mut session = RoundSession::new();
    assert!(matches!(
        react(&mut session, signing(t), nonces(), vec![]),
        Some(RoundAction::SubmitTreeNonces { .. })
    ));
    session
}

fn signed(t: &Transactions) -> RoundSession<&'static str> {
    let mut session = started(t);
    assert!(matches!(
        react(&mut session, combined(combined_nonces()), no_nonces(), vec![]),
        Some(RoundAction::SignTree { .. })
    ));
    session
}

#[test]
fn steps_follow_each_other() {
    assert_eq!(RoundStep::Start.next(), RoundStep::RoundSigningStarted);
    assert_eq!(RoundStep::RoundSigningStarted.next(), RoundStep::RoundSigningNoncesGenerated);
    assert_eq!(RoundStep::RoundSigningNoncesGenerated.next(), RoundStep::RoundFinalization);
    assert_eq!(RoundStep::RoundFinalization.next(), RoundStep::Finalized);
    assert_eq!(RoundStep::Finalized.next(), RoundStep::Finalized);
}

#[test]
fn a_round_runs_to_its_end() {
    let t = transactions();
    let mut session = RoundSession::new();
    match react(&mut session, signing(&t), nonces(), vec![]) {
        Some(RoundAction::SubmitTreeNonces { round_id, nonces }) => {
            assert_eq!(round_id, "ours");
            assert_eq!(nonces, vec![vec![vec![1]], vec![vec![2], vec![3]]]);
        }
        _ => panic!("the public nonces"),
    }
    match react(&mut session, combined(combined_nonces()), no_nonces(), vec![]) {
        Some(RoundAction::SignTree { round_id, cosigner_pks, jobs, secret_nonces }) => {
            assert_eq!(round_id, "ours");
            assert_eq!(cosigner_pks, vec![key(2), key(3)]);
            assert_eq!(secret_nonces, vec![vec!["a"], vec!["b", "c"]]);
            assert_eq!(jobs.len(), 2);
            assert_eq!(jobs[1].len(), 2);
            assert_eq!(jobs[1][1].aggregated_nonce, vec![12]);
        }
        _ => panic!("the signatures of the tree"),
    }
    match react(&mut session, finalization(&t), no_nonces(), vec![50]) {
        Some(RoundAction::SubmitSigned { forfeit_txs, round_tx }) => {
            assert_eq!(forfeit_txs.len(), 1);
            let forfeit = bitcoin::Psbt::deserialize(forfeit_txs[0].serialize()).unwrap();
            assert_eq!(forfeit.unsigned_tx.output[0].value.to_sat(), 1_050);
            let round = bitcoin::Psbt::deserialize(round_tx.serialize()).unwrap();
            assert_eq!(round.unsigned_tx, t.round.unsigned_tx);
            assert_eq!(round.inputs[0].tap_script_sigs.len(), 1);
        }
        _ => panic!("the signed transactions"),
    }
    assert!(matches!(
        react(&mut session, finalized(), no_nonces(), vec![]),
        Some(RoundAction::Done { txid }) if txid.bytes == [0x77; 32]
    ));
}

#[test]
fn untimely_events_are_ignored() {
    let t = transactions();
    let mut session = RoundSession::new();
    for event in [combined(combined_nonces()), finalization(&t), finalized()] {
        assert!(matches!(
            react(&mut session, event, no_nonces(), vec![]),
            Some(RoundAction::Wait)
        ));
    }
    let mut session = started(&t);
    for event in [signing(&t), finalization(&t), finalized()] {
        assert!(matches!(
            react(&mut session, event, no_nonces(), vec![]),
            Some(RoundAction::Wait)
        ));
    }
    let mut session = signed(&t);
    for event in [signing(&t), combined(combined_nonces()), finalized()] {
        assert!(matches!(
            react(&mut session, event, no_nonces(), vec![]),
            Some(RoundAction::Wait)
        ));
    }
    assert!(matches!(
        react(&mut session, finalization(&t), no_nonces(), vec![0]),
        Some(RoundAction::SubmitSigned { .. })
    ));
}

#[test]
fn only_the_failure_of_the_own_round_counts() {
    let t = transactions();
    let mut session = RoundSession::new();
    assert!(matches!(
        react(&mut session, failed("ours"), no_nonces(), vec![]),
        Some(RoundAction::Wait)
    ));
    let mut session = started(&t);
    assert!(matches!(
        react(&mut session, failed("another"), no_nonces(), vec![]),
        Some(RoundAction::Wait)
    ));
    assert!(matches!(
        react(&mut session, failed("ours"), no_nonces(), vec![]),
        Some(RoundAction::Fail { error: Error::Unknown })
    ));
}

#[test]
fn a_broken_stream_is_the_end() {
    let who =
        Participant { info: &info(), pair: &pair(), boarding: &vec![], vtxos: &vec![] };
    let mut session: RoundSession<&'static str> = RoundSession::new();
    assert!(matches!(
        session.react(&who, None, no_nonces(), &vec![]),
        Some(RoundAction::Fail { error: Error::Unknown })
    ));
    assert!(matches!(
        session.react(&who, Some(Err(Error::EventStream("gone".to_string()))), no_nonces(), &vec![]),
        Some(RoundAction::Fail { error: Error::Unknown })
    ));
}

#[test]
fn what_is_wanted_depends_on_the_step() {
    let t = transactions();
    let session: RoundSession<&'static str> = RoundSession::new();
    assert_eq!(session.wanted(&signing(&t)), Wanted::Nonces { level_sizes: vec![1, 2] });
    assert_eq!(session.wanted(&finalization(&t)), Wanted::Nothing);
    assert_eq!(session.wanted(&finalized()), Wanted::Nothing);
    let session = signed(&t);
    assert_eq!(session.wanted(&signing(&t)), Wanted::Nothing);
    assert_eq!(session.wanted(&finalization(&t)), Wanted::Fees { rate: 250 });
}

#[test]
fn nonces_have_the_shape_of_the_tree() {
    let t = transactions();
    let mut session = RoundSession::new();
    assert!(react(&mut session, signing(&t), no_nonces(), vec![]).is_none());
    let mut few = nonces();
    few.secret[1].pop();
    assert!(react(&mut session, signing(&t), few, vec![]).is_none());
    let mut many = nonces();
    many.public[0].push(vec![4]);
    assert!(react(&mut session, signing(&t), many, vec![]).is_none());
    assert!(react(&mut session, signing(&t), nonces(), vec![]).is_some());
}

#[test]
fn a_round_needs_a_tree() {
    let t = transactions();
    let mut session = RoundSession::new();
    let event = RoundStreamEvent::RoundSigning(RoundSigningEvent {
        id: "ours".to_string(),
        cosigners_pubkeys: vec![],
        unsigned_vtxo_tree: None,
        unsigned_round_tx: ours(&t.round),
    });
    assert_eq!(session.wanted(&event), Wanted::Nothing);
    assert!(react(&mut session, event, no_nonces(), vec![]).is_none());
}

#[test]
fn there_is_a_combined_nonce_for_every_node() {
    let t = transactions();
    let mut session = started(&t);
    let short = vec![vec![vec![10]], vec![vec![11]]];
    assert!(react(&mut session, combined(short), no_nonces(), vec![]).is_none());
    let long = vec![vec![vec![10], vec![9]], vec![vec![11], vec![12]], vec![]];
    match react(&mut session, combined(long), no_nonces(), vec![]) {
        Some(RoundAction::SignTree { jobs, .. }) => assert_eq!(jobs[0].len(), 1),
        _ => panic!("the signatures of the tree"),
    }
}

#[test]
fn there_is_a_fee_for_every_vtxo() {
    let t = transactions();
    let mut session = signed(&t);
    assert!(react(&mut session, finalization(&t), no_nonces(), vec![]).is_none());
    assert!(react(&mut session, finalization(&t), no_nonces(), vec![2_000]).is_none());
    assert!(react(&mut session, finalization(&t), no_nonces(), vec![1_100]).is_some());
}

#[test]
fn nodes_are_signed_by_key_spend() {
    let t = transactions();
    let levels = tree(&t);
    let expected = |psbt: &bitcoin::Psbt, spent: &bitcoin::TxOut| {
        let hash = SighashCache::new(&psbt.unsigned_tx)
            .taproot_key_spend_signature_hash(
                0,
                &Prevouts::All(&[spent.clone()]),
                TapSighashType::Default,
            )
            .unwrap();
        Some(bitcoin::hashes::Hash::to_byte_array(hash))
    };
    let round = ours(&t.round);
    assert_eq!(
        message_of(&levels, &round, 0, 0),
        expected(&t.root, &t.round.unsigned_tx.output[1])
    );
    assert_eq!(
        message_of(&levels, &round, 1, 0),
        expected(&t.left, &t.root.unsigned_tx.output[0])
    );
    assert_eq!(
        message_of(&levels, &round, 1, 1),
        expected(&t.right, &t.root.unsigned_tx.output[1])
    );
    let jobs = jobs_of_tree(&levels, &round, &combined_nonces()).unwrap();
    assert_eq!(Some(jobs[1][0].message), message_of(&levels, &round, 1, 0));
}

#[test]
fn a_node_without_a_parent_cannot_be_signed() {
    let t = transactions();
    let mut levels = tree(&t);
    levels.levels[1].nodes[0].parent_txid = Txid { bytes: [0; 32] };
    assert_eq!(message_of(&levels, &ours(&t.round), 1, 0), None);
    assert!(jobs_of_tree(&levels, &ours(&t.round), &combined_nonces()).is_none());
    // The output that the root spends is not there.
    assert_eq!(message_of(&tree(&t), &ours(&t.left), 0, 0), None);
}

#[test]
fn a_failed_attempt_is_made_again() {
    let txid = Txid { bytes: [5; 32] };
    assert_eq!(after_round(Ok(txid)), AfterRound::Joined { txid });
    for error in [Error::Unknown, Error::NotConnected, Error::Request("busy".to_string())] {
        assert_eq!(after_round(Err(error)), AfterRound::Retry { seconds: 1 });
    }
}

#[test]
fn pings_go_on_whatever_comes_back() {
    assert_eq!(after_ping(Ok(())), 5_000);
    assert_eq!(after_ping(Err(Error::Ping("late".to_string()))), 5_000);
}

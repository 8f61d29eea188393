use ark_client::branch::{branch_to_root, find_in_tree};
use ark_client::broadcast::BroadcastList;
use ark_client::client::Client;
use ark_client::error::Error;
use ark_client::exit::{Answer, Question, UnilateralExit};
use ark_client::psbt::{Psbt, SpendPath};
use ark_client::redeem::RedeemPlan;
use ark_client::script::csv_sig_script;
use ark_client::server::{Node, Round, Tree, TreeLevel, VtxoOutPoint};
use ark_client::spendable::SpendableGroup;
use ark_client::tx::{OutPoint, Txid};
use ark_client::vtxo::DefaultVtxo;
use ark_client::walk::BranchWalk;
use bitcoin::taproot::LeafVersion;
use bitcoin::{Amount, ScriptBuf};

fn transaction(input: bitcoin::OutPoint, outputs: &[u64]) -> bitcoin::Psbt {
    let mut psbt = bitcoin::Psbt::from_unsigned_tx(bitcoin::Transaction {
        version: bitcoin::transaction::Version::TWO,
        lock_time: bitcoin::absolute::LockTime::ZERO,
        input: vec![bitcoin::TxIn { previous_output: input, ..Default::default() }],
        output: outputs
            .iter()
            .map(|value| bitcoin::TxOut {
                value: Amount::from_sat(*value),
                script_pubkey: ScriptBuf::from(vec![0x51, *value as u8]),
            })
            .collect(),
    })
    .unwrap();
    psbt.inputs[0].tap_key_sig =
        Some(bitcoin::taproot::Signature::from_slice(&[0x11; 64]).unwrap());
    psbt
}

fn spends(psbt: &bitcoin::Psbt, vout: u32) -> bitcoin::OutPoint {
    bitcoin::OutPoint::new(psbt.unsigned_tx.compute_txid(), vout)
}

fn txid(psbt: &bitcoin::Psbt) -> Txid {
    Txid { bytes: bitcoin::hashes::Hash::to_byte_array(psbt.unsigned_tx.compute_txid()) }
}

fn ours(psbt: &bitcoin::Psbt) -> Psbt {
    Psbt::deserialize(psbt.serialize()).unwrap()
}

struct Transactions {
    round: bitcoin::Psbt,
    root: bitcoin::Psbt,
    left: bitcoin::Psbt,
    right: bitcoin::Psbt,
}

fn put_script(psbt: &mut bitcoin::Psbt, sequence: u32) {
    let secp = bitcoin::secp256k1::Secp256k1::new();
    let key = bitcoin::secp256k1::Keypair::from_seckey_slice(&secp, &[9; 32])
        .unwrap()
        .x_only_public_key()
        .0;
    let script = ScriptBuf::from(csv_sig_script(sequence, &key.serialize()));
    let info = bitcoin::taproot::TaprootBuilder::new()
        .add_leaf(0, script.clone())
        .unwrap()
        .finalize(&secp, key)
        .unwrap();
    let leaf = (script, LeafVersion::TapScript);
    psbt.inputs[0].tap_scripts.clear();
    psbt.inputs[0].tap_scripts.insert(info.control_block(&leaf).unwrap(), leaf);
}

fn transactions() -> Transactions {
    let outside = bitcoin::OutPoint::new(bitcoin::hashes::Hash::from_byte_array([1; 32]), 0);
    let round = transaction(outside, &[10_000]);
    let mut root = transaction(spends(&round, 0), &[5_000, 4_900]);
    put_script(&mut root, 0x40_0002);
    let left = transaction(spends(&root, 0), &[4_950]);
    let right = transaction(spends(&root, 1), &[4_850]);
    Transactions { round, root, left, right }
}

fn node(psbt: &bitcoin::Psbt, parent: &bitcoin::Psbt) -> Node {
    Node { txid: txid(psbt), tx: ours(psbt), parent_txid: txid(parent) }
}

fn tree(t: &Transactions) -> Tree {
    Tree {
        levels: vec![
            TreeLevel { nodes: vec![node(&t.root, &t.round)] },
            TreeLevel { nodes: vec![node(&t.left, &t.root), node(&t.right, &t.root)] },
        ],
    }
}

fn round(t: &Transactions) -> Round {
    Round {
        id: "round".to_string(),
        start: 0,
        end: 0,
        round_tx: ours(&t.round),
        vtxo_tree: Some(tree(t)),
        forfeit_txs: vec![],
        connectors: vec![],
        stage: 0,
    }
}

fn coin(psbt: &bitcoin::Psbt, redeem_tx: &str) -> VtxoOutPoint {
    VtxoOutPoint {
        outpoint: Some(OutPoint { txid: txid(psbt), vout: 0 }),
        amount: 1,
        round_txid: "round".to_string(),
        redeem_tx: redeem_tx.to_string(),
    }
}

fn groups(outpoints: Vec<VtxoOutPoint>) -> Vec<SpendableGroup> {
    vec![SpendableGroup {
        outpoints,
        vtxo: DefaultVtxo {
            output_key: [0; 32],
            script_pubkey: vec![],
            ark_descriptor: String::new(),
            forfeit: SpendPath { script: vec![], control_block: vec![], leaf_version: 0xc0 },
        },
    }]
}

fn answer(exit: UnilateralExit, answer: Answer) -> UnilateralExit {
    match exit.answer(answer) {
        Some(Ok(exit)) => exit,
        _ => panic!("the exit goes on"),
    }
}

fn asks_on_chain(exit: &UnilateralExit, psbt: &bitcoin::Psbt) -> bool {
    exit.question() == Question::OnChain { txid: txid(psbt) }
}

/// The transaction that an exit wants to broadcast.
fn broadcasts(exit: &UnilateralExit) -> bitcoin::Transaction {
    match exit.question() {
        Question::Broadcast { tx } => bitcoin::consensus::deserialize(&tx).unwrap(),
        _ => panic!("a broadcast"),
    }
}

#[test]
fn a_whole_branch_is_broadcast_from_root_to_leaf() {
    let t = transactions();
    let exit = Client::unilateral_off_board(&groups(vec![coin(&t.right, "")]));
    assert_eq!(exit.question(), Question::Round { round_txid: "round".to_string() });
    let exit = answer(exit, Answer::Round(Some(round(&t))));
    assert!(asks_on_chain(&exit, &t.right));
    let exit = answer(exit, Answer::OnChain(false));
    assert!(asks_on_chain(&exit, &t.root));
    let exit = answer(exit, Answer::OnChain(false));
    let first = broadcasts(&exit);
    assert_eq!(first.compute_txid(), t.root.unsigned_tx.compute_txid());
    assert_eq!(first.input[0].witness.len(), 1);
    assert_eq!(first.input[0].witness.nth(0), Some(&[0x11; 64][..]));
    let exit = answer(exit, Answer::Broadcast(false));
    assert_eq!(broadcasts(&exit), first);
    let exit = answer(exit, Answer::Broadcast(true));
    assert_eq!(broadcasts(&exit).compute_txid(), t.right.unsigned_tx.compute_txid());
    let exit = answer(exit, Answer::Broadcast(true));
    assert_eq!(exit.question(), Question::Done);
    let exit = answer(exit, Answer::Broadcast(true));
    assert_eq!(exit.question(), Question::Done);
}

#[test]
fn what_is_on_chain_is_not_broadcast() {
    let t = transactions();
    let exit = UnilateralExit::new(&groups(vec![coin(&t.left, "")]));
    let exit = answer(exit, Answer::Round(Some(round(&t))));
    let exit = answer(exit, Answer::OnChain(false));
    let exit = answer(exit, Answer::OnChain(true));
    assert_eq!(broadcasts(&exit).compute_txid(), t.left.unsigned_tx.compute_txid());
    let exit = answer(exit, Answer::Broadcast(true));
    assert_eq!(exit.question(), Question::Done);
    let exit = UnilateralExit::new(&groups(vec![coin(&t.left, "")]));
    let exit = answer(exit, Answer::Round(Some(round(&t))));
    let exit = answer(exit, Answer::OnChain(true));
    assert_eq!(exit.question(), Question::Done);
}

#[test]
fn a_shared_parent_is_broadcast_once() {
    let t = transactions();
    let coins = vec![coin(&t.left, ""), coin(&t.right, ""), coin(&t.left, "")];
    let mut exit = UnilateralExit::new(&groups(coins));
    for _ in 0..3 {
        assert_eq!(exit.question(), Question::Round { round_txid: "round".to_string() });
        exit = answer(exit, Answer::Round(Some(round(&t))));
    }
    for psbt in [&t.left, &t.root, &t.right, &t.root] {
        assert!(asks_on_chain(&exit, psbt));
        exit = answer(exit, Answer::OnChain(false));
    }
    for psbt in [&t.root, &t.left, &t.right] {
        assert_eq!(broadcasts(&exit).compute_txid(), psbt.unsigned_tx.compute_txid());
        exit = answer(exit, Answer::Broadcast(true));
    }
    assert_eq!(exit.question(), Question::Done);
}

#[test]
fn vtxos_of_payments_are_left_alone() {
    let t = transactions();
    let exit = UnilateralExit::new(&groups(vec![coin(&t.left, "redeem")]));
    assert_eq!(exit.question(), Question::Done);
    assert!(!RedeemPlan::needs_round(&coin(&t.left, "redeem")));
    assert!(RedeemPlan::needs_round(&coin(&t.left, "")));
    let exit = UnilateralExit::new(&groups(vec![coin(&t.left, "redeem"), coin(&t.right, "")]));
    let exit = answer(exit, Answer::Round(Some(round(&t))));
    assert!(asks_on_chain(&exit, &t.right));
}

#[test]
fn answers_to_other_questions_change_nothing() {
    let t = transactions();
    let exit = UnilateralExit::new(&groups(vec![coin(&t.left, "")]));
    let exit = answer(exit, Answer::OnChain(true));
    let exit = answer(exit, Answer::Broadcast(true));
    assert_eq!(exit.question(), Question::Round { round_txid: "round".to_string() });
}

#[test]
fn a_missing_signature_is_an_error() {
    let mut t = transactions();
    t.right.inputs[0].tap_key_sig = None;
    let exit = UnilateralExit::new(&groups(vec![coin(&t.right, "")]));
    let exit = answer(exit, Answer::Round(Some(round(&t))));
    let exit = answer(exit, Answer::OnChain(false));
    assert!(matches!(exit.answer(Answer::OnChain(true)), Some(Err(Error::Unknown))));
}

#[test]
fn a_round_must_be_known_and_have_a_tree() {
    let t = transactions();
    let exit = || UnilateralExit::new(&groups(vec![coin(&t.left, "")]));
    assert!(exit().answer(Answer::Round(None)).is_none());
    let mut bare = round(&t);
    bare.vtxo_tree = None;
    assert!(exit().answer(Answer::Round(Some(bare))).is_none());
    let mut empty = round(&t);
    empty.vtxo_tree = Some(Tree { levels: vec![] });
    assert!(exit().answer(Answer::Round(Some(empty))).is_none());
    let mut rootless = round(&t);
    rootless.vtxo_tree = Some(Tree { levels: vec![TreeLevel { nodes: vec![] }] });
    assert!(exit().answer(Answer::Round(Some(rootless))).is_none());
}

#[test]
fn a_root_without_scripts_gives_no_branch() {
    let mut t = transactions();
    t.root.inputs[0].tap_scripts.clear();
    let exit = UnilateralExit::new(&groups(vec![coin(&t.left, "")]));
    let exit = answer(exit, Answer::Round(Some(round(&t))));
    assert_eq!(exit.question(), Question::Done);
}

#[test]
fn the_lifetime_of_a_tree_counts_in_time() {
    let t = transactions();
    let plan = RedeemPlan::new().with_vtxo(&coin(&t.left, ""), Some(round(&t))).unwrap();
    assert_eq!(plan.branches().len(), 1);
    assert_eq!(plan.branches()[0].lifetime, 1_024);
    let mut t = transactions();
    put_script(&mut t.root, 2);
    assert!(RedeemPlan::new().with_vtxo(&coin(&t.left, ""), Some(round(&t))).is_none());
}

#[test]
fn a_vtxo_is_a_leaf() {
    let t = transactions();
    assert!(RedeemPlan::new().with_vtxo(&coin(&t.root, ""), Some(round(&t))).is_none());
    let mut nowhere = coin(&t.left, "");
    nowhere.outpoint = None;
    assert!(RedeemPlan::new().with_vtxo(&nowhere, Some(round(&t))).is_none());
}

#[test]
fn the_tree_of_a_round_is_the_first_that_came() {
    let t = transactions();
    let plan = RedeemPlan::new().with_vtxo(&coin(&t.left, ""), Some(round(&t))).unwrap();
    let mut bare = round(&t);
    bare.vtxo_tree = None;
    let plan = plan.with_vtxo(&coin(&t.right, ""), Some(bare)).unwrap();
    let keys: Vec<Txid> =
        plan.branches().iter().map(|b| b.vtxo.outpoint.unwrap().txid).collect();
    assert_eq!(keys, vec![txid(&t.left), txid(&t.right)]);
    let mut later = coin(&t.left, "");
    later.amount = 7;
    let plan = plan.with_vtxo(&later, Some(round(&t))).unwrap();
    assert_eq!(plan.branches().len(), 2);
    assert_eq!(plan.branches()[0].vtxo.amount, 7);
}

#[test]
fn branches_lead_from_the_root_to_the_leaf() {
    let t = transactions();
    let levels = tree(&t);
    let leaf = find_in_tree(&levels, &txid(&t.right)).unwrap();
    let branch = branch_to_root(&levels, &txid(&t.root), leaf).unwrap();
    let txids: Vec<Txid> = branch.iter().map(|p| p.txid()).collect();
    assert_eq!(txids, vec![txid(&t.root), txid(&t.right)]);
    let root = find_in_tree(&levels, &txid(&t.root)).unwrap();
    assert_eq!(branch_to_root(&levels, &txid(&t.root), root).unwrap().len(), 1);
    assert!(find_in_tree(&levels, &txid(&t.round)).is_none());
}

#[test]
fn a_root_that_cannot_be_reached_gives_no_branch() {
    let t = transactions();
    // The two leaves name each other as parents.
    let levels = Tree {
        levels: vec![
            TreeLevel { nodes: vec![node(&t.root, &t.round)] },
            TreeLevel { nodes: vec![node(&t.left, &t.right), node(&t.right, &t.left)] },
        ],
    };
    let leaf = find_in_tree(&levels, &txid(&t.right)).unwrap();
    assert!(branch_to_root(&levels, &txid(&t.root), leaf).is_none());
    let orphan = Tree {
        levels: vec![
            TreeLevel { nodes: vec![node(&t.root, &t.round)] },
            TreeLevel { nodes: vec![node(&t.left, &t.round)] },
        ],
    };
    let leaf = find_in_tree(&orphan, &txid(&t.left)).unwrap();
    assert!(branch_to_root(&orphan, &txid(&t.root), leaf).is_none());
}

#[test]
fn a_walk_tells_each_transaction_what_it_spends() {
    let t = transactions();
    let plan = RedeemPlan::new().with_vtxo(&coin(&t.right, ""), Some(round(&t))).unwrap();
    let branch = &plan.branches()[0];
    let walk = BranchWalk::new(branch);
    assert_eq!(walk.question(branch), Some(txid(&t.right)));
    let walk = walk.answer(branch, false).unwrap().answer(branch, false).unwrap();
    assert!(walk.is_over());
    assert_eq!(walk.question(branch), None);
    let pending: Vec<bitcoin::Psbt> =
        walk.pending().iter().map(|p| bitcoin::Psbt::deserialize(p.serialize()).unwrap()).collect();
    assert_eq!(pending[0].inputs[0].witness_utxo, Some(t.round.unsigned_tx.output[0].clone()));
    assert_eq!(pending[1].inputs[0].witness_utxo, Some(t.root.unsigned_tx.output[1].clone()));
    let list = BroadcastList::new().with_branch(walk.pending()).unwrap().unwrap();
    assert_eq!(*list.txids(), vec![txid(&t.root), txid(&t.right)]);
    assert_eq!(list.txs().len(), 2);
    assert!(list.contains(&txid(&t.root)));
    assert!(!list.contains(&txid(&t.left)));
}

#[test]
fn a_walk_needs_the_spent_output() {
    let mut t = transactions();
    t.left = transaction(spends(&t.root, 2), &[1]);
    let plan = RedeemPlan::new().with_vtxo(&coin(&t.left, ""), Some(round(&t))).unwrap();
    let branch = &plan.branches()[0];
    assert!(BranchWalk::new(branch).answer(branch, false).is_none());
}

#[test]
fn a_walk_passes_over_shorter_transactions() {
    let mut t = transactions();
    // The round transaction has one output, and the leaf spends the second one of the root.
    t.right = transaction(spends(&t.root, 1), &[4_850]);
    let plan = RedeemPlan::new().with_vtxo(&coin(&t.right, ""), Some(round(&t))).unwrap();
    let branch = &plan.branches()[0];
    let walk = BranchWalk::new(branch).answer(branch, false).unwrap();
    let leaf = bitcoin::Psbt::deserialize(walk.pending()[0].serialize()).unwrap();
    assert_eq!(leaf.inputs[0].witness_utxo, Some(t.root.unsigned_tx.output[1].clone()));
    // A branch whose first transaction is too short for what the last one spends of the second.
    let middle = transaction(spends(&t.left, 0), &[1_000, 900, 800]);
    let last = transaction(spends(&middle, 2), &[700]);
    let levels = Tree {
        levels: vec![
            TreeLevel { nodes: vec![node(&t.root, &t.round)] },
            TreeLevel { nodes: vec![node(&t.left, &t.root)] },
            TreeLevel { nodes: vec![node(&middle, &t.left)] },
            TreeLevel { nodes: vec![node(&last, &middle)] },
        ],
    };
    let mut deep = round(&t);
    deep.vtxo_tree = Some(levels);
    let plan = RedeemPlan::new().with_vtxo(&coin(&last, ""), Some(deep)).unwrap();
    let branch = &plan.branches()[0];
    let walk = BranchWalk::new(branch).answer(branch, false).unwrap();
    let leaf = bitcoin::Psbt::deserialize(walk.pending()[0].serialize()).unwrap();
    assert_eq!(leaf.inputs[0].witness_utxo, Some(middle.unsigned_tx.output[2].clone()));
}

#[test]
fn parents_are_broadcast_before_children_across_branches() {
    let mut t = transactions();
    // Two leaves hang on the left child of the root, one on the right one.
    t.left = transaction(spends(&t.root, 0), &[2_000, 2_000]);
    let first = transaction(spends(&t.left, 0), &[1_900]);
    let second = transaction(spends(&t.left, 1), &[1_900]);
    let third = transaction(spends(&t.right, 0), &[4_800]);
    let deep = || {
        let mut deep = round(&t);
        deep.vtxo_tree = Some(Tree {
            levels: vec![
                TreeLevel { nodes: vec![node(&t.root, &t.round)] },
                TreeLevel { nodes: vec![node(&t.left, &t.root), node(&t.right, &t.root)] },
                TreeLevel {
                    nodes: vec![node(&first, &t.left), node(&second, &t.left), node(&third, &t.right)],
                },
            ],
        });
        deep
    };
    let coins = vec![coin(&third, ""), coin(&second, ""), coin(&first, "")];
    let mut exit = UnilateralExit::new(&groups(coins));
    let mut sent: Vec<bitcoin::Transaction> = Vec::new();
    loop {
        let reply = match exit.question() {
            Question::Round { .. } => Answer::Round(Some(deep())),
            Question::OnChain { txid: asked } => Answer::OnChain(asked == txid(&t.right)),
            Question::Broadcast { tx } => {
                sent.push(bitcoin::consensus::deserialize(&tx).unwrap());
                Answer::Broadcast(true)
            }
            Question::Done => break,
        };
        exit = answer(exit, reply);
    }
    let ids: Vec<bitcoin::Txid> = sent.iter().map(|tx| tx.compute_txid()).collect();
    let mut expected: Vec<bitcoin::Txid> = [&t.root, &t.left, &first, &second, &third]
        .iter()
        .map(|psbt| psbt.unsigned_tx.compute_txid())
        .collect();
    // The root is missing below the left branch only.
    let mut found = ids.clone();
    expected.sort();
    found.sort();
    assert_eq!(found, expected);
    for tx in &sent {
        let node = [&t.root, &t.left, &first, &second, &third]
            .into_iter()
            .find(|psbt| psbt.unsigned_tx.compute_txid() == tx.compute_txid())
            .unwrap();
        assert_eq!(tx.output, node.unsigned_tx.output);
        assert_eq!(tx.input[0].witness.to_vec(), vec![vec![0x11; 64]]);
    }
    for (j, tx) in sent.iter().enumerate() {
        if let Some(i) = ids.iter().position(|id| *id == tx.input[0].previous_output.txid) {
            assert!(i < j);
        }
    }
    assert!(!ids.contains(&t.right.unsigned_tx.compute_txid()));
}

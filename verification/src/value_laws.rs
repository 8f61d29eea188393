//! What the values of types hold: contracts speak of values, and a value holds each field of what it is
//! the value of, under the name of the field.

use vstd::prelude::*;

use crate::exit::{Answer, AnswerView, Question, QuestionView};
use crate::forfeit::{Connector, VtxoInput};
use crate::grpc::{RoundInput, RoundOutput};
use crate::oor::{ArkAddress, Payment, PaymentInput, PaymentOutput};
use crate::psbt::{PsbtParts, SpendPath, TapInput, TxHead};
use crate::redeem::{RedeemBranch, RoundTree};
use crate::registration::{
    BoardingInput, RoundInputs, RoundOutputType, RoundOutputTypeView, RoundOutputs,
};
use crate::round::{ActionView, NonceTree, Participant, RoundAction, Wanted, WantedView};
use crate::server::{
    ListVtxo, Node, RedeemTransaction, Round, RoundFailedEvent, RoundFinalizationEvent,
    RoundFinalizedEvent, RoundSigningEvent, RoundSigningNoncesGeneratedEvent, RoundStreamEvent,
    RoundStreamEventView, RoundTransaction, TransactionEvent, TransactionEventView, Tree,
    VtxoOutPoint,
};
use crate::signing::OwnedOutput;
use crate::spendable::{BoardingAddress, RoundFunds, SpendableGroup, Utxo};
use crate::taproot::SpendInfo;
use crate::tree::SignJob;
use crate::tx::{OutPoint, TxOut};
use crate::views;
use crate::vtxo::{BoardingOutput, DefaultVtxo};

verus! {

/// A reference to an output, and an output, show all their fields.
pub proof fn law_transaction_shows_its_fields(outpoint: OutPoint, output: TxOut)
    ensures
        outpoint@.txid == outpoint.txid@,
        outpoint@.vout == outpoint.vout,
        output@.value == output.value,
        output@.script_pubkey == output.script_pubkey@,
{
}

/// A partially signed transaction and a final one show all that is read of them.
pub proof fn law_psbt_shows_its_fields(parts: PsbtParts, input: TapInput, head: TxHead)
    ensures
        parts@.inputs == views::views(parts.inputs@),
        parts@.outputs == views::views(parts.outputs@),
        parts@.witness_utxos.len() == parts.witness_utxos@.len(),
        forall|i: int|
            0 <= i < parts.witness_utxos@.len() ==> parts@.witness_utxos[i] == views::option_view(
                #[trigger] parts.witness_utxos@[i],
            ),
        input@.key_sig == views::option_view(input.key_sig),
        input@.scripts == views::views(input.scripts@),
        input@.script_sig == input.script_sig@,
        input@.witness == views::views(input.witness@),
        head@.txid == head.txid@,
        head@.inputs == views::views(head.inputs@),
        head@.outputs == views::views(head.outputs@),
        head@.script_sigs == views::views(head.script_sigs@),
        head@.witnesses == views::views2(head.witnesses@),
{
}

/// A leaf and an output with one leaf show all their fields.
pub proof fn law_taproot_output_shows_its_fields(path: SpendPath, info: SpendInfo)
    ensures
        path@.script == path.script@,
        path@.control_block == path.control_block@,
        path@.leaf_version == path.leaf_version,
        info@.internal_key == info.internal_key@,
        info@.merkle_root == info.merkle_root@,
        info@.tap_tweak == info.tap_tweak@,
        info@.output_key == info.output_key@,
        info@.output_key_odd == info.output_key_odd,
        info@.leaf == info.leaf@,
{
}

/// The output of a VTXO and that of a boarding address show all their fields.
pub proof fn law_script_shows_its_fields(vtxo: DefaultVtxo, boarding: BoardingOutput)
    ensures
        vtxo@.output_key == vtxo.output_key@,
        vtxo@.script_pubkey == vtxo.script_pubkey@,
        vtxo@.ark_descriptor == vtxo.ark_descriptor@,
        vtxo@.forfeit == vtxo.forfeit@,
        boarding@.address == boarding.address@,
        boarding@.ark_descriptor == boarding.ark_descriptor@,
        boarding@.forfeit == boarding.forfeit@,
{
}

/// A VTXO, the VTXOs of an address and a node of a tree show all their fields.
pub proof fn law_vtxo_shows_its_fields(vtxo: VtxoOutPoint, list: ListVtxo, node: Node)
    ensures
        vtxo@.outpoint == views::option_view(vtxo.outpoint),
        vtxo@.amount == vtxo.amount,
        vtxo@.round_txid == vtxo.round_txid@,
        vtxo@.redeem_tx == vtxo.redeem_tx@,
        list@.spent == views::views(list.spent@),
        list@.spendable == views::views(list.spendable@),
        node@.txid == node.txid@,
        node@.tx == node.tx@,
        node@.parent_txid == node.parent_txid@,
{
}

/// The events of a round show all their fields.
pub proof fn law_event_shows_its_fields(
    signing: RoundSigningEvent,
    generated: RoundSigningNoncesGeneratedEvent,
    finalization: RoundFinalizationEvent,
    finalized: RoundFinalizedEvent,
    failed: RoundFailedEvent,
)
    ensures
        signing@.id == signing.id@,
        signing@.cosigners_pubkeys == views::views(signing.cosigners_pubkeys@),
        signing@.unsigned_vtxo_tree == views::option_view(signing.unsigned_vtxo_tree),
        signing@.unsigned_round_tx == signing.unsigned_round_tx@,
        generated@.id == generated.id@,
        generated@.tree_nonces == views::views2(generated.tree_nonces@),
        finalization@.id == finalization.id@,
        finalization@.round_tx == finalization.round_tx@,
        finalization@.vtxo_tree == views::option_view(finalization.vtxo_tree),
        finalization@.connectors == views::views(finalization.connectors@),
        finalization@.min_relay_fee_rate == finalization.min_relay_fee_rate,
        finalized@.id == finalized.id@,
        finalized@.round_txid == finalized.round_txid@,
        failed@.id == failed.id@,
        failed@.reason == failed.reason@,
{
}

/// A round of the past shows all its fields.
pub proof fn law_round_shows_its_fields(round: Round)
    ensures
        round@.id == round.id@,
        round@.start == round.start,
        round@.end == round.end,
        round@.round_tx == round.round_tx@,
        round@.vtxo_tree == views::option_view(round.vtxo_tree),
        round@.forfeit_txs == views::views(round.forfeit_txs@),
        round@.connectors == views::views(round.connectors@),
        round@.stage == round.stage,
{
}

/// What a round and an off-chain payment did to the outputs shows all its fields.
pub proof fn law_transaction_event_shows_its_fields(
    round: RoundTransaction,
    redeem: RedeemTransaction,
)
    ensures
        round@.txid == round.txid@,
        round@.spent_vtxos == views::views(round.spent_vtxos@),
        round@.spendable_vtxos == views::views(round.spendable_vtxos@),
        round@.claimed_boarding_utxos == views::views(round.claimed_boarding_utxos@),
        redeem@.txid == redeem.txid@,
        redeem@.spent_vtxos == views::views(redeem.spent_vtxos@),
        redeem@.spendable_vtxos == views::views(redeem.spendable_vtxos@),
{
}

/// What is to be signed shows all its fields.
pub proof fn law_signing_job_shows_its_fields(job: SignJob, owned: OwnedOutput)
    ensures
        job@.message == job.message@,
        job@.aggregated_nonce == job.aggregated_nonce@,
        owned@.outpoint == views::option_view(owned.outpoint),
        owned@.path == owned.path@,
{
}

/// A VTXO to give up and a connector show all their fields.
pub proof fn law_forfeit_shows_its_fields(input: VtxoInput, connector: Connector)
    ensures
        input@.outpoint == input.outpoint@,
        input@.vtxo == input.vtxo@,
        connector@.outpoint == connector.outpoint@,
        connector@.output == connector.output@,
{
}

/// What a client owns shows all its fields.
pub proof fn law_funds_shows_its_fields(
    group: SpendableGroup,
    utxo: Utxo,
    address: BoardingAddress,
    funds: RoundFunds,
)
    ensures
        group@.outpoints == views::views(group.outpoints@),
        group@.vtxo == group.vtxo@,
        utxo@.outpoint == utxo.outpoint@,
        utxo@.amount == utxo.amount,
        address@.output == address.output@,
        address@.utxo == views::option_view(address.utxo),
        funds@.boarding == views::views(funds.boarding@),
        funds@.vtxos == views::views(funds.vtxos@),
        funds@.total_amount == funds.total_amount,
{
}

/// What is registered for a round shows all its fields.
pub proof fn law_registration_shows_its_fields(
    boarding: BoardingInput,
    input: RoundInputs,
    output: RoundOutputs,
)
    ensures
        boarding@.outpoint == boarding.outpoint@,
        boarding@.output == boarding.output@,
        input@.outpoint == views::option_view(input.outpoint),
        input@.descriptor == input.descriptor@,
        output@.address == output.address@,
        output@.amount == output.amount,
{
}

/// What is sent to be registered shows all its fields.
pub proof fn law_request_shows_its_fields(input: RoundInput, output: RoundOutput)
    ensures
        input@.outpoint == views::option_view(input.outpoint),
        input@.tapscripts == views::views(input.tapscripts@),
        output@.address == output.address@,
        output@.amount == output.amount,
{
}

/// A payment shows all its fields.
pub proof fn law_payment_shows_its_fields(
    address: ArkAddress,
    input: PaymentInput,
    output: PaymentOutput,
    payment: Payment,
)
    ensures
        address@.network == address.network,
        address@.asp == address.asp@,
        address@.vtxo_tap_key == address.vtxo_tap_key@,
        input@.forfeit_leaf_hash == input.forfeit_leaf_hash@,
        input@.outpoint == views::option_view(input.outpoint),
        input@.descriptor == input.descriptor@,
        output@.address == output.address@,
        output@.amount == output.amount,
        payment@.selected == views::views(payment.selected@),
        payment@.inputs == views::views(payment.inputs@),
        payment@.outputs == views::views(payment.outputs@),
{
}

/// A branch and the tree of a round show all their fields.
pub proof fn law_plan_shows_its_fields(branch: RedeemBranch, tree: RoundTree)
    ensures
        branch@.vtxo == branch.vtxo@,
        branch@.branch == views::views(branch.branch@),
        branch@.lifetime == branch.lifetime,
        branch@.round_tx == branch.round_tx@,
        tree@.round_txid == tree.round_txid@,
        tree@.levels == tree.tree@,
{
}

/// A level of a tree holds its nodes, and a tree its levels.
pub proof fn law_tree_shows_its_nodes(tree: Tree, i: int, j: int)
    requires
        0 <= i < tree.levels@.len(),
        0 <= j < tree.levels@[i].nodes@.len(),
    ensures
        tree@.len() == tree.levels@.len(),
        tree@[i].len() == tree.levels@[i].nodes@.len(),
        tree@[i][j] == tree.levels@[i].nodes@[j]@,
{
}

/// An event, and what is wanted from a round, is shown as one of its own kind.
pub proof fn law_kinds_are_shown(event: RoundStreamEvent, tx: TransactionEvent, wish: RoundOutputType)
    ensures
        match event {
            RoundStreamEvent::RoundFinalization(e) => event@ == RoundStreamEventView::RoundFinalization(
                e@,
            ),
            RoundStreamEvent::RoundFinalized(e) => event@ == RoundStreamEventView::RoundFinalized(e@),
            RoundStreamEvent::RoundFailed(e) => event@ == RoundStreamEventView::RoundFailed(e@),
            RoundStreamEvent::RoundSigning(e) => event@ == RoundStreamEventView::RoundSigning(e@),
            RoundStreamEvent::RoundSigningNoncesGenerated(e) => {
                event@ == RoundStreamEventView::RoundSigningNoncesGenerated(e@)
            },
        },
        match tx {
            TransactionEvent::Round(t) => tx@ == TransactionEventView::Round(t@),
            TransactionEvent::Redeem(t) => tx@ == TransactionEventView::Redeem(t@),
        },
        match wish {
            RoundOutputType::Board { to_address, to_amount } => wish@ matches RoundOutputTypeView::Board {
                to_address: address,
                to_amount: amount,
            } && address == to_address@ && amount == to_amount,
            RoundOutputType::OffBoard { to_address, to_amount, change_address, change_amount } => {
                wish@ matches RoundOutputTypeView::OffBoard {
                    to_address: address,
                    to_amount: amount,
                    change_address: back,
                    change_amount: change,
                } && address == to_address@ && amount == to_amount && back == change_address@ && change
                    == change_amount
            },
        },
{
}

/// Who takes part in a round is shown with the terms of the server and with all that is put in.
pub proof fn law_participant_shows_its_fields(who: Participant)
    ensures
        who@.forfeit_address == who.info.forfeit_address@,
        who@.network == who.info.network,
        who@.dust == who.info.dust,
        who@.secret == who.pair@,
        who@.boarding == views::views(who.boarding@),
        who@.vtxos == views::views(who.vtxos@),
{
}

/// A table of nonces shows each nonce at its place, the secret ones and the public ones.
pub proof fn law_nonces_keep_their_places<N>(nonces: NonceTree<N>, i: int)
    requires
        0 <= i < nonces.secret@.len(),
    ensures
        nonces@.secret.len() == nonces.secret@.len(),
        nonces@.secret[i] == nonces.secret@[i]@,
        nonces@.public == views::views2(nonces.public@),
{
}

/// What a session wants is shown with its numbers.
pub proof fn law_wanted_shows_its_numbers(wanted: Wanted)
    ensures
        match wanted {
            Wanted::Nothing => wanted@ == WantedView::Nothing,
            Wanted::Nonces { level_sizes } => wanted@ matches WantedView::Nonces { level_sizes: sizes }
                && sizes.len() == level_sizes@.len() && forall|i: int|
                0 <= i < sizes.len() ==> #[trigger] sizes[i] == level_sizes@[i],
            Wanted::Fees { rate } => wanted@ == (WantedView::Fees { rate }),
        },
{
}

/// What a session does is shown as one of its own kind, with all its fields.
pub proof fn law_action_shows_its_fields<N>(action: RoundAction<N>)
    ensures
        match action {
            RoundAction::Wait => action@ == ActionView::<N>::Wait,
            RoundAction::SubmitTreeNonces { round_id, nonces } => action@ matches
                ActionView::SubmitTreeNonces { round_id: id, nonces: shown } && id == round_id@ && shown
                == views::views2(nonces@),
            RoundAction::SignTree { round_id, cosigner_pks, jobs, secret_nonces } => action@ matches
                ActionView::SignTree {
                round_id: id,
                cosigner_pks: keys,
                jobs: signed,
                secret_nonces: secret,
            } && id == round_id@ && keys == views::views(cosigner_pks@) && signed == views::views2(
                jobs@,
            ) && secret.len() == secret_nonces@.len() && forall|i: int|
                0 <= i < secret.len() ==> #[trigger] secret[i] == secret_nonces@[i]@,
            RoundAction::SubmitSigned { forfeit_txs, round_tx } => action@ matches
                ActionView::SubmitSigned { forfeit_txs: forfeits, round_tx: tx } && forfeits
                == views::views(forfeit_txs@) && tx == round_tx@,
            RoundAction::Done { txid } => action@ == (ActionView::<N>::Done { txid: txid@ }),
            RoundAction::Fail { error } => action@ == (ActionView::<N>::Fail { error }),
        },
{
}

/// A question of an exit and its answer are shown as they are.
pub proof fn law_question_and_answer_are_shown(question: Question, answer: Answer)
    ensures
        match question {
            Question::Round { round_txid } => question@ == (QuestionView::Round {
                round_txid: round_txid@,
            }),
            Question::OnChain { txid } => question@ == (QuestionView::OnChain { txid: txid@ }),
            Question::Broadcast { tx } => question@ == (QuestionView::Broadcast { tx: tx@ }),
            Question::Done => question@ == QuestionView::Done,
        },
        match answer {
            Answer::Round(Some(round)) => answer@ == AnswerView::Round(Some(round@)),
            Answer::Round(None) => answer@ == AnswerView::Round(None),
            Answer::OnChain(on_chain) => answer@ == AnswerView::OnChain(on_chain),
            Answer::Broadcast(sent) => answer@ == AnswerView::Broadcast(sent),
        },
{
}

} // verus!

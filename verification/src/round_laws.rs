//! What holds of every round that the client takes part in, whatever the server sends.

use vstd::prelude::*;

use crate::cosigners;
use crate::error::Error;
use crate::forfeit;
use crate::round;
use crate::round::{ActionView, NonceTreeView, ParticipantView, RoundStep, SessionView, WantedView};
use crate::server::{
    NodeView, RoundFailedEventView, RoundFinalizationEventView, RoundFinalizedEventView, RoundSigningEventView,
    RoundSigningNoncesGeneratedEventView, RoundStreamEvent, RoundStreamEventView,
};
use crate::signing;
use crate::tree;

verus! {

/// One thing that happens to a session: what the stream gave, and what came with it.
pub struct Occurrence<N> {
    pub next: Option<Result<RoundStreamEventView, Error>>,
    pub nonces: NonceTreeView<N>,
    pub fees: Seq<u64>,
}

/// The reaction of a session to one thing that happens.
pub open spec fn reaction<N>(state: SessionView<N>, who: ParticipantView, what: Occurrence<N>) -> Option<
    (SessionView<N>, ActionView<N>),
> {
    round::react(state, who, what.next, what.nonces, what.fees)
}

/// That a session went through these states, and did this, as these things happened.
pub open spec fn is_trace<N>(
    who: ParticipantView,
    states: Seq<SessionView<N>>,
    inputs: Seq<Occurrence<N>>,
    actions: Seq<ActionView<N>>,
) -> bool {
    &&& states.len() == inputs.len() + 1
    &&& actions.len() == inputs.len()
    &&& forall|i: int|
        0 <= i < inputs.len() ==> reaction(states[i], who, #[trigger] inputs[i]) == Some(
            (states[i + 1], actions[i]),
        )
}

/// The number of a step.
pub open spec fn rank(step: RoundStep) -> int {
    match step {
        RoundStep::Start => 0,
        RoundStep::RoundSigningStarted => 1,
        RoundStep::RoundSigningNoncesGenerated => 2,
        RoundStep::RoundFinalization => 3,
        RoundStep::Finalized => 4,
    }
}

/// The step at which an event is due. The failure of a round is never due, it may come at any time.
pub open spec fn due_at(event: RoundStreamEventView) -> Option<RoundStep> {
    match event {
        RoundStreamEventView::RoundSigning(_) => Some(RoundStep::Start),
        RoundStreamEventView::RoundSigningNoncesGenerated(_) => Some(RoundStep::RoundSigningStarted),
        RoundStreamEventView::RoundFinalization(_) => Some(RoundStep::RoundSigningNoncesGenerated),
        RoundStreamEventView::RoundFinalized(_) => Some(RoundStep::RoundFinalization),
        RoundStreamEventView::RoundFailed(_) => None,
    }
}

/// An event that is not due changes nothing, and the client waits on.
pub proof fn law_untimely_event_is_ignored<N>(
    state: SessionView<N>,
    who: ParticipantView,
    event: RoundStreamEventView,
    nonces: NonceTreeView<N>,
    fees: Seq<u64>,
)
    requires
        due_at(event) is Some,
        due_at(event) != Some(state.step),
    ensures
        round::react(state, who, Some(Ok(event)), nonces, fees) == Some((state, ActionView::<N>::Wait)),
{
}

/// The failure of a round ends the session if it is the session's own round, and is ignored if not.
pub proof fn law_only_own_failure_counts<N>(
    state: SessionView<N>,
    who: ParticipantView,
    event: RoundFailedEventView,
    nonces: NonceTreeView<N>,
    fees: Seq<u64>,
)
    ensures
        round::react(
            state,
            who,
            Some(Ok(RoundStreamEventView::RoundFailed(event))),
            nonces,
            fees,
        ) == Some(
            (
                state,
                if state.round_id == Some(event.id) {
                    ActionView::<N>::Fail { error: Error::Unknown }
                } else {
                    ActionView::<N>::Wait
                },
            ),
        ),
{
}

/// A session takes one step at a time, and never one back. Each of the three things that the client
/// sends is sent at its own step, and takes the session to the next one; nothing else does.
pub proof fn law_steps_are_taken_in_order<N>(
    state: SessionView<N>,
    who: ParticipantView,
    what: Occurrence<N>,
)
    requires
        reaction(state, who, what) is Some,
    ensures
        ({
            let (after, action) = reaction(state, who, what)->0;
            match action {
                ActionView::SubmitTreeNonces { .. } => rank(state.step) == 0 && rank(after.step)
                    == 1,
                ActionView::SignTree { .. } => rank(state.step) == 1 && rank(after.step) == 2,
                ActionView::SubmitSigned { .. } => rank(state.step) == 2 && rank(after.step) == 3,
                ActionView::Done { .. } => rank(state.step) == 3 && after == state,
                _ => after == state,
            }
        }),
{
}

proof fn lemma_rank_grows<N>(
    who: ParticipantView,
    states: Seq<SessionView<N>>,
    inputs: Seq<Occurrence<N>>,
    actions: Seq<ActionView<N>>,
    i: int,
    j: int,
)
    requires
        is_trace(who, states, inputs, actions),
        0 <= i <= j < states.len(),
    ensures
        rank(states[i].step) <= rank(states[j].step),
    decreases j - i,
{
    if i < j {
        assert(reaction(states[j - 1], who, inputs[j - 1]) == Some((states[j], actions[j - 1])));
        law_steps_are_taken_in_order(states[j - 1], who, inputs[j - 1]);
        lemma_rank_grows(who, states, inputs, actions, i, j - 1);
    }
}

/// The tree is signed at most once in a session, so that no secret nonce is ever used for two
/// signatures.
pub proof fn law_nonces_are_used_once<N>(
    who: ParticipantView,
    states: Seq<SessionView<N>>,
    inputs: Seq<Occurrence<N>>,
    actions: Seq<ActionView<N>>,
    i: int,
    j: int,
)
    requires
        is_trace(who, states, inputs, actions),
        0 <= i < j < actions.len(),
    ensures
        !(actions[i] is SignTree && actions[j] is SignTree),
{
    if actions[i] is SignTree && actions[j] is SignTree {
        assert(reaction(states[i], who, inputs[i]) == Some((states[i + 1], actions[i])));
        assert(reaction(states[j], who, inputs[j]) == Some((states[j + 1], actions[j])));
        law_steps_are_taken_in_order(states[i], who, inputs[i]);
        law_steps_are_taken_in_order(states[j], who, inputs[j]);
        lemma_rank_grows(who, states, inputs, actions, i + 1, j);
    }
}

/// The secret nonces that a tree is signed with are those that were kept when the public ones were
/// handed out, and the session has none afterwards.
pub proof fn law_signing_takes_the_nonces<N>(
    state: SessionView<N>,
    who: ParticipantView,
    what: Occurrence<N>,
)
    requires
        reaction(state, who, what) matches Some((_, ActionView::SignTree { .. })),
    ensures
        ({
            let (after, action) = reaction(state, who, what)->0;
            state.secret_nonces == Some(action->secret_nonces) && after.secret_nonces is None
        }),
{
}

/// What a session holds at each step.
pub open spec fn holds_its_round<N>(state: SessionView<N>) -> bool {
    &&& state.secret_nonces is Some <==> state.step == RoundStep::RoundSigningStarted
    &&& state.step != RoundStep::Start ==> state.round_id is Some && state.unsigned_round_tx is Some
        && state.vtxo_tree is Some && state.cosigner_pks is Some
    &&& state.secret_nonces matches Some(secret) ==> tree::has_shape(secret, state.vtxo_tree->0)
}

/// From the first event on, a session holds all that its step needs: the nonces fit the tree as long
/// as there are any, and there are some just between handing them out and signing.
pub proof fn law_session_holds_its_round<N>(
    who: ParticipantView,
    states: Seq<SessionView<N>>,
    inputs: Seq<Occurrence<N>>,
    actions: Seq<ActionView<N>>,
    n: int,
)
    requires
        is_trace(who, states, inputs, actions),
        states[0] == round::fresh_session::<N>(),
        0 <= n < states.len(),
    ensures
        holds_its_round(states[n]),
    decreases n,
{
    if n > 0 {
        law_session_holds_its_round(who, states, inputs, actions, n - 1);
        assert(reaction(states[n - 1], who, inputs[n - 1]) == Some((states[n], actions[n - 1])));
    }
}

/// The action that takes a session from one step to the next.
pub open spec fn leaves_step<N>(action: ActionView<N>, from: int) -> bool {
    match action {
        ActionView::SubmitTreeNonces { .. } => from == 0,
        ActionView::SignTree { .. } => from == 1,
        ActionView::SubmitSigned { .. } => from == 2,
        _ => false,
    }
}

proof fn lemma_step_was_left<N>(
    who: ParticipantView,
    states: Seq<SessionView<N>>,
    inputs: Seq<Occurrence<N>>,
    actions: Seq<ActionView<N>>,
    n: int,
    from: int,
) -> (at: int)
    requires
        is_trace(who, states, inputs, actions),
        0 <= n < states.len(),
        rank(states[0].step) <= from,
        from < rank(states[n].step),
        0 <= from < 3,
    ensures
        0 <= at < n,
        leaves_step(actions[at], from),
        rank(states[at].step) == from,
    decreases n,
{
    assert(n > 0);
    assert(reaction(states[n - 1], who, inputs[n - 1]) == Some((states[n], actions[n - 1])));
    law_steps_are_taken_in_order(states[n - 1], who, inputs[n - 1]);
    if from < rank(states[n - 1].step) {
        lemma_step_was_left(who, states, inputs, actions, n - 1, from)
    } else {
        n - 1
    }
}

/// A round that ends well has gone all the way: the public nonces were sent, then the tree was
/// signed, then the forfeit transactions and the round transaction were sent, then the round was
/// over.
pub proof fn law_finished_round_went_all_the_way<N>(
    who: ParticipantView,
    states: Seq<SessionView<N>>,
    inputs: Seq<Occurrence<N>>,
    actions: Seq<ActionView<N>>,
    n: int,
)
    requires
        is_trace(who, states, inputs, actions),
        states[0] == round::fresh_session::<N>(),
        0 <= n < actions.len(),
        actions[n] is Done,
    ensures
        exists|i: int, j: int, k: int|
            0 <= i < j < k < n && #[trigger] actions[i] is SubmitTreeNonces && #[trigger] actions[j] is SignTree
                && #[trigger] actions[k] is SubmitSigned,
{
    assert(reaction(states[n], who, inputs[n]) == Some((states[n + 1], actions[n])));
    law_steps_are_taken_in_order(states[n], who, inputs[n]);
    let i = lemma_step_was_left(who, states, inputs, actions, n, 0);
    let j = lemma_step_was_left(who, states, inputs, actions, n, 1);
    let k = lemma_step_was_left(who, states, inputs, actions, n, 2);
    if j <= i {
        lemma_rank_grows(who, states, inputs, actions, j, i);
    }
    if k <= j {
        lemma_rank_grows(who, states, inputs, actions, k, j);
    }
    assert(actions[i] is SubmitTreeNonces && actions[j] is SignTree && actions[k] is SubmitSigned);
}

/// A round in which every event comes when it is due, and everything can be made that is to be sent,
/// ends with the transaction that the server names.
pub proof fn law_round_runs_to_its_end<N>(
    who: ParticipantView,
    signing: RoundSigningEventView,
    combined: RoundSigningNoncesGeneratedEventView,
    finalization: RoundFinalizationEventView,
    finalized: RoundFinalizedEventView,
    nonces: NonceTreeView<N>,
    fees: Seq<u64>,
)
    requires
        signing.unsigned_vtxo_tree is Some,
        tree::has_shape(nonces.secret, signing.unsigned_vtxo_tree->0),
        tree::has_shape(nonces.public, signing.unsigned_vtxo_tree->0),
        tree::tree_jobs(
            signing.unsigned_vtxo_tree->0,
            signing.unsigned_round_tx,
            combined.tree_nonces,
        ) is Some,
        fees.len() == who.vtxos.len(),
        forfeit::signed_forfeits(
            who.forfeit_address,
            who.network,
            who.dust,
            who.vtxos,
            fees,
            finalization.connectors,
            who.secret,
        ) matches Some(Ok(_)),
        signing::sign_for_outputs(finalization.round_tx, who.boarding, who.secret) matches Some(Ok(_)),
    ensures
        ({
            let first = round::react(
                round::fresh_session::<N>(),
                who,
                Some(Ok(RoundStreamEventView::RoundSigning(signing))),
                nonces,
                fees,
            );
            let second = round::react(
                (first->0).0,
                who,
                Some(Ok(RoundStreamEventView::RoundSigningNoncesGenerated(combined))),
                nonces,
                fees,
            );
            let third = round::react(
                (second->0).0,
                who,
                Some(Ok(RoundStreamEventView::RoundFinalization(finalization))),
                nonces,
                fees,
            );
            let fourth = round::react(
                (third->0).0,
                who,
                Some(Ok(RoundStreamEventView::RoundFinalized(finalized))),
                nonces,
                fees,
            );
            &&& first is Some && (first->0).1 == (ActionView::<N>::SubmitTreeNonces {
                round_id: signing.id,
                nonces: nonces.public,
            })
            &&& second is Some && (second->0).1 == (ActionView::<N>::SignTree {
                round_id: combined.id,
                cosigner_pks: cosigners::sorted_keys(signing.cosigners_pubkeys),
                jobs: tree::tree_jobs(
                    signing.unsigned_vtxo_tree->0,
                    signing.unsigned_round_tx,
                    combined.tree_nonces,
                )->0,
                secret_nonces: nonces.secret,
            })
            &&& third is Some && (third->0).1 is SubmitSigned
            &&& fourth is Some && (fourth->0).1 == (ActionView::<N>::Done {
                txid: finalized.round_txid,
            })
        }),
{
}

/// When the signing of a tree begins, the client takes the round as its own: it keeps the id, the
/// transaction, the tree, the cosigners and its secret nonces, and sends just its public nonces, under
/// the id of the round. It does so just if it has a pair of nonces for each node.
pub proof fn law_round_is_taken_as_the_own<N>(
    state: SessionView<N>,
    who: ParticipantView,
    event: RoundSigningEventView,
    nonces: NonceTreeView<N>,
    fees: Seq<u64>,
    levels: Seq<Seq<NodeView>>,
)
    requires
        state.step == RoundStep::Start,
        event.unsigned_vtxo_tree == Some(levels),
    ensures
        ({
            let after = round::react(
                state,
                who,
                Some(Ok(RoundStreamEventView::RoundSigning(event))),
                nonces,
                fees,
            );
            if nonces.secret.len() == levels.len() && nonces.public.len() == levels.len() && (forall|
                i: int,
            |
                0 <= i < levels.len() ==> (#[trigger] nonces.secret[i]).len() == levels[i].len()) && (
            forall|i: int|
                0 <= i < levels.len() ==> (#[trigger] nonces.public[i]).len() == levels[i].len()) {
                &&& after is Some
                &&& (after->0).0.step == RoundStep::RoundSigningStarted
                &&& (after->0).0.round_id == Some(event.id)
                &&& (after->0).0.unsigned_round_tx == Some(event.unsigned_round_tx)
                &&& (after->0).0.vtxo_tree == Some(levels)
                &&& (after->0).0.cosigner_pks == Some(event.cosigners_pubkeys)
                &&& (after->0).0.secret_nonces == Some(nonces.secret)
                &&& (after->0).1 == (ActionView::<N>::SubmitTreeNonces {
                    round_id: event.id,
                    nonces: nonces.public,
                })
            } else {
                after is None
            }
        }),
{
}

/// When the nonces have been combined, the client signs the tree of its own round: each node with the
/// combined nonce at its place, over the message of that node, under the keys of all cosigners in
/// order, and with the secret nonces that it kept.
pub proof fn law_own_tree_is_signed<N>(
    state: SessionView<N>,
    who: ParticipantView,
    event: RoundSigningNoncesGeneratedEventView,
    nonces: NonceTreeView<N>,
    fees: Seq<u64>,
    levels: Seq<Seq<NodeView>>,
    round_tx: Seq<u8>,
    keys: Seq<Seq<u8>>,
    secret: Seq<Seq<N>>,
    i: int,
    j: int,
)
    requires
        state.step == RoundStep::RoundSigningStarted,
        state.vtxo_tree == Some(levels),
        state.unsigned_round_tx == Some(round_tx),
        state.cosigner_pks == Some(keys),
        state.secret_nonces == Some(secret),
        round::react(
            state,
            who,
            Some(Ok(RoundStreamEventView::RoundSigningNoncesGenerated(event))),
            nonces,
            fees,
        ) is Some,
        0 <= i < levels.len(),
        0 <= j < levels[i].len(),
    ensures
        ({
            let (after, action) = round::react(
                state,
                who,
                Some(Ok(RoundStreamEventView::RoundSigningNoncesGenerated(event))),
                nonces,
                fees,
            )->0;
            &&& after == (SessionView {
                step: RoundStep::RoundSigningNoncesGenerated,
                secret_nonces: None,
                ..state
            })
            &&& action matches ActionView::SignTree { round_id, cosigner_pks, jobs, secret_nonces }
                && round_id == event.id && secret_nonces == secret && cosigner_pks.to_multiset()
                == keys.to_multiset() && vstd::relations::sorted_by(
                cosigner_pks,
                |a: Seq<u8>, b: Seq<u8>| cosigners::key_le(a, b),
            ) && jobs.len() == levels.len() && jobs[i].len() == levels[i].len()
                && jobs[i][j].aggregated_nonce == event.tree_nonces[i][j] && tree::node_message(
                levels,
                round_tx,
                i,
                j,
            ) == Some(jobs[i][j].message)
        }),
{
    cosigners::law_sorting_keeps_cosigners(keys);
    tree::law_each_node_has_its_own_nonce(levels, round_tx, event.tree_nonces, i, j);
    tree::law_one_signature_for_each_node(levels, round_tx, event.tree_nonces);
}

/// When the round is to be finalized, the client sends its forfeit transactions, made with the
/// connectors that the server sent, and the transaction of the round that the server sent, signed for
/// its boarding outputs. Where the client's own signature of the round fails, so does the round.
pub proof fn law_round_is_finalized<N>(
    state: SessionView<N>,
    who: ParticipantView,
    event: RoundFinalizationEventView,
    nonces: NonceTreeView<N>,
    fees: Seq<u64>,
)
    requires
        state.step == RoundStep::RoundSigningNoncesGenerated,
    ensures
        ({
            let forfeits = forfeit::signed_forfeits(
                who.forfeit_address,
                who.network,
                who.dust,
                who.vtxos,
                fees,
                event.connectors,
                who.secret,
            );
            let signed = signing::sign_for_outputs(event.round_tx, who.boarding, who.secret);
            let after = round::react(
                state,
                who,
                Some(Ok(RoundStreamEventView::RoundFinalization(event))),
                nonces,
                fees,
            );
            match (forfeits, signed) {
                (Some(Ok(forfeit_txs)), Some(Ok(round_tx))) => fees.len() == who.vtxos.len() ==> after
                    == Some(
                    (
                        SessionView { step: RoundStep::RoundFinalization, ..state },
                        ActionView::<N>::SubmitSigned { forfeit_txs, round_tx },
                    ),
                ),
                (Some(Ok(_)), Some(Err(error))) => fees.len() == who.vtxos.len() ==> after == Some(
                    (state, ActionView::<N>::Fail { error }),
                ),
                _ => after is None,
            }
        }),
        fees.len() != who.vtxos.len() ==> round::react(
            state,
            who,
            Some(Ok(RoundStreamEventView::RoundFinalization(event))),
            nonces,
            fees,
        ) is None,
{
}

/// A round is over with the transaction that the server names. A stream that breaks or ends is the end of
/// the round, whatever its step.
pub proof fn law_round_ends<N>(
    state: SessionView<N>,
    who: ParticipantView,
    event: RoundFinalizedEventView,
    error: Error,
    nonces: NonceTreeView<N>,
    fees: Seq<u64>,
)
    ensures
        state.step == RoundStep::RoundFinalization ==> round::react(
            state,
            who,
            Some(Ok(RoundStreamEventView::RoundFinalized(event))),
            nonces,
            fees,
        ) == Some((state, ActionView::<N>::Done { txid: event.round_txid })),
        round::react(state, who, Some(Err(error)), nonces, fees) == Some(
            (state, ActionView::<N>::Fail { error: Error::Unknown }),
        ),
        round::react(state, who, None, nonces, fees) == Some(
            (state, ActionView::<N>::Fail { error: Error::Unknown }),
        ),
{
}

/// A session asks for a pair of nonces for each node of the tree, and for the fees at the rate that the
/// server names, each when it needs them, and for nothing else. A rate below zero is taken as the number
/// with the same bits.
pub proof fn law_session_asks_for_what_it_needs<N>(
    state: SessionView<N>,
    event: RoundStreamEventView,
)
    ensures
        match round::wants(state, event) {
            WantedView::Nonces { level_sizes } => {
                &&& state.step == RoundStep::Start
                &&& event matches RoundStreamEventView::RoundSigning(e)
                    && e.unsigned_vtxo_tree matches Some(levels) && level_sizes.len() == levels.len()
                    && forall|i: int|
                    0 <= i < levels.len() ==> #[trigger] level_sizes[i] == levels[i].len()
            },
            WantedView::Fees { rate } => {
                &&& state.step == RoundStep::RoundSigningNoncesGenerated
                &&& event matches RoundStreamEventView::RoundFinalization(e) && rate == (
                if e.min_relay_fee_rate >= 0 {
                    e.min_relay_fee_rate as int
                } else {
                    e.min_relay_fee_rate + 0x1_0000_0000_0000_0000
                })
            },
            WantedView::Nothing => match event {
                RoundStreamEventView::RoundSigning(e) => state.step != RoundStep::Start
                    || e.unsigned_vtxo_tree is None,
                RoundStreamEventView::RoundFinalization(_) => state.step
                    != RoundStep::RoundSigningNoncesGenerated,
                _ => true,
            },
        },
{
    if let RoundStreamEventView::RoundFinalization(e) = event {
        let rate: i64 = e.min_relay_fee_rate;
        assert(rate < 0 ==> rate as u64 == rate + 0x1_0000_0000_0000_0000) by (bit_vector);
    }
}

/// The steps of a round follow each other in their order.
pub proof fn law_steps_follow_each_other(step: RoundStep)
    ensures
        rank(round::step_after(step)) == (if rank(step) < 4 {
            rank(step) + 1
        } else {
            4
        }),
{
}

/// What a stream of events gives is handed on as it is: an event by its value, an error, or the end.
pub proof fn law_events_are_handed_on(next: Option<Result<RoundStreamEvent, Error>>)
    ensures
        match next {
            Some(Ok(event)) => round::received(next) == Some(
                Ok::<RoundStreamEventView, Error>(event@),
            ),
            Some(Err(error)) => round::received(next) == Some(
                Err::<RoundStreamEventView, Error>(error),
            ),
            None => round::received(next) is None,
        },
{
}

} // verus!

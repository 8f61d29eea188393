//! Taking part in a round.
//!
//! The server drives a round by its events; [`RoundSession`] says what the client does about each of
//! them. What the session cannot make itself, it asks for ([`RoundSession::wanted`]): the nonces of
//! the client, which are random and whose secret halves it never looks at, and the fees of the
//! forfeit transactions.

use vstd::prelude::*;

use crate::address;
use crate::cosigners;
use crate::cosigners::sort_cosigners;
use crate::error::Error;
use crate::forfeit;
use crate::forfeit::{create_and_sign_forfeit_txs, VtxoInput, VtxoInputView};
use crate::keys::Keypair;
use crate::psbt::Psbt;
use crate::server::{
    Info, Network, NodeView, PublicKey, RoundFinalizationEvent, RoundFinalizationEventView,
    RoundSigningEvent, RoundSigningEventView, RoundSigningNoncesGeneratedEvent,
    RoundSigningNoncesGeneratedEventView, RoundStreamEvent, RoundStreamEventView, Tree,
};
use crate::signing;
use crate::signing::{sign_owned_inputs, OwnedOutput, OwnedOutputView};
use crate::tree;
use crate::tree::{jobs_of_tree, SignJob, SignJobView};
use crate::tx::Txid;
use crate::views;

verus! {

/// How far a round has come.
#[derive(Debug, Clone, Copy, PartialEq, Eq, Structural)]
pub enum RoundStep {
    Start,
    RoundSigningStarted,
    RoundSigningNoncesGenerated,
    RoundFinalization,
    Finalized,
}

/// The step after a step. There is none after the last.
pub open spec fn step_after(step: RoundStep) -> RoundStep {
    match step {
        RoundStep::Start => RoundStep::RoundSigningStarted,
        RoundStep::RoundSigningStarted => RoundStep::RoundSigningNoncesGenerated,
        RoundStep::RoundSigningNoncesGenerated => RoundStep::RoundFinalization,
        RoundStep::RoundFinalization => RoundStep::Finalized,
        RoundStep::Finalized => RoundStep::Finalized,
    }
}

impl RoundStep {
    /// The step after this one.
    pub fn next(&self) -> (next: RoundStep)
        ensures
            next == step_after(*self),
    {
        match self {
            RoundStep::Start => RoundStep::RoundSigningStarted,
            RoundStep::RoundSigningStarted => RoundStep::RoundSigningNoncesGenerated,
            RoundStep::RoundSigningNoncesGenerated => RoundStep::RoundFinalization,
            RoundStep::RoundFinalization => RoundStep::Finalized,
            RoundStep::Finalized => RoundStep::Finalized,
        }
    }
}

/// The rows of a table of items that have no value of their own.
pub open spec fn rows<N>(table: Seq<Vec<N>>) -> Seq<Seq<N>> {
    Seq::new(table.len(), |i: int| table[i]@)
}

/// What the client holds of a round that it takes part in.
pub struct RoundSession<N> {
    step: RoundStep,
    round_id: Option<String>,
    unsigned_round_tx: Option<Psbt>,
    vtxo_tree: Option<Tree>,
    cosigner_pks: Option<Vec<PublicKey>>,
    secret_nonces: Option<Vec<Vec<N>>>,
}

/// The value of a [`RoundSession`].
pub struct SessionView<N> {
    pub step: RoundStep,
    pub round_id: Option<Seq<char>>,
    pub unsigned_round_tx: Option<Seq<u8>>,
    pub vtxo_tree: Option<Seq<Seq<NodeView>>>,
    pub cosigner_pks: Option<Seq<Seq<u8>>>,
    pub secret_nonces: Option<Seq<Seq<N>>>,
}

impl<N> View for RoundSession<N> {
    type V = SessionView<N>;

    closed spec fn view(&self) -> SessionView<N> {
        SessionView {
            step: self.step,
            round_id: views::option_view(self.round_id),
            unsigned_round_tx: views::option_view(self.unsigned_round_tx),
            vtxo_tree: views::option_view(self.vtxo_tree),
            cosigner_pks: match self.cosigner_pks {
                Some(keys) => Some(views::views(keys@)),
                None => None,
            },
            secret_nonces: match self.secret_nonces {
                Some(table) => Some(rows(table@)),
                None => None,
            },
        }
    }
}

/// The nonces that the client made for a tree: one pair for each node.
pub struct NonceTree<N> {
    pub secret: Vec<Vec<N>>,
    pub public: Vec<Vec<Vec<u8>>>,
}

/// The value of a [`NonceTree`].
pub struct NonceTreeView<N> {
    pub secret: Seq<Seq<N>>,
    pub public: Seq<Seq<Seq<u8>>>,
}

impl<N> View for NonceTree<N> {
    type V = NonceTreeView<N>;

    open spec fn view(&self) -> NonceTreeView<N> {
        NonceTreeView { secret: rows(self.secret@), public: views::views2(self.public@) }
    }
}

/// Who takes part in a round, and with what.
pub struct Participant<'a> {
    /// What the server says of itself.
    pub info: &'a Info,
    /// The key pair of the client.
    pub pair: &'a Keypair,
    /// The outputs that board the ark.
    pub boarding: &'a Vec<OwnedOutput>,
    /// The VTXOs that are given up.
    pub vtxos: &'a Vec<VtxoInput>,
}

/// The value of a [`Participant`].
pub struct ParticipantView {
    pub forfeit_address: Seq<char>,
    pub network: Network,
    pub dust: u64,
    pub secret: Seq<u8>,
    pub boarding: Seq<OwnedOutputView>,
    pub vtxos: Seq<VtxoInputView>,
}

impl<'a> View for Participant<'a> {
    type V = ParticipantView;

    open spec fn view(&self) -> ParticipantView {
        ParticipantView {
            forfeit_address: self.info.forfeit_address@,
            network: self.info.network,
            dust: self.info.dust,
            secret: self.pair@,
            boarding: views::views(self.boarding@),
            vtxos: views::views(self.vtxos@),
        }
    }
}

/// What the session needs to be given together with an event.
#[derive(Debug, Clone, PartialEq, Eq)]
pub enum Wanted {
    Nothing,
    /// Nonces for a tree whose levels have so many nodes.
    Nonces { level_sizes: Vec<usize> },
    /// The fees of the forfeit transactions at a rate in satoshi per thousand virtual bytes.
    Fees { rate: u64 },
}

/// The value of a [`Wanted`].
pub enum WantedView {
    Nothing,
    Nonces { level_sizes: Seq<nat> },
    Fees { rate: u64 },
}

impl View for Wanted {
    type V = WantedView;

    open spec fn view(&self) -> WantedView {
        match *self {
            Wanted::Nothing => WantedView::Nothing,
            Wanted::Nonces { level_sizes } => WantedView::Nonces {
                level_sizes: Seq::new(level_sizes@.len(), |i: int| level_sizes@[i] as nat),
            },
            Wanted::Fees { rate } => WantedView::Fees { rate },
        }
    }
}

/// What the client does about an event.
pub enum RoundAction<N> {
    /// Nothing: it waits for the next event.
    Wait,
    /// It sends its public nonces to the server.
    SubmitTreeNonces { round_id: String, nonces: Vec<Vec<Vec<u8>>> },
    /// It signs the tree, and sends the signatures to the server.
    SignTree {
        round_id: String,
        cosigner_pks: Vec<PublicKey>,
        jobs: Vec<Vec<SignJob>>,
        secret_nonces: Vec<Vec<N>>,
    },
    /// It sends the forfeit transactions and the round transaction to the server, signed.
    SubmitSigned { forfeit_txs: Vec<Psbt>, round_tx: Psbt },
    /// The round is over.
    Done { txid: Txid },
    /// The round has failed.
    Fail { error: Error },
}

/// The value of a [`RoundAction`].
pub enum ActionView<N> {
    Wait,
    SubmitTreeNonces { round_id: Seq<char>, nonces: Seq<Seq<Seq<u8>>> },
    SignTree {
        round_id: Seq<char>,
        cosigner_pks: Seq<Seq<u8>>,
        jobs: Seq<Seq<SignJobView>>,
        secret_nonces: Seq<Seq<N>>,
    },
    SubmitSigned { forfeit_txs: Seq<Seq<u8>>, round_tx: Seq<u8> },
    Done { txid: Seq<u8> },
    Fail { error: Error },
}

impl<N> View for RoundAction<N> {
    type V = ActionView<N>;

    open spec fn view(&self) -> ActionView<N> {
        match *self {
            RoundAction::Wait => ActionView::Wait,
            RoundAction::SubmitTreeNonces { round_id, nonces } => ActionView::SubmitTreeNonces {
                round_id: round_id@,
                nonces: views::views2(nonces@),
            },
            RoundAction::SignTree { round_id, cosigner_pks, jobs, secret_nonces } => {
                ActionView::SignTree {
                    round_id: round_id@,
                    cosigner_pks: views::views(cosigner_pks@),
                    jobs: views::views2(jobs@),
                    secret_nonces: rows(secret_nonces@),
                }
            },
            RoundAction::SubmitSigned { forfeit_txs, round_tx } => ActionView::SubmitSigned {
                forfeit_txs: views::views(forfeit_txs@),
                round_tx: round_tx@,
            },
            RoundAction::Done { txid } => ActionView::Done { txid: txid@ },
            RoundAction::Fail { error } => ActionView::Fail { error },
        }
    }
}

/// The session before the first event.
pub open spec fn fresh_session<N>() -> SessionView<N> {
    SessionView {
        step: RoundStep::Start,
        round_id: None,
        unsigned_round_tx: None,
        vtxo_tree: None,
        cosigner_pks: None,
        secret_nonces: None,
    }
}

/// What the session does when the signing of a tree begins: it takes the round as its own, keeps the
/// secret nonces and hands out the public ones. There is no reaction where there is no tree, or the
/// nonces do not have its shape.
pub open spec fn on_signing<N>(
    state: SessionView<N>,
    event: RoundSigningEventView,
    nonces: NonceTreeView<N>,
) -> Option<(SessionView<N>, ActionView<N>)> {
    if state.step != RoundStep::Start {
        Some((state, ActionView::Wait))
    } else {
        match event.unsigned_vtxo_tree {
            Some(levels) => if tree::has_shape(nonces.secret, levels) && tree::has_shape(
                nonces.public,
                levels,
            ) {
                Some(
                    (
                        SessionView {
                            step: step_after(state.step),
                            round_id: Some(event.id),
                            unsigned_round_tx: Some(event.unsigned_round_tx),
                            vtxo_tree: Some(levels),
                            cosigner_pks: Some(event.cosigners_pubkeys),
                            secret_nonces: Some(nonces.secret),
                        },
                        ActionView::SubmitTreeNonces {
                            round_id: event.id,
                            nonces: nonces.public,
                        },
                    ),
                )
            } else {
                None
            },
            None => None,
        }
    }
}

/// What the session does when the nonces have been combined: it signs every node of the tree, under
/// the cosigners' keys in order, and parts with its secret nonces. There is no reaction where it has
/// none, or there is nothing to sign for a node.
pub open spec fn on_nonces<N>(
    state: SessionView<N>,
    event: RoundSigningNoncesGeneratedEventView,
) -> Option<(SessionView<N>, ActionView<N>)> {
    if state.step != RoundStep::RoundSigningStarted {
        Some((state, ActionView::Wait))
    } else {
        match (
            state.vtxo_tree,
            state.cosigner_pks,
            state.unsigned_round_tx,
            state.secret_nonces,
        ) {
            (Some(levels), Some(keys), Some(round_tx), Some(secret_nonces)) => match tree::tree_jobs(
                levels,
                round_tx,
                event.tree_nonces,
            ) {
                Some(jobs) => Some(
                    (
                        SessionView {
                            step: step_after(state.step),
                            secret_nonces: None,
                            ..state
                        },
                        ActionView::SignTree {
                            round_id: event.id,
                            cosigner_pks: cosigners::sorted_keys(keys),
                            jobs,
                            secret_nonces,
                        },
                    ),
                ),
                None => None,
            },
            _ => None,
        }
    }
}

/// What the session does when the round is to be finalized: it forfeits its VTXOs, and signs the
/// inputs of the round transaction that board. There is no reaction where the forfeit transactions
/// cannot be made.
pub open spec fn on_finalization<N>(
    state: SessionView<N>,
    who: ParticipantView,
    event: RoundFinalizationEventView,
    fees: Seq<u64>,
) -> Option<(SessionView<N>, ActionView<N>)> {
    if state.step != RoundStep::RoundSigningNoncesGenerated {
        Some((state, ActionView::Wait))
    } else if fees.len() != who.vtxos.len() {
        None
    } else {
        match forfeit::signed_forfeits(
            who.forfeit_address,
            who.network,
            who.dust,
            who.vtxos,
            fees,
            event.connectors,
            who.secret,
        ) {
            Some(Ok(forfeit_txs)) => match signing::sign_for_outputs(
                event.round_tx,
                who.boarding,
                who.secret,
            ) {
                Some(Ok(round_tx)) => Some(
                    (
                        SessionView { step: step_after(state.step), ..state },
                        ActionView::SubmitSigned { forfeit_txs, round_tx },
                    ),
                ),
                Some(Err(error)) => Some((state, ActionView::Fail { error })),
                None => None,
            },
            _ => None,
        }
    }
}

/// That, where signed transactions are handed out, they are what they are asked for: the transaction
/// of the round is the one that the server sent, with nothing changed but the inputs of the client,
/// and each forfeit transaction spends a VTXO and a connector and pays what they hold less the fee.
pub open spec fn hands_out_signed<N>(
    who: ParticipantView,
    event: RoundFinalizationEventView,
    fees: Seq<u64>,
    action: ActionView<N>,
) -> bool {
    action matches ActionView::SubmitSigned { forfeit_txs, round_tx } ==> {
        &&& signing::only_owned_signed(event.round_tx, round_tx, who.boarding)
        &&& forfeit::are_signed_forfeits(
            forfeit_txs,
            who.vtxos,
            fees,
            forfeit::all_connectors(event.connectors, who.dust),
            who.dust,
            address::address_script(who.forfeit_address, who.network)->0,
        )
    }
}

/// What the session does about an event.
pub open spec fn on_event<N>(
    state: SessionView<N>,
    who: ParticipantView,
    event: RoundStreamEventView,
    nonces: NonceTreeView<N>,
    fees: Seq<u64>,
) -> Option<(SessionView<N>, ActionView<N>)> {
    match event {
        RoundStreamEventView::RoundSigning(e) => on_signing(state, e, nonces),
        RoundStreamEventView::RoundSigningNoncesGenerated(e) => on_nonces(state, e),
        RoundStreamEventView::RoundFinalization(e) => on_finalization(state, who, e, fees),
        RoundStreamEventView::RoundFinalized(e) => if state.step != RoundStep::RoundFinalization {
            Some((state, ActionView::Wait))
        } else {
            Some((state, ActionView::Done { txid: e.round_txid }))
        },
        RoundStreamEventView::RoundFailed(e) => if state.round_id == Some(e.id) {
            Some((state, ActionView::Fail { error: Error::Unknown }))
        } else {
            Some((state, ActionView::Wait))
        },
    }
}

/// What the stream of events gave: an event, an error, or its end.
pub open spec fn received(next: Option<Result<RoundStreamEvent, Error>>) -> Option<
    Result<RoundStreamEventView, Error>,
> {
    match next {
        Some(Ok(event)) => Some(Ok(event@)),
        Some(Err(e)) => Some(Err(e)),
        None => None,
    }
}

/// What the session does about what the stream of events gave. A stream that broke or ended is the
/// end of the round.
pub open spec fn react<N>(
    state: SessionView<N>,
    who: ParticipantView,
    next: Option<Result<RoundStreamEventView, Error>>,
    nonces: NonceTreeView<N>,
    fees: Seq<u64>,
) -> Option<(SessionView<N>, ActionView<N>)> {
    match next {
        Some(Ok(event)) => on_event(state, who, event, nonces, fees),
        Some(Err(_)) => Some((state, ActionView::Fail { error: Error::Unknown })),
        None => Some((state, ActionView::Fail { error: Error::Unknown })),
    }
}

/// What a session needs to be given together with an event.
pub open spec fn wants<N>(state: SessionView<N>, event: RoundStreamEventView) -> WantedView {
    match event {
        RoundStreamEventView::RoundSigning(e) => if state.step == RoundStep::Start {
            match e.unsigned_vtxo_tree {
                Some(levels) => WantedView::Nonces {
                    level_sizes: Seq::new(levels.len(), |i: int| levels[i].len()),
                },
                None => WantedView::Nothing,
            }
        } else {
            WantedView::Nothing
        },
        RoundStreamEventView::RoundFinalization(e) => if state.step
            == RoundStep::RoundSigningNoncesGenerated {
            WantedView::Fees { rate: e.min_relay_fee_rate as u64 }
        } else {
            WantedView::Nothing
        },
        _ => WantedView::Nothing,
    }
}

/// That two tables have the shape of a tree.
fn fits<N>(nonces: &NonceTree<N>, tree: &Tree) -> (fits: bool)
    ensures
        fits == (tree::has_shape(nonces@.secret, tree@) && tree::has_shape(nonces@.public, tree@)),
{
    if nonces.secret.len() != tree.levels.len() || nonces.public.len() != tree.levels.len() {
        return false;
    }
    let mut i: usize = 0;
    while i < tree.levels.len()
        invariant
            i <= tree@.len(),
            nonces.secret@.len() == tree@.len(),
            nonces.public@.len() == tree@.len(),
            forall|k: int| 0 <= k < i ==> (#[trigger] nonces@.secret[k]).len() == tree@[k].len(),
            forall|k: int| 0 <= k < i ==> (#[trigger] nonces@.public[k]).len() == tree@[k].len(),
        decreases tree@.len() - i,
    {
        assert(nonces@.secret[i as int].len() == nonces.secret@[i as int]@.len());
        assert(nonces@.public[i as int].len() == nonces.public@[i as int]@.len());
        let size: usize = tree.levels[i].nodes.len();
        if nonces.secret[i].len() != size || nonces.public[i].len() != size {
            return false;
        }
        i = i + 1;
    }
    true
}

impl<N> RoundSession<N> {
    /// A session that waits for a round.
    pub fn new() -> (session: Self)
        ensures
            session@ == fresh_session::<N>(),
    {
        RoundSession {
            step: RoundStep::Start,
            round_id: None,
            unsigned_round_tx: None,
            vtxo_tree: None,
            cosigner_pks: None,
            secret_nonces: None,
        }
    }

    /// What the session needs to be given together with an event.
    pub fn wanted(&self, event: &RoundStreamEvent) -> (wanted: Wanted)
        ensures
            wanted@ == wants(self@, event@),
    {
        match event {
            RoundStreamEvent::RoundSigning(e) => {
                if self.step != RoundStep::Start {
                    return Wanted::Nothing;
                }
                match &e.unsigned_vtxo_tree {
                    Some(tree) => {
                        let mut level_sizes: Vec<usize> = Vec::new();
                        let mut i: usize = 0;
                        while i < tree.levels.len()
                            invariant
                                i <= tree@.len(),
                                level_sizes@.len() == i,
                                forall|k: int|
                                    0 <= k < i ==> #[trigger] level_sizes@[k] == tree@[k].len(),
                            decreases tree@.len() - i,
                        {
                            level_sizes.push(tree.levels[i].nodes.len());
                            i = i + 1;
                        }
                        let wanted = Wanted::Nonces { level_sizes };
                        assert(wanted@->level_sizes =~= Seq::new(
                            tree@.len(),
                            |i: int| tree@[i].len(),
                        ));
                        wanted
                    },
                    None => Wanted::Nothing,
                }
            },
            RoundStreamEvent::RoundFinalization(e) => {
                if self.step != RoundStep::RoundSigningNoncesGenerated {
                    return Wanted::Nothing;
                }
                Wanted::Fees { rate: e.min_relay_fee_rate as u64 }
            },
            _ => Wanted::Nothing,
        }
    }

    fn handle_signing(&mut self, event: RoundSigningEvent, nonces: NonceTree<N>) -> (action: Option<
        RoundAction<N>,
    >)
        ensures
            match action {
                Some(a) => on_signing(old(self)@, event@, nonces@) == Some((final(self)@, a@)),
                None => on_signing(old(self)@, event@, nonces@) is None && final(self)@ == old(self)@,
            },
    {
        if self.step != RoundStep::Start {
            return Some(RoundAction::Wait);
        }
        let tree: Tree = match event.unsigned_vtxo_tree {
            Some(tree) => tree,
            None => {
                return None;
            },
        };
        if !fits(&nonces, &tree) {
            return None;
        }
        let id: String = event.id.clone();
        self.step = self.step.next();
        self.round_id = Some(event.id);
        self.unsigned_round_tx = Some(event.unsigned_round_tx);
        self.vtxo_tree = Some(tree);
        self.cosigner_pks = Some(event.cosigners_pubkeys);
        self.secret_nonces = Some(nonces.secret);
        Some(RoundAction::SubmitTreeNonces { round_id: id, nonces: nonces.public })
    }

    fn handle_nonces(&mut self, event: RoundSigningNoncesGeneratedEvent) -> (action: Option<
        RoundAction<N>,
    >)
        ensures
            match action {
                Some(a) => on_nonces(old(self)@, event@) == Some((final(self)@, a@)),
                None => on_nonces(old(self)@, event@) is None && final(self)@ == old(self)@,
            },
    {
        if self.step != RoundStep::RoundSigningStarted {
            return Some(RoundAction::Wait);
        }
        if self.secret_nonces.is_none() {
            return None;
        }
        let (jobs, cosigner_pks): (Vec<Vec<SignJob>>, Vec<PublicKey>) = match (
            &self.vtxo_tree,
            &self.cosigner_pks,
            &self.unsigned_round_tx,
        ) {
            (Some(tree), Some(keys), Some(round_tx)) => match jobs_of_tree(
                tree,
                round_tx,
                &event.tree_nonces,
            ) {
                Some(jobs) => (jobs, sort_cosigners(keys)),
                None => {
                    return None;
                },
            },
            _ => {
                return None;
            },
        };
        match self.secret_nonces.take() {
            Some(secret_nonces) => {
                self.step = self.step.next();
                Some(RoundAction::SignTree { round_id: event.id, cosigner_pks, jobs, secret_nonces })
            },
            None => None,
        }
    }

    fn handle_finalization(
        &mut self,
        who: &Participant,
        event: &RoundFinalizationEvent,
        fees: &Vec<u64>,
    ) -> (action: Option<RoundAction<N>>)
        ensures
            match action {
                Some(a) => on_finalization(old(self)@, who@, event@, fees@) == Some(
                    (final(self)@, a@),
                ),
                None => on_finalization(old(self)@, who@, event@, fees@) is None && final(self)@
                    == old(self)@,
            },
            action matches Some(a) ==> hands_out_signed(who@, event@, fees@, a@),
    {
        if self.step != RoundStep::RoundSigningNoncesGenerated {
            return Some(RoundAction::Wait);
        }
        if fees.len() != who.vtxos.len() {
            return None;
        }
        let forfeit_txs: Vec<Psbt> = match create_and_sign_forfeit_txs(
            who.info,
            who.vtxos,
            &event.connectors,
            fees,
            who.pair,
        ) {
            Some(Ok(txs)) => txs,
            _ => {
                return None;
            },
        };
        match sign_owned_inputs(&event.round_tx, who.boarding, who.pair) {
            Some(Ok(round_tx)) => {
                self.step = self.step.next();
                Some(RoundAction::SubmitSigned { forfeit_txs, round_tx })
            },
            Some(Err(error)) => Some(RoundAction::Fail { error }),
            None => None,
        }
    }

    /// Reacts to what the stream of events gave.
    ///
    /// Where there is no reaction, the session stays as it was.
    pub fn react(
        &mut self,
        who: &Participant,
        next: Option<Result<RoundStreamEvent, Error>>,
        nonces: NonceTree<N>,
        fees: &Vec<u64>,
    ) -> (action: Option<RoundAction<N>>)
        ensures
            match action {
                Some(a) => react(old(self)@, who@, received(next), nonces@, fees@) == Some(
                    (final(self)@, a@),
                ),
                None => react(old(self)@, who@, received(next), nonces@, fees@) is None && final(self)@ == old(self)@,
            },
            action matches Some(a) ==> (a@ is SubmitSigned ==> (received(next) matches Some(
                Ok(RoundStreamEventView::RoundFinalization(e)),
            ) && hands_out_signed(who@, e, fees@, a@))),
    {
        let event: RoundStreamEvent = match next {
            Some(Ok(event)) => event,
            Some(Err(_)) => {
                return Some(RoundAction::Fail { error: Error::Unknown });
            },
            None => {
                return Some(RoundAction::Fail { error: Error::Unknown });
            },
        };
        match event {
            RoundStreamEvent::RoundSigning(e) => self.handle_signing(e, nonces),
            RoundStreamEvent::RoundSigningNoncesGenerated(e) => self.handle_nonces(e),
            RoundStreamEvent::RoundFinalization(e) => self.handle_finalization(who, &e, fees),
            RoundStreamEvent::RoundFinalized(e) => {
                if self.step != RoundStep::RoundFinalization {
                    return Some(RoundAction::Wait);
                }
                Some(RoundAction::Done { txid: e.round_txid })
            },
            RoundStreamEvent::RoundFailed(e) => {
                let ours: bool = match &self.round_id {
                    Some(id) => *id == e.id,
                    None => false,
                };
                if ours {
                    Some(RoundAction::Fail { error: Error::Unknown })
                } else {
                    Some(RoundAction::Wait)
                }
            },
        }
    }
}

/// What follows an attempt to join a round.
#[derive(Debug, Clone, PartialEq, Eq)]
pub enum AfterRound {
    /// The round went well.
    Joined { txid: Txid },
    /// Another attempt is made after some seconds.
    Retry { seconds: u64 },
}

/// The seconds between two attempts to join a round, or to broadcast a transaction.
pub const RETRY_SECONDS: u64 = 1;

/// The milliseconds between two pings.
pub const PING_MILLIS: u64 = 5000;

/// Says what follows an attempt to join a round. Joining is likely to fail depending on the timing, so
/// that it is tried again whatever went wrong.
pub fn after_round(outcome: Result<Txid, Error>) -> (next: AfterRound)
    ensures
        next == (match outcome {
            Ok(txid) => AfterRound::Joined { txid },
            Err(_) => AfterRound::Retry { seconds: RETRY_SECONDS },
        }),
        outcome is Err ==> next == (AfterRound::Retry { seconds: 1 }),
{
    match outcome {
        Ok(txid) => AfterRound::Joined { txid },
        Err(_) => AfterRound::Retry { seconds: RETRY_SECONDS },
    }
}

/// Says how many milliseconds to wait after a ping, whether it went well or not: the server wants to
/// hear from the client as long as it waits for the round.
pub fn after_ping(outcome: Result<(), Error>) -> (pause_millis: u64)
    ensures
        pause_millis == PING_MILLIS,
        pause_millis == 5000,
{
    match outcome {
        Ok(_) => PING_MILLIS,
        Err(_) => PING_MILLIS,
    }
}

} // verus!

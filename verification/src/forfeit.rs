//! Forfeit transactions: the client gives a VTXO up to the server, should the round come about.
//!
//! A forfeit transaction spends a VTXO together with a connector, a dust output of the round's own
//! transactions, so that it is worth nothing without the round.

use vstd::prelude::*;

use crate::address;
use crate::address::read_address;
use crate::error::Error;
use crate::keys::Keypair;
use crate::psbt;
use crate::psbt::Psbt;
use crate::server::{Info, VtxoOutPoint, VtxoOutPointView};
use crate::signing;
use crate::signing::sign_one;
use crate::tx::{OutPoint, OutPointView, TxOut, TxOutView, Txid};
use crate::views;
use crate::views::copy_bytes;
use crate::vtxo::{DefaultVtxo, DefaultVtxoView};

verus! {

/// The place of the connector among the inputs of a forfeit transaction.
pub const FORFEIT_TX_CONNECTOR_INDEX: usize = 0;

/// The place of the VTXO among the inputs of a forfeit transaction.
pub const FORFEIT_TX_VTXO_INDEX: usize = 1;

/// The version of a forfeit transaction.
pub const FORFEIT_TX_VERSION: i32 = 2;

/// The number of the default sighash type of taproot.
pub const TAP_SIGHASH_DEFAULT: u32 = 0;

/// A VTXO that the client puts into a round.
#[derive(Debug, Clone, PartialEq, Eq)]
pub struct VtxoInput {
    pub outpoint: VtxoOutPoint,
    pub vtxo: DefaultVtxo,
}

/// The value of a [`VtxoInput`].
pub struct VtxoInputView {
    pub outpoint: VtxoOutPointView,
    pub vtxo: DefaultVtxoView,
}

impl View for VtxoInput {
    type V = VtxoInputView;

    open spec fn view(&self) -> VtxoInputView {
        VtxoInputView { outpoint: self.outpoint@, vtxo: self.vtxo@ }
    }
}

impl VtxoInput {
    /// A copy.
    pub fn copy(&self) -> (copy: VtxoInput)
        ensures
            copy@ == self@,
    {
        VtxoInput { outpoint: self.outpoint.copy(), vtxo: self.vtxo.copy() }
    }
}

/// A connector: an output of the round that holds the dust amount.
pub struct Connector {
    pub outpoint: OutPoint,
    pub output: TxOut,
}

/// The value of a [`Connector`].
pub struct ConnectorView {
    pub outpoint: OutPointView,
    pub output: TxOutView,
}

impl View for Connector {
    type V = ConnectorView;

    open spec fn view(&self) -> ConnectorView {
        ConnectorView { outpoint: self.outpoint@, output: self.output@ }
    }
}

/// The connectors among the outputs of a transaction.
pub open spec fn connectors_of(txid: Seq<u8>, outputs: Seq<TxOutView>, dust: u64) -> Seq<
    ConnectorView,
>
    decreases outputs.len(),
{
    if outputs.len() == 0 {
        Seq::empty()
    } else {
        let before = connectors_of(txid, outputs.drop_last(), dust);
        if outputs.last().value == dust {
            before.push(
                ConnectorView {
                    outpoint: OutPointView { txid, vout: (outputs.len() - 1) as u32 },
                    output: outputs.last(),
                },
            )
        } else {
            before
        }
    }
}

/// All connectors of a round, transaction by transaction.
pub open spec fn all_connectors(psbts: Seq<Seq<u8>>, dust: u64) -> Seq<ConnectorView> {
    views::flatten(
        Seq::new(
            psbts.len(),
            |i: int| connectors_of(psbt::psbt_txid(psbts[i]), psbt::outputs_of(psbts[i]), dust),
        ),
    )
}

/// What a forfeit transaction pays to the server: the VTXO and the connector less the fee. There is
/// nothing to pay if the sum has no place in an amount or the fee eats it up.
pub open spec fn forfeit_value(amount: u64, dust: u64, fee: u64) -> Option<u64> {
    if amount + dust <= u64::MAX && fee <= amount + dust {
        Some((amount + dust - fee) as u64)
    } else {
        None
    }
}

/// The output of the VTXO that a forfeit transaction spends.
pub open spec fn vtxo_output(input: VtxoInputView) -> TxOutView {
    TxOutView { value: input.outpoint.amount, script_pubkey: input.vtxo.script_pubkey }
}

/// The forfeit transaction before it is signed: it spends the connector and the VTXO, in this order,
/// pays one output, and says what it spends and how the VTXO is to be signed for.
pub open spec fn unsigned_forfeit(
    connector: ConnectorView,
    vtxo: OutPointView,
    spent: TxOutView,
    paid: TxOutView,
) -> Option<Seq<u8>> {
    let bare = psbt::psbt_of_unsigned(
        FORFEIT_TX_VERSION,
        0,
        seq![connector.outpoint, vtxo],
        seq![paid],
    );
    match psbt::readable(Some(bare)) {
        None => None,
        Some(fresh) => match psbt::readable(
            psbt::psbt_with_witness_utxo(
                fresh,
                FORFEIT_TX_CONNECTOR_INDEX as int,
                connector.output,
            ),
        ) {
            None => None,
            Some(first) => match psbt::readable(
                psbt::psbt_with_witness_utxo(first, FORFEIT_TX_VTXO_INDEX as int, spent),
            ) {
                None => None,
                Some(second) => psbt::readable(
                    psbt::psbt_with_sighash_type(
                        second,
                        FORFEIT_TX_VTXO_INDEX as int,
                        TAP_SIGHASH_DEFAULT,
                    ),
                ),
            },
        },
    }
}

/// The signed forfeit transaction of a VTXO and a connector.
pub open spec fn forfeit_tx(
    input: VtxoInputView,
    connector: ConnectorView,
    paid: TxOutView,
    secret: Seq<u8>,
) -> Option<Result<Seq<u8>, Error>> {
    match input.outpoint.outpoint {
        None => None,
        Some(vtxo) => match unsigned_forfeit(connector, vtxo, vtxo_output(input), paid) {
            None => None,
            Some(unsigned) => signing::sign_input(
                unsigned,
                unsigned,
                FORFEIT_TX_VTXO_INDEX as int,
                seq![connector.output, vtxo_output(input)],
                input.vtxo.forfeit,
                secret,
            ),
        },
    }
}

/// The signed forfeit transactions of a VTXO: one for each connector.
pub open spec fn forfeits_of(
    input: VtxoInputView,
    fee: u64,
    connectors: Seq<ConnectorView>,
    dust: u64,
    script: Seq<u8>,
    secret: Seq<u8>,
) -> Option<Result<Seq<Seq<u8>>, Error>> {
    match forfeit_value(input.outpoint.amount, dust, fee) {
        None => None,
        Some(value) => views::in_turn(
            Seq::new(
                connectors.len(),
                |c: int|
                    forfeit_tx(
                        input,
                        connectors[c],
                        TxOutView { value, script_pubkey: script },
                        secret,
                    ),
            ),
        ),
    }
}

/// The signed forfeit transactions of all VTXOs, VTXO by VTXO.
pub open spec fn all_forfeits(
    inputs: Seq<VtxoInputView>,
    fees: Seq<u64>,
    connectors: Seq<ConnectorView>,
    dust: u64,
    script: Seq<u8>,
    secret: Seq<u8>,
) -> Option<Result<Seq<Seq<u8>>, Error>> {
    views::joined(
        views::in_turn(
            Seq::new(
                inputs.len(),
                |v: int| forfeits_of(inputs[v], fees[v], connectors, dust, script, secret),
            ),
        ),
    )
}

/// What the client sends to the server to give its VTXOs up: nothing if the forfeit address cannot
/// be read.
pub open spec fn signed_forfeits(
    forfeit_address: Seq<char>,
    network: crate::server::Network,
    dust: u64,
    inputs: Seq<VtxoInputView>,
    fees: Seq<u64>,
    connector_psbts: Seq<Seq<u8>>,
    secret: Seq<u8>,
) -> Option<Result<Seq<Seq<u8>>, Error>> {
    match address::address_script(forfeit_address, network) {
        None => None,
        Some(script) => all_forfeits(
            inputs,
            fees,
            all_connectors(connector_psbts, dust),
            dust,
            script,
            secret,
        ),
    }
}

/// Finds the connectors of a round.
pub fn find_connectors(psbts: &Vec<Psbt>, dust: u64) -> (connectors: Vec<Connector>)
    ensures
        views::views(connectors@) == all_connectors(views::views(psbts@), dust),
{
    let ghost rows = Seq::new(
        psbts@.len(),
        |i: int| connectors_of(psbt::psbt_txid(psbts@[i]@), psbt::outputs_of(psbts@[i]@), dust),
    );
    let mut connectors: Vec<Connector> = Vec::new();
    let mut i: usize = 0;
    while i < psbts.len()
        invariant
            i <= psbts@.len(),
            rows == Seq::new(
                psbts@.len(),
                |i: int| connectors_of(psbt::psbt_txid(psbts@[i]@), psbt::outputs_of(psbts@[i]@), dust),
            ),
            views::views(connectors@) == views::flatten(rows.take(i as int)),
        decreases psbts@.len() - i,
    {
        let txid: Txid = psbts[i].txid();
        let parts = psbts[i].parts();
        let ghost start = views::views(connectors@);
        let ghost outputs = parts@.outputs;
        let mut j: usize = 0;
        assert(views::views(connectors@) =~= start + connectors_of(txid@, outputs.take(0), dust));
        while j < parts.outputs.len()
            invariant
                j <= parts.outputs@.len(),
                outputs == parts@.outputs,
                views::views(connectors@) == start + connectors_of(
                    txid@,
                    outputs.take(j as int),
                    dust,
                ),
            decreases parts.outputs@.len() - j,
        {
            let ghost before = connectors@;
            assert(outputs.take(j + 1).drop_last() =~= outputs.take(j as int));
            if parts.outputs[j].value == dust {
                let connector = Connector {
                    outpoint: OutPoint { txid, vout: j as u32 },
                    output: parts.outputs[j].copy(),
                };
                connectors.push(connector);
                assert(views::views(connectors@) =~= views::views(before).push(connector@));
            }
            j = j + 1;
            assert(views::views(connectors@) =~= start + connectors_of(
                txid@,
                outputs.take(j as int),
                dust,
            ));
        }
        assert(outputs.take(outputs.len() as int) =~= outputs);
        assert(rows.take(i + 1).drop_last() =~= rows.take(i as int));
        i = i + 1;
    }
    assert(rows.take(psbts@.len() as int) =~= rows);
    assert(rows =~= Seq::new(
        views::views(psbts@).len(),
        |i: int|
            connectors_of(
                psbt::psbt_txid(views::views(psbts@)[i]),
                psbt::outputs_of(views::views(psbts@)[i]),
                dust,
            ),
    ));
    connectors
}

/// The parts of the forfeit transaction of a VTXO and a connector: it spends both and nothing else,
/// says what they hold, and pays one output.
pub open spec fn forfeit_parts(
    input: VtxoInputView,
    connector: ConnectorView,
    paid: TxOutView,
) -> psbt::PsbtPartsView {
    psbt::PsbtPartsView {
        inputs: seq![connector.outpoint, input.outpoint.outpoint->0],
        outputs: seq![paid],
        witness_utxos: seq![Some(connector.output), Some(vtxo_output(input))],
    }
}

/// That a forfeit transaction is signed by the forfeit leaf of the VTXO, and by nothing else.
pub open spec fn is_signed_forfeit(
    tx: Seq<u8>,
    input: VtxoInputView,
    connector: ConnectorView,
    paid: TxOutView,
) -> bool {
    &&& psbt::psbt_parts(tx) == Some(forfeit_parts(input, connector, paid))
    &&& psbt::psbt_tap_input(tx, FORFEIT_TX_CONNECTOR_INDEX as int) == Some(
        psbt::fresh_tap_input(),
    )
    &&& psbt::psbt_tap_input(tx, FORFEIT_TX_VTXO_INDEX as int) == Some(
        psbt::with_one_leaf(psbt::fresh_tap_input(), input.vtxo.forfeit.script),
    )
}

/// Makes and signs the forfeit transaction of a VTXO and a connector.
pub fn sign_forfeit(input: &VtxoInput, connector: &Connector, paid: &TxOut, pair: &Keypair) -> (outcome:
    Option<Result<Psbt, Error>>)
    ensures
        views::outcome_view(outcome) == forfeit_tx(input@, connector@, paid@, pair@),
        outcome matches Some(Ok(signed)) ==> is_signed_forfeit(
            signed@,
            input@,
            connector@,
            paid@,
        ),
{
    let vtxo: OutPoint = match input.outpoint.outpoint {
        Some(o) => o,
        None => {
            return None;
        },
    };
    let mut spends: Vec<OutPoint> = Vec::new();
    spends.push(connector.outpoint);
    spends.push(vtxo);
    let mut pays: Vec<TxOut> = Vec::new();
    pays.push(paid.copy());
    let spent = TxOut {
        value: input.outpoint.amount,
        script_pubkey: copy_bytes(input.vtxo.script_pubkey.as_slice()),
    };
    assert(views::views(spends@) =~= seq![connector@.outpoint, vtxo@]);
    assert(views::views(pays@) =~= seq![paid@]);
    let fresh: Psbt = match Psbt::from_unsigned(FORFEIT_TX_VERSION, 0, &spends, &pays) {
        Some(p) => p,
        None => {
            return None;
        },
    };
    let first: Psbt = match fresh.with_witness_utxo(
        FORFEIT_TX_CONNECTOR_INDEX,
        &connector.output,
    ) {
        Some(p) => p,
        None => {
            return None;
        },
    };
    let second: Psbt = match first.with_witness_utxo(FORFEIT_TX_VTXO_INDEX, &spent) {
        Some(p) => p,
        None => {
            return None;
        },
    };
    let unsigned: Psbt = match second.with_sighash_type(
        FORFEIT_TX_VTXO_INDEX,
        TAP_SIGHASH_DEFAULT,
    ) {
        Some(p) => p,
        None => {
            return None;
        },
    };
    let mut prevouts: Vec<TxOut> = Vec::new();
    prevouts.push(connector.output.copy());
    prevouts.push(spent);
    assert(views::views(prevouts@) =~= seq![connector@.output, vtxo_output(input@)]);
    proof {
        let made = psbt::parts_with_utxo(
            psbt::parts_with_utxo(
                psbt::fresh_parts(views::views(spends@), views::views(pays@)),
                FORFEIT_TX_CONNECTOR_INDEX as int,
                connector@.output,
            ),
            FORFEIT_TX_VTXO_INDEX as int,
            vtxo_output(input@),
        );
        let stated = forfeit_parts(input@, connector@, paid@);
        assert(made.witness_utxos =~= stated.witness_utxos);
        assert(psbt::psbt_tap_input(fresh@, 0) == Some(psbt::fresh_tap_input()));
        assert(psbt::psbt_tap_input(fresh@, 1) == Some(psbt::fresh_tap_input()));
        assert(psbt::psbt_tap_input(first@, 1) == psbt::psbt_tap_input(fresh@, 1));
        assert(psbt::psbt_tap_input(second@, 0) == psbt::psbt_tap_input(first@, 0));
        assert(psbt::psbt_tap_input(unsigned@, 0) == psbt::psbt_tap_input(second@, 0));
    }
    sign_one(
        &unsigned,
        &unsigned,
        FORFEIT_TX_VTXO_INDEX,
        &prevouts,
        &input.vtxo.forfeit,
        pair,
    )
}

/// What the forfeit transactions of a VTXO pay.
pub open spec fn forfeit_output(input: VtxoInputView, dust: u64, fee: u64, script: Seq<u8>) -> TxOutView {
    TxOutView {
        value: forfeit_value(input.outpoint.amount, dust, fee)->0,
        script_pubkey: script,
    }
}

/// That there is a signed forfeit transaction of a VTXO for each connector.
pub open spec fn is_signed_row(
    txs: Seq<Seq<u8>>,
    input: VtxoInputView,
    fee: u64,
    connectors: Seq<ConnectorView>,
    dust: u64,
    script: Seq<u8>,
) -> bool {
    &&& txs.len() == connectors.len()
    &&& forall|c: int|
        0 <= c < connectors.len() ==> is_signed_forfeit(
            #[trigger] txs[c],
            input,
            connectors[c],
            forfeit_output(input, dust, fee, script),
        )
}

/// The forfeit transaction of a VTXO and a connector, among those of all.
pub open spec fn forfeit_at(txs: Seq<Seq<u8>>, width: nat, v: int, c: int) -> Seq<u8> {
    txs[v * width + c]
}

/// That there is a signed forfeit transaction for each VTXO and each connector: it spends just the
/// two, and pays what they hold less the fee.
pub open spec fn are_signed_forfeits(
    txs: Seq<Seq<u8>>,
    inputs: Seq<VtxoInputView>,
    fees: Seq<u64>,
    connectors: Seq<ConnectorView>,
    dust: u64,
    script: Seq<u8>,
) -> bool {
    &&& txs.len() == inputs.len() * connectors.len()
    &&& forall|v: int, c: int|
        0 <= v < inputs.len() && 0 <= c < connectors.len() ==> is_signed_forfeit(
            #[trigger] forfeit_at(txs, connectors.len(), v, c),
            inputs[v],
            connectors[c],
            forfeit_output(inputs[v], dust, fees[v], script),
        )
}

proof fn lemma_rows_are_signed(
    rows: Seq<Seq<Seq<u8>>>,
    inputs: Seq<VtxoInputView>,
    fees: Seq<u64>,
    connectors: Seq<ConnectorView>,
    dust: u64,
    script: Seq<u8>,
)
    requires
        rows.len() == inputs.len(),
        forall|v: int|
            0 <= v < rows.len() ==> is_signed_row(
                #[trigger] rows[v],
                inputs[v],
                fees[v],
                connectors,
                dust,
                script,
            ),
    ensures
        are_signed_forfeits(views::flatten(rows), inputs, fees, connectors, dust, script),
{
    let txs = views::flatten(rows);
    views::lemma_flatten_even_len(rows, connectors.len());
    assert forall|v: int, c: int|
        0 <= v < inputs.len() && 0 <= c < connectors.len() implies is_signed_forfeit(
        #[trigger] forfeit_at(txs, connectors.len(), v, c),
        inputs[v],
        connectors[c],
        forfeit_output(inputs[v], dust, fees[v], script),
    ) by {
        views::lemma_flatten_even(rows, connectors.len(), v, c);
        assert(is_signed_row(rows[v], inputs[v], fees[v], connectors, dust, script));
        assert(forfeit_at(txs, connectors.len(), v, c) == rows[v][c]);
    }
}

/// Makes and signs the forfeit transactions of a VTXO.
pub fn sign_forfeits_of(
    input: &VtxoInput,
    fee: u64,
    connectors: &Vec<Connector>,
    dust: u64,
    script: &Vec<u8>,
    pair: &Keypair,
) -> (outcome: Option<Result<Vec<Psbt>, Error>>)
    ensures
        forfeits_view(outcome) == forfeits_of(
            input@,
            fee,
            views::views(connectors@),
            dust,
            script@,
            pair@,
        ),
        outcome matches Some(Ok(txs)) ==> is_signed_row(
            views::views(txs@),
            input@,
            fee,
            views::views(connectors@),
            dust,
            script@,
        ),
{
    let value: u64 = match input.outpoint.amount.checked_add(dust) {
        Some(both) => if fee <= both {
            both - fee
        } else {
            return None;
        },
        None => {
            return None;
        },
    };
    let paid = TxOut { value, script_pubkey: copy_bytes(script.as_slice()) };
    let ghost steps = Seq::new(
        connectors@.len(),
        |c: int| forfeit_tx(input@, connectors@[c]@, paid@, pair@),
    );
    assert(steps =~= Seq::new(
        views::views(connectors@).len(),
        |c: int|
            forfeit_tx(
                input@,
                views::views(connectors@)[c],
                TxOutView { value, script_pubkey: script@ },
                pair@,
            ),
    ));
    let mut signed: Vec<Psbt> = Vec::new();
    let mut c: usize = 0;
    assert(steps.take(0) =~= Seq::empty());
    assert(views::views(signed@) =~= Seq::empty());
    while c < connectors.len()
        invariant
            c <= connectors@.len(),
            steps == Seq::new(
                connectors@.len(),
                |c: int| forfeit_tx(input@, connectors@[c]@, paid@, pair@),
            ),
            forfeits_of(input@, fee, views::views(connectors@), dust, script@, pair@)
                == views::in_turn(steps),
            views::in_turn(steps.take(c as int)) == Some(
                Ok::<Seq<Seq<u8>>, Error>(views::views(signed@)),
            ),
            paid@ == forfeit_output(input@, dust, fee, script@),
            signed@.len() == c,
            forall|k: int|
                0 <= k < c ==> is_signed_forfeit(
                    #[trigger] views::views(signed@)[k],
                    input@,
                    connectors@[k]@,
                    paid@,
                ),
        decreases connectors@.len() - c,
    {
        assert(steps.take(c + 1).drop_last() =~= steps.take(c as int));
        let ghost before = signed@;
        match sign_forfeit(input, &connectors[c], &paid, pair) {
            Some(Ok(tx)) => {
                signed.push(tx);
                assert(views::views(signed@) =~= views::views(before).push(tx@));
                assert forall|k: int| 0 <= k < c + 1 implies is_signed_forfeit(
                    #[trigger] views::views(signed@)[k],
                    input@,
                    connectors@[k]@,
                    paid@,
                ) by {
                    if k < c {
                        assert(views::views(before)[k] == views::views(signed@)[k]);
                    }
                }
            },
            Some(Err(e)) => {
                proof {
                    views::lemma_in_turn_stops(steps, c + 1);
                }
                return Some(Err(e));
            },
            None => {
                proof {
                    views::lemma_in_turn_stops(steps, c + 1);
                }
                return None;
            },
        }
        c = c + 1;
    }
    assert(steps.take(connectors@.len() as int) =~= steps);
    Some(Ok(signed))
}

/// The value of the outcome of making forfeit transactions.
pub open spec fn forfeits_view(outcome: Option<Result<Vec<Psbt>, Error>>) -> Option<
    Result<Seq<Seq<u8>>, Error>,
> {
    match outcome {
        Some(Ok(txs)) => Some(Ok(views::views(txs@))),
        Some(Err(e)) => Some(Err(e)),
        None => None,
    }
}

/// Makes and signs the forfeit transactions of a round: one for each VTXO and each connector.
///
/// The fee of the forfeit transactions of each VTXO is given. There is no outcome where the forfeit
/// address cannot be read, a VTXO has no place or does not cover its fee, or a message cannot be
/// made; it is an error if a signature of the client does not verify.
pub fn create_and_sign_forfeit_txs(
    info: &Info,
    vtxos: &Vec<VtxoInput>,
    connectors: &Vec<Psbt>,
    min_relay_fees: &Vec<u64>,
    pair: &Keypair,
) -> (outcome: Option<Result<Vec<Psbt>, Error>>)
    requires
        min_relay_fees@.len() == vtxos@.len(),
    ensures
        forfeits_view(outcome) == signed_forfeits(
            info.forfeit_address@,
            info.network,
            info.dust,
            views::views(vtxos@),
            min_relay_fees@,
            views::views(connectors@),
            pair@,
        ),
        outcome matches Some(Ok(txs)) ==> are_signed_forfeits(
            views::views(txs@),
            views::views(vtxos@),
            min_relay_fees@,
            all_connectors(views::views(connectors@), info.dust),
            info.dust,
            address::address_script(info.forfeit_address@, info.network)->0,
        ),
{
    let script: Vec<u8> = match read_address(info.forfeit_address.as_str(), info.network) {
        Some(s) => s,
        None => {
            return None;
        },
    };
    let found: Vec<Connector> = find_connectors(connectors, info.dust);
    let ghost steps = Seq::new(
        vtxos@.len(),
        |v: int|
            forfeits_of(
                vtxos@[v]@,
                min_relay_fees@[v],
                views::views(found@),
                info.dust,
                script@,
                pair@,
            ),
    );
    assert(steps =~= Seq::new(
        views::views(vtxos@).len(),
        |v: int|
            forfeits_of(
                views::views(vtxos@)[v],
                min_relay_fees@[v],
                views::views(found@),
                info.dust,
                script@,
                pair@,
            ),
    ));
    let ghost mut rows: Seq<Seq<Seq<u8>>> = Seq::empty();
    let mut signed: Vec<Psbt> = Vec::new();
    let mut v: usize = 0;
    assert(steps.take(0) =~= Seq::empty());
    assert(views::views(signed@) =~= Seq::empty());
    while v < vtxos.len()
        invariant
            v <= vtxos@.len(),
            min_relay_fees@.len() == vtxos@.len(),
            steps == Seq::new(
                vtxos@.len(),
                |v: int|
                    forfeits_of(
                        vtxos@[v]@,
                        min_relay_fees@[v],
                        views::views(found@),
                        info.dust,
                        script@,
                        pair@,
                    ),
            ),
            views::in_turn(steps.take(v as int)) == Some(
                Ok::<Seq<Seq<Seq<u8>>>, Error>(rows),
            ),
            views::views(signed@) == views::flatten(rows),
            rows.len() == v,
            forall|k: int|
                0 <= k < v ==> is_signed_row(
                    #[trigger] rows[k],
                    vtxos@[k]@,
                    min_relay_fees@[k],
                    views::views(found@),
                    info.dust,
                    script@,
                ),
            signed_forfeits(
                info.forfeit_address@,
                info.network,
                info.dust,
                views::views(vtxos@),
                min_relay_fees@,
                views::views(connectors@),
                pair@,
            ) == views::joined(views::in_turn(steps)),
        decreases vtxos@.len() - v,
    {
        assert(steps.take(v + 1).drop_last() =~= steps.take(v as int));
        match sign_forfeits_of(
            &vtxos[v],
            min_relay_fees[v],
            &found,
            info.dust,
            &script,
            pair,
        ) {
            Some(Ok(row)) => {
                let ghost before = signed@;
                let ghost added = row@;
                let mut row = row;
                signed.append(&mut row);
                proof {
                    let longer = rows.push(views::views(added));
                    assert(longer.drop_last() =~= rows);
                    rows = longer;
                    assert(views::views(signed@) =~= views::views(before) + views::views(added));
                }
            },
            Some(Err(e)) => {
                proof {
                    views::lemma_in_turn_stops(steps, v + 1);
                }
                return Some(Err(e));
            },
            None => {
                proof {
                    views::lemma_in_turn_stops(steps, v + 1);
                }
                return None;
            },
        }
        v = v + 1;
    }
    proof {
        assert forall|k: int| 0 <= k < rows.len() implies is_signed_row(
            #[trigger] rows[k],
            views::views(vtxos@)[k],
            min_relay_fees@[k],
            views::views(found@),
            info.dust,
            script@,
        ) by {}
        lemma_rows_are_signed(
            rows,
            views::views(vtxos@),
            min_relay_fees@,
            views::views(found@),
            info.dust,
            script@,
        );
    }
    assert(steps.take(vtxos@.len() as int) =~= steps);
    Some(Ok(signed))
}

/// Every VTXO is forfeited against every connector: on success, the forfeit transactions are those
/// of the VTXOs in order, and for each VTXO those of the connectors in order.
pub proof fn law_every_vtxo_meets_every_connector(
    inputs: Seq<VtxoInputView>,
    fees: Seq<u64>,
    connectors: Seq<ConnectorView>,
    dust: u64,
    script: Seq<u8>,
    secret: Seq<u8>,
    v: int,
    c: int,
)
    requires
        all_forfeits(inputs, fees, connectors, dust, script, secret) matches Some(Ok(_)),
        0 <= v < inputs.len(),
        0 <= c < connectors.len(),
    ensures
        ({
            let txs = all_forfeits(inputs, fees, connectors, dust, script, secret)->0->Ok_0;
            let value = forfeit_value(inputs[v].outpoint.amount, dust, fees[v]);
            &&& txs.len() == inputs.len() * connectors.len()
            &&& 0 <= v * connectors.len() + c < txs.len()
            &&& value is Some
            &&& forfeit_tx(
                inputs[v],
                connectors[c],
                TxOutView { value: value->0, script_pubkey: script },
                secret,
            ) == Some(Ok::<Seq<u8>, Error>(txs[v * connectors.len() + c]))
        }),
{
    let steps = Seq::new(
        inputs.len(),
        |v: int| forfeits_of(inputs[v], fees[v], connectors, dust, script, secret),
    );
    views::lemma_in_turn_done(steps);
    let rows = views::in_turn(steps)->0->Ok_0;
    assert forall|k: int| 0 <= k < rows.len() implies (#[trigger] rows[k]).len()
        == connectors.len() by {
        assert(steps[k] == Some(Ok::<Seq<Seq<u8>>, Error>(rows[k])));
        let value = forfeit_value(inputs[k].outpoint.amount, dust, fees[k])->0;
        let row = Seq::new(
            connectors.len(),
            |c: int|
                forfeit_tx(
                    inputs[k],
                    connectors[c],
                    TxOutView { value, script_pubkey: script },
                    secret,
                ),
        );
        views::lemma_in_turn_done(row);
    }
    views::lemma_flatten_even(rows, connectors.len(), v, c);
    assert(steps[v] == Some(Ok::<Seq<Seq<u8>>, Error>(rows[v])));
    let value = forfeit_value(inputs[v].outpoint.amount, dust, fees[v])->0;
    let row = Seq::new(
        connectors.len(),
        |c: int|
            forfeit_tx(
                inputs[v],
                connectors[c],
                TxOutView { value, script_pubkey: script },
                secret,
            ),
    );
    views::lemma_in_turn_done(row);
    assert(row[c] == Some(Ok::<Seq<u8>, Error>(rows[v][c])));
}

/// Nothing is lost in a forfeit: what it pays and its fee are together what it spends.
pub proof fn law_forfeit_conserves_value(amount: u64, dust: u64, fee: u64)
    requires
        forfeit_value(amount, dust, fee) is Some,
    ensures
        forfeit_value(amount, dust, fee)->0 + fee == amount + dust,
{
}

/// The connectors of a transaction are its dust outputs, all of them, in order.
pub proof fn law_connectors_are_the_dust_outputs(
    txid: Seq<u8>,
    outputs: Seq<TxOutView>,
    dust: u64,
)
    requires
        outputs.len() <= u32::MAX,
    ensures
        forall|i: int|
            0 <= i < connectors_of(txid, outputs, dust).len() ==> {
                let connector = #[trigger] connectors_of(txid, outputs, dust)[i];
                &&& connector.outpoint.txid == txid
                &&& connector.outpoint.vout < outputs.len()
                &&& connector.output == outputs[connector.outpoint.vout as int]
                &&& connector.output.value == dust
            },
        forall|k: int|
            0 <= k < outputs.len() && (#[trigger] outputs[k]).value == dust ==> connectors_of(
                txid,
                outputs,
                dust,
            ).contains(
                ConnectorView {
                    outpoint: OutPointView { txid, vout: k as u32 },
                    output: outputs[k],
                },
            ),
    decreases outputs.len(),
{
    if outputs.len() > 0 {
        let front = connectors_of(txid, outputs.drop_last(), dust);
        let all = connectors_of(txid, outputs, dust);
        law_connectors_are_the_dust_outputs(txid, outputs.drop_last(), dust);
        assert forall|k: int|
            0 <= k < outputs.len() && (#[trigger] outputs[k]).value == dust implies all.contains(
            ConnectorView { outpoint: OutPointView { txid, vout: k as u32 }, output: outputs[k] },
        ) by {
            let connector = ConnectorView {
                outpoint: OutPointView { txid, vout: k as u32 },
                output: outputs[k],
            };
            if k < outputs.len() - 1 {
                assert(outputs.drop_last()[k].value == dust);
                let at = choose|at: int| 0 <= at < front.len() && front[at] == connector;
                assert(all[at] == connector);
            } else {
                assert(all[front.len() as int] == connector);
            }
        }
        assert forall|i: int| 0 <= i < all.len() implies {
            let connector = #[trigger] all[i];
            &&& connector.outpoint.txid == txid
            &&& connector.outpoint.vout < outputs.len()
            &&& connector.output == outputs[connector.outpoint.vout as int]
            &&& connector.output.value == dust
        } by {
            if i < front.len() {
                assert(all[i] == front[i]);
            }
        }
    }
}

/// A forfeit pays something just if what it spends is an amount and covers the fee.
pub proof fn law_forfeit_is_covered(amount: u64, dust: u64, fee: u64)
    ensures
        forfeit_value(amount, dust, fee) is Some <==> amount + dust <= 0xffff_ffff_ffff_ffff && fee
            <= amount + dust,
{
}

/// The connectors of a transaction come in the order of its outputs, none of them twice.
pub proof fn law_connectors_are_in_order(
    txid: Seq<u8>,
    outputs: Seq<TxOutView>,
    dust: u64,
    i: int,
    j: int,
)
    requires
        outputs.len() <= u32::MAX,
        0 <= i < j < connectors_of(txid, outputs, dust).len(),
    ensures
        connectors_of(txid, outputs, dust)[i].outpoint.vout < connectors_of(
            txid,
            outputs,
            dust,
        )[j].outpoint.vout,
    decreases outputs.len(),
{
    if outputs.len() > 0 {
        let front = connectors_of(txid, outputs.drop_last(), dust);
        law_connectors_are_the_dust_outputs(txid, outputs.drop_last(), dust);
        if j < front.len() {
            law_connectors_are_in_order(txid, outputs.drop_last(), dust, i, j);
        } else {
            assert(front[i].outpoint.vout < outputs.len() - 1);
        }
    }
}

/// The connectors of a round are those of all its connector transactions, each under the id of its own
/// transaction.
pub proof fn law_all_connectors_are_found(psbts: Seq<Seq<u8>>, dust: u64)
    ensures
        all_connectors(psbts, dust) == psbts.map_values(
            |p: Seq<u8>| connectors_of(psbt::psbt_txid(p), psbt::outputs_of(p), dust),
        ).flatten(),
{
    let rows = Seq::new(
        psbts.len(),
        |i: int| connectors_of(psbt::psbt_txid(psbts[i]), psbt::outputs_of(psbts[i]), dust),
    );
    assert(rows =~= psbts.map_values(
        |p: Seq<u8>| connectors_of(psbt::psbt_txid(p), psbt::outputs_of(p), dust),
    ));
    views::law_flatten_joins_rows(rows);
}

/// A signed forfeit transaction spends the connector first and the VTXO second, says what both hold,
/// pays the one output, and carries just the forfeit leaf of the VTXO, at the second input.
pub proof fn law_forfeit_spends_connector_and_vtxo(
    tx: Seq<u8>,
    input: VtxoInputView,
    connector: ConnectorView,
    paid: TxOutView,
)
    requires
        is_signed_forfeit(tx, input, connector, paid),
        input.outpoint.outpoint is Some,
    ensures
        ({
            let parts = psbt::psbt_parts(tx)->0;
            &&& psbt::psbt_parts(tx) is Some
            &&& parts.inputs.len() == 2
            &&& parts.inputs[0] == connector.outpoint
            &&& Some(parts.inputs[1]) == input.outpoint.outpoint
            &&& parts.outputs.len() == 1
            &&& parts.outputs[0] == paid
            &&& parts.witness_utxos.len() == 2
            &&& parts.witness_utxos[0] == Some(connector.output)
            &&& parts.witness_utxos[1] matches Some(spent) && spent.value == input.outpoint.amount
                && spent.script_pubkey == input.vtxo.script_pubkey
            &&& (psbt::psbt_tap_input(tx, 0)->0).scripts.len() == 0
            &&& (psbt::psbt_tap_input(tx, 1)->0).scripts == seq![input.vtxo.forfeit.script]
        }),
{
}

/// Of the forfeit transactions of a round, that of a VTXO and a connector pays to the server what the two
/// hold less the fee of that VTXO.
pub proof fn law_forfeits_pay_the_server(
    txs: Seq<Seq<u8>>,
    inputs: Seq<VtxoInputView>,
    fees: Seq<u64>,
    connectors: Seq<ConnectorView>,
    dust: u64,
    script: Seq<u8>,
    v: int,
    c: int,
)
    requires
        are_signed_forfeits(txs, inputs, fees, connectors, dust, script),
        0 <= v < inputs.len(),
        0 <= c < connectors.len(),
        inputs[v].outpoint.outpoint is Some,
        inputs[v].outpoint.amount + dust <= u64::MAX,
        fees[v] <= inputs[v].outpoint.amount + dust,
    ensures
        ({
            let parts = psbt::psbt_parts(txs[v * connectors.len() + c])->0;
            &&& txs.len() == inputs.len() * connectors.len()
            &&& parts.inputs == seq![connectors[c].outpoint, inputs[v].outpoint.outpoint->0]
            &&& parts.outputs.len() == 1
            &&& parts.outputs[0].script_pubkey == script
            &&& parts.outputs[0].value + fees[v] == inputs[v].outpoint.amount + dust
        }),
{
    let tx = forfeit_at(txs, connectors.len(), v, c);
    assert(is_signed_forfeit(
        tx,
        inputs[v],
        connectors[c],
        forfeit_output(inputs[v], dust, fees[v], script),
    ));
}

/// What the client sends to give its VTXOs up pays to the forfeit address of the server, with the
/// connectors of the round, one transaction for each VTXO and connector; there is nothing where the
/// address cannot be read.
pub proof fn law_forfeits_of_a_round(
    forfeit_address: Seq<char>,
    network: crate::server::Network,
    dust: u64,
    inputs: Seq<VtxoInputView>,
    fees: Seq<u64>,
    connector_psbts: Seq<Seq<u8>>,
    secret: Seq<u8>,
    v: int,
    c: int,
)
    requires
        0 <= v < inputs.len(),
        0 <= c < all_connectors(connector_psbts, dust).len(),
    ensures
        match signed_forfeits(
            forfeit_address,
            network,
            dust,
            inputs,
            fees,
            connector_psbts,
            secret,
        ) {
            Some(Ok(txs)) => {
                let connectors = all_connectors(connector_psbts, dust);
                &&& txs.len() == inputs.len() * connectors.len()
                &&& address::address_script(forfeit_address, network) matches Some(script)
                    && inputs[v].outpoint.amount + dust - fees[v] >= 0 && forfeit_tx(
                    inputs[v],
                    connectors[c],
                    TxOutView {
                        value: (inputs[v].outpoint.amount + dust - fees[v]) as u64,
                        script_pubkey: script,
                    },
                    secret,
                ) == Some(Ok::<Seq<u8>, Error>(txs[v * connectors.len() + c]))
            },
            _ => true,
        },
        address::address_script(forfeit_address, network) is None ==> signed_forfeits(
            forfeit_address,
            network,
            dust,
            inputs,
            fees,
            connector_psbts,
            secret,
        ) is None,
{
    let connectors = all_connectors(connector_psbts, dust);
    if let Some(script) = address::address_script(forfeit_address, network) {
        if let Some(Ok(_)) = all_forfeits(inputs, fees, connectors, dust, script, secret) {
            law_every_vtxo_meets_every_connector(
                inputs,
                fees,
                connectors,
                dust,
                script,
                secret,
                v,
                c,
            );
        }
    }
}

/// A forfeit transaction is signed at its second input, by the forfeit leaf of the VTXO, over the
/// connector's output and the VTXO's; it is of version two, without a lock time, and asks for the default
/// kind of signature. There is one just if each of these can be written into an encoding.
pub proof fn law_forfeit_is_signed_over_both_outputs(
    input: VtxoInputView,
    connector: ConnectorView,
    paid: TxOutView,
    secret: Seq<u8>,
    vtxo: OutPointView,
    spent: TxOutView,
)
    requires
        input.outpoint.outpoint == Some(vtxo),
        spent.value == input.outpoint.amount,
        spent.script_pubkey == input.vtxo.script_pubkey,
    ensures
        ({
            let bare = psbt::psbt_of_unsigned(2, 0, seq![connector.outpoint, vtxo], seq![paid]);
            let first = psbt::psbt_with_witness_utxo(bare, 0, connector.output);
            let second = psbt::psbt_with_witness_utxo(first->0, 1, spent);
            let unsigned = psbt::psbt_with_sighash_type(second->0, 1, 0);
            if psbt::psbt_parts(bare) is Some && first is Some && psbt::psbt_parts(first->0) is Some
                && second is Some && psbt::psbt_parts(second->0) is Some && unsigned is Some
                && psbt::psbt_parts(unsigned->0) is Some {
                forfeit_tx(input, connector, paid, secret) == signing::sign_input(
                    unsigned->0,
                    unsigned->0,
                    1,
                    seq![connector.output, spent],
                    input.vtxo.forfeit,
                    secret,
                )
            } else {
                forfeit_tx(input, connector, paid, secret) is None
            }
        }),
{
    assert(spent == vtxo_output(input));
}

/// A VTXO without a place cannot be given up.
pub proof fn law_no_forfeit_without_a_place(
    input: VtxoInputView,
    connector: ConnectorView,
    paid: TxOutView,
    secret: Seq<u8>,
)
    requires
        input.outpoint.outpoint is None,
    ensures
        forfeit_tx(input, connector, paid, secret) is None,
{
}

/// The forfeit transactions of a round are made where each of them can be made.
pub proof fn law_forfeits_are_made_if_they_can_be(
    forfeit_address: Seq<char>,
    network: crate::server::Network,
    dust: u64,
    inputs: Seq<VtxoInputView>,
    fees: Seq<u64>,
    connector_psbts: Seq<Seq<u8>>,
    secret: Seq<u8>,
    script: Seq<u8>,
)
    requires
        address::address_script(forfeit_address, network) == Some(script),
        forall|v: int|
            0 <= v < inputs.len() ==> (#[trigger] inputs[v]).outpoint.amount + dust <= u64::MAX
                && fees[v] <= inputs[v].outpoint.amount + dust,
        forall|v: int, c: int|
            0 <= v < inputs.len() && 0 <= c < all_connectors(connector_psbts, dust).len() ==> (
            forfeit_tx(
                #[trigger] inputs[v],
                #[trigger] all_connectors(connector_psbts, dust)[c],
                TxOutView {
                    value: (inputs[v].outpoint.amount + dust - fees[v]) as u64,
                    script_pubkey: script,
                },
                secret,
            ) matches Some(Ok(_))),
    ensures
        signed_forfeits(
            forfeit_address,
            network,
            dust,
            inputs,
            fees,
            connector_psbts,
            secret,
        ) matches Some(Ok(_)),
{
    let connectors = all_connectors(connector_psbts, dust);
    let steps = Seq::new(
        inputs.len(),
        |v: int| forfeits_of(inputs[v], fees[v], connectors, dust, script, secret),
    );
    assert forall|v: int| 0 <= v < steps.len() implies (#[trigger] steps[v] matches Some(Ok(_))) by {
        let value = (inputs[v].outpoint.amount + dust - fees[v]) as u64;
        let row = Seq::new(
            connectors.len(),
            |c: int|
                forfeit_tx(
                    inputs[v],
                    connectors[c],
                    TxOutView { value, script_pubkey: script },
                    secret,
                ),
        );
        assert forall|c: int| 0 <= c < row.len() implies (#[trigger] row[c] matches Some(Ok(_))) by {
            assert(forfeit_tx(
                inputs[v],
                connectors[c],
                TxOutView { value, script_pubkey: script },
                secret,
            ) matches Some(Ok(_)));
        }
        views::law_all_steps_count(row);
    }
    views::law_all_steps_count(steps);
}

/// The value of an outcome with transactions holds each of them, at its place.
pub proof fn law_forfeits_are_shown(outcome: Option<Result<Vec<Psbt>, Error>>)
    ensures
        match outcome {
            Some(Ok(txs)) => forfeits_view(outcome) matches Some(Ok(shown)) && shown.len() == txs@.len()
                && forall|i: int| 0 <= i < txs@.len() ==> shown[i] == (#[trigger] txs@[i])@,
            Some(Err(e)) => forfeits_view(outcome) == Some(Err::<Seq<Seq<u8>>, Error>(e)),
            None => forfeits_view(outcome) is None,
        },
{
}

/// Where the forfeit transactions cannot be made for a signature that does not verify, the first one that
/// fails says so, VTXO by VTXO and connector by connector.
pub proof fn law_first_forfeit_that_fails_counts(
    forfeit_address: Seq<char>,
    network: crate::server::Network,
    dust: u64,
    inputs: Seq<VtxoInputView>,
    fees: Seq<u64>,
    connector_psbts: Seq<Seq<u8>>,
    secret: Seq<u8>,
    script: Seq<u8>,
    v: int,
    c: int,
    error: Error,
)
    requires
        address::address_script(forfeit_address, network) == Some(script),
        0 <= v < inputs.len(),
        0 <= c < all_connectors(connector_psbts, dust).len(),
        forall|u: int|
            0 <= u <= v ==> (#[trigger] inputs[u]).outpoint.amount + dust <= u64::MAX && fees[u]
                <= inputs[u].outpoint.amount + dust,
        forall|u: int, d: int|
            0 <= u <= v && 0 <= d < all_connectors(connector_psbts, dust).len() && (u < v || d < c)
                ==> (forfeit_tx(
                #[trigger] inputs[u],
                #[trigger] all_connectors(connector_psbts, dust)[d],
                TxOutView {
                    value: (inputs[u].outpoint.amount + dust - fees[u]) as u64,
                    script_pubkey: script,
                },
                secret,
            ) matches Some(Ok(_))),
        forfeit_tx(
            inputs[v],
            all_connectors(connector_psbts, dust)[c],
            TxOutView {
                value: (inputs[v].outpoint.amount + dust - fees[v]) as u64,
                script_pubkey: script,
            },
            secret,
        ) == Some(Err::<Seq<u8>, Error>(error)),
    ensures
        signed_forfeits(
            forfeit_address,
            network,
            dust,
            inputs,
            fees,
            connector_psbts,
            secret,
        ) == Some(Err::<Seq<Seq<u8>>, Error>(error)),
{
    let connectors = all_connectors(connector_psbts, dust);
    let steps = Seq::new(
        inputs.len(),
        |u: int| forfeits_of(inputs[u], fees[u], connectors, dust, script, secret),
    );
    assert forall|u: int| 0 <= u < v implies (#[trigger] steps[u] matches Some(Ok(_))) by {
        let value = (inputs[u].outpoint.amount + dust - fees[u]) as u64;
        let paid = TxOutView { value, script_pubkey: script };
        let row = Seq::new(
            connectors.len(),
            |d: int| forfeit_tx(inputs[u], connectors[d], TxOutView { value, script_pubkey: script }, secret),
        );
        assert forall|d: int| 0 <= d < row.len() implies (#[trigger] row[d] matches Some(Ok(_))) by {
            assert(forfeit_tx(inputs[u], connectors[d], paid, secret) matches Some(Ok(_)));
        }
        views::law_all_steps_count(row);
    }
    let value = (inputs[v].outpoint.amount + dust - fees[v]) as u64;
    let paid = TxOutView { value, script_pubkey: script };
    let row = Seq::new(
        connectors.len(),
        |d: int| forfeit_tx(inputs[v], connectors[d], TxOutView { value, script_pubkey: script }, secret),
    );
    assert forall|d: int| 0 <= d < c implies (#[trigger] row[d] matches Some(Ok(_))) by {
        assert(forfeit_tx(inputs[v], connectors[d], paid, secret) matches Some(Ok(_)));
    }
    views::law_first_failure_counts(row, c);
    assert(steps[v] == Some(Err::<Seq<Seq<u8>>, Error>(error)));
    views::law_first_failure_counts(steps, v);
}

} // verus!

//! Off-chain payments out of a round.

use vstd::prelude::*;

use crate::error::Error;
use crate::forfeit::{VtxoInput, VtxoInputView};
use crate::keys::Keypair;
use crate::psbt::Psbt;
use crate::server::{Network, VtxoOutPoint, VtxoOutPointView};
use crate::signing;
use crate::signing::{sign_owned_inputs, OwnedOutput, OwnedOutputView};
use crate::spendable::{SpendableGroup, SpendableGroupView};
use crate::taproot;
use crate::taproot::leaf_hash;
use crate::tx::{OutPoint, OutPointView};
use crate::views;
use crate::vtxo::{DefaultVtxo, DefaultVtxoView};

verus! {

/// An off-chain address.
#[derive(Debug, Clone, Copy, PartialEq, Eq)]
pub struct ArkAddress {
    pub network: Network,
    /// The x-only key of the server.
    pub asp: [u8; 32],
    /// The taproot key of the VTXOs at the address.
    pub vtxo_tap_key: [u8; 32],
}

/// The value of an [`ArkAddress`].
pub struct ArkAddressView {
    pub network: Network,
    pub asp: Seq<u8>,
    pub vtxo_tap_key: Seq<u8>,
}

impl View for ArkAddress {
    type V = ArkAddressView;

    open spec fn view(&self) -> ArkAddressView {
        ArkAddressView {
            network: self.network,
            asp: self.asp@,
            vtxo_tap_key: self.vtxo_tap_key@,
        }
    }
}

/// An input of a payment.
#[derive(Debug, Clone, PartialEq, Eq)]
pub struct PaymentInput {
    pub forfeit_leaf_hash: [u8; 32],
    pub outpoint: Option<OutPoint>,
    pub descriptor: String,
}

/// The value of a [`PaymentInput`].
pub struct PaymentInputView {
    pub forfeit_leaf_hash: Seq<u8>,
    pub outpoint: Option<OutPointView>,
    pub descriptor: Seq<char>,
}

impl View for PaymentInput {
    type V = PaymentInputView;

    open spec fn view(&self) -> PaymentInputView {
        PaymentInputView {
            forfeit_leaf_hash: self.forfeit_leaf_hash@,
            outpoint: views::option_view(self.outpoint),
            descriptor: self.descriptor@,
        }
    }
}

/// An output of a payment.
#[derive(Debug, Clone, PartialEq, Eq)]
pub struct PaymentOutput {
    pub address: ArkAddress,
    pub amount: u64,
}

/// The value of a [`PaymentOutput`].
pub struct PaymentOutputView {
    pub address: ArkAddressView,
    pub amount: u64,
}

impl View for PaymentOutput {
    type V = PaymentOutputView;

    open spec fn view(&self) -> PaymentOutputView {
        PaymentOutputView { address: self.address@, amount: self.amount }
    }
}

/// The coins that can be selected for a payment: the VTXOs of all groups, group by group.
pub open spec fn candidate_coins(groups: Seq<SpendableGroupView>) -> Seq<VtxoOutPointView> {
    views::flatten(Seq::new(groups.len(), |i: int| groups[i].outpoints))
}

/// The script of a coin: that of the first group that the coin is in.
pub open spec fn script_of(groups: Seq<SpendableGroupView>, coin: VtxoOutPointView) -> Option<
    DefaultVtxoView,
>
    decreases groups.len(),
{
    if groups.len() == 0 {
        None
    } else {
        match script_of(groups.drop_last(), coin) {
            Some(vtxo) => Some(vtxo),
            None => if groups.last().outpoints.contains(coin) {
                Some(groups.last().vtxo)
            } else {
                None
            },
        }
    }
}

/// A coin with its script.
pub open spec fn selected_one(groups: Seq<SpendableGroupView>, coin: VtxoOutPointView) -> Option<
    VtxoInputView,
> {
    match script_of(groups, coin) {
        Some(vtxo) => Some(VtxoInputView { outpoint: coin, vtxo }),
        None => None,
    }
}

/// The selected coins with their scripts, if all of them are in some group.
pub open spec fn selected(groups: Seq<SpendableGroupView>, coins: Seq<VtxoOutPointView>) -> Option<
    Seq<VtxoInputView>,
> {
    views::whole(Seq::new(coins.len(), |i: int| selected_one(groups, coins[i])))
}

/// A coin, as it is put into a payment: nothing if its leaf has no leaf version.
pub open spec fn payment_input(input: VtxoInputView) -> Option<PaymentInputView> {
    match taproot::tap_leaf_hash(input.vtxo.forfeit.script, input.vtxo.forfeit.leaf_version) {
        Some(forfeit_leaf_hash) => Some(
            PaymentInputView {
                forfeit_leaf_hash,
                outpoint: input.outpoint.outpoint,
                descriptor: input.vtxo.ark_descriptor,
            },
        ),
        None => None,
    }
}

/// The inputs of a payment.
pub open spec fn payment_inputs(inputs: Seq<VtxoInputView>) -> Option<Seq<PaymentInputView>> {
    views::whole(Seq::new(inputs.len(), |i: int| payment_input(inputs[i])))
}

/// The outputs of a payment: the payment itself, and the change, if there is any.
pub open spec fn payment_outputs(
    address: ArkAddressView,
    amount: u64,
    change_address: ArkAddressView,
    change_amount: u64,
) -> Seq<PaymentOutputView> {
    if change_amount > 0 {
        seq![
            PaymentOutputView { address, amount },
            PaymentOutputView { address: change_address, amount: change_amount },
        ]
    } else {
        seq![PaymentOutputView { address, amount }]
    }
}

/// The coins of a payment, as the client signs for them.
pub open spec fn payment_signers(inputs: Seq<VtxoInputView>) -> Seq<OwnedOutputView> {
    Seq::new(
        inputs.len(),
        |i: int|
            OwnedOutputView { outpoint: inputs[i].outpoint.outpoint, path: inputs[i].vtxo.forfeit },
    )
}

/// A payment: the coins that it spends, and what is sent to the server.
#[derive(Debug, Clone, PartialEq, Eq)]
pub struct Payment {
    pub selected: Vec<VtxoInput>,
    pub inputs: Vec<PaymentInput>,
    pub outputs: Vec<PaymentOutput>,
}

/// The value of a [`Payment`].
pub struct PaymentView {
    pub selected: Seq<VtxoInputView>,
    pub inputs: Seq<PaymentInputView>,
    pub outputs: Seq<PaymentOutputView>,
}

impl View for Payment {
    type V = PaymentView;

    open spec fn view(&self) -> PaymentView {
        PaymentView {
            selected: views::views(self.selected@),
            inputs: views::views(self.inputs@),
            outputs: views::views(self.outputs@),
        }
    }
}

/// The payment of an amount with some coins: nothing if a coin is in no group, or its leaf has no
/// leaf version.
pub open spec fn payment_of(
    groups: Seq<SpendableGroupView>,
    coins: Seq<VtxoOutPointView>,
    address: ArkAddressView,
    amount: u64,
    change_address: ArkAddressView,
    change_amount: u64,
) -> Option<PaymentView> {
    match selected(groups, coins) {
        Some(selected) => match payment_inputs(selected) {
            Some(inputs) => Some(
                PaymentView {
                    selected,
                    inputs,
                    outputs: payment_outputs(address, amount, change_address, change_amount),
                },
            ),
            None => None,
        },
        None => None,
    }
}

/// Every coin that can be selected has a script, so that no selection of them fails.
pub proof fn law_every_candidate_has_a_script(
    groups: Seq<SpendableGroupView>,
    coins: Seq<VtxoOutPointView>,
)
    requires
        forall|i: int|
            0 <= i < coins.len() ==> candidate_coins(groups).contains(#[trigger] coins[i]),
    ensures
        selected(groups, coins) is Some,
        selected(groups, coins)->0.len() == coins.len(),
        forall|i: int|
            0 <= i < coins.len() ==> (#[trigger] selected(groups, coins)->0[i]).outpoint == coins[i],
{
    let wanted = Seq::new(coins.len(), |i: int| selected_one(groups, coins[i]));
    assert forall|i: int| 0 <= i < wanted.len() implies (#[trigger] wanted[i]) is Some by {
        assert(candidate_coins(groups).contains(coins[i]));
        lemma_candidate_has_script(groups, coins[i]);
    }
}

proof fn lemma_candidate_has_script(groups: Seq<SpendableGroupView>, coin: VtxoOutPointView)
    requires
        candidate_coins(groups).contains(coin),
    ensures
        script_of(groups, coin) is Some,
    decreases groups.len(),
{
    let lists = Seq::new(groups.len(), |i: int| groups[i].outpoints);
    if groups.len() > 0 {
        let front = groups.drop_last();
        let front_lists = Seq::new(front.len(), |i: int| front[i].outpoints);
        assert(lists.drop_last() =~= front_lists);
        let k = choose|k: int|
            0 <= k < candidate_coins(groups).len() && candidate_coins(groups)[k] == coin;
        if k < candidate_coins(front).len() {
            assert(candidate_coins(front)[k] == coin);
            lemma_candidate_has_script(front, coin);
        } else {
            assert(lists.last()[k - candidate_coins(front).len()] == coin);
        }
    }
}

/// A payment pays what was asked for and gives the rest back: its outputs are worth the payment and
/// the change.
pub proof fn law_payment_conserves_value(
    address: ArkAddressView,
    amount: u64,
    change_address: ArkAddressView,
    change_amount: u64,
)
    ensures
        ({
            let outputs = payment_outputs(address, amount, change_address, change_amount);
            views::sum(Seq::new(outputs.len(), |i: int| outputs[i].amount)) == amount
                + change_amount
        }),
{
    let outputs = payment_outputs(address, amount, change_address, change_amount);
    let amounts = Seq::new(outputs.len(), |i: int| outputs[i].amount);
    if change_amount > 0 {
        assert(amounts =~= seq![amount, change_amount]);
        assert(amounts.drop_last() =~= seq![amount]);
        assert(seq![amount].drop_last() =~= Seq::empty());
    } else {
        assert(amounts =~= seq![amount]);
        assert(amounts.drop_last() =~= Seq::empty());
    }
    reveal_with_fuel(views::sum, 3);
}

/// The coins that can be selected for a payment.
pub fn candidates(groups: &Vec<SpendableGroup>) -> (coins: Vec<VtxoOutPoint>)
    ensures
        views::views(coins@) == candidate_coins(views::views(groups@)),
{
    let ghost lists = Seq::new(groups@.len(), |i: int| views::views(groups@)[i].outpoints);
    let mut coins: Vec<VtxoOutPoint> = Vec::new();
    let mut i: usize = 0;
    assert(views::views(coins@) =~= Seq::empty());
    while i < groups.len()
        invariant
            i <= groups@.len(),
            lists == Seq::new(groups@.len(), |i: int| views::views(groups@)[i].outpoints),
            views::views(coins@) == views::flatten(lists.take(i as int)),
        decreases groups@.len() - i,
    {
        let ghost start = views::views(coins@);
        let ghost row = groups@[i as int]@.outpoints;
        let mut j: usize = 0;
        assert(views::views(coins@) =~= start + row.take(0));
        while j < groups[i].outpoints.len()
            invariant
                i < groups@.len(),
                row == groups@[i as int]@.outpoints,
                j <= row.len(),
                views::views(coins@) == start + row.take(j as int),
            decreases row.len() - j,
        {
            let coin: VtxoOutPoint = groups[i].outpoints[j].copy();
            let ghost before = coins@;
            coins.push(coin);
            assert(views::views(coins@) =~= views::views(before).push(coin@));
            assert(row.take(j + 1) =~= row.take(j as int).push(coin@));
            assert(start + row.take(j as int).push(coin@) =~= (start + row.take(j as int)).push(
                coin@,
            ));
            j = j + 1;
        }
        assert(row.take(row.len() as int) =~= row);
        assert(lists.take(i + 1).drop_last() =~= lists.take(i as int));
        i = i + 1;
    }
    assert(lists.take(groups@.len() as int) =~= lists);
    assert(lists =~= Seq::new(
        views::views(groups@).len(),
        |i: int| views::views(groups@)[i].outpoints,
    ));
    coins
}

/// Whether a coin is among some VTXOs.
fn is_among(outpoints: &Vec<VtxoOutPoint>, coin: &VtxoOutPoint) -> (found: bool)
    ensures
        found == views::views(outpoints@).contains(coin@),
{
    let mut i: usize = 0;
    while i < outpoints.len()
        invariant
            i <= outpoints@.len(),
            forall|k: int| 0 <= k < i ==> #[trigger] views::views(outpoints@)[k] != coin@,
        decreases outpoints@.len() - i,
    {
        assert(views::views(outpoints@)[i as int] == outpoints@[i as int]@);
        if outpoints[i].same(coin) {
            return true;
        }
        i = i + 1;
    }
    false
}

/// Finds the script of a coin.
fn find_script<'a>(groups: &'a Vec<SpendableGroup>, coin: &VtxoOutPoint) -> (vtxo: Option<
    &'a DefaultVtxo,
>)
    ensures
        match vtxo {
            Some(v) => script_of(views::views(groups@), coin@) == Some(v@),
            None => script_of(views::views(groups@), coin@) is None,
        },
{
    let ghost all = views::views(groups@);
    let mut i: usize = 0;
    assert(all.take(0) =~= Seq::empty());
    while i < groups.len()
        invariant
            i <= groups@.len(),
            all == views::views(groups@),
            script_of(all.take(i as int), coin@) is None,
        decreases groups@.len() - i,
    {
        assert(all.take(i + 1).drop_last() =~= all.take(i as int));
        assert(all.take(i + 1).last() == groups@[i as int]@);
        if is_among(&groups[i].outpoints, coin) {
            proof {
                lemma_script_found_early(all, coin@, i + 1);
            }
            return Some(&groups[i].vtxo);
        }
        i = i + 1;
    }
    assert(all.take(all.len() as int) =~= all);
    None
}

proof fn lemma_script_found_early(groups: Seq<SpendableGroupView>, coin: VtxoOutPointView, n: int)
    requires
        0 <= n <= groups.len(),
        script_of(groups.take(n), coin) is Some,
    ensures
        script_of(groups, coin) == script_of(groups.take(n), coin),
    decreases groups.len() - n,
{
    if n == groups.len() {
        assert(groups.take(n) =~= groups);
    } else {
        assert(groups.take(n + 1).drop_last() =~= groups.take(n));
        lemma_script_found_early(groups, coin, n + 1);
    }
}

/// Finds the scripts of the selected coins: nothing if a coin is in no group.
pub fn select_vtxos(groups: &Vec<SpendableGroup>, coins: &Vec<VtxoOutPoint>) -> (inputs: Option<
    Vec<VtxoInput>,
>)
    ensures
        match inputs {
            Some(found) => selected(views::views(groups@), views::views(coins@)) == Some(
                views::views(found@),
            ),
            None => selected(views::views(groups@), views::views(coins@)) is None,
        },
{
    let ghost wanted = Seq::new(
        views::views(coins@).len(),
        |i: int| selected_one(views::views(groups@), views::views(coins@)[i]),
    );
    let mut inputs: Vec<VtxoInput> = Vec::new();
    let mut i: usize = 0;
    while i < coins.len()
        invariant
            i <= coins@.len(),
            wanted == Seq::new(
                views::views(coins@).len(),
                |i: int| selected_one(views::views(groups@), views::views(coins@)[i]),
            ),
            inputs@.len() == i,
            forall|k: int| 0 <= k < i ==> #[trigger] wanted[k] == Some(inputs@[k]@),
        decreases coins@.len() - i,
    {
        assert(wanted[i as int] == selected_one(views::views(groups@), coins@[i as int]@));
        match find_script(groups, &coins[i]) {
            Some(vtxo) => {
                inputs.push(VtxoInput { outpoint: coins[i].copy(), vtxo: vtxo.copy() });
            },
            None => {
                return None;
            },
        }
        i = i + 1;
    }
    assert(views::whole(wanted)->0 =~= views::views(inputs@));
    Some(inputs)
}

/// Makes the inputs of a payment.
pub fn make_payment_inputs(selected: &Vec<VtxoInput>) -> (inputs: Option<Vec<PaymentInput>>)
    ensures
        match inputs {
            Some(made) => payment_inputs(views::views(selected@)) == Some(views::views(made@)),
            None => payment_inputs(views::views(selected@)) is None,
        },
        inputs is None ==> exists|i: int|
            0 <= i < selected@.len() && !taproot::is_leaf_version(
                (#[trigger] selected@[i]).vtxo.forfeit.leaf_version,
            ),
{
    let ghost wanted = Seq::new(
        views::views(selected@).len(),
        |i: int| payment_input(views::views(selected@)[i]),
    );
    let mut inputs: Vec<PaymentInput> = Vec::new();
    let mut i: usize = 0;
    while i < selected.len()
        invariant
            i <= selected@.len(),
            wanted == Seq::new(
                views::views(selected@).len(),
                |i: int| payment_input(views::views(selected@)[i]),
            ),
            inputs@.len() == i,
            forall|k: int| 0 <= k < i ==> #[trigger] wanted[k] == Some(inputs@[k]@),
        decreases selected@.len() - i,
    {
        assert(wanted[i as int] == payment_input(selected@[i as int]@));
        let path = &selected[i].vtxo.forfeit;
        match leaf_hash(&path.script, path.leaf_version) {
            Some(forfeit_leaf_hash) => {
                inputs.push(
                    PaymentInput {
                        forfeit_leaf_hash,
                        outpoint: selected[i].outpoint.outpoint,
                        descriptor: selected[i].vtxo.ark_descriptor.clone(),
                    },
                );
            },
            None => {
                assert(!taproot::is_leaf_version(
                    selected@[i as int].vtxo.forfeit.leaf_version,
                ));
                return None;
            },
        }
        i = i + 1;
    }
    assert(views::whole(wanted)->0 =~= views::views(inputs@));
    Some(inputs)
}

/// Makes the outputs of a payment.
pub fn make_payment_outputs(
    address: ArkAddress,
    amount: u64,
    change_address: ArkAddress,
    change_amount: u64,
) -> (outputs: Vec<PaymentOutput>)
    ensures
        views::views(outputs@) == payment_outputs(
            address@,
            amount,
            change_address@,
            change_amount,
        ),
{
    let mut outputs: Vec<PaymentOutput> = Vec::new();
    outputs.push(PaymentOutput { address, amount });
    if change_amount > 0 {
        outputs.push(PaymentOutput { address: change_address, amount: change_amount });
    }
    assert(views::views(outputs@) =~= payment_outputs(
        address@,
        amount,
        change_address@,
        change_amount,
    ));
    outputs
}

/// Makes a payment of an amount with some coins.
pub fn make_payment(
    groups: &Vec<SpendableGroup>,
    coins: &Vec<VtxoOutPoint>,
    address: ArkAddress,
    amount: u64,
    change_address: ArkAddress,
    change_amount: u64,
) -> (payment: Option<Payment>)
    ensures
        views::option_view(payment) == payment_of(
            views::views(groups@),
            views::views(coins@),
            address@,
            amount,
            change_address@,
            change_amount,
        ),
{
    match select_vtxos(groups, coins) {
        Some(selected) => match make_payment_inputs(&selected) {
            Some(inputs) => Some(
                Payment {
                    selected,
                    inputs,
                    outputs: make_payment_outputs(address, amount, change_address, change_amount),
                },
            ),
            None => None,
        },
        None => None,
    }
}

/// Signs the transaction of a payment, as the server sent it, for every coin of the client.
pub fn sign_redeem_psbt(redeem_psbt: &Psbt, selected: &Vec<VtxoInput>, pair: &Keypair) -> (outcome:
    Option<Result<Psbt, Error>>)
    ensures
        views::outcome_view(outcome) == signing::sign_for_outputs(
            redeem_psbt@,
            payment_signers(views::views(selected@)),
            pair@,
        ),
        outcome matches Some(Ok(signed)) ==> signing::only_owned_signed(
            redeem_psbt@,
            signed@,
            payment_signers(views::views(selected@)),
        ),
{
    let mut owned: Vec<OwnedOutput> = Vec::new();
    let mut i: usize = 0;
    while i < selected.len()
        invariant
            i <= selected@.len(),
            owned@.len() == i,
            forall|k: int|
                0 <= k < i ==> (#[trigger] owned@[k])@ == payment_signers(
                    views::views(selected@),
                )[k],
        decreases selected@.len() - i,
    {
        owned.push(
            OwnedOutput {
                outpoint: selected[i].outpoint.outpoint,
                path: selected[i].vtxo.forfeit.copy(),
            },
        );
        i = i + 1;
    }
    assert(views::views(owned@) =~= payment_signers(views::views(selected@)));
    sign_owned_inputs(redeem_psbt, &owned, pair)
}

/// The coins that can be selected are those of all groups, each group after the one before.
pub proof fn law_candidates_are_all_coins(groups: Seq<SpendableGroupView>)
    ensures
        candidate_coins(groups) == groups.map_values(|g: SpendableGroupView| g.outpoints).flatten(),
{
    let lists = Seq::new(groups.len(), |i: int| groups[i].outpoints);
    assert(lists =~= groups.map_values(|g: SpendableGroupView| g.outpoints));
    views::law_flatten_joins_rows(lists);
}

/// A coin has the script of the first group that it is in, and none just if it is in no group.
pub proof fn law_script_is_that_of_the_group(groups: Seq<SpendableGroupView>, coin: VtxoOutPointView)
    ensures
        match script_of(groups, coin) {
            Some(vtxo) => exists|g: int|
                0 <= g < groups.len() && (#[trigger] groups[g]).outpoints.contains(coin)
                    && groups[g].vtxo == vtxo && forall|earlier: int|
                    0 <= earlier < g ==> !(#[trigger] groups[earlier]).outpoints.contains(coin),
            None => forall|g: int|
                0 <= g < groups.len() ==> !(#[trigger] groups[g]).outpoints.contains(coin),
        },
    decreases groups.len(),
{
    if groups.len() > 0 {
        let front = groups.drop_last();
        law_script_is_that_of_the_group(front, coin);
        match script_of(front, coin) {
            Some(vtxo) => {
                let g = choose|g: int|
                    0 <= g < front.len() && (#[trigger] front[g]).outpoints.contains(coin)
                        && front[g].vtxo == vtxo && forall|earlier: int|
                        0 <= earlier < g ==> !(#[trigger] front[earlier]).outpoints.contains(coin);
                assert(groups[g] == front[g]);
                assert forall|earlier: int| 0 <= earlier < g implies !(
                #[trigger] groups[earlier]).outpoints.contains(coin) by {
                    assert(!front[earlier].outpoints.contains(coin));
                }
            },
            None => {
                assert forall|g: int| 0 <= g < front.len() implies !(
                #[trigger] groups[g]).outpoints.contains(coin) by {
                    assert(!front[g].outpoints.contains(coin));
                }
                assert(groups[groups.len() - 1] == groups.last());
            },
        }
    }
}

/// A payment spends exactly the coins that were selected for it, in their order: each input has the
/// place of its own coin, with the descriptor and the hash of the forfeit leaf of a group that the coin
/// is in. Each coin is also kept, to be signed for.
pub proof fn law_payment_spends_the_selected_coins(
    groups: Seq<SpendableGroupView>,
    coins: Seq<VtxoOutPointView>,
    address: ArkAddressView,
    amount: u64,
    change_address: ArkAddressView,
    change_amount: u64,
    i: int,
)
    requires
        payment_of(groups, coins, address, amount, change_address, change_amount) is Some,
        0 <= i < coins.len(),
    ensures
        ({
            let payment = payment_of(
                groups,
                coins,
                address,
                amount,
                change_address,
                change_amount,
            )->0;
            &&& payment.inputs.len() == coins.len()
            &&& payment.selected.len() == coins.len()
            &&& payment.inputs[i].outpoint == coins[i].outpoint
            &&& payment.selected[i].outpoint == coins[i]
            &&& exists|g: int|
                0 <= g < groups.len() && (#[trigger] groups[g]).outpoints.contains(coins[i])
                    && payment.selected[i].vtxo == groups[g].vtxo && payment.inputs[i].descriptor
                    == groups[g].vtxo.ark_descriptor && taproot::tap_leaf_hash(
                    groups[g].vtxo.forfeit.script,
                    groups[g].vtxo.forfeit.leaf_version,
                ) == Some(payment.inputs[i].forfeit_leaf_hash)
        }),
{
    let chosen = selected(groups, coins)->0;
    let found = Seq::new(coins.len(), |i: int| selected_one(groups, coins[i]));
    assert(found[i] is Some);
    law_script_is_that_of_the_group(groups, coins[i]);
    law_inputs_are_those_of_the_coins(chosen, i);
}

/// The inputs of a payment are those of its coins, each at its own place.
pub proof fn law_inputs_are_those_of_the_coins(inputs: Seq<VtxoInputView>, i: int)
    requires
        payment_inputs(inputs) is Some,
        0 <= i < inputs.len(),
    ensures
        payment_inputs(inputs)->0.len() == inputs.len(),
        payment_inputs(inputs)->0[i].outpoint == inputs[i].outpoint.outpoint,
        payment_inputs(inputs)->0[i].descriptor == inputs[i].vtxo.ark_descriptor,
        taproot::tap_leaf_hash(
            inputs[i].vtxo.forfeit.script,
            inputs[i].vtxo.forfeit.leaf_version,
        ) == Some(payment_inputs(inputs)->0[i].forfeit_leaf_hash),
{
    let made = Seq::new(inputs.len(), |i: int| payment_input(inputs[i]));
    assert(made[i] is Some);
}

/// There is a payment just if each coin is in some group, and its forfeit leaf has a hash.
pub proof fn law_payment_is_made_if_it_can_be(
    groups: Seq<SpendableGroupView>,
    coins: Seq<VtxoOutPointView>,
    address: ArkAddressView,
    amount: u64,
    change_address: ArkAddressView,
    change_amount: u64,
)
    requires
        forall|i: int|
            0 <= i < coins.len() ==> exists|g: int|
                0 <= g < groups.len() && (#[trigger] groups[g]).outpoints.contains(
                    #[trigger] coins[i],
                ),
        forall|g: int|
            0 <= g < groups.len() ==> taproot::tap_leaf_hash(
                (#[trigger] groups[g]).vtxo.forfeit.script,
                groups[g].vtxo.forfeit.leaf_version,
            ) is Some,
    ensures
        payment_of(groups, coins, address, amount, change_address, change_amount) is Some,
{
    let found = Seq::new(coins.len(), |i: int| selected_one(groups, coins[i]));
    assert forall|i: int| 0 <= i < found.len() implies (#[trigger] found[i]) is Some by {
        law_script_is_that_of_the_group(groups, coins[i]);
        let g = choose|g: int|
            0 <= g < groups.len() && (#[trigger] groups[g]).outpoints.contains(coins[i]);
        assert(groups[g].outpoints.contains(coins[i]));
    }
    let chosen = selected(groups, coins)->0;
    let made = Seq::new(chosen.len(), |i: int| payment_input(chosen[i]));
    assert forall|i: int| 0 <= i < made.len() implies (#[trigger] made[i]) is Some by {
        law_script_is_that_of_the_group(groups, coins[i]);
        assert(found[i] is Some);
        assert(chosen[i] == found[i]->0);
        let g = choose|g: int|
            0 <= g < groups.len() && (#[trigger] groups[g]).outpoints.contains(coins[i])
                && groups[g].vtxo == chosen[i].vtxo;
        assert(groups[g].vtxo == chosen[i].vtxo);
    }
}

/// A payment pays the amount to the address that it is for, and the change, if there is any, to the
/// other one.
pub proof fn law_payment_goes_where_it_is_meant_to(
    groups: Seq<SpendableGroupView>,
    coins: Seq<VtxoOutPointView>,
    address: ArkAddressView,
    amount: u64,
    change_address: ArkAddressView,
    change_amount: u64,
)
    requires
        payment_of(groups, coins, address, amount, change_address, change_amount) is Some,
    ensures
        ({
            let outputs = (payment_of(
                groups,
                coins,
                address,
                amount,
                change_address,
                change_amount,
            )->0).outputs;
            &&& outputs.len() == (if change_amount == 0 {
                1int
            } else {
                2
            })
            &&& outputs[0].address == address && outputs[0].amount == amount
            &&& change_amount != 0 ==> outputs[1].address == change_address && outputs[1].amount
                == change_amount
        }),
{
}

/// For each coin of a payment, the client signs at the place of the coin, by the forfeit leaf of the
/// coin.
pub proof fn law_every_coin_is_signed_for(inputs: Seq<VtxoInputView>, i: int)
    requires
        0 <= i < inputs.len(),
    ensures
        payment_signers(inputs).len() == inputs.len(),
        payment_signers(inputs)[i].outpoint == inputs[i].outpoint.outpoint,
        payment_signers(inputs)[i].path == inputs[i].vtxo.forfeit,
{
}

} // verus!

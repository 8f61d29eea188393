//! What the client can spend: its VTXOs, and the outputs that wait to board.

use vstd::prelude::*;

use crate::forfeit::{VtxoInput, VtxoInputView};
use crate::registration::{BoardingInput, BoardingInputView};
use crate::server::{VtxoOutPoint, VtxoOutPointView};
use crate::tx::{OutPoint, OutPointView};
use crate::views;
use crate::vtxo::{BoardingOutput, BoardingOutputView, DefaultVtxo, DefaultVtxoView};

verus! {

/// The spendable VTXOs of one off-chain address, with the script of the address.
#[derive(Debug, Clone, PartialEq, Eq)]
pub struct SpendableGroup {
    pub outpoints: Vec<VtxoOutPoint>,
    pub vtxo: DefaultVtxo,
}

/// The value of a [`SpendableGroup`].
pub struct SpendableGroupView {
    pub outpoints: Seq<VtxoOutPointView>,
    pub vtxo: DefaultVtxoView,
}

impl View for SpendableGroup {
    type V = SpendableGroupView;

    open spec fn view(&self) -> SpendableGroupView {
        SpendableGroupView { outpoints: views::views(self.outpoints@), vtxo: self.vtxo@ }
    }
}

/// An output on-chain: where it is, and what it holds.
#[derive(Debug, Clone, PartialEq, Eq)]
pub struct Utxo {
    pub outpoint: OutPoint,
    pub amount: u64,
}

/// The value of a [`Utxo`].
pub struct UtxoView {
    pub outpoint: OutPointView,
    pub amount: u64,
}

impl View for Utxo {
    type V = UtxoView;

    open spec fn view(&self) -> UtxoView {
        UtxoView { outpoint: self.outpoint@, amount: self.amount }
    }
}

/// A boarding address, and the output at it, if there is one.
#[derive(Debug, Clone, PartialEq, Eq)]
pub struct BoardingAddress {
    pub output: BoardingOutput,
    pub utxo: Option<Utxo>,
}

/// The value of a [`BoardingAddress`].
pub struct BoardingAddressView {
    pub output: BoardingOutputView,
    pub utxo: Option<UtxoView>,
}

impl View for BoardingAddress {
    type V = BoardingAddressView;

    open spec fn view(&self) -> BoardingAddressView {
        BoardingAddressView { output: self.output@, utxo: views::option_view(self.utxo) }
    }
}

/// What the client can put into a round.
#[derive(Debug, Clone, PartialEq, Eq)]
pub struct RoundFunds {
    pub boarding: Vec<BoardingInput>,
    pub vtxos: Vec<VtxoInput>,
    pub total_amount: u64,
}

/// The value of a [`RoundFunds`].
pub struct RoundFundsView {
    pub boarding: Seq<BoardingInputView>,
    pub vtxos: Seq<VtxoInputView>,
    pub total_amount: u64,
}

impl View for RoundFunds {
    type V = RoundFundsView;

    open spec fn view(&self) -> RoundFundsView {
        RoundFundsView {
            boarding: views::views(self.boarding@),
            vtxos: views::views(self.vtxos@),
            total_amount: self.total_amount,
        }
    }
}

/// The VTXOs of one group, each with the script of the group.
pub open spec fn group_inputs(group: SpendableGroupView) -> Seq<VtxoInputView> {
    Seq::new(
        group.outpoints.len(),
        |i: int| VtxoInputView { outpoint: group.outpoints[i], vtxo: group.vtxo },
    )
}

/// The VTXOs of all groups, group by group.
pub open spec fn all_inputs(groups: Seq<SpendableGroupView>) -> Seq<VtxoInputView> {
    views::flatten(Seq::new(groups.len(), |i: int| group_inputs(groups[i])))
}

/// The amounts of some VTXOs.
pub open spec fn amounts_of(inputs: Seq<VtxoInputView>) -> Seq<u64> {
    Seq::new(inputs.len(), |i: int| inputs[i].outpoint.amount)
}

/// What the client owns off-chain.
pub open spec fn balance(groups: Seq<SpendableGroupView>) -> int {
    views::sum(amounts_of(all_inputs(groups)))
}

/// The outputs that were found at the boarding addresses.
pub open spec fn found_boarding(addresses: Seq<BoardingAddressView>) -> Seq<BoardingInputView>
    decreases addresses.len(),
{
    if addresses.len() == 0 {
        Seq::empty()
    } else {
        match addresses.last().utxo {
            Some(utxo) => found_boarding(addresses.drop_last()).push(
                BoardingInputView { outpoint: utxo.outpoint, output: addresses.last().output },
            ),
            None => found_boarding(addresses.drop_last()),
        }
    }
}

/// The amounts that were found at the boarding addresses.
pub open spec fn found_amounts(addresses: Seq<BoardingAddressView>) -> Seq<u64>
    decreases addresses.len(),
{
    if addresses.len() == 0 {
        Seq::empty()
    } else {
        match addresses.last().utxo {
            Some(utxo) => found_amounts(addresses.drop_last()).push(utxo.amount),
            None => found_amounts(addresses.drop_last()),
        }
    }
}

/// What the client can put into a round, if its sum is an amount.
pub open spec fn round_funds(
    addresses: Seq<BoardingAddressView>,
    groups: Seq<SpendableGroupView>,
) -> Option<RoundFundsView> {
    let total = views::sum(found_amounts(addresses)) + balance(groups);
    if total <= u64::MAX {
        Some(
            RoundFundsView {
                boarding: found_boarding(addresses),
                vtxos: all_inputs(groups),
                total_amount: total as u64,
            },
        )
    } else {
        None
    }
}

/// The sum of some amounts, if it is an amount itself.
pub fn add_up(amounts: &Vec<u64>) -> (total: Option<u64>)
    ensures
        match total {
            Some(t) => t == views::sum(amounts@),
            None => views::sum(amounts@) > u64::MAX,
        },
{
    let mut total: u64 = 0;
    let mut i: usize = 0;
    assert(amounts@.take(0) =~= Seq::empty());
    while i < amounts.len()
        invariant
            i <= amounts@.len(),
            total == views::sum(amounts@.take(i as int)),
        decreases amounts@.len() - i,
    {
        assert(amounts@.take(i + 1).drop_last() =~= amounts@.take(i as int));
        proof {
            views::lemma_sum_take(amounts@, i + 1);
        }
        match total.checked_add(amounts[i]) {
            Some(sum) => {
                total = sum;
            },
            None => {
                return None;
            },
        }
        i = i + 1;
    }
    assert(amounts@.take(amounts@.len() as int) =~= amounts@);
    Some(total)
}

/// The VTXOs of all groups, each with the script of its group.
pub fn vtxo_inputs(groups: &Vec<SpendableGroup>) -> (inputs: Vec<VtxoInput>)
    ensures
        views::views(inputs@) == all_inputs(views::views(groups@)),
{
    let ghost per_group = Seq::new(
        groups@.len(),
        |i: int| group_inputs(views::views(groups@)[i]),
    );
    let mut inputs: Vec<VtxoInput> = Vec::new();
    let mut i: usize = 0;
    assert(views::views(inputs@) =~= Seq::empty());
    while i < groups.len()
        invariant
            i <= groups@.len(),
            per_group == Seq::new(
                groups@.len(),
                |i: int| group_inputs(views::views(groups@)[i]),
            ),
            views::views(inputs@) == views::flatten(per_group.take(i as int)),
        decreases groups@.len() - i,
    {
        let ghost start = views::views(inputs@);
        let ghost row = group_inputs(groups@[i as int]@);
        let mut j: usize = 0;
        assert(views::views(inputs@) =~= start + row.take(0));
        while j < groups[i].outpoints.len()
            invariant
                i < groups@.len(),
                row == group_inputs(groups@[i as int]@),
                j <= row.len(),
                row.len() == groups@[i as int].outpoints@.len(),
                views::views(inputs@) == start + row.take(j as int),
            decreases row.len() - j,
        {
            let input = VtxoInput {
                outpoint: groups[i].outpoints[j].copy(),
                vtxo: groups[i].vtxo.copy(),
            };
            let ghost before = inputs@;
            inputs.push(input);
            assert(row[j as int] == input@);
            assert(views::views(inputs@) =~= views::views(before).push(input@));
            assert(row.take(j + 1) =~= row.take(j as int).push(input@));
            assert(start + row.take(j as int).push(input@) =~= (start + row.take(j as int)).push(
                input@,
            ));
            j = j + 1;
        }
        assert(row.take(row.len() as int) =~= row);
        assert(per_group.take(i + 1).drop_last() =~= per_group.take(i as int));
        i = i + 1;
    }
    assert(per_group.take(groups@.len() as int) =~= per_group);
    assert(per_group =~= Seq::new(
        views::views(groups@).len(),
        |i: int| group_inputs(views::views(groups@)[i]),
    ));
    inputs
}

/// The amounts of some VTXOs.
fn vtxo_amounts(inputs: &Vec<VtxoInput>) -> (amounts: Vec<u64>)
    ensures
        amounts@ == amounts_of(views::views(inputs@)),
{
    let mut amounts: Vec<u64> = Vec::new();
    let mut i: usize = 0;
    while i < inputs.len()
        invariant
            i <= inputs@.len(),
            amounts@.len() == i,
            forall|k: int| 0 <= k < i ==> #[trigger] amounts@[k] == inputs@[k]@.outpoint.amount,
        decreases inputs@.len() - i,
    {
        amounts.push(inputs[i].outpoint.amount);
        i = i + 1;
    }
    assert(amounts@ =~= amounts_of(views::views(inputs@)));
    amounts
}

/// What the VTXOs of some groups are worth, if their sum is an amount.
pub fn worth_of(groups: &Vec<SpendableGroup>) -> (total: Option<u64>)
    ensures
        match total {
            Some(t) => t == balance(views::views(groups@)),
            None => balance(views::views(groups@)) > u64::MAX,
        },
{
    let inputs: Vec<VtxoInput> = vtxo_inputs(groups);
    add_up(&vtxo_amounts(&inputs))
}

/// Gathers what the client can put into a round: the outputs that were found at its boarding
/// addresses, and all of its spendable VTXOs. There is nothing where the sum is not an amount.
pub fn gather_funds(
    addresses: &Vec<BoardingAddress>,
    groups: &Vec<SpendableGroup>,
) -> (funds: Option<RoundFunds>)
    ensures
        views::option_view(funds) == round_funds(
            views::views(addresses@),
            views::views(groups@),
        ),
{
    let ghost all = views::views(addresses@);
    let mut boarding: Vec<BoardingInput> = Vec::new();
    let mut amounts: Vec<u64> = Vec::new();
    let mut i: usize = 0;
    assert(all.take(0) =~= Seq::empty());
    assert(views::views(boarding@) =~= Seq::empty());
    while i < addresses.len()
        invariant
            i <= addresses@.len(),
            all == views::views(addresses@),
            views::views(boarding@) == found_boarding(all.take(i as int)),
            amounts@ == found_amounts(all.take(i as int)),
        decreases addresses@.len() - i,
    {
        assert(all.take(i + 1).drop_last() =~= all.take(i as int));
        assert(all.take(i + 1).last() == addresses@[i as int]@);
        match &addresses[i].utxo {
            Some(utxo) => {
                let input = BoardingInput {
                    outpoint: utxo.outpoint,
                    output: addresses[i].output.copy(),
                };
                let ghost before = boarding@;
                boarding.push(input);
                amounts.push(utxo.amount);
                assert(views::views(boarding@) =~= views::views(before).push(input@));
            },
            None => {},
        }
        i = i + 1;
    }
    assert(all.take(all.len() as int) =~= all);
    let vtxos: Vec<VtxoInput> = vtxo_inputs(groups);
    let ghost boarded = amounts@;
    let mut off_chain: Vec<u64> = vtxo_amounts(&vtxos);
    let ghost owned = off_chain@;
    amounts.append(&mut off_chain);
    proof {
        assert(amounts@ =~= boarded + owned);
        views::lemma_sum_append(boarded, owned);
    }
    match add_up(&amounts) {
        Some(total_amount) => Some(RoundFunds { boarding, vtxos, total_amount }),
        None => None,
    }
}

/// What the client puts into a round is worth what it owns: its off-chain balance, and what was
/// found at its boarding addresses.
pub proof fn law_round_holds_everything(
    addresses: Seq<BoardingAddressView>,
    groups: Seq<SpendableGroupView>,
)
    requires
        round_funds(addresses, groups) is Some,
    ensures
        round_funds(addresses, groups)->0.total_amount == views::sum(found_amounts(addresses))
            + balance(groups),
        found_boarding(addresses).len() == found_amounts(addresses).len(),
        views::sum(amounts_of(round_funds(addresses, groups)->0.vtxos)) == balance(groups),
{
    lemma_amounts_are_amounts(addresses);
    views::lemma_sum_take(found_amounts(addresses), 0);
    views::lemma_sum_take(amounts_of(all_inputs(groups)), 0);
}

proof fn lemma_amounts_are_amounts(addresses: Seq<BoardingAddressView>)
    ensures
        found_boarding(addresses).len() == found_amounts(addresses).len(),
    decreases addresses.len(),
{
    if addresses.len() > 0 {
        lemma_amounts_are_amounts(addresses.drop_last());
    }
}

/// One more VTXO in a group, whatever else is known of it, raises the balance by exactly its amount.
pub proof fn law_one_more_vtxo_raises_the_balance(
    groups: Seq<SpendableGroupView>,
    g: int,
    coin: VtxoOutPointView,
)
    requires
        0 <= g < groups.len(),
    ensures
        balance(
            groups.update(
                g,
                SpendableGroupView {
                    outpoints: groups[g].outpoints.push(coin),
                    vtxo: groups[g].vtxo,
                },
            ),
        ) == balance(groups) + coin.amount,
    decreases groups.len(),
{
    let grown = SpendableGroupView {
        outpoints: groups[g].outpoints.push(coin),
        vtxo: groups[g].vtxo,
    };
    let after = groups.update(g, grown);
    lemma_balance_of_last(groups);
    lemma_balance_of_last(after);
    if g == groups.len() - 1 {
        assert(after.drop_last() =~= groups.drop_last());
        let input = VtxoInputView { outpoint: coin, vtxo: groups[g].vtxo };
        assert(group_inputs(grown) =~= group_inputs(groups[g]).push(input));
        assert(amounts_of(group_inputs(grown)).drop_last() =~= amounts_of(
            group_inputs(groups[g]),
        ));
    } else {
        law_one_more_vtxo_raises_the_balance(groups.drop_last(), g, coin);
        assert(after.drop_last() =~= groups.drop_last().update(g, grown));
    }
}

/// Groups without VTXOs are worth nothing.
pub proof fn law_nothing_is_worth_nothing(groups: Seq<SpendableGroupView>)
    requires
        forall|g: int| 0 <= g < groups.len() ==> (#[trigger] groups[g]).outpoints.len() == 0,
    ensures
        balance(groups) == 0,
    decreases groups.len(),
{
    if groups.len() > 0 {
        lemma_balance_of_last(groups);
        assert forall|g: int| 0 <= g < groups.drop_last().len() implies (
        #[trigger] groups.drop_last()[g]).outpoints.len() == 0 by {
            assert(groups[g].outpoints.len() == 0);
        }
        law_nothing_is_worth_nothing(groups.drop_last());
        assert(groups[groups.len() - 1].outpoints.len() == 0);
        assert(amounts_of(group_inputs(groups.last())) =~= Seq::empty());
    } else {
        assert(all_inputs(groups) =~= Seq::empty());
        assert(amounts_of(all_inputs(groups)) =~= Seq::empty());
    }
}

proof fn lemma_balance_of_last(groups: Seq<SpendableGroupView>)
    requires
        groups.len() > 0,
    ensures
        balance(groups) == balance(groups.drop_last()) + views::sum(
            amounts_of(group_inputs(groups.last())),
        ),
{
    let rows = Seq::new(groups.len(), |i: int| group_inputs(groups[i]));
    let front = groups.drop_last();
    let front_rows = Seq::new(front.len(), |i: int| group_inputs(front[i]));
    assert(rows.drop_last() =~= front_rows);
    let before = amounts_of(all_inputs(front));
    let last = amounts_of(group_inputs(groups.last()));
    assert(amounts_of(all_inputs(groups)) =~= before + last);
    views::lemma_sum_append(before, last);
}

/// The VTXOs of all groups are each there, group by group, with the script of their own group.
pub proof fn law_every_vtxo_has_the_script_of_its_group(
    groups: Seq<SpendableGroupView>,
    group: SpendableGroupView,
)
    ensures
        all_inputs(Seq::empty()) == Seq::<VtxoInputView>::empty(),
        all_inputs(groups.push(group)).len() == all_inputs(groups).len() + group.outpoints.len(),
        forall|i: int|
            0 <= i < all_inputs(groups).len() ==> #[trigger] all_inputs(groups.push(group))[i]
                == all_inputs(groups)[i],
        forall|i: int|
            0 <= i < group.outpoints.len() ==> (#[trigger] all_inputs(
                groups.push(group),
            )[all_inputs(groups).len() + i]).outpoint == group.outpoints[i],
        forall|i: int|
            0 <= i < group.outpoints.len() ==> (#[trigger] all_inputs(
                groups.push(group),
            )[all_inputs(groups).len() + i]).vtxo == group.vtxo,
{
    let more = groups.push(group);
    let rows = Seq::new(more.len(), |i: int| group_inputs(more[i]));
    assert(rows.drop_last() =~= Seq::new(groups.len(), |i: int| group_inputs(groups[i])));
    assert(all_inputs(more) == all_inputs(groups) + group_inputs(group));
    assert(Seq::new(0, |i: int| group_inputs(Seq::<SpendableGroupView>::empty()[i])) =~= Seq::<
        Seq<VtxoInputView>,
    >::empty());
}

/// What is found at one more boarding address boards with it, at the place where it was found and by
/// the script of that address, and counts with all it holds. An address at which nothing was found
/// changes nothing.
pub proof fn law_every_boarding_output_is_put_in(
    addresses: Seq<BoardingAddressView>,
    address: BoardingAddressView,
)
    ensures
        match address.utxo {
            Some(utxo) => {
                let found = found_boarding(addresses.push(address));
                let amounts = found_amounts(addresses.push(address));
                &&& found.drop_last() == found_boarding(addresses)
                &&& found.len() == found_boarding(addresses).len() + 1
                &&& found.last().outpoint == utxo.outpoint
                &&& found.last().output == address.output
                &&& views::sum(amounts) == views::sum(found_amounts(addresses)) + utxo.amount
            },
            None => found_boarding(addresses.push(address)) == found_boarding(addresses)
                && found_amounts(addresses.push(address)) == found_amounts(addresses),
        },
        found_boarding(Seq::empty()) == Seq::<BoardingInputView>::empty(),
        views::sum(found_amounts(Seq::empty())) == 0,
{
    let more = addresses.push(address);
    assert(more.drop_last() =~= addresses);
    assert(more.last() == address);
    if let Some(utxo) = address.utxo {
        assert(found_boarding(more).drop_last() =~= found_boarding(addresses));
        assert(found_amounts(more).drop_last() =~= found_amounts(addresses));
    }
}

/// What the client puts into a round is everything: all outputs that were found, and all of its VTXOs.
/// It fails just where the sum is not an amount.
pub proof fn law_everything_is_put_into_a_round(
    addresses: Seq<BoardingAddressView>,
    groups: Seq<SpendableGroupView>,
)
    ensures
        match round_funds(addresses, groups) {
            Some(funds) => {
                &&& funds.boarding == addresses.filter_map(
                    |a: BoardingAddressView|
                        match a.utxo {
                            Some(utxo) => Some(
                                BoardingInputView { outpoint: utxo.outpoint, output: a.output },
                            ),
                            None => None,
                        },
                )
                &&& funds.vtxos.len() == groups.map_values(
                    |g: SpendableGroupView| g.outpoints,
                ).flatten().len()
                &&& forall|i: int|
                    0 <= i < funds.vtxos.len() ==> (#[trigger] funds.vtxos[i]).outpoint
                        == groups.map_values(|g: SpendableGroupView| g.outpoints).flatten()[i]
                &&& funds.total_amount as int == views::sum(found_amounts(addresses)) + balance(
                    groups,
                )
            },
            None => views::sum(found_amounts(addresses)) + balance(groups) > u64::MAX,
        },
{
    lemma_found_is_filtered(addresses);
    lemma_inputs_are_coins(groups);
    views::lemma_sum_take(found_amounts(addresses), 0);
    views::lemma_sum_take(amounts_of(all_inputs(groups)), 0);
}

proof fn lemma_found_is_filtered(addresses: Seq<BoardingAddressView>)
    ensures
        found_boarding(addresses) == addresses.filter_map(
            |a: BoardingAddressView|
                match a.utxo {
                    Some(utxo) => Some(
                        BoardingInputView { outpoint: utxo.outpoint, output: a.output },
                    ),
                    None => None,
                },
        ),
    decreases addresses.len(),
{
    if addresses.len() > 0 {
        lemma_found_is_filtered(addresses.drop_last());
        if let Some(utxo) = addresses.last().utxo {
            let found = BoardingInputView {
                outpoint: utxo.outpoint,
                output: addresses.last().output,
            };
            let before = found_boarding(addresses.drop_last());
            assert(before.push(found) =~= before + seq![found]);
        }
    }
}

proof fn lemma_inputs_are_coins(groups: Seq<SpendableGroupView>)
    ensures
        all_inputs(groups).map_values(|x: VtxoInputView| x.outpoint) == groups.map_values(
            |g: SpendableGroupView| g.outpoints,
        ).flatten(),
    decreases groups.len(),
{
    let lists = groups.map_values(|g: SpendableGroupView| g.outpoints);
    views::law_flatten_joins_rows(lists);
    if groups.len() > 0 {
        let front = groups.drop_last();
        let front_lists = front.map_values(|g: SpendableGroupView| g.outpoints);
        lemma_inputs_are_coins(front);
        views::law_flatten_joins_rows(front_lists);
        assert(lists.drop_last() =~= front_lists);
        let rows = Seq::new(groups.len(), |i: int| group_inputs(groups[i]));
        assert(rows.drop_last() =~= Seq::new(front.len(), |i: int| group_inputs(front[i])));
        let before = all_inputs(front);
        let last = group_inputs(groups.last());
        assert(all_inputs(groups) == before + last);
        assert((before + last).map_values(|x: VtxoInputView| x.outpoint) =~= before.map_values(
            |x: VtxoInputView| x.outpoint,
        ) + groups.last().outpoints);
    } else {
        assert(all_inputs(groups).map_values(|x: VtxoInputView| x.outpoint) =~= views::flatten(lists));
    }
}

} // verus!

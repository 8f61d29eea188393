//! What the client registers for a round: the outputs it puts in, and those it wants to get.

use vstd::prelude::*;

use crate::forfeit::{VtxoInput, VtxoInputView};
use crate::signing::{OwnedOutput, OwnedOutputView};
use crate::tx::{OutPoint, OutPointView};
use crate::views;
use crate::vtxo::{BoardingOutput, BoardingOutputView};

verus! {

/// An on-chain output that the client puts into a round.
#[derive(Debug, Clone, PartialEq, Eq)]
pub struct BoardingInput {
    pub outpoint: OutPoint,
    pub output: BoardingOutput,
}

/// The value of a [`BoardingInput`].
pub struct BoardingInputView {
    pub outpoint: OutPointView,
    pub output: BoardingOutputView,
}

impl View for BoardingInput {
    type V = BoardingInputView;

    open spec fn view(&self) -> BoardingInputView {
        BoardingInputView { outpoint: self.outpoint@, output: self.output@ }
    }
}

/// An input, as it is registered for a round.
#[derive(Debug, Clone, PartialEq, Eq)]
pub struct RoundInputs {
    pub outpoint: Option<OutPoint>,
    pub descriptor: String,
}

/// The value of a [`RoundInputs`].
pub struct RoundInputsView {
    pub outpoint: Option<OutPointView>,
    pub descriptor: Seq<char>,
}

impl View for RoundInputs {
    type V = RoundInputsView;

    open spec fn view(&self) -> RoundInputsView {
        RoundInputsView {
            outpoint: views::option_view(self.outpoint),
            descriptor: self.descriptor@,
        }
    }
}

/// An output, as it is registered for a round.
#[derive(Debug, Clone, PartialEq, Eq)]
pub struct RoundOutputs {
    pub address: String,
    pub amount: u64,
}

/// The value of a [`RoundOutputs`].
pub struct RoundOutputsView {
    pub address: Seq<char>,
    pub amount: u64,
}

impl View for RoundOutputs {
    type V = RoundOutputsView;

    open spec fn view(&self) -> RoundOutputsView {
        RoundOutputsView { address: self.address@, amount: self.amount }
    }
}

/// What the client wants from a round. The addresses are texts: off-chain ones but for that to which
/// an [`OffBoard`](RoundOutputType::OffBoard) pays.
#[derive(Debug, Clone, PartialEq, Eq)]
pub enum RoundOutputType {
    Board { to_address: String, to_amount: u64 },
    OffBoard { to_address: String, to_amount: u64, change_address: String, change_amount: u64 },
}

/// The value of a [`RoundOutputType`].
pub enum RoundOutputTypeView {
    Board { to_address: Seq<char>, to_amount: u64 },
    OffBoard {
        to_address: Seq<char>,
        to_amount: u64,
        change_address: Seq<char>,
        change_amount: u64,
    },
}

impl View for RoundOutputType {
    type V = RoundOutputTypeView;

    open spec fn view(&self) -> RoundOutputTypeView {
        match *self {
            RoundOutputType::Board { to_address, to_amount } => RoundOutputTypeView::Board {
                to_address: to_address@,
                to_amount,
            },
            RoundOutputType::OffBoard { to_address, to_amount, change_address, change_amount } => {
                RoundOutputTypeView::OffBoard {
                    to_address: to_address@,
                    to_amount,
                    change_address: change_address@,
                    change_amount,
                }
            },
        }
    }
}

/// The inputs that are registered: the boarding outputs first, then the VTXOs.
pub open spec fn registered_inputs(boarding: Seq<BoardingInputView>, vtxos: Seq<VtxoInputView>) -> Seq<
    RoundInputsView,
> {
    Seq::new(
        boarding.len(),
        |i: int|
            RoundInputsView {
                outpoint: Some(boarding[i].outpoint),
                descriptor: boarding[i].output.ark_descriptor,
            },
    ) + Seq::new(
        vtxos.len(),
        |i: int|
            RoundInputsView {
                outpoint: vtxos[i].outpoint.outpoint,
                descriptor: vtxos[i].vtxo.ark_descriptor,
            },
    )
}

/// The outputs that are registered.
pub open spec fn registered_outputs(output_type: RoundOutputTypeView) -> Seq<RoundOutputsView> {
    match output_type {
        RoundOutputTypeView::Board { to_address, to_amount } => seq![
            RoundOutputsView { address: to_address, amount: to_amount },
        ],
        RoundOutputTypeView::OffBoard { to_address, to_amount, change_address, change_amount } => seq![
            RoundOutputsView { address: to_address, amount: to_amount },
            RoundOutputsView { address: change_address, amount: change_amount },
        ],
    }
}

/// The boarding outputs, as the client signs for them.
pub open spec fn boarding_signers(boarding: Seq<BoardingInputView>) -> Seq<OwnedOutputView> {
    Seq::new(
        boarding.len(),
        |i: int|
            OwnedOutputView {
                outpoint: Some(boarding[i].outpoint),
                path: boarding[i].output.forfeit,
            },
    )
}

/// The inputs to register.
pub fn round_inputs(boarding: &Vec<BoardingInput>, vtxos: &Vec<VtxoInput>) -> (inputs: Vec<
    RoundInputs,
>)
    ensures
        views::views(inputs@) == registered_inputs(views::views(boarding@), views::views(vtxos@)),
{
    let ghost all = registered_inputs(views::views(boarding@), views::views(vtxos@));
    let mut inputs: Vec<RoundInputs> = Vec::new();
    let mut i: usize = 0;
    while i < boarding.len()
        invariant
            i <= boarding@.len(),
            all == registered_inputs(views::views(boarding@), views::views(vtxos@)),
            inputs@.len() == i,
            forall|k: int| 0 <= k < i ==> (#[trigger] inputs@[k])@ == all[k],
        decreases boarding@.len() - i,
    {
        inputs.push(
            RoundInputs {
                outpoint: Some(boarding[i].outpoint),
                descriptor: boarding[i].output.ark_descriptor.clone(),
            },
        );
        i = i + 1;
    }
    let mut j: usize = 0;
    while j < vtxos.len()
        invariant
            j <= vtxos@.len(),
            all == registered_inputs(views::views(boarding@), views::views(vtxos@)),
            inputs@.len() == boarding@.len() + j,
            forall|k: int| 0 <= k < boarding@.len() + j ==> (#[trigger] inputs@[k])@ == all[k],
        decreases vtxos@.len() - j,
    {
        inputs.push(
            RoundInputs {
                outpoint: vtxos[j].outpoint.outpoint,
                descriptor: vtxos[j].vtxo.ark_descriptor.clone(),
            },
        );
        j = j + 1;
    }
    assert(views::views(inputs@) =~= all);
    inputs
}

/// The outputs to register.
pub fn round_outputs(output_type: &RoundOutputType) -> (outputs: Vec<RoundOutputs>)
    ensures
        views::views(outputs@) == registered_outputs(output_type@),
{
    let mut outputs: Vec<RoundOutputs> = Vec::new();
    match output_type {
        RoundOutputType::Board { to_address, to_amount } => {
            outputs.push(RoundOutputs { address: to_address.clone(), amount: *to_amount });
        },
        RoundOutputType::OffBoard { to_address, to_amount, change_address, change_amount } => {
            outputs.push(RoundOutputs { address: to_address.clone(), amount: *to_amount });
            outputs.push(RoundOutputs { address: change_address.clone(), amount: *change_amount });
        },
    }
    assert(views::views(outputs@) =~= registered_outputs(output_type@));
    outputs
}

/// The boarding outputs, as the client signs for them.
pub fn boarding_outputs(boarding: &Vec<BoardingInput>) -> (owned: Vec<OwnedOutput>)
    ensures
        views::views(owned@) == boarding_signers(views::views(boarding@)),
{
    let mut owned: Vec<OwnedOutput> = Vec::new();
    let mut i: usize = 0;
    while i < boarding.len()
        invariant
            i <= boarding@.len(),
            owned@.len() == i,
            forall|k: int|
                0 <= k < i ==> (#[trigger] owned@[k])@ == boarding_signers(
                    views::views(boarding@),
                )[k],
        decreases boarding@.len() - i,
    {
        owned.push(
            OwnedOutput {
                outpoint: Some(boarding[i].outpoint),
                path: boarding[i].output.forfeit.copy(),
            },
        );
        i = i + 1;
    }
    assert(views::views(owned@) =~= boarding_signers(views::views(boarding@)));
    owned
}

/// Every boarding output and every VTXO is registered once, at its own place: the boarding outputs
/// first, each with its own descriptor.
pub proof fn law_everything_is_registered_once(
    boarding: Seq<BoardingInputView>,
    vtxos: Seq<VtxoInputView>,
)
    ensures
        registered_inputs(boarding, vtxos).len() == boarding.len() + vtxos.len(),
        forall|i: int|
            0 <= i < boarding.len() ==> (#[trigger] registered_inputs(boarding, vtxos)[i]).outpoint
                == Some(boarding[i].outpoint) && registered_inputs(boarding, vtxos)[i].descriptor
                == boarding[i].output.ark_descriptor,
        forall|i: int|
            boarding.len() <= i < boarding.len() + vtxos.len() ==> (#[trigger] registered_inputs(
                boarding,
                vtxos,
            )[i]).outpoint == vtxos[i - boarding.len()].outpoint.outpoint && registered_inputs(
                boarding,
                vtxos,
            )[i].descriptor == vtxos[i - boarding.len()].vtxo.ark_descriptor,
{
}

/// One more boarding output is one more input, and takes nothing from the others; so is one more VTXO.
pub proof fn law_one_more_input_is_registered(
    boarding: Seq<BoardingInputView>,
    vtxos: Seq<VtxoInputView>,
    output: BoardingInputView,
    vtxo: VtxoInputView,
)
    ensures
        registered_inputs(boarding.push(output), Seq::empty()) == registered_inputs(
            boarding,
            Seq::empty(),
        ).push(
            RoundInputsView {
                outpoint: Some(output.outpoint),
                descriptor: output.output.ark_descriptor,
            },
        ),
        registered_inputs(boarding, vtxos.push(vtxo)) == registered_inputs(boarding, vtxos).push(
            RoundInputsView {
                outpoint: vtxo.outpoint.outpoint,
                descriptor: vtxo.vtxo.ark_descriptor,
            },
        ),
{
    assert(registered_inputs(boarding.push(output), Seq::empty()) =~= registered_inputs(
        boarding,
        Seq::empty(),
    ).push(
        RoundInputsView {
            outpoint: Some(output.outpoint),
            descriptor: output.output.ark_descriptor,
        },
    ));
    assert(registered_inputs(boarding, vtxos.push(vtxo)) =~= registered_inputs(
        boarding,
        vtxos,
    ).push(
        RoundInputsView {
            outpoint: vtxo.outpoint.outpoint,
            descriptor: vtxo.vtxo.ark_descriptor,
        },
    ));
}

/// Boarding asks for one output, with the whole amount; off-boarding asks for the output that leaves
/// and then for the change. Each amount goes to the address that it is meant for.
pub proof fn law_outputs_go_where_they_are_meant_to(
    to_address: Seq<char>,
    to_amount: u64,
    change_address: Seq<char>,
    change_amount: u64,
)
    ensures
        ({
            let outputs = registered_outputs(RoundOutputTypeView::Board { to_address, to_amount });
            outputs.len() == 1 && outputs[0].address == to_address && outputs[0].amount == to_amount
        }),
        ({
            let outputs = registered_outputs(
                RoundOutputTypeView::OffBoard {
                    to_address,
                    to_amount,
                    change_address,
                    change_amount,
                },
            );
            &&& outputs.len() == 2
            &&& outputs[0].address == to_address && outputs[0].amount == to_amount
            &&& outputs[1].address == change_address && outputs[1].amount == change_amount
        }),
{
}

/// Each boarding output is signed for at its own place, by its own leaf.
pub proof fn law_every_boarding_output_is_signed_for(boarding: Seq<BoardingInputView>, i: int)
    requires
        0 <= i < boarding.len(),
    ensures
        boarding_signers(boarding).len() == boarding.len(),
        boarding_signers(boarding)[i].outpoint == Some(boarding[i].outpoint),
        boarding_signers(boarding)[i].path == boarding[i].output.forfeit,
{
}

} // verus!

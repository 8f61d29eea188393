//! The client: who it is, and what follows from what the server says of itself.

use vstd::prelude::*;

use crate::address;
use crate::address::p2wpkh;
use crate::error::Error;
use crate::exit;
use crate::exit::UnilateralExit;
use crate::forfeit;
use crate::forfeit::VtxoInput;
use crate::keys;
use crate::keys::{read_x_only_key, Keypair};
use crate::oor;
use crate::oor::{make_payment, ArkAddress, ArkAddressView, Payment};
use crate::psbt::Psbt;
use crate::registration;
use crate::registration::{RoundOutputType, RoundOutputTypeView};
use crate::server::{Info, ListVtxo, Network, VtxoOutPoint};
use crate::spendable;
use crate::spendable::{gather_funds, worth_of, BoardingAddress, RoundFunds, SpendableGroup};
use crate::views;
use crate::vtxo::DefaultVtxo;

verus! {

/// A client of an Ark server.
pub struct Client {
    pub name: String,
    pub kp: Keypair,
    /// What the server says of itself, once the client is connected.
    pub asp_info: Option<Info>,
}

/// What the script of the client's VTXOs is made of.
#[derive(Debug, Clone, Copy, PartialEq, Eq)]
pub struct VtxoParams {
    /// The x-only key of the server.
    pub asp: [u8; 32],
    /// The x-only key of the client.
    pub owner: [u8; 32],
    pub exit_delay: u32,
    pub network: Network,
}

/// What the boarding addresses of the client are made of.
#[derive(Debug, Clone, PartialEq, Eq)]
pub struct BoardingParams {
    /// The x-only key of the server.
    pub asp: [u8; 32],
    pub round_lifetime: u32,
    pub descriptor_template: String,
    pub network: Network,
}

/// An off-chain address with the script of its VTXOs.
pub struct OffchainAddress {
    pub address: ArkAddress,
    pub vtxo: DefaultVtxo,
}

/// The off-chain address of a VTXO script.
pub open spec fn address_of(network: Network, asp: Seq<u8>, output_key: Seq<u8>) -> ArkAddressView {
    ArkAddressView { network, asp, vtxo_tap_key: output_key }
}

/// What is left of a total after a payment, if it is covered.
pub open spec fn change_of(total: u64, amount: u64) -> Option<u64> {
    if amount <= total {
        Some((total - amount) as u64)
    } else {
        None
    }
}

/// What is wanted from a round that pays an amount on-chain and gives the rest back off-chain.
pub open spec fn off_board_wish(
    to_address: Seq<char>,
    to_amount: u64,
    change_address: Seq<char>,
    total: u64,
) -> Option<RoundOutputTypeView> {
    match change_of(total, to_amount) {
        Some(change_amount) => Some(
            RoundOutputTypeView::OffBoard { to_address, to_amount, change_address, change_amount },
        ),
        None => None,
    }
}

/// The amounts that are registered.
pub open spec fn registered_amounts(wish: RoundOutputTypeView) -> Seq<u64> {
    let outputs = registration::registered_outputs(wish);
    Seq::new(outputs.len(), |i: int| outputs[i].amount)
}

/// Everything that is put into a round that off-boards comes out of it again: the outputs that are
/// registered are worth the total.
pub proof fn law_off_boarding_conserves_value(
    to_address: Seq<char>,
    to_amount: u64,
    change_address: Seq<char>,
    total: u64,
)
    requires
        off_board_wish(to_address, to_amount, change_address, total) is Some,
    ensures
        views::sum(
            registered_amounts(off_board_wish(to_address, to_amount, change_address, total)->0),
        ) == total,
{
    let amounts = registered_amounts(
        off_board_wish(to_address, to_amount, change_address, total)->0,
    );
    let change = (total - to_amount) as u64;
    assert(amounts =~= seq![to_amount, change]);
    assert(amounts.drop_last() =~= seq![to_amount]);
    assert(seq![to_amount].drop_last() =~= Seq::empty());
    reveal_with_fuel(views::sum, 3);
}

/// Everything that is put into a round that boards comes out of it again.
pub proof fn law_boarding_conserves_value(to_address: Seq<char>, total: u64)
    ensures
        views::sum(
            registered_amounts(RoundOutputTypeView::Board { to_address, to_amount: total }),
        ) == total,
{
    let amounts = registered_amounts(RoundOutputTypeView::Board { to_address, to_amount: total });
    assert(amounts =~= seq![total]);
    assert(amounts.drop_last() =~= Seq::empty());
    reveal_with_fuel(views::sum, 2);
}

impl Client {
    /// A client that is not connected.
    pub fn new(name: String, kp: Keypair) -> (client: Self)
        ensures
            client.name@ == name@,
            client.kp@ == kp@,
            client.asp_info is None,
    {
        Client { name, kp, asp_info: None }
    }

    /// Takes up what the server says of itself, or the error of the attempt to ask it.
    pub fn connect(&mut self, info: Result<Info, Error>) -> (outcome: Result<(), Error>)
        ensures
            final(self).name == old(self).name,
            final(self).kp == old(self).kp,
            match info {
                Ok(i) => outcome is Ok && final(self).asp_info == Some(i),
                Err(e) => outcome == Err::<(), Error>(e) && final(self).asp_info == old(self).asp_info,
            },
    {
        match info {
            Ok(i) => {
                self.asp_info = Some(i);
                Ok(())
            },
            Err(e) => Err(e),
        }
    }

    /// What the script of the client's VTXOs is made of: nothing before the client is connected, or
    /// if the key of the server cannot be read.
    pub fn vtxo_params(&self) -> (params: Option<VtxoParams>)
        ensures
            match params {
                Some(p) => self.asp_info matches Some(info) && keys::x_only_of_text(info.pubkey@)
                    == Some(p.asp@) && p.owner@ == keys::x_only_key(self.kp@) && p.exit_delay
                    == info.unilateral_exit_delay as u32 && p.network == info.network,
                None => self.asp_info matches Some(info) ==> keys::x_only_of_text(
                    info.pubkey@,
                ) is None,
            },
    {
        match &self.asp_info {
            Some(info) => match read_x_only_key(info.pubkey.as_str()) {
                Some(asp) => Some(
                    VtxoParams {
                        asp,
                        owner: self.kp.x_only_public_key(),
                        exit_delay: info.unilateral_exit_delay as u32,
                        network: info.network,
                    },
                ),
                None => None,
            },
            None => None,
        }
    }

    /// The off-chain address of the client, given the script that was made for
    /// [`Client::vtxo_params`].
    pub fn get_offchain_address(&self, vtxo: DefaultVtxo) -> (address: Option<OffchainAddress>)
        ensures
            match address {
                Some(a) => self.asp_info matches Some(info) && keys::x_only_of_text(
                    info.pubkey@,
                ) matches Some(asp) && a.address@ == address_of(
                    info.network,
                    asp,
                    vtxo@.output_key,
                ) && a.vtxo == vtxo,
                None => self.asp_info matches Some(info) ==> keys::x_only_of_text(
                    info.pubkey@,
                ) is None,
            },
    {
        match self.vtxo_params() {
            Some(params) => Some(
                OffchainAddress {
                    address: ArkAddress {
                        network: params.network,
                        asp: params.asp,
                        vtxo_tap_key: vtxo.output_key,
                    },
                    vtxo,
                },
            ),
            None => None,
        }
    }

    /// The off-chain addresses of the client. There is always just the one.
    pub fn get_offchain_addresses(&self, vtxo: DefaultVtxo) -> (addresses: Option<
        Vec<OffchainAddress>,
    >)
        ensures
            match addresses {
                Some(a) => self.asp_info matches Some(info) && keys::x_only_of_text(
                    info.pubkey@,
                ) matches Some(asp) && a@.len() == 1 && a@[0].address@ == address_of(
                    info.network,
                    asp,
                    vtxo@.output_key,
                ) && a@[0].vtxo == vtxo,
                None => self.asp_info matches Some(info) ==> keys::x_only_of_text(
                    info.pubkey@,
                ) is None,
            },
    {
        match self.get_offchain_address(vtxo) {
            Some(address) => {
                let mut addresses: Vec<OffchainAddress> = Vec::new();
                addresses.push(address);
                Some(addresses)
            },
            None => None,
        }
    }

    /// The on-chain address of the client, as text: nothing before the client is connected.
    pub fn get_onchain_address(&self) -> (address: Option<String>)
        ensures
            views::option_view(address) == (match self.asp_info {
                Some(info) => address::p2wpkh_text(keys::public_key(self.kp@), info.network),
                None => None,
            }),
    {
        match &self.asp_info {
            Some(info) => p2wpkh(&self.kp.public_key(), info.network),
            None => None,
        }
    }

    /// What the boarding addresses of the client are made of: nothing before the client is
    /// connected, or if the key of the server cannot be read.
    pub fn boarding_params(&self) -> (params: Option<BoardingParams>)
        ensures
            match params {
                Some(p) => self.asp_info matches Some(info) && keys::x_only_of_text(info.pubkey@)
                    == Some(p.asp@) && p.round_lifetime == info.round_lifetime as u32
                    && p.descriptor_template@ == info.boarding_descriptor_template@ && p.network
                    == info.network,
                None => self.asp_info matches Some(info) ==> keys::x_only_of_text(
                    info.pubkey@,
                ) is None,
            },
    {
        match &self.asp_info {
            Some(info) => match read_x_only_key(info.pubkey.as_str()) {
                Some(asp) => Some(
                    BoardingParams {
                        asp,
                        round_lifetime: info.round_lifetime as u32,
                        descriptor_template: info.boarding_descriptor_template.clone(),
                        network: info.network,
                    },
                ),
                None => None,
            },
            None => None,
        }
    }

    /// The spendable VTXOs at an address, of those that the server lists there.
    pub fn spendable_vtxos(list: ListVtxo, vtxo: DefaultVtxo) -> (group: SpendableGroup)
        ensures
            group@.outpoints == list@.spendable,
            group@.vtxo == vtxo@,
    {
        SpendableGroup { outpoints: list.spendable, vtxo }
    }

    /// What the client owns off-chain, if its sum is an amount.
    pub fn offchain_balance(groups: &Vec<SpendableGroup>) -> (total: Option<u64>)
        ensures
            match total {
                Some(t) => t == spendable::balance(views::views(groups@)),
                None => spendable::balance(views::views(groups@)) > u64::MAX,
            },
    {
        worth_of(groups)
    }

    /// What the client can put into a round, given what was found at its boarding addresses. There
    /// is nothing where the sum is not an amount.
    pub fn prepare_round_transactions(
        addresses: &Vec<BoardingAddress>,
        groups: &Vec<SpendableGroup>,
    ) -> (funds: Option<RoundFunds>)
        ensures
            views::option_view(funds) == spendable::round_funds(
                views::views(addresses@),
                views::views(groups@),
            ),
    {
        gather_funds(addresses, groups)
    }

    /// The payment of an amount to an off-chain address, with coins that were selected among the
    /// spendable ones. The change goes to the off-chain address of the client. There is nothing
    /// where the client has no address, or the payment cannot be made.
    pub fn send_oor(
        &self,
        groups: &Vec<SpendableGroup>,
        coins: &Vec<VtxoOutPoint>,
        address: ArkAddress,
        amount: u64,
        vtxo: DefaultVtxo,
        change_amount: u64,
    ) -> (payment: Option<Payment>)
        ensures
            views::option_view(payment) == (match self.asp_info {
                Some(info) => match keys::x_only_of_text(info.pubkey@) {
                    Some(asp) => oor::payment_of(
                        views::views(groups@),
                        views::views(coins@),
                        address@,
                        amount,
                        address_of(info.network, asp, vtxo@.output_key),
                        change_amount,
                    ),
                    None => None,
                },
                None => None,
            }),
    {
        match self.get_offchain_address(vtxo) {
            Some(own) => make_payment(groups, coins, address, amount, own.address, change_amount),
            None => None,
        }
    }

    /// The way out of the ark, with all spendable VTXOs that a round made.
    pub fn unilateral_off_board(groups: &Vec<SpendableGroup>) -> (exit: UnilateralExit)
        ensures
            exit@ == exit::exit_start(views::views(groups@)),
    {
        UnilateralExit::new(groups)
    }

    /// What is wanted from a round that boards: everything, at one off-chain address, given as text.
    pub fn board(to_address: String, total_amount: u64) -> (wish: RoundOutputType)
        ensures
            wish@ == (RoundOutputTypeView::Board { to_address: to_address@, to_amount: total_amount }),
    {
        RoundOutputType::Board { to_address, to_amount: total_amount }
    }

    /// What is wanted from a round that off-boards: an amount at an on-chain address, and the rest
    /// at an off-chain one, both given as text. Nothing if the total does not cover the amount.
    pub fn off_board(
        to_address: String,
        to_amount: u64,
        change_address: String,
        total_amount: u64,
    ) -> (wish: Option<RoundOutputType>)
        ensures
            views::option_view(wish) == off_board_wish(
                to_address@,
                to_amount,
                change_address@,
                total_amount,
            ),
    {
        match total_amount.checked_sub(to_amount) {
            Some(change_amount) => Some(
                RoundOutputType::OffBoard { to_address, to_amount, change_address, change_amount },
            ),
            None => None,
        }
    }

    /// Makes and signs the forfeit transactions of a round: nothing before the client is connected.
    pub fn create_and_sign_forfeit_txs(
        &self,
        vtxos: &Vec<VtxoInput>,
        connectors: &Vec<Psbt>,
        min_relay_fees: &Vec<u64>,
    ) -> (outcome: Option<Result<Vec<Psbt>, Error>>)
        requires
            min_relay_fees@.len() == vtxos@.len(),
        ensures
            forfeit::forfeits_view(outcome) == (match self.asp_info {
                Some(info) => forfeit::signed_forfeits(
                    info.forfeit_address@,
                    info.network,
                    info.dust,
                    views::views(vtxos@),
                    min_relay_fees@,
                    views::views(connectors@),
                    self.kp@,
                ),
                None => None,
            }),
            outcome matches Some(Ok(txs)) ==> (self.asp_info matches Some(info)
                && forfeit::are_signed_forfeits(
                views::views(txs@),
                views::views(vtxos@),
                min_relay_fees@,
                forfeit::all_connectors(views::views(connectors@), info.dust),
                info.dust,
                address::address_script(info.forfeit_address@, info.network)->0,
            )),
    {
        match &self.asp_info {
            Some(info) => forfeit::create_and_sign_forfeit_txs(
                info,
                vtxos,
                connectors,
                min_relay_fees,
                &self.kp,
            ),
            None => None,
        }
    }
}

/// Off-boarding pays just the amount to just the address that it is for, and gives all the rest back to
/// the other address; it is refused just if there is not enough.
pub proof fn law_off_boarding_pays_and_gives_back(
    to_address: Seq<char>,
    to_amount: u64,
    change_address: Seq<char>,
    total: u64,
)
    ensures
        match off_board_wish(to_address, to_amount, change_address, total) {
            Some(wish) => {
                let outputs = registration::registered_outputs(wish);
                &&& outputs.len() == 2
                &&& outputs[0].address == to_address && outputs[0].amount == to_amount
                &&& outputs[1].address == change_address && outputs[1].amount + to_amount == total
            },
            None => total < to_amount,
        },
{
}

/// The off-chain address of a client is on the network of the server, under the key of the server, with
/// the key of the script.
pub proof fn law_address_names_server_and_script(network: Network, asp: Seq<u8>, output_key: Seq<u8>)
    ensures
        address_of(network, asp, output_key).network == network,
        address_of(network, asp, output_key).asp == asp,
        address_of(network, asp, output_key).vtxo_tap_key == output_key,
{
}

} // verus!

//! Bitcoin addresses.

use std::str::FromStr;

use vstd::prelude::*;

use crate::server::Network;
use crate::views;

verus! {

/// The script of the address that a text holds, if it is an address of the network.
pub uninterp spec fn address_script(text: Seq<char>, network: Network) -> Option<Seq<u8>>;

/// The address that pays to a public key by its hash, with a witness.
pub uninterp spec fn p2wpkh_text(key: Seq<u8>, network: Network) -> Option<Seq<char>>;

/// `bitcoin::Address::from_str`, `Address::require_network`, then `Address::script_pubkey`.
#[verifier::external_body]
pub(crate) fn read_address(text: &str, network: Network) -> (script: Option<Vec<u8>>)
    ensures
        views::option_view(script) == address_script(text@, network),
{
    let network = match network {
        Network::Bitcoin => bitcoin::Network::Bitcoin,
        Network::Testnet => bitcoin::Network::Testnet,
        Network::Testnet4 => bitcoin::Network::Testnet4,
        Network::Signet => bitcoin::Network::Signet,
        Network::Regtest => bitcoin::Network::Regtest,
    };
    let address = bitcoin::Address::from_str(text).ok()?.require_network(network).ok()?;
    Some(address.script_pubkey().into_bytes())
}

/// `bitcoin::Address::p2wpkh` of a compressed public key, as text.
#[verifier::external_body]
pub(crate) fn p2wpkh(key: &[u8; 33], network: Network) -> (text: Option<String>)
    ensures
        views::option_view(text) == p2wpkh_text(key@, network),
{
    let network = match network {
        Network::Bitcoin => bitcoin::Network::Bitcoin,
        Network::Testnet => bitcoin::Network::Testnet,
        Network::Testnet4 => bitcoin::Network::Testnet4,
        Network::Signet => bitcoin::Network::Signet,
        Network::Regtest => bitcoin::Network::Regtest,
    };
    let key = bitcoin::CompressedPublicKey::from_slice(key).ok()?;
    Some(bitcoin::Address::p2wpkh(&key, network).to_string())
}

} // verus!

//! The script of the inner nodes of a VTXO tree.

use vstd::prelude::*;

use crate::keys;
use crate::keys::read_public_key;
use crate::script;
use crate::script::csv_sig_script;
use crate::server::Info;
use crate::taproot;
use crate::taproot::{check_x_only, single_leaf_spend_info, SpendInfo, SpendInfoView};
use crate::views;

verus! {

/// The version of the leaves that hold tapscript.
pub const TAPSCRIPT: u8 = 0xc0;

/// The script of an _internal_ node of the VTXO tree. By internal node we mean a non-leaf node.
///
/// This script allows the ASP to sweep the entire output after the round lifetime has passed from
/// the time the output was included in a block.
#[derive(Debug, Clone, PartialEq, Eq)]
pub struct VtxoTreeInternalNodeScript {
    script: Vec<u8>,
}

impl View for VtxoTreeInternalNodeScript {
    type V = Seq<u8>;

    closed spec fn view(&self) -> Seq<u8> {
        self.script@
    }
}

/// How an output is spent whose only leaf is a script, with an aggregate of keys as the internal key:
/// nothing just if that is no x-only key.
pub open spec fn sweep_output(script: Seq<u8>, aggregate_pk: Seq<u8>) -> Option<SpendInfoView> {
    if taproot::is_x_only(aggregate_pk) {
        Some(taproot::single_leaf_output(script, TAPSCRIPT, aggregate_pk))
    } else {
        None
    }
}

impl VtxoTreeInternalNodeScript {
    /// The script for a round lifetime, given as a sequence number, and the x-only key of the ASP.
    pub fn new(round_lifetime: u32, asp: &[u8; 32]) -> (node: Self)
        ensures
            node@ == script::csv_sig(round_lifetime, asp@),
            script::csv_sequence(node@) == Some(round_lifetime),
    {
        proof {
            script::law_csv_round_trip(round_lifetime, asp@);
        }
        VtxoTreeInternalNodeScript { script: csv_sig_script(round_lifetime, asp) }
    }

    /// How an output is spent whose only leaf is this script and whose internal key is the
    /// aggregate of the cosigners' keys: nothing if that is no x-only key.
    pub fn sweep_spend_leaf(&self, aggregate_pk: &[u8; 32]) -> (info: Option<SpendInfo>)
        ensures
            views::option_view(info) == sweep_output(self@, aggregate_pk@),
            info matches Some(i) ==> taproot::has_only_leaf(
                i@,
                self@,
                TAPSCRIPT,
                aggregate_pk@,
            ),
    {
        if check_x_only(aggregate_pk) {
            Some(single_leaf_spend_info(&self.script, TAPSCRIPT, aggregate_pk))
        } else {
            None
        }
    }
}

/// The script of the inner nodes of the trees of a server, if the server's key can be read.
pub open spec fn sweep_script_of(pubkey: Seq<char>, round_lifetime: i64) -> Option<Seq<u8>> {
    match keys::public_key_of_text(pubkey) {
        Ok(key) => Some(script::csv_sig(round_lifetime as u32, key.skip(1))),
        Err(_) => None,
    }
}

/// What the aggregate of the cosigners' keys is tweaked by, to be the key of the outputs of a tree.
pub open spec fn sweep_tweak_of(pubkey: Seq<char>, round_lifetime: i64, aggregate_pk: Seq<u8>) -> Option<
    Seq<u8>,
> {
    match sweep_script_of(pubkey, round_lifetime) {
        Some(script) => match sweep_output(script, aggregate_pk) {
            Some(info) => Some(info.tap_tweak),
            None => None,
        },
        None => None,
    }
}

/// The x-only form of a compressed public key: the key without the byte for its parity.
pub fn x_only_of(key: &[u8; 33]) -> (x_only: [u8; 32])
    ensures
        x_only@ == key@.skip(1),
{
    let mut x_only: [u8; 32] = [0u8; 32];
    let mut i: usize = 0;
    while i < 32
        invariant
            i <= 32,
            forall|k: int| 0 <= k < i ==> #[trigger] x_only@[k] == key@[k + 1],
        decreases 32 - i,
    {
        x_only[i] = key[i + 1];
        i = i + 1;
    }
    assert(x_only@ =~= key@.skip(1));
    x_only
}

/// The script of the inner nodes of the trees of a server, if the server's key can be read.
pub fn sweep_script(info: &Info) -> (node: Option<VtxoTreeInternalNodeScript>)
    ensures
        views::option_view(node) == sweep_script_of(info.pubkey@, info.round_lifetime),
{
    match read_public_key(info.pubkey.as_str()) {
        Ok(key) => Some(
            VtxoTreeInternalNodeScript::new(info.round_lifetime as u32, &x_only_of(&key)),
        ),
        Err(_) => None,
    }
}

/// What the aggregate of the cosigners' keys is tweaked by, to be the key of the outputs of a tree.
pub fn sweep_tweak(info: &Info, aggregate_pk: &[u8; 32]) -> (tweak: Option<[u8; 32]>)
    ensures
        views::option_view(tweak) == sweep_tweak_of(
            info.pubkey@,
            info.round_lifetime,
            aggregate_pk@,
        ),
{
    match sweep_script(info) {
        Some(node) => match node.sweep_spend_leaf(aggregate_pk) {
            Some(spend) => Some(spend.tap_tweak),
            None => None,
        },
        None => None,
    }
}

/// The server may sweep a tree with its own key, once the lifetime of the round has passed: the script
/// asks for the lifetime as a sequence number, and names the key of the server.
pub proof fn law_sweep_script_is_for_the_server(pubkey: Seq<char>, round_lifetime: i64, key: Seq<u8>)
    requires
        keys::public_key_of_text(pubkey) == Ok::<Seq<u8>, Seq<char>>(key),
        key.len() == 33,
    ensures
        ({
            let script = sweep_script_of(pubkey, round_lifetime)->0;
            &&& sweep_script_of(pubkey, round_lifetime) is Some
            &&& script::csv_sequence(script) == Some(round_lifetime as u32)
            &&& script.len() >= 34
            &&& script.subrange(script.len() - 33, script.len() - 1) == key.subrange(1, 33)
            &&& script.last() == 0xac
        }),
{
    script::law_csv_round_trip(round_lifetime as u32, key.skip(1));
    script::law_csv_script_ends_with_its_key(round_lifetime as u32, key.skip(1));
    assert(key.skip(1) =~= key.subrange(1, 33));
}

/// The aggregate of the cosigners' keys is tweaked for an output whose only leaf is the sweep script; there
/// is no tweak just if the server's key cannot be read or the aggregate is no key.
pub proof fn law_tweak_commits_to_the_sweep_script(
    pubkey: Seq<char>,
    round_lifetime: i64,
    aggregate_pk: Seq<u8>,
)
    ensures
        match keys::public_key_of_text(pubkey) {
            Ok(key) => if taproot::is_x_only(aggregate_pk) {
                sweep_tweak_of(pubkey, round_lifetime, aggregate_pk) == Some(
                    taproot::single_leaf_output(
                        script::csv_sig(round_lifetime as u32, key.skip(1)),
                        0xc0,
                        aggregate_pk,
                    ).tap_tweak,
                )
            } else {
                sweep_tweak_of(pubkey, round_lifetime, aggregate_pk) is None
            },
            Err(_) => sweep_tweak_of(pubkey, round_lifetime, aggregate_pk) is None,
        },
{
}

} // verus!

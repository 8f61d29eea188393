//! Transaction ids, outpoints and outputs.

use std::str::FromStr;

use vstd::prelude::*;

use crate::hex::{digit_value, to_lower_hex};
use crate::views::{copy_bytes, same_bytes};

verus! {

/// The id of a transaction, in the order in which its bytes are hashed.
#[derive(Debug, Clone, Copy, PartialEq, Eq)]
pub struct Txid {
    pub bytes: [u8; 32],
}

impl View for Txid {
    type V = Seq<u8>;

    open spec fn view(&self) -> Seq<u8> {
        self.bytes@
    }
}

/// The text of the error with which `Txid::from_str` refuses a text; nothing if it does not.
pub uninterp spec fn txid_error(text: Seq<char>) -> Seq<char>;

/// `bitcoin::Txid::from_str`: the text of its error, where it gives one.
#[verifier::external_body]
pub(crate) fn txid_error_text(text: &str) -> (cause: String)
    ensures
        cause@ == txid_error(text@),
{
    match bitcoin::Txid::from_str(text) {
        Ok(_) => String::new(),
        Err(e) => e.to_string(),
    }
}

impl Txid {
    /// Reads a transaction id from its text: sixty-four hexadecimal digits, the last byte first.
    pub fn parse(text: &str) -> (txid: Option<Txid>)
        ensures
            crate::views::option_view(txid) == crate::hex::txid_of_text(text@),
    {
        if text.unicode_len() != 64 {
            return None;
        }
        let mut bytes: [u8; 32] = [0u8; 32];
        let mut i: usize = 0;
        while i < 32
            invariant
                i <= 32,
                text@.len() == 64,
                forall|k: int| 0 <= k < 2 * i ==> crate::hex::hex_value(#[trigger] text@[k]) is Some,
                forall|k: int|
                    0 <= k < i ==> #[trigger] bytes@[31 - k] == crate::hex::hex_bytes(text@)[k],
            decreases 32 - i,
        {
            let high: u8 = match digit_value(text.get_char(2 * i)) {
                Some(v) => v,
                None => {
                    assert(!crate::hex::is_hex(text@));
                    return None;
                },
            };
            let low: u8 = match digit_value(text.get_char(2 * i + 1)) {
                Some(v) => v,
                None => {
                    assert(!crate::hex::is_hex(text@));
                    return None;
                },
            };
            let ghost before = bytes@;
            bytes[31 - i] = high * 16 + low;
            i = i + 1;
            assert forall|k: int| 0 <= k < i implies #[trigger] bytes@[31 - k]
                == crate::hex::hex_bytes(text@)[k] by {
                if k < i - 1 {
                    assert(bytes@[31 - k] == before[31 - k]);
                }
            }
        }
        let txid = Txid { bytes };
        assert(txid@ =~= crate::hex::hex_bytes(text@).reverse()) by {
            assert forall|k: int| 0 <= k < 32 implies bytes@[k] == crate::hex::hex_bytes(
                text@,
            ).reverse()[k] by {
                assert(bytes@[31 - (31 - k)] == crate::hex::hex_bytes(text@)[31 - k]);
            }
        }
        Some(txid)
    }

    /// Writes a transaction id as text.
    pub fn to_text(&self) -> (text: String)
        ensures
            text@ == crate::hex::txid_text(self@),
    {
        let mut reversed: Vec<u8> = Vec::new();
        let mut i: usize = 0;
        while i < 32
            invariant
                i <= 32,
                reversed@ == self@.reverse().take(i as int),
            decreases 32 - i,
        {
            reversed.push(self.bytes[31 - i]);
            i = i + 1;
            assert(reversed@ =~= self@.reverse().take(i as int));
        }
        assert(self@.reverse().take(32) =~= self@.reverse());
        to_lower_hex(reversed.as_slice())
    }

    /// Whether two transaction ids are the same.
    pub fn same(&self, other: &Txid) -> (same: bool)
        ensures
            same == (self@ == other@),
    {
        same_bytes(self.bytes.as_slice(), other.bytes.as_slice())
    }
}

/// A reference to an output of a transaction.
#[derive(Debug, Clone, Copy, PartialEq, Eq)]
pub struct OutPoint {
    pub txid: Txid,
    pub vout: u32,
}

/// The value of an [`OutPoint`].
pub struct OutPointView {
    pub txid: Seq<u8>,
    pub vout: u32,
}

impl View for OutPoint {
    type V = OutPointView;

    open spec fn view(&self) -> OutPointView {
        OutPointView { txid: self.txid@, vout: self.vout }
    }
}

impl OutPoint {
    /// Whether two references name the same output.
    pub fn same(&self, other: &OutPoint) -> (same: bool)
        ensures
            same == (self@ == other@),
    {
        self.vout == other.vout && self.txid.same(&other.txid)
    }
}

/// An output: an amount in satoshi, and the script that guards it.
#[derive(Debug, Clone, PartialEq, Eq)]
pub struct TxOut {
    pub value: u64,
    pub script_pubkey: Vec<u8>,
}

/// The value of a [`TxOut`].
pub struct TxOutView {
    pub value: u64,
    pub script_pubkey: Seq<u8>,
}

impl View for TxOut {
    type V = TxOutView;

    open spec fn view(&self) -> TxOutView {
        TxOutView { value: self.value, script_pubkey: self.script_pubkey@ }
    }
}

impl TxOut {
    /// A copy of an output.
    pub fn copy(&self) -> (copy: TxOut)
        ensures
            copy@ == self@,
    {
        TxOut { value: self.value, script_pubkey: copy_bytes(self.script_pubkey.as_slice()) }
    }
}

} // verus!

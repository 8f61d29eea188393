//! The outputs of the client: VTXOs, and the outputs by which funds board the ark.

use vstd::prelude::*;

use crate::psbt::{SpendPath, SpendPathView};
use crate::views::copy_bytes;

verus! {

/// The script of a VTXO of the client.
#[derive(Debug, Clone, PartialEq, Eq)]
pub struct DefaultVtxo {
    /// The taproot key of the output.
    pub output_key: [u8; 32],
    /// The script that guards the output.
    pub script_pubkey: Vec<u8>,
    /// The descriptor by which the server knows the script.
    pub ark_descriptor: String,
    /// The leaf by which the client and the server spend it together.
    pub forfeit: SpendPath,
}

/// The value of a [`DefaultVtxo`].
pub struct DefaultVtxoView {
    pub output_key: Seq<u8>,
    pub script_pubkey: Seq<u8>,
    pub ark_descriptor: Seq<char>,
    pub forfeit: SpendPathView,
}

impl View for DefaultVtxo {
    type V = DefaultVtxoView;

    open spec fn view(&self) -> DefaultVtxoView {
        DefaultVtxoView {
            output_key: self.output_key@,
            script_pubkey: self.script_pubkey@,
            ark_descriptor: self.ark_descriptor@,
            forfeit: self.forfeit@,
        }
    }
}

impl DefaultVtxo {
    /// A copy.
    pub fn copy(&self) -> (copy: DefaultVtxo)
        ensures
            copy@ == self@,
    {
        DefaultVtxo {
            output_key: self.output_key,
            script_pubkey: copy_bytes(self.script_pubkey.as_slice()),
            ark_descriptor: self.ark_descriptor.clone(),
            forfeit: self.forfeit.copy(),
        }
    }
}

/// An on-chain output that waits to be turned into a VTXO.
#[derive(Debug, Clone, PartialEq, Eq)]
pub struct BoardingOutput {
    /// The address of the output.
    pub address: String,
    /// The descriptor by which the server knows the script.
    pub ark_descriptor: String,
    /// The leaf by which the client and the server spend it together.
    pub forfeit: SpendPath,
}

/// The value of a [`BoardingOutput`].
pub struct BoardingOutputView {
    pub address: Seq<char>,
    pub ark_descriptor: Seq<char>,
    pub forfeit: SpendPathView,
}

impl View for BoardingOutput {
    type V = BoardingOutputView;

    open spec fn view(&self) -> BoardingOutputView {
        BoardingOutputView {
            address: self.address@,
            ark_descriptor: self.ark_descriptor@,
            forfeit: self.forfeit@,
        }
    }
}

impl BoardingOutput {
    /// A copy.
    pub fn copy(&self) -> (copy: BoardingOutput)
        ensures
            copy@ == self@,
    {
        BoardingOutput {
            address: self.address.clone(),
            ark_descriptor: self.ark_descriptor.clone(),
            forfeit: self.forfeit.copy(),
        }
    }
}

} // verus!

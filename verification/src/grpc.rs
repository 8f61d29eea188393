//! The calls to the server: the requests, and the reading of the replies.
//!
//! [`Client`] holds the connection, whatever it is, and refuses to make a request before there is
//! one. Sending a request and waiting for the reply is left to the holder of the connection.

use vstd::prelude::*;

use crate::armor;
use crate::armor::encode_base64;
use crate::convert;
use crate::convert::FromWire;
use crate::convert::read_option;
use crate::error;
use crate::error::Error;
use crate::hex;
use crate::hex::to_lower_hex;
use crate::psbt::Psbt;
use crate::server::{ListVtxo, PublicKey, Round};
use crate::tx::{OutPoint, OutPointView};
use crate::views;
use crate::wire;

verus! {

/// A client of the server.
#[derive(Debug, Clone, PartialEq, Eq)]
pub struct Client<C> {
    url: String,
    inner: Option<C>,
}

/// The value of a [`Client`].
pub struct ClientView<C> {
    pub url: Seq<char>,
    pub inner: Option<C>,
}

impl<C> View for Client<C> {
    type V = ClientView<C>;

    closed spec fn view(&self) -> ClientView<C> {
        ClientView { url: self.url@, inner: self.inner }
    }
}

/// An input for the next round: where it is, and the leaves of its output.
#[derive(Debug, Clone, PartialEq, Eq)]
pub struct RoundInput {
    pub outpoint: Option<OutPoint>,
    pub tapscripts: Vec<Vec<u8>>,
}

/// The value of a [`RoundInput`].
pub struct RoundInputView {
    pub outpoint: Option<OutPointView>,
    pub tapscripts: Seq<Seq<u8>>,
}

impl View for RoundInput {
    type V = RoundInputView;

    open spec fn view(&self) -> RoundInputView {
        RoundInputView {
            outpoint: views::option_view(self.outpoint),
            tapscripts: views::views(self.tapscripts@),
        }
    }
}

/// An output for the next round.
#[derive(Debug, Clone, PartialEq, Eq)]
pub struct RoundOutput {
    /// The address as text.
    pub address: String,
    /// The amount in satoshi.
    pub amount: u64,
}

/// The value of a [`RoundOutput`].
pub struct RoundOutputView {
    pub address: Seq<char>,
    pub amount: u64,
}

impl View for RoundOutput {
    type V = RoundOutputView;

    open spec fn view(&self) -> RoundOutputView {
        RoundOutputView { address: self.address@, amount: self.amount }
    }
}

/// That a message stands for an outpoint.
pub open spec fn sends_outpoint(message: Option<wire::Outpoint>, outpoint: Option<OutPointView>) -> bool {
    match (message, outpoint) {
        (Some(m), Some(o)) => m.txid@ == hex::txid_text(o.txid) && m.vout == o.vout,
        (None, None) => true,
        _ => false,
    }
}

/// That a message stands for some leaves.
pub open spec fn sends_scripts(message: Option<wire::TaprootTree>, scripts: Seq<Seq<u8>>) -> bool {
    message matches Some(wire::TaprootTree::Tapscripts(texts)) && texts@.len() == scripts.len()
        && forall|i: int|
        0 <= i < scripts.len() ==> (#[trigger] texts@[i])@ == hex::lower_hex(scripts[i])
}

/// That a message stands for an input.
pub open spec fn sends_input(message: wire::Input, input: RoundInputView) -> bool {
    sends_outpoint(message.outpoint, input.outpoint) && sends_scripts(
        message.taproot_tree,
        input.tapscripts,
    )
}

/// That a message registers inputs.
pub open spec fn sends_inputs(
    message: wire::RegisterInputsForNextRoundRequest,
    ephemeral_key: Seq<u8>,
    inputs: Seq<RoundInputView>,
) -> bool {
    &&& message.inputs@.len() == inputs.len()
    &&& forall|i: int| 0 <= i < inputs.len() ==> sends_input(#[trigger] message.inputs@[i], inputs[i])
    &&& message.ephemeral_pubkey matches Some(key) && key@ == hex::lower_hex(ephemeral_key)
    &&& message.notes@.len() == 0
}

/// That a message registers outputs.
pub open spec fn sends_outputs(
    message: wire::RegisterOutputsForNextRoundRequest,
    request_id: Seq<char>,
    outputs: Seq<RoundOutputView>,
) -> bool {
    &&& message.request_id@ == request_id
    &&& message.outputs@.len() == outputs.len()
    &&& forall|i: int|
        0 <= i < outputs.len() ==> (#[trigger] message.outputs@[i]).address@ == outputs[i].address
            && message.outputs@[i].amount == outputs[i].amount
}

/// That texts stand for byte strings in base64.
pub open spec fn sends_base64(texts: Seq<String>, items: Seq<Seq<u8>>) -> bool {
    texts.len() == items.len() && forall|i: int|
        0 <= i < items.len() ==> (#[trigger] texts[i])@ == armor::base64_text(items[i])
}

/// An outpoint that is sent is read back as it was.
pub proof fn law_outpoint_round_trip(message: wire::Outpoint, outpoint: OutPointView)
    requires
        outpoint.txid.len() == 32,
        sends_outpoint(Some(message), Some(outpoint)),
    ensures
        <OutPoint as FromWire<wire::Outpoint>>::of_wire(message) == Ok::<OutPointView, Seq<char>>(outpoint),
{
    hex::law_txid_round_trip(outpoint.txid);
}

/// A partially signed transaction that is sent in base64 is read back as it was. Every [`Psbt`] is
/// one that is read as it is, as [`Psbt::serialize`] says.
pub proof fn law_psbt_round_trip(psbt: Seq<u8>)
    requires
        crate::psbt::read_psbt(psbt) == Ok::<Seq<u8>, Seq<char>>(psbt),
    ensures
        convert::psbt_of_text(armor::base64_text(psbt)) == Ok::<Seq<u8>, Seq<char>>(psbt),
{
    armor::law_base64_round_trip(psbt);
}

/// Writes an outpoint as a message.
fn outpoint_message(outpoint: &Option<OutPoint>) -> (message: Option<wire::Outpoint>)
    ensures
        sends_outpoint(message, views::option_view(*outpoint)),
{
    match outpoint {
        Some(o) => Some(wire::Outpoint { txid: o.txid.to_text(), vout: o.vout }),
        None => None,
    }
}

/// Writes leaves as a message.
fn scripts_message(scripts: &Vec<Vec<u8>>) -> (message: Option<wire::TaprootTree>)
    ensures
        sends_scripts(message, views::views(scripts@)),
{
    let mut texts: Vec<String> = Vec::new();
    let mut i: usize = 0;
    while i < scripts.len()
        invariant
            i <= scripts@.len(),
            texts@.len() == i,
            forall|k: int|
                0 <= k < i ==> (#[trigger] texts@[k])@ == hex::lower_hex(
                    views::views(scripts@)[k],
                ),
        decreases scripts@.len() - i,
    {
        texts.push(to_lower_hex(scripts[i].as_slice()));
        i = i + 1;
    }
    Some(wire::TaprootTree::Tapscripts(texts))
}

/// Writes partially signed transactions in base64.
fn base64_messages(items: &Vec<Psbt>) -> (texts: Vec<String>)
    ensures
        sends_base64(texts@, views::views(items@)),
{
    let mut texts: Vec<String> = Vec::new();
    let mut i: usize = 0;
    while i < items.len()
        invariant
            i <= items@.len(),
            texts@.len() == i,
            forall|k: int|
                0 <= k < i ==> (#[trigger] texts@[k])@ == armor::base64_text(
                    views::views(items@)[k],
                ),
        decreases items@.len() - i,
    {
        texts.push(encode_base64(items[i].serialize().as_slice()));
        i = i + 1;
    }
    texts
}

/// A request that may be sent: it has this property if there is a connection, and is refused if not.
pub open spec fn if_connected<C, R>(
    client: ClientView<C>,
    request: Result<R, Error>,
    property: spec_fn(R) -> bool,
) -> bool {
    match request {
        Ok(r) => client.inner is Some && property(r),
        Err(e) => client.inner is None && e == Error::NotConnected,
    }
}

impl<C> Client<C> {
    /// A client that is not connected.
    pub fn new(url: String) -> (client: Self)
        ensures
            client@ == (ClientView::<C> { url: url@, inner: None }),
    {
        Client { url, inner: None }
    }

    /// The address of the server.
    pub fn url(&self) -> (url: &String)
        ensures
            url@ == self@.url,
    {
        &self.url
    }

    /// Takes up the outcome of an attempt to connect: the connection, or why there is none.
    pub fn connect(&mut self, attempt: Result<C, String>) -> (outcome: Result<(), Error>)
        ensures
            final(self)@.url == old(self)@.url,
            match attempt {
                Ok(inner) => outcome is Ok && final(self)@.inner == Some(inner),
                Err(cause) => outcome == Err::<(), Error>(Error::Connect(cause)) && final(self)@.inner == old(self)@.inner,
            },
    {
        match attempt {
            Ok(inner) => {
                self.inner = Some(inner);
                Ok(())
            },
            Err(cause) => Err(Error::Connect(cause)),
        }
    }

    /// The connection.
    pub fn inner_client(&self) -> (inner: Result<&C, Error>)
        ensures
            match inner {
                Ok(c) => self@.inner == Some(*c),
                Err(e) => self@.inner is None && e == Error::NotConnected,
            },
    {
        match &self.inner {
            Some(c) => Ok(c),
            None => Err(Error::NotConnected),
        }
    }

    /// Asks what the server says of itself.
    pub fn get_info(&self) -> (request: Result<(), Error>)
        ensures
            if_connected(self@, request, |r: ()| true),
    {
        match self.inner_client() {
            Ok(_) => Ok(()),
            Err(e) => Err(e),
        }
    }

    /// Asks for the VTXOs of an address, given as text.
    pub fn list_vtxos(&self, address: String) -> (request: Result<wire::ListVtxosRequest, Error>)
        ensures
            if_connected(self@, request, |r: wire::ListVtxosRequest| r.address@ == address@),
    {
        match self.inner_client() {
            Ok(_) => Ok(wire::ListVtxosRequest { address }),
            Err(e) => Err(e),
        }
    }

    /// Registers inputs for the next round.
    pub fn register_inputs_for_next_round(
        &self,
        ephemeral_key: &PublicKey,
        inputs: &Vec<RoundInput>,
    ) -> (request: Result<wire::RegisterInputsForNextRoundRequest, Error>)
        ensures
            if_connected(
                self@,
                request,
                |r: wire::RegisterInputsForNextRoundRequest|
                    sends_inputs(r, ephemeral_key@, views::views(inputs@)),
            ),
    {
        match self.inner_client() {
            Ok(_) => {},
            Err(e) => {
                return Err(e);
            },
        }
        let mut messages: Vec<wire::Input> = Vec::new();
        let mut i: usize = 0;
        while i < inputs.len()
            invariant
                i <= inputs@.len(),
                messages@.len() == i,
                forall|k: int|
                    0 <= k < i ==> sends_input(
                        #[trigger] messages@[k],
                        views::views(inputs@)[k],
                    ),
            decreases inputs@.len() - i,
        {
            messages.push(
                wire::Input {
                    outpoint: outpoint_message(&inputs[i].outpoint),
                    taproot_tree: scripts_message(&inputs[i].tapscripts),
                },
            );
            i = i + 1;
        }
        Ok(
            wire::RegisterInputsForNextRoundRequest {
                inputs: messages,
                ephemeral_pubkey: Some(to_lower_hex(ephemeral_key.bytes.as_slice())),
                notes: Vec::new(),
            },
        )
    }

    /// Registers outputs for the next round.
    pub fn register_outputs_for_next_round(&self, request_id: String, outputs: &Vec<RoundOutput>) -> (request:
        Result<wire::RegisterOutputsForNextRoundRequest, Error>)
        ensures
            if_connected(
                self@,
                request,
                |r: wire::RegisterOutputsForNextRoundRequest|
                    sends_outputs(r, request_id@, views::views(outputs@)),
            ),
    {
        match self.inner_client() {
            Ok(_) => {},
            Err(e) => {
                return Err(e);
            },
        }
        let mut messages: Vec<wire::Output> = Vec::new();
        let mut i: usize = 0;
        while i < outputs.len()
            invariant
                i <= outputs@.len(),
                messages@.len() == i,
                forall|k: int|
                    0 <= k < i ==> (#[trigger] messages@[k]).address@ == views::views(
                        outputs@,
                    )[k].address && messages@[k].amount == views::views(outputs@)[k].amount,
            decreases outputs@.len() - i,
        {
            messages.push(
                wire::Output { address: outputs[i].address.clone(), amount: outputs[i].amount },
            );
            i = i + 1;
        }
        Ok(wire::RegisterOutputsForNextRoundRequest { request_id, outputs: messages })
    }

    /// Submits the transaction of an off-chain payment.
    pub fn submit_redeem_transaction(&self, redeem_psbt: &Psbt) -> (request: Result<
        wire::SubmitRedeemTxRequest,
        Error,
    >)
        ensures
            if_connected(
                self@,
                request,
                |r: wire::SubmitRedeemTxRequest| r.redeem_tx@ == armor::base64_text(redeem_psbt@),
            ),
    {
        match self.inner_client() {
            Ok(_) => Ok(
                wire::SubmitRedeemTxRequest {
                    redeem_tx: encode_base64(redeem_psbt.serialize().as_slice()),
                },
            ),
            Err(e) => Err(e),
        }
    }

    /// Tells the server that the client still waits for the round.
    pub fn ping(&self, request_id: String) -> (request: Result<wire::PingRequest, Error>)
        ensures
            if_connected(self@, request, |r: wire::PingRequest| r.request_id@ == request_id@),
    {
        match self.inner_client() {
            Ok(_) => Ok(wire::PingRequest { request_id }),
            Err(e) => Err(e),
        }
    }

    /// Submits the public nonces of the client, encoded. It is a conversion error if they could not
    /// be encoded.
    pub fn submit_tree_nonces(
        &self,
        round_id: String,
        ephemeral_pubkey: &PublicKey,
        pub_nonce_tree: Result<Vec<u8>, String>,
    ) -> (request: Result<wire::SubmitTreeNoncesRequest, Error>)
        ensures
            match pub_nonce_tree {
                Ok(tree) => if_connected(
                    self@,
                    request,
                    |r: wire::SubmitTreeNoncesRequest|
                        r.round_id@ == round_id@ && r.pubkey@ == hex::lower_hex(ephemeral_pubkey@)
                            && r.tree_nonces@ == hex::lower_hex(tree@),
                ),
                Err(cause) => request == Err::<wire::SubmitTreeNoncesRequest, Error>(
                    if self@.inner is Some {
                        Error::Conversion(cause)
                    } else {
                        Error::NotConnected
                    },
                ),
            },
    {
        match self.inner_client() {
            Ok(_) => {},
            Err(e) => {
                return Err(e);
            },
        }
        match pub_nonce_tree {
            Ok(tree) => Ok(
                wire::SubmitTreeNoncesRequest {
                    round_id,
                    pubkey: to_lower_hex(ephemeral_pubkey.bytes.as_slice()),
                    tree_nonces: to_lower_hex(tree.as_slice()),
                },
            ),
            Err(cause) => Err(Error::Conversion(cause)),
        }
    }

    /// Submits the partial signatures of the client, encoded. It is a conversion error if they could
    /// not be encoded.
    pub fn submit_tree_signatures(
        &self,
        round_id: String,
        ephemeral_pubkey: &PublicKey,
        partial_sig_tree: Result<Vec<u8>, String>,
    ) -> (request: Result<wire::SubmitTreeSignaturesRequest, Error>)
        ensures
            match partial_sig_tree {
                Ok(tree) => if_connected(
                    self@,
                    request,
                    |r: wire::SubmitTreeSignaturesRequest|
                        r.round_id@ == round_id@ && r.pubkey@ == hex::lower_hex(ephemeral_pubkey@)
                            && r.tree_signatures@ == hex::lower_hex(tree@),
                ),
                Err(cause) => request == Err::<wire::SubmitTreeSignaturesRequest, Error>(
                    if self@.inner is Some {
                        Error::Conversion(cause)
                    } else {
                        Error::NotConnected
                    },
                ),
            },
    {
        match self.inner_client() {
            Ok(_) => {},
            Err(e) => {
                return Err(e);
            },
        }
        match partial_sig_tree {
            Ok(tree) => Ok(
                wire::SubmitTreeSignaturesRequest {
                    round_id,
                    pubkey: to_lower_hex(ephemeral_pubkey.bytes.as_slice()),
                    tree_signatures: to_lower_hex(tree.as_slice()),
                },
            ),
            Err(cause) => Err(Error::Conversion(cause)),
        }
    }

    /// Submits the signed forfeit transactions and the signed round transaction.
    pub fn submit_signed_forfeit_txs(
        &self,
        signed_forfeit_txs: &Vec<Psbt>,
        signed_round_psbt: &Psbt,
    ) -> (request: Result<wire::SubmitSignedForfeitTxsRequest, Error>)
        ensures
            if_connected(
                self@,
                request,
                |r: wire::SubmitSignedForfeitTxsRequest|
                    sends_base64(r.signed_forfeit_txs@, views::views(signed_forfeit_txs@))
                        && (r.signed_round_tx matches Some(tx) && tx@ == armor::base64_text(
                        signed_round_psbt@,
                    )),
            ),
    {
        match self.inner_client() {
            Ok(_) => Ok(
                wire::SubmitSignedForfeitTxsRequest {
                    signed_forfeit_txs: base64_messages(signed_forfeit_txs),
                    signed_round_tx: Some(encode_base64(signed_round_psbt.serialize().as_slice())),
                },
            ),
            Err(e) => Err(e),
        }
    }

    /// Asks for the stream of the events of rounds.
    pub fn get_event_stream(&self) -> (request: Result<(), Error>)
        ensures
            if_connected(self@, request, |r: ()| true),
    {
        self.get_info()
    }

    /// Asks for the stream of transactions.
    pub fn get_tx_stream(&self) -> (request: Result<(), Error>)
        ensures
            if_connected(self@, request, |r: ()| true),
    {
        self.get_info()
    }

    /// Asks for a round of the past.
    pub fn get_round(&self, round_txid: String) -> (request: Result<wire::GetRoundRequest, Error>)
        ensures
            if_connected(self@, request, |r: wire::GetRoundRequest| r.txid@ == round_txid@),
    {
        match self.inner_client() {
            Ok(_) => Ok(wire::GetRoundRequest { txid: round_txid }),
            Err(e) => Err(e),
        }
    }
}

/// The reply to a request: what the server sent, or an error where it refused.
pub open spec fn replied<T>(reply: Result<T, String>) -> Result<T, Error> {
    match reply {
        Ok(r) => Ok(r),
        Err(cause) => Err(Error::Request(cause)),
    }
}

/// Takes up a reply that is used as it is.
pub fn plain_reply<T>(reply: Result<T, String>) -> (outcome: Result<T, Error>)
    ensures
        outcome == replied(reply),
{
    match reply {
        Ok(r) => Ok(r),
        Err(cause) => Err(Error::Request(cause)),
    }
}

/// Takes up the reply to a ping: the message of the server where it refused.
pub fn ping_reply(refusal: Option<String>) -> (outcome: Result<(), Error>)
    ensures
        outcome == (match refusal {
            Some(message) => Err::<(), Error>(Error::Ping(message)),
            None => Ok(()),
        }),
{
    match refusal {
        Some(message) => Err(Error::Ping(message)),
        None => Ok(()),
    }
}

/// Takes up the reply to [`Client::get_info`]: what the server says of itself, or why that could not
/// be read.
pub fn get_info_reply<I>(reply: Result<Result<I, String>, String>) -> (outcome: Result<I, Error>)
    ensures
        outcome == (match reply {
            Ok(Ok(info)) => Ok::<I, Error>(info),
            Ok(Err(cause)) => Err(Error::Conversion(cause)),
            Err(cause) => Err(Error::Request(cause)),
        }),
{
    match reply {
        Ok(Ok(info)) => Ok(info),
        Ok(Err(cause)) => Err(Error::Conversion(cause)),
        Err(cause) => Err(Error::Request(cause)),
    }
}

/// Reads the reply to [`Client::list_vtxos`].
pub fn list_vtxos_reply(reply: Result<wire::ListVtxosResponse, String>) -> (outcome: Result<
    ListVtxo,
    Error,
>)
    ensures
        match reply {
            Ok(r) => error::is_reading(
                outcome,
                <ListVtxo as FromWire<wire::ListVtxosResponse>>::of_wire(r),
            ),
            Err(cause) => outcome == Err::<ListVtxo, Error>(Error::Request(cause)),
        },
{
    match reply {
        Ok(r) => ListVtxo::from_wire(&r),
        Err(cause) => Err(Error::Request(cause)),
    }
}

/// Reads the reply to [`Client::submit_redeem_transaction`]: the transaction as the server signed
/// it.
pub fn submit_redeem_reply(signed_redeem_tx: Result<String, String>) -> (outcome: Result<Psbt, Error>)
    ensures
        match signed_redeem_tx {
            Ok(text) => error::is_reading(outcome, convert::psbt_of_text(text@)),
            Err(cause) => outcome == Err::<Psbt, Error>(Error::Request(cause)),
        },
{
    match signed_redeem_tx {
        Ok(text) => Psbt::from_wire(&text),
        Err(cause) => Err(Error::Request(cause)),
    }
}

/// Reads the reply to [`Client::get_round`]: the server may know no such round.
pub fn get_round_reply(reply: Result<Option<wire::Round>, String>) -> (outcome: Result<
    Option<Round>,
    Error,
>)
    ensures
        match reply {
            Ok(r) => convert::is_option_reading(
                outcome,
                convert::option_of_wire::<wire::Round, Round>(r),
            ),
            Err(cause) => outcome == Err::<Option<Round>, Error>(Error::Request(cause)),
        },
{
    match reply {
        Ok(r) => read_option(&r),
        Err(cause) => Err(Error::Request(cause)),
    }
}

/// What a stream of the server gave.
pub enum Received<W> {
    /// A message, which may be empty.
    Message(Option<W>),
    /// The end of the stream.
    End,
    /// An error, for this cause.
    Broken(String),
}

/// What is handed on of a stream of the server.
pub enum StreamStep<T> {
    /// Nothing: the next message is awaited.
    Skip,
    /// This, and then the next message is awaited.
    Yield(Result<T, Error>),
    /// This error, and nothing more.
    Last(Error),
}

/// That a step is the right one for what a stream gave: empty messages are skipped, an end and an
/// error of the stream are handed on, and a message that cannot be read is the last.
pub open spec fn is_step<W, T: FromWire<W>>(received: Received<W>, step: StreamStep<T>) -> bool {
    match received {
        Received::Message(None) => step is Skip,
        Received::Message(Some(message)) => match T::of_wire(message) {
            Ok(value) => step matches StreamStep::Yield(Ok(item)) && item@ == value,
            Err(cause) => step matches StreamStep::Last(e) && error::is_conversion(e, cause),
        },
        Received::End => step matches StreamStep::Yield(Err(e)) && e == Error::EventStreamDisconnect,
        Received::Broken(cause) => step matches StreamStep::Yield(Err(e)) && e
            == Error::EventStream(cause),
    }
}

/// Hands on what a stream of the server gave.
pub fn stream_step<W, T: FromWire<W>>(received: Received<W>) -> (step: StreamStep<T>)
    ensures
        is_step(received, step),
{
    match received {
        Received::Message(None) => StreamStep::Skip,
        Received::Message(Some(message)) => match T::from_wire(&message) {
            Ok(item) => StreamStep::Yield(Ok(item)),
            Err(e) => StreamStep::Last(e),
        },
        Received::End => StreamStep::Yield(Err(Error::EventStreamDisconnect)),
        Received::Broken(cause) => StreamStep::Yield(Err(Error::EventStream(cause))),
    }
}

/// An input that is registered can be read again: it is the same outpoint, and each leaf is at its
/// place.
pub proof fn law_registered_inputs_are_read_back(
    message: wire::RegisterInputsForNextRoundRequest,
    ephemeral_key: Seq<u8>,
    inputs: Seq<RoundInputView>,
    i: int,
)
    requires
        sends_inputs(message, ephemeral_key, inputs),
        0 <= i < inputs.len(),
    ensures
        message.inputs@.len() == inputs.len(),
        message.notes@.len() == 0,
        message.ephemeral_pubkey matches Some(key) && hex::is_hex(key@) && hex::hex_bytes(key@)
            == ephemeral_key,
        match inputs[i].outpoint {
            Some(o) => message.inputs@[i].outpoint matches Some(m) && m.vout == o.vout && (o.txid.len()
                == 32 ==> hex::txid_of_text(m.txid@) == Some(o.txid)),
            None => message.inputs@[i].outpoint is None,
        },
        message.inputs@[i].taproot_tree matches Some(wire::TaprootTree::Tapscripts(texts))
            && texts@.len() == inputs[i].tapscripts.len() && forall|k: int|
            0 <= k < texts@.len() ==> hex::hex_bytes((#[trigger] texts@[k])@) == inputs[i].tapscripts[k],
{
    assert(sends_input(message.inputs@[i], inputs[i]));
    hex::law_hex_round_trip(ephemeral_key);
    if let Some(o) = inputs[i].outpoint {
        if o.txid.len() == 32 {
            hex::law_txid_round_trip(o.txid);
        }
    }
    let texts = message.inputs@[i].taproot_tree->0->Tapscripts_0;
    assert forall|k: int| 0 <= k < texts@.len() implies hex::hex_bytes((#[trigger] texts@[k])@)
        == inputs[i].tapscripts[k] by {
        hex::law_hex_round_trip(inputs[i].tapscripts[k]);
    }
}

/// An output that is registered is the same address and the same amount, each at its place.
pub proof fn law_registered_outputs_are_the_same(
    message: wire::RegisterOutputsForNextRoundRequest,
    request_id: Seq<char>,
    outputs: Seq<RoundOutputView>,
    i: int,
)
    requires
        sends_outputs(message, request_id, outputs),
        0 <= i < outputs.len(),
    ensures
        message.request_id@ == request_id,
        message.outputs@.len() == outputs.len(),
        message.outputs@[i].address@ == outputs[i].address,
        message.outputs@[i].amount == outputs[i].amount,
{
}

/// Transactions that are submitted can be read again, each at its place.
pub proof fn law_submitted_transactions_are_read_back(texts: Seq<String>, psbts: Seq<Seq<u8>>, i: int)
    requires
        sends_base64(texts, psbts),
        0 <= i < psbts.len(),
        crate::psbt::read_psbt(psbts[i]) == Ok::<Seq<u8>, Seq<char>>(psbts[i]),
    ensures
        texts.len() == psbts.len(),
        <Psbt as FromWire<String>>::of_wire(texts[i]) == Ok::<Seq<u8>, Seq<char>>(psbts[i]),
{
    law_psbt_round_trip(psbts[i]);
}

/// No request is made before there is a connection, and none is refused when there is one.
pub proof fn law_requests_need_a_connection<C, R>(
    client: ClientView<C>,
    request: Result<R, Error>,
    property: spec_fn(R) -> bool,
)
    requires
        if_connected(client, request, property),
    ensures
        client.inner is Some ==> (request matches Ok(r) && property(r)),
        client.inner is None ==> request == Err::<R, Error>(Error::NotConnected),
{
}

/// A stream hands on each message that it can read, once; it goes on after an empty message, an end and
/// an error, and stops just at a message that it cannot read.
pub proof fn law_stream_stops_at_what_it_cannot_read<W, T: FromWire<W>>(
    received: Received<W>,
    step: StreamStep<T>,
)
    requires
        is_step(received, step),
    ensures
        step is Last <==> (received matches Received::Message(Some(message)) && T::of_wire(
            message,
        ) is Err),
        step is Skip <==> (received matches Received::Message(None)),
        received matches Received::Message(Some(message)) ==> match T::of_wire(message) {
            Ok(value) => step matches StreamStep::Yield(Ok(item)) && item@ == value,
            Err(cause) => step matches StreamStep::Last(Error::Conversion(text)) && text@ == cause,
        },
        received is End ==> (step matches StreamStep::Yield(Err(e)) && e
            == Error::EventStreamDisconnect),
        received matches Received::Broken(cause) ==> (step matches StreamStep::Yield(Err(e)) && e
            == Error::EventStream(cause)),
{
}

/// A reply is handed on as it is, and a refusal with its cause.
pub proof fn law_reply_is_handed_on<T>(reply: Result<T, String>)
    ensures
        reply matches Ok(r) ==> replied(reply) == Ok::<T, Error>(r),
        reply matches Err(cause) ==> replied(reply) == Err::<T, Error>(Error::Request(cause)),
{
}

} // verus!

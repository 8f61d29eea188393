//! Keys and signatures.

use std::str::FromStr;

use vstd::prelude::*;

use crate::views;

verus! {

/// The keys that `Keypair::from_seckey_slice` derives from a secret: the compressed public key and
/// the x-only one, or nothing if the secret is no secret key.
pub uninterp spec fn keys_of_secret(secret: Seq<u8>) -> Option<(Seq<u8>, Seq<u8>)>;

/// The signature that `sign_schnorr_no_aux_rand` makes of a message.
pub uninterp spec fn schnorr_signature(secret: Seq<u8>, message: Seq<u8>) -> Seq<u8>;

/// Whether `verify_schnorr` accepts a signature.
pub uninterp spec fn schnorr_verifies(signature: Seq<u8>, message: Seq<u8>, key: Seq<u8>) -> bool;

/// The x-only form of the public key that `bitcoin::PublicKey::from_str` reads from a text.
pub uninterp spec fn x_only_of_text(text: Seq<char>) -> Option<Seq<u8>>;

/// The compressed form of the public key that `secp256k1::PublicKey::from_str` reads from a text, or
/// the text of the error with which it refuses it.
pub uninterp spec fn public_key_of_text(text: Seq<char>) -> Result<Seq<u8>, Seq<char>>;

/// `secp256k1::Keypair::from_seckey_slice`, its public key and its x-only public key.
#[verifier::external_body]
fn derive_keys(secret: &[u8; 32]) -> (keys: Option<([u8; 33], [u8; 32])>)
    ensures
        match keys {
            Some(k) => keys_of_secret(secret@) == Some((k.0@, k.1@)),
            None => keys_of_secret(secret@) is None,
        },
{
    let secp = bitcoin::secp256k1::Secp256k1::signing_only();
    let pair = bitcoin::secp256k1::Keypair::from_seckey_slice(&secp, secret).ok()?;
    Some((pair.public_key().serialize(), pair.x_only_public_key().0.serialize()))
}

/// `secp256k1::Secp256k1::sign_schnorr_no_aux_rand` with the key pair of a secret.
#[verifier::external_body]
fn schnorr_sign(secret: &[u8; 32], message: &[u8; 32]) -> (signature: [u8; 64])
    requires
        keys_of_secret(secret@) is Some,
    ensures
        signature@ == schnorr_signature(secret@, message@),
{
    let secp = bitcoin::secp256k1::Secp256k1::signing_only();
    let pair = bitcoin::secp256k1::Keypair::from_seckey_slice(&secp, secret).expect("a secret key");
    let message = bitcoin::secp256k1::Message::from_digest(*message);
    secp.sign_schnorr_no_aux_rand(&message, &pair).serialize()
}

/// `secp256k1::Secp256k1::verify_schnorr`; a key that cannot be read accepts no signature.
#[verifier::external_body]
fn schnorr_verify(signature: &[u8; 64], message: &[u8; 32], key: &[u8; 32]) -> (accepted: bool)
    ensures
        accepted == schnorr_verifies(signature@, message@, key@),
{
    let secp = bitcoin::secp256k1::Secp256k1::verification_only();
    let message = bitcoin::secp256k1::Message::from_digest(*message);
    match (
        bitcoin::secp256k1::schnorr::Signature::from_slice(signature),
        bitcoin::XOnlyPublicKey::from_slice(key),
    ) {
        (Ok(signature), Ok(key)) => secp.verify_schnorr(&signature, &message, &key).is_ok(),
        _ => false,
    }
}

/// `bitcoin::PublicKey::from_str`, then the x-only form of the key.
#[verifier::external_body]
pub(crate) fn read_x_only_key(text: &str) -> (key: Option<[u8; 32]>)
    ensures
        views::option_view(key) == x_only_of_text(text@),
{
    let key = bitcoin::PublicKey::from_str(text).ok()?;
    Some(key.inner.x_only_public_key().0.serialize())
}

/// `secp256k1::PublicKey::from_str`, as `secp256k1_zkp` hands it on, then the compressed form of
/// the key. Of an error, its text is kept.
#[verifier::external_body]
pub(crate) fn read_public_key(text: &str) -> (key: Result<[u8; 33], String>)
    ensures
        match public_key_of_text(text@) {
            Ok(bytes) => key matches Ok(k) && k@ == bytes,
            Err(cause) => key matches Err(e) && e@ == cause,
        },
{
    match secp256k1_zkp::PublicKey::from_str(text) {
        Ok(key) => Ok(key.serialize()),
        Err(e) => Err(e.to_string()),
    }
}

/// A secret key with its public keys.
pub struct Keypair {
    secret: [u8; 32],
    public_key: [u8; 33],
    x_only: [u8; 32],
}

/// A key pair is its secret.
impl View for Keypair {
    type V = Seq<u8>;

    closed spec fn view(&self) -> Seq<u8> {
        self.secret@
    }
}

/// The compressed public key of a secret.
pub open spec fn public_key(secret: Seq<u8>) -> Seq<u8> {
    (keys_of_secret(secret)->0).0
}

/// The x-only public key of a secret.
pub open spec fn x_only_key(secret: Seq<u8>) -> Seq<u8> {
    (keys_of_secret(secret)->0).1
}

/// The signature of a message under a secret, if it verifies under the secret's own public key.
pub open spec fn checked_signature(secret: Seq<u8>, message: Seq<u8>) -> Option<Seq<u8>> {
    if schnorr_verifies(schnorr_signature(secret, message), message, x_only_key(secret)) {
        Some(schnorr_signature(secret, message))
    } else {
        None
    }
}

impl Keypair {
    /// The public keys are those of the secret.
    #[verifier::type_invariant]
    spec fn wf(self) -> bool {
        keys_of_secret(self.secret@) == Some((self.public_key@, self.x_only@))
    }

    /// The key pair of a secret, if it is a secret key.
    pub fn from_secret(secret: [u8; 32]) -> (pair: Option<Keypair>)
        ensures
            pair is Some <==> keys_of_secret(secret@) is Some,
            pair matches Some(p) ==> p@ == secret@,
    {
        match derive_keys(&secret) {
            Some((public_key, x_only)) => Some(Keypair { secret, public_key, x_only }),
            None => None,
        }
    }

    /// The secret.
    pub fn secret(&self) -> (secret: [u8; 32])
        ensures
            secret@ == self@,
    {
        self.secret
    }

    /// The compressed public key.
    pub fn public_key(&self) -> (key: [u8; 33])
        ensures
            key@ == public_key(self@),
            keys_of_secret(self@) is Some,
    {
        proof {
            use_type_invariant(self);
        }
        self.public_key
    }

    /// The x-only public key.
    pub fn x_only_public_key(&self) -> (key: [u8; 32])
        ensures
            key@ == x_only_key(self@),
            keys_of_secret(self@) is Some,
    {
        proof {
            use_type_invariant(self);
        }
        self.x_only
    }

    /// Signs a message, and checks the signature against the own public key.
    pub fn sign(&self, message: &[u8; 32]) -> (signature: Option<[u8; 64]>)
        ensures
            views::option_view(signature) == checked_signature(self@, message@),
    {
        proof {
            use_type_invariant(self);
        }
        let signature: [u8; 64] = schnorr_sign(&self.secret, message);
        if schnorr_verify(&signature, message, &self.x_only) {
            Some(signature)
        } else {
            None
        }
    }
}

/// The public keys of a secret are the compressed one and the x-only one that belong to it.
pub proof fn law_public_keys_are_those_of_the_secret(secret: Seq<u8>, compressed: Seq<u8>, x_only: Seq<u8>)
    requires
        keys_of_secret(secret) == Some((compressed, x_only)),
    ensures
        public_key(secret) == compressed,
        x_only_key(secret) == x_only,
{
}

} // verus!

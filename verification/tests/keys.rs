use ark_client::cosigners::{is_key_le, sort_cosigners};
use ark_client::keys::Keypair;
use ark_client::server::PublicKey;
use bitcoin::secp256k1::{schnorr, Message, Secp256k1, XOnlyPublicKey};

fn public(first: u8, last: u8) -> PublicKey {
    let mut bytes = [5; 33];
    bytes[0] = first;
    bytes[32] = last;
    PublicKey { bytes }
}

#[test]
fn keys_agree_with_bitcoin() {
    let pair = Keypair::from_secret([0x42; 32]).unwrap();
    let theirs =
        bitcoin::secp256k1::Keypair::from_seckey_slice(&Secp256k1::new(), &[0x42; 32]).unwrap();
    assert_eq!(pair.secret(), [0x42; 32]);
    assert_eq!(pair.public_key(), theirs.public_key().serialize());
    assert_eq!(pair.x_only_public_key(), theirs.x_only_public_key().0.serialize());
}

#[test]
fn not_every_number_is_a_secret() {
    assert!(Keypair::from_secret([0; 32]).is_none());
    assert!(Keypair::from_secret([0xff; 32]).is_none());
}

#[test]
fn signatures_verify_and_are_deterministic() {
    let secp = Secp256k1::new();
    let pair = Keypair::from_secret([0x42; 32]).unwrap();
    let signature = pair.sign(&[7; 32]).unwrap();
    assert_eq!(pair.sign(&[7; 32]), Some(signature));
    assert_ne!(pair.sign(&[8; 32]), Some(signature));
    let key = XOnlyPublicKey::from_slice(&pair.x_only_public_key()).unwrap();
    let theirs = schnorr::Signature::from_slice(&signature).unwrap();
    secp.verify_schnorr(&theirs, &Message::from_digest([7; 32]), &key).unwrap();
    let theirs = bitcoin::secp256k1::Keypair::from_seckey_slice(&secp, &[0x42; 32]).unwrap();
    assert_eq!(
        secp.sign_schnorr_no_aux_rand(&Message::from_digest([7; 32]), &theirs).serialize(),
        signature
    );
}

#[test]
fn keys_are_compared_by_their_bytes() {
    assert!(is_key_le(&public(2, 9), &public(3, 1)));
    assert!(!is_key_le(&public(3, 1), &public(2, 9)));
    assert!(is_key_le(&public(2, 1), &public(2, 2)));
    assert!(!is_key_le(&public(2, 2), &public(2, 1)));
    assert!(is_key_le(&public(2, 2), &public(2, 2)));
}

#[test]
fn cosigners_are_sorted_like_bitcoin_sorts_them() {
    let secp = Secp256k1::new();
    let mut theirs: Vec<bitcoin::secp256k1::PublicKey> = (1..20u8)
        .map(|seed| {
            bitcoin::secp256k1::Keypair::from_seckey_slice(&secp, &[seed; 32]).unwrap().public_key()
        })
        .collect();
    theirs.push(theirs[3]);
    let keys: Vec<PublicKey> = theirs.iter().map(|k| PublicKey { bytes: k.serialize() }).collect();
    let reversed: Vec<PublicKey> = keys.iter().rev().copied().collect();
    theirs.sort_by_key(|k| k.serialize());
    let expected: Vec<[u8; 33]> = theirs.iter().map(|k| k.serialize()).collect();
    let sorted: Vec<[u8; 33]> = sort_cosigners(&keys).iter().map(|k| k.bytes).collect();
    assert_eq!(sorted, expected);
    let sorted: Vec<[u8; 33]> = sort_cosigners(&reversed).iter().map(|k| k.bytes).collect();
    assert_eq!(sorted, expected);
    assert!(sort_cosigners(&vec![]).is_empty());
}

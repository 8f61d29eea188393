use std::str::FromStr;

use ark_client::armor::decode_base64;
use ark_client::error::Error;
use ark_client::hex::{digit_value, to_lower_hex};
use ark_client::tx::{OutPoint, Txid};
use base64::Engine;
use bitcoin::hex::DisplayHex;

const GENESIS: &str = "4a5e1e4baab89f3a32518a88c31bc87f618f76673e2cc77ab2127b7afdeda33b";

#[test]
fn txid_text_is_reversed_hex() {
    let txid = Txid::parse(GENESIS).unwrap();
    assert_eq!(txid.bytes[0], 0x3b);
    assert_eq!(txid.bytes[31], 0x4a);
    assert_eq!(txid.to_text(), GENESIS);
}

#[test]
fn txid_agrees_with_bitcoin() {
    let samples = [
        GENESIS.to_string(),
        GENESIS.to_uppercase(),
        GENESIS[1..].to_string(),
        format!("{GENESIS}0"),
        format!("{}g", &GENESIS[1..]),
        format!("{} ", &GENESIS[1..]),
        format!("{}\u{e9}", &GENESIS[2..]),
        String::new(),
        "0".repeat(64),
    ];
    for text in samples {
        let ours = Txid::parse(&text);
        let theirs = bitcoin::Txid::from_str(&text);
        assert_eq!(ours.is_some(), theirs.is_ok(), "{text}");
        if let (Some(ours), Ok(theirs)) = (ours, theirs) {
            assert_eq!(ours.bytes, bitcoin::hashes::Hash::to_byte_array(theirs));
            assert_eq!(ours.to_text(), theirs.to_string());
        }
    }
}

#[test]
fn txids_and_outpoints_compare_by_value() {
    let a = Txid { bytes: [1; 32] };
    let b = Txid { bytes: [2; 32] };
    assert!(a.same(&a));
    assert!(!a.same(&b));
    assert!(OutPoint { txid: a, vout: 1 }.same(&OutPoint { txid: a, vout: 1 }));
    assert!(!OutPoint { txid: a, vout: 1 }.same(&OutPoint { txid: a, vout: 2 }));
    assert!(!OutPoint { txid: a, vout: 1 }.same(&OutPoint { txid: b, vout: 1 }));
}

#[test]
fn hex_agrees_with_bitcoin() {
    let bytes: Vec<u8> = (0..=255).collect();
    assert_eq!(to_lower_hex(&bytes), bytes.to_lower_hex_string());
    assert_eq!(to_lower_hex(&[]), "");
    assert_eq!(digit_value('f'), Some(15));
    assert_eq!(digit_value('F'), Some(15));
    assert_eq!(digit_value('7'), Some(7));
    assert_eq!(digit_value('g'), None);
}

#[test]
fn base64_is_decoded() {
    assert_eq!(decode_base64(""), Ok(vec![]));
    assert_eq!(decode_base64("QXJr"), Ok(b"Ark".to_vec()));
    assert_eq!(decode_base64("QXI="), Ok(b"Ar".to_vec()));
    assert_eq!(decode_base64("QQ=="), Ok(b"A".to_vec()));
    assert_eq!(decode_base64("+/+/"), Ok(vec![0xfb, 0xff, 0xbf]));
}

#[test]
fn bad_base64_is_refused() {
    for text in ["Q", "QQ", "QQ=", "QQ===", "QR==", "QXI", "QXJ=", "-_-_", "QXJr\n", "Q Q=", "===="] {
        let cause = base64::engine::general_purpose::STANDARD.decode(text).unwrap_err().to_string();
        assert_eq!(decode_base64(text), Err(Error::Conversion(cause)), "{text}");
    }
}

#[test]
fn base64_round_trip() {
    for len in 0..70u8 {
        let bytes: Vec<u8> = (0..len).map(|i| i.wrapping_mul(37) ^ len).collect();
        let text = base64::engine::general_purpose::STANDARD.encode(&bytes);
        assert_eq!(decode_base64(&text), Ok(bytes));
    }
}

//! Base64 text: how binary values travel in the messages of the server.

use base64::Engine;
use vstd::prelude::*;

use crate::error;
use crate::error::Error;

verus! {

/// The symbol of a six-bit value in the standard alphabet.
pub open spec fn symbol(value: int) -> char {
    if value < 26 {
        (65 + value) as char
    } else if value < 52 {
        (71 + value) as char
    } else if value < 62 {
        (value - 4) as char
    } else if value == 62 {
        '+'
    } else {
        '/'
    }
}

/// Bytes as base64 text, in the standard alphabet and with padding.
pub open spec fn base64_text(bytes: Seq<u8>) -> Seq<char>
    decreases bytes.len(),
{
    if bytes.len() == 0 {
        Seq::empty()
    } else if bytes.len() == 1 {
        seq![symbol(bytes[0] as int / 4), symbol(bytes[0] as int % 4 * 16), '=', '=']
    } else if bytes.len() == 2 {
        seq![
            symbol(bytes[0] as int / 4),
            symbol(bytes[0] as int % 4 * 16 + bytes[1] as int / 16),
            symbol(bytes[1] as int % 16 * 4),
            '=',
        ]
    } else {
        seq![
            symbol(bytes[0] as int / 4),
            symbol(bytes[0] as int % 4 * 16 + bytes[1] as int / 16),
            symbol(bytes[1] as int % 16 * 4 + bytes[2] as int / 64),
            symbol(bytes[2] as int % 64),
        ] + base64_text(bytes.skip(3))
    }
}

/// That a text is the base64 text of some bytes.
pub open spec fn is_base64(text: Seq<char>) -> bool {
    exists|bytes: Seq<u8>| base64_text(bytes) == text
}

/// The bytes that a text stands for, if it is base64 text.
pub open spec fn base64_bytes(text: Seq<char>) -> Option<Seq<u8>> {
    if is_base64(text) {
        Some(choose|bytes: Seq<u8>| base64_text(bytes) == text)
    } else {
        None
    }
}

/// Different bytes have different base64 texts.
pub proof fn law_base64_injective(a: Seq<u8>, b: Seq<u8>)
    requires
        base64_text(a) == base64_text(b),
    ensures
        a == b,
    decreases a.len(),
{
    let s = base64_text(a);
    let t = base64_text(b);
    if a.len() == 0 || b.len() == 0 {
        assert(s.len() == 0 && t.len() == 0);
        assert(a =~= b);
    } else {
        assert(s[0] == t[0] && s[1] == t[1] && s[2] == t[2] && s[3] == t[3]);
        assert(a[0] == b[0]);
        if a.len() >= 3 {
            assert(s[2] != '=' && s[3] != '=');
            assert(b.len() >= 3);
            assert(a[1] == b[1]);
            assert(a[2] == b[2]);
            assert(s.skip(4) =~= base64_text(a.skip(3)));
            assert(t.skip(4) =~= base64_text(b.skip(3)));
            law_base64_injective(a.skip(3), b.skip(3));
            assert forall|i: int| 0 <= i < a.len() implies a[i] == b[i] by {
                if i >= 3 {
                    assert(a.skip(3)[i - 3] == b.skip(3)[i - 3]);
                }
            }
            assert(a.len() == a.skip(3).len() + 3);
            assert(b.len() == b.skip(3).len() + 3);
            assert(a =~= b);
        } else {
            assert(s.len() == 4);
            if b.len() >= 3 {
                assert(t[3] != '=');
            }
            assert(a.len() == b.len());
            assert(a =~= b);
        }
    }
}

/// What was written as base64 text is read back from it.
pub proof fn law_base64_round_trip(bytes: Seq<u8>)
    ensures
        base64_bytes(base64_text(bytes)) == Some(bytes),
{
    let text = base64_text(bytes);
    assert(is_base64(text));
    let found = choose|b: Seq<u8>| base64_text(b) == text;
    law_base64_injective(found, bytes);
}

/// `Engine::encode` of the general-purpose engine with the standard alphabet and the default
/// configuration: every three bytes become four symbols, and `=` fills the last four.
#[verifier::external_body]
pub(crate) fn encode_base64(bytes: &[u8]) -> (text: String)
    ensures
        text@ == base64_text(bytes@),
{
    base64::engine::GeneralPurpose::new(
        &base64::alphabet::STANDARD,
        base64::engine::GeneralPurposeConfig::new(),
    ).encode(bytes)
}

/// The text of the error with which `Engine::decode` refuses a text.
pub uninterp spec fn base64_error(text: Seq<char>) -> Seq<char>;

/// `Engine::decode` of the same engine. Its default configuration asks for canonical padding and
/// refuses trailing bits, so it takes exactly the texts that encoding gives, and undoes it. Of an
/// error, its text is kept.
#[verifier::external_body]
pub(crate) fn decode_base64_text(text: &str) -> (bytes: Result<Vec<u8>, String>)
    ensures
        match bytes {
            Ok(b) => base64_text(b@) == text@,
            Err(e) => !is_base64(text@) && e@ == base64_error(text@),
        },
{
    base64::engine::GeneralPurpose::new(
        &base64::alphabet::STANDARD,
        base64::engine::GeneralPurposeConfig::new(),
    ).decode(text).map_err(|e| e.to_string())
}

/// The bytes that a text stands for, or why there are none.
pub open spec fn read_base64(text: Seq<char>) -> Result<Seq<u8>, Seq<char>> {
    match base64_bytes(text) {
        Some(bytes) => Ok(bytes),
        None => Err(base64_error(text)),
    }
}

/// Reads base64 text: it is a conversion error if it is none.
pub fn decode_base64(text: &str) -> (bytes: Result<Vec<u8>, Error>)
    ensures
        error::is_reading(bytes, read_base64(text@)),
{
    let bytes = decode_base64_text(text);
    proof {
        if let Ok(b) = &bytes {
            law_base64_round_trip(b@);
        }
    }
    match bytes {
        Ok(b) => Ok(b),
        Err(e) => Err(Error::Conversion(e)),
    }
}

/// Each value below sixty-four has the symbol at its place in the standard alphabet.
pub proof fn law_symbols_are_those_of_the_alphabet(value: int)
    requires
        0 <= value < 64,
    ensures
        symbol(value) == seq![
            'A', 'B', 'C', 'D', 'E', 'F', 'G', 'H', 'I', 'J', 'K', 'L', 'M', 'N', 'O', 'P', 'Q', 'R', 'S',
            'T', 'U', 'V', 'W', 'X', 'Y', 'Z', 'a', 'b', 'c', 'd', 'e', 'f', 'g', 'h', 'i', 'j', 'k', 'l',
            'm', 'n', 'o', 'p', 'q', 'r', 's', 't', 'u', 'v', 'w', 'x', 'y', 'z', '0', '1', '2', '3', '4',
            '5', '6', '7', '8', '9', '+', '/',
        ][value],
{
}

} // verus!

//! Hexadecimal text, and the text of transaction ids.

use vstd::prelude::*;

verus! {

/// The lower-case digit of a value below sixteen.
pub open spec fn hex_digit(value: int) -> char {
    if value < 10 {
        (48 + value) as char
    } else {
        (87 + value) as char
    }
}

/// The value of a hexadecimal digit, of either case.
pub open spec fn hex_value(digit: char) -> Option<int> {
    if '0' <= digit <= '9' {
        Some(digit as int - 48)
    } else if 'a' <= digit <= 'f' {
        Some(digit as int - 87)
    } else if 'A' <= digit <= 'F' {
        Some(digit as int - 55)
    } else {
        None
    }
}

/// Bytes as lower-case hexadecimal text: two digits each, the high one first.
pub open spec fn lower_hex(bytes: Seq<u8>) -> Seq<char> {
    Seq::new(
        bytes.len() * 2,
        |i: int| hex_digit(if i % 2 == 0 { bytes[i / 2] as int / 16 } else { bytes[i / 2] as int % 16 }),
    )
}

/// That a text holds nothing but hexadecimal digits.
pub open spec fn is_hex(text: Seq<char>) -> bool {
    forall|i: int| 0 <= i < text.len() ==> hex_value(#[trigger] text[i]) is Some
}

/// The bytes that hexadecimal text stands for.
pub open spec fn hex_bytes(text: Seq<char>) -> Seq<u8> {
    Seq::new(
        text.len() / 2,
        |i: int| (hex_value(text[2 * i])->0 * 16 + hex_value(text[2 * i + 1])->0) as u8,
    )
}

/// The text of a transaction id: its bytes in hexadecimal, the last byte first.
pub open spec fn txid_text(txid: Seq<u8>) -> Seq<char> {
    lower_hex(txid.reverse())
}

/// The transaction id that a text names, if it names one.
pub open spec fn txid_of_text(text: Seq<char>) -> Option<Seq<u8>> {
    if text.len() == 64 && is_hex(text) {
        Some(hex_bytes(text).reverse())
    } else {
        None
    }
}

/// Hexadecimal text gives back the bytes that were written.
pub proof fn law_hex_round_trip(bytes: Seq<u8>)
    ensures
        is_hex(lower_hex(bytes)),
        hex_bytes(lower_hex(bytes)) == bytes,
{
    let text = lower_hex(bytes);
    assert forall|i: int| 0 <= i < text.len() implies hex_value(#[trigger] text[i]) is Some by {
        assert(0 <= i / 2 < bytes.len());
    }
    assert forall|i: int| 0 <= i < bytes.len() implies hex_bytes(text)[i] == bytes[i] by {
        assert((2 * i) % 2 == 0 && (2 * i) / 2 == i);
        assert((2 * i + 1) % 2 == 1 && (2 * i + 1) / 2 == i);
    }
    assert(hex_bytes(text) =~= bytes);
}

/// A transaction id is read back from its own text.
pub proof fn law_txid_round_trip(txid: Seq<u8>)
    requires
        txid.len() == 32,
    ensures
        txid_of_text(txid_text(txid)) == Some(txid),
{
    law_hex_round_trip(txid.reverse());
    assert(txid.reverse().reverse() =~= txid);
}

/// The one-character text of a digit.
fn digit_text(value: u8) -> (text: &'static str)
    requires
        value < 16,
    ensures
        text@ == seq![hex_digit(value as int)],
{
    proof {
        reveal_strlit("0");
        reveal_strlit("1");
        reveal_strlit("2");
        reveal_strlit("3");
        reveal_strlit("4");
        reveal_strlit("5");
        reveal_strlit("6");
        reveal_strlit("7");
        reveal_strlit("8");
        reveal_strlit("9");
        reveal_strlit("a");
        reveal_strlit("b");
        reveal_strlit("c");
        reveal_strlit("d");
        reveal_strlit("e");
        reveal_strlit("f");
    }
    match value {
        0 => "0",
        1 => "1",
        2 => "2",
        3 => "3",
        4 => "4",
        5 => "5",
        6 => "6",
        7 => "7",
        8 => "8",
        9 => "9",
        10 => "a",
        11 => "b",
        12 => "c",
        13 => "d",
        14 => "e",
        _ => "f",
    }
}

/// Writes bytes as lower-case hexadecimal text.
pub fn to_lower_hex(bytes: &[u8]) -> (text: String)
    ensures
        text@ == lower_hex(bytes@),
{
    let mut text = String::new();
    let mut i: usize = 0;
    while i < bytes.len()
        invariant
            i <= bytes@.len(),
            text@ == lower_hex(bytes@.take(i as int)),
        decreases bytes@.len() - i,
    {
        let byte: u8 = bytes[i];
        let ghost before = text@;
        text.append(digit_text(byte / 16));
        text.append(digit_text(byte % 16));
        i = i + 1;
        assert(text@ =~= lower_hex(bytes@.take(i as int))) by {
            assert forall|k: int| 0 <= k < text@.len() implies text@[k] == lower_hex(bytes@.take(i as int))[k] by {
                if k < before.len() {
                    assert(bytes@.take(i as int)[k / 2] == bytes@.take(i - 1)[k / 2]);
                } else {
                    assert(k / 2 == i - 1);
                }
            }
        }
    }
    assert(bytes@.take(bytes@.len() as int) =~= bytes@);
    text
}

/// The value of a hexadecimal digit.
pub fn digit_value(digit: char) -> (value: Option<u8>)
    ensures
        match value {
            Some(v) => hex_value(digit) == Some(v as int) && v < 16,
            None => hex_value(digit) is None,
        },
{
    let code: u32 = digit as u32;
    if '0' <= digit && digit <= '9' {
        Some((code - 48) as u8)
    } else if 'a' <= digit && digit <= 'f' {
        Some((code - 87) as u8)
    } else if 'A' <= digit && digit <= 'F' {
        Some((code - 55) as u8)
    } else {
        None
    }
}

/// Each digit of hexadecimal text counts for what it is, and a letter counts for the same in either case.
pub proof fn law_digits_count_for_what_they_are(value: int)
    requires
        0 <= value < 16,
    ensures
        ({
            let lower = seq![
                '0', '1', '2', '3', '4', '5', '6', '7', '8', '9', 'a', 'b', 'c', 'd', 'e', 'f',
            ];
            let upper = seq![
                '0', '1', '2', '3', '4', '5', '6', '7', '8', '9', 'A', 'B', 'C', 'D', 'E', 'F',
            ];
            &&& hex_digit(value) == lower[value]
            &&& hex_value(lower[value]) == Some(value)
            &&& hex_value(upper[value]) == Some(value)
        }),
{
}

/// Nothing but a digit, or a letter from a to f of either case, has a value.
pub proof fn law_other_characters_are_no_digits(digit: char)
    ensures
        hex_value(digit) is Some <==> ('0' <= digit <= '9' || 'a' <= digit <= 'f' || 'A' <= digit
            <= 'F'),
{
}

/// The text of a transaction id is sixty-four digits, two for each byte with the high one first, and
/// the last byte of the id first.
pub proof fn law_txid_is_read_backwards(text: Seq<char>, i: int)
    requires
        0 <= i < 32,
    ensures
        match txid_of_text(text) {
            Some(txid) => text.len() == 64 && txid.len() == 32 && hex_value(text[2 * i]) is Some
                && hex_value(text[2 * i + 1]) is Some && txid[31 - i] == 16 * hex_value(
                text[2 * i],
            )->0 + hex_value(text[2 * i + 1])->0,
            None => text.len() != 64 || exists|k: int|
                0 <= k < text.len() && hex_value(#[trigger] text[k]) is None,
        },
{
    if let Some(txid) = txid_of_text(text) {
        let high = text[2 * i];
        let low = text[2 * i + 1];
        assert(hex_value(high) is Some && hex_value(low) is Some);
        assert(hex_bytes(text).len() == 32);
        assert(txid[31 - i] == hex_bytes(text)[i]);
    }
}

} // verus!

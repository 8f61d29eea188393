//! The scripts of outputs that one key may spend after a while.

use vstd::prelude::*;

use crate::views;

verus! {

/// A number that is not negative, as scripts write it: the low byte first, and no longer than it
/// takes to keep the highest bit clear.
pub open spec fn script_number(n: nat) -> Seq<u8>
    decreases n,
{
    if n < 128 {
        seq![n as u8]
    } else if n < 256 {
        seq![n as u8, 0u8]
    } else {
        seq![(n % 256) as u8] + script_number(n / 256)
    }
}

/// The instruction that pushes a number: an opcode of its own up to sixteen, else its bytes after
/// their length.
pub open spec fn push_number(n: nat) -> Seq<u8> {
    if n == 0 {
        seq![0u8]
    } else if n <= 16 {
        seq![(0x50 + n) as u8]
    } else {
        seq![script_number(n).len() as u8] + script_number(n)
    }
}

/// The script that lets a key spend once an input is old enough: the sequence number, `OP_CSV`,
/// `OP_DROP`, the x-only key, `OP_CHECKSIG`.
pub open spec fn csv_sig(sequence: u32, key: Seq<u8>) -> Seq<u8> {
    push_number(sequence as nat) + seq![0xb2u8, 0x75u8, 0x20u8] + key + seq![0xacu8]
}

/// That a script begins by asking for a sequence number: it pushes the number, and `OP_CSV` is next.
pub open spec fn asks_for(script: Seq<u8>, sequence: u32) -> bool {
    (push_number(sequence as nat) + seq![0xb2u8]).is_prefix_of(script)
}

/// The sequence number that a script asks for.
pub open spec fn csv_sequence(script: Seq<u8>) -> Option<u32> {
    if exists|n: u32| asks_for(script, n) {
        Some(choose|n: u32| asks_for(script, n))
    } else {
        None
    }
}

/// The seconds that a sequence number makes an input wait, if it counts in time: bit 31 is clear,
/// bit 22 is set, and the low sixteen bits count intervals of 512 seconds.
pub open spec fn time_lock_seconds(sequence: u32) -> Option<u64> {
    if sequence < 0x8000_0000 && sequence / 0x40_0000 % 2 == 1 {
        Some((sequence % 0x1_0000 * 512) as u64)
    } else {
        None
    }
}

/// The number that the bytes of a script number stand for.
pub open spec fn number_value(bytes: Seq<u8>) -> nat
    decreases bytes.len(),
{
    if bytes.len() == 0 {
        0
    } else {
        bytes[0] as nat + 256 * number_value(bytes.skip(1))
    }
}

proof fn lemma_number_value(n: nat)
    ensures
        number_value(script_number(n)) == n,
        n <= u32::MAX ==> script_number(n).len() <= 5,
        script_number(n).len() >= 1,
        n >= 0x80_0000_0000 ==> script_number(n).len() > 5,
    decreases n,
{
    reveal_with_fuel(number_value, 4);
    reveal_with_fuel(script_number, 6);
    if n < 128 {
        assert(script_number(n).skip(1) =~= Seq::<u8>::empty());
    } else if n < 256 {
        assert(script_number(n).skip(1) =~= seq![0u8]);
        assert(script_number(n).skip(1).skip(1) =~= Seq::<u8>::empty());
    } else {
        lemma_number_value(n / 256);
        assert(script_number(n).skip(1) =~= script_number(n / 256));
    }
}

/// The first byte of an instruction that pushes a number tells its length, and it tells the number
/// itself where there is nothing more.
proof fn lemma_push_number(n: u32)
    ensures
        push_number(n as nat).len() >= 1,
        n == 0 ==> push_number(n as nat)[0] == 0,
        1 <= n <= 16 ==> push_number(n as nat)[0] == 0x50 + n,
        n > 16 ==> 1 <= push_number(n as nat)[0] <= 5 && push_number(n as nat).len()
            == push_number(n as nat)[0] + 1 && push_number(n as nat).skip(1) == script_number(
            n as nat,
        ),
        n <= 16 ==> push_number(n as nat).len() == 1,
{
    lemma_number_value(n as nat);
    if n > 16 {
        assert(push_number(n as nat).skip(1) =~= script_number(n as nat));
    }
}

/// A script asks for no more than one sequence number.
pub proof fn law_sequence_unique(script: Seq<u8>, a: u32, b: u32)
    requires
        asks_for(script, a),
        asks_for(script, b),
    ensures
        a == b,
{
    lemma_push_number(a);
    lemma_push_number(b);
    lemma_number_value(a as nat);
    lemma_number_value(b as nat);
    let p = push_number(a as nat);
    let q = push_number(b as nat);
    assert((p + seq![0xb2u8])[0] == script[0]);
    assert((q + seq![0xb2u8])[0] == script[0]);
    assert(p[0] == q[0]);
    assert(p.len() == q.len());
    assert(p =~= q) by {
        assert forall|i: int| 0 <= i < p.len() implies p[i] == q[i] by {
            assert((p + seq![0xb2u8])[i] == script[i]);
            assert((q + seq![0xb2u8])[i] == script[i]);
        }
    }
}

/// The sequence number is read back from the script that was made with it.
pub proof fn law_csv_round_trip(sequence: u32, key: Seq<u8>)
    ensures
        csv_sequence(csv_sig(sequence, key)) == Some(sequence),
{
    let script = csv_sig(sequence, key);
    let head = push_number(sequence as nat) + seq![0xb2u8];
    assert(head.is_prefix_of(script)) by {
        assert(script.take(head.len() as int) =~= head);
    }
    assert(asks_for(script, sequence));
    let found = choose|n: u32| asks_for(script, n);
    law_sequence_unique(script, found, sequence);
}

/// Writes the instruction that pushes a number.
fn write_number(n: u32) -> (bytes: Vec<u8>)
    ensures
        bytes@ == push_number(n as nat),
{
    let mut bytes: Vec<u8> = Vec::new();
    if n == 0 {
        bytes.push(0);
        assert(bytes@ =~= push_number(n as nat));
        return bytes;
    }
    if n <= 16 {
        bytes.push(0x50 + n as u8);
        assert(bytes@ =~= push_number(n as nat));
        return bytes;
    }
    let mut number: Vec<u8> = Vec::new();
    let mut rest: u32 = n;
    while rest >= 256
        invariant
            script_number(n as nat) == number@ + script_number(rest as nat),
        decreases rest,
    {
        let ghost before = number@;
        number.push((rest % 256) as u8);
        assert(script_number(rest as nat) == seq![(rest % 256) as u8] + script_number(
            (rest / 256) as nat,
        ));
        rest = rest / 256;
        assert(number@ + script_number(rest as nat) =~= script_number(n as nat));
    }
    number.push(rest as u8);
    if rest >= 128 {
        number.push(0);
    }
    assert(number@ =~= script_number(n as nat));
    proof {
        lemma_number_value(n as nat);
    }
    bytes.push(number.len() as u8);
    bytes.append(&mut number);
    assert(bytes@ =~= push_number(n as nat));
    bytes
}

/// The script that lets a key spend an output once `sequence` allows it.
pub fn csv_sig_script(sequence: u32, key: &[u8; 32]) -> (script: Vec<u8>)
    ensures
        script@ == csv_sig(sequence, key@),
{
    let mut script: Vec<u8> = write_number(sequence);
    script.push(0xb2);
    script.push(0x75);
    script.push(0x20);
    let mut key_bytes: Vec<u8> = views::copy_bytes(key.as_slice());
    script.append(&mut key_bytes);
    script.push(0xac);
    assert(script@ =~= csv_sig(sequence, key@));
    script
}

/// The number that the first instruction of a script would push, were the script to ask for one.
fn candidate(script: &Vec<u8>) -> (n: Option<u32>)
    ensures
        forall|m: u32| asks_for(script@, m) ==> n == Some(m),
{
    proof {
        assert forall|m: u32| asks_for(script@, m) implies script@.len() >= 2 && script@[0] == push_number(
            m as nat,
        )[0] && script@.len() > push_number(m as nat).len() && script@.take(
            push_number(m as nat).len() as int,
        ) == push_number(m as nat) by {
            lemma_push_number(m);
            let head = push_number(m as nat) + seq![0xb2u8];
            assert(head[0] == script@[0]);
            assert forall|i: int| 0 <= i < push_number(m as nat).len() implies script@[i] == push_number(
                m as nat,
            )[i] by {
                assert(head[i] == script@[i]);
            }
            assert(script@.take(push_number(m as nat).len() as int) =~= push_number(m as nat));
        }
    }
    if script.len() == 0 {
        return None;
    }
    let first: u8 = script[0];
    proof {
        assert forall|m: u32| asks_for(script@, m) implies (m == 0 <==> first == 0) && (1 <= m <= 16
            <==> 0x51 <= first <= 0x60) && (m > 16 <==> 1 <= first <= 5) && (0x51 <= first <= 0x60
            ==> m == first - 0x50) by {
            lemma_push_number(m);
        }
    }
    if first == 0 {
        return Some(0);
    }
    if 0x51 <= first && first <= 0x60 {
        return Some((first - 0x50) as u32);
    }
    if first > 5 || script.len() <= first as usize {
        proof {
            assert forall|m: u32| asks_for(script@, m) implies false by {
                lemma_push_number(m);
            }
        }
        return None;
    }
    let mut value: u64 = 0;
    let mut i: usize = first as usize;
    let ghost all = script@.subrange(1, first as int + 1);
    while i > 0
        invariant
            i <= first as usize <= 5,
            first < script@.len(),
            all == script@.subrange(1, first as int + 1),
            value == number_value(all.skip(i as int)),
            value < 0x100_0000_0000,
            i == 5 ==> value == 0,
            i == 4 ==> value < 0x100,
            i == 3 ==> value < 0x1_0000,
            i == 2 ==> value < 0x100_0000,
            i == 1 ==> value < 0x1_0000_0000,
        decreases i,
    {
        assert(all.skip(i - 1).skip(1) =~= all.skip(i as int));
        value = value * 256 + script[i] as u64;
        i = i - 1;
    }
    assert(all.skip(0) =~= all);
    proof {
        assert forall|m: u32| asks_for(script@, m) implies value == m by {
            lemma_push_number(m);
            lemma_number_value(m as nat);
            let p = push_number(m as nat);
            assert(script@.take(p.len() as int).skip(1) =~= all);
        }
    }
    if value > u32::MAX as u64 {
        return None;
    }
    Some(value as u32)
}

/// The sequence number that a script asks for.
pub fn extract_sequence_from_csv_sig_script(script: &Vec<u8>) -> (sequence: Option<u32>)
    ensures
        sequence == csv_sequence(script@),
{
    let n: u32 = match candidate(script) {
        Some(n) => n,
        None => {
            return None;
        },
    };
    let mut head: Vec<u8> = write_number(n);
    head.push(0xb2);
    if script.len() < head.len() {
        assert(!asks_for(script@, n));
        return None;
    }
    let mut i: usize = 0;
    while i < head.len()
        invariant
            i <= head@.len() <= script@.len(),
            head@ == push_number(n as nat) + seq![0xb2u8],
            forall|k: int| 0 <= k < i ==> head@[k] == script@[k],
            forall|m: u32| asks_for(script@, m) ==> n == m,
        decreases head@.len() - i,
    {
        if head[i] != script[i] {
            proof {
                if asks_for(script@, n) {
                    assert((push_number(n as nat) + seq![0xb2u8])[i as int] == script@[i as int]);
                }
            }
            return None;
        }
        i = i + 1;
    }
    assert(asks_for(script@, n)) by {
        assert(script@.take(head@.len() as int) =~= head@);
    }
    Some(n)
}

/// The seconds that a sequence number makes an input wait, if it counts in time.
pub fn relative_lock_seconds(sequence: u32) -> (seconds: Option<u64>)
    ensures
        seconds == time_lock_seconds(sequence),
{
    if sequence & 0x8000_0000 == 0 && sequence & 0x40_0000 != 0 {
        assert(sequence & 0x8000_0000 == 0 ==> sequence < 0x8000_0000) by (bit_vector);
        assert(sequence & 0x40_0000 != 0 ==> sequence / 0x40_0000 % 2 == 1) by (bit_vector);
        Some((sequence % 0x1_0000) as u64 * 512)
    } else {
        assert(!(sequence & 0x8000_0000 == 0 && sequence & 0x40_0000 != 0) ==> !(sequence
            < 0x8000_0000 && sequence / 0x40_0000 % 2 == 1)) by (bit_vector);
        None
    }
}

/// A sequence number counts in time where the highest bit is clear and the type flag is set; its low
/// half then counts intervals of 512 seconds.
pub proof fn law_time_lock_reads_the_bits(sequence: u32)
    ensures
        time_lock_seconds(sequence) == (if sequence & 0x8000_0000 == 0 && sequence & 0x40_0000 != 0 {
            Some(((sequence & 0xffff) * 512) as u64)
        } else {
            None
        }),
{
    assert((sequence & 0x8000_0000 == 0) == (sequence < 0x8000_0000)) by (bit_vector);
    assert((sequence & 0x40_0000 != 0) == (sequence / 0x40_0000 % 2 == 1)) by (bit_vector);
    assert(sequence & 0xffff == sequence % 0x1_0000) by (bit_vector);
}

/// The script that lets a key spend after a while ends with the key and the instruction that checks its
/// signature, after the ones that check the age and drop the number; it is the key that it was made
/// with, and no more than the number comes before, the low byte first and without a byte too many.
pub proof fn law_csv_script_ends_with_its_key(sequence: u32, key: Seq<u8>)
    requires
        key.len() == 32,
    ensures
        ({
            let script = csv_sig(sequence, key);
            let n = script.len() - 36;
            &&& n >= 1
            &&& script[n] == 0xb2
            &&& script[n + 1] == 0x75
            &&& script[n + 2] == 32
            &&& script.subrange(n + 3, n + 35) == key
            &&& script[n + 35] == 0xac
            &&& sequence == 0 ==> n == 1 && script[0] == 0
            &&& 1 <= sequence <= 16 ==> n == 1 && script[0] == 0x50 + sequence
            &&& sequence > 16 ==> n == script[0] + 1 && 2 <= n <= 6 && script[n - 1] < 128 && (
            script[n - 1] == 0 ==> script[n - 2] >= 128) && sequence == script[1] + (if n > 2 {
                0x100 * script[2]
            } else {
                0
            }) + (if n > 3 {
                0x1_0000 * script[3]
            } else {
                0
            }) + (if n > 4 {
                0x100_0000 * script[4]
            } else {
                0
            }) + (if n > 5 {
                0x1_0000_0000 * script[5]
            } else {
                0
            })
        }),
{
    let script = csv_sig(sequence, key);
    let head = push_number(sequence as nat);
    let n = script.len() - 36;
    lemma_push_number(sequence);
    lemma_number_value(sequence as nat);
    assert(n == head.len());
    assert(script.subrange(n + 3, n + 35) =~= key);
    assert(script.take(n) =~= head);
    if sequence > 16 {
        assert(script.subrange(1, n) =~= head.skip(1));
        lemma_number_is_positive(sequence as nat);
        let number = head.skip(1);
        assert forall|i: int| 0 <= i < number.len() implies number[i] == #[trigger] script[1 + i] by {
            assert(script.subrange(1, n)[i] == script[1 + i]);
        }
        lemma_number_is_written_low_byte_first(number);
        assert(script[n - 1] == number.last());
    }
}

/// The value of up to five bytes, written out.
proof fn lemma_number_is_written_low_byte_first(bytes: Seq<u8>)
    requires
        1 <= bytes.len() <= 5,
    ensures
        number_value(bytes) == bytes[0] + (if bytes.len() > 1 {
            0x100 * bytes[1]
        } else {
            0
        }) + (if bytes.len() > 2 {
            0x1_0000 * bytes[2]
        } else {
            0
        }) + (if bytes.len() > 3 {
            0x100_0000 * bytes[3]
        } else {
            0
        }) + (if bytes.len() > 4 {
            0x1_0000_0000 * bytes[4]
        } else {
            0
        }),
{
    reveal_with_fuel(number_value, 7);
    let one = bytes.skip(1);
    let two = one.skip(1);
    let three = two.skip(1);
    let four = three.skip(1);
    if bytes.len() > 1 {
        assert(one[0] == bytes[1]);
    }
    if bytes.len() > 2 {
        assert(two[0] == bytes[2]);
    }
    if bytes.len() > 3 {
        assert(three[0] == bytes[3]);
    }
    if bytes.len() > 4 {
        assert(four[0] == bytes[4]);
        assert(four.skip(1).len() == 0);
    }
}

proof fn lemma_number_is_positive(n: nat)
    ensures
        script_number(n).len() > 0,
        script_number(n).last() < 128,
        n > 0 && script_number(n).last() == 0 ==> script_number(n).len() > 1 && script_number(
            n,
        )[script_number(n).len() - 2] >= 128,
    decreases n,
{
    if n >= 256 {
        lemma_number_is_positive(n / 256);
        let rest = script_number(n / 256);
        assert(script_number(n).last() == rest.last());
        if rest.len() > 1 {
            assert(script_number(n)[script_number(n).len() - 2] == rest[rest.len() - 2]);
        }
    }
}

/// The sequence number that a script asks for is what its first instruction pushes, and the second one
/// checks the age. A script of this form asks for just this number, whatever follows.
pub proof fn law_sequence_is_followed_by_the_check(script: Seq<u8>, sequence: u32)
    ensures
        csv_sequence(script) == Some(sequence) <==> (script.len() > push_number(
            sequence as nat,
        ).len() && script.take(push_number(sequence as nat).len() as int) == push_number(
            sequence as nat,
        ) && script[push_number(sequence as nat).len() as int] == 0xb2),
{
    let number = push_number(sequence as nat);
    let head = number + seq![0xb2u8];
    let n = number.len() as int;
    if asks_for(script, sequence) {
        assert(script.take(n) =~= number) by {
            assert forall|i: int| 0 <= i < n implies script[i] == number[i] by {
                assert(head[i] == script[i]);
            }
        }
        assert(head[n] == script[n]);
        law_sequence_unique(script, choose|m: u32| asks_for(script, m), sequence);
    }
    if script.len() > n && script.take(n) == number && script[n] == 0xb2 {
        assert forall|i: int| 0 <= i < head.len() implies head[i] == script[i] by {
            if i < n {
                assert(script.take(n)[i] == script[i]);
            }
        }
        assert(script.take(head.len() as int) =~= head);
        assert(asks_for(script, sequence));
    }
}

} // verus!

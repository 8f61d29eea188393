//! The order of the cosigners of a round.
//!
//! The key under which a tree is signed is an aggregate that depends on the order of its parts, so
//! that all cosigners put their keys into the order of their bytes first.

use vstd::prelude::*;

use crate::server::PublicKey;
use crate::views;

verus! {

/// Whether one key is not behind another in the order of their bytes.
pub open spec fn key_le(a: Seq<u8>, b: Seq<u8>) -> bool
    decreases a.len(),
{
    a.len() == 0 || (b.len() > 0 && (a[0] < b[0] || (a[0] == b[0] && key_le(a.skip(1), b.skip(1)))))
}

/// Keys in the order of their bytes.
pub open spec fn sorted_keys(keys: Seq<Seq<u8>>) -> Seq<Seq<u8>> {
    keys.sort_by(|a: Seq<u8>, b: Seq<u8>| key_le(a, b))
}

proof fn lemma_key_le_reflexive(a: Seq<u8>)
    ensures
        key_le(a, a),
    decreases a.len(),
{
    if a.len() > 0 {
        lemma_key_le_reflexive(a.skip(1));
    }
}

proof fn lemma_key_le_antisymmetric(a: Seq<u8>, b: Seq<u8>)
    requires
        key_le(a, b),
        key_le(b, a),
    ensures
        a == b,
    decreases a.len(),
{
    if a.len() > 0 && b.len() > 0 {
        lemma_key_le_antisymmetric(a.skip(1), b.skip(1));
        assert(a =~= seq![a[0]] + a.skip(1));
        assert(b =~= seq![b[0]] + b.skip(1));
    } else {
        assert(a =~= b);
    }
}

proof fn lemma_key_le_transitive(a: Seq<u8>, b: Seq<u8>, c: Seq<u8>)
    requires
        key_le(a, b),
        key_le(b, c),
    ensures
        key_le(a, c),
    decreases a.len(),
{
    if a.len() > 0 && a[0] == b[0] && b[0] == c[0] {
        lemma_key_le_transitive(a.skip(1), b.skip(1), c.skip(1));
    }
}

proof fn lemma_key_le_total(a: Seq<u8>, b: Seq<u8>)
    ensures
        key_le(a, b) || key_le(b, a),
    decreases a.len(),
{
    if a.len() > 0 && b.len() > 0 && a[0] == b[0] {
        lemma_key_le_total(a.skip(1), b.skip(1));
    }
}

/// The order of the bytes is a total order.
pub proof fn lemma_key_order()
    ensures
        vstd::relations::total_ordering(|a: Seq<u8>, b: Seq<u8>| key_le(a, b)),
{
    let leq = |a: Seq<u8>, b: Seq<u8>| key_le(a, b);
    assert forall|a: Seq<u8>| #[trigger] leq(a, a) by {
        lemma_key_le_reflexive(a);
    }
    assert forall|a: Seq<u8>, b: Seq<u8>| #[trigger] leq(a, b) && #[trigger] leq(b, a) implies a
        == b by {
        lemma_key_le_antisymmetric(a, b);
    }
    assert forall|a: Seq<u8>, b: Seq<u8>, c: Seq<u8>| #[trigger]
        leq(a, b) && #[trigger] leq(b, c) implies leq(a, c) by {
        lemma_key_le_transitive(a, b, c);
    }
    assert forall|a: Seq<u8>, b: Seq<u8>| #[trigger] leq(a, b) || #[trigger] leq(b, a) by {
        lemma_key_le_total(a, b);
    }
}

/// It does not matter in which order the server names the cosigners.
pub proof fn law_cosigner_order_is_canonical(a: Seq<Seq<u8>>, b: Seq<Seq<u8>>)
    requires
        a.to_multiset() == b.to_multiset(),
    ensures
        sorted_keys(a) == sorted_keys(b),
{
    let leq = |x: Seq<u8>, y: Seq<u8>| key_le(x, y);
    lemma_key_order();
    a.lemma_sort_by_ensures(leq);
    b.lemma_sort_by_ensures(leq);
    vstd::seq_lib::lemma_sorted_unique(sorted_keys(a), sorted_keys(b), leq);
}

/// Putting keys into order keeps every one of them, as often as it was there.
pub proof fn law_sorting_keeps_cosigners(keys: Seq<Seq<u8>>)
    ensures
        sorted_keys(keys).to_multiset() == keys.to_multiset(),
        vstd::relations::sorted_by(sorted_keys(keys), |a: Seq<u8>, b: Seq<u8>| key_le(a, b)),
{
    lemma_key_order();
    keys.lemma_sort_by_ensures(|a: Seq<u8>, b: Seq<u8>| key_le(a, b));
}

/// Compares two keys by their bytes.
pub fn is_key_le(a: &PublicKey, b: &PublicKey) -> (le: bool)
    ensures
        le == key_le(a@, b@),
{
    let mut i: usize = 0;
    assert(a@.skip(0) =~= a@);
    assert(b@.skip(0) =~= b@);
    while i < 33
        invariant
            i <= 33,
            a@.len() == 33,
            b@.len() == 33,
            key_le(a@, b@) == key_le(a@.skip(i as int), b@.skip(i as int)),
        decreases 33 - i,
    {
        assert(a@.skip(i as int).skip(1) =~= a@.skip(i + 1));
        assert(b@.skip(i as int).skip(1) =~= b@.skip(i + 1));
        if a.bytes[i] < b.bytes[i] {
            return true;
        }
        if a.bytes[i] > b.bytes[i] {
            return false;
        }
        i = i + 1;
    }
    true
}

/// Puts keys into the order of their bytes.
pub fn sort_cosigners(keys: &Vec<PublicKey>) -> (sorted: Vec<PublicKey>)
    ensures
        views::views(sorted@) == sorted_keys(views::views(keys@)),
{
    let ghost leq = |a: Seq<u8>, b: Seq<u8>| key_le(a, b);
    let ghost all = views::views(keys@);
    proof {
        lemma_key_order();
    }
    let mut sorted: Vec<PublicKey> = Vec::new();
    let mut i: usize = 0;
    assert(views::views(sorted@) =~= all.take(0));
    while i < keys.len()
        invariant
            i <= keys@.len(),
            all == views::views(keys@),
            leq == (|a: Seq<u8>, b: Seq<u8>| key_le(a, b)),
            vstd::relations::total_ordering(leq),
            sorted@.len() == i,
            vstd::relations::sorted_by(views::views(sorted@), leq),
            views::views(sorted@).to_multiset() == all.take(i as int).to_multiset(),
        decreases keys@.len() - i,
    {
        let key: PublicKey = keys[i];
        let ghost before = views::views(sorted@);
        let mut place: usize = sorted.len();
        while place > 0 && !is_key_le(&sorted[place - 1], &key)
            invariant
                place <= sorted@.len(),
                before == views::views(sorted@),
                forall|k: int| place <= k < before.len() ==> !key_le(#[trigger] before[k], key@),
            decreases place,
        {
            place = place - 1;
        }
        sorted.insert(place, key);
        let ghost after = views::views(sorted@);
        proof {
            assert(after =~= before.insert(place as int, key@));
            assert forall|x: int, y: int| 0 <= x < y < after.len() implies #[trigger] leq(
                after[x],
                after[y],
            ) by {
                if y < place {
                    assert(leq(before[x], before[y]));
                } else if y == place {
                    if x < place - 1 {
                        assert(leq(before[x], before[place - 1]));
                        assert(leq(before[place - 1], key@));
                    }
                } else if x == place {
                    assert(!leq(before[y - 1], key@));
                    assert(leq(key@, before[y - 1]) || leq(before[y - 1], key@));
                } else if x < place {
                    assert(leq(before[x], before[y - 1]));
                } else {
                    assert(leq(before[x - 1], before[y - 1]));
                }
            }
            assert(all.take(i + 1) =~= all.take(i as int).push(key@));
            vstd::seq_lib::to_multiset_insert(before, place as int, key@);
            vstd::seq_lib::to_multiset_build(all.take(i as int), key@);
        }
        i = i + 1;
    }
    proof {
        assert(all.take(keys@.len() as int) =~= all);
        all.lemma_sort_by_ensures(leq);
        vstd::seq_lib::lemma_sorted_unique(views::views(sorted@), sorted_keys(all), leq);
    }
    sorted
}

/// Keys of one length are in order where they are the same, or the first byte in which they differ is
/// the smaller one.
pub proof fn law_key_order_is_that_of_the_first_difference(a: Seq<u8>, b: Seq<u8>)
    requires
        a.len() == b.len(),
    ensures
        key_le(a, b) <==> a == b || exists|k: int|
            0 <= k < a.len() && #[trigger] a[k] < b[k] && a.take(k) == b.take(k),
    decreases a.len(),
{
    if a.len() == 0 {
        assert(a =~= b);
    } else {
        let x = a.skip(1);
        let y = b.skip(1);
        law_key_order_is_that_of_the_first_difference(x, y);
        if a[0] < b[0] {
            assert(a.take(0) =~= b.take(0));
        } else if a[0] == b[0] {
            if x == y {
                assert(a =~= seq![a[0]] + x);
                assert(b =~= seq![b[0]] + y);
            }
            if exists|k: int| 0 <= k < x.len() && #[trigger] x[k] < y[k] && x.take(k) == y.take(k) {
                let k = choose|k: int|
                    0 <= k < x.len() && #[trigger] x[k] < y[k] && x.take(k) == y.take(k);
                assert(a[k + 1] < b[k + 1]);
                assert forall|i: int| 0 <= i < k + 1 implies #[trigger] a.take(
                    k + 1,
                )[i] == b.take(k + 1)[i] by {
                    if i > 0 {
                        assert(x.take(k)[i - 1] == y.take(k)[i - 1]);
                    }
                }
                assert(a.take(k + 1) =~= b.take(k + 1));
            }
            if exists|k: int| 0 <= k < a.len() && #[trigger] a[k] < b[k] && a.take(k) == b.take(k) {
                let k = choose|k: int|
                    0 <= k < a.len() && #[trigger] a[k] < b[k] && a.take(k) == b.take(k);
                assert(x[k - 1] < y[k - 1]);
                assert forall|i: int| 0 <= i < k - 1 implies #[trigger] x.take(
                    k - 1,
                )[i] == y.take(k - 1)[i] by {
                    assert(a.take(k)[i + 1] == b.take(k)[i + 1]);
                }
                assert(x.take(k - 1) =~= y.take(k - 1));
            }
        } else {
            if exists|k: int| 0 <= k < a.len() && #[trigger] a[k] < b[k] && a.take(k) == b.take(k) {
                let k = choose|k: int|
                    0 <= k < a.len() && #[trigger] a[k] < b[k] && a.take(k) == b.take(k);
                assert(a.take(k)[0] == b.take(k)[0]);
            }
        }
    }
}

} // verus!

//! The mathematical values of collections: what a contract says of them.

use vstd::prelude::*;

verus! {

/// The values of the elements of a sequence.
pub open spec fn views<T: View>(items: Seq<T>) -> Seq<T::V> {
    Seq::new(items.len(), |i: int| items[i]@)
}

/// The values of the elements of a sequence of vectors.
pub open spec fn views2<T: View>(rows: Seq<Vec<T>>) -> Seq<Seq<T::V>> {
    Seq::new(rows.len(), |i: int| views(rows[i]@))
}

/// The value of what an option holds.
pub open spec fn option_view<T: View>(item: Option<T>) -> Option<T::V> {
    match item {
        Some(x) => Some(x@),
        None => None,
    }
}

/// The value of what a result holds.
pub open spec fn result_view<T: View, E>(item: Result<T, E>) -> Result<T::V, E> {
    match item {
        Ok(x) => Ok(x@),
        Err(e) => Err(e),
    }
}

/// The value of the outcome of something that may not come about at all.
pub open spec fn outcome_view<T: View, E>(outcome: Option<Result<T, E>>) -> Option<Result<T::V, E>> {
    match outcome {
        Some(r) => Some(result_view(r)),
        None => None,
    }
}

/// What a sequence of options holds, if all of them hold something.
pub open spec fn whole<A>(items: Seq<Option<A>>) -> Option<Seq<A>> {
    if forall|i: int| 0 <= i < items.len() ==> (#[trigger] items[i]) is Some {
        Some(Seq::new(items.len(), |i: int| items[i]->0))
    } else {
        None
    }
}

/// One sequence after another.
pub open spec fn flatten<A>(rows: Seq<Seq<A>>) -> Seq<A>
    decreases rows.len(),
{
    if rows.len() == 0 {
        Seq::empty()
    } else {
        flatten(rows.drop_last()) + rows.last()
    }
}

/// The elements that are there, in order.
pub open spec fn present<A>(items: Seq<Option<A>>) -> Seq<A>
    decreases items.len(),
{
    if items.len() == 0 {
        Seq::empty()
    } else {
        match items.last() {
            Some(x) => present(items.drop_last()).push(x),
            None => present(items.drop_last()),
        }
    }
}

/// The outcome of steps taken one after another. A step that gives nothing, or an error, is the last
/// one, and its outcome is that of the whole.
pub open spec fn in_turn<A, E>(steps: Seq<Option<Result<A, E>>>) -> Option<Result<Seq<A>, E>>
    decreases steps.len(),
{
    if steps.len() == 0 {
        Some(Ok(Seq::empty()))
    } else {
        match in_turn(steps.drop_last()) {
            Some(Ok(done)) => match steps.last() {
                Some(Ok(x)) => Some(Ok(done.push(x))),
                Some(Err(e)) => Some(Err(e)),
                None => None,
            },
            other => other,
        }
    }
}

/// The outcome of steps that each give a row: the rows one after another.
pub open spec fn joined<A, E>(outcome: Option<Result<Seq<Seq<A>>, E>>) -> Option<Result<Seq<A>, E>> {
    match outcome {
        Some(Ok(rows)) => Some(Ok(flatten(rows))),
        Some(Err(e)) => Some(Err(e)),
        None => None,
    }
}

/// The sum of a sequence of amounts.
pub open spec fn sum(amounts: Seq<u64>) -> int
    decreases amounts.len(),
{
    if amounts.len() == 0 {
        0
    } else {
        sum(amounts.drop_last()) + amounts.last()
    }
}

/// Whether two byte strings are the same.
pub fn same_bytes(a: &[u8], b: &[u8]) -> (same: bool)
    ensures
        same == (a@ == b@),
{
    if a.len() != b.len() {
        return false;
    }
    let mut i: usize = 0;
    while i < a.len()
        invariant
            i <= a@.len(),
            a@.len() == b@.len(),
            forall|k: int| 0 <= k < i ==> a@[k] == b@[k],
        decreases a@.len() - i,
    {
        if a[i] != b[i] {
            return false;
        }
        i = i + 1;
    }
    assert(a@ =~= b@);
    true
}

/// A copy of a byte string.
pub fn copy_bytes(bytes: &[u8]) -> (copy: Vec<u8>)
    ensures
        copy@ == bytes@,
{
    let mut copy: Vec<u8> = Vec::new();
    let mut i: usize = 0;
    while i < bytes.len()
        invariant
            i <= bytes@.len(),
            copy@ == bytes@.take(i as int),
        decreases bytes@.len() - i,
    {
        copy.push(bytes[i]);
        i = i + 1;
        assert(copy@ =~= bytes@.take(i as int));
    }
    assert(bytes@.take(bytes@.len() as int) =~= bytes@);
    copy
}

/// Where the steps so far have failed, more steps change nothing.
pub proof fn lemma_in_turn_stops<A, E>(steps: Seq<Option<Result<A, E>>>, n: int)
    requires
        0 <= n <= steps.len(),
        !(in_turn(steps.take(n)) matches Some(Ok(_))),
    ensures
        in_turn(steps) == in_turn(steps.take(n)),
    decreases steps.len() - n,
{
    if n == steps.len() {
        assert(steps.take(n) =~= steps);
    } else {
        assert(steps.take(n + 1).drop_last() =~= steps.take(n));
        lemma_in_turn_stops(steps, n + 1);
    }
}

/// Every step that was taken left its mark.
pub proof fn lemma_in_turn_done<A, E>(steps: Seq<Option<Result<A, E>>>)
    requires
        in_turn(steps) matches Some(Ok(_)),
    ensures
        in_turn(steps)->0->Ok_0.len() == steps.len(),
        forall|i: int|
            0 <= i < steps.len() ==> #[trigger] steps[i] == Some(
                Ok::<A, E>(in_turn(steps)->0->Ok_0[i]),
            ),
    decreases steps.len(),
{
    if steps.len() > 0 {
        lemma_in_turn_done(steps.drop_last());
        assert forall|i: int| 0 <= i < steps.len() implies #[trigger] steps[i] == Some(
            Ok::<A, E>(in_turn(steps)->0->Ok_0[i]),
        ) by {
            if i < steps.len() - 1 {
                assert(steps.drop_last()[i] == steps[i]);
            }
        }
    }
}

/// The sums of two halves add up.
pub proof fn lemma_sum_append(a: Seq<u64>, b: Seq<u64>)
    ensures
        sum(a + b) == sum(a) + sum(b),
    decreases b.len(),
{
    if b.len() == 0 {
        assert(a + b =~= a);
    } else {
        lemma_sum_append(a, b.drop_last());
        assert((a + b).drop_last() =~= a + b.drop_last());
    }
}

/// A sum is never negative, and no part of it is larger than the whole.
pub proof fn lemma_sum_take(amounts: Seq<u64>, n: int)
    requires
        0 <= n <= amounts.len(),
    ensures
        0 <= sum(amounts.take(n)) <= sum(amounts),
    decreases amounts.len(),
{
    if amounts.len() == 0 {
        assert(amounts.take(n) =~= amounts);
    } else if n == amounts.len() {
        assert(amounts.take(n) =~= amounts);
        lemma_sum_take(amounts.drop_last(), n - 1);
    } else {
        lemma_sum_take(amounts.drop_last(), n);
        assert(amounts.drop_last().take(n) =~= amounts.take(n));
    }
}

/// Where every row has the same length, the elements of the rows lie at regular places.
pub proof fn lemma_flatten_even<A>(rows: Seq<Seq<A>>, width: nat, r: int, c: int)
    requires
        forall|k: int| 0 <= k < rows.len() ==> (#[trigger] rows[k]).len() == width,
        0 <= r < rows.len(),
        0 <= c < width,
    ensures
        flatten(rows).len() == rows.len() * width,
        0 <= r * width + c < flatten(rows).len(),
        flatten(rows)[r * width + c] == rows[r][c],
    decreases rows.len(),
{
    let n = rows.len();
    lemma_flatten_even_len(rows, width);
    lemma_flatten_even_len(rows.drop_last(), width);
    assert(0 <= r * width + c < n * width) by (nonlinear_arith)
        requires
            0 <= r < n,
            0 <= c < width,
    ;
    if r < n - 1 {
        lemma_flatten_even(rows.drop_last(), width, r, c);
        assert(rows.drop_last()[r] == rows[r]);
    }
}

/// Where every row has the same length, that of the whole is a multiple of it.
pub proof fn lemma_flatten_even_len<A>(rows: Seq<Seq<A>>, width: nat)
    requires
        forall|k: int| 0 <= k < rows.len() ==> (#[trigger] rows[k]).len() == width,
    ensures
        flatten(rows).len() == rows.len() * width,
    decreases rows.len(),
{
    if rows.len() > 0 {
        lemma_flatten_even_len(rows.drop_last(), width);
        let n = rows.len();
        assert((n - 1) * width + width == n * width) by (nonlinear_arith);
        assert(rows.last().len() == width);
    } else {
        assert(0 * width == 0) by (nonlinear_arith);
    }
}

/// Rows that are put one after another are read from the first to the last.
pub proof fn law_flatten_joins_rows<A>(rows: Seq<Seq<A>>)
    ensures
        flatten(rows) == rows.flatten(),
{
    lemma_flatten_from_the_end(rows);
    rows.lemma_flatten_and_flatten_alt_are_equivalent();
}

proof fn lemma_flatten_from_the_end<A>(rows: Seq<Seq<A>>)
    ensures
        flatten(rows) == rows.flatten_alt(),
    decreases rows.len(),
{
    if rows.len() > 0 {
        lemma_flatten_from_the_end(rows.drop_last());
    }
}

/// A sum is what comes of adding one amount after another to nothing.
pub proof fn law_sum_adds_every_amount(amounts: Seq<u64>)
    ensures
        sum(amounts) == amounts.fold_left(0, |so_far: int, amount: u64| so_far + amount),
    decreases amounts.len(),
{
    if amounts.len() > 0 {
        law_sum_adds_every_amount(amounts.drop_last());
    }
}

/// What is there of some items is just that, in the order of the items.
pub proof fn law_present_drops_just_the_missing<A>(items: Seq<Option<A>>)
    ensures
        present(items) == items.filter_map(|item: Option<A>| item),
    decreases items.len(),
{
    if items.len() > 0 {
        law_present_drops_just_the_missing(items.drop_last());
        if let Some(x) = items.last() {
            assert(present(items.drop_last()).push(x) =~= present(items.drop_last()) + seq![x]);
        }
    }
}

/// A whole has every item at its own place, and there is one unless an item is missing.
pub proof fn law_whole_has_every_item<A>(items: Seq<Option<A>>)
    ensures
        match whole(items) {
            Some(all) => all.len() == items.len() && forall|i: int|
                0 <= i < items.len() ==> #[trigger] items[i] == Some(all[i]),
            None => exists|i: int| 0 <= i < items.len() && (#[trigger] items[i]) is None,
        },
{
}

/// Steps taken one after another fail as the first of them that fails.
pub proof fn law_first_failure_counts<A, E>(steps: Seq<Option<Result<A, E>>>, first: int)
    requires
        0 <= first < steps.len(),
        !(steps[first] matches Some(Ok(_))),
        forall|i: int| 0 <= i < first ==> (#[trigger] steps[i] matches Some(Ok(_))),
    ensures
        in_turn(steps) == (match steps[first] {
            Some(Err(e)) => Some(Err::<Seq<A>, E>(e)),
            _ => None,
        }),
{
    lemma_in_turn_goes_on(steps, first);
    assert(steps.take(first + 1).drop_last() =~= steps.take(first));
    lemma_in_turn_stops(steps, first + 1);
}

proof fn lemma_in_turn_goes_on<A, E>(steps: Seq<Option<Result<A, E>>>, n: int)
    requires
        0 <= n <= steps.len(),
        forall|i: int| 0 <= i < n ==> (#[trigger] steps[i] matches Some(Ok(_))),
    ensures
        in_turn(steps.take(n)) matches Some(Ok(_)),
    decreases n,
{
    if n > 0 {
        lemma_in_turn_goes_on(steps, n - 1);
        assert(steps.take(n).drop_last() =~= steps.take(n - 1));
        assert(steps.take(n).last() == steps[n - 1]);
    }
}

/// Steps that all go well give what each of them gave, in order.
pub proof fn law_all_steps_count<A, E>(steps: Seq<Option<Result<A, E>>>)
    requires
        forall|i: int| 0 <= i < steps.len() ==> (#[trigger] steps[i] matches Some(Ok(_))),
    ensures
        in_turn(steps) matches Some(Ok(done)) && done.len() == steps.len() && forall|i: int|
            0 <= i < steps.len() ==> #[trigger] steps[i] == Some(Ok::<A, E>(done[i])),
{
    lemma_in_turn_goes_on(steps, steps.len() as int);
    assert(steps.take(steps.len() as int) =~= steps);
    lemma_in_turn_done(steps);
}

/// A sequence of values holds the value of each item, at its place.
pub proof fn law_values_are_those_of_the_items<T: View>(items: Seq<T>, i: int)
    requires
        0 <= i < items.len(),
    ensures
        views(items).len() == items.len(),
        views(items)[i] == items[i]@,
{
}

/// A table of values holds the value of each item, at its place in its row.
pub proof fn law_values_keep_their_rows<T: View>(rows: Seq<Vec<T>>, i: int)
    requires
        0 <= i < rows.len(),
    ensures
        views2(rows).len() == rows.len(),
        views2(rows)[i].len() == rows[i]@.len(),
        forall|j: int| 0 <= j < rows[i]@.len() ==> views2(rows)[i][j] == (#[trigger] rows[i]@[j])@,
{
}

/// The value of an outcome is one of its own kind.
pub proof fn law_values_keep_their_kind<T: View, E>(item: T, error: E)
    ensures
        option_view(Some(item)) == Some(item@),
        option_view(None::<T>) is None,
        result_view(Ok::<T, E>(item)) == Ok::<T::V, E>(item@),
        result_view(Err::<T, E>(error)) == Err::<T::V, E>(error),
        outcome_view(Some(Ok::<T, E>(item))) == Some(Ok::<T::V, E>(item@)),
        outcome_view(Some(Err::<T, E>(error))) == Some(Err::<T::V, E>(error)),
        outcome_view(None::<Result<T, E>>) is None,
{
}

/// Rows are joined where there are some, and a failure is handed on.
pub proof fn law_rows_are_joined<A, E>(rows: Seq<Seq<A>>, error: E)
    ensures
        joined(Some(Ok::<Seq<Seq<A>>, E>(rows))) == Some(Ok::<Seq<A>, E>(rows.flatten())),
        joined(Some(Err::<Seq<Seq<A>>, E>(error))) == Some(Err::<Seq<A>, E>(error)),
        joined(None::<Result<Seq<Seq<A>>, E>>) is None,
{
    law_flatten_joins_rows(rows);
}

} // verus!

//! The mathematical model of batching: how a sequence of rows is split into
//! consecutive batches of a fixed capacity.
use vstd::prelude::*;

verus! {

/// The batches that `rows` is dispatched in, with room for `size` rows in
/// each: consecutive runs of exactly `size` rows, then whatever remains as one
/// final partial batch. No batch is empty. A size of zero never fills up, so
/// every row goes into one batch at the end.
pub open spec fn batches_of<T>(rows: Seq<T>, size: nat) -> Seq<Seq<T>>
    decreases rows.len(),
{
    if rows.len() == 0 {
        Seq::empty()
    } else if size == 0 || rows.len() <= size {
        seq![rows]
    } else {
        seq![rows.take(size as int)] + batches_of(rows.skip(size as int), size)
    }
}

/// The number of batches that `n` rows fill, `size` rows at most in each:
/// `n / size` rounded up.
pub open spec fn batch_count(n: nat, size: nat) -> nat
    recommends
        size > 0,
{
    ((n + size - 1) / size as int) as nat
}

/// The length of the last of the batches that `n > 0` rows fill: the rows
/// left over after the full batches, or a whole batch when none are left.
pub open spec fn last_batch_len(n: nat, size: nat) -> nat
    recommends
        size > 0,
{
    if n % size == 0 {
        size
    } else {
        n % size
    }
}

/// Batching keeps every row exactly once, in order: the batches, put end to
/// end, are the rows themselves.
pub proof fn batches_flatten_law<T>(rows: Seq<T>, size: nat)
    ensures
        batches_of(rows, size).flatten() == rows,
    decreases rows.len(),
{
    let bs = batches_of(rows, size);
    if rows.len() == 0 {
    } else if size == 0 || rows.len() <= size {
        seq![rows].lemma_flatten_one_element();
    } else {
        let head = rows.take(size as int);
        let tail = rows.skip(size as int);
        batches_flatten_law(tail, size);
        assert(bs.drop_first() =~= batches_of(tail, size));
        assert(bs.first() == head);
        assert(head + tail =~= rows);
    }
}

/// The shape of the batches of `rows` for a positive size: there are
/// `batch_count` of them, every batch but the last holds exactly `size` rows,
/// and the last holds the remainder, or `size` rows when the size divides the
/// number of rows.
pub proof fn batches_shape_law<T>(rows: Seq<T>, size: nat)
    requires
        size > 0,
    ensures
        batches_of(rows, size).len() == batch_count(rows.len(), size),
        forall|i: int|
            0 <= i < batches_of(rows, size).len() - 1 ==> #[trigger] batches_of(rows, size)[i].len()
                == size,
        rows.len() > 0 ==> batches_of(rows, size).last().len() == last_batch_len(rows.len(), size),
    decreases rows.len(),
{
    let n = rows.len();
    let bs = batches_of(rows, size);
    if n == 0 {
        assert(batch_count(0, size) == 0) by (nonlinear_arith)
            requires
                size > 0,
        ;
    } else if n <= size {
        assert(batch_count(n, size) == 1) by (nonlinear_arith)
            requires
                size > 0,
                0 < n <= size,
        ;
        assert(last_batch_len(n, size) == n) by (nonlinear_arith)
            requires
                size > 0,
                0 < n <= size,
        ;
    } else {
        let tail = rows.skip(size as int);
        batches_shape_law(tail, size);
        let ts = batches_of(tail, size);
        assert(bs =~= seq![rows.take(size as int)] + ts);
        let m = tail.len();
        assert(m == n - size);
        assert(batch_count(n, size) == batch_count(m, size) + 1) by (nonlinear_arith)
            requires
                size > 0,
                n == m + size,
        ;
        assert(last_batch_len(n, size) == last_batch_len(m, size)) by (nonlinear_arith)
            requires
                size > 0,
                n == m + size,
        ;
        assert forall|i: int| 0 <= i < bs.len() - 1 implies #[trigger] bs[i].len() == size by {
            if i > 0 {
                assert(bs[i] == ts[i - 1]);
            }
        }
        assert(bs.last() == ts.last());
    }
}

/// No rows make no batches, whatever the size.
pub proof fn empty_rows_law<T>(rows: Seq<T>, size: nat)
    requires
        rows.len() == 0,
    ensures
        batches_of(rows, size).len() == 0,
{
}

/// When the number of rows is a positive multiple of the size, every batch is
/// full: there is no trailing partial batch.
pub proof fn exact_multiple_law<T>(rows: Seq<T>, size: nat, k: nat)
    requires
        size > 0,
        k > 0,
        rows.len() == k * size,
    ensures
        batches_of(rows, size).len() == k,
        forall|i: int|
            0 <= i < batches_of(rows, size).len() ==> #[trigger] batches_of(rows, size)[i].len()
                == size,
{
    batches_shape_law(rows, size);
    assert(batch_count(rows.len(), size) == k) by (nonlinear_arith)
        requires
            size > 0,
            rows.len() == k * size,
    ;
    assert(rows.len() % size == 0) by (nonlinear_arith)
        requires
            size > 0,
            rows.len() == k * size,
    ;
    assert(rows.len() > 0) by (nonlinear_arith)
        requires
            size > 0,
            k > 0,
            rows.len() == k * size,
    ;
}

/// Rows made of full batches followed by fewer than `size` pending rows are
/// batched as those full batches, then the pending rows as one last batch if
/// there are any.
pub proof fn lemma_batches_of_full_then_pending<T>(
    full: Seq<Seq<T>>,
    pending: Seq<T>,
    size: nat,
)
    requires
        size > 0,
        pending.len() < size,
        forall|i: int| 0 <= i < full.len() ==> (#[trigger] full[i]).len() == size,
    ensures
        batches_of(full.flatten() + pending, size) == if pending.len() == 0 {
            full
        } else {
            full.push(pending)
        },
    decreases full.len(),
{
    let rows = full.flatten() + pending;
    if full.len() == 0 {
        assert(rows =~= pending);
        if pending.len() == 0 {
        } else {
            assert(full.push(pending) =~= seq![pending]);
        }
    } else {
        let rest = full.drop_first();
        assert forall|i: int| 0 <= i < rest.len() implies (#[trigger] rest[i]).len() == size by {
            assert(rest[i] == full[i + 1]);
        }
        lemma_batches_of_full_then_pending(rest, pending, size);
        let tail = rest.flatten() + pending;
        assert(full.flatten() == full[0] + rest.flatten());
        assert(rows =~= full[0] + tail);
        assert(rows.take(size as int) =~= full[0]);
        assert(rows.skip(size as int) =~= tail);
        if tail.len() == 0 {
            assert(rest.len() == 0) by {
                if rest.len() > 0 {
                    rest.lemma_flatten_and_flatten_alt_are_equivalent();
                    rest.lemma_flatten_length_ge_single_element_length(0);
                }
            }
            assert(rows =~= full[0]);
            assert(full =~= seq![full[0]]);
        } else {
            let bs = batches_of(rows, size);
            assert(bs == seq![full[0]] + batches_of(tail, size));
            if pending.len() == 0 {
                assert(full =~= seq![full[0]] + rest);
            } else {
                assert(full.push(pending) =~= seq![full[0]] + rest.push(pending));
            }
        }
    }
}

} // verus!

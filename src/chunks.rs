//! Splitting an ordered sequence of work items into contiguous, fixed-size chunks.
use vstd::arithmetic::div_mod::{lemma_fundamental_div_mod, lemma_fundamental_div_mod_converse_div};
use vstd::prelude::*;

verus! {

/// Number of chunks of size `k` needed for `n` items: `ceil(n / k)`.
pub open spec fn chunk_count(n: nat, k: nat) -> nat {
    if k == 0 {
        0
    } else {
        ((n + k - 1) / (k as int)) as nat
    }
}

/// The `i`-th chunk of `items` for chunk size `k`: the items from `i * k` up to
/// `(i + 1) * k`, or up to the end for the last chunk.
pub open spec fn chunk_at<T>(items: Seq<T>, k: nat, i: int) -> Seq<T> {
    let lo = i * k;
    let hi = if lo + k <= items.len() {
        lo + k
    } else {
        items.len() as int
    };
    items.subrange(lo, hi)
}

/// All chunks of `items` for chunk size `k`, in order.
pub open spec fn chunks_of<T>(items: Seq<T>, k: nat) -> Seq<Seq<T>> {
    Seq::new(chunk_count(items.len(), k), |i: int| chunk_at(items, k, i))
}

/// The chunks laid end to end.
pub open spec fn concat<T>(parts: Seq<Seq<T>>) -> Seq<T>
    decreases parts.len(),
{
    if parts.len() == 0 {
        Seq::empty()
    } else {
        concat(parts.drop_last()) + parts.last()
    }
}

/// The sum of the chunks' lengths.
pub open spec fn total_len<T>(parts: Seq<Seq<T>>) -> nat
    decreases parts.len(),
{
    if parts.len() == 0 {
        0
    } else {
        total_len(parts.drop_last()) + parts.last().len()
    }
}

/// `c` chunks of size `k` are exactly enough for `n` items.
proof fn lemma_count_is_ceiling(n: nat, k: nat, c: nat)
    requires
        k > 0,
        c * k >= n,
        c == 0 || (c - 1) * k < n,
    ensures
        c == chunk_count(n, k),
{
    let r = n + k - 1 - c * k;
    if c > 0 {
        assert((c - 1) * k == c * k - k) by (nonlinear_arith);
    }
    assert(0 <= r < k);
    assert(n + k - 1 == c * k + r);
    lemma_fundamental_div_mod_converse_div(n + k - 1, k as int, c as int, r);
}

/// The chunk count `c` for `n` items is the least `c` with `c * k >= n`.
pub proof fn lemma_ceiling_bounds(n: nat, k: nat)
    requires
        k > 0,
    ensures
        chunk_count(n, k) * k >= n,
        chunk_count(n, k) == 0 || (chunk_count(n, k) - 1) * k < n,
{
    let c = chunk_count(n, k);
    lemma_fundamental_div_mod(n + k - 1, k as int);
    let r = (n + k - 1) % (k as int);
    assert(n + k - 1 == k * c + r);
    assert(k * c == c * k) by (nonlinear_arith);
    if c > 0 {
        assert((c - 1) * k == c * k - k) by (nonlinear_arith);
    }
}

/// Where the first `j` chunks end: `min(j * k, n)`.
pub open spec fn prefix_end(n: nat, k: nat, j: nat) -> int {
    if j * k <= n {
        (j * k) as int
    } else {
        n as int
    }
}

/// The first `j` chunks laid end to end are the first `min(j * k, n)` items.
proof fn lemma_concat_prefix<T>(items: Seq<T>, k: nat, j: nat)
    requires
        k > 0,
        j <= chunk_count(items.len(), k),
    ensures
        concat(chunks_of(items, k).take(j as int)) =~= items.subrange(
            0,
            prefix_end(items.len(), k, j),
        ),
        total_len(chunks_of(items, k).take(j as int)) == prefix_end(items.len(), k, j),
    decreases j,
{
    let parts = chunks_of(items, k);
    if j == 0 {
        assert(0 * k == 0) by (nonlinear_arith);
        assert(parts.take(0) =~= Seq::<Seq<T>>::empty());
    } else {
        lemma_ceiling_bounds(items.len(), k);
        let c = chunk_count(items.len(), k);
        assert((j - 1) * k <= (c - 1) * k) by (nonlinear_arith)
            requires
                j <= c,
                j >= 1,
        ;
        assert(j * k == (j - 1) * k + k) by (nonlinear_arith);
        lemma_concat_prefix(items, k, (j - 1) as nat);
        assert(parts.take(j as int).drop_last() =~= parts.take(j - 1));
        assert(parts.take(j as int).last() == chunk_at(items, k, j - 1));
    }
}

/// Chunk `i` holds the items from where the first `i` chunks end to where
/// the first `i + 1` end; all chunks together end at the last item.
pub proof fn lemma_chunk_span<T>(items: Seq<T>, k: nat, i: nat)
    requires
        k > 0,
        i < chunk_count(items.len(), k),
    ensures
        chunk_at(items, k, i as int) == items.subrange(
            prefix_end(items.len(), k, i),
            prefix_end(items.len(), k, i + 1),
        ),
        prefix_end(items.len(), k, i) == i * k,
        prefix_end(items.len(), k, i) <= prefix_end(items.len(), k, i + 1) <= items.len(),
        prefix_end(items.len(), k, 0) == 0,
        prefix_end(items.len(), k, chunk_count(items.len(), k)) == items.len(),
{
    let c = chunk_count(items.len(), k);
    lemma_ceiling_bounds(items.len(), k);
    assert(i * k <= (c - 1) * k) by (nonlinear_arith)
        requires
            i < c,
    ;
    assert((i + 1) * k == i * k + k) by (nonlinear_arith);
    assert(0 * k == 0) by (nonlinear_arith);
}

/// Laws of the partition: for every `n >= 0` items and chunk size `k >= 1`
/// there are `ceil(n / k)` chunks, none larger than `k`, every chunk but the
/// last holds exactly `k` items, laying the chunks end to end gives back the
/// items in the order they were given, and the chunk sizes add up to `n`.
pub proof fn lemma_partition_laws<T>(items: Seq<T>, k: nat)
    requires
        k >= 1,
    ensures
        chunks_of(items, k).len() == chunk_count(items.len(), k),
        chunk_count(items.len(), k) == (items.len() + k - 1) / (k as int),
        forall|i: int|
            0 <= i < chunks_of(items, k).len() ==> (#[trigger] chunks_of(items, k)[i]).len() <= k,
        forall|i: int|
            0 <= i < chunks_of(items, k).len() - 1 ==> (#[trigger] chunks_of(items, k)[i]).len() == k,
        concat(chunks_of(items, k)) == items,
        total_len(chunks_of(items, k)) == items.len(),
{
    let parts = chunks_of(items, k);
    let c = chunk_count(items.len(), k);
    lemma_ceiling_bounds(items.len(), k);
    assert forall|i: int| 0 <= i < parts.len() implies (#[trigger] parts[i]).len() <= k
        && (i < parts.len() - 1 ==> parts[i].len() == k) by {
        assert(i * k <= (c - 1) * k) by (nonlinear_arith)
            requires
                0 <= i < c,
        ;
        if i < c - 1 {
            assert((i + 1) * k <= (c - 1) * k) by (nonlinear_arith)
                requires
                    0 <= i < c - 1,
            ;
        }
        assert((i + 1) * k == i * k + k) by (nonlinear_arith);
    }
    lemma_concat_prefix(items, k, c);
    assert(parts.take(c as int) =~= parts);
}

/// Splits `items` into consecutive chunks of `chunk_size` items; the last chunk
/// holds the remainder when `chunk_size` does not divide the number of items.
pub fn split_into_chunks<T>(items: &[T], chunk_size: usize) -> (r: Vec<&[T]>)
    requires
        chunk_size > 0,
    ensures
        r@.len() == chunk_count(items@.len(), chunk_size as nat),
        forall|i: int| 0 <= i < r@.len() ==> (#[trigger] r@[i])@ == chunk_at(items@, chunk_size as nat, i),
{
    let n = items.len();
    let k = chunk_size;
    let mut out: Vec<&[T]> = Vec::new();
    let mut lo: usize = 0;
    assert(out@.len() * k == 0) by (nonlinear_arith)
        requires
            out@.len() == 0,
    ;
    while lo < n
        invariant
            k > 0,
            n == items@.len(),
            lo <= n,
            lo < n ==> lo == out@.len() * k,
            lo == n ==> out@.len() * k >= n,
            out@.len() == 0 || (out@.len() - 1) * k < n,
            out@.len() == 0 ==> lo == 0,
            forall|i: int| 0 <= i < out@.len() ==> (#[trigger] out@[i])@ == chunk_at(items@, k as nat, i),
        decreases n - lo,
    {
        let hi: usize = if n - lo > k {
            lo + k
        } else {
            n
        };
        let chunk = &items[lo..hi];
        proof {
            assert(chunk@ == chunk_at(items@, k as nat, out@.len() as int));
            assert((out@.len() + 1) * k == out@.len() * k + k) by (nonlinear_arith);
        }
        out.push(chunk);
        lo = hi;
    }
    proof {
        lemma_count_is_ceiling(n as nat, k as nat, out@.len());
    }
    out
}

} // verus!

use vstd::prelude::*;
use vstd::arithmetic::div_mod::{lemma_fundamental_div_mod, lemma_mod_bound};
use vstd::arithmetic::mul::lemma_mul_inequality;

verus! {

/// How many chunks fixed-duration segmentation produces: the total duration
/// divided by the chunk duration, rounded up.
pub open spec fn chunk_count(total_ms: int, chunk_ms: int) -> int
    recommends
        chunk_ms > 0,
        total_ms >= 0,
{
    (total_ms + chunk_ms - 1) / chunk_ms
}

/// Source time at which chunk `i` begins.
pub open spec fn chunk_start(i: int, chunk_ms: int) -> int {
    i * chunk_ms
}

/// Source time at which chunk `i` ends: one full duration later, capped at
/// the end of the source.
pub open spec fn chunk_end(i: int, chunk_ms: int, total_ms: int) -> int {
    if (i + 1) * chunk_ms <= total_ms {
        (i + 1) * chunk_ms
    } else {
        total_ms
    }
}

pub open spec fn chunk_len(i: int, chunk_ms: int, total_ms: int) -> int {
    chunk_end(i, chunk_ms, total_ms) - chunk_start(i, chunk_ms)
}

/// The chunk count is the quotient rounded up: the least number of chunks
/// whose combined full duration reaches the source duration, and zero only
/// for an empty source.
pub proof fn lemma_ceil_bounds(total: int, d: int)
    requires
        d > 0,
        total >= 0,
    ensures
        chunk_count(total, d) >= 0,
        chunk_count(total, d) * d >= total,
        total > 0 ==> (chunk_count(total, d) - 1) * d < total,
        total == 0 ==> chunk_count(total, d) == 0,
        total > 0 ==> chunk_count(total, d) >= 1,
{
    let m = total + d - 1;
    let q = m / d;
    let r = m % d;
    lemma_fundamental_div_mod(m, d);
    lemma_mod_bound(m, d);
    assert(m == q * d + r);
    assert(q * d == m - r >= total) by {
        assert(r <= d - 1);
    }
    assert((q - 1) * d == q * d - d) by (nonlinear_arith);
    assert((q - 1) * d == m - r - d < total);
    if q < 0 {
        assert(q <= -1);
        lemma_mul_inequality(q, -1, d);
        assert(q * d <= -1 * d);
        assert(-1 * d == -d) by (nonlinear_arith);
        assert(false);
    }
    if total == 0 && q != 0 {
        assert(q >= 1);
        assert((q - 1) * d >= 0) by (nonlinear_arith)
            requires q >= 1, d > 0;
        assert(false);
    }
    if total > 0 && q <= 0 {
        assert(q * d <= 0) by (nonlinear_arith)
            requires q <= 0, d > 0;
        assert(false);
    }
}

/// Chunk `i` of a segmentation covers source time `i * d` up to `(i + 1) * d`,
/// with the last chunk stopping at the source's end: every chunk except
/// possibly the last has the full duration, the last is never empty and never
/// longer, and consecutive chunks are adjacent.
pub proof fn lemma_chunk_coverage(total_ms: int, chunk_ms: int, i: int)
    requires
        chunk_ms > 0,
        total_ms >= 0,
        0 <= i < chunk_count(total_ms, chunk_ms),
    ensures
        chunk_start(i, chunk_ms) == i * chunk_ms,
        i < chunk_count(total_ms, chunk_ms) - 1 ==> chunk_len(i, chunk_ms, total_ms) == chunk_ms,
        i == chunk_count(total_ms, chunk_ms) - 1 ==> chunk_end(i, chunk_ms, total_ms) == total_ms
            && 0 < chunk_len(i, chunk_ms, total_ms) <= chunk_ms,
        chunk_start(i, chunk_ms) < chunk_end(i, chunk_ms, total_ms) <= total_ms,
        i > 0 ==> chunk_start(i, chunk_ms) == chunk_end(i - 1, chunk_ms, total_ms),
{
    let d = chunk_ms;
    let total = total_ms;
    let count = chunk_count(total, d);
    lemma_ceil_bounds(total, d);
    assert(i * d < total) by {
        lemma_mul_inequality(i, count - 1, d);
    }
    assert((i + 1) * d == i * d + d) by (nonlinear_arith);
    if i < count - 1 {
        assert((i + 1) * d <= total) by {
            lemma_mul_inequality(i + 1, count - 1, d);
        }
    }
    if i == count - 1 {
        assert(count * d >= total);
        assert(count * d == i * d + d + ((count - 1 - i) * d)) by (nonlinear_arith);
        assert(chunk_end(i, d, total) == total);
    }
    if i > 0 {
        assert(i * d <= total);
        assert(chunk_end(i - 1, d, total) == i * d);
    }
}

/// Total source time held by the first `k` chunks.
pub open spec fn chunks_len_sum(k: int, chunk_ms: int, total_ms: int) -> int
    decreases k,
{
    if k <= 0 {
        0
    } else {
        chunks_len_sum(k - 1, chunk_ms, total_ms) + chunk_len(k - 1, chunk_ms, total_ms)
    }
}

proof fn lemma_prefix_sum(k: int, d: int, total: int)
    requires
        d > 0,
        total >= 0,
        0 <= k <= chunk_count(total, d),
    ensures
        k * d <= total ==> chunks_len_sum(k, d, total) == k * d,
        k * d > total ==> chunks_len_sum(k, d, total) == total,
    decreases k,
{
    lemma_ceil_bounds(total, d);
    if k == 0 {
        assert(chunks_len_sum(0, d, total) == 0);
        assert(0 * d == 0) by (nonlinear_arith);
    } else {
        lemma_prefix_sum(k - 1, d, total);
        lemma_chunk_coverage(total, d, k - 1);
        assert(k * d == (k - 1) * d + d) by (nonlinear_arith);
        assert((k - 1) * d < total) by {
            lemma_mul_inequality(k - 1, chunk_count(total, d) - 1, d);
        }
        assert(chunks_len_sum(k, d, total) == chunks_len_sum(k - 1, d, total) + chunk_len(
            k - 1,
            d,
            total,
        ));
        assert(chunks_len_sum(k - 1, d, total) == (k - 1) * d);
        if k - 1 < chunk_count(total, d) - 1 {
            lemma_mul_inequality(k, chunk_count(total, d) - 1, d);
            assert(k * d < total);
            assert(chunk_len(k - 1, d, total) == d);
            assert(chunks_len_sum(k, d, total) == k * d);
        } else {
            assert(k == chunk_count(total, d));
            assert(k * d >= total);
            assert(chunk_end(k - 1, d, total) == total);
            assert(chunk_len(k - 1, d, total) == total - (k - 1) * d);
            assert(chunks_len_sum(k, d, total) == total);
            if k * d <= total {
                assert(k * d == total);
            }
        }
    }
}

/// Merging every chunk of a segmentation loses nothing: the chunk lengths
/// sum to the source duration exactly, whether or not the source duration is
/// a multiple of the chunk duration.
pub proof fn lemma_lossless_reassembly(total_ms: int, chunk_ms: int)
    requires
        chunk_ms > 0,
        total_ms >= 0,
    ensures
        chunks_len_sum(chunk_count(total_ms, chunk_ms), chunk_ms, total_ms) == total_ms,
{
    lemma_ceil_bounds(total_ms, chunk_ms);
    lemma_prefix_sum(chunk_count(total_ms, chunk_ms), chunk_ms, total_ms);
}

/// Source time held by a list of spans together.
pub open spec fn spans_total(s: Seq<(u64, u64)>) -> int
    decreases s.len(),
{
    if s.len() == 0 {
        0
    } else {
        spans_total(s.drop_last()) + (s.last().1 - s.last().0)
    }
}

proof fn lemma_spans_total_matches(s: Seq<(u64, u64)>, d: int, total: int)
    requires
        forall|i: int|
            0 <= i < s.len() ==> (#[trigger] s[i]).0 == chunk_start(i, d) && s[i].1 == chunk_end(
                i,
                d,
                total,
            ),
    ensures
        spans_total(s) == chunks_len_sum(s.len() as int, d, total),
    decreases s.len(),
{
    if s.len() > 0 {
        lemma_spans_total_matches(s.drop_last(), d, total);
    }
}

/// The planned spans of a fixed-duration segmentation, as half-open
/// millisecond windows of source time in temporal order; together the spans
/// hold the whole source, so reassembling every chunk loses nothing.
pub fn segment_spans(total_ms: u64, chunk_ms: u64) -> (r: Vec<(u64, u64)>)
    requires
        chunk_ms > 0,
    ensures
        r@.len() == chunk_count(total_ms as int, chunk_ms as int),
        forall|i: int|
            0 <= i < r@.len() ==> (#[trigger] r@[i]).0 == chunk_start(i, chunk_ms as int)
                && r@[i].1 == chunk_end(i, chunk_ms as int, total_ms as int),
        spans_total(r@) == total_ms,
{
    let ghost d = chunk_ms as int;
    let ghost total = total_ms as int;
    proof {
        lemma_ceil_bounds(total, d);
    }
    let mut r: Vec<(u64, u64)> = Vec::new();
    let mut start: u64 = 0;
    while start < total_ms
        invariant
            chunk_ms > 0,
            d == chunk_ms as int,
            total == total_ms as int,
            r@.len() <= chunk_count(total, d),
            start as int == if r@.len() * d <= total {
                r@.len() * d
            } else {
                total
            },
            forall|i: int|
                0 <= i < r@.len() ==> (#[trigger] r@[i]).0 == chunk_start(i, d) && r@[i].1
                    == chunk_end(i, d, total),
        decreases total_ms - start,
    {
        let ghost n = r@.len() as int;
        proof {
            lemma_ceil_bounds(total, d);
            assert(n * d < total);
            if n >= chunk_count(total, d) {
                lemma_mul_inequality(chunk_count(total, d), n, d);
                assert(false);
            }
            assert((n + 1) * d == n * d + d) by (nonlinear_arith);
        }
        let end: u64 = if chunk_ms < total_ms - start {
            start + chunk_ms
        } else {
            total_ms
        };
        r.push((start, end));
        proof {
            assert(r@[n].0 == chunk_start(n, d));
            assert(r@[n].1 == chunk_end(n, d, total));
        }
        start = end;
    }
    proof {
        let n = r@.len() as int;
        lemma_ceil_bounds(total, d);
        if n < chunk_count(total, d) {
            if total > 0 {
                lemma_mul_inequality(n, chunk_count(total, d) - 1, d);
                assert(n * d < total);
                assert(false);
            }
        }
        lemma_spans_total_matches(r@, d, total);
        lemma_lossless_reassembly(total, d);
    }
    r
}

/// The three spans of a region split, in role order: everything before the
/// selection, the selection, and everything after it; together they cover
/// the source exactly.
pub fn region_spans(total_ms: u64, start_ms: u64, end_ms: u64) -> (r: Vec<(u64, u64)>)
    requires
        start_ms <= end_ms <= total_ms,
    ensures
        r@.len() == 3,
        r@[0] == (0u64, start_ms),
        r@[1] == (start_ms, end_ms),
        r@[2] == (end_ms, total_ms),
        (r@[0].1 - r@[0].0) + (r@[1].1 - r@[1].0) + (r@[2].1 - r@[2].0) == total_ms,
{
    let mut r: Vec<(u64, u64)> = Vec::new();
    r.push((0, start_ms));
    r.push((start_ms, end_ms));
    r.push((end_ms, total_ms));
    r
}

} // verus!

//! How the decoded samples of a track are cut into the bars of its
//! waveform: the samples are taken in consecutive buckets of equal size, one
//! bar per bucket, with at most `WAVEFORM_BARS` bars (the rest is drawn as
//! silent bars).

use vstd::prelude::*;

verus! {

/// The number of bars of every waveform.
pub const WAVEFORM_BARS: usize = 2048;

/// Samples per bucket for a track of `total` samples.
pub open spec fn bucket_size_spec(total: nat) -> nat {
    if total / (WAVEFORM_BARS as nat) >= 1 {
        total / (WAVEFORM_BARS as nat)
    } else {
        1
    }
}

/// The number of buckets: as many as `total` samples fill (the last one may
/// be short), but no more than `WAVEFORM_BARS`.
pub open spec fn bucket_count_spec(total: nat) -> nat {
    let b = bucket_size_spec(total);
    let n = ((total + b - 1) / b as int) as nat;
    if n <= WAVEFORM_BARS {
        n
    } else {
        WAVEFORM_BARS as nat
    }
}

/// The sample range `[start, end)` of bucket `i`.
pub open spec fn bucket_spec(total: nat, i: nat) -> (nat, nat) {
    let b = bucket_size_spec(total);
    let end = (i + 1) * b;
    (i * b, if end <= total { end } else { total })
}

/// Samples per bucket: a 2048th of the track, at least one.
pub fn bucket_size(total: usize) -> (b: usize)
    ensures
        b == bucket_size_spec(total as nat),
{
    let b = total / WAVEFORM_BARS;
    if b >= 1 {
        b
    } else {
        1
    }
}

proof fn lemma_ceil_div(total: nat, b: nat, i: nat)
    requires
        b >= 1,
    ensures
        (i * b < total) == (i < (total + b - 1) / b as int),
{
    let q = (total + b - 1) / b as int;
    let r = (total + b - 1) % b as int;
    assert(total + b - 1 == q * b + r && 0 <= r < b) by (nonlinear_arith)
        requires
            b >= 1,
            q == (total + b - 1) / b as int,
            r == (total + b - 1) % b as int,
    ;
    if i < q {
        assert(i * b <= (q - 1) * b) by (nonlinear_arith)
            requires
                i <= q - 1,
                b >= 1,
        ;
        assert((q - 1) * b == q * b - b) by (nonlinear_arith);
    } else {
        assert(i * b >= q * b) by (nonlinear_arith)
            requires
                i >= q,
                b >= 1,
        ;
    }
}

/// The sample ranges of the buckets of a track of `total` samples, in order.
pub fn bucket_bounds(total: usize) -> (r: Vec<(usize, usize)>)
    ensures
        r.len() == bucket_count_spec(total as nat),
        forall|i: int|
            0 <= i < r.len() ==> (#[trigger] r@[i].0 as nat, r@[i].1 as nat) == bucket_spec(
                total as nat,
                i as nat,
            ),
{
    let b = bucket_size(total);
    let ghost bs = b as nat;
    let mut r: Vec<(usize, usize)> = Vec::new();
    let mut start: usize = 0;
    let mut i: usize = 0;
    while start < total && i < WAVEFORM_BARS
        invariant
            b == bucket_size_spec(total as nat),
            b >= 1,
            r.len() == i,
            i <= WAVEFORM_BARS,
            start <= total,
            start < total ==> start == i * b,
            start == total ==> total <= i * b,
            i > 0 ==> (i - 1) * b < total,
            forall|k: int|
                0 <= k < i ==> (#[trigger] r@[k].0 as nat, r@[k].1 as nat) == bucket_spec(
                    total as nat,
                    k as nat,
                ),
        decreases WAVEFORM_BARS - i,
    {
        let end = if b <= total - start {
            start + b
        } else {
            total
        };
        proof {
            assert((i + 1) * b == i * b + b) by (nonlinear_arith);
        }
        r.push((start, end));
        start = end;
        i = i + 1;
    }
    proof {
        lemma_ceil_div(total as nat, bs, i as nat);
        if i > 0 {
            lemma_ceil_div(total as nat, bs, (i - 1) as nat);
        }
    }
    r
}

// ---- laws --------------------------------------------------------------------------

/// The buckets tile the drawn samples: the first starts at 0, each begins
/// where the one before ends, none is empty, and none holds more than the
/// bucket size.
pub proof fn lemma_buckets_tile(total: nat, i: nat)
    requires
        i < bucket_count_spec(total),
    ensures
        bucket_spec(total, 0).0 == 0,
        bucket_spec(total, i).0 < bucket_spec(total, i).1,
        bucket_spec(total, i).1 - bucket_spec(total, i).0 <= bucket_size_spec(total),
        i + 1 < bucket_count_spec(total) ==> bucket_spec(total, i + 1).0 == bucket_spec(total, i).1,
{
    let b = bucket_size_spec(total);
    lemma_ceil_div(total, b, i);
    assert((i + 1) * b == i * b + b) by (nonlinear_arith);
    assert(0 * b == 0);
    if i + 1 < bucket_count_spec(total) {
        lemma_ceil_div(total, b, i + 1);
    }
}

/// A track of at least 2048 samples fills all 2048 bars, and fewer than
/// 2048 samples are left out at its end; a shorter track gets one bar per
/// sample and every sample is drawn.
pub proof fn lemma_buckets_cover(total: nat)
    requires
        total > 0,
    ensures
        total >= WAVEFORM_BARS ==> bucket_count_spec(total) == WAVEFORM_BARS,
        total >= WAVEFORM_BARS ==> total - bucket_spec(total, (WAVEFORM_BARS - 1) as nat).1 < WAVEFORM_BARS,
        total < WAVEFORM_BARS ==> bucket_count_spec(total) == total && bucket_size_spec(total) == 1,
        bucket_count_spec(total) < WAVEFORM_BARS ==> bucket_spec(total, (bucket_count_spec(total) - 1) as nat).1 == total,
{
    let b = bucket_size_spec(total);
    let w = WAVEFORM_BARS as nat;
    if total >= w {
        assert(b == total / w);
        assert(w * b <= total && total - w * b < w) by (nonlinear_arith)
            requires
                b == total / w,
                w == 2048,
        ;
        assert((w - 1) * b < total) by (nonlinear_arith)
            requires
                w * b <= total,
                b >= 1,
        ;
        lemma_ceil_div(total, b, (w - 1) as nat);
        assert(((w - 1) + 1) * b == w * b);
    } else {
        assert(total / w == 0);
        assert(b == 1);
        assert((total + b - 1) / b as int == total);
    }
    let c = bucket_count_spec(total);
    if c < w {
        lemma_ceil_div(total, b, c);
        lemma_ceil_div(total, b, (c - 1) as nat);
        assert(((c - 1) + 1) * b == c * b);
    }
}

} // verus!

//! The sliding window of speed-ratio samples and the throttling signal read
//! from it.
//!
//! A speed ratio is audio time produced per unit of wall time, in
//! thousandths: 1000 is real time. The baseline is kept as the sum of the
//! five samples that formed it, so that means are compared exactly: a window
//! of `n` samples with sum `s` lies below 60% of a baseline with sum `b`
//! when `s / n < 3/5 * b / 5`, that is when `25 * s < 3 * b * n`.

use vstd::prelude::*;

verus! {

/// Number of samples that the window holds at most, and that form the
/// baseline.
pub const WINDOW_CAPACITY: usize = 5;

/// Number of samples from which the window is judged.
pub const MIN_JUDGED_SAMPLES: usize = 3;

/// Sum of the samples of `s`.
pub open spec fn sum_of(s: Seq<u32>) -> int
    decreases s.len(),
{
    if s.len() == 0 {
        0
    } else {
        sum_of(s.drop_last()) + s.last()
    }
}

/// The window after `sample` has come in: the oldest sample leaves a full
/// window first.
pub open spec fn pushed(window: Seq<u32>, sample: u32) -> Seq<u32> {
    if window.len() >= WINDOW_CAPACITY {
        window.skip(1).push(sample)
    } else {
        window.push(sample)
    }
}

/// The baseline after the window has become `window`: it is set once, from
/// the first full window, and kept from then on.
pub open spec fn settled_baseline(baseline: Option<u64>, window: Seq<u32>) -> Option<u64> {
    if baseline is None && window.len() == WINDOW_CAPACITY {
        Some(sum_of(window) as u64)
    } else {
        baseline
    }
}

/// Whether the samples of `window` average below 60% of the baseline.
/// Without a baseline, or with fewer than three samples, they do not.
pub open spec fn throttled(baseline: Option<u64>, window: Seq<u32>) -> bool {
    match baseline {
        Some(base) => window.len() >= MIN_JUDGED_SAMPLES && 25 * sum_of(window) < 3 * base
            * window.len(),
        None => false,
    }
}

/// A sum of samples is at most as large as if every sample were the largest
/// possible one.
pub proof fn lemma_sum_bounds(s: Seq<u32>)
    ensures
        0 <= sum_of(s) <= s.len() * u32::MAX,
    decreases s.len(),
{
    if s.len() > 0 {
        lemma_sum_bounds(s.drop_last());
        assert(s.len() * u32::MAX == (s.len() - 1) * u32::MAX + u32::MAX) by (nonlinear_arith);
    }
}

/// Sum of the samples of `window`.
pub fn sum_samples(window: &Vec<u32>) -> (sum: u64)
    requires
        window@.len() <= WINDOW_CAPACITY,
    ensures
        sum == sum_of(window@),
{
    let mut sum: u64 = 0;
    let mut i: usize = 0;
    while i < window.len()
        invariant
            i <= window@.len() <= WINDOW_CAPACITY,
            sum == sum_of(window@.take(i as int)),
        decreases window.len() - i,
    {
        proof {
            lemma_sum_bounds(window@.take(i as int));
            assert(window@.take(i + 1).drop_last() =~= window@.take(i as int));
            assert(i * u32::MAX <= 5 * u32::MAX) by (nonlinear_arith)
                requires
                    i <= 5,
            ;
        }
        sum = sum + window[i] as u64;
        i += 1;
    }
    proof {
        assert(window@.take(window@.len() as int) =~= window@);
    }
    sum
}

/// Takes `sample` into the window, dropping the oldest sample of a full one.
pub fn push_sample(window: &mut Vec<u32>, sample: u32)
    requires
        old(window)@.len() <= WINDOW_CAPACITY,
    ensures
        final(window)@ == pushed(old(window)@, sample),
        final(window)@.len() <= WINDOW_CAPACITY,
{
    if window.len() >= WINDOW_CAPACITY {
        window.remove(0);
    }
    window.push(sample);
    proof {
        if old(window)@.len() >= WINDOW_CAPACITY {
            assert(old(window)@.remove(0) =~= old(window)@.skip(1));
        }
    }
}

/// Whether the samples of `window` average below 60% of the baseline whose
/// five samples sum to `baseline`.
pub fn is_throttled(baseline: Option<u64>, window: &Vec<u32>) -> (throttling: bool)
    requires
        window@.len() <= WINDOW_CAPACITY,
    ensures
        throttling == throttled(baseline, window@),
{
    match baseline {
        Some(base) => {
            if window.len() >= MIN_JUDGED_SAMPLES {
                let sum = sum_samples(window);
                let samples = window.len() as u128;
                proof {
                    lemma_sum_bounds(window@);
                    assert(3 * base * samples <= 3 * u64::MAX * 5) by (nonlinear_arith)
                        requires
                            base <= u64::MAX,
                            0 <= samples <= 5,
                    ;
                    assert(sum as int <= 5 * u32::MAX) by (nonlinear_arith)
                        requires
                            sum as int <= window@.len() * u32::MAX,
                            window@.len() <= 5,
                    ;
                }
                25 * (sum as u128) < 3 * (base as u128) * samples
            } else {
                false
            }
        },
        None => false,
    }
}

} // verus!

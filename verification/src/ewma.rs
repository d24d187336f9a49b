//! Exponential weighted moving averages over integer nanoseconds.

use vstd::prelude::*;

verus! {

/// Weight given to the newest sample in an exponential moving average, as the
/// fraction `num / den`; well-formed values lie strictly between 0 and 1.
#[derive(Clone, Copy, Debug)]
pub struct EwmaParam {
    pub num: u32,
    pub den: u32,
}

/// The next value of an exponential moving average whose newest sample has
/// weight `num / den`: `ma * (1 - num/den) + sample * (num/den)`, rounded down.
pub open spec fn ewma_next(ma: int, sample: int, num: int, den: int) -> int {
    (ma * (den - num) + sample * num) / den
}

/// A weighted average of two values within `[0, bound]` stays within `[0, bound]`.
pub proof fn lemma_ewma_next_bounds(ma: int, sample: int, num: int, den: int, bound: int)
    by (nonlinear_arith)
    requires
        0 < num < den,
        0 <= ma <= bound,
        0 <= sample <= bound,
    ensures
        0 <= (ma * (den - num) + sample * num) / den <= bound,
{
}

impl EwmaParam {
    pub open spec fn wf(&self) -> bool {
        0 < self.num < self.den
    }

    pub fn new(num: u32, den: u32) -> (r: EwmaParam)
        requires
            0 < num < den,
        ensures
            r.num == num,
            r.den == den,
            r.wf(),
    {
        EwmaParam { num, den }
    }

    /// Folds `sample` into the moving average `ma` with weight `num / den`.
    pub fn update(&self, ma: u64, sample: u64) -> (r: u64)
        requires
            self.wf(),
        ensures
            r == ewma_next(ma as int, sample as int, self.num as int, self.den as int),
    {
        let num = self.num as u128;
        let den = self.den as u128;
        let ma_wide = ma as u128;
        let sample_wide = sample as u128;
        proof {
            assert(ma_wide * (den - num) <= 0xffff_ffff_ffff_ffff * 0xffff_ffff)
                by (nonlinear_arith)
                requires
                    ma_wide <= 0xffff_ffff_ffff_ffff,
                    den - num <= 0xffff_ffff,
                    0 <= ma_wide,
                    0 < den - num,
            ;
            assert(sample_wide * num <= 0xffff_ffff_ffff_ffff * 0xffff_ffff)
                by (nonlinear_arith)
                requires
                    sample_wide <= 0xffff_ffff_ffff_ffff,
                    num <= 0xffff_ffff,
                    0 <= sample_wide,
                    0 < num,
            ;
        }
        let numerator = ma_wide * (den - num) + sample_wide * num;
        let quotient = numerator / den;
        proof {
            lemma_ewma_next_bounds(
                ma as int,
                sample as int,
                self.num as int,
                self.den as int,
                u64::MAX as int,
            );
        }
        quotient as u64
    }
}

} // verus!

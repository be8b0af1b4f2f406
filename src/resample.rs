//! The index arithmetic of linear-interpolation resampling: how many output
//! samples a conversion yields, and which two input samples (with which
//! weight) each output sample is interpolated from.

use vstd::prelude::*;

verus! {

/// `ceil(input_len * to_rate / from_rate)`: the length of the resampled
/// signal.
pub open spec fn resampled_len_spec(input_len: nat, from_rate: nat, to_rate: nat) -> nat
    recommends
        from_rate > 0,
{
    ((input_len * to_rate + from_rate - 1) / from_rate as int) as nat
}

/// Output sample `i` sits at input position `lower + frac_num / frac_den`; it
/// is interpolated between `input[lower]` and `input[upper]` with weight
/// `frac_num / frac_den` on the latter.
#[derive(Clone, Copy, Debug, PartialEq, Eq)]
pub struct InterpolationPoint {
    pub lower: usize,
    pub upper: usize,
    pub frac_num: u64,
    pub frac_den: u64,
}

/// Conversion of decoded audio to the recognizer's format. Decoding and the
/// sample arithmetic happen where the audio is read; this holds the index
/// arithmetic they follow.
pub struct AudioProcessor;

impl AudioProcessor {
    /// The number of samples a signal of `input_len` samples at `from_rate` has
    /// once resampled to `to_rate`; the length is unchanged when the rates agree.
    pub fn resampled_len(input_len: usize, from_rate: u32, to_rate: u32) -> (r: u128)
        requires
            from_rate > 0,
        ensures
            r == resampled_len_spec(input_len as nat, from_rate as nat, to_rate as nat),
            from_rate == to_rate ==> r == input_len,
    {
        assert(input_len * to_rate <= 0xffff_ffff_ffff_ffff * 0xffff_ffff) by (nonlinear_arith)
            requires
                input_len <= usize::MAX,
                usize::MAX <= 0xffff_ffff_ffff_ffff,
                to_rate <= u32::MAX,
        ;
        let num: u128 = input_len as u128 * to_rate as u128 + from_rate as u128 - 1;
        let r = num / from_rate as u128;
        proof {
            if from_rate == to_rate {
                assert((input_len * from_rate + from_rate - 1) / from_rate as int == input_len) by (nonlinear_arith)
                    requires
                        from_rate > 0,
                ;
            }
        }
        r
    }

    /// Where output sample `i` of a resampled signal falls in the input: at
    /// position `i * from_rate / to_rate`, between the sample at its floor and
    /// the next one (the last sample repeated at the end).
    pub fn interpolation_point(i: u128, input_len: usize, from_rate: u32, to_rate: u32) -> (r: InterpolationPoint)
        requires
            from_rate > 0,
            to_rate > 0,
            input_len > 0,
            i < resampled_len_spec(input_len as nat, from_rate as nat, to_rate as nat),
        ensures
            r.lower < input_len,
            r.upper < input_len,
            r.lower * to_rate + r.frac_num == i * from_rate,
            r.frac_num < r.frac_den,
            r.frac_den == to_rate,
            r.upper == if r.lower + 1 < input_len { r.lower + 1 } else { r.lower as int },
    {
        let ghost n = input_len as int;
        let ghost f = from_rate as int;
        let ghost t = to_rate as int;
        assert(i * f < n * t) by (nonlinear_arith)
            requires
                i < (n * t + f - 1) / f,
                f > 0,
        ;
        assert(input_len * to_rate <= 0xffff_ffff_ffff_ffff * 0xffff_ffff) by (nonlinear_arith)
            requires
                input_len <= usize::MAX,
                usize::MAX <= 0xffff_ffff_ffff_ffff,
                to_rate <= u32::MAX,
        ;
        let pos: u128 = i * from_rate as u128;
        let lower = pos / to_rate as u128;
        let frac = pos % to_rate as u128;
        assert(pos as int == lower * t + frac) by (nonlinear_arith)
            requires
                lower == pos as int / t,
                frac == pos as int % t,
                t > 0,
        ;
        proof {
            assert(lower < n) by (nonlinear_arith)
                requires
                    lower == (i * f) / t,
                    i * f < n * t,
                    t > 0,
            ;
        }
        let lower = lower as usize;
        let upper = if lower + 1 < input_len { lower + 1 } else { lower };
        InterpolationPoint { lower, upper, frac_num: frac as u64, frac_den: to_rate as u64 }
    }
}

} // verus!

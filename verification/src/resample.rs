//! Sample-rate conversion.
//!
//! The linear policy is implemented and verified here over exact integer
//! arithmetic: for output index `i` the source position is the rational
//! `i * from_rate / to_rate`, and the emitted sample is the linear
//! interpolation between the two neighbouring input samples, truncated
//! toward zero. The sinc policy needs floating-point filtering, so its
//! engine lives outside the library; the rate-pair bookkeeping that decides
//! when that engine must be rebuilt is the verified [`SincRates`] here.

use vstd::prelude::*;

verus! {

use vstd::arithmetic::div_mod::lemma_div_is_ordered;
use vstd::arithmetic::div_mod::lemma_fundamental_div_mod;
use vstd::arithmetic::mul::lemma_mul_inequality;
use vstd::arithmetic::mul::lemma_mul_upper_bound;

/// Which resampling policy a pipeline was configured with.
#[derive(Debug, Clone, Copy, PartialEq, Eq, Structural)]
pub enum ResampleMethod {
    Linear,
    Sinc,
}

/// Integer division truncated toward zero, for a positive divisor.
pub open spec fn div_trunc(a: int, b: int) -> int
    recommends
        b > 0,
{
    if a >= 0 {
        a / b
    } else {
        -((-a) / b)
    }
}

/// Number of samples a linear resample produces: an empty or single-sample
/// input passes through unchanged, otherwise `floor(n * to_rate / from_rate)`.
pub open spec fn linear_out_len(n: nat, from_rate: nat, to_rate: nat) -> nat
    recommends
        from_rate > 0,
{
    if n <= 1 {
        n
    } else {
        (n * to_rate) / from_rate
    }
}

/// The sample a linear resample emits at output index `i`: the interpolation
/// between the samples on either side of the rational source position
/// `i * from_rate / to_rate`, truncated toward zero; past the last pair it
/// clamps to the final input sample.
pub open spec fn linear_sample_at(s: Seq<i16>, from_rate: int, to_rate: int, i: int) -> i16
    recommends
        s.len() > 0,
        from_rate > 0,
        to_rate > 0,
        i >= 0,
{
    let pos = i * from_rate;
    let idx = pos / to_rate;
    let rem = pos % to_rate;
    if to_rate <= 0 {
        s[s.len() - 1]
    } else if idx + 1 < s.len() {
        div_trunc(s[idx] * to_rate + (s[idx + 1] - s[idx]) * rem, to_rate) as i16
    } else {
        s[s.len() - 1]
    }
}

/// The whole output of a linear resample.
pub open spec fn spec_resample_linear(s: Seq<i16>, from_rate: nat, to_rate: nat) -> Seq<i16>
    recommends
        from_rate > 0,
{
    Seq::new(
        linear_out_len(s.len(), from_rate, to_rate),
        |i: int| linear_sample_at(s, from_rate as int, to_rate as int, i),
    )
}

/// The interpolated value stays between its two anchor samples.
proof fn lemma_lerp_bounds(y0: int, y1: int, rem: int, to_rate: int)
    requires
        to_rate > 0,
        0 <= rem < to_rate,
    ensures
        y0 <= y1 ==> y0 <= div_trunc(y0 * to_rate + (y1 - y0) * rem, to_rate) <= y1,
        y1 <= y0 ==> y1 <= div_trunc(y0 * to_rate + (y1 - y0) * rem, to_rate) <= y0,
{
    let num = y0 * to_rate + (y1 - y0) * rem;
    if y0 <= y1 {
        assert(y0 * to_rate <= num <= y1 * to_rate) by (nonlinear_arith)
            requires
                to_rate > 0,
                0 <= rem < to_rate,
                y0 <= y1,
                num == y0 * to_rate + (y1 - y0) * rem,
        ;
        assert(y0 <= div_trunc(num, to_rate) <= y1) by (nonlinear_arith)
            requires
                to_rate > 0,
                y0 * to_rate <= num <= y1 * to_rate,
        ;
    } else {
        assert(y1 * to_rate <= num <= y0 * to_rate) by (nonlinear_arith)
            requires
                to_rate > 0,
                0 <= rem < to_rate,
                y1 <= y0,
                num == y0 * to_rate + (y1 - y0) * rem,
        ;
        assert(y1 <= div_trunc(num, to_rate) <= y0) by (nonlinear_arith)
            requires
                to_rate > 0,
                y1 * to_rate <= num <= y0 * to_rate,
        ;
    }
}

/// Linear-interpolation resampling: deterministic, stateless, exact integer
/// arithmetic.
pub fn resample_linear(input: &Vec<i16>, from_rate: u32, to_rate: u32) -> (r: Vec<i16>)
    requires
        from_rate > 0,
        linear_out_len(input@.len(), from_rate as nat, to_rate as nat) <= usize::MAX,
    ensures
        r@ == spec_resample_linear(input@, from_rate as nat, to_rate as nat),
{
    let n = input.len();
    let mut out: Vec<i16> = Vec::new();
    if n == 0 {
        assert(out@ =~= spec_resample_linear(input@, from_rate as nat, to_rate as nat));
        return out;
    }
    if n == 1 {
        out.push(input[0]);
        assert(out@ =~= spec_resample_linear(input@, from_rate as nat, to_rate as nat));
        return out;
    }
    proof {
        lemma_mul_upper_bound(n as int, usize::MAX as int, to_rate as int, u32::MAX as int);
    }
    let out_len_wide: u128 = (n as u128) * (to_rate as u128) / (from_rate as u128);
    assert(out_len_wide == linear_out_len(n as nat, from_rate as nat, to_rate as nat));
    let out_len: usize = out_len_wide as usize;
    let mut i: usize = 0;
    while i < out_len
        invariant
            2 <= n == input@.len(),
            from_rate > 0,
            out_len == linear_out_len(n as nat, from_rate as nat, to_rate as nat),
            i <= out_len,
            out@.len() == i,
            forall|j: int|
                0 <= j < i ==> out@[j] == linear_sample_at(
                    input@,
                    from_rate as int,
                    to_rate as int,
                    j,
                ),
        decreases out_len - i,
    {
        proof {
            // i < out_len == (n * to) / from forces to_rate > 0 and keeps the
            // source index inside the input.
            if to_rate == 0 {
                assert((n * 0) / (from_rate as int) == 0);
            }
            let q = (n * to_rate) / (from_rate as int);
            lemma_fundamental_div_mod(n * to_rate, from_rate as int);
            lemma_mul_inequality(i as int, q - 1, from_rate as int);
            assert(i * from_rate <= (q - 1) * from_rate);
            assert((q - 1) * from_rate == q * from_rate - from_rate) by (nonlinear_arith);
            assert(q * from_rate <= n * to_rate) by (nonlinear_arith)
                requires
                    n * to_rate == (from_rate as int) * q + (n * to_rate) % (from_rate as int),
                    (n * to_rate) % (from_rate as int) >= 0,
            ;
            assert(i * from_rate < n * to_rate);
        }
        proof {
            lemma_mul_upper_bound(i as int, usize::MAX as int, from_rate as int, u32::MAX as int);
        }
        let pos: u128 = (i as u128) * (from_rate as u128);
        let idx_wide: u128 = pos / (to_rate as u128);
        let rem: u128 = pos % (to_rate as u128);
        proof {
            lemma_div_is_ordered(pos as int, n * to_rate - 1, to_rate as int);
            assert((n * to_rate - 1) / (to_rate as int) == n - 1) by (nonlinear_arith)
                requires
                    to_rate > 0,
                    n >= 1,
            ;
        }
        let idx: usize = idx_wide as usize;
        let sample: i16 = if idx + 1 < n {
            let y0: i128 = input[idx] as i128;
            let y1: i128 = input[idx + 1] as i128;
            proof {
                assert(-140737488355328 <= y0 * (to_rate as int) <= 140737488355328) by (nonlinear_arith)
                    requires
                        -32768 <= y0 <= 32767,
                        0 <= (to_rate as int) <= 4294967295,
                ;
                assert(-281474976710656 <= (y1 - y0) * (rem as int) <= 281474976710656)
                    by (nonlinear_arith)
                    requires
                        -65535 <= y1 - y0 <= 65535,
                        0 <= (rem as int) <= 4294967295,
                ;
            }
            let num: i128 = y0 * (to_rate as i128) + (y1 - y0) * (rem as i128);
            let v: i128 = if num >= 0 {
                ((num as u128) / (to_rate as u128)) as i128
            } else {
                -((((-num) as u128) / (to_rate as u128)) as i128)
            };
            proof {
                assert(v == div_trunc(
                    input@[idx as int] * to_rate + (input@[idx as int + 1] - input@[idx as int])
                        * (pos as int % to_rate as int),
                    to_rate as int,
                ));
                lemma_lerp_bounds(
                    input@[idx as int] as int,
                    input@[idx as int + 1] as int,
                    pos as int % to_rate as int,
                    to_rate as int,
                );
            }
            v as i16
        } else {
            input[n - 1]
        };
        assert(sample == linear_sample_at(input@, from_rate as int, to_rate as int, i as int));
        out.push(sample);
        i += 1;
    }
    assert(out@ =~= spec_resample_linear(input@, from_rate as nat, to_rate as nat));
    out
}

/// Resampling entry point. Equal rates pass the input through unchanged;
/// differing rates run the linear policy.
pub fn resample(input: &Vec<i16>, from_rate: u32, to_rate: u32) -> (r: Vec<i16>)
    requires
        from_rate == to_rate || from_rate > 0,
        from_rate != to_rate ==> linear_out_len(input@.len(), from_rate as nat, to_rate as nat)
            <= usize::MAX,
    ensures
        from_rate == to_rate ==> r@ == input@,
        from_rate != to_rate ==> r@ == spec_resample_linear(
            input@,
            from_rate as nat,
            to_rate as nat,
        ),
{
    if from_rate == to_rate {
        let mut copy: Vec<i16> = Vec::new();
        let mut i: usize = 0;
        while i < input.len()
            invariant
                i <= input@.len(),
                copy@ == input@.subrange(0, i as int),
            decreases input@.len() - i,
        {
            copy.push(input[i]);
            assert(copy@ =~= input@.subrange(0, i + 1));
            i += 1;
        }
        assert(copy@ =~= input@);
        copy
    } else {
        resample_linear(input, from_rate, to_rate)
    }
}

/// The rate pair a stateful sinc engine was last built for. The engine
/// itself does floating-point filtering outside the library; this component
/// makes the decision the design calls for: rebuild exactly when the
/// `(from_rate, to_rate)` pair changes or on first use.
pub struct SincRates {
    pub configured: Option<(u32, u32)>,
}

impl SincRates {
    /// A controller that has not configured an engine yet.
    pub fn new() -> (r: SincRates)
        ensures
            r.configured.is_none(),
    {
        SincRates { configured: None }
    }

    /// The rate pair the engine currently in use was built for, if any.
    pub fn current(&self) -> (r: Option<(u32, u32)>)
        ensures
            r == self.configured,
    {
        self.configured
    }

    /// True exactly when the engine must be (re)built before processing at
    /// the given rate pair: on first use or whenever the pair changed.
    pub fn needs_reset(&self, from_rate: u32, to_rate: u32) -> (r: bool)
        ensures
            r == (self.configured != Some((from_rate, to_rate))),
    {
        match self.configured {
            None => true,
            Some((f, t)) => f != from_rate || t != to_rate,
        }
    }

    /// Record that the engine was rebuilt for the given rate pair.
    pub fn reset(&mut self, from_rate: u32, to_rate: u32)
        ensures
            final(self).configured == Some((from_rate, to_rate)),
    {
        self.configured = Some((from_rate, to_rate));
    }
}

/// Equal rates leave any input unchanged, whatever the rate.
pub proof fn lemma_resample_identity(s: Seq<i16>, rate: nat)
    ensures
        rate > 0 ==> spec_resample_linear(s, rate, rate) == s,
{
    if rate > 0 {
        assert(linear_out_len(s.len(), rate, rate) == s.len()) by {
            if s.len() > 1 {
                lemma_div_multiples_vanish_helper(s.len() as int, rate as int);
            }
        }
        assert forall|i: int| 0 <= i < s.len() implies linear_sample_at(
            s,
            rate as int,
            rate as int,
            i,
        ) == s[i] by {
            let pos = i * (rate as int);
            assert(pos / (rate as int) == i && pos % (rate as int) == 0) by (nonlinear_arith)
                requires
                    rate > 0,
                    pos == i * (rate as int),
                    i >= 0,
            ;
            if i + 1 < s.len() {
                assert(div_trunc(s[i] * rate, rate as int) == s[i]) by (nonlinear_arith)
                    requires
                        rate > 0,
                ;
            }
        }
        assert(spec_resample_linear(s, rate, rate) =~= s);
    }
}

proof fn lemma_div_multiples_vanish_helper(n: int, d: int)
    requires
        n >= 0,
        d > 0,
    ensures
        (n * d) / d == n,
{
    assert((n * d) / d == n) by (nonlinear_arith)
        requires
            n >= 0,
            d > 0,
    ;
}

/// An input of at least two samples resamples to exactly
/// `floor(n * to_rate / from_rate)` samples; the result depends on the
/// input alone, so repeated calls agree.
pub proof fn lemma_linear_output_length(s: Seq<i16>, from_rate: nat, to_rate: nat)
    requires
        from_rate > 0,
        s.len() != 1,
    ensures
        spec_resample_linear(s, from_rate, to_rate).len() == (s.len() * to_rate) / from_rate,
{
    if s.len() == 0 {
        assert((0int * to_rate as int) / (from_rate as int) == 0);
    }
}

} // verus!

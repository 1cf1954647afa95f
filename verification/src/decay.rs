//! Exact decay schedules for the echo effect.
//!
//! Tap `i` (1-indexed, `1..=num_echoes`) of an echo is weighted by a
//! decay coefficient drawn from the chosen schedule:
//!
//! - linear: `start - i / (num_echoes + 1)`
//! - exponential: `start * (1 - 2 / (num_echoes + 2))^i`,
//!   which equals `start * num_echoes^i / (num_echoes + 2)^i`.
//!
//! The coefficients are computed here as exact rationals, so the
//! contracts can state each one precisely.  The embedding that mixes the
//! taps is free to lower them to its numeric sample type.

use vstd::arithmetic::div_mod::lemma_fundamental_div_mod;
use vstd::arithmetic::div_mod::lemma_mod_bound;
use vstd::arithmetic::power::lemma_pow0;
use vstd::arithmetic::power::lemma_pow1;
use vstd::arithmetic::power::lemma_pow_adds;
use vstd::arithmetic::power::lemma_pow_increases;
use vstd::arithmetic::power::lemma_pow_positive;
use vstd::arithmetic::power::pow;
use vstd::prelude::*;

use crate::echo::DecayType;

verus! {

/// Largest denominator a starting coefficient may carry: it keeps every
/// product taken while building a linear schedule inside 128-bit
/// arithmetic.
pub const MAX_START_DEN: i128 = 1_000_000_000_000_000_000;

/// An exact rational number `num / den`, with `den > 0` when well formed.
#[derive(Clone, Copy, Debug, PartialEq, Eq, Structural)]
pub struct Ratio {
    pub num: i128,
    pub den: i128,
}

impl Ratio {
    /// The denominator is positive.
    pub open spec fn wf(self) -> bool {
        self.den > 0
    }
}

/// Numerator of tap `i`'s decay coefficient, over the denominator
/// [`schedule_den`], when the schedule starts at `start` and the echo has
/// `num_echoes` taps.
pub open spec fn schedule_num(
    decay_type: DecayType,
    start: Ratio,
    i: int,
    num_echoes: int,
) -> int {
    match decay_type {
        DecayType::Linear => start.num * (num_echoes + 1) - i * start.den,
        DecayType::Exponential => start.num * pow(num_echoes, i as nat),
    }
}

/// Denominator of tap `i`'s decay coefficient; see [`schedule_num`].
pub open spec fn schedule_den(
    decay_type: DecayType,
    start: Ratio,
    i: int,
    num_echoes: int,
) -> int {
    match decay_type {
        DecayType::Linear => start.den * (num_echoes + 1),
        DecayType::Exponential => start.den * pow(num_echoes + 2, i as nat),
    }
}

/// Tap `i`'s coefficient under the linear schedule: exactly
/// `start - i / (num_echoes + 1)`.
pub fn linear_coef(start: Ratio, i: u8, num_echoes: u8) -> (r: Ratio)
    requires
        start.wf(),
        0 <= start.num <= start.den,
        start.den <= MAX_START_DEN,
        1 <= i <= num_echoes,
    ensures
        r.wf(),
        r.num == schedule_num(DecayType::Linear, start, i as int, num_echoes as int),
        r.den == schedule_den(DecayType::Linear, start, i as int, num_echoes as int),
{
    let n1: i128 = num_echoes as i128 + 1;
    proof {
        assert(0 <= start.num * n1 <= MAX_START_DEN * 256) by (nonlinear_arith)
            requires
                0 <= start.num <= MAX_START_DEN,
                0 < n1 <= 256,
        ;
        assert(0 <= (i as i128) * start.den <= 255 * MAX_START_DEN) by (nonlinear_arith)
            requires
                0 < start.den <= MAX_START_DEN,
                0 <= i as i128 <= 255,
        ;
        assert(0 < start.den * n1 <= MAX_START_DEN * 256) by (nonlinear_arith)
            requires
                0 < start.den <= MAX_START_DEN,
                0 < n1 <= 256,
        ;
    }
    let num = start.num * n1 - (i as i128) * start.den;
    let den = start.den * n1;
    Ratio { num, den }
}

/// Tap `i`'s coefficient under the exponential schedule: exactly
/// `start * num_echoes^i / (num_echoes + 2)^i`.  Returns `None` exactly
/// when the coefficient's denominator no longer fits 128-bit arithmetic.
pub fn exponential_coef(start: Ratio, i: u8, num_echoes: u8) -> (r: Option<Ratio>)
    requires
        start.wf(),
        0 <= start.num <= start.den,
        1 <= i <= num_echoes,
    ensures
        match r {
            Some(c) => {
                &&& c.wf()
                &&& 0 <= c.num <= c.den
                &&& c.num == schedule_num(DecayType::Exponential, start, i as int, num_echoes as int)
                &&& c.den == schedule_den(DecayType::Exponential, start, i as int, num_echoes as int)
            },
            None => schedule_den(DecayType::Exponential, start, i as int, num_echoes as int)
                > i128::MAX,
        },
{
    let b_num: i128 = num_echoes as i128;
    let b_den: i128 = num_echoes as i128 + 2;
    let mut num: i128 = start.num;
    let mut den: i128 = start.den;
    let mut j: u8 = 0;
    proof {
        lemma_pow0(b_num as int);
        lemma_pow0(b_den as int);
    }
    while j < i
        invariant
            start.wf(),
            0 <= start.num <= start.den,
            1 <= i <= num_echoes,
            b_num == num_echoes as i128,
            b_den == num_echoes as i128 + 2,
            0 <= j <= i,
            num == start.num * pow(b_num as int, j as nat),
            den == start.den * pow(b_den as int, j as nat),
            0 <= num <= den,
            0 < den,
        decreases i - j,
    {
        let limit = i128::MAX / b_den;
        if den > limit {
            proof {
                let q = i128::MAX as int / b_den as int;
                lemma_fundamental_div_mod(i128::MAX as int, b_den as int);
                lemma_mod_bound(i128::MAX as int, b_den as int);
                assert(den * b_den > i128::MAX) by (nonlinear_arith)
                    requires
                        den >= q + 1,
                        i128::MAX as int == (b_den as int) * q + (i128::MAX as int % (
                        b_den as int)),
                        i128::MAX as int % (b_den as int) < b_den as int,
                        b_den > 0,
                ;
                lemma_pow_positive(b_den as int, (i - j - 1) as nat);
                lemma_pow1(b_den as int);
                lemma_pow_adds(b_den as int, 1nat, (i - j - 1) as nat);
                assert(pow(b_den as int, (i - j) as nat) >= b_den as int) by (nonlinear_arith)
                    requires
                        pow(b_den as int, (i - j) as nat) == (b_den as int) * pow(
                            b_den as int,
                            (i - j - 1) as nat,
                        ),
                        pow(b_den as int, (i - j - 1) as nat) >= 1,
                        b_den >= 2,
                ;
                lemma_pow_adds(b_den as int, j as nat, (i - j) as nat);
                assert(start.den * pow(b_den as int, i as nat) >= den * (b_den as int))
                    by (nonlinear_arith)
                    requires
                        pow(b_den as int, i as nat) == pow(b_den as int, j as nat) * pow(
                            b_den as int,
                            (i - j) as nat,
                        ),
                        den == start.den * pow(b_den as int, j as nat),
                        den > 0,
                        start.den > 0,
                        pow(b_den as int, (i - j) as nat) >= b_den as int,
                ;
            }
            return None;
        }
        proof {
            let q = i128::MAX as int / b_den as int;
            lemma_fundamental_div_mod(i128::MAX as int, b_den as int);
            lemma_mod_bound(i128::MAX as int, b_den as int);
            assert(den * b_den <= i128::MAX) by (nonlinear_arith)
                requires
                    0 < den <= q,
                    i128::MAX as int == (b_den as int) * q + (i128::MAX as int % (b_den as int)),
                    i128::MAX as int % (b_den as int) >= 0,
                    b_den > 0,
            ;
            assert(0 <= num * b_num <= den * b_den) by (nonlinear_arith)
                requires
                    0 <= num <= den,
                    0 <= b_num < b_den,
            ;
            assert(0 < den * b_den) by (nonlinear_arith)
                requires
                    0 < den,
                    0 < b_den,
            ;
            lemma_pow1(b_num as int);
            lemma_pow1(b_den as int);
            lemma_pow_adds(b_num as int, 1nat, j as nat);
            lemma_pow_adds(b_den as int, 1nat, j as nat);
            assert(num * b_num == start.num * pow(b_num as int, (j + 1) as nat))
                by (nonlinear_arith)
                requires
                    num == start.num * pow(b_num as int, j as nat),
                    pow(b_num as int, (j + 1) as nat) == (b_num as int) * pow(
                        b_num as int,
                        j as nat,
                    ),
            ;
            assert(den * b_den == start.den * pow(b_den as int, (j + 1) as nat))
                by (nonlinear_arith)
                requires
                    den == start.den * pow(b_den as int, j as nat),
                    pow(b_den as int, (j + 1) as nat) == (b_den as int) * pow(
                        b_den as int,
                        j as nat,
                    ),
            ;
        }
        num = num * b_num;
        den = den * b_den;
        j = j + 1;
    }
    Some(Ratio { num, den })
}

/// The whole decay table of an echo: coefficient of tap `i` at index
/// `i - 1`, for `i` in `1..=num_echoes`.  The table is always built for
/// the linear schedule; for the exponential schedule it is built exactly
/// when the last (largest-denominator) coefficient fits 128-bit
/// arithmetic.
pub fn decay_table(decay_type: DecayType, start: Ratio, num_echoes: u8) -> (r: Option<
    Vec<Ratio>,
>)
    requires
        start.wf(),
        0 <= start.num <= start.den,
        start.den <= MAX_START_DEN,
    ensures
        match r {
            Some(v) => {
                &&& v@.len() == num_echoes as int
                &&& forall|k: int|
                    0 <= k < num_echoes as int ==> {
                        &&& (#[trigger] v@[k]).wf()
                        &&& v@[k].num == schedule_num(decay_type, start, k + 1, num_echoes as int)
                        &&& v@[k].den == schedule_den(decay_type, start, k + 1, num_echoes as int)
                    }
            },
            None => {
                &&& decay_type == DecayType::Exponential
                &&& num_echoes > 0
                &&& schedule_den(decay_type, start, num_echoes as int, num_echoes as int)
                    > i128::MAX
            },
        },
        decay_type == DecayType::Linear ==> r is Some,
{
    let mut table: Vec<Ratio> = Vec::new();
    let mut i: u8 = 0;
    while i < num_echoes
        invariant
            start.wf(),
            0 <= start.num <= start.den,
            start.den <= MAX_START_DEN,
            0 <= i <= num_echoes,
            table@.len() == i as int,
            forall|k: int|
                0 <= k < i as int ==> {
                    &&& (#[trigger] table@[k]).wf()
                    &&& table@[k].num == schedule_num(decay_type, start, k + 1, num_echoes as int)
                    &&& table@[k].den == schedule_den(decay_type, start, k + 1, num_echoes as int)
                },
        decreases num_echoes - i,
    {
        let coef = match decay_type {
            DecayType::Linear => linear_coef(start, i + 1, num_echoes),
            DecayType::Exponential => {
                match exponential_coef(start, i + 1, num_echoes) {
                    Some(c) => c,
                    None => {
                        proof {
                            let b = num_echoes as int + 2;
                            lemma_pow_increases(b as nat, (i + 1) as nat, num_echoes as nat);
                            assert(start.den * pow(b, num_echoes as nat) >= start.den * pow(
                                b,
                                (i + 1) as nat,
                            )) by (nonlinear_arith)
                                requires
                                    start.den > 0,
                                    pow(b, num_echoes as nat) >= pow(b, (i + 1) as nat),
                            ;
                        }
                        return None;
                    },
                }
            },
        };
        table.push(coef);
        i = i + 1;
    }
    Some(table)
}

} // verus!

//! Exact rounding of JSON numbers. A number is rounded at a given count of
//! fractional digits: scaled by `10^decimals`, rounded to an integer, and
//! scaled back. With zero decimals the result is an unsigned integer value
//! (negatives clamp to zero, overflow to the largest value); otherwise it is
//! a decimal value with exponent `-decimals`.

use vstd::prelude::*;

use crate::value::Number;

verus! {

/// Powers of ten.
pub open spec fn pow10(k: int) -> int
    decreases k,
{
    if k <= 0 {
        1
    } else {
        10 * pow10(k - 1)
    }
}

/// The rounding operations: to the nearest integer with ties away from zero,
/// toward negative infinity, and toward positive infinity.
#[derive(Clone, Copy, Debug, PartialEq, Eq, Structural)]
pub enum RoundMode {
    Nearest,
    Floor,
    Ceil,
}

/// Whether the number is negative, on its decimal form.
pub open spec fn num_neg(n: Number) -> bool {
    match n {
        Number::Int(i) => i < 0,
        Number::UInt(_) => false,
        Number::Dec { neg, .. } => neg,
    }
}

/// The magnitude digits of the number's decimal form.
pub open spec fn num_mantissa(n: Number) -> int {
    match n {
        Number::Int(i) => if i < 0 {
            -(i as int)
        } else {
            i as int
        },
        Number::UInt(u) => u as int,
        Number::Dec { mantissa, .. } => mantissa as int,
    }
}

/// The ten's exponent of the number's decimal form.
pub open spec fn num_exp(n: Number) -> int {
    match n {
        Number::Int(_) => 0,
        Number::UInt(_) => 0,
        Number::Dec { exp10, .. } => exp10 as int,
    }
}

/// `m / 10^k` rounded to an integer by `mode`; `neg` says that `m` is the
/// magnitude of a negative number, which turns the direction of `Floor` and
/// `Ceil` around.
pub open spec fn rounded_div(mode: RoundMode, neg: bool, m: int, k: int) -> int {
    let p = pow10(k);
    let q = m / p;
    let r = m % p;
    match mode {
        RoundMode::Nearest => q + if 2 * r >= p {
            1int
        } else {
            0int
        },
        RoundMode::Floor => if neg && r > 0 {
            q + 1
        } else {
            q
        },
        RoundMode::Ceil => if !neg && r > 0 {
            q + 1
        } else {
            q
        },
    }
}

/// A rounded magnitude clamped into an unsigned 64-bit value: a negative
/// number clamps to zero, a too-large one to the largest value.
pub open spec fn sat_u64(neg: bool, v: int) -> u64 {
    if neg {
        0u64
    } else if v > u64::MAX as int {
        u64::MAX
    } else if v < 0 {
        0u64
    } else {
        v as u64
    }
}

/// The number `n` rounded by `mode` at `decimals` fractional digits.
pub open spec fn round_spec(mode: RoundMode, decimals: u32, n: Number) -> Number {
    let neg = num_neg(n);
    let m = num_mantissa(n);
    let e = num_exp(n);
    if e + decimals >= 0 {
        if decimals == 0 {
            Number::UInt(sat_u64(neg, m * pow10(e)))
        } else {
            Number::Dec { neg, mantissa: m as u64, exp10: e as i64 }
        }
    } else {
        let rm = rounded_div(mode, neg, m, -(e + decimals));
        if decimals == 0 {
            Number::UInt(sat_u64(neg, rm))
        } else {
            Number::Dec { neg, mantissa: rm as u64, exp10: -(decimals as int) as i64 }
        }
    }
}

proof fn lemma_pow10_pos(k: int)
    ensures
        pow10(k) >= 1,
    decreases
            if k <= 0 {
                0int
            } else {
                k
            },
{
    if k > 0 {
        lemma_pow10_pos(k - 1);
    }
}

proof fn lemma_pow10_increases(a: int, b: int)
    requires
        a <= b,
    ensures
        pow10(a) <= pow10(b),
    decreases
            if b <= 0 {
                0int
            } else {
                b
            },
{
    lemma_pow10_pos(a);
    if a < b && b > 0 {
        lemma_pow10_increases(a, b - 1);
        lemma_pow10_pos(b - 1);
    }
}

proof fn lemma_pow10_20()
    ensures
        pow10(20) == 0x56bc75e2d63100000,
        pow10(19) == 0x8ac7230489e80000,
{
    reveal_with_fuel(pow10, 21);
}

/// Dividing by any power of ten past the digits of `m` rounds the same way
/// as dividing by the twentieth: both leave quotient zero and remainder `m`.
proof fn lemma_rounded_div_capped(mode: RoundMode, neg: bool, m: int, k: int)
    requires
        0 <= m <= u64::MAX,
        k >= 20,
    ensures
        rounded_div(mode, neg, m, k) == rounded_div(mode, neg, m, 20),
{
    lemma_pow10_20();
    lemma_pow10_increases(20, k);
    let p = pow10(k);
    let p20 = pow10(20);
    assert(m < p20 <= p);
    assert(m / p == 0 && m % p == m) by (nonlinear_arith)
        requires
            0 <= m < p,
    ;
    assert(m / p20 == 0 && m % p20 == m) by (nonlinear_arith)
        requires
            0 <= m < p20,
    ;
    assert(2 * m < p20);
}

#[verifier::loop_isolation(false)]
fn pow10_u128(k: u32) -> (p: u128)
    requires
        k <= 20,
    ensures
        p == pow10(k as int),
{
    proof {
        lemma_pow10_20();
    }
    let mut p: u128 = 1;
    let mut j: u32 = 0;
    while j < k
        invariant
            j <= k,
            k <= 20,
            p == pow10(j as int),
        decreases k - j,
    {
        proof {
            lemma_pow10_20();
            lemma_pow10_increases(j as int + 1, 20);
            lemma_pow10_pos(j as int);
        }
        p = p * 10;
        j += 1;
    }
    p
}

/// The number `n` rounded by `mode` at `decimals` fractional digits, exactly
/// on the decimal form; no floating point is involved.
#[verifier::rlimit(60)]
#[verifier::spinoff_prover]
pub fn round_number(mode: RoundMode, decimals: u32, n: &Number) -> (r: Number)
    ensures
        r == round_spec(mode, decimals, *n),
{
    let (neg, m): (bool, u64) = match n {
        Number::Int(i) => if *i < 0 {
            (true, (-(*i as i128)) as u64)
        } else {
            (false, *i as u64)
        },
        Number::UInt(u) => (false, *u),
        Number::Dec { neg, mantissa, .. } => (*neg, *mantissa),
    };
    let e: i64 = match n {
        Number::Dec { exp10, .. } => *exp10,
        _ => 0,
    };
    proof {
        assert(neg == num_neg(*n));
        assert(m as int == num_mantissa(*n));
        assert(e as int == num_exp(*n));
    }
    let ghost goal = round_spec(mode, decimals, *n);
    let scale: i128 = e as i128 + decimals as i128;
    if scale >= 0 {
        if decimals == 0 {
            // here e >= 0: the value is m * 10^e, an integer
            if neg || m == 0 {
                proof {
                    if !neg {
                        lemma_pow10_pos(e as int);
                    }
                }
                proof {
                    assert(goal == Number::UInt(0u64));
                }
                Number::UInt(0)
            } else if e >= 20 {
                proof {
                    lemma_pow10_20();
                    lemma_pow10_increases(20, e as int);
                    assert(m * pow10(e as int) > u64::MAX as int) by (nonlinear_arith)
                        requires
                            m >= 1,
                            pow10(e as int) >= 0x56bc75e2d63100000,
                    ;
                }
                proof {
                    assert(goal == Number::UInt(u64::MAX));
                }
                Number::UInt(u64::MAX)
            } else {
                let p = pow10_u128(e as u32);
                proof {
                    lemma_pow10_20();
                    lemma_pow10_increases(e as int, 19);
                    lemma_pow10_pos(e as int);
                    assert(m as u128 * p <= u64::MAX as u128 * 0x8ac7230489e80000u128)
                        by (nonlinear_arith)
                        requires
                            m as u128 <= u64::MAX as u128,
                            0 <= p <= 0x8ac7230489e80000u128,
                    ;
                }
                let prod: u128 = m as u128 * p;
                if prod > u64::MAX as u128 {
                    proof {
                        assert(goal == Number::UInt(u64::MAX));
                    }
                    Number::UInt(u64::MAX)
                } else {
                    proof {
                        assert(goal == Number::UInt(prod as u64));
                    }
                    Number::UInt(prod as u64)
                }
            }
        } else {
            proof {
                assert(goal == (Number::Dec { neg, mantissa: m, exp10: e }));
            }
            Number::Dec { neg, mantissa: m, exp10: e }
        }
    } else {
        // scale < 0: k = -(e + decimals) fractional digits must go
        let kwide: i128 = -scale;
        let k: u32 = if kwide >= 20 {
            20
        } else {
            kwide as u32
        };
        proof {
            if kwide >= 20 {
                lemma_rounded_div_capped(mode, neg, m as int, kwide as int);
            }
            lemma_pow10_20();
            lemma_pow10_pos(k as int);
            lemma_pow10_increases(1, k as int);
            lemma_pow10_increases(k as int, 20);
        }
        let p: u128 = pow10_u128(k);
        let m128: u128 = m as u128;
        let q: u128 = m128 / p;
        let r: u128 = m128 % p;
        proof {
            assert(q <= m128 / 10) by (nonlinear_arith)
                requires
                    p >= 10,
                    q == m128 / p,
            ;
        }
        let up: bool = match mode {
            RoundMode::Nearest => 2 * r >= p,
            RoundMode::Floor => neg && r > 0,
            RoundMode::Ceil => !neg && r > 0,
        };
        let rm: u64 = if up {
            (q + 1) as u64
        } else {
            q as u64
        };
        proof {
            assert(rm as int == rounded_div(mode, neg, m as int, k as int));
        }
        if decimals == 0 {
            if neg {
                proof {
                    assert(goal == Number::UInt(0u64));
                }
                Number::UInt(0)
            } else {
                proof {
                    assert(goal == Number::UInt(rm));
                }
                Number::UInt(rm)
            }
        } else {
            proof {
                assert(goal == (Number::Dec { neg, mantissa: rm, exp10: (-(decimals as int)) as i64 }));
            }
            Number::Dec { neg, mantissa: rm, exp10: -(decimals as i64) }
        }
    }
}

} // verus!

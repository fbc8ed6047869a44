//! Exact integer arithmetic. A result that does not fit in an `i64`, or that
//! is not an integer at all, is an [`Error::Inexact`](crate::errors::Error).
use vstd::arithmetic::power::pow;
use vstd::prelude::*;

verus! {

pub open spec fn in_i64(n: int) -> bool {
    i64::MIN <= n <= i64::MAX
}

/// The quotient of `x` by `d` (non-zero), rounded toward zero.
pub open spec fn trunc_div(x: int, d: int) -> int {
    if x == 0 {
        0
    } else if x > 0 && d > 0 {
        x / d
    } else if x < 0 && d < 0 {
        (x * -1) / (d * -1)
    } else if x < 0 {
        ((x * -1) / d) * -1
    } else {
        (x / (d * -1)) * -1
    }
}

/// The remainder of `x` by `d` (non-zero) that has the sign of `x`.
pub open spec fn trunc_rem(x: int, d: int) -> int {
    if x == 0 {
        0
    } else if x > 0 && d > 0 {
        x % d
    } else if x < 0 && d < 0 {
        ((x * -1) % (d * -1)) * -1
    } else if x < 0 {
        ((x * -1) % d) * -1
    } else {
        x % (d * -1)
    }
}

/// `a / b` when it is an exact integer.
pub open spec fn div_spec(a: int, b: int) -> Option<int> {
    if b != 0 && !(a == i64::MIN && b == -1) && trunc_rem(a, b) == 0 {
        Some(trunc_div(a, b))
    } else {
        None
    }
}

/// The remainder of `a` by `b`, when it is defined for `i64`.
pub open spec fn rem_spec(a: int, b: int) -> Option<int> {
    if b == 0 || (a == i64::MIN && b == -1) {
        None
    } else {
        Some(trunc_rem(a, b))
    }
}

/// `a` raised to the power `e`, when that fits in an `i64`.
pub open spec fn pow_spec(a: int, e: nat) -> Option<int> {
    if in_i64(pow(a, e)) {
        Some(pow(a, e))
    } else {
        None
    }
}

pub fn checked_add(a: i64, b: i64) -> (r: Option<i64>)
    ensures
        match r {
            Some(x) => x == a + b,
            None => !in_i64(a + b),
        },
{
    a.checked_add(b)
}

pub fn checked_sub(a: i64, b: i64) -> (r: Option<i64>)
    ensures
        match r {
            Some(x) => x == a - b,
            None => !in_i64(a - b),
        },
{
    a.checked_sub(b)
}

pub fn checked_mul(a: i64, b: i64) -> (r: Option<i64>)
    ensures
        match r {
            Some(x) => x == a * b,
            None => !in_i64(a * b),
        },
{
    a.checked_mul(b)
}

proof fn lemma_trunc_div_bounds(x: int, d: int)
    requires
        d != 0,
        in_i64(x),
        in_i64(d),
        !(x == i64::MIN && d == -1),
    ensures
        in_i64(trunc_div(x, d)),
{
    if x > 0 && d > 0 {
        assert(0 <= x / d <= x) by (nonlinear_arith)
            requires x > 0 && d > 0;
    } else if x < 0 && d < 0 {
        assert(0 <= (x * -1) / (d * -1) <= x * -1) by (nonlinear_arith)
            requires x < 0 && d < 0;
        if d == -1 {
            assert(x > i64::MIN);
        } else {
            assert((x * -1) / (d * -1) <= (x * -1) / 2) by (nonlinear_arith)
                requires x < 0 && d < -1;
        }
    } else if x < 0 {
        assert(0 <= (x * -1) / d <= x * -1) by (nonlinear_arith)
            requires x < 0 && d > 0;
    } else if x > 0 {
        assert(0 <= x / (d * -1) <= x) by (nonlinear_arith)
            requires x > 0 && d < 0;
    }
}

pub fn checked_div(a: i64, b: i64) -> (r: Option<i64>)
    ensures
        match r {
            Some(x) => div_spec(a as int, b as int) == Some(x as int),
            None => div_spec(a as int, b as int) is None,
        },
{
    match a.checked_rem(b) {
        Some(0) => match a.checked_div(b) {
            Some(q) => Some(q),
            None => {
                proof {
                    lemma_trunc_div_bounds(a as int, b as int);
                }
                None
            },
        },
        _ => None,
    }
}

pub fn checked_rem(a: i64, b: i64) -> (r: Option<i64>)
    ensures
        match r {
            Some(x) => rem_spec(a as int, b as int) == Some(x as int),
            None => rem_spec(a as int, b as int) is None,
        },
{
    a.checked_rem(b)
}

pub fn checked_abs(a: i64) -> (r: Option<i64>)
    ensures
        match r {
            Some(x) => x == (if a < 0 { -a } else { a as int }),
            None => a == i64::MIN,
        },
{
    if a == i64::MIN {
        None
    } else if a < 0 {
        Some(-a)
    } else {
        Some(a)
    }
}

proof fn lemma_pow_one(e: nat)
    ensures
        pow(1, e) == 1,
    decreases e,
{
    reveal(pow);
    if e > 0 {
        lemma_pow_one((e - 1) as nat);
    }
}

proof fn lemma_pow_zero(e: nat)
    requires
        e > 0,
    ensures
        pow(0, e) == 0,
{
    reveal(pow);
}

proof fn lemma_pow_neg_one(e: nat)
    ensures
        pow(-1, e) == (if e % 2 == 0 { 1int } else { -1int }),
    decreases e,
{
    reveal(pow);
    if e > 0 {
        lemma_pow_neg_one((e - 1) as nat);
    }
}

proof fn lemma_abs_mul_grows(a: int, x: int)
    requires
        a >= 2 || a <= -2,
    ensures
        (x >= 0 ==> (a * x >= x || a * x <= -x)),
        (x < 0 ==> (a * x >= -x || a * x <= x)),
        (x > i64::MAX || x < i64::MIN) ==> !in_i64(a * x),
{
    assert((x >= 0 ==> (a * x >= x || a * x <= -x))) by (nonlinear_arith)
        requires a >= 2 || a <= -2;
    assert((x < 0 ==> (a * x >= -x || a * x <= x))) by (nonlinear_arith)
        requires a >= 2 || a <= -2;
    assert((x > i64::MAX || x < i64::MIN) ==> !in_i64(a * x)) by (nonlinear_arith)
        requires a >= 2 || a <= -2;
}

proof fn lemma_pow_escapes(a: int, k: nat, e: nat)
    requires
        a >= 2 || a <= -2,
        k <= e,
        !in_i64(pow(a, k)),
    ensures
        !in_i64(pow(a, e)),
    decreases e - k,
{
    if k < e {
        reveal(pow);
        lemma_abs_mul_grows(a, pow(a, k));
        assert(pow(a, k + 1) == a * pow(a, k));
        lemma_pow_escapes(a, k + 1, e);
    }
}

/// `a` raised to the power `e`, when that fits in an `i64`.
pub fn checked_pow(a: i64, e: u32) -> (r: Option<i64>)
    ensures
        match r {
            Some(x) => pow_spec(a as int, e as nat) == Some(x as int),
            None => pow_spec(a as int, e as nat) is None,
        },
{
    if a == 0 {
        if e == 0 {
            proof {
                reveal(pow);
            }
            return Some(1);
        } else {
            proof {
                lemma_pow_zero(e as nat);
            }
            return Some(0);
        }
    }
    if a == 1 {
        proof {
            lemma_pow_one(e as nat);
        }
        return Some(1);
    }
    if a == -1 {
        proof {
            lemma_pow_neg_one(e as nat);
        }
        if e % 2 == 0 {
            return Some(1);
        } else {
            return Some(-1);
        }
    }
    let mut acc: i64 = 1;
    let mut k: u32 = 0;
    proof {
        reveal(pow);
    }
    while k < e
        invariant
            a >= 2 || a <= -2,
            k <= e,
            acc as int == pow(a as int, k as nat),
        decreases e - k,
    {
        proof {
            reveal(pow);
            assert(pow(a as int, (k + 1) as nat) == a * pow(a as int, k as nat));
        }
        match acc.checked_mul(a) {
            Some(x) => {
                proof {
                    assert(acc * a == a * acc) by (nonlinear_arith);
                }
                acc = x;
                k = k + 1;
            },
            None => {
                proof {
                    assert(acc * a == a * acc) by (nonlinear_arith);
                    lemma_pow_escapes(a as int, (k + 1) as nat, e as nat);
                }
                return None;
            },
        }
    }
    Some(acc)
}

} // verus!

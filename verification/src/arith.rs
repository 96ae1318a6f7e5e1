use vstd::prelude::*;
use crate::types::ContractError;

verus! {

/// Sum of two amounts; `Overflow` when it leaves the 128-bit range.
pub fn add_amount(a: u128, b: u128) -> (r: Result<u128, ContractError>)
    ensures
        match r {
            Ok(v) => v == a + b,
            Err(e) => e == ContractError::Overflow && a + b > u128::MAX,
        },
{
    if a <= u128::MAX - b {
        Ok(a + b)
    } else {
        Err(ContractError::Overflow)
    }
}

/// Difference of two amounts; `NegativeResult` when `b` exceeds `a`.
pub fn sub_amount(a: u128, b: u128) -> (r: Result<u128, ContractError>)
    ensures
        match r {
            Ok(v) => v == a - b,
            Err(e) => e == ContractError::NegativeResult && a < b,
        },
{
    if b <= a {
        Ok(a - b)
    } else {
        Err(ContractError::NegativeResult)
    }
}

/// Product of two amounts; `Overflow` when it leaves the 128-bit range.
pub fn mul_amount(a: u128, b: u128) -> (r: Result<u128, ContractError>)
    ensures
        match r {
            Ok(v) => v == a * b,
            Err(e) => e == ContractError::Overflow && a * b > u128::MAX,
        },
{
    match a.checked_mul(b) {
        Some(v) => Ok(v),
        None => Err(ContractError::Overflow),
    }
}

/// Floor quotient of two amounts; `DivisionByZero` when `b` is zero.
pub fn div_amount(a: u128, b: u128) -> (r: Result<u128, ContractError>)
    ensures
        match r {
            Ok(v) => b != 0 && v == a / b,
            Err(e) => e == ContractError::DivisionByZero && b == 0,
        },
{
    if b == 0 {
        Err(ContractError::DivisionByZero)
    } else {
        Ok(a / b)
    }
}

/// Sum of two block nonces or timestamps; `Overflow` when it leaves the 64-bit range.
pub fn add_u64(a: u64, b: u64) -> (r: Result<u64, ContractError>)
    ensures
        match r {
            Ok(v) => v == a + b,
            Err(e) => e == ContractError::Overflow && a + b > u64::MAX,
        },
{
    if a <= u64::MAX - b {
        Ok(a + b)
    } else {
        Err(ContractError::Overflow)
    }
}

/// 2^64.
pub open spec fn b64() -> int {
    0x1_0000_0000_0000_0000
}

/// 2^128.
pub open spec fn b128() -> int {
    b64() * b64()
}

/// The full product of two 128-bit values as a high and a low half.
pub fn wide_mul(a: u128, b: u128) -> (r: (u128, u128))
    ensures
        r.0 * b128() + r.1 == a * b,
{
    let base: u128 = 0x1_0000_0000_0000_0000;
    let a1 = a / base;
    let a0 = a % base;
    let b1 = b / base;
    let b0 = b % base;
    assert(a1 < b64() && b1 < b64()) by (nonlinear_arith)
        requires a1 == a / base, b1 == b / base, base == 0x1_0000_0000_0000_0000, a <= u128::MAX, b <= u128::MAX;
    assert(a0 * b0 < b128() && a0 * b1 < b128() && a1 * b0 < b128() && a1 * b1 < b128()) by (nonlinear_arith)
        requires a0 < b64(), b0 < b64(), a1 < b64(), b1 < b64(), a0 >= 0, b0 >= 0, a1 >= 0, b1 >= 0;
    let p00 = a0 * b0;
    let p01 = a0 * b1;
    let p10 = a1 * b0;
    let p11 = a1 * b1;
    let mid = p00 / base + p01 % base + p10 % base;
    let lo = (mid % base) * base + p00 % base;
    let ghost hi_val: int = p11 + p01 / base + p10 / base + mid / base;
    proof {
        assert(a == a1 * base + a0 && b == b1 * base + b0);
        assert(a * b == p11 * b128() + (p01 + p10) * b64() + p00) by (nonlinear_arith)
            requires a == a1 * base + a0, b == b1 * base + b0, base == b64(), b128() == b64() * b64(),
                p00 == a0 * b0, p01 == a0 * b1, p10 == a1 * b0, p11 == a1 * b1;
        assert(p01 == (p01 / base) * base + p01 % base);
        assert(p10 == (p10 / base) * base + p10 % base);
        assert(p00 == (p00 / base) * base + p00 % base);
        assert(mid == (mid / base) * base + mid % base);
        assert(a * b == hi_val * b128() + lo) by (nonlinear_arith)
            requires a * b == p11 * b128() + (p01 + p10) * b64() + p00, base == b64(), b128() == b64() * b64(),
                p01 == (p01 / base) * base + p01 % base, p10 == (p10 / base) * base + p10 % base,
                p00 == (p00 / base) * base + p00 % base, mid == (mid / base) * base + mid % base,
                mid == p00 / base + p01 % base + p10 % base, lo == (mid % base) * base + p00 % base,
                hi_val == p11 + p01 / base + p10 / base + mid / base;
        assert(lo < b128()) by (nonlinear_arith)
            requires lo == (mid % base) * base + p00 % base, base == b64(), b128() == b64() * b64(),
                0 <= mid % base < base, 0 <= p00 % base < base;
        assert(a * b <= u128::MAX * u128::MAX) by (nonlinear_arith)
            requires 0 <= a <= u128::MAX, 0 <= b <= u128::MAX;
        assert(hi_val < b128()) by (nonlinear_arith)
            requires a * b == hi_val * b128() + lo, 0 <= lo, a * b <= u128::MAX * u128::MAX,
                b128() == u128::MAX + 1;
    }
    let hi = p11 + p01 / base + p10 / base + mid / base;
    (hi, lo)
}

/// Floor quotient of `hi * 2^128 + lo` by `c`, which exceeds `hi`.
pub fn wide_div(hi: u128, lo: u128, c: u128) -> (q: u128)
    requires
        hi < c,
    ensures
        q == (hi * b128() + lo) / (c as int),
{
    let ghost x: int = hi * b128() + lo;
    let ghost v: int = hi as int;
    let mut p: u128 = 0x8000_0000_0000_0000_0000_0000_0000_0000;
    let mut r: u128 = lo;
    let mut q: u128 = 0;
    let mut rem: u128 = hi;
    assert(p & ((p - 1) as u128) == 0) by (bit_vector)
        requires p == 0x8000_0000_0000_0000_0000_0000_0000_0000;
    assert(x < c * b128()) by (nonlinear_arith)
        requires x == hi * b128() + lo, hi < c, lo < b128(), b128() > 0;
    loop
        invariant
            1 <= p,
            p & ((p - 1) as u128) == 0,
            x == v * (2 * p) + r,
            r < 2 * p,
            v == q * c + rem,
            rem < c,
            0 <= v,
            x < c * b128(),
            x == hi * b128() + lo,
        decreases p,
    {
        let bit = r / p;
        let ghost v2: int = 2 * v + bit;
        proof {
            assert(bit <= 1) by (nonlinear_arith)
                requires bit == r / p, r < 2 * p, p >= 1;
            assert(r == bit * p + r % p) by (nonlinear_arith)
                requires bit == r / p, p >= 1;
            assert(x == v2 * p + r % p) by (nonlinear_arith)
                requires x == v * (2 * p) + r, r == bit * p + r % p, v2 == 2 * v + bit;
            assert(v2 <= x) by (nonlinear_arith)
                requires x == v2 * p + r % p, p >= 1, r % p >= 0, v2 >= 0;
        }
        let rem2: u128;
        let qbit: u128;
        if rem >= c - rem {
            rem2 = rem - (c - rem) + bit;
            qbit = 1;
        } else if 2 * rem + bit >= c {
            rem2 = 2 * rem + bit - c;
            qbit = 1;
        } else {
            rem2 = 2 * rem + bit;
            qbit = 0;
        }
        proof {
            assert(v2 == (2 * q + qbit) * c + rem2) by (nonlinear_arith)
                requires v == q * c + rem, v2 == 2 * v + bit, 2 * rem + bit == qbit * c + rem2;
            assert(2 * q + qbit < b128()) by (nonlinear_arith)
                requires v2 == (2 * q + qbit) * c + rem2, v2 <= x, x < c * b128(), rem2 >= 0, c > 0, q >= 0, qbit >= 0;
        }
        q = 2 * q + qbit;
        rem = rem2;
        r = r % p;
        proof {
            v = v2;
        }
        if p == 1 {
            proof {
                assert(r == 0);
                vstd::arithmetic::div_mod::lemma_fundamental_div_mod_converse(x, c as int, q as int, rem as int);
            }
            return q;
        }
        assert(p % 2 == 0 && (p >> 1) & (((p >> 1) - 1) as u128) == 0 && p >> 1 == p / 2 && p >> 1 >= 1) by (bit_vector)
            requires p & ((p - 1) as u128) == 0, p > 1;
        p = p >> 1;
    }
}

/// `floor(a * b / c)` computed exactly; `DivisionByZero` when `c` is zero, `Overflow`
/// when the quotient leaves the 128-bit range.
pub fn mul_div(a: u128, b: u128, c: u128) -> (r: Result<u128, ContractError>)
    ensures
        match r {
            Ok(v) => c != 0 && v == a * b / (c as int),
            Err(e) => (e == ContractError::DivisionByZero && c == 0) || (e == ContractError::Overflow
                && c != 0 && a * b / (c as int) > u128::MAX),
        },
{
    if c == 0 {
        return Err(ContractError::DivisionByZero);
    }
    let (hi, lo) = wide_mul(a, b);
    if hi >= c {
        proof {
            assert(a * b / (c as int) >= b128()) by (nonlinear_arith)
                requires a * b == hi * b128() + lo, hi >= c, lo >= 0, c > 0, b128() > 0;
        }
        return Err(ContractError::Overflow);
    }
    Ok(wide_div(hi, lo, c))
}

} // verus!

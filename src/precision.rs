use vstd::arithmetic::div_mod::lemma_fundamental_div_mod;
use vstd::prelude::*;

verus! {

/// Ticks in one world unit: every length carries eight decimal digits.
pub const TICKS_PER_UNIT: i64 = 100_000_000;

/// Decimal digits that one tick resolves.
pub const TICK_DIGITS: u32 = 8;

/// The magnitude of `v`.
pub open spec fn abs(v: int) -> int {
    if v >= 0 {
        v
    } else {
        -v
    }
}

/// `10` to the power `k`.
pub open spec fn pow10(k: nat) -> int
    decreases k,
{
    if k == 0 {
        1
    } else {
        10 * pow10((k - 1) as nat)
    }
}

/// `v` over `step`, rounded to the nearest integer, ties away from zero.
pub open spec fn rounded_units_spec(v: int, step: int) -> int {
    if v >= 0 {
        (v + step / 2) / step
    } else {
        -((-v + step / 2) / step)
    }
}

/// `v` rounded to the nearest multiple of `step`, ties away from zero.
pub open spec fn rounded_to_step(v: int, step: int) -> int {
    rounded_units_spec(v, step) * step
}

/// A tick count rounded to `digits` decimal digits of a world unit.
pub open spec fn rounded_to_digits(v: int, digits: nat) -> int {
    rounded_to_step(v, pow10((TICK_DIGITS - digits) as nat))
}

/// The two precision regimes: a coarse one whose values are easy to write down
/// as fixtures, and the full resolution of a tick.
#[derive(Clone, Copy, Debug, PartialEq, Eq, Structural)]
pub enum Precision {
    Test,
    Production,
}

impl Precision {
    pub open spec fn digits_spec(self) -> nat {
        match self {
            Precision::Test => 3,
            Precision::Production => 8,
        }
    }

    /// Decimal digits of a world unit that values keep under this regime.
    pub fn digits(self) -> (r: u32)
        ensures
            r == self.digits_spec(),
            r <= TICK_DIGITS,
    {
        match self {
            Precision::Test => 3,
            Precision::Production => 8,
        }
    }
}

/// `10` to the power `k`, for the exponents that ticks resolve.
pub fn ten_to(k: u32) -> (r: i128)
    requires
        k <= TICK_DIGITS,
    ensures
        r == pow10(k as nat),
        1 <= r <= 100_000_000,
{
    let r: i128 = match k {
        0 => 1,
        1 => 10,
        2 => 100,
        3 => 1_000,
        4 => 10_000,
        5 => 100_000,
        6 => 1_000_000,
        7 => 10_000_000,
        _ => 100_000_000,
    };
    proof {
        reveal_with_fuel(pow10, 9);
    }
    r
}

/// A tick count rounded to `digits` decimal digits, as a count of units of
/// that last digit: `1.2345` at three digits is `1235`.
pub fn rounded_units(value: i64, digits: u32) -> (r: i128)
    requires
        digits <= TICK_DIGITS,
    ensures
        r == rounded_units_spec(value as int, pow10((TICK_DIGITS - digits) as nat)),
        r * pow10((TICK_DIGITS - digits) as nat) == rounded_to_digits(value as int, digits as nat),
        -0x1_0000_0000_0000_0000 <= r <= 0x1_0000_0000_0000_0000,
{
    let step = ten_to(TICK_DIGITS - digits);
    let half = step / 2;
    let v = value as i128;
    let a: i128 = if v >= 0 {
        v
    } else {
        -v
    };
    let q = (a + half) / step;
    proof {
        let t: int = a + half;
        lemma_fundamental_div_mod(t, step as int);
        assert(q <= t) by (nonlinear_arith)
            requires
                t == step * q + t % (step as int),
                t % (step as int) >= 0,
                step >= 1,
                q >= 0,
        ;
        assert((-q) * step == -(q * step)) by (nonlinear_arith);
    }
    if v >= 0 {
        q
    } else {
        -q
    }
}

/// Rounds a tick count to `digits` decimal digits of a world unit, half away
/// from zero.
pub fn round(value: i64, digits: u32) -> (r: i64)
    requires
        digits <= TICK_DIGITS,
        i64::MIN <= rounded_to_digits(value as int, digits as nat) <= i64::MAX,
    ensures
        r == rounded_to_digits(value as int, digits as nat),
{
    let q = rounded_units(value, digits);
    let step = ten_to(TICK_DIGITS - digits);
    (q * step) as i64
}

} // verus!

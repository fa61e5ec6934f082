use crate::position::{SignedTilePosition, TilePosition};
use crate::precision::{abs, pow10, rounded_units, rounded_units_spec, ten_to, Precision, TICK_DIGITS};
use vstd::prelude::*;
use vstd::string::StringExecFns;

verus! {

/// The character of the decimal digit `d`.
pub open spec fn digit_char(d: int) -> char {
    seq!['0', '1', '2', '3', '4', '5', '6', '7', '8', '9'][d]
}

/// `n` written in decimal, without leading zeros.
pub open spec fn decimal_spec(n: nat) -> Seq<char>
    decreases n,
{
    if n < 10 {
        seq![digit_char(n as int)]
    } else {
        decimal_spec(n / 10).push(digit_char((n % 10) as int))
    }
}

/// The last `k` decimal digits of `n`, zeros in front.
pub open spec fn padded_spec(n: nat, k: nat) -> Seq<char>
    decreases k,
{
    if k == 0 {
        seq![]
    } else {
        padded_spec(n / 10, (k - 1) as nat).push(digit_char((n % 10) as int))
    }
}

/// `v` written in decimal, with a minus sign when negative.
pub open spec fn signed_decimal_spec(v: int) -> Seq<char> {
    if v < 0 {
        seq!['-'] + decimal_spec((-v) as nat)
    } else {
        decimal_spec(v as nat)
    }
}

/// A tick count in world units with `digits` decimals, rounded half away from
/// zero: sign, whole units, point, fraction.
pub open spec fn fixed_spec(v: int, digits: nat) -> Seq<char> {
    let t = rounded_units_spec(v, pow10((TICK_DIGITS - digits) as nat));
    let a = abs(t);
    let unit = pow10(digits);
    (if t < 0 {
        seq!['-']
    } else {
        seq![]
    }) + decimal_spec((a / unit) as nat) + seq!['.'] + padded_spec((a % unit) as nat, digits)
}

fn append_digit(s: &mut String, d: u128)
    requires
        d < 10,
    ensures
        final(s)@ == old(s)@.push(digit_char(d as int)),
{
    let lit = match d {
        0 => "0",
        1 => "1",
        2 => "2",
        3 => "3",
        4 => "4",
        5 => "5",
        6 => "6",
        7 => "7",
        8 => "8",
        _ => "9",
    };
    proof {
        reveal_strlit("0");
        reveal_strlit("1");
        reveal_strlit("2");
        reveal_strlit("3");
        reveal_strlit("4");
        reveal_strlit("5");
        reveal_strlit("6");
        reveal_strlit("7");
        reveal_strlit("8");
        reveal_strlit("9");
        assert(lit@ =~= seq![digit_char(d as int)]);
    }
    s.append(lit);
    assert(s@ =~= old(s)@.push(digit_char(d as int)));
}

fn append_decimal(s: &mut String, n: u128)
    ensures
        final(s)@ == old(s)@ + decimal_spec(n as nat),
    decreases n,
{
    if n >= 10 {
        append_decimal(s, n / 10);
    }
    append_digit(s, n % 10);
    assert(s@ =~= old(s)@ + decimal_spec(n as nat));
}

fn append_padded(s: &mut String, n: u128, k: u32)
    ensures
        final(s)@ == old(s)@ + padded_spec(n as nat, k as nat),
    decreases k,
{
    if k > 0 {
        append_padded(s, n / 10, k - 1);
        append_digit(s, n % 10);
    }
    assert(s@ =~= old(s)@ + padded_spec(n as nat, k as nat));
}

fn append_signed_decimal(s: &mut String, v: i64)
    ensures
        final(s)@ == old(s)@ + signed_decimal_spec(v as int),
{
    if v < 0 {
        proof {
            reveal_strlit("-");
        }
        s.append("-");
        append_decimal(s, (-(v as i128)) as u128);
    } else {
        append_decimal(s, v as u128);
    }
    assert(s@ =~= old(s)@ + signed_decimal_spec(v as int));
}

fn append_fixed(s: &mut String, v: i64, digits: u32)
    requires
        1 <= digits <= TICK_DIGITS,
    ensures
        final(s)@ == old(s)@ + fixed_spec(v as int, digits as nat),
{
    let t = rounded_units(v, digits);
    let a: u128 = if t < 0 {
        (-t) as u128
    } else {
        t as u128
    };
    let unit = ten_to(digits) as u128;
    proof {
        reveal_strlit("-");
        reveal_strlit(".");
    }
    if t < 0 {
        s.append("-");
    }
    append_decimal(s, a / unit);
    s.append(".");
    append_padded(s, a % unit, digits);
    assert(s@ =~= old(s)@ + fixed_spec(v as int, digits as nat));
}

impl TilePosition {
    /// The text of this position at `precision`: under `Test` the fixture form
    /// `((x, rel_x), (y, rel_y)).into()`, under `Production` a labelled form.
    /// Offsets are in world units, with the digits that `precision` keeps.
    pub open spec fn text_spec(self, precision: Precision) -> Seq<char> {
        let d = precision.digits_spec();
        match precision {
            Precision::Test => "(("@ + decimal_spec(self.x as nat) + ", "@ + fixed_spec(
                self.rel_x as int,
                d,
            ) + "), ("@ + decimal_spec(self.y as nat) + ", "@ + fixed_spec(self.rel_y as int, d)
                + ")).into()"@,
            Precision::Production => "TilePosition { x: "@ + decimal_spec(self.x as nat)
                + ", rel_x: "@ + fixed_spec(self.rel_x as int, d) + ", y: "@ + decimal_spec(
                self.y as nat,
            ) + ", rel_y: "@ + fixed_spec(self.rel_y as int, d) + " }"@,
        }
    }

    /// The text of this position, for logs and test fixtures.
    pub fn to_text(&self, precision: Precision) -> (r: String)
        ensures
            r@ == self.text_spec(precision),
    {
        let d = precision.digits();
        let mut s = match precision {
            Precision::Test => String::from_str("(("),
            Precision::Production => String::from_str("TilePosition { x: "),
        };
        append_decimal(&mut s, self.x as u128);
        match precision {
            Precision::Test => s.append(", "),
            Precision::Production => s.append(", rel_x: "),
        }
        append_fixed(&mut s, self.rel_x, d);
        match precision {
            Precision::Test => s.append("), ("),
            Precision::Production => s.append(", y: "),
        }
        append_decimal(&mut s, self.y as u128);
        match precision {
            Precision::Test => s.append(", "),
            Precision::Production => s.append(", rel_y: "),
        }
        append_fixed(&mut s, self.rel_y, d);
        match precision {
            Precision::Test => s.append(")).into()"),
            Precision::Production => s.append(" }"),
        }
        s
    }
}

impl SignedTilePosition {
    /// The text of this position at `precision`: under `Test` the fixture form
    /// `((x, rel_x), (y, rel_y)).into()`, under `Production` a labelled form.
    /// Offsets are in world units, with the digits that `precision` keeps.
    pub open spec fn text_spec(self, precision: Precision) -> Seq<char> {
        let d = precision.digits_spec();
        match precision {
            Precision::Test => "(("@ + signed_decimal_spec(self.x as int) + ", "@ + fixed_spec(
                self.rel_x as int,
                d,
            ) + "), ("@ + signed_decimal_spec(self.y as int) + ", "@ + fixed_spec(
                self.rel_y as int,
                d,
            ) + ")).into()"@,
            Precision::Production => "SignedTilePosition { x: "@ + signed_decimal_spec(
                self.x as int,
            ) + ", rel_x: "@ + fixed_spec(self.rel_x as int, d) + ", y: "@ + signed_decimal_spec(
                self.y as int,
            ) + ", rel_y: "@ + fixed_spec(self.rel_y as int, d) + " }"@,
        }
    }

    /// The text of this position, for logs and test fixtures.
    pub fn to_text(&self, precision: Precision) -> (r: String)
        ensures
            r@ == self.text_spec(precision),
    {
        let d = precision.digits();
        let mut s = match precision {
            Precision::Test => String::from_str("(("),
            Precision::Production => String::from_str("SignedTilePosition { x: "),
        };
        append_signed_decimal(&mut s, self.x);
        match precision {
            Precision::Test => s.append(", "),
            Precision::Production => s.append(", rel_x: "),
        }
        append_fixed(&mut s, self.rel_x, d);
        match precision {
            Precision::Test => s.append("), ("),
            Precision::Production => s.append(", y: "),
        }
        append_signed_decimal(&mut s, self.y);
        match precision {
            Precision::Test => s.append(", "),
            Precision::Production => s.append(", rel_y: "),
        }
        append_fixed(&mut s, self.rel_y, d);
        match precision {
            Precision::Test => s.append(")).into()"),
            Precision::Production => s.append(" }"),
        }
        s
    }
}

} // verus!

use vstd::prelude::*;
use vstd::arithmetic::div_mod::{lemma_div_is_ordered_by_denominator, lemma_fundamental_div_mod};

use crate::money_text::{fits_money, lemma_text_round_trip, money_text, money_text_value};

verus! {

/// Nearest integer to `n / d` (with `d != 0`), halves rounded away from zero.
pub open spec fn round_div(n: int, d: int) -> int
    recommends
        d != 0,
{
    let (n, d) = if d < 0 { (-n, -d) } else { (n, d) };
    if n >= 0 {
        (2 * n + d) / (2 * d)
    } else {
        -((-2 * n + d) / (2 * d))
    }
}

/// An amount of money held as a whole number of cents, so every value is
/// a multiple of one hundredth of the currency unit.
#[derive(Debug, Clone, Copy, PartialEq, Eq, Structural)]
pub struct Money {
    cents: i64,
}

impl Money {
    /// The amount in cents.
    pub closed spec fn spec_cents(self) -> int {
        self.cents as int
    }

    pub open spec fn view(self) -> int {
        self.spec_cents()
    }

    /// A money value of `cents` hundredths.
    pub fn new(cents: i64) -> (r: Money)
        ensures
            r@ == cents,
    {
        Money { cents }
    }

    /// The amount in cents.
    pub fn value(&self) -> (r: i64)
        ensures
            r == self@,
    {
        self.cents
    }

    /// Replaces the amount.
    pub fn edit_amount(&mut self, cents: i64)
        ensures
            final(self)@ == cents,
    {
        self.cents = cents;
    }

    /// The amount rounded to whole cents, which every value already is.
    pub fn round(&self) -> (r: Money)
        ensures
            r == *self,
    {
        *self
    }

    pub fn add(self, other: Money) -> (r: Money)
        requires
            i64::MIN <= self@ + other@ <= i64::MAX,
        ensures
            r@ == self@ + other@,
    {
        Money { cents: self.cents + other.cents }
    }

    pub fn sub(self, other: Money) -> (r: Money)
        requires
            i64::MIN <= self@ - other@ <= i64::MAX,
        ensures
            r@ == self@ - other@,
    {
        Money { cents: self.cents - other.cents }
    }

    /// The product, rounded to the nearest cent.
    pub fn mul(self, other: Money) -> (r: Money)
        requires
            i64::MIN <= round_div(self@ * other@, 100) <= i64::MAX,
        ensures
            r@ == round_div(self@ * other@, 100),
    {
        let a: i128 = self.cents as i128;
        let b: i128 = other.cents as i128;
        proof {
            assert(-0x4000_0000_0000_0000_0000_0000_0000_0000 <= a * b
                <= 0x4000_0000_0000_0000_0000_0000_0000_0000) by (nonlinear_arith)
                requires
                    -0x8000_0000_0000_0000 <= a <= 0x8000_0000_0000_0000,
                    -0x8000_0000_0000_0000 <= b <= 0x8000_0000_0000_0000,
            ;
        }
        let p: i128 = a * b;
        let c = rounded_quotient(p, 100);
        Money { cents: c as i64 }
    }

    /// The quotient, rounded to the nearest cent.
    pub fn div(self, other: Money) -> (r: Money)
        requires
            other@ != 0,
            i64::MIN <= round_div(self@ * 100, other@) <= i64::MAX,
        ensures
            r@ == round_div(self@ * 100, other@),
    {
        let n: i128 = (self.cents as i128) * 100;
        let (n, d) = if other.cents < 0 {
            (-n, -(other.cents as i128))
        } else {
            (n, other.cents as i128)
        };
        let c = rounded_quotient(n, d);
        Money { cents: c as i64 }
    }
}

/// The rounded quotient lies within half a unit of the exact one:
/// `|round_div(n, d) - n / d| <= 1/2`.
pub proof fn lemma_round_div_nearest(n: int, d: int)
    requires
        d != 0,
    ensures
        d > 0 ==> -d <= 2 * (d * round_div(n, d) - n) <= d,
        d < 0 ==> d <= 2 * (d * round_div(n, d) - n) <= -d,
{
    let (m, e) = if d < 0 { (-n, -d) } else { (n, d) };
    let a = if m >= 0 { m } else { -m };
    let x = 2 * a + e;
    let q = x / (2 * e);
    lemma_fundamental_div_mod(x, 2 * e);
    assert(-e <= 2 * (e * q - a) <= e) by (nonlinear_arith)
        requires
            x == 2 * e * q + x % (2 * e),
            0 <= x % (2 * e) < 2 * e,
            x == 2 * a + e,
    ;
    let r = round_div(n, d);
    assert(r == if m >= 0 { q } else { -q });
    assert(-e <= 2 * (e * r - m) <= e) by (nonlinear_arith)
        requires
            -e <= 2 * (e * q - a) <= e,
            r == (if m >= 0 { q } else { -q }),
            a == (if m >= 0 { m } else { -m }),
    ;
    assert(d * r - n == (if d < 0 { -(e * r - m) } else { e * r - m })) by (nonlinear_arith)
        requires
            m == (if d < 0 { -n } else { n }),
            e == (if d < 0 { -d } else { d }),
    ;
}

/// Two money values of the same amount are equal.
pub proof fn lemma_same_amount_equal(a: Money, b: Money)
    requires
        a@ == b@,
    ensures
        a == b,
{
}

/// Every money value can be written in money notation, and reading that
/// text back gives the same value.
pub proof fn lemma_parse_inverts_to_text(m: Money)
    ensures
        fits_money(m@),
        money_text_value(money_text(m@)) == Some(m@),
{
    lemma_text_round_trip(m@);
}

/// Nearest integer to `n / d`, halves away from zero.
fn rounded_quotient(n: i128, d: i128) -> (r: i128)
    requires
        0 < d <= 0x1_0000_0000_0000_0000,
        -0x4000_0000_0000_0000_0000_0000_0000_0000 <= n <= 0x4000_0000_0000_0000_0000_0000_0000_0000,
    ensures
        r == round_div(n as int, d as int),
{
    let m: u128 = if n >= 0 { n as u128 } else { (-n) as u128 };
    let x: u128 = 2 * m + d as u128;
    let q: u128 = x / (2 * d as u128);
    proof {
        lemma_div_is_ordered_by_denominator(x as int, 2, 2 * d as int);
    }
    if n >= 0 {
        q as i128
    } else {
        -(q as i128)
    }
}

} // verus!

//! Exact decimal numbers.
//!
//! A [`Decimal`] is a whole mantissa below `2^96` over a power of ten of at most
//! `10^28`. The arithmetic itself is that of the `rust_decimal` crate; every call into
//! that crate goes through one of the small functions at the end of this file.

use core::cmp::Ordering;
use core::ops::{Add, Div, Mul, Sub};
use crate::text::{digits, fixed_digits};
use vstd::arithmetic::div_mod::lemma_fundamental_div_mod;
use vstd::arithmetic::power::{lemma_pow0, lemma_pow_increases, lemma_pow_positive, pow};
use vstd::prelude::*;
use vstd::std_specs::cmp::{PartialEqSpecImpl, PartialOrdSpecImpl};
use vstd::std_specs::ops::{AddSpecImpl, DivSpecImpl, MulSpecImpl, SubSpecImpl};

verus! {

/// A mantissa and a scale: the view of a [`Decimal`].
pub type Dec = (i128, u32);

/// The largest mantissa: `2^96 - 1`.
pub const MAX_MANTISSA: i128 = 79_228_162_514_264_337_593_543_950_335;

/// The largest number of fractional digits.
pub const MAX_SCALE: u32 = 28;

/// Whether a mantissa and a scale make a decimal.
pub open spec fn valid(d: Dec) -> bool {
    -MAX_MANTISSA <= d.0 <= MAX_MANTISSA && d.1 <= MAX_SCALE
}

/// A power of ten.
pub open spec fn ten_to(e: nat) -> int {
    pow(10, e)
}

/// The number that a mantissa and a scale stand for.
pub open spec fn num(d: Dec) -> real {
    (d.0 as real) / (ten_to(d.1 as nat) as real)
}

/// A whole number as a real number.
pub open spec fn whole(k: int) -> real {
    k as real
}

/// A whole number as a decimal.
pub open spec fn dec_of(k: int) -> Dec {
    (k as i128, 0u32)
}

/// Whether some decimal stands for exactly `x`.
pub open spec fn representable(x: real) -> bool {
    exists|d: Dec| valid(d) && #[trigger] num(d) == x
}

/// What every rounded operation keeps of the exact result `x`: an exactly representable
/// result is returned as it is, and rounding crosses no decimal and no whole number.
pub open spec fn rounds(x: real, r: Option<Dec>) -> bool {
    &&& representable(x) ==> r is Some && num(r->0) == x
    &&& r is Some ==> valid(r->0)
    &&& r is Some ==> forall|k: int| #![trigger whole(k)] whole(k) <= x ==> whole(k) <= num(r->0)
    &&& r is Some ==> forall|k: int| #![trigger whole(k)] x <= whole(k) ==> num(r->0) <= whole(k)
    &&& r is Some ==> forall|y: real| #[trigger]
        representable(y) && y <= x ==> y <= num(r->0)
    &&& r is Some ==> forall|y: real| #[trigger]
        representable(y) && x <= y ==> num(r->0) <= y
}

/// Whether a number is within the range of decimals.
pub open spec fn in_range(x: real) -> bool {
    whole(-MAX_MANTISSA) <= x <= whole(MAX_MANTISSA as int)
}

/// The sum of two results, none where one of them is none.
pub open spec fn plus(a: Option<Dec>, b: Option<Dec>) -> Option<Dec> {
    match (a, b) {
        (Some(x), Some(y)) => decimal_sum(x, y),
        _ => None,
    }
}

/// The difference of two results, none where one of them is none.
pub open spec fn minus(a: Option<Dec>, b: Option<Dec>) -> Option<Dec> {
    match (a, b) {
        (Some(x), Some(y)) => decimal_difference(x, y),
        _ => None,
    }
}

/// The product of two results, none where one of them is none.
pub open spec fn times(a: Option<Dec>, b: Option<Dec>) -> Option<Dec> {
    match (a, b) {
        (Some(x), Some(y)) => decimal_product(x, y),
        _ => None,
    }
}

/// The quotient of two results, none where one of them is none.
pub open spec fn over(a: Option<Dec>, b: Option<Dec>) -> Option<Dec> {
    match (a, b) {
        (Some(x), Some(y)) => decimal_quotient(x, y),
        _ => None,
    }
}

/// The largest whole number at or below the decimal.
pub open spec fn floor_of(d: Dec) -> Dec {
    if d.1 == 0 {
        d
    } else {
        dec_of(d.0 as int / ten_to(d.1 as nat))
    }
}

/// The smallest whole number at or above the decimal.
pub open spec fn ceil_of(d: Dec) -> Dec {
    if d.1 == 0 {
        d
    } else {
        dec_of(-(-(d.0 as int) / ten_to(d.1 as nat)))
    }
}

/// `n / p` to the nearest whole number, a tie to the even one.
pub open spec fn half_even(n: int, p: int) -> int {
    let q = n / p;
    let rest = n % p;
    if 2 * rest > p || (2 * rest == p && q % 2 != 0) {
        q + 1
    } else {
        q
    }
}

/// The decimal with at most `dp` fractional digits, a tie to the even last digit.
pub open spec fn rounded_to(d: Dec, dp: u32) -> Dec {
    if d.1 <= dp {
        d
    } else {
        (half_even(d.0 as int, ten_to((d.1 - dp) as nat)) as i128, dp)
    }
}

/// Whether a decimal has no trailing zero in its fraction.
pub open spec fn is_normal(d: Dec) -> bool {
    d.1 == 0 || (d.0 as int) % 10 != 0
}

/// The whole part of a decimal as a count: `None` for a negative number or one too large.
pub open spec fn count_of(d: Dec) -> Option<u32> {
    let k = d.0 as int / ten_to(d.1 as nat);
    if d.0 < 0 || k > u32::MAX {
        None
    } else {
        Some(k as u32)
    }
}

/// A decimal in writing: all the fractional digits it carries, and no others.
pub open spec fn decimal_text(d: Dec) -> Seq<char> {
    let n: nat = if d.0 < 0 { -(d.0 as int) as nat } else { d.0 as nat };
    let p = ten_to(d.1 as nat) as nat;
    let sign = if d.0 < 0 { seq!['-'] } else { Seq::empty() };
    if d.1 == 0 {
        sign + digits(n)
    } else {
        sign + digits(n / p) + seq!['.'] + fixed_digits(n % p, d.1 as nat)
    }
}

/// An exact decimal number.
#[derive(Clone, Copy, Debug)]
pub struct Decimal {
    mantissa: i128,
    scale: u32,
}

impl View for Decimal {
    type V = Dec;

    closed spec fn view(&self) -> Dec {
        (self.mantissa, self.scale)
    }
}

impl Decimal {
    #[verifier::type_invariant]
    spec fn inv(self) -> bool {
        valid(self@)
    }

    /// The decimal `mantissa / 10^scale`, or `None` where the two are out of range.
    pub fn from_parts(mantissa: i128, scale: u32) -> (r: Option<Decimal>)
        ensures
            r is Some <==> valid((mantissa, scale)),
            r matches Some(d) ==> d@ == (mantissa, scale),
    {
        if mantissa < -MAX_MANTISSA || mantissa > MAX_MANTISSA || scale > MAX_SCALE {
            return None;
        }
        Some(Decimal { mantissa, scale })
    }

    /// The decimal `mantissa / 10^scale`.
    pub fn new(mantissa: i64, scale: u32) -> (r: Decimal)
        requires
            scale <= MAX_SCALE,
        ensures
            r@ == (mantissa as i128, scale),
    {
        Decimal { mantissa: mantissa as i128, scale }
    }

    /// A whole number.
    pub fn from_u32(n: u32) -> (r: Decimal)
        ensures
            r@ == dec_of(n as int),
    {
        Decimal { mantissa: n as i128, scale: 0 }
    }

    /// The number zero.
    pub fn zero() -> (r: Decimal)
        ensures
            r@ == dec_of(0),
    {
        Decimal { mantissa: 0, scale: 0 }
    }

    /// The number one.
    pub fn one() -> (r: Decimal)
        ensures
            r@ == dec_of(1),
    {
        Decimal { mantissa: 1, scale: 0 }
    }

    /// The mantissa.
    pub fn mantissa(&self) -> (r: i128)
        ensures
            r == self@.0,
    {
        self.mantissa
    }

    /// The number of fractional digits.
    pub fn scale(&self) -> (r: u32)
        ensures
            r == self@.1,
    {
        self.scale
    }

    /// Whether the number is zero.
    pub fn is_zero(&self) -> (r: bool)
        ensures
            r == (self@.0 == 0),
    {
        self.mantissa == 0
    }

    /// Whether the number is above zero.
    pub fn is_positive(&self) -> (r: bool)
        ensures
            r == (self@.0 > 0),
    {
        self.mantissa > 0
    }

    /// The sum, or `None` where it leaves the range.
    pub fn checked_add(self, rhs: Decimal) -> (r: Option<Decimal>)
        ensures
            match r {
                Some(d) => decimal_sum(self@, rhs@) == Some(d@),
                None => decimal_sum(self@, rhs@) is None,
            },
            valid(self@),
            valid(rhs@),
            rounds(num(self@) + num(rhs@), decimal_sum(self@, rhs@)),
            in_range(num(self@) + num(rhs@)) ==> r is Some,
    {
        proof {
            use_type_invariant(&self);
            use_type_invariant(&rhs);
        }
        match outside_sum((self.mantissa, self.scale), (rhs.mantissa, rhs.scale)) {
            Some((mantissa, scale)) => Some(Decimal { mantissa, scale }),
            None => None,
        }
    }

    /// The difference, or `None` where it leaves the range.
    pub fn checked_sub(self, rhs: Decimal) -> (r: Option<Decimal>)
        ensures
            match r {
                Some(d) => decimal_difference(self@, rhs@) == Some(d@),
                None => decimal_difference(self@, rhs@) is None,
            },
            valid(self@),
            valid(rhs@),
            rounds(num(self@) - num(rhs@), decimal_difference(self@, rhs@)),
            in_range(num(self@) - num(rhs@)) ==> r is Some,
    {
        proof {
            use_type_invariant(&self);
            use_type_invariant(&rhs);
        }
        match outside_difference((self.mantissa, self.scale), (rhs.mantissa, rhs.scale)) {
            Some((mantissa, scale)) => Some(Decimal { mantissa, scale }),
            None => None,
        }
    }

    /// The product, or `None` where it leaves the range.
    pub fn checked_mul(self, rhs: Decimal) -> (r: Option<Decimal>)
        ensures
            match r {
                Some(d) => decimal_product(self@, rhs@) == Some(d@),
                None => decimal_product(self@, rhs@) is None,
            },
            valid(self@),
            valid(rhs@),
            rounds(num(self@) * num(rhs@), decimal_product(self@, rhs@)),
            in_range(num(self@) * num(rhs@)) ==> r is Some,
    {
        proof {
            use_type_invariant(&self);
            use_type_invariant(&rhs);
        }
        match outside_product((self.mantissa, self.scale), (rhs.mantissa, rhs.scale)) {
            Some((mantissa, scale)) => Some(Decimal { mantissa, scale }),
            None => None,
        }
    }

    /// The quotient, or `None` where the divisor is zero or the quotient leaves the range.
    pub fn checked_div(self, rhs: Decimal) -> (r: Option<Decimal>)
        ensures
            match r {
                Some(d) => decimal_quotient(self@, rhs@) == Some(d@),
                None => decimal_quotient(self@, rhs@) is None,
            },
            valid(self@),
            valid(rhs@),
            rhs@.0 == 0 ==> r is None,
            rhs@.0 != 0 ==> rounds(num(self@) / num(rhs@), decimal_quotient(self@, rhs@)),
            rhs@.0 != 0 && in_range(num(self@) / num(rhs@)) ==> r is Some,
            small_whole(rhs@) ==> r is Some,
    {
        proof {
            use_type_invariant(&self);
            use_type_invariant(&rhs);
            if small_whole(rhs@) {
                lemma_whole_quotient(self@, rhs@);
            }
        }
        match outside_quotient((self.mantissa, self.scale), (rhs.mantissa, rhs.scale)) {
            Some((mantissa, scale)) => Some(Decimal { mantissa, scale }),
            None => None,
        }
    }

    /// The largest whole number at or below this one.
    pub fn floor(&self) -> (r: Decimal)
        ensures
            r@ == floor_of(self@),
    {
        proof {
            use_type_invariant(self);
        }
        let (mantissa, scale) = outside_floor((self.mantissa, self.scale));
        Decimal { mantissa, scale }
    }

    /// The smallest whole number at or above this one.
    pub fn ceil(&self) -> (r: Decimal)
        ensures
            r@ == ceil_of(self@),
    {
        proof {
            use_type_invariant(self);
        }
        let (mantissa, scale) = outside_ceil((self.mantissa, self.scale));
        Decimal { mantissa, scale }
    }

    /// The number with at most `dp` fractional digits, a tie to the even last digit.
    pub fn round_dp(&self, dp: u32) -> (r: Decimal)
        ensures
            r@ == rounded_to(self@, dp),
    {
        proof {
            use_type_invariant(self);
        }
        let (mantissa, scale) = outside_round((self.mantissa, self.scale), dp);
        Decimal { mantissa, scale }
    }

    /// The same number without trailing zeros in its fraction.
    pub fn normalize(&self) -> (r: Decimal)
        ensures
            r@ == normal_of(self@),
    {
        proof {
            use_type_invariant(self);
        }
        let (mantissa, scale) = outside_normal((self.mantissa, self.scale));
        Decimal { mantissa, scale }
    }

    /// The whole part as a count: `None` for a negative number or one too large.
    pub fn to_u32(&self) -> (r: Option<u32>)
        ensures
            r == count_of(self@),
    {
        proof {
            use_type_invariant(self);
        }
        outside_count((self.mantissa, self.scale))
    }

    /// The number in writing.
    pub fn to_text(&self) -> (r: String)
        ensures
            r@ == decimal_text(self@),
    {
        proof {
            use_type_invariant(self);
        }
        outside_text((self.mantissa, self.scale))
    }

    /// Read a number, or say what is wrong with the text. A number in writing reads as itself.
    pub fn parse(text: &str) -> (r: Result<Decimal, String>)
        ensures
            reads_written(text@, decimal_parsed(text@)),
            match r {
                Ok(d) => decimal_parsed(text@) == Ok::<Dec, Seq<char>>(d@),
                Err(e) => decimal_parsed(text@) == Err::<Dec, Seq<char>>(e@),
            },
    {
        match outside_parse(text) {
            Ok((mantissa, scale)) => Ok(Decimal { mantissa, scale }),
            Err(e) => Err(e),
        }
    }
}

impl AddSpecImpl for Decimal {
    open spec fn obeys_add_spec() -> bool {
        false
    }

    open spec fn add_req(self, rhs: Decimal) -> bool {
        decimal_sum(self@, rhs@) is Some
    }

    open spec fn add_spec(self, rhs: Decimal) -> Decimal {
        self
    }
}

impl Add for Decimal {
    type Output = Decimal;

    fn add(self, rhs: Decimal) -> (r: Decimal)
        ensures
            decimal_sum(self@, rhs@) == Some(r@),
            valid(self@),
            valid(rhs@),
            rounds(num(self@) + num(rhs@), Some(r@)),
    {
        match self.checked_add(rhs) {
            Some(d) => d,
            None => unreached(),
        }
    }
}

impl SubSpecImpl for Decimal {
    open spec fn obeys_sub_spec() -> bool {
        false
    }

    open spec fn sub_req(self, rhs: Decimal) -> bool {
        decimal_difference(self@, rhs@) is Some
    }

    open spec fn sub_spec(self, rhs: Decimal) -> Decimal {
        self
    }
}

impl Sub for Decimal {
    type Output = Decimal;

    fn sub(self, rhs: Decimal) -> (r: Decimal)
        ensures
            decimal_difference(self@, rhs@) == Some(r@),
            valid(self@),
            valid(rhs@),
            rounds(num(self@) - num(rhs@), Some(r@)),
    {
        match self.checked_sub(rhs) {
            Some(d) => d,
            None => unreached(),
        }
    }
}

impl MulSpecImpl for Decimal {
    open spec fn obeys_mul_spec() -> bool {
        false
    }

    open spec fn mul_req(self, rhs: Decimal) -> bool {
        decimal_product(self@, rhs@) is Some
    }

    open spec fn mul_spec(self, rhs: Decimal) -> Decimal {
        self
    }
}

impl Mul for Decimal {
    type Output = Decimal;

    fn mul(self, rhs: Decimal) -> (r: Decimal)
        ensures
            decimal_product(self@, rhs@) == Some(r@),
            valid(self@),
            valid(rhs@),
            rounds(num(self@) * num(rhs@), Some(r@)),
    {
        match self.checked_mul(rhs) {
            Some(d) => d,
            None => unreached(),
        }
    }
}

impl DivSpecImpl for Decimal {
    open spec fn obeys_div_spec() -> bool {
        false
    }

    open spec fn div_req(self, rhs: Decimal) -> bool {
        decimal_quotient(self@, rhs@) is Some
    }

    open spec fn div_spec(self, rhs: Decimal) -> Decimal {
        self
    }
}

impl Div for Decimal {
    type Output = Decimal;

    fn div(self, rhs: Decimal) -> (r: Decimal)
        ensures
            decimal_quotient(self@, rhs@) == Some(r@),
            valid(self@),
            valid(rhs@),
            rounds(num(self@) / num(rhs@), Some(r@)),
    {
        match self.checked_div(rhs) {
            Some(d) => d,
            None => unreached(),
        }
    }
}

impl PartialEqSpecImpl for Decimal {
    open spec fn obeys_eq_spec() -> bool {
        true
    }

    open spec fn eq_spec(&self, other: &Decimal) -> bool {
        num(self@) == num(other@)
    }
}

impl PartialEq for Decimal {
    fn eq(&self, other: &Decimal) -> (r: bool) {
        proof {
            use_type_invariant(self);
            use_type_invariant(other);
        }
        matches!(
            outside_order((self.mantissa, self.scale), (other.mantissa, other.scale)),
            Ordering::Equal
        )
    }
}

impl Eq for Decimal {

}

impl PartialOrdSpecImpl for Decimal {
    open spec fn obeys_partial_cmp_spec() -> bool {
        true
    }

    open spec fn partial_cmp_spec(&self, other: &Decimal) -> Option<Ordering> {
        if num(self@) < num(other@) {
            Some(Ordering::Less)
        } else if num(self@) == num(other@) {
            Some(Ordering::Equal)
        } else {
            Some(Ordering::Greater)
        }
    }
}

impl PartialOrd for Decimal {
    fn partial_cmp(&self, other: &Decimal) -> (r: Option<Ordering>) {
        proof {
            use_type_invariant(self);
            use_type_invariant(other);
        }
        Some(outside_order((self.mantissa, self.scale), (other.mantissa, other.scale)))
    }
}

/// A whole number stands for itself.
pub proof fn lemma_whole_number(k: int)
    requires
        -MAX_MANTISSA <= k <= MAX_MANTISSA,
    ensures
        valid(dec_of(k)),
        num(dec_of(k)) == whole(k),
{
    lemma_pow0(10);
    assert(ten_to(0) as real == 1real);
    let m = k as real;
    assert(m / 1real == m) by (nonlinear_arith);
}

/// The smallest decimal above zero, a number of times.
pub open spec fn least(n: u32) -> Dec {
    (n as i128, MAX_SCALE)
}

/// A count of the smallest decimals above zero is a decimal, counts add up, and every decimal
/// above zero is at least as large as one of them.
pub proof fn lemma_least(n: u32)
    ensures
        valid(least(n)),
        representable(num(least(n))),
        num(least(n)) == whole(n as int) * num(least(1)),
        num(least(1)) > 0real,
{
    let p = ten_to(MAX_SCALE as nat) as real;
    lemma_pow_positive(10, MAX_SCALE as nat);
    let k = n as real;
    assert(k / p == k * (1real / p)) by (nonlinear_arith)
        requires
            p > 0real,
    ;
    lemma_sign(least(1));
}

/// No decimal above zero is smaller than the smallest one.
pub proof fn lemma_least_is_least(d: Dec)
    requires
        valid(d),
        d.0 > 0,
    ensures
        num(least(1)) <= num(d),
{
    let p = ten_to(d.1 as nat);
    let top = ten_to(MAX_SCALE as nat);
    lemma_pow_positive(10, d.1 as nat);
    lemma_pow_increases(10, d.1 as nat, MAX_SCALE as nat);
    let m = d.0 as real;
    let a = p as real;
    let b = top as real;
    assert(1real / b <= m / a) by (nonlinear_arith)
        requires
            0real < a <= b,
            m >= 1real,
    ;
}

/// Every decimal is within the range.
pub proof fn lemma_in_range(d: Dec)
    requires
        valid(d),
    ensures
        in_range(num(d)),
{
    lemma_pow_positive(10, d.1 as nat);
    let m = d.0 as real;
    let p = ten_to(d.1 as nat) as real;
    let top = whole(MAX_MANTISSA as int);
    assert(-top <= m / p <= top) by (nonlinear_arith)
        requires
            p >= 1real,
            -top <= m <= top,
            top > 0real,
    ;
}

/// Dividing by a whole number leaves a decimal within the range.
proof fn lemma_whole_quotient(a: Dec, b: Dec)
    requires
        valid(a),
        small_whole(b),
    ensures
        in_range(num(a) / num(b)),
{
    lemma_in_range(a);
    lemma_whole_number(b.0 as int);
    let x = num(a);
    let y = num(b);
    let top = whole(MAX_MANTISSA as int);
    assert(-top <= x / y <= top) by (nonlinear_arith)
        requires
            -top <= x <= top,
            y >= 1real || y <= -1real,
            top > 0real,
    ;
}

/// A decimal has the sign of its mantissa.
pub proof fn lemma_sign(d: Dec)
    ensures
        num(d) > whole(0) <==> d.0 > 0,
        num(d) == whole(0) <==> d.0 == 0,
        num(d) < whole(0) <==> d.0 < 0,
{
    lemma_pow_positive(10, d.1 as nat);
    let m = d.0 as real;
    let p = ten_to(d.1 as nat) as real;
    let x = num(d);
    assert(x * p == m) by (nonlinear_arith)
        requires
            x == m / p,
            p > 0real,
    ;
    assert(x > 0real <==> m > 0real) by (nonlinear_arith)
        requires
            x * p == m,
            p > 0real,
    ;
    assert(x == 0real <==> m == 0real) by (nonlinear_arith)
        requires
            x * p == m,
            p > 0real,
    ;
}

/// The floor of a decimal is the whole number just at or below it.
pub proof fn lemma_floor(d: Dec)
    requires
        valid(d),
    ensures
        floor_of(d).1 == 0,
        whole(floor_of(d).0 as int) <= num(d) < whole(floor_of(d).0 + 1),
        -MAX_MANTISSA <= floor_of(d).0 <= MAX_MANTISSA,
        count_of(floor_of(d)) == if 0 <= floor_of(d).0 <= u32::MAX {
            Some(floor_of(d).0 as u32)
        } else {
            None::<u32>
        },
{
    lemma_pow0(10);
    lemma_pow_positive(10, d.1 as nat);
    let p = ten_to(d.1 as nat);
    let n = d.0 as int;
    let f = n / p;
    if d.1 == 0 {
        lemma_whole_number(n);
        assert(dec_of(n) == d);
    } else {
        lemma_fundamental_div_mod(n, p);
        assert(-MAX_MANTISSA <= f <= MAX_MANTISSA) by (nonlinear_arith)
            requires
                n == p * f + n % p,
                0 <= n % p < p,
                -MAX_MANTISSA <= n <= MAX_MANTISSA,
                p >= 1,
        ;
        assert(f * p <= n < (f + 1) * p) by (nonlinear_arith)
            requires
                n == p * f + n % p,
                0 <= n % p < p,
        ;
        lemma_between(f, n, p);
    }
    assert(floor_of(d).0 as int / 1 == floor_of(d).0 as int);
}

/// The ceiling of a decimal is the whole number just at or above it.
pub proof fn lemma_ceil(d: Dec)
    requires
        valid(d),
    ensures
        ceil_of(d).1 == 0,
        whole(ceil_of(d).0 - 1) < num(d) <= whole(ceil_of(d).0 as int),
        -MAX_MANTISSA <= ceil_of(d).0 <= MAX_MANTISSA,
{
    lemma_pow0(10);
    lemma_pow_positive(10, d.1 as nat);
    let p = ten_to(d.1 as nat);
    let n = d.0 as int;
    if d.1 == 0 {
        lemma_whole_number(n);
        assert(dec_of(n) == d);
    } else {
        let f = -n / p;
        lemma_fundamental_div_mod(-n, p);
        assert(-MAX_MANTISSA <= f <= MAX_MANTISSA) by (nonlinear_arith)
            requires
                -n == p * f + -n % p,
                0 <= -n % p < p,
                -MAX_MANTISSA <= n <= MAX_MANTISSA,
                p >= 1,
        ;
        assert(f * p <= -n < (f + 1) * p) by (nonlinear_arith)
            requires
                -n == p * f + -n % p,
                0 <= -n % p < p,
        ;
        lemma_between(f, -n, p);
        let x = n as real;
        let q = p as real;
        assert((-x) / q == -(x / q)) by (nonlinear_arith)
            requires
                q > 0real,
        ;
    }
}

proof fn lemma_between(f: int, n: int, p: int)
    requires
        p > 0,
        f * p <= n < (f + 1) * p,
    ensures
        whole(f) <= (n as real) / (p as real) < whole(f + 1),
{
    let x = n as real;
    let q = p as real;
    let a = f as real;
    assert((f * p) as real == (f as real) * (p as real)) by (nonlinear_arith);
    assert(((f + 1) * p) as real == ((f + 1) as real) * (p as real)) by (nonlinear_arith);
    assert(a <= x / q) by (nonlinear_arith)
        requires
            q > 0real,
            a * q <= x,
    ;
    assert(x / q < a + 1real) by (nonlinear_arith)
        requires
            q > 0real,
            x < (a + 1real) * q,
    ;
}

/// Whether a decimal is a nonzero whole number of at most 32 bits.
pub open spec fn small_whole(d: Dec) -> bool {
    d.1 == 0 && d.0 != 0 && -(u32::MAX as int) <= d.0 <= u32::MAX
}

/// The decimal without trailing zeros in its fraction.
pub open spec fn normal_of(d: Dec) -> Dec
    decreases d.1,
{
    if d.0 == 0 {
        dec_of(0)
    } else if is_normal(d) {
        d
    } else {
        normal_of(((d.0 as int / 10) as i128, (d.1 - 1) as u32))
    }
}

/// The sum of two decimals, `None` where it leaves the range.
pub uninterp spec fn decimal_sum(a: (i128, u32), b: (i128, u32)) -> Option<(i128, u32)>;

/// `Decimal::checked_add`. Claimed: a sum within the range is returned; an exactly
/// representable one is exact; a rounded one stays between the same decimals and between the
/// same whole numbers.
#[verifier::external_body]
fn outside_sum(a: (i128, u32), b: (i128, u32)) -> (r: Option<(i128, u32)>)
    requires
        valid(a),
        valid(b),
    ensures
        r == decimal_sum(a, b),
        rounds(num(a) + num(b), r),
        in_range(num(a) + num(b)) ==> r is Some,
{
    let x = rust_decimal::Decimal::from_i128_with_scale(a.0, a.1);
    let y = rust_decimal::Decimal::from_i128_with_scale(b.0, b.1);
    x.checked_add(y).map(|z| (z.mantissa(), z.scale()))
}

/// The difference of two decimals, `None` where it leaves the range.
pub uninterp spec fn decimal_difference(a: (i128, u32), b: (i128, u32)) -> Option<(i128, u32)>;

/// `Decimal::checked_sub`. Claimed: a difference within the range is returned; an exactly
/// representable one is exact; a rounded one stays between the same decimals and between the
/// same whole numbers.
#[verifier::external_body]
fn outside_difference(a: (i128, u32), b: (i128, u32)) -> (r: Option<(i128, u32)>)
    requires
        valid(a),
        valid(b),
    ensures
        r == decimal_difference(a, b),
        rounds(num(a) - num(b), r),
        in_range(num(a) - num(b)) ==> r is Some,
{
    let x = rust_decimal::Decimal::from_i128_with_scale(a.0, a.1);
    let y = rust_decimal::Decimal::from_i128_with_scale(b.0, b.1);
    x.checked_sub(y).map(|z| (z.mantissa(), z.scale()))
}

/// The product of two decimals, `None` where it leaves the range.
pub uninterp spec fn decimal_product(a: (i128, u32), b: (i128, u32)) -> Option<(i128, u32)>;

/// `Decimal::checked_mul`. Claimed: a product within the range is returned; an exactly
/// representable one is exact; a rounded one stays between the same decimals and between the
/// same whole numbers.
#[verifier::external_body]
fn outside_product(a: (i128, u32), b: (i128, u32)) -> (r: Option<(i128, u32)>)
    requires
        valid(a),
        valid(b),
    ensures
        r == decimal_product(a, b),
        rounds(num(a) * num(b), r),
        in_range(num(a) * num(b)) ==> r is Some,
{
    let x = rust_decimal::Decimal::from_i128_with_scale(a.0, a.1);
    let y = rust_decimal::Decimal::from_i128_with_scale(b.0, b.1);
    x.checked_mul(y).map(|z| (z.mantissa(), z.scale()))
}

/// The quotient of two decimals, `None` where the divisor is zero or the quotient leaves
/// the range.
pub uninterp spec fn decimal_quotient(a: (i128, u32), b: (i128, u32)) -> Option<(i128, u32)>;

/// `Decimal::checked_div`. Claimed: nothing is returned for a zero divisor, and otherwise a
/// quotient within the range is; an exactly representable one is exact; a rounded one stays
/// between the same decimals and between the same whole numbers.
#[verifier::external_body]
fn outside_quotient(a: (i128, u32), b: (i128, u32)) -> (r: Option<(i128, u32)>)
    requires
        valid(a),
        valid(b),
    ensures
        r == decimal_quotient(a, b),
        b.0 == 0 ==> r is None,
        b.0 != 0 ==> rounds(num(a) / num(b), r),
        b.0 != 0 && in_range(num(a) / num(b)) ==> r is Some,
{
    let x = rust_decimal::Decimal::from_i128_with_scale(a.0, a.1);
    let y = rust_decimal::Decimal::from_i128_with_scale(b.0, b.1);
    x.checked_div(y).map(|z| (z.mantissa(), z.scale()))
}

/// `Decimal::cmp`. Claimed: two decimals compare as the numbers they stand for.
#[verifier::external_body]
fn outside_order(a: (i128, u32), b: (i128, u32)) -> (r: Ordering)
    requires
        valid(a),
        valid(b),
    ensures
        r == Ordering::Less <==> num(a) < num(b),
        r == Ordering::Equal <==> num(a) == num(b),
        r == Ordering::Greater <==> num(a) > num(b),
{
    let x = rust_decimal::Decimal::from_i128_with_scale(a.0, a.1);
    x.cmp(&rust_decimal::Decimal::from_i128_with_scale(b.0, b.1))
}

/// `Decimal::floor`. Claimed: the largest whole number at or below the decimal.
#[verifier::external_body]
fn outside_floor(d: (i128, u32)) -> (r: (i128, u32))
    requires
        valid(d),
    ensures
        r == floor_of(d),
        valid(r),
{
    let x = rust_decimal::Decimal::from_i128_with_scale(d.0, d.1).floor();
    (x.mantissa(), x.scale())
}

/// `Decimal::ceil`. Claimed: the smallest whole number at or above the decimal.
#[verifier::external_body]
fn outside_ceil(d: (i128, u32)) -> (r: (i128, u32))
    requires
        valid(d),
    ensures
        r == ceil_of(d),
        valid(r),
{
    let x = rust_decimal::Decimal::from_i128_with_scale(d.0, d.1).ceil();
    (x.mantissa(), x.scale())
}

/// `Decimal::round_dp`. Claimed: a decimal with more than `dp` fractional digits is rounded
/// to `dp` of them, a tie to the even last digit; any other stays as it is.
#[verifier::external_body]
fn outside_round(d: (i128, u32), dp: u32) -> (r: (i128, u32))
    requires
        valid(d),
    ensures
        r == rounded_to(d, dp),
        valid(r),
{
    let x = rust_decimal::Decimal::from_i128_with_scale(d.0, d.1).round_dp(dp);
    (x.mantissa(), x.scale())
}

/// `Decimal::normalize`. Claimed: the same number, its fraction without trailing zeros.
#[verifier::external_body]
fn outside_normal(d: (i128, u32)) -> (r: (i128, u32))
    requires
        valid(d),
    ensures
        r == normal_of(d),
        valid(r),
{
    let x = rust_decimal::Decimal::from_i128_with_scale(d.0, d.1).normalize();
    (x.mantissa(), x.scale())
}

/// `Decimal::to_u32`. Claimed: the whole part, `None` for a negative decimal or one whose
/// whole part is too large.
#[verifier::external_body]
fn outside_count(d: (i128, u32)) -> (r: Option<u32>)
    requires
        valid(d),
    ensures
        r == count_of(d),
{
    let x = rust_decimal::Decimal::from_i128_with_scale(d.0, d.1);
    rust_decimal::prelude::ToPrimitive::to_u32(&x)
}

/// `Decimal::to_string`. Claimed: a sign for a negative number, the whole part, and as many
/// fractional digits as the scale says.
#[verifier::external_body]
fn outside_text(d: (i128, u32)) -> (r: String)
    requires
        valid(d),
    ensures
        r@ == decimal_text(d),
{
    rust_decimal::Decimal::from_i128_with_scale(d.0, d.1).to_string()
}

/// What a text reads as: a decimal, or what is wrong with it.
pub uninterp spec fn decimal_parsed(text: Seq<char>) -> Result<(i128, u32), Seq<char>>;

/// A result of reading with the wording of its error.
pub open spec fn parsed_view(r: Result<(i128, u32), String>) -> Result<(i128, u32), Seq<char>> {
    match r {
        Ok(d) => Ok(d),
        Err(e) => Err(e@),
    }
}

/// Whether a text that is some decimal in writing reads as that decimal.
pub open spec fn reads_written(text: Seq<char>, read: Result<(i128, u32), Seq<char>>) -> bool {
    forall|d: Dec| valid(d) && text == #[trigger] decimal_text(d) ==> read == Ok::<Dec, Seq<char>>(d)
}

/// `Decimal::from_str`. Claimed: the result, the wording of an error included, is a function
/// of the text; a decimal in writing is read as that decimal. Not claimed: what other texts
/// read as.
#[verifier::external_body]
fn outside_parse(text: &str) -> (r: Result<(i128, u32), String>)
    ensures
        reads_written(text@, parsed_view(r)),
        match r {
            Ok(d) => valid(d) && decimal_parsed(text@) == Ok::<(i128, u32), Seq<char>>(d),
            Err(e) => decimal_parsed(text@) == Err::<(i128, u32), Seq<char>>(e@),
        },
{
    match <rust_decimal::Decimal as core::str::FromStr>::from_str(text) {
        Ok(x) => Ok((x.mantissa(), x.scale())),
        Err(e) => Err(e.to_string()),
    }
}

/// Results are combined by the operation that is named, and nothing comes of nothing.
pub proof fn law_results_combine_by_their_operation(a: Dec, b: Dec, c: Option<Dec>)
    ensures
        plus(Some(a), Some(b)) == decimal_sum(a, b),
        minus(Some(a), Some(b)) == decimal_difference(a, b),
        times(Some(a), Some(b)) == decimal_product(a, b),
        over(Some(a), Some(b)) == decimal_quotient(a, b),
        plus(None, c) is None && plus(c, None) is None,
        minus(None, c) is None && minus(c, None) is None,
        times(None, c) is None && times(c, None) is None,
        over(None, c) is None && over(c, None) is None,
{
}

/// Rounding keeps at most the digits asked for, and leaves a number alone that has no more. A
/// number that has more goes to the nearest one with that many, by at most half of the last
/// place; from the middle it goes to the even digit.
pub proof fn law_rounding_is_to_the_nearest(d: Dec, dp: u32)
    requires
        valid(d),
    ensures
        rounded_to(d, dp).1 <= dp,
        d.1 <= dp ==> rounded_to(d, dp) == d,
        d.1 > dp ==> rounded_to(d, dp).1 == dp,
        d.1 > dp ==> ({
            let p = pow(10, (d.1 - dp) as nat);
            let off = 2 * (rounded_to(d, dp).0 * p - d.0);
            &&& -p <= off <= p
            &&& (off == p || off == -p) ==> rounded_to(d, dp).0 as int % 2 == 0
        }),
{
    if d.1 > dp {
        let p = ten_to((d.1 - dp) as nat);
        let n = d.0 as int;
        lemma_pow_positive(10, (d.1 - dp) as nat);
        lemma_fundamental_div_mod(n, p);
        let q = n / p;
        let rest = n % p;
        assert(-MAX_MANTISSA <= q <= MAX_MANTISSA) by (nonlinear_arith)
            requires
                n == p * q + rest,
                0 <= rest < p,
                -MAX_MANTISSA <= n <= MAX_MANTISSA,
                p >= 1,
        ;
        let h = half_even(n, p);
        assert(h == q || h == q + 1);
        assert(h as i128 as int == h);
        assert(q * p - n == -rest) by (nonlinear_arith)
            requires
                n == p * q + rest,
        ;
        assert((q + 1) * p - n == p - rest) by (nonlinear_arith)
            requires
                n == p * q + rest,
        ;
        if 2 * rest == p {
            assert(h % 2 == 0);
        }
    }
}

/// Dropping trailing zeros keeps the number, and leaves none in the fraction.
pub proof fn law_normal_form_keeps_the_number(d: Dec)
    ensures
        num(normal_of(d)) == num(d),
        normal_of(d).1 == 0 || (normal_of(d).0 as int) % 10 != 0,
        normal_of(d).1 <= d.1,
    decreases d.1,
{
    lemma_sign(d);
    if d.0 == 0 {
        lemma_sign(dec_of(0));
    } else if !is_normal(d) {
        let n = d.0 as int;
        let next: Dec = ((n / 10) as i128, (d.1 - 1) as u32);
        law_normal_form_keeps_the_number(next);
        lemma_pow_positive(10, (d.1 - 1) as nat);
        reveal(pow);
        let p = ten_to((d.1 - 1) as nat);
        assert(ten_to(d.1 as nat) == 10 * p);
        let q = n / 10;
        assert(n == 10 * q);
        let a = q as real;
        let b = p as real;
        assert(n as real == 10real * a);
        assert(ten_to(d.1 as nat) as real == 10real * b);
        assert(a / b == (10real * a) / (10real * b)) by (nonlinear_arith)
            requires
                b > 0real,
        ;
    }
}

/// The floor and the ceiling of a decimal are the whole numbers on either side of it.
pub proof fn law_floor_and_ceiling_enclose(d: Dec)
    requires
        valid(d),
    ensures
        floor_of(d).1 == 0 && ceil_of(d).1 == 0,
        num(floor_of(d)) <= num(d) < num(floor_of(d)) + 1real,
        num(ceil_of(d)) - 1real < num(d) <= num(ceil_of(d)),
{
    lemma_floor(d);
    lemma_ceil(d);
    lemma_whole_number(floor_of(d).0 as int);
    lemma_whole_number(ceil_of(d).0 as int);
    assert(floor_of(d) == dec_of(floor_of(d).0 as int));
    assert(ceil_of(d) == dec_of(ceil_of(d).0 as int));
}

/// A decimal counts as its whole part: as `n` exactly where it is not negative, at least `n` and
/// below the next whole number; and as nothing where it is negative or too large.
pub proof fn law_counts_are_the_whole_part(d: Dec, n: u32)
    ensures
        count_of(d) == Some(n) <==> d.0 >= 0 && n as real <= num(d) < n as real + 1real,
        count_of(d) is None <==> d.0 < 0 || num(d) >= 4294967296real,
{
    lemma_pow_positive(10, d.1 as nat);
    let p = ten_to(d.1 as nat);
    let m = d.0 as int;
    let k = m / p;
    lemma_fundamental_div_mod(m, p);
    assert(k * p <= m < (k + 1) * p) by (nonlinear_arith)
        requires
            m == p * k + m % p,
            0 <= m % p < p,
    ;
    lemma_between(k, m, p);
    assert(whole(k) <= num(d) < whole(k + 1));
    let next = n as int + 1;
    assert(n as real + 1real == whole(next));
    assert(n as real == whole(n as int));
    if m >= 0 && next <= k {
        assert(whole(next) <= whole(k));
    }
    if m >= 0 && k + 1 <= n {
        assert(whole(k + 1) <= whole(n as int));
    }
    if m >= 0 {
        assert(k >= 0) by (nonlinear_arith)
            requires
                m < (k + 1) * p,
                m >= 0,
                p > 0,
        ;
    }
}

} // verus!

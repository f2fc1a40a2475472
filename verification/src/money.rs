//! Financial value objects: [`Money`], [`Price`], [`Percent`], [`Shares`].
//!
//! Anything that touches an order, a balance, or an average price is an exact
//! [`Decimal`]: rounding errors of a cent would compound across a cycle of buys.

use crate::decimal::{
    count_of, dec_of, decimal_difference, decimal_product, decimal_quotient, decimal_sum,
    decimal_text, floor_of, in_range, lemma_floor, lemma_sign, lemma_whole_number, num,
    representable, rounded_to, rounds, small_whole, whole, Dec, Decimal,
};
use crate::text::{digits, number_text};
use core::ops::{Add, Sub};
use vstd::prelude::*;
use vstd::std_specs::cmp::PartialEqSpecImpl;
use vstd::std_specs::ops::{AddSpecImpl, SubSpecImpl};

verus! {

/// The count a decimal rounds down to, zero where there is none.
pub open spec fn floored_count(d: Dec) -> u32 {
    match count_of(floor_of(d)) {
        Some(n) => n,
        None => 0,
    }
}

/// One of `n` equal tranches of an amount; `n` is at least one.
pub open spec fn tranche(amount: Dec, n: u32) -> Option<Dec> {
    decimal_quotient(amount, dec_of(if n == 0 { 1 } else { n as int }))
}

/// The most whole shares that an amount buys at a price.
pub open spec fn affordable(amount: Dec, price: Dec) -> Option<u32> {
    if price.0 <= 0 {
        Some(0)
    } else {
        match decimal_quotient(amount, price) {
            Some(q) => Some(floored_count(q)),
            None => None,
        }
    }
}

/// A price after a relative move.
pub open spec fn moved(price: Dec, ratio: Dec) -> Option<Dec> {
    match decimal_sum(dec_of(1), ratio) {
        Some(k) => decimal_product(price, k),
        None => None,
    }
}

/// The value of a number of shares at a price.
pub open spec fn total_of(price: Dec, shares: u32) -> Option<Dec> {
    decimal_product(price, dec_of(shares as int))
}

/// A fraction of a number of shares, in whole shares.
pub open spec fn part_of(shares: u32, fraction: Dec) -> Option<u32> {
    match decimal_product(dec_of(shares as int), fraction) {
        Some(p) => Some(floored_count(p)),
        None => None,
    }
}

/// An exact monetary amount in the position's working currency.
#[derive(Clone, Copy, Debug, PartialEq, Eq, PartialOrd)]
pub struct Money(Decimal);

impl View for Money {
    type V = Dec;

    closed spec fn view(&self) -> Dec {
        self.0@
    }
}

impl Money {
    /// No money.
    pub fn zero() -> (r: Money)
        ensures
            r@ == dec_of(0),
    {
        Money(Decimal::zero())
    }

    pub fn new(amount: Decimal) -> (r: Money)
        ensures
            r@ == amount@,
    {
        Money(amount)
    }

    pub fn amount(self) -> (r: Decimal)
        ensures
            r@ == self@,
    {
        self.0
    }

    pub fn is_positive(self) -> (r: bool)
        ensures
            r == (num(self@) > whole(0)),
    {
        proof {
            lemma_sign(self@);
        }
        self.0.is_positive()
    }

    pub fn is_zero(self) -> (r: bool)
        ensures
            r == (num(self@) == whole(0)),
    {
        proof {
            lemma_sign(self@);
        }
        self.0.is_zero()
    }

    /// Split into `n` equal tranches. `n` is taken as at least 1.
    pub fn split(self, n: u32) -> (r: Money)
        ensures
            tranche(self@, n) == Some(r@),
            n > 0 ==> rounds(num(self@) / whole(n as int), Some(r@)),
            n == 0 ==> num(r@) == num(self@),
    {
        let parts: u32 = if n == 0 {
            1
        } else {
            n
        };
        let ghost by = dec_of(parts as int);
        proof {
            lemma_whole_number(parts as int);
            assert(small_whole(by));
            if n == 0 {
                let x = num(self@);
                assert(x / 1real == x) by (nonlinear_arith);
            }
        }
        match self.0.checked_div(Decimal::from_u32(parts)) {
            Some(d) => {
                assert(representable(num(self@)));
                Money(d)
            },
            None => unreached(),
        }
    }

    /// Scale by a ratio.
    pub fn scaled(self, factor: Decimal) -> (r: Money)
        requires
            decimal_product(self@, factor@) is Some,
        ensures
            decimal_product(self@, factor@) == Some(r@),
            rounds(num(self@) * num(factor@), Some(r@)),
    {
        Money(self.0 * factor)
    }

    /// Scale by a ratio; `None` where the amount leaves the range.
    pub fn try_scaled(self, factor: Decimal) -> (r: Option<Money>)
        ensures
            match r {
                Some(m) => decimal_product(self@, factor@) == Some(m@) && rounds(
                    num(self@) * num(factor@),
                    Some(m@),
                ),
                None => decimal_product(self@, factor@) is None,
            },
            in_range(num(self@) * num(factor@)) ==> r is Some,
    {
        match self.0.checked_mul(factor) {
            Some(_) => Some(self.scaled(factor)),
            None => None,
        }
    }

    /// The most whole shares affordable at `price`; none at a price that is not positive.
    /// They cost no more than the amount, unless the quotient was rounded up to a whole
    /// number, and one more would cost more.
    pub fn shares_affordable(self, price: Price) -> (r: Shares)
        requires
            affordable(self@, price@) is Some,
        ensures
            affordable(self@, price@) == Some(r@),
            num(price@) > whole(0) ==> rounds(
                num(self@) / num(price@),
                decimal_quotient(self@, price@),
            ),
            num(price@) > whole(0) && num(self@) >= whole(0) && !is_rounded_up_to(
                decimal_quotient(self@, price@)->0,
                r@,
                num(self@) / num(price@),
            ) ==> whole(r@ as int) * num(price@) <= num(self@),
            num(price@) > whole(0) && num(decimal_quotient(self@, price@)->0) <= whole(
                u32::MAX as int,
            ) ==> num(self@) < whole(r@ + 1) * num(price@),
    {
        proof {
            lemma_sign(price@);
        }
        if !price.0.is_positive() {
            return Shares(0);
        }
        let quotient = match self.0.checked_div(price.0) {
            Some(q) => q,
            None => unreached(),
        };
        let r = Shares(
            match quotient.floor().to_u32() {
                Some(n) => n,
                None => 0,
            },
        );
        proof {
            lemma_affordable(self@, price@, quotient@, r@);
        }
        r
    }

    /// The most whole shares affordable at `price`; `None` where the quotient leaves the
    /// range.
    pub fn try_shares_affordable(self, price: Price) -> (r: Option<Shares>)
        ensures
            match r {
                Some(n) => affordable(self@, price@) == Some(n@),
                None => affordable(self@, price@) is None,
            },
            num(price@) > whole(0) ==> rounds(
                num(self@) / num(price@),
                decimal_quotient(self@, price@),
            ),
            num(price@) > whole(0) ==> (in_range(num(self@) / num(price@)) ==> r is Some),
            num(price@) <= whole(0) ==> r is Some,
    {
        proof {
            lemma_sign(price@);
        }
        if price.0.is_positive() && self.0.checked_div(price.0).is_none() {
            return None;
        }
        Some(self.shares_affordable(price))
    }

    /// Round to whole cents.
    pub fn round_cents(self) -> (r: Money)
        ensures
            r@ == rounded_to(self@, 2),
    {
        Money(self.0.round_dp(2))
    }

    /// The sum, or `None` where it leaves the range.
    pub fn checked_add(self, rhs: Money) -> (r: Option<Money>)
        ensures
            match r {
                Some(m) => decimal_sum(self@, rhs@) == Some(m@) && rounds(
                    num(self@) + num(rhs@),
                    Some(m@),
                ),
                None => decimal_sum(self@, rhs@) is None,
            },
            in_range(num(self@) + num(rhs@)) ==> r is Some,
    {
        match self.0.checked_add(rhs.0) {
            Some(_) => Some(self + rhs),
            None => None,
        }
    }

    /// The difference, or `None` where it leaves the range.
    pub fn checked_sub(self, rhs: Money) -> (r: Option<Money>)
        ensures
            match r {
                Some(m) => decimal_difference(self@, rhs@) == Some(m@) && rounds(
                    num(self@) - num(rhs@),
                    Some(m@),
                ),
                None => decimal_difference(self@, rhs@) is None,
            },
            in_range(num(self@) - num(rhs@)) ==> r is Some,
    {
        match self.0.checked_sub(rhs.0) {
            Some(_) => Some(self - rhs),
            None => None,
        }
    }

    /// The amount in writing, in cents.
    pub fn to_text(self) -> (r: String)
        ensures
            r@ == money_text(self@),
    {
        self.0.round_dp(2).to_text()
    }
}

/// An amount in writing, in cents.
pub open spec fn money_text(amount: Dec) -> Seq<char> {
    decimal_text(rounded_to(amount, 2))
}

/// Whether a quotient is a whole number above the exact one: rounding reached it.
pub open spec fn is_rounded_up_to(q: Dec, n: u32, exact: real) -> bool {
    num(q) == whole(n as int) && exact < num(q)
}

/// A count at or below the exact quotient costs no more than the amount.
pub proof fn lemma_cost(amount: real, price: real, n: u32)
    requires
        price > 0real,
        whole(n as int) <= amount / price,
    ensures
        whole(n as int) * price <= amount,
{
    let k = whole(n as int);
    assert(k * price <= amount) by (nonlinear_arith)
        requires
            k <= amount / price,
            price > 0real,
    ;
}

/// What a rounded quotient, rounded down to a count, says of the exact quotient.
proof fn lemma_affordable(amount: Dec, price: Dec, q: Dec, n: u32)
    requires
        num(price) > whole(0),
        rounds(num(amount) / num(price), Some(q)),
        n == floored_count(q),
    ensures
        num(amount) >= whole(0) && !is_rounded_up_to(q, n, num(amount) / num(price)) ==> whole(
            n as int,
        ) * num(price) <= num(amount),
        num(q) <= whole(u32::MAX as int) ==> num(amount) < whole(n + 1) * num(price),
{
    lemma_floor(q);
    let a = num(amount);
    let p = num(price);
    let x = a / p;
    let k = whole(n as int);
    let next = whole(n + 1);
    if a >= whole(0) {
        assert(0real <= x) by (nonlinear_arith)
            requires
                a >= 0real,
                p > 0real,
                x == a / p,
        ;
    }
    if a >= whole(0) && !is_rounded_up_to(q, n, x) {
        assert(n > 0 ==> k <= num(q));
        assert(k <= x);
        lemma_cost(a, p, n);
    }
    if num(q) <= whole(u32::MAX as int) {
        assert(num(q) < next);
        assert(x < next);
        assert(a < next * p) by (nonlinear_arith)
            requires
                a / p < next,
                p > 0real,
        ;
    }
}

impl AddSpecImpl for Money {
    open spec fn obeys_add_spec() -> bool {
        false
    }

    open spec fn add_req(self, rhs: Money) -> bool {
        decimal_sum(self@, rhs@) is Some
    }

    open spec fn add_spec(self, rhs: Money) -> Money {
        self
    }
}

impl Add for Money {
    type Output = Money;

    fn add(self, rhs: Money) -> (r: Money)
        ensures
            decimal_sum(self@, rhs@) == Some(r@),
            rounds(num(self@) + num(rhs@), Some(r@)),
    {
        Money(self.0 + rhs.0)
    }
}

impl SubSpecImpl for Money {
    open spec fn obeys_sub_spec() -> bool {
        false
    }

    open spec fn sub_req(self, rhs: Money) -> bool {
        decimal_difference(self@, rhs@) is Some
    }

    open spec fn sub_spec(self, rhs: Money) -> Money {
        self
    }
}

impl Sub for Money {
    type Output = Money;

    fn sub(self, rhs: Money) -> (r: Money)
        ensures
            decimal_difference(self@, rhs@) == Some(r@),
            rounds(num(self@) - num(rhs@), Some(r@)),
    {
        Money(self.0 - rhs.0)
    }
}

/// A per-share price. [`Price::new`] makes positive ones only.
#[derive(Clone, Copy, Debug, PartialEq, Eq, PartialOrd)]
pub struct Price(Decimal);

impl View for Price {
    type V = Dec;

    closed spec fn view(&self) -> Dec {
        self.0@
    }
}

impl Price {
    /// A price, or `None` for a value that is not positive.
    pub fn new(value: Decimal) -> (r: Option<Price>)
        ensures
            r is Some <==> num(value@) > whole(0),
            r matches Some(p) ==> p@ == value@,
            r is Some <==> value@.0 > 0,
    {
        proof {
            lemma_sign(value@);
        }
        if value.is_positive() {
            Some(Price(value))
        } else {
            None
        }
    }

    pub fn value(self) -> (r: Decimal)
        ensures
            r@ == self@,
    {
        self.0
    }

    /// Apply a relative move: a move of 15 percent gives `price * 1.15`.
    pub fn adjusted(self, pct: Percent) -> (r: Price)
        requires
            moved(self@, pct@) is Some,
        ensures
            moved(self@, pct@) == Some(r@),
    {
        Price(self.0 * (Decimal::one() + pct.0))
    }

    /// Apply a relative move; `None` where the price leaves the range.
    pub fn try_adjusted(self, pct: Percent) -> (r: Option<Price>)
        ensures
            match r {
                Some(p) => moved(self@, pct@) == Some(p@),
                None => moved(self@, pct@) is None,
            },
    {
        match Decimal::one().checked_add(pct.0) {
            Some(k) => match self.0.checked_mul(k) {
                Some(_) => Some(self.adjusted(pct)),
                None => None,
            },
            None => None,
        }
    }

    /// Total value of `shares` at this price.
    pub fn total(self, shares: Shares) -> (r: Money)
        requires
            total_of(self@, shares@) is Some,
        ensures
            total_of(self@, shares@) == Some(r@),
            rounds(num(self@) * whole(shares@ as int), Some(r@)),
    {
        proof {
            lemma_whole_number(shares@ as int);
        }
        Money(self.0 * Decimal::from_u32(shares.0))
    }

    /// Total value of `shares` at this price; `None` where it leaves the range.
    pub fn try_total(self, shares: Shares) -> (r: Option<Money>)
        ensures
            match r {
                Some(m) => total_of(self@, shares@) == Some(m@) && rounds(
                    num(self@) * whole(shares@ as int),
                    Some(m@),
                ),
                None => total_of(self@, shares@) is None,
            },
            in_range(num(self@) * whole(shares@ as int)) ==> r is Some,
    {
        proof {
            lemma_whole_number(shares@ as int);
        }
        match self.0.checked_mul(Decimal::from_u32(shares.0)) {
            Some(_) => Some(self.total(shares)),
            None => None,
        }
    }

    /// The price in writing.
    pub fn to_text(self) -> (r: String)
        ensures
            r@ == decimal_text(self@),
    {
        self.0.to_text()
    }
}

/// A relative ratio.
#[derive(Clone, Copy, Debug, PartialEq, Eq, PartialOrd)]
pub struct Percent(Decimal);

impl View for Percent {
    type V = Dec;

    closed spec fn view(&self) -> Dec {
        self.0@
    }
}

impl Percent {
    pub fn from_ratio(ratio: Decimal) -> (r: Percent)
        ensures
            r@ == ratio@,
    {
        Percent(ratio)
    }

    /// The ratio of a number of hundredths, exact wherever a decimal can hold it.
    pub fn from_percent(percent: Decimal) -> (r: Percent)
        ensures
            decimal_quotient(percent@, dec_of(100)) == Some(r@),
            rounds(num(percent@) / whole(100), Some(r@)),
    {
        proof {
            lemma_whole_number(100);
            assert(small_whole(dec_of(100)));
        }
        match percent.checked_div(Decimal::from_u32(100)) {
            Some(d) => Percent(d),
            None => unreached(),
        }
    }

    pub fn ratio(self) -> (r: Decimal)
        ensures
            r@ == self@,
    {
        self.0
    }
}

/// A whole-share quantity.
#[derive(Clone, Copy, Debug)]
pub struct Shares(u32);

impl View for Shares {
    type V = u32;

    closed spec fn view(&self) -> u32 {
        self.0
    }
}

impl Shares {
    /// No shares.
    pub fn zero() -> (r: Shares)
        ensures
            r@ == 0,
    {
        Shares(0)
    }

    pub fn new(count: u32) -> (r: Shares)
        ensures
            r@ == count,
    {
        Shares(count)
    }

    pub fn get(self) -> (r: u32)
        ensures
            r == self@,
    {
        self.0
    }

    pub fn is_zero(self) -> (r: bool)
        ensures
            r == (self@ == 0),
    {
        self.0 == 0
    }

    /// Floor a fraction of these shares. A fraction between zero and one never gives more
    /// than there are.
    pub fn fraction_floor(self, fraction: Decimal) -> (r: Shares)
        requires
            part_of(self@, fraction@) is Some,
        ensures
            part_of(self@, fraction@) == Some(r@),
            num(fraction@) <= whole(1) ==> r@ <= self@,
    {
        let product = match Decimal::from_u32(self.0).checked_mul(fraction) {
            Some(p) => p,
            None => unreached(),
        };
        proof {
            lemma_floor(product@);
            lemma_whole_number(self@ as int);
            let n = whole(self@ as int);
            let f = num(fraction@);
            if f <= whole(1) {
                assert(n * f <= n) by (nonlinear_arith)
                    requires
                        f <= 1real,
                        n >= 0real,
                ;
            }
        }
        match product.floor().to_u32() {
            Some(n) => Shares(n),
            None => Shares(0),
        }
    }

    /// Floor a fraction of these shares; `None` where the product leaves the range.
    pub fn try_fraction_floor(self, fraction: Decimal) -> (r: Option<Shares>)
        ensures
            match r {
                Some(n) => part_of(self@, fraction@) == Some(n@),
                None => part_of(self@, fraction@) is None,
            },
            in_range(whole(self@ as int) * num(fraction@)) ==> r is Some,
    {
        proof {
            lemma_whole_number(self@ as int);
        }
        match Decimal::from_u32(self.0).checked_mul(fraction) {
            Some(_) => Some(self.fraction_floor(fraction)),
            None => None,
        }
    }

    /// The sum, or `None` where it leaves the range.
    pub fn checked_add(self, rhs: Shares) -> (r: Option<Shares>)
        ensures
            r is Some <==> self@ + rhs@ <= u32::MAX,
            r matches Some(n) ==> n@ == self@ + rhs@,
    {
        if self.0 <= u32::MAX - rhs.0 {
            Some(self + rhs)
        } else {
            None
        }
    }

    /// The number in writing.
    pub fn to_text(self) -> (r: String)
        ensures
            r@ == digits(self@ as nat),
    {
        number_text(self.0 as u64)
    }
}

impl Default for Shares {
    fn default() -> (r: Shares)
        ensures
            r@ == 0,
    {
        Shares(0)
    }
}

impl PartialEqSpecImpl for Shares {
    open spec fn obeys_eq_spec() -> bool {
        true
    }

    open spec fn eq_spec(&self, other: &Shares) -> bool {
        self@ == other@
    }
}

impl PartialEq for Shares {
    fn eq(&self, other: &Shares) -> (r: bool) {
        self.0 == other.0
    }
}

impl Eq for Shares {

}

impl AddSpecImpl for Shares {
    open spec fn obeys_add_spec() -> bool {
        false
    }

    open spec fn add_req(self, rhs: Shares) -> bool {
        self@ + rhs@ <= u32::MAX
    }

    open spec fn add_spec(self, rhs: Shares) -> Shares {
        self
    }
}

impl Add for Shares {
    type Output = Shares;

    fn add(self, rhs: Shares) -> (r: Shares)
        ensures
            r@ == self@ + rhs@,
    {
        Shares(self.0 + rhs.0)
    }
}

impl SubSpecImpl for Shares {
    open spec fn obeys_sub_spec() -> bool {
        false
    }

    open spec fn sub_req(self, rhs: Shares) -> bool {
        true
    }

    open spec fn sub_spec(self, rhs: Shares) -> Shares {
        self
    }
}

/// What is left of a number of shares: never less than none.
pub open spec fn left_of(have: u32, less: u32) -> u32 {
    if have >= less {
        (have - less) as u32
    } else {
        0
    }
}

impl Sub for Shares {
    type Output = Shares;

    fn sub(self, rhs: Shares) -> (r: Shares)
        ensures
            r@ == left_of(self@, rhs@),
    {
        if self.0 >= rhs.0 {
            Shares(self.0 - rhs.0)
        } else {
            Shares(0)
        }
    }
}

/// A decimal counts as the whole number at or below it where that is a count of 32 bits, and
/// as none otherwise.
pub proof fn law_counts_are_rounded_down(d: Dec)
    requires
        crate::decimal::valid(d),
    ensures
        0real <= num(d) < 4294967296real ==> floored_count(d) as real <= num(d) < floored_count(d)
            as real + 1real,
        num(d) < 0real || num(d) >= 4294967296real ==> floored_count(d) == 0,
{
    lemma_floor(d);
}

/// A tranche is the amount over the number of tranches, and the whole amount over one where no
/// number is given.
pub proof fn law_tranches_divide_the_amount(amount: Dec, n: u32)
    ensures
        n > 0 ==> tranche(amount, n) == decimal_quotient(amount, (n as i128, 0u32)),
        n == 0 ==> tranche(amount, n) == decimal_quotient(amount, (1i128, 0u32)),
{
}

/// At a price that is not positive nothing is affordable. At any other, the shares are the
/// whole part of amount over price; there is no answer exactly where that leaves the range.
pub proof fn law_affordable_shares_are_amount_over_price(amount: Dec, price: Dec)
    requires
        decimal_quotient(amount, price) matches Some(q) ==> crate::decimal::valid(q),
    ensures
        num(price) <= 0real ==> affordable(amount, price) == Some(0u32),
        num(price) > 0real ==> (affordable(amount, price) is None <==> decimal_quotient(
            amount,
            price,
        ) is None),
        num(price) > 0real ==> (decimal_quotient(amount, price) matches Some(q) ==> (0real <= num(q)
            < 4294967296real ==> affordable(amount, price)->0 as real <= num(q) < affordable(
            amount,
            price,
        )->0 as real + 1real)),
        num(price) > 0real ==> (decimal_quotient(amount, price) matches Some(q) ==> (num(q) < 0real
            || num(q) >= 4294967296real ==> affordable(amount, price) == Some(0u32))),
{
    lemma_sign(price);
    if decimal_quotient(amount, price) is Some {
        law_counts_are_rounded_down(decimal_quotient(amount, price)->0);
    }
}

/// A move multiplies the price by one and the ratio, and a total by the number of shares.
pub proof fn law_moves_and_totals_multiply_the_price(price: Dec, ratio: Dec, shares: u32)
    ensures
        decimal_sum((1i128, 0u32), ratio) is None ==> moved(price, ratio) is None,
        decimal_sum((1i128, 0u32), ratio) matches Some(k) ==> moved(price, ratio)
            == decimal_product(price, k),
        total_of(price, shares) == decimal_product(price, (shares as i128, 0u32)),
{
}

/// A part of some shares is the whole part of the product, and none where that is negative.
pub proof fn law_parts_are_rounded_down(shares: u32, fraction: Dec)
    requires
        decimal_product((shares as i128, 0u32), fraction) matches Some(p)
            ==> crate::decimal::valid(p),
    ensures
        part_of(shares, fraction) is None <==> decimal_product(
            (shares as i128, 0u32),
            fraction,
        ) is None,
        decimal_product((shares as i128, 0u32), fraction) matches Some(p) ==> (0real <= num(p)
            < 4294967296real ==> part_of(shares, fraction)->0 as real <= num(p) < part_of(
            shares,
            fraction,
        )->0 as real + 1real),
        decimal_product((shares as i128, 0u32), fraction) matches Some(p) ==> (num(p) < 0real
            || num(p) >= 4294967296real ==> part_of(shares, fraction) == Some(0u32)),
{
    if decimal_product((shares as i128, 0u32), fraction) is Some {
        law_counts_are_rounded_down(decimal_product((shares as i128, 0u32), fraction)->0);
    }
}

/// Taking shares away leaves what makes up the difference, and none where there were fewer.
pub proof fn law_what_is_left_makes_up_the_difference(have: u32, less: u32)
    ensures
        less <= have ==> left_of(have, less) + less == have,
        less > have ==> left_of(have, less) == 0,
{
}

/// Amounts are written with at most two decimals, those of the nearest cent.
pub proof fn law_amounts_are_written_in_cents(amount: Dec)
    requires
        crate::decimal::valid(amount),
    ensures
        exists|cents: Dec| #[trigger]
            decimal_text(cents) == money_text(amount) && cents.1 <= 2 && (amount.1 <= 2 ==> cents
                == amount) && (amount.1 > 2 ==> cents.1 == 2 && {
                let p = vstd::arithmetic::power::pow(10, (amount.1 - 2) as nat);
                let off = 2 * (cents.0 * p - amount.0);
                -p <= off <= p && ((off == p || off == -p) ==> cents.0 as int % 2 == 0)
            }),
{
    let cents = rounded_to(amount, 2);
    crate::decimal::law_rounding_is_to_the_nearest(amount, 2);
    assert(decimal_text(cents) == money_text(amount));
}

} // verus!

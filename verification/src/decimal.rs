//! Decimal numbers: prices, basis points and amounts of money.
//!
//! A number is a mantissa and the count of its digits behind the decimal point. The arithmetic is
//! that of `rust_decimal`, called through the functions at the end of this file.

use vstd::prelude::*;

use crate::text::{counts_are_digits, digit_char, digits, free_of, is_digit};

verus! {

/// The decimal number `mantissa / 10^scale`. A zero carries no sign.
#[derive(Clone, Copy, Debug, PartialEq, Eq, Structural)]
pub struct Decimal {
    mantissa: i128,
    scale: u32,
}

/// A number was too large on the way to a result.
#[derive(Clone, Copy, Debug, PartialEq, Eq, Structural)]
pub struct Overflow;

/// The largest mantissa, `2^96 - 1`.
pub const MAX_MANTISSA: i128 = 0xffff_ffff_ffff_ffff_ffff_ffff;

/// The largest count of digits behind the decimal point.
pub const MAX_SCALE: u32 = 28;

/// `10^n`.
pub open spec fn pow10(n: nat) -> nat
    decreases n,
{
    if n == 0 {
        1
    } else {
        10 * pow10((n - 1) as nat)
    }
}

/// Whether `m` is a mantissa.
pub open spec fn fits(m: int) -> bool {
    -MAX_MANTISSA <= m <= MAX_MANTISSA
}

/// The size of `n` without its sign.
pub open spec fn size_of_int(n: int) -> nat {
    if n < 0 {
        (-n) as nat
    } else {
        n as nat
    }
}

/// Whether the number `a` is below the number `b`.
pub open spec fn below(a: Decimal, b: Decimal) -> bool {
    a.mantissa_spec() * pow10(b.scale_spec()) < b.mantissa_spec() * pow10(a.scale_spec())
}

/// The mantissa of `d` when it is written with `scale` digits behind the point.
pub open spec fn mantissa_at(d: Decimal, scale: nat) -> int {
    d.mantissa_spec() * pow10((scale - d.scale_spec()) as nat)
}

/// The larger of two counts.
pub open spec fn larger(a: nat, b: nat) -> nat {
    if a >= b {
        a
    } else {
        b
    }
}

/// `n / d`, rounded to the nearest number, and to the even one of two that are equally near.
pub open spec fn half_even(n: nat, d: nat) -> nat {
    let q = n / d;
    let r = n % d;
    if 2 * r > d || (2 * r == d && q % 2 == 1) {
        q + 1
    } else {
        q
    }
}

/// Exactly `width` digits: the last ones of `n`, with zeros before them where `n` is short.
pub open spec fn padded_digits(n: nat, width: nat) -> Seq<char>
    decreases width,
{
    if width == 0 {
        Seq::empty()
    } else {
        padded_digits(n / 10, (width - 1) as nat).push(digit_char(n % 10))
    }
}

/// The number in decimal: a minus sign where it is negative, the whole part, and behind a point
/// as many digits as its scale says.
pub open spec fn decimal_text(d: Decimal) -> Seq<char> {
    let size = size_of_int(d.mantissa_spec());
    let sign: Seq<char> = if d.mantissa_spec() < 0 { seq!['-'] } else { Seq::empty() };
    let whole = digits(size / pow10(d.scale_spec()));
    if d.scale_spec() == 0 {
        sign + whole
    } else {
        sign + whole + seq!['.'] + padded_digits(size % pow10(d.scale_spec()), d.scale_spec())
    }
}

impl Decimal {
    /// The mantissa.
    pub closed spec fn mantissa_spec(self) -> int {
        self.mantissa as int
    }

    /// The count of digits behind the decimal point.
    pub closed spec fn scale_spec(self) -> nat {
        self.scale as nat
    }

    /// The number with the mantissa `m` and `s` digits behind the point.
    pub closed spec fn made(m: int, s: nat) -> Decimal {
        Decimal { mantissa: m as i128, scale: s as u32 }
    }

    /// The mantissa has at most 96 bits, and at most 28 digits stand behind the point.
    #[verifier::type_invariant]
    pub closed spec fn valid(self) -> bool {
        fits(self.mantissa as int) && self.scale <= MAX_SCALE
    }

    /// The number with the given mantissa and scale, if there is one.
    pub fn new(mantissa: i128, scale: u32) -> (number: Option<Decimal>)
        ensures
            number is Some <==> fits(mantissa as int) && scale <= MAX_SCALE,
            number matches Some(d) ==> d == Decimal::made(mantissa as int, scale as nat)
                && d.mantissa_spec() == mantissa && d.scale_spec() == scale,
    {
        if -MAX_MANTISSA <= mantissa && mantissa <= MAX_MANTISSA && scale <= MAX_SCALE {
            Some(Decimal { mantissa, scale })
        } else {
            None
        }
    }

    /// The mantissa.
    pub fn mantissa(&self) -> (m: i128)
        ensures
            m == self.mantissa_spec(),
            fits(m as int),
    {
        proof {
            use_type_invariant(self);
        }
        self.mantissa
    }

    /// The count of digits behind the decimal point.
    pub fn scale(&self) -> (s: u32)
        ensures
            s == self.scale_spec(),
            s <= MAX_SCALE,
    {
        proof {
            use_type_invariant(self);
        }
        self.scale
    }

    /// The whole number `n`.
    pub fn of_int(n: i64) -> (d: Decimal)
        ensures
            d == Decimal::made(n as int, 0),
            d.mantissa_spec() == n,
            d.scale_spec() == 0,
    {
        Decimal { mantissa: n as i128, scale: 0 }
    }

    /// Zero.
    pub fn zero() -> (d: Decimal)
        ensures
            d == zero_spec(),
    {
        Decimal { mantissa: 0, scale: 0 }
    }

    /// The sum, or nothing where it is too large.
    pub fn plus(self, other: Decimal) -> (sum: Option<Decimal>)
        ensures
            sum == decimal_sum(self, other),
            right_sum(self, other, sum),
    {
        proof {
            use_type_invariant(&self);
            use_type_invariant(&other);
        }
        checked_add(self, other)
    }

    /// The difference, or nothing where it is too large.
    pub fn minus(self, other: Decimal) -> (difference: Option<Decimal>)
        ensures
            difference == decimal_difference(self, other),
            right_difference(self, other, difference),
    {
        proof {
            use_type_invariant(&self);
            use_type_invariant(&other);
        }
        checked_sub(self, other)
    }

    /// The product, or nothing where it is too large.
    pub fn times(self, other: Decimal) -> (product: Option<Decimal>)
        ensures
            product == decimal_product(self, other),
            right_product(self, other, product),
    {
        proof {
            use_type_invariant(&self);
            use_type_invariant(&other);
        }
        checked_mul(self, other)
    }

    /// The quotient, or nothing where `other` is zero or the quotient is too large.
    pub fn over(self, other: Decimal) -> (quotient: Option<Decimal>)
        ensures
            quotient == decimal_quotient(self, other),
            right_quotient(self, other, quotient),
    {
        proof {
            use_type_invariant(&self);
            use_type_invariant(&other);
        }
        checked_div(self, other)
    }

    /// Whether this number is below `other`.
    pub fn less(&self, other: &Decimal) -> (yes: bool)
        ensures
            yes == below(*self, *other),
    {
        proof {
            use_type_invariant(self);
            use_type_invariant(other);
        }
        less_than(*self, *other)
    }

    /// Whether this number is above zero.
    pub fn is_positive(&self) -> (yes: bool)
        ensures
            yes == self.positive(),
    {
        self.mantissa > 0
    }

    /// Whether this number is below zero.
    pub fn is_negative(&self) -> (yes: bool)
        ensures
            yes == self.negative(),
    {
        self.mantissa < 0
    }

    /// Below zero.
    pub open spec fn negative(self) -> bool {
        self.mantissa_spec() < 0
    }

    /// Above zero.
    pub open spec fn positive(self) -> bool {
        self.mantissa_spec() > 0
    }

    /// The number with the other sign.
    pub fn negated(self) -> (d: Decimal)
        ensures
            d == self.negated_spec(),
    {
        proof {
            use_type_invariant(&self);
        }
        Decimal { mantissa: -self.mantissa, scale: self.scale }
    }

    /// The number with the other sign.
    pub open spec fn negated_spec(self) -> Decimal {
        Decimal::made(-self.mantissa_spec(), self.scale_spec())
    }

    /// The number without its sign.
    pub fn abs(self) -> (d: Decimal)
        ensures
            d == self.abs_spec(),
    {
        if self.mantissa < 0 {
            self.negated()
        } else {
            self
        }
    }

    /// The number without its sign.
    pub open spec fn abs_spec(self) -> Decimal {
        if self.mantissa_spec() < 0 {
            self.negated_spec()
        } else {
            self
        }
    }

    /// The number with at most `places` digits behind the point. A digit is dropped by rounding
    /// to the nearest number, and to the even one of two that are equally near.
    pub fn round_dp(self, places: u32) -> (d: Decimal)
        ensures
            d == self.rounded(places as nat),
    {
        proof {
            use_type_invariant(&self);
        }
        rounded_to(self, places)
    }

    /// The number with at most `places` digits behind the point.
    pub open spec fn rounded(self, places: nat) -> Decimal {
        if self.scale_spec() <= places {
            self
        } else {
            let size = half_even(
                size_of_int(self.mantissa_spec()),
                pow10((self.scale_spec() - places) as nat),
            );
            Decimal::made(
                if self.mantissa_spec() < 0 {
                    -(size as int)
                } else {
                    size as int
                },
                places,
            )
        }
    }

    /// The number in decimal.
    pub fn text(&self) -> (t: String)
        ensures
            t@ == decimal_text(*self),
            decimal_parsed(t@) == Some(*self),
    {
        proof {
            use_type_invariant(self);
        }
        printed(*self)
    }

    /// Reads a number.
    pub fn parse(text: &str) -> (number: Option<Decimal>)
        ensures
            number == decimal_parsed(text@),
    {
        parsed(text)
    }
}

/// Zero.
pub open spec fn zero_spec() -> Decimal {
    Decimal::made(0, 0)
}

/// The whole number `n`.
pub open spec fn whole(n: int) -> Decimal {
    Decimal::made(n, 0)
}

/// What is known of a sum: adding to or from a zero gives the other number as it is, and where both
/// numbers and their sum fit when written with the larger of the two scales, the sum is exact and
/// has that scale.
pub open spec fn right_sum(a: Decimal, b: Decimal, sum: Option<Decimal>) -> bool {
    let s = larger(a.scale_spec(), b.scale_spec());
    let (x, y) = (mantissa_at(a, s), mantissa_at(b, s));
    &&& a.mantissa_spec() == 0 ==> sum == Some(b)
    &&& a.mantissa_spec() != 0 && b.mantissa_spec() == 0 ==> sum == Some(a)
    &&& x != 0 && y != 0 && fits(x) && fits(y) && fits(x + y) ==> sum == Some(
        Decimal::made(x + y, s),
    )
}

/// What is known of a difference: taking a zero away gives the first number as it is, taking from
/// zero the second one negated, and where both numbers and their difference fit when written with
/// the larger of the two scales, the difference is exact and has that scale.
pub open spec fn right_difference(a: Decimal, b: Decimal, difference: Option<Decimal>) -> bool {
    let s = larger(a.scale_spec(), b.scale_spec());
    let (x, y) = (mantissa_at(a, s), mantissa_at(b, s));
    &&& a.mantissa_spec() == 0 ==> difference == Some(b.negated_spec())
    &&& a.mantissa_spec() != 0 && b.mantissa_spec() == 0 ==> difference == Some(a)
    &&& x != 0 && y != 0 && fits(x) && fits(y) && fits(x - y) ==> difference == Some(
        Decimal::made(x - y, s),
    )
}

/// What is known of a product: a zero factor gives the zero of scale zero, and where the product of
/// the mantissas fits and the sum of the scales is a scale, the product is exact.
pub open spec fn right_product(a: Decimal, b: Decimal, product: Option<Decimal>) -> bool {
    let m = a.mantissa_spec() * b.mantissa_spec();
    let s = a.scale_spec() + b.scale_spec();
    &&& a.mantissa_spec() == 0 || b.mantissa_spec() == 0 ==> product == Some(zero_spec())
    &&& m != 0 && fits(m) && s <= MAX_SCALE ==> product == Some(Decimal::made(m, s))
}

/// Whether `m / 10^s` is a number, and exactly `a` divided by `b`.
pub open spec fn divides_to(a: Decimal, b: Decimal, m: int, s: nat) -> bool {
    &&& fits(m) && s <= MAX_SCALE
    &&& m * b.mantissa_spec() * pow10(a.scale_spec()) == a.mantissa_spec() * pow10(b.scale_spec())
        * pow10(s)
}

/// What is known of a quotient: there is none by zero, zero divided gives the zero of scale zero,
/// and no quotient has the wrong sign. A whole divisor of at most 32 bits always gives a quotient,
/// and one that divides the mantissa divides it exactly and keeps the scale. By a mantissa of at
/// most 32 bits, a quotient that is a number is exact, whatever its scale.
pub open spec fn right_quotient(a: Decimal, b: Decimal, quotient: Option<Decimal>) -> bool {
    let (x, y) = (a.mantissa_spec(), b.mantissa_spec());
    &&& y == 0 ==> quotient is None
    &&& y != 0 && x == 0 ==> quotient == Some(zero_spec())
    &&& b.scale_spec() == 0 && 1 <= y <= 0xffff_ffff ==> quotient is Some
    &&& b.scale_spec() == 0 && 1 <= y <= 0xffff_ffff && x != 0 && x % y == 0 ==> quotient == Some(
        Decimal::made(x / y, a.scale_spec()),
    )
    &&& quotient matches Some(q) ==> {
        &&& (x > 0) == (y > 0) ==> q.mantissa_spec() >= 0
        &&& (x > 0) != (y > 0) ==> q.mantissa_spec() <= 0
    }
    &&& 1 <= size_of_int(y) <= 0xffff_ffff ==> forall|m: int, s: nat| #[trigger]
        divides_to(a, b, m, s) ==> (quotient matches Some(q) && q.mantissa_spec() * pow10(s) == m
            * pow10(q.scale_spec()))
}

/// What `made` holds.
pub broadcast proof fn made_parts(m: int, s: nat)
    requires
        fits(m),
        s <= MAX_SCALE,
    ensures
        (#[trigger] Decimal::made(m, s)).mantissa_spec() == m,
        Decimal::made(m, s).scale_spec() == s,
{
}

/// A power of ten is above zero.
pub proof fn pow10_is_positive(n: nat)
    ensures
        pow10(n) > 0,
    decreases n,
{
    if n > 0 {
        pow10_is_positive((n - 1) as nat);
    }
}

/// A number is above zero exactly when zero is below it.
pub proof fn positive_is_above_zero(d: Decimal)
    ensures
        d.positive() <==> below(zero_spec(), d),
{
    let m = d.mantissa_spec();
    assert(zero_spec().mantissa_spec() == 0 && zero_spec().scale_spec() == 0);
    assert(pow10(0) == 1);
    assert(m * pow10(0) == m) by (nonlinear_arith)
        requires
            pow10(0) == 1,
    ;
}

/// A number not below one above zero is above zero, and one not above a number below zero is
/// below zero.
pub proof fn sign_by_order(a: Decimal, b: Decimal)
    ensures
        a.positive() && !below(b, a) ==> b.positive(),
        a.negative() && !below(a, b) ==> b.negative(),
{
    let (x, y) = (a.mantissa_spec(), b.mantissa_spec());
    let (p, q) = (pow10(a.scale_spec()), pow10(b.scale_spec()));
    pow10_is_positive(a.scale_spec());
    pow10_is_positive(b.scale_spec());
    assert(x > 0 && x * q <= y * p ==> y > 0) by (nonlinear_arith)
        requires
            p > 0,
            q > 0,
    ;
    assert(x < 0 && y * p <= x * q ==> y < 0) by (nonlinear_arith)
        requires
            p > 0,
            q > 0,
    ;
}

/// No number is below itself.
pub proof fn below_is_irreflexive(a: Decimal)
    ensures
        !below(a, a),
{
}

/// Where one number is below a second and this below a third, the first is below the third; and
/// the same holds where one of the two steps is only "not above".
pub proof fn below_is_transitive(a: Decimal, b: Decimal, c: Decimal)
    ensures
        below(a, b) && !below(c, b) ==> below(a, c),
        !below(b, a) && below(b, c) ==> below(a, c),
        !below(b, a) && !below(c, b) ==> !below(c, a),
{
    let (pa, pb, pc) = (pow10(a.scale_spec()), pow10(b.scale_spec()), pow10(c.scale_spec()));
    pow10_is_positive(a.scale_spec());
    pow10_is_positive(b.scale_spec());
    pow10_is_positive(c.scale_spec());
    let (x, y, z) = (a.mantissa_spec(), b.mantissa_spec(), c.mantissa_spec());
    assert(x * pb < y * pa && y * pc <= z * pb ==> x * pc < z * pa) by (nonlinear_arith)
        requires
            pa > 0,
            pb > 0,
            pc > 0,
    {
        if x * pb < y * pa && y * pc <= z * pb {
            assert((x * pb) * pc < (y * pa) * pc);
            assert((y * pc) * pa <= (z * pb) * pa);
            assert((x * pc) * pb < (z * pa) * pb);
        }
    }
    assert(x * pb <= y * pa && y * pc < z * pb ==> x * pc < z * pa) by (nonlinear_arith)
        requires
            pa > 0,
            pb > 0,
            pc > 0,
    {
        if x * pb <= y * pa && y * pc < z * pb {
            assert((x * pb) * pc <= (y * pa) * pc);
            assert((y * pc) * pa < (z * pb) * pa);
            assert((x * pc) * pb < (z * pa) * pb);
        }
    }
    assert(x * pb <= y * pa && y * pc <= z * pb ==> x * pc <= z * pa) by (nonlinear_arith)
        requires
            pa > 0,
            pb > 0,
            pc > 0,
    {
        if x * pb <= y * pa && y * pc <= z * pb {
            assert((x * pb) * pc <= (y * pa) * pc);
            assert((y * pc) * pa <= (z * pb) * pa);
            assert((x * pc) * pb <= (z * pa) * pb);
        }
    }
}

/// What is written of a number with a given count of digits holds only digits.
pub proof fn padded_digits_are_digits(n: nat, width: nat)
    ensures
        forall|i: int|
            0 <= i < padded_digits(n, width).len() ==> is_digit(
                #[trigger] padded_digits(n, width)[i],
            ),
    decreases width,
{
    if width > 0 {
        padded_digits_are_digits(n / 10, (width - 1) as nat);
        let before = padded_digits(n / 10, (width - 1) as nat);
        assert forall|i: int| 0 <= i < padded_digits(n, width).len() implies is_digit(
            #[trigger] padded_digits(n, width)[i],
        ) by {
            if i < before.len() {
                assert(is_digit(before[i]));
            }
        }
    }
}

/// What is written of a number holds only digits, a point and a minus sign, so no comma.
pub proof fn numbers_hold_no_comma(d: Decimal)
    ensures
        free_of(decimal_text(d), ','),
{
    let size = size_of_int(d.mantissa_spec());
    let scale = d.scale_spec();
    let whole = digits(size / pow10(scale));
    let rest = padded_digits(size % pow10(scale), scale);
    counts_are_digits(size / pow10(scale));
    padded_digits_are_digits(size % pow10(scale), scale);
    assert forall|i: int| 0 <= i < whole.len() implies #[trigger] whole[i] != ',' by {
        assert(is_digit(whole[i]));
    }
    assert forall|i: int| 0 <= i < rest.len() implies #[trigger] rest[i] != ',' by {
        assert(is_digit(rest[i]));
    }
}

// What follows is called from `rust_decimal`.

/// What `rust_decimal::Decimal::checked_add` gives.
pub uninterp spec fn decimal_sum(a: Decimal, b: Decimal) -> Option<Decimal>;

/// What `rust_decimal::Decimal::checked_sub` gives.
pub uninterp spec fn decimal_difference(a: Decimal, b: Decimal) -> Option<Decimal>;

/// What `rust_decimal::Decimal::checked_mul` gives.
pub uninterp spec fn decimal_product(a: Decimal, b: Decimal) -> Option<Decimal>;

/// What `rust_decimal::Decimal::checked_div` gives.
pub uninterp spec fn decimal_quotient(a: Decimal, b: Decimal) -> Option<Decimal>;

/// The number that `rust_decimal::Decimal::from_str` reads.
pub uninterp spec fn decimal_parsed(text: Seq<char>) -> Option<Decimal>;

/// `rust_decimal::Decimal::checked_add`: the sum is a function of the two numbers. Adding to or
/// from a zero gives the other number as it is, and where both numbers and their sum fit when
/// written with the larger of the two scales, the sum is exact and has that scale. How a longer
/// sum is shortened is not said.
#[verifier::external_body]
fn checked_add(a: Decimal, b: Decimal) -> (sum: Option<Decimal>)
    requires
        a.valid(),
        b.valid(),
    ensures
        sum == decimal_sum(a, b),
        right_sum(a, b, sum),
{
    let x = rust_decimal::Decimal::from_i128_with_scale(a.mantissa, a.scale);
    let y = rust_decimal::Decimal::from_i128_with_scale(b.mantissa, b.scale);
    x.checked_add(y).map(|d| Decimal { mantissa: d.mantissa(), scale: d.scale() })
}

/// `rust_decimal::Decimal::checked_sub`: the difference is a function of the two numbers. Taking a
/// zero away gives the first number as it is, taking from zero the second one negated, and where
/// both numbers and their difference fit when written with the larger of the two scales, the
/// difference is exact and has that scale. How a longer difference is shortened is not said.
#[verifier::external_body]
fn checked_sub(a: Decimal, b: Decimal) -> (difference: Option<Decimal>)
    requires
        a.valid(),
        b.valid(),
    ensures
        difference == decimal_difference(a, b),
        right_difference(a, b, difference),
{
    let x = rust_decimal::Decimal::from_i128_with_scale(a.mantissa, a.scale);
    let y = rust_decimal::Decimal::from_i128_with_scale(b.mantissa, b.scale);
    x.checked_sub(y).map(|d| Decimal { mantissa: d.mantissa(), scale: d.scale() })
}

/// `rust_decimal::Decimal::checked_mul`: the product is a function of the two numbers. A zero
/// factor gives the zero of scale zero, and where the product of the mantissas fits and the sum of
/// the scales is a scale, the product is exact. How a longer product is shortened is not said.
#[verifier::external_body]
fn checked_mul(a: Decimal, b: Decimal) -> (product: Option<Decimal>)
    requires
        a.valid(),
        b.valid(),
    ensures
        product == decimal_product(a, b),
        right_product(a, b, product),
{
    let x = rust_decimal::Decimal::from_i128_with_scale(a.mantissa, a.scale);
    let y = rust_decimal::Decimal::from_i128_with_scale(b.mantissa, b.scale);
    x.checked_mul(y).map(|d| Decimal { mantissa: d.mantissa(), scale: d.scale() })
}

/// `rust_decimal::Decimal::checked_div`: the quotient is a function of the two numbers. There is
/// none by zero, zero divided gives the zero of scale zero, and no quotient has the wrong sign. A
/// whole divisor of at most 32 bits always gives a quotient, and one that divides the mantissa
/// divides it exactly and keeps the scale. By a mantissa of at most 32 bits, a quotient that is a
/// number is exact. How many digits another quotient has, and how its last one is rounded, is not
/// said.
#[verifier::external_body]
fn checked_div(a: Decimal, b: Decimal) -> (quotient: Option<Decimal>)
    requires
        a.valid(),
        b.valid(),
    ensures
        quotient == decimal_quotient(a, b),
        right_quotient(a, b, quotient),
{
    let x = rust_decimal::Decimal::from_i128_with_scale(a.mantissa, a.scale);
    let y = rust_decimal::Decimal::from_i128_with_scale(b.mantissa, b.scale);
    x.checked_div(y).map(|d| Decimal { mantissa: d.mantissa(), scale: d.scale() })
}

/// `<` on `rust_decimal::Decimal` compares the numbers, whatever their scales.
#[verifier::external_body]
fn less_than(a: Decimal, b: Decimal) -> (yes: bool)
    requires
        a.valid(),
        b.valid(),
    ensures
        yes == below(a, b),
{
    let x = rust_decimal::Decimal::from_i128_with_scale(a.mantissa, a.scale);
    let y = rust_decimal::Decimal::from_i128_with_scale(b.mantissa, b.scale);
    x < y
}

/// `rust_decimal::Decimal::round_dp` leaves a number that has no more than `places` digits behind
/// the point as it is, and rounds another to `places` digits, half to even.
#[verifier::external_body]
fn rounded_to(a: Decimal, places: u32) -> (d: Decimal)
    requires
        a.valid(),
    ensures
        d == a.rounded(places as nat),
{
    let x = rust_decimal::Decimal::from_i128_with_scale(a.mantissa, a.scale).round_dp(places);
    Decimal { mantissa: x.mantissa(), scale: x.scale() }
}

/// `to_string` on `rust_decimal::Decimal` writes the sign, the whole part and as many digits
/// behind a point as the scale says. `rust_decimal::Decimal::from_str` reads that text back as the
/// same number.
#[verifier::external_body]
fn printed(a: Decimal) -> (t: String)
    requires
        a.valid(),
    ensures
        t@ == decimal_text(a),
        decimal_parsed(t@) == Some(a),
{
    rust_decimal::Decimal::from_i128_with_scale(a.mantissa, a.scale).to_string()
}

/// `rust_decimal::Decimal::from_str`: what is read, if anything, is a function of the text.
#[verifier::external_body]
fn parsed(text: &str) -> (number: Option<Decimal>)
    ensures
        number == decimal_parsed(text@),
{
    let x = <rust_decimal::Decimal as std::str::FromStr>::from_str(text).ok()?;
    Some(Decimal { mantissa: x.mantissa(), scale: x.scale() })
}

} // verus!

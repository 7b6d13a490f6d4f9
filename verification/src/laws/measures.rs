//! What the measured numbers mean: middles, moves in basis points, and money.

use vstd::prelude::*;

use crate::decimal::{
    below, decimal_difference, decimal_product, decimal_quotient, decimal_sum, divides_to, fits,
    made_parts, mantissa_at, pow10, pow10_is_positive, whole, Decimal, MAX_SCALE,
};
use crate::quotes::{
    in_bps, mid_of, move_bps, right_bps, right_mid, right_move, spread_bps_of, QuoteUpdate,
};

verus! {

/// Whether `d` is a number that can be written down.
pub open spec fn in_range(d: Decimal) -> bool {
    fits(d.mantissa_spec()) && d.scale_spec() <= MAX_SCALE
}

/// Whether `d` is the number `m / 10^s`.
pub open spec fn is_number(d: Decimal, m: int, s: nat) -> bool {
    d.mantissa_spec() * pow10(s) == m * pow10(d.scale_spec())
}

/// Whether `mid` is half of what the two prices of `q` make together.
pub open spec fn is_middle(q: QuoteUpdate, mid: Decimal) -> bool {
    decimal_sum(q.bid, q.ask) matches Some(both) && decimal_quotient(both, Decimal::made(2, 0))
        == Some(mid)
}

/// Whether `bps` is ten thousand times the share that `part` has in `base`.
pub open spec fn is_share(part: Decimal, base: Decimal, bps: Decimal) -> bool {
    decimal_quotient(part, base) matches Some(share) && decimal_product(
        share,
        Decimal::made(10_000, 0),
    ) == Some(bps)
}

/// Whether `bps` is the way from `from` to `to`, in ten thousandths of `from`.
pub open spec fn is_move(from: Decimal, to: Decimal, bps: Decimal) -> bool {
    decimal_difference(to, from) matches Some(way) && is_share(way, from, bps)
}

/// Whether `money` is as many ten thousandths of `stake` as `bps` says.
pub open spec fn is_money(stake: Decimal, bps: Decimal, money: Decimal) -> bool {
    decimal_product(stake, bps) matches Some(p) && decimal_quotient(p, Decimal::made(10_000, 0))
        == Some(money)
}

/// Whether `bps` is the way from the bid to the ask of `q` in ten thousandths of its middle, or
/// zero where that is not above zero.
pub open spec fn is_spread(bid: Decimal, ask: Decimal, bps: Decimal) -> bool {
    decimal_sum(bid, ask) matches Some(both) && (decimal_quotient(both, Decimal::made(2, 0)) matches Some(
        mid,
    ) && if mid.mantissa_spec() > 0 {
        decimal_difference(ask, bid) matches Some(width) && is_share(width, mid, bps)
    } else {
        bps == Decimal::made(0, 0)
    })
}

proof fn lemma_at_own_scale(d: Decimal)
    ensures
        mantissa_at(d, d.scale_spec()) == d.mantissa_spec(),
{
    let m = d.mantissa_spec();
    assert(pow10(0) == 1);
    assert(m * pow10(0) == m) by (nonlinear_arith)
        requires
            pow10(0) == 1,
    ;
}

/// A quote has one middle: the number that, taken twice, is the sum of its prices.
pub proof fn middle_is_half_the_sum(bid: Decimal, ask: Decimal, m: int, s: nat)
    requires
        right_mid(bid, ask),
        in_range(bid),
        in_range(ask),
        bid.mantissa_spec() > 0,
        ask.mantissa_spec() > 0,
        bid.scale_spec() == ask.scale_spec(),
        fits(bid.mantissa_spec() + ask.mantissa_spec()),
        fits(m) && s <= MAX_SCALE,
        2 * m * pow10(bid.scale_spec()) == (bid.mantissa_spec() + ask.mantissa_spec()) * pow10(s),
    ensures
        mid_of(bid, ask) matches Some(mid) && is_number(mid, m, s),
{
    let c = bid.scale_spec();
    let (x, y) = (bid.mantissa_spec(), ask.mantissa_spec());
    assert(pow10(0) == 1);
    lemma_at_own_scale(bid);
    lemma_at_own_scale(ask);
    made_parts(x + y, c);
    made_parts(2, 0);
    let sum = Decimal::made(x + y, c);
    assert(decimal_sum(bid, ask) == Some(sum));
    assert(m * 2 * pow10(c) == (x + y) * pow10(0) * pow10(s)) by (nonlinear_arith)
        requires
            2 * m * pow10(c) == (x + y) * pow10(s),
            pow10(0) == 1,
    ;
    assert(divides_to(sum, whole(2), m, s));
}

/// A share that is a number makes exactly ten thousand times as many basis points, where the base
/// has at most 32 bits and the result can be written with the digits of the share.
pub proof fn share_is_ten_thousandths(part: Decimal, base: Decimal, m: int, s: nat)
    requires
        right_bps(part, base),
        in_range(base),
        1 <= base.mantissa_spec() <= 0xffff_ffff,
        divides_to(part, base, m, s),
        m != 0,
    ensures
        decimal_quotient(part, base) matches Some(share) && is_number(share, m, s) && (
        share.scale_spec() <= MAX_SCALE && fits(share.mantissa_spec() * 10_000) ==> (in_bps(
            part,
            base,
        ) matches Some(x) && is_number(x, 10_000 * m, s))),
{
    made_parts(10_000, 0);
    let share = decimal_quotient(part, base)->0;
    let (q, t) = (share.mantissa_spec(), share.scale_spec());
    assert(is_number(share, m, s));
    pow10_is_positive(t);
    pow10_is_positive(s);
    assert(q != 0) by (nonlinear_arith)
        requires
            q * pow10(s) == m * pow10(t),
            pow10(t) > 0,
            m != 0,
    ;
    if t <= MAX_SCALE && fits(q * 10_000) {
        made_parts(q * 10_000, t);
        assert((q * 10_000) * pow10(s) == (10_000 * m) * pow10(t)) by (nonlinear_arith)
            requires
                q * pow10(s) == m * pow10(t),
        ;
    }
}

/// A price that stands still has not moved.
pub proof fn standing_still_is_no_move(price: Decimal)
    requires
        right_move(price, price),
        in_range(price),
        price.mantissa_spec() > 0,
    ensures
        move_bps(price, price) matches Some(moved) && moved.mantissa_spec() == 0,
{
    let c = price.scale_spec();
    assert(pow10(0) == 1);
    lemma_at_own_scale(price);
    made_parts(0, c);
    made_parts(0, 0);
    assert(decimal_difference(price, price) == Some(Decimal::made(0, c)));
}

/// Middles, moves and spreads are what their names say.
pub proof fn measures_mean_what_they_say(q: QuoteUpdate, from: Decimal, to: Decimal)
    ensures
        mid_of(q.bid, q.ask) matches Some(mid) ==> is_middle(q, mid),
        q.mid_spec() == mid_of(q.bid, q.ask),
        in_bps(from, to) matches Some(x) ==> is_share(from, to, x),
        move_bps(from, to) matches Some(x) ==> is_move(from, to, x),
        spread_bps_of(q.bid, q.ask) matches Some(x) ==> is_spread(q.bid, q.ask, x),
{
}

/// A price that rises has moved up, and one that falls has moved down: the move has the sign of the
/// way, whatever its size.
pub proof fn moves_have_the_sign_of_the_way(from: Decimal, to: Decimal)
    requires
        right_move(from, to),
        in_range(from),
        in_range(to),
        from.mantissa_spec() > 0,
        to.mantissa_spec() > 0,
        from.scale_spec() == to.scale_spec(),
    ensures
        decimal_difference(to, from) matches Some(way) && (way.mantissa_spec() > 0 <==> below(
            from,
            to,
        )) && (way.mantissa_spec() < 0 <==> below(to, from)),
{
    let c = from.scale_spec();
    let (x, y) = (from.mantissa_spec(), to.mantissa_spec());
    assert(pow10(0) == 1);
    lemma_at_own_scale(from);
    lemma_at_own_scale(to);
    made_parts(y - x, c);
    pow10_is_positive(c);
    assert((x * pow10(c) < y * pow10(c)) == (x < y)) by (nonlinear_arith)
        requires
            pow10(c) > 0,
    ;
    assert((y * pow10(c) < x * pow10(c)) == (y < x)) by (nonlinear_arith)
        requires
            pow10(c) > 0,
    ;
}

} // verus!

//! Volume-weighted quoting: the average price that a market order of a given
//! size would get against one side of the book.

use crate::decimal::{
    difference, difference_is_exact, product, product_is_exact, quotient, quotient_is_exact, smaller, sum,
    sum_is_exact, unit, Decimal,
};
use crate::error::Error;
use crate::side::PriceLevel;
use vstd::prelude::*;

verus! {

/// The notional that an order collects when it walks the levels in order,
/// with `remaining` still to fill and `notional` collected so far. At each
/// level it takes the smaller of the level's quantity and what remains, at the
/// level's price, and it stops when nothing remains or the levels end. `None`
/// where a product, a sum or a difference overflows.
pub open spec fn fill(levels: Seq<PriceLevel>, remaining: Decimal, notional: Decimal) -> Option<Decimal>
    decreases levels.len(),
{
    if levels.len() == 0 {
        Some(notional)
    } else {
        let level = levels.first();
        let take = smaller(level.quantity, remaining);
        match product(take, level.price) {
            None => None,
            Some(cost) => match sum(notional, cost) {
                None => None,
                Some(total) => match difference(remaining, take) {
                    None => None,
                    Some(rest) => if rest.is_zero_spec() {
                        Some(total)
                    } else {
                        fill(levels.drop_first(), rest, total)
                    },
                },
            },
        }
    }
}

/// The quote for `size` against levels given best first: the collected
/// notional divided by the whole of `size`, also where the levels hold less
/// than `size`.
pub open spec fn quote_of(levels: Seq<PriceLevel>, size: Decimal) -> Result<Decimal, Error> {
    if !size.is_positive_spec() {
        Err(Error::InvalidQuoteSize)
    } else {
        match fill(levels, size, Decimal::zero_spec()) {
            None => Err(Error::Overflow),
            Some(notional) => match quotient(notional, size) {
                None => Err(Error::Overflow),
                Some(price) => Ok(price),
            },
        }
    }
}

/// The levels cover what remains: an order that walks them is filled at one
/// of them, with nothing left over.
pub open spec fn covers(levels: Seq<PriceLevel>, remaining: Decimal) -> bool
    decreases levels.len(),
{
    levels.len() > 0 && match difference(remaining, smaller(levels.first().quantity, remaining)) {
        None => false,
        Some(rest) => rest.is_zero_spec() || covers(levels.drop_first(), rest),
    }
}

/// An order that the first levels cover does not reach the levels behind
/// them: it collects the notional of the first levels alone.
pub proof fn lemma_fill_stops_when_covered(
    top: Seq<PriceLevel>,
    deeper: Seq<PriceLevel>,
    remaining: Decimal,
    notional: Decimal,
)
    requires
        covers(top, remaining),
    ensures
        fill(top + deeper, remaining, notional) == fill(top, remaining, notional),
    decreases top.len(),
{
    let all = top + deeper;
    assert(all.first() == top.first());
    assert(all.drop_first() =~= top.drop_first() + deeper);
    let level = top.first();
    let take = smaller(level.quantity, remaining);
    let rest = difference(remaining, take)->Some_0;
    if !rest.is_zero_spec() {
        match product(take, level.price) {
            None => {},
            Some(cost) => match sum(notional, cost) {
                None => {},
                Some(total) => {
                    lemma_fill_stops_when_covered(top.drop_first(), deeper, rest, total);
                },
            },
        }
    }
}

/// For a size that the top levels cover, the quote is the notional of those
/// levels, each taken at its own price for the quantity that the order takes
/// from it, over the size; no level behind them changes it.
pub proof fn lemma_quote_of_covered_size(top: Seq<PriceLevel>, deeper: Seq<PriceLevel>, size: Decimal)
    requires
        covers(top, size),
    ensures
        quote_of(top + deeper, size) == quote_of(top, size),
{
    lemma_fill_stops_when_covered(top, deeper, size, Decimal::zero_spec());
}

/// No sum, product or difference on the walk is rounded.
pub open spec fn walk_is_exact(levels: Seq<PriceLevel>, remaining: Decimal, notional: Decimal) -> bool
    decreases levels.len(),
{
    levels.len() == 0 || {
        let level = levels.first();
        let take = smaller(level.quantity, remaining);
        let total = sum(notional, product(take, level.price)->Some_0)->Some_0;
        let rest = difference(remaining, take)->Some_0;
        &&& product_is_exact(take, level.price)
        &&& sum_is_exact(notional, product(take, level.price)->Some_0)
        &&& difference_is_exact(remaining, take)
        &&& rest.is_zero_spec() || walk_is_exact(levels.drop_first(), rest, total)
    }
}

/// The smaller of two integers.
pub open spec fn least(a: int, b: int) -> int {
    if b < a {
        b
    } else {
        a
    }
}

/// The quantity that an order of `remaining` takes from the levels, as a
/// number: from each level the smaller of its quantity and what remains,
/// until nothing remains.
pub open spec fn taken(levels: Seq<PriceLevel>, remaining: int) -> int
    decreases levels.len(),
{
    if levels.len() == 0 {
        0
    } else {
        let take = least(levels.first().quantity.value(), remaining);
        take + if remaining - take == 0 {
            0
        } else {
            taken(levels.drop_first(), remaining - take)
        }
    }
}

/// The notional that an order of `remaining` collects from the levels, as a
/// number: what it takes from each level times the price of that level.
pub open spec fn paid(levels: Seq<PriceLevel>, remaining: int) -> int
    decreases levels.len(),
{
    if levels.len() == 0 {
        0
    } else {
        let take = least(levels.first().quantity.value(), remaining);
        take * levels.first().price.value() + if remaining - take == 0 {
            0
        } else {
            paid(levels.drop_first(), remaining - take)
        }
    }
}

/// On a walk without rounding the notional collected is the number `paid`.
pub proof fn lemma_exact_fill(levels: Seq<PriceLevel>, remaining: Decimal, notional: Decimal)
    requires
        walk_is_exact(levels, remaining, notional),
    ensures
        fill(levels, remaining, notional) is Some,
        fill(levels, remaining, notional)->Some_0.value() * unit() == notional.value() * unit() + paid(
            levels,
            remaining.value(),
        ),
    decreases levels.len(),
{
    if levels.len() > 0 {
        let level = levels.first();
        let take = smaller(level.quantity, remaining);
        let cost = product(take, level.price)->Some_0;
        let total = sum(notional, cost)->Some_0;
        let rest = difference(remaining, take)->Some_0;
        rest.lemma_value_sign();
        assert(take.value() == least(level.quantity.value(), remaining.value()));
        assert(total.value() * unit() == notional.value() * unit() + cost.value() * unit())
            by (nonlinear_arith)
            requires
                total.value() == notional.value() + cost.value(),
        ;
        if !rest.is_zero_spec() {
            lemma_exact_fill(levels.drop_first(), rest, total);
        }
    }
}

/// On a walk without rounding that the levels cover, what is taken from them
/// adds up to the size.
pub proof fn lemma_covered_size_is_taken(levels: Seq<PriceLevel>, remaining: Decimal, notional: Decimal)
    requires
        covers(levels, remaining),
        walk_is_exact(levels, remaining, notional),
    ensures
        taken(levels, remaining.value()) == remaining.value(),
    decreases levels.len(),
{
    let level = levels.first();
    let take = smaller(level.quantity, remaining);
    let total = sum(notional, product(take, level.price)->Some_0)->Some_0;
    let rest = difference(remaining, take)->Some_0;
    rest.lemma_value_sign();
    assert(take.value() == least(level.quantity.value(), remaining.value()));
    if !rest.is_zero_spec() {
        lemma_covered_size_is_taken(levels.drop_first(), rest, total);
    }
}

/// An order never takes more than its size.
pub proof fn lemma_taken_at_most(levels: Seq<PriceLevel>, remaining: int)
    requires
        remaining >= 0,
    ensures
        taken(levels, remaining) <= remaining,
    decreases levels.len(),
{
    if levels.len() > 0 {
        let take = least(levels.first().quantity.value(), remaining);
        if remaining - take != 0 {
            lemma_taken_at_most(levels.drop_first(), remaining - take);
        }
    }
}

/// Where nothing on the way is rounded, the quote times the size is the
/// notional paid. The size stands in full, also where the levels hold less:
/// what is taken from them is at most the size.
pub proof fn lemma_quote_times_size_is_paid(levels: Seq<PriceLevel>, size: Decimal)
    requires
        size.is_positive_spec(),
        walk_is_exact(levels, size, Decimal::zero_spec()),
        quotient_is_exact(fill(levels, size, Decimal::zero_spec())->Some_0, size),
    ensures
        quote_of(levels, size) is Ok,
        quote_of(levels, size)->Ok_0.value() * size.value() == paid(levels, size.value()),
        taken(levels, size.value()) <= size.value(),
{
    let zero = Decimal::zero_spec();
    Decimal::lemma_zero();
    size.lemma_value_sign();
    lemma_exact_fill(levels, size, zero);
    lemma_taken_at_most(levels, size.value());
    let n = fill(levels, size, zero)->Some_0;
    let q = quotient(n, size)->Some_0;
    assert(q.value() * size.value() == paid(levels, size.value())) by (nonlinear_arith)
        requires
            q.value() * size.value() == n.value() * unit(),
            n.value() * unit() == zero.value() * unit() + paid(levels, size.value()),
            zero.value() == 0,
    ;
}

/// For a size that the levels cover, and where nothing on the way is rounded,
/// the quote is the quantity-weighted average of the levels that the order
/// takes from: the quote times the quantity taken is the notional paid, and
/// the quantity taken is the size.
pub proof fn lemma_quote_is_weighted_average(levels: Seq<PriceLevel>, size: Decimal)
    requires
        size.is_positive_spec(),
        covers(levels, size),
        walk_is_exact(levels, size, Decimal::zero_spec()),
        quotient_is_exact(fill(levels, size, Decimal::zero_spec())->Some_0, size),
    ensures
        quote_of(levels, size) is Ok,
        quote_of(levels, size)->Ok_0.value() * taken(levels, size.value()) == paid(levels, size.value()),
        taken(levels, size.value()) == size.value(),
{
    lemma_quote_times_size_is_paid(levels, size);
    lemma_covered_size_is_taken(levels, size, Decimal::zero_spec());
}

/// A book that can price market orders.
pub trait Quoter {
    /// The levels that a buy order walks, best first.
    spec fn buy_levels(&self) -> Seq<PriceLevel>;

    /// The levels that a sell order walks, best first.
    spec fn sell_levels(&self) -> Seq<PriceLevel>;

    /// The average price of a market order of `size` against `book`, whose
    /// levels stand best first.
    fn quote(size: &Decimal, book: &Vec<PriceLevel>) -> (r: Result<Decimal, Error>)
        ensures
            r == quote_of(book@, *size),
    {
        if !size.is_positive() {
            return Err(Error::InvalidQuoteSize);
        }
        let mut remaining: Decimal = *size;
        let mut amount: Decimal = Decimal::zero();
        let mut filled = false;
        let mut i: usize = 0;
        proof {
            assert(book@.skip(0) =~= book@);
        }
        while i < book.len() && !filled
            invariant
                i <= book@.len(),
                size.is_positive_spec(),
                filled ==> fill(book@, *size, Decimal::zero_spec()) == Some(amount),
                !filled ==> fill(book@, *size, Decimal::zero_spec()) == fill(
                    book@.skip(i as int),
                    remaining,
                    amount,
                ),
            decreases book@.len() - i, if filled { 0int } else { 1int },
        {
            let level = book[i];
            proof {
                assert(book@.skip(i as int).first() == level);
                assert(book@.skip(i as int).drop_first() =~= book@.skip(i + 1));
            }
            let min = level.quantity.min(&remaining);
            let cost = match min.checked_mul(&level.price) {
                Some(cost) => cost,
                None => {
                    return Err(Error::Overflow);
                },
            };
            amount = match amount.checked_add(&cost) {
                Some(total) => total,
                None => {
                    return Err(Error::Overflow);
                },
            };
            remaining = match remaining.checked_sub(&min) {
                Some(rest) => rest,
                None => {
                    return Err(Error::Overflow);
                },
            };
            if remaining.is_zero() {
                filled = true;
            } else {
                i += 1;
            }
        }
        match amount.checked_div(size) {
            Some(price) => Ok(price),
            None => Err(Error::Overflow),
        }
    }

    /// The price of a market buy of `quantity`.
    fn buy(&self, quantity: &Decimal) -> (r: Result<Decimal, Error>)
        ensures
            r == quote_of(self.buy_levels(), *quantity),
    ;

    /// The price of a market sell of `quantity`.
    fn sell(&self, quantity: &Decimal) -> (r: Result<Decimal, Error>)
        ensures
            r == quote_of(self.sell_levels(), *quantity),
    ;
}

} // verus!

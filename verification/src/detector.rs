//! Opportunity detection: given two normalized prices, decide whether either
//! directional round trip is profitable net of a fixed cost and above a
//! threshold.

use vstd::prelude::*;

verus! {

/// A normalized price observation for one venue in one polling cycle.
///
/// `price` is the quoted output amount for the fixed trade size, counted in
/// millionths of the output token, so quotes from different venues compare
/// directly as integers.
#[derive(Clone, Copy, Debug, PartialEq, Eq, Structural)]
pub struct Quote {
    /// Identifier of the venue (DEX router) that produced the quote.
    pub venue: u64,
    /// Normalized price in micro-units of the output token.
    pub price: u64,
}

/// A detected profitable directional round trip between two venues, net of
/// the fixed simulated cost. Transient: produced for one cycle, then only
/// reported.
#[derive(Clone, Copy, Debug, PartialEq, Eq, Structural)]
pub struct Opportunity {
    /// Venue to buy on (the cheaper one).
    pub buy_venue: u64,
    /// Venue to sell on (the more expensive one).
    pub sell_venue: u64,
    /// Price quoted by the buy venue, micro-units.
    pub buy_price: u64,
    /// Price quoted by the sell venue, micro-units.
    pub sell_price: u64,
    /// Net profit `sell_price - buy_price - cost`, micro-units.
    pub profit: u64,
}

/// One direction of a round trip is profitable when the sell price exceeds
/// the buy price by strictly more than the simulated cost plus the minimum
/// profit threshold.
pub open spec fn direction_profitable(buy: u64, sell: u64, cost: u64, threshold: u64) -> bool {
    sell > buy && sell - buy - cost > threshold
}

/// Absolute difference of the two prices, as a mathematical integer.
pub open spec fn abs_diff(pa: u64, pb: u64) -> int {
    if pa >= pb {
        pa - pb
    } else {
        pb - pa
    }
}

/// What evaluating one pair of quotes yields: the first profitable direction,
/// carrying both prices and the net profit.
pub open spec fn spec_evaluate_pair(a: Quote, b: Quote, cost: u64, threshold: u64) -> Option<
    Opportunity,
> {
    if direction_profitable(a.price, b.price, cost, threshold) {
        Some(
            Opportunity {
                buy_venue: a.venue,
                sell_venue: b.venue,
                buy_price: a.price,
                sell_price: b.price,
                profit: (b.price - a.price - cost) as u64,
            },
        )
    } else if direction_profitable(b.price, a.price, cost, threshold) {
        Some(
            Opportunity {
                buy_venue: b.venue,
                sell_venue: a.venue,
                buy_price: b.price,
                sell_price: a.price,
                profit: (a.price - b.price - cost) as u64,
            },
        )
    } else {
        None
    }
}

/// Evaluate both directions of a round trip between the two quotes.
///
/// Returns the opportunity of the single profitable direction, if any:
/// buy on the cheaper venue, sell on the dearer one, with net profit
/// `|a.price - b.price| - cost`, which must strictly exceed `threshold`.
pub fn evaluate_pair(a: Quote, b: Quote, cost: u64, threshold: u64) -> (r: Option<Opportunity>)
    ensures
        r == spec_evaluate_pair(a, b, cost, threshold),
        r is Some <==> abs_diff(a.price, b.price) - cost > threshold,
        r is Some ==> r.unwrap().profit == abs_diff(a.price, b.price) - cost,
        r is Some ==> r.unwrap().profit > threshold,
        r is Some ==> r.unwrap().sell_price > r.unwrap().buy_price,
{
    if b.price > a.price {
        let diff: u64 = b.price - a.price;
        if diff as u128 > cost as u128 + threshold as u128 {
            return Some(
                Opportunity {
                    buy_venue: a.venue,
                    sell_venue: b.venue,
                    buy_price: a.price,
                    sell_price: b.price,
                    profit: diff - cost,
                },
            );
        }
    }
    if a.price > b.price {
        let diff: u64 = a.price - b.price;
        if diff as u128 > cost as u128 + threshold as u128 {
            return Some(
                Opportunity {
                    buy_venue: b.venue,
                    sell_venue: a.venue,
                    buy_price: b.price,
                    sell_price: a.price,
                    profit: diff - cost,
                },
            );
        }
    }
    None
}

/// What evaluating a cycle's quote list yields: with exactly two comparable
/// quotes, the evaluation of the pair; with fewer (or, in this fixed
/// two-venue design, more), nothing — a normal skipped cycle, not an error.
pub open spec fn spec_evaluate(quotes: Seq<Quote>, cost: u64, threshold: u64) -> Option<
    Opportunity,
> {
    if quotes.len() == 2 {
        spec_evaluate_pair(quotes[0], quotes[1], cost, threshold)
    } else {
        None
    }
}

/// Evaluate the quotes collected in one cycle.
///
/// Exactly two quotes are compared in both directions; any other count
/// yields no opportunity.
pub fn evaluate(quotes: &Vec<Quote>, cost: u64, threshold: u64) -> (r: Option<Opportunity>)
    ensures
        r == spec_evaluate(quotes@, cost, threshold),
        quotes@.len() < 2 ==> r is None,
{
    if quotes.len() == 2 {
        evaluate_pair(quotes[0], quotes[1], cost, threshold)
    } else {
        None
    }
}

/// At most one direction can be profitable, whatever the cost and threshold,
/// and equal prices admit neither direction.
pub proof fn lemma_directions_exclusive(pa: u64, pb: u64, cost: u64, threshold: u64)
    ensures
        !(direction_profitable(pa, pb, cost, threshold) && direction_profitable(
            pb,
            pa,
            cost,
            threshold,
        )),
        pa == pb ==> !direction_profitable(pa, pb, cost, threshold) && !direction_profitable(
            pb,
            pa,
            cost,
            threshold,
        ),
        pa != pb ==> ((pb > pa) <==> !(pa > pb)),
{
}

/// An opportunity is reported exactly when `|Pa - Pb| - cost` strictly
/// exceeds the threshold, and its recorded profit is exactly that value.
pub proof fn lemma_profit_characterization(a: Quote, b: Quote, cost: u64, threshold: u64)
    ensures
        spec_evaluate_pair(a, b, cost, threshold) is Some <==> abs_diff(a.price, b.price) - cost
            > threshold,
        spec_evaluate_pair(a, b, cost, threshold) is Some ==> spec_evaluate_pair(
            a,
            b,
            cost,
            threshold,
        ).unwrap().profit == abs_diff(a.price, b.price) - cost,
{
}

/// Raising the simulated cost or the profit threshold (or both) can only
/// remove a reported opportunity, never create one.
pub proof fn lemma_cost_threshold_monotone(
    a: Quote,
    b: Quote,
    cost1: u64,
    cost2: u64,
    threshold1: u64,
    threshold2: u64,
)
    requires
        cost1 <= cost2,
        threshold1 <= threshold2,
    ensures
        spec_evaluate_pair(a, b, cost2, threshold2) is Some ==> spec_evaluate_pair(
            a,
            b,
            cost1,
            threshold1,
        ) is Some,
        spec_evaluate_pair(a, b, cost1, threshold1) is None ==> spec_evaluate_pair(
            a,
            b,
            cost2,
            threshold2,
        ) is None,
{
}

} // verus!
